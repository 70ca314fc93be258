use wav_files_validate::path::{name_has_extension, same_bytes, TreePath};

fn path_of(names: &[&str]) -> TreePath {
    TreePath::new(names.iter().map(|n| n.as_bytes().to_vec()).collect())
}

#[test]
fn same_bytes_compares_content() {
    assert!(same_bytes(b"", b""));
    assert!(same_bytes(b"abc", b"abc"));
    assert!(!same_bytes(b"abc", b"abd"));
    assert!(!same_bytes(b"abc", b"ab"));
    assert!(!same_bytes(b"ab", b"abc"));
    assert!(!same_bytes(b"wav", b"WAV"));
}

#[test]
fn extension_is_what_follows_the_last_dot() {
    assert!(name_has_extension(b"a.wav", b"wav"));
    assert!(name_has_extension(b"take.two.wav", b"wav"));
    assert!(name_has_extension(b"..wav", b"wav"));
    assert!(!name_has_extension(b"a.wav.bak", b"wav"));
    assert!(name_has_extension(b"a.wav.bak", b"bak"));
    assert!(!name_has_extension(b"a.tar.gz", b"tar.gz"));
    assert!(!name_has_extension(b"awav", b"wav"));
    assert!(!name_has_extension(b"wav", b"wav"));
    assert!(!name_has_extension(b"a.wave", b"wav"));
    assert!(!name_has_extension(b"a.wa", b"wav"));
}

#[test]
fn extension_match_is_case_sensitive() {
    assert!(!name_has_extension(b"a.WAV", b"wav"));
    assert!(!name_has_extension(b"a.Wav", b"wav"));
    assert!(name_has_extension(b"A.wav", b"wav"));
    assert!(name_has_extension(b"a.WAV", b"WAV"));
}

#[test]
fn hidden_name_without_stem_has_no_extension() {
    assert!(!name_has_extension(b".wav", b"wav"));
    assert!(name_has_extension(b".hidden.wav", b"wav"));
}

#[test]
fn empty_extension_needs_a_trailing_dot() {
    assert!(name_has_extension(b"a.", b""));
    assert!(!name_has_extension(b"a", b""));
    assert!(!name_has_extension(b"", b""));
    assert!(!name_has_extension(b".", b""));
}

#[test]
fn parent_marker_has_no_extension() {
    assert!(!name_has_extension(b"..", b""));
    assert!(name_has_extension(b"a..", b""));
}

#[test]
fn empty_path_has_no_names() {
    let p = TreePath::empty();
    assert_eq!(p.len(), 0);
    assert_eq!(p.file_name(), None);
    assert_eq!(p.parent(), None);
    assert_eq!(p, path_of(&[]));
}

#[test]
fn file_name_is_the_last_name() {
    let p = path_of(&["in", "a", "b", "ok.wav"]);
    assert_eq!(p.len(), 4);
    assert_eq!(p.file_name(), Some(&b"ok.wav".to_vec()));
}

#[test]
fn parent_drops_the_last_name() {
    assert_eq!(path_of(&["out", "a", "c", "bad.wav"]).parent(), Some(path_of(&["out", "a", "c"])));
    assert_eq!(path_of(&["bad.wav"]).parent(), Some(path_of(&[])));
}

#[test]
fn starts_with_compares_whole_names() {
    let p = path_of(&["in", "a", "ok.wav"]);
    assert!(p.starts_with(&path_of(&[])));
    assert!(p.starts_with(&path_of(&["in"])));
    assert!(p.starts_with(&path_of(&["in", "a"])));
    assert!(p.starts_with(&p));
    assert!(!p.starts_with(&path_of(&["i"])));
    assert!(!p.starts_with(&path_of(&["in", "b"])));
    assert!(!p.starts_with(&path_of(&["a"])));
    assert!(!p.starts_with(&path_of(&["in", "a", "ok.wav", "x"])));
}

#[test]
fn relative_to_strips_the_base() {
    let p = path_of(&["in", "a", "c", "bad.wav"]);
    assert_eq!(p.relative_to(&path_of(&["in"])), Some(path_of(&["a", "c", "bad.wav"])));
    assert_eq!(p.relative_to(&path_of(&[])), Some(p.clone()));
    assert_eq!(p.relative_to(&p), Some(path_of(&[])));
}

#[test]
fn relative_to_fails_outside_the_base() {
    let p = path_of(&["in", "a", "bad.wav"]);
    assert_eq!(p.relative_to(&path_of(&["other"])), None);
    assert_eq!(p.relative_to(&path_of(&["in", "a", "bad.wav", "deeper"])), None);
    assert_eq!(p.relative_to(&path_of(&["in", "a", "bad"])), None);
}

#[test]
fn join_appends_the_names() {
    let out = path_of(&["out"]);
    let rel = path_of(&["a", "c", "bad.wav"]);
    assert_eq!(out.join(&rel), path_of(&["out", "a", "c", "bad.wav"]));
    assert_eq!(out.join(&TreePath::empty()), out);
    assert_eq!(TreePath::empty().join(&rel), rel);
}

#[test]
fn join_then_relative_gives_the_path_back() {
    let out = path_of(&["srv", "out"]);
    let rel = path_of(&["a", "c", "bad.wav"]);
    assert_eq!(out.join(&rel).relative_to(&out), Some(rel));
}

#[test]
fn relative_then_join_gives_the_path_back() {
    let root = path_of(&["srv", "in"]);
    let p = path_of(&["srv", "in", "a", "ok.wav"]);
    let rel = p.relative_to(&root).unwrap();
    assert_eq!(root.join(&rel), p);
}

#[test]
fn names_are_bytes_not_text() {
    let odd = TreePath::new(vec![vec![0xff, 0xfe], vec![b'x', 0x80, b'.', b'w', b'a', b'v']]);
    assert!(name_has_extension(odd.file_name().unwrap(), b"wav"));
    let base = TreePath::new(vec![vec![0xff, 0xfe]]);
    assert_eq!(
        odd.relative_to(&base),
        Some(TreePath::new(vec![vec![b'x', 0x80, b'.', b'w', b'a', b'v']]))
    );
}
