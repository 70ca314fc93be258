use wav_files_validate::integrity::{Failure, Outcome, Stage};
use wav_files_validate::path::TreePath;
use wav_files_validate::sweep::{Action, Config, Counters, Entry, EntryKind, Sweep, SweepError};

fn names(parts: &[&str]) -> TreePath {
    TreePath::new(parts.iter().map(|n| n.as_bytes().to_vec()).collect())
}

fn settings(dry_run: bool) -> Config {
    Config { input_root: names(&["in"]), output_root: names(&["out"]), dry_run }
}

fn file(parts: &[&str]) -> Entry {
    Entry { path: names(parts), kind: EntryKind::File }
}

fn broken() -> Outcome {
    Outcome::Invalid(Failure {
        stage: Stage::Sample,
        detail: "Failed to read enough bytes.".to_string(),
    })
}

#[test]
fn new_counters_are_zero() {
    let c = Counters::new();
    assert_eq!(c.valid(), 0);
    assert_eq!(c.invalid(), 0);
    assert_eq!(c.total(), 0);
}

#[test]
fn record_counts_each_outcome_once() {
    let mut c = Counters::new();
    c.record(&Outcome::Valid);
    assert_eq!((c.valid(), c.invalid(), c.total()), (1, 0, 1));
    c.record(&broken());
    assert_eq!((c.valid(), c.invalid(), c.total()), (1, 1, 2));
    c.record(&broken());
    c.record(&Outcome::Valid);
    c.record(&broken());
    assert_eq!((c.valid(), c.invalid(), c.total()), (2, 3, 5));
}

#[test]
fn new_sweep_keeps_the_settings() {
    let sweep = Sweep::new(settings(true));
    assert_eq!(sweep.config, settings(true));
    assert_eq!(sweep.counters.total(), 0);
}

#[test]
fn screen_gives_the_path_under_the_input_root() {
    let sweep = Sweep::new(settings(false));
    assert_eq!(
        sweep.screen(&file(&["in", "a", "b", "ok.wav"])),
        Ok(Some(names(&["a", "b", "ok.wav"])))
    );
    assert_eq!(sweep.screen(&file(&["in", "top.wav"])), Ok(Some(names(&["top.wav"]))));
}

#[test]
fn screen_ignores_other_extensions() {
    let sweep = Sweep::new(settings(false));
    assert_eq!(sweep.screen(&file(&["in", "notes.txt"])), Ok(None));
    assert_eq!(sweep.screen(&file(&["in", "a", "loud.WAV"])), Ok(None));
    assert_eq!(sweep.screen(&file(&["in", "a", "take.wav.bak"])), Ok(None));
    assert_eq!(sweep.screen(&file(&["in", "a", "wav"])), Ok(None));
    assert_eq!(sweep.screen(&file(&["in", ".wav"])), Ok(None));
    assert_eq!(sweep.screen(&file(&["in", "README"])), Ok(None));
}

#[test]
fn screen_ignores_what_is_not_a_regular_file() {
    let sweep = Sweep::new(settings(false));
    for kind in [EntryKind::Directory, EntryKind::Symlink, EntryKind::Other] {
        let entry = Entry { path: names(&["in", "a", "looks.wav"]), kind };
        assert_eq!(sweep.screen(&entry), Ok(None));
    }
}

#[test]
fn screen_ignores_a_link_even_outside_the_root() {
    let sweep = Sweep::new(settings(false));
    let link = Entry { path: names(&["elsewhere", "x.wav"]), kind: EntryKind::Symlink };
    assert_eq!(sweep.screen(&link), Ok(None));
}

#[test]
fn screen_ignores_the_empty_path() {
    let sweep = Sweep::new(settings(false));
    assert_eq!(sweep.screen(&Entry { path: TreePath::empty(), kind: EntryKind::File }), Ok(None));
}

#[test]
fn screen_fails_for_a_candidate_outside_the_root() {
    let sweep = Sweep::new(settings(false));
    assert_eq!(sweep.screen(&file(&["elsewhere", "x.wav"])), Err(SweepError::OutsideRoot));
    assert_eq!(sweep.screen(&file(&["x.wav"])), Err(SweepError::OutsideRoot));
    assert_eq!(sweep.screen(&file(&["inner", "x.wav"])), Err(SweepError::OutsideRoot));
}

#[test]
fn screen_does_not_fail_for_other_files_outside_the_root() {
    let sweep = Sweep::new(settings(false));
    assert_eq!(sweep.screen(&file(&["elsewhere", "notes.txt"])), Ok(None));
}

#[test]
fn screen_of_the_root_itself_gives_the_empty_path() {
    let sweep = Sweep::new(Config {
        input_root: names(&["one.wav"]),
        output_root: names(&["out"]),
        dry_run: false,
    });
    assert_eq!(sweep.screen(&file(&["one.wav"])), Ok(Some(TreePath::empty())));
}

#[test]
fn screen_does_not_count() {
    let sweep = Sweep::new(settings(false));
    let _ = sweep.screen(&file(&["in", "a.wav"]));
    let _ = sweep.screen(&file(&["in", "b.txt"]));
    assert_eq!(sweep.counters.total(), 0);
}

#[test]
fn settle_keeps_a_valid_file() {
    let mut sweep = Sweep::new(settings(false));
    assert_eq!(sweep.settle(&names(&["a", "b", "ok.wav"]), &Outcome::Valid), Action::Keep);
    assert_eq!((sweep.counters.valid(), sweep.counters.invalid()), (1, 0));
}

#[test]
fn settle_keeps_a_valid_file_in_a_dry_run() {
    let mut sweep = Sweep::new(settings(true));
    assert_eq!(sweep.settle(&names(&["a", "b", "ok.wav"]), &Outcome::Valid), Action::Keep);
    assert_eq!((sweep.counters.valid(), sweep.counters.invalid()), (1, 0));
}

#[test]
fn settle_copies_an_invalid_file_to_the_mirrored_path() {
    let mut sweep = Sweep::new(settings(false));
    assert_eq!(
        sweep.settle(&names(&["a", "c", "bad.wav"]), &broken()),
        Action::Copy { target: names(&["out", "a", "c", "bad.wav"]) }
    );
    assert_eq!((sweep.counters.valid(), sweep.counters.invalid()), (0, 1));
}

#[test]
fn settle_only_announces_in_a_dry_run() {
    let mut sweep = Sweep::new(settings(true));
    assert_eq!(
        sweep.settle(&names(&["a", "c", "bad.wav"]), &broken()),
        Action::Announce { target: names(&["out", "a", "c", "bad.wav"]) }
    );
    assert_eq!((sweep.counters.valid(), sweep.counters.invalid()), (0, 1));
}

#[test]
fn settle_treats_every_failure_alike() {
    for stage in [Stage::Open, Stage::Header, Stage::Sample] {
        let mut sweep = Sweep::new(settings(false));
        let outcome = Outcome::Invalid(Failure { stage, detail: String::new() });
        assert_eq!(
            sweep.settle(&names(&["x.wav"]), &outcome),
            Action::Copy { target: names(&["out", "x.wav"]) }
        );
        assert_eq!(sweep.counters.invalid(), 1);
    }
}

#[test]
fn settle_leaves_the_settings_alone() {
    let mut sweep = Sweep::new(settings(false));
    let _ = sweep.settle(&names(&["x.wav"]), &broken());
    let _ = sweep.settle(&names(&["y.wav"]), &Outcome::Valid);
    assert_eq!(sweep.config, settings(false));
}

#[test]
fn target_keeps_the_relative_path() {
    let mut sweep = Sweep::new(Config {
        input_root: names(&["/", "data", "in"]),
        output_root: names(&["/", "srv", "quarantine"]),
        dry_run: false,
    });
    let rel = sweep.screen(&file(&["/", "data", "in", "2024", "05", "take 1.wav"])).unwrap().unwrap();
    match sweep.settle(&rel, &broken()) {
        Action::Copy { target } => {
            assert_eq!(target, names(&["/", "srv", "quarantine", "2024", "05", "take 1.wav"]));
            assert_eq!(target.relative_to(&sweep.config.output_root), Some(rel));
            assert_eq!(target.parent(), Some(names(&["/", "srv", "quarantine", "2024", "05"])));
        }
        other => panic!("unexpected action {:?}", other),
    }
}
