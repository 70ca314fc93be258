//! Paths as sequences of names.
//!
//! A [`TreePath`] holds the names that lead from the top of a tree down to an
//! entry, one byte string per name, the topmost first. The separators between
//! the names are not part of it, so two paths are the same exactly when their
//! names are. The view of a path is the sequence of its names.

use vstd::prelude::*;
use vstd::slice::slice_to_vec;

verus! {

/// The byte that parts a file name from its extension.
pub const DOT: u8 = 0x2e;

/// A path: the names from the top of a tree down to an entry.
#[derive(Clone, Debug, PartialEq, Eq)]
pub struct TreePath {
    pub segments: Vec<Vec<u8>>,
}

impl View for TreePath {
    type V = Seq<Seq<u8>>;

    open spec fn view(&self) -> Seq<Seq<u8>> {
        self.segments@.map_values(|name: Vec<u8>| name@)
    }
}

/// `base` leads to `path` or to a directory above it: the names of `base` are
/// the first names of `path`.
pub open spec fn starts_with(path: Seq<Seq<u8>>, base: Seq<Seq<u8>>) -> bool {
    &&& base.len() <= path.len()
    &&& forall|i: int| 0 <= i < base.len() ==> path[i] == base[i]
}

/// The path that leads from `base` to `path`, if `base` is above `path`.
pub open spec fn relative(path: Seq<Seq<u8>>, base: Seq<Seq<u8>>) -> Option<Seq<Seq<u8>>> {
    if starts_with(path, base) {
        Some(path.skip(base.len() as int))
    } else {
        None
    }
}

/// The directory that holds the entry `path`; the empty path has none.
pub open spec fn parent_of(path: Seq<Seq<u8>>) -> Option<Seq<Seq<u8>>> {
    if path.len() == 0 {
        None
    } else {
        Some(path.drop_last())
    }
}

/// `name` is the parent marker `..`, which is no file name.
pub open spec fn is_parent_marker(name: Seq<u8>) -> bool {
    name.len() == 2 && name[0] == DOT && name[1] == DOT
}

/// The extension of the file name `name` is `ext`: the name is a non-empty
/// stem, a dot and then `ext`, and that dot is the last one in the name.
/// Bytes are compared as they are, so the match is case-sensitive.
pub open spec fn has_extension(name: Seq<u8>, ext: Seq<u8>) -> bool {
    let dot = name.len() - ext.len() - 1;
    &&& dot > 0
    &&& name[dot] == DOT
    &&& name.skip(dot + 1) == ext
    &&& forall|i: int| 0 <= i < ext.len() ==> ext[i] != DOT
    &&& !is_parent_marker(name)
}

/// Whether two byte strings are the same.
pub fn same_bytes(a: &[u8], b: &[u8]) -> (r: bool)
    ensures
        r == (a@ == b@),
{
    if a.len() != b.len() {
        return false;
    }
    let mut i: usize = 0;
    while i < a.len()
        invariant
            a@.len() == b@.len(),
            i <= a@.len(),
            forall|j: int| 0 <= j < i ==> a@[j] == b@[j],
        decreases a@.len() - i,
    {
        if a[i] != b[i] {
            return false;
        }
        i += 1;
    }
    assert(a@ =~= b@);
    true
}

/// Whether `bytes` holds no dot.
fn dot_free(bytes: &[u8]) -> (r: bool)
    ensures
        r == (forall|i: int| 0 <= i < bytes@.len() ==> bytes@[i] != DOT),
{
    let mut i: usize = 0;
    while i < bytes.len()
        invariant
            i <= bytes@.len(),
            forall|j: int| 0 <= j < i ==> bytes@[j] != DOT,
        decreases bytes@.len() - i,
    {
        if bytes[i] == DOT {
            return false;
        }
        i += 1;
    }
    true
}

/// Whether the extension of the file name `name` is `ext`.
pub fn name_has_extension(name: &[u8], ext: &[u8]) -> (r: bool)
    ensures
        r == has_extension(name@, ext@),
{
    let n = name.len();
    let e = ext.len();
    if n < 2 || e > n - 2 {
        return false;
    }
    let dot: usize = n - e - 1;
    if name[dot] != DOT {
        return false;
    }
    if n == 2 && name[0] == DOT {
        return false;
    }
    if !dot_free(ext) {
        return false;
    }
    let tail = vstd::slice::slice_subrange(name, dot + 1, n);
    assert(tail@ =~= name@.skip(dot + 1));
    same_bytes(tail, ext)
}

impl TreePath {
    /// The path with the given names.
    pub fn new(segments: Vec<Vec<u8>>) -> (r: TreePath)
        ensures
            r.segments == segments,
    {
        TreePath { segments }
    }

    /// The path with no names: the top of the tree itself.
    pub fn empty() -> (r: TreePath)
        ensures
            r@ == Seq::<Seq<u8>>::empty(),
    {
        let r = TreePath { segments: Vec::new() };
        assert(r@ =~= Seq::<Seq<u8>>::empty());
        r
    }

    /// How many names the path has.
    pub fn len(&self) -> (r: usize)
        ensures
            r == self@.len(),
    {
        self.segments.len()
    }

    /// The last name of the path: the entry's own name.
    pub fn file_name(&self) -> (r: Option<&Vec<u8>>)
        ensures
            self@.len() == 0 ==> r is None,
            self@.len() > 0 ==> r is Some && r.unwrap()@ == self@.last(),
    {
        let n = self.segments.len();
        if n == 0 {
            None
        } else {
            Some(&self.segments[n - 1])
        }
    }

    /// Whether `base` is this path or leads to a directory above it.
    pub fn starts_with(&self, base: &TreePath) -> (r: bool)
        ensures
            r == starts_with(self@, base@),
    {
        let n = base.segments.len();
        if n > self.segments.len() {
            return false;
        }
        let mut i: usize = 0;
        while i < n
            invariant
                n == base.segments@.len(),
                n <= self.segments@.len(),
                i <= n,
                forall|j: int| 0 <= j < i ==> self@[j] == base@[j],
            decreases n - i,
        {
            if !same_bytes(self.segments[i].as_slice(), base.segments[i].as_slice()) {
                assert(self@[i as int] != base@[i as int]);
                return false;
            }
            i += 1;
        }
        true
    }

    /// The path that leads from `base` to this path: this path without the
    /// names of `base`. `None` if `base` is not above this path.
    pub fn relative_to(&self, base: &TreePath) -> (r: Option<TreePath>)
        ensures
            match r {
                Some(rel) => relative(self@, base@) == Some(rel@),
                None => relative(self@, base@) is None,
            },
    {
        if !self.starts_with(base) {
            return None;
        }
        let n = self.segments.len();
        let start = base.segments.len();
        let mut names: Vec<Vec<u8>> = Vec::new();
        let mut i: usize = start;
        while i < n
            invariant
                n == self.segments@.len(),
                start <= i <= n,
                names@.len() == i - start,
                forall|j: int| 0 <= j < names@.len() ==> names@[j]@ == self@[start + j],
            decreases n - i,
        {
            names.push(slice_to_vec(self.segments[i].as_slice()));
            i += 1;
        }
        let rel = TreePath { segments: names };
        assert(rel@ =~= self@.skip(start as int));
        Some(rel)
    }

    /// This path followed by `rel`: the entry that `rel` leads to from here.
    pub fn join(&self, rel: &TreePath) -> (r: TreePath)
        ensures
            r@ == self@ + rel@,
    {
        let mut names: Vec<Vec<u8>> = Vec::new();
        let a = self.segments.len();
        let b = rel.segments.len();
        let mut i: usize = 0;
        while i < a
            invariant
                a == self.segments@.len(),
                i <= a,
                names@.len() == i,
                forall|j: int| 0 <= j < i ==> names@[j]@ == self@[j],
            decreases a - i,
        {
            names.push(slice_to_vec(self.segments[i].as_slice()));
            i += 1;
        }
        let mut k: usize = 0;
        while k < b
            invariant
                a == self.segments@.len(),
                b == rel.segments@.len(),
                k <= b,
                names@.len() == a + k,
                forall|j: int| 0 <= j < a ==> names@[j]@ == self@[j],
                forall|j: int| 0 <= j < k ==> names@[a + j]@ == rel@[j],
            decreases b - k,
        {
            names.push(slice_to_vec(rel.segments[k].as_slice()));
            k += 1;
        }
        let r = TreePath { segments: names };
        assert(r@ =~= self@ + rel@);
        r
    }

    /// The directory that holds this entry: the path without its last name.
    /// `None` for the empty path.
    pub fn parent(&self) -> (r: Option<TreePath>)
        ensures
            match r {
                Some(dir) => parent_of(self@) == Some(dir@),
                None => parent_of(self@) is None,
            },
    {
        let n = self.segments.len();
        if n == 0 {
            return None;
        }
        let mut names: Vec<Vec<u8>> = Vec::new();
        let mut i: usize = 0;
        while i < n - 1
            invariant
                n == self.segments@.len(),
                n > 0,
                i <= n - 1,
                names@.len() == i,
                forall|j: int| 0 <= j < i ==> names@[j]@ == self@[j],
            decreases n - 1 - i,
        {
            names.push(slice_to_vec(self.segments[i].as_slice()));
            i += 1;
        }
        let dir = TreePath { segments: names };
        assert(dir@ =~= self@.drop_last());
        Some(dir)
    }
}

/// A path joined onto a base and then taken relative to that base is the path
/// again: joining neither renames nor flattens.
pub proof fn lemma_join_then_relative(base: Seq<Seq<u8>>, rel: Seq<Seq<u8>>)
    ensures
        relative(base + rel, base) == Some(rel),
{
    assert((base + rel).skip(base.len() as int) =~= rel);
}

/// Where a relative path exists, joining it onto the base gives the path back.
pub proof fn lemma_relative_then_join(path: Seq<Seq<u8>>, base: Seq<Seq<u8>>)
    requires
        relative(path, base) is Some,
    ensures
        base + relative(path, base).unwrap() == path,
{
    assert(base + path.skip(base.len() as int) =~= path);
}

} // verus!
