//! One file at a time: which entries are checked, and what is done with an
//! entry once it has been classified.
//!
//! A [`Sweep`] holds the settings of a run and its two counters. For each
//! entry of the tree the caller asks [`Sweep::screen`] whether it is a
//! candidate, reads and classifies the candidates, and hands each outcome to
//! [`Sweep::settle`], which counts it and says what to do with the file.

use vstd::prelude::*;
use crate::integrity::{Outcome, Verdict};
use crate::path::{has_extension, name_has_extension, relative, TreePath};

verus! {

/// The extension of the files that are checked: the bytes of `wav`.
pub open spec fn wav_extension() -> Seq<u8> {
    seq![0x77u8, 0x61u8, 0x76u8]
}

/// What kind of thing an entry of the tree is. A symbolic link is its own
/// kind, whatever it points to.
#[derive(Clone, Copy, Debug, PartialEq, Eq, Structural)]
pub enum EntryKind {
    File,
    Directory,
    Symlink,
    Other,
}

/// An entry found in the tree.
#[derive(Clone, Debug, PartialEq, Eq)]
pub struct Entry {
    pub path: TreePath,
    pub kind: EntryKind,
}

/// The view of an [`Entry`].
pub struct EntryView {
    pub path: Seq<Seq<u8>>,
    pub kind: EntryKind,
}

impl View for Entry {
    type V = EntryView;

    open spec fn view(&self) -> EntryView {
        EntryView { path: self.path@, kind: self.kind }
    }
}

/// The settings of a run.
#[derive(Clone, Debug, PartialEq, Eq)]
pub struct Config {
    /// The top of the tree that is scanned.
    pub input_root: TreePath,
    /// The top of the tree that invalid files are copied to.
    pub output_root: TreePath,
    /// Report only: copy nothing.
    pub dry_run: bool,
}

/// The view of a [`Config`].
pub struct ConfigView {
    pub input_root: Seq<Seq<u8>>,
    pub output_root: Seq<Seq<u8>>,
    pub dry_run: bool,
}

impl View for Config {
    type V = ConfigView;

    open spec fn view(&self) -> ConfigView {
        ConfigView {
            input_root: self.input_root@,
            output_root: self.output_root@,
            dry_run: self.dry_run,
        }
    }
}

/// What is to be done with an entry.
#[derive(Clone, Debug, PartialEq, Eq)]
pub enum Action {
    /// Not a candidate: neither checked, counted nor copied.
    Ignore,
    /// Valid: counted, and left where it is.
    Keep,
    /// Invalid: counted, and to be copied to `target`, whose directories are
    /// to be made first.
    Copy { target: TreePath },
    /// Invalid in a dry run: counted, and `target` is only to be named.
    Announce { target: TreePath },
}

/// The view of an [`Action`].
pub enum ActionView {
    Ignore,
    Keep,
    Copy { target: Seq<Seq<u8>> },
    Announce { target: Seq<Seq<u8>> },
}

impl View for Action {
    type V = ActionView;

    open spec fn view(&self) -> ActionView {
        match self {
            Action::Ignore => ActionView::Ignore,
            Action::Keep => ActionView::Keep,
            Action::Copy { target } => ActionView::Copy { target: target@ },
            Action::Announce { target } => ActionView::Announce { target: target@ },
        }
    }
}

/// Why a run cannot go on.
#[derive(Clone, Copy, Debug, PartialEq, Eq, Structural)]
pub enum SweepError {
    /// A candidate does not lie under the input root, so it has no relative
    /// path.
    OutsideRoot,
}

/// An entry is a candidate when it is a regular file whose name has the
/// extension `wav`.
pub open spec fn is_candidate(entry: EntryView) -> bool {
    &&& entry.kind == EntryKind::File
    &&& entry.path.len() > 0
    &&& has_extension(entry.path.last(), wav_extension())
}

/// What is asked of an entry before it is read: `Ok(None)` for an entry that
/// is no candidate, the candidate's path under the input root, or the error
/// of a candidate that lies elsewhere.
pub open spec fn screened(config: ConfigView, entry: EntryView) -> Result<
    Option<Seq<Seq<u8>>>,
    SweepError,
> {
    if !is_candidate(entry) {
        Ok(None)
    } else {
        match relative(entry.path, config.input_root) {
            Some(rel) => Ok(Some(rel)),
            None => Err(SweepError::OutsideRoot),
        }
    }
}

/// What is done with a candidate whose path under the input root is `rel`:
/// a valid file is kept; an invalid one goes to the same path under the
/// output root, or in a dry run is announced there.
pub open spec fn resolved(config: ConfigView, rel: Seq<Seq<u8>>, verdict: Verdict) -> ActionView {
    match verdict {
        Verdict::Valid => ActionView::Keep,
        Verdict::Invalid(_) => if config.dry_run {
            ActionView::Announce { target: config.output_root + rel }
        } else {
            ActionView::Copy { target: config.output_root + rel }
        },
    }
}

/// The counters of a run: how many files were found valid and how many
/// invalid. Their sum never exceeds `u32::MAX`.
#[derive(Clone, Copy, Debug, PartialEq, Eq)]
pub struct Counters {
    valid: u32,
    invalid: u32,
}

impl Counters {
    #[verifier::type_invariant]
    spec fn sum_fits(self) -> bool {
        self.valid + self.invalid <= u32::MAX
    }

    /// The number of files found valid.
    pub closed spec fn valid_count(self) -> nat {
        self.valid as nat
    }

    /// The number of files found invalid.
    pub closed spec fn invalid_count(self) -> nat {
        self.invalid as nat
    }

    /// The number of files classified.
    pub open spec fn total_count(self) -> nat {
        self.valid_count() + self.invalid_count()
    }

    /// Counters of a run that has classified nothing yet.
    pub fn new() -> (r: Counters)
        ensures
            r.valid_count() == 0,
            r.invalid_count() == 0,
    {
        Counters { valid: 0, invalid: 0 }
    }

    pub fn valid(&self) -> (r: u32)
        ensures
            r == self.valid_count(),
    {
        self.valid
    }

    pub fn invalid(&self) -> (r: u32)
        ensures
            r == self.invalid_count(),
    {
        self.invalid
    }

    /// The number of files classified: valid and invalid together.
    pub fn total(&self) -> (r: u32)
        ensures
            r == self.total_count(),
    {
        proof {
            use_type_invariant(self);
        }
        self.valid + self.invalid
    }

    /// Counts one more file, as valid or as invalid.
    pub fn record(&mut self, outcome: &Outcome)
        requires
            old(self).total_count() < u32::MAX,
        ensures
            final(self).valid_count() == old(self).valid_count() + if outcome@ is Valid {
                1nat
            } else {
                0nat
            },
            final(self).invalid_count() == old(self).invalid_count() + if outcome@ is Valid {
                0nat
            } else {
                1nat
            },
    {
        proof {
            use_type_invariant(&*self);
        }
        match outcome {
            Outcome::Valid => {
                self.valid = self.valid + 1;
            },
            Outcome::Invalid(_) => {
                self.invalid = self.invalid + 1;
            },
        }
    }
}

/// A run in progress: its settings and its counters.
#[derive(Clone, Debug, PartialEq, Eq)]
pub struct Sweep {
    pub config: Config,
    pub counters: Counters,
}

impl Sweep {
    /// A run with the given settings that has classified nothing yet.
    pub fn new(config: Config) -> (r: Sweep)
        ensures
            r.config == config,
            r.counters.valid_count() == 0,
            r.counters.invalid_count() == 0,
    {
        Sweep { config, counters: Counters::new() }
    }

    /// Whether an entry is to be checked. Returns `Ok(None)` for an entry that
    /// is no candidate; for a candidate its path under the input root, which
    /// is where it would go under the output root; and an error for a
    /// candidate that does not lie under the input root.
    pub fn screen(&self, entry: &Entry) -> (r: Result<Option<TreePath>, SweepError>)
        ensures
            match r {
                Ok(None) => screened(self.config@, entry@) == Ok::<
                    Option<Seq<Seq<u8>>>,
                    SweepError,
                >(None),
                Ok(Some(rel)) => screened(self.config@, entry@) == Ok::<
                    Option<Seq<Seq<u8>>>,
                    SweepError,
                >(Some(rel@)),
                Err(e) => screened(self.config@, entry@) == Err::<
                    Option<Seq<Seq<u8>>>,
                    SweepError,
                >(e),
            },
    {
        match entry.kind {
            EntryKind::File => {},
            _ => {
                return Ok(None);
            },
        }
        let name = match entry.path.file_name() {
            Some(name) => name,
            None => {
                return Ok(None);
            },
        };
        let wav: [u8; 3] = [0x77, 0x61, 0x76];
        assert(wav@ =~= wav_extension());
        if !name_has_extension(name.as_slice(), wav.as_slice()) {
            return Ok(None);
        }
        match entry.path.relative_to(&self.config.input_root) {
            Some(rel) => Ok(Some(rel)),
            None => Err(SweepError::OutsideRoot),
        }
    }

    /// Counts a classified candidate and says what is to be done with it.
    /// `rel` is the candidate's path under the input root, as `screen` gave it.
    pub fn settle(&mut self, rel: &TreePath, outcome: &Outcome) -> (action: Action)
        requires
            old(self).counters.total_count() < u32::MAX,
        ensures
            action@ == resolved(old(self).config@, rel@, outcome@),
            final(self).config == old(self).config,
            final(self).counters.valid_count() == old(self).counters.valid_count()
                + if outcome@ is Valid {
                1nat
            } else {
                0nat
            },
            final(self).counters.invalid_count() == old(self).counters.invalid_count()
                + if outcome@ is Valid {
                0nat
            } else {
                1nat
            },
    {
        self.counters.record(outcome);
        match outcome {
            Outcome::Valid => Action::Keep,
            Outcome::Invalid(_) => {
                let target = self.config.output_root.join(rel);
                if self.config.dry_run {
                    Action::Announce { target }
                } else {
                    Action::Copy { target }
                }
            },
        }
    }
}

} // verus!
