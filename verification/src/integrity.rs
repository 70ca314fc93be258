//! The integrity check: a file is valid when its header parses and every
//! sample of its data decodes, and invalid otherwise, with the first failure
//! as the reason.

use vstd::prelude::*;
use crate::wav::{next_sample, open_reader, pending, wav_header};

verus! {

/// The step of the check at which a file failed.
#[derive(Clone, Copy, Debug, PartialEq, Eq, Structural)]
pub enum Stage {
    /// The file could not be opened or read.
    Open,
    /// The header was rejected.
    Header,
    /// A sample of the data did not decode.
    Sample,
}

/// Why a file is invalid: the first failure that the check met.
#[derive(Clone, Debug, PartialEq, Eq)]
pub struct Failure {
    pub stage: Stage,
    /// The message of whoever reported the failure.
    pub detail: String,
}

/// A [`Failure`] with its message as a sequence of characters.
pub struct FailureView {
    pub stage: Stage,
    pub detail: Seq<char>,
}

impl View for Failure {
    type V = FailureView;

    open spec fn view(&self) -> FailureView {
        FailureView { stage: self.stage, detail: self.detail@ }
    }
}

/// How a file was classified.
#[derive(Clone, Debug, PartialEq, Eq)]
pub enum Outcome {
    Valid,
    Invalid(Failure),
}

/// The view of an [`Outcome`].
pub enum Verdict {
    Valid,
    Invalid(FailureView),
}

impl View for Outcome {
    type V = Verdict;

    open spec fn view(&self) -> Verdict {
        match self {
            Outcome::Valid => Verdict::Valid,
            Outcome::Invalid(failure) => Verdict::Invalid(failure@),
        }
    }
}

/// What reading a file gave.
#[derive(Clone, Debug, PartialEq, Eq)]
pub enum Content {
    /// The file could not be opened or read; the message says why.
    Unreadable(String),
    /// All the bytes of the file.
    Bytes(Vec<u8>),
}

/// The view of a [`Content`].
pub enum ContentView {
    Unreadable(Seq<char>),
    Bytes(Seq<u8>),
}

impl View for Content {
    type V = ContentView;

    open spec fn view(&self) -> ContentView {
        match self {
            Content::Unreadable(detail) => ContentView::Unreadable(detail@),
            Content::Bytes(bytes) => ContentView::Bytes(bytes@),
        }
    }
}

/// The message of the first reading that failed, if any did.
pub open spec fn first_failure(readings: Seq<Result<(), Seq<char>>>) -> Option<Seq<char>>
    decreases readings.len(),
{
    if readings.len() == 0 {
        None
    } else {
        match readings[0] {
            Err(detail) => Some(detail),
            Ok(_) => first_failure(readings.drop_first()),
        }
    }
}

/// What the check makes of the bytes of a file: `Ok(true)` if the header
/// parses and every sample decodes, else the first failure.
pub open spec fn decoded(bytes: Seq<u8>) -> Result<bool, FailureView> {
    match wav_header(bytes) {
        Err(detail) => Err(FailureView { stage: Stage::Header, detail }),
        Ok(readings) => match first_failure(readings) {
            Some(detail) => Err(FailureView { stage: Stage::Sample, detail }),
            None => Ok(true),
        },
    }
}

/// How a file with the given content is classified.
pub open spec fn verdict(content: ContentView) -> Verdict {
    match content {
        ContentView::Unreadable(detail) => Verdict::Invalid(
            FailureView { stage: Stage::Open, detail },
        ),
        ContentView::Bytes(bytes) => match decoded(bytes) {
            Ok(_) => Verdict::Valid,
            Err(failure) => Verdict::Invalid(failure),
        },
    }
}

/// `first_failure` is `None` exactly when every reading succeeded; otherwise it
/// is the message of a failed reading before which every reading succeeded.
pub proof fn lemma_first_failure_is_earliest(readings: Seq<Result<(), Seq<char>>>)
    ensures
        match first_failure(readings) {
            None => forall|i: int| 0 <= i < readings.len() ==> readings[i] is Ok,
            Some(detail) => exists|i: int|
                0 <= i < readings.len() && readings[i] == Err::<(), Seq<char>>(detail) && forall|
                    j: int,
                | 0 <= j < i ==> readings[j] is Ok,
        },
    decreases readings.len(),
{
    if readings.len() > 0 {
        let rest = readings.drop_first();
        lemma_first_failure_is_earliest(rest);
        match readings[0] {
            Err(detail) => {
                assert(readings[0] == Err::<(), Seq<char>>(detail));
            },
            Ok(_) => {
                assert forall|i: int| 0 <= i < rest.len() implies rest[i] == readings[i + 1] by {}
                match first_failure(rest) {
                    None => {
                        assert forall|i: int| 0 <= i < readings.len() implies readings[i] is Ok by {
                            if i > 0 {
                                assert(rest[i - 1] is Ok);
                            }
                        }
                    },
                    Some(detail) => {
                        let k = choose|i: int|
                            0 <= i < rest.len() && rest[i] == Err::<(), Seq<char>>(detail)
                                && forall|j: int| 0 <= j < i ==> rest[j] is Ok;
                        assert(readings[k + 1] == Err::<(), Seq<char>>(detail));
                        assert forall|j: int| 0 <= j < k + 1 implies readings[j] is Ok by {
                            if j > 0 {
                                assert(rest[j - 1] is Ok);
                            }
                        }
                    },
                }
            },
        }
    }
}

/// Reads every sample that the reader has left, up to the first that fails.
/// Returns the message of that failure, or `None` if all of them decode.
pub fn scan_samples(reader: hound::WavReader<&[u8]>) -> (r: Option<String>)
    ensures
        match r {
            Some(detail) => first_failure(pending(reader)) == Some(detail@),
            None => first_failure(pending(reader)) is None,
        },
{
    let mut rest = reader;
    loop
        invariant
            first_failure(pending(rest)) == first_failure(pending(reader)),
        decreases pending(rest).len(),
    {
        match next_sample(&mut rest) {
            None => {
                return None;
            },
            Some(Err(detail)) => {
                return Some(detail);
            },
            Some(Ok(_)) => {},
        }
    }
}

/// Checks the bytes of one file: parses the header, then decodes every sample
/// of the data, whatever its integer width. Only whether a sample decodes
/// counts, not its value. Returns `Ok(true)` if all of it decodes, else the
/// first failure.
pub fn validate_wav(bytes: &[u8]) -> (r: Result<bool, Failure>)
    ensures
        match r {
            Ok(whole) => decoded(bytes@) == Ok::<bool, FailureView>(whole),
            Err(failure) => decoded(bytes@) == Err::<bool, FailureView>(failure@),
        },
{
    match open_reader(bytes) {
        Err(detail) => Err(Failure { stage: Stage::Header, detail }),
        Ok(reader) => match scan_samples(reader) {
            Some(detail) => Err(Failure { stage: Stage::Sample, detail }),
            None => Ok(true),
        },
    }
}

/// Classifies a file by what reading it gave: a file that could not be read is
/// invalid, and so is one whose bytes do not decode in full.
pub fn classify(content: &Content) -> (r: Outcome)
    ensures
        r@ == verdict(content@),
{
    match content {
        Content::Unreadable(detail) => Outcome::Invalid(
            Failure { stage: Stage::Open, detail: detail.clone() },
        ),
        Content::Bytes(bytes) => match validate_wav(bytes.as_slice()) {
            Ok(_) => Outcome::Valid,
            Err(failure) => Outcome::Invalid(failure),
        },
    }
}

} // verus!
