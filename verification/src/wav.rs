//! The WAV decoder that the integrity check reads files with.
//!
//! Decoding is done by the `hound` crate. Nothing in this module is proved:
//! it states what the rest of the library takes for granted about `hound`
//! when it reads from a byte slice.

use vstd::prelude::*;

verus! {

#[verifier::external_type_specification]
#[verifier::external_body]
#[verifier::reject_recursive_types(R)]
pub struct ExWavReader<R>(hound::WavReader<R>);

/// What a reader has yet to yield: one reading for each sample of the data
/// chunk that it has not read so far, in the order in which they will be
/// read. A reading is `Ok(())` if reading that sample as an integer of up to
/// 32 bits succeeds, and `Err(detail)` with the text of the decoder's error if
/// it fails. Integer samples of 8, 16, 24 and 32 bits can be read so. A file
/// of floating-point samples is no file of integers: every reading of it is
/// an error, so it fails at its first sample.
pub uninterp spec fn pending(reader: hound::WavReader<&[u8]>) -> Seq<Result<(), Seq<char>>>;

/// What `hound::WavReader::new` makes of a byte string: the text of the
/// decoder's error if it rejects the header, else the readings that the new
/// reader has yet to yield.
pub uninterp spec fn wav_header(bytes: Seq<u8>) -> Result<Seq<Result<(), Seq<char>>>, Seq<char>>;

/// Calls `hound::WavReader::new` on a byte slice.
///
/// Trusted: the call reads the header of the file, chunk by chunk up to the
/// start of the data chunk, and what it returns depends on the bytes alone.
/// An error is handed back as the text that `hound` displays for it.
#[verifier::external_body]
pub(crate) fn open_reader<'a>(bytes: &'a [u8]) -> (r: Result<hound::WavReader<&'a [u8]>, String>)
    ensures
        match r {
            Ok(reader) => wav_header(bytes@) == Ok::<Seq<Result<(), Seq<char>>>, Seq<char>>(
                pending(reader),
            ),
            Err(detail) => wav_header(bytes@) == Err::<Seq<Result<(), Seq<char>>>, Seq<char>>(
                detail@,
            ),
        },
{
    hound::WavReader::new(bytes).map_err(|e| e.to_string())
}

/// Calls `next` on the iterator that `hound::WavReader::samples::<i32>`
/// returns, so that a sample of any integer width that the decoder knows
/// is read in full.
///
/// Trusted: with no sample left the call returns `None` and leaves the reader
/// as it was; otherwise it takes exactly the first pending reading off the
/// reader and returns it. The value of a sample is dropped, and an error is
/// handed back as the text that `hound` displays for it.
#[verifier::external_body]
pub(crate) fn next_sample(reader: &mut hound::WavReader<&[u8]>) -> (r: Option<Result<(), String>>)
    ensures
        pending(*old(reader)).len() == 0 ==> r is None && pending(*final(reader)) == pending(
            *old(reader),
        ),
        pending(*old(reader)).len() > 0 ==> pending(*final(reader)) == pending(
            *old(reader),
        ).drop_first() && match r {
            Some(Ok(_)) => pending(*old(reader))[0] == Ok::<(), Seq<char>>(()),
            Some(Err(detail)) => pending(*old(reader))[0] == Err::<(), Seq<char>>(detail@),
            None => false,
        },
{
    reader.samples::<i32>().next().map(|sample| sample.map(|_| ()).map_err(|e| e.to_string()))
}

} // verus!
