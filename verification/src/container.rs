//! The compound file that holds a ".msg" message: a tree of named streams
//! that is read through the `cfb` crate.

use vstd::prelude::*;

verus! {

/// Declares `cfb::CompoundFile`, a compound file over a reader `F`.
/// Nothing of what is inside a value is known to the verifier.
#[verifier::external_type_specification]
#[verifier::external_body]
#[verifier::reject_recursive_types(F)]
pub struct ExCompoundFile<F>(cfb::CompoundFile<F>);

/// Declares `std::io::Cursor`, the reader over bytes in memory that the
/// compound file is opened on. Nothing of what is inside a value is known
/// to the verifier.
#[verifier::external_type_specification]
#[verifier::external_body]
#[verifier::reject_recursive_types(T)]
pub struct ExCursor<T>(std::io::Cursor<T>);

/// Declares `std::io::Error`, the error of the calls into the compound
/// file. Nothing of what is inside a value is known to the verifier.
#[verifier::external_type_specification]
#[verifier::external_body]
pub struct ExIoError(std::io::Error);

/// A compound file that lies in memory.
pub type Container = cfb::CompoundFile<std::io::Cursor<Vec<u8>>>;

/// The streams of a compound file: for each path that opens a stream, the
/// bytes of that stream, or `None` where the stream cannot be read to its
/// end.
pub type Streams = Map<Seq<char>, Option<Seq<u8>>>;

/// What a compound file holds: for each path that opens a stream, the
/// bytes of that stream, or `None` where the stream cannot be read to its
/// end.
pub uninterp spec fn container_streams(
    file: cfb::CompoundFile<std::io::Cursor<Vec<u8>>>,
) -> Map<Seq<char>, Option<Seq<u8>>>;

/// What the compound file in `bytes` holds, or `None` where `bytes` are
/// not a compound file that can be opened.
pub uninterp spec fn container_of(bytes: Seq<u8>) -> Option<Map<Seq<char>, Option<Seq<u8>>>>;

/// What became of the attempt to read a stream.
pub enum StreamOutcome {
    /// No stream could be opened at the path.
    NotOpened(std::io::Error),
    /// The stream was opened and could not be read to its end.
    NotRead(std::io::Error),
    /// The bytes of the stream.
    Read(Vec<u8>),
}

/// Calls `cfb::CompoundFile::open` on a cursor over `bytes`.
///
/// Not proved: that whether the call succeeds, and what the opened file
/// holds, depend on `bytes` alone; `container_of` names both.
#[verifier::external_body]
pub(crate) fn open_container(bytes: Vec<u8>) -> (r: Result<
    cfb::CompoundFile<std::io::Cursor<Vec<u8>>>,
    std::io::Error,
>)
    ensures
        match r {
            Ok(file) => container_of(bytes@) == Some(container_streams(file)),
            Err(_) => container_of(bytes@) is None,
        },
{
    cfb::CompoundFile::open(std::io::Cursor::new(bytes))
}

/// Calls `cfb::CompoundFile::open_stream` with `path` and reads the stream
/// that it returns to its end.
///
/// Not proved: that reading leaves what the file holds unchanged, and that
/// the outcome is the one that `container_streams` records for the path: a
/// path that is no key opens no stream, a key with `None` opens a stream
/// whose reading fails, and a key with bytes yields those bytes.
#[verifier::external_body]
pub(crate) fn read_stream(
    file: &mut cfb::CompoundFile<std::io::Cursor<Vec<u8>>>,
    path: &str,
) -> (r: StreamOutcome)
    ensures
        container_streams(*final(file)) == container_streams(*old(file)),
        match r {
            StreamOutcome::NotOpened(_) => !container_streams(*old(file)).contains_key(path@),
            StreamOutcome::NotRead(_) => container_streams(*old(file)).contains_key(path@)
                && container_streams(*old(file))[path@] is None,
            StreamOutcome::Read(bytes) => container_streams(*old(file)).contains_key(path@)
                && container_streams(*old(file))[path@] == Some(bytes@),
        },
{
    match file.open_stream(path) {
        Err(error) => StreamOutcome::NotOpened(error),
        Ok(mut stream) => {
            let mut bytes = Vec::new();
            match std::io::Read::read_to_end(&mut stream, &mut bytes) {
                Ok(_) => StreamOutcome::Read(bytes),
                Err(error) => StreamOutcome::NotRead(error),
            }
        },
    }
}

} // verus!
