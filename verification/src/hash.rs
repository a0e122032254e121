//! Whether a file rests: its content is hashed twice, some time apart.
use vstd::prelude::*;

use crate::error::{watcher_error, Error, ErrorKind, ErrorView};
use crate::text::{decimal, law_occurrence_has_something_around_it, occurs_in, to_decimal};

verus! {

/// The largest file that is hashed, in bytes.
pub const MAX_HASH_FILE_BYTES: u64 = 5_242_880;

/// The BLAKE3 hash of bytes.
pub uninterp spec fn blake3_digest(content: Seq<u8>) -> Seq<u8>;

/// `blake3::hash`: the hash of the whole content, 32 bytes long. Which bytes they are is only
/// named.
#[verifier::external_body]
fn hash_content(content: &[u8]) -> (digest: Vec<u8>)
    ensures
        digest@ == blake3_digest(content@),
        digest@.len() == 32,
{
    blake3::hash(content).as_bytes().to_vec()
}

/// The hash of a file's content.
#[derive(Debug)]
pub struct Digest {
    bytes: Vec<u8>,
}

impl View for Digest {
    type V = Seq<u8>;

    closed spec fn view(&self) -> Seq<u8> {
        self.bytes@
    }
}

impl Digest {
    /// Whether two hashes are the same.
    pub fn same(&self, other: &Digest) -> (same: bool)
        ensures
            same == (self@ == other@),
    {
        if self.bytes.len() != other.bytes.len() {
            return false;
        }
        for i in 0..self.bytes.len()
            invariant
                self.bytes@.len() == other.bytes@.len(),
                forall|j: int| 0 <= j < i ==> self.bytes@[j] == other.bytes@[j],
        {
            if self.bytes[i] != other.bytes[i] {
                return false;
            }
        }
        assert(self.bytes@ =~= other.bytes@);
        true
    }

    /// The bytes of the hash.
    pub fn as_bytes(&self) -> (bytes: &[u8])
        ensures
            bytes@ == self@,
    {
        self.bytes.as_slice()
    }
}

/// What came of one read from a file: bytes, none at its end, or a failure.
#[derive(Debug)]
pub enum ChunkRead {
    Data(Vec<u8>),
    Failed(String),
}

/// What came of reading a file: it could not be opened, its size could not be found out, or it
/// has this size and these reads were made.
#[derive(Debug)]
pub enum FileReading {
    Unopened(String),
    NoMetadata(String),
    Opened { size: u64, reads: Vec<ChunkRead> },
}

/// What the reads from `from` on make together: everything up to the first that finds the end,
/// or the first failure.
pub open spec fn content_from(reads: Seq<ChunkRead>, from: int) -> Result<Seq<u8>, Seq<char>>
    decreases reads.len() - from,
{
    if from < 0 || from >= reads.len() {
        Ok(Seq::empty())
    } else {
        match reads[from] {
            ChunkRead::Failed(source) => Err(source@),
            ChunkRead::Data(bytes) => if bytes@.len() == 0 {
                Ok(Seq::empty())
            } else {
                match content_from(reads, from + 1) {
                    Ok(rest) => Ok(bytes@ + rest),
                    Err(source) => Err(source),
                }
            },
        }
    }
}

/// What is said when a file cannot be read.
pub open spec fn read_failure(path: Seq<char>, source: Seq<char>) -> Seq<char> {
    "failed to read file "@ + path + ": "@ + source
}

/// The hash of a file, or why there is none.
pub open spec fn hashed(path: Seq<char>, reading: FileReading) -> Result<Seq<u8>, ErrorView> {
    match reading {
        FileReading::Unopened(source) => Err(watcher_error(read_failure(path, source@))),
        FileReading::NoMetadata(source) => Err(
            watcher_error("failed to read metadata for "@ + path + ": "@ + source@),
        ),
        FileReading::Opened { size, reads } => if size > MAX_HASH_FILE_BYTES {
            Err(
                watcher_error(
                    "refusing to hash large file "@ + path + " ("@ + decimal(size as nat)
                        + " bytes > "@ + decimal(MAX_HASH_FILE_BYTES as nat) + " bytes)"@,
                ),
            )
        } else {
            match content_from(reads@, 0) {
                Ok(content) => Ok(blake3_digest(content)),
                Err(source) => Err(watcher_error(read_failure(path, source))),
            }
        },
    }
}

/// The hash, as bytes.
pub open spec fn digest_view(result: Result<Digest, Error>) -> Result<Seq<u8>, ErrorView> {
    match result {
        Ok(digest) => Ok(digest@),
        Err(error) => Err(error@),
    }
}

fn cannot_read(path: &str, source: &str) -> (error: Error)
    ensures
        error@ == watcher_error(read_failure(path@, source@)),
{
    let mut message: String = "failed to read file ".to_owned();
    message.append(path);
    message.append(": ");
    message.append(source);
    Error::Watcher(message)
}

/// Whether a file of this size is hashed; a larger one need not be read.
pub fn may_hash(size: u64) -> (may: bool)
    ensures
        may == (size <= MAX_HASH_FILE_BYTES),
{
    size <= MAX_HASH_FILE_BYTES
}

/// The hash of a file, or why there is none.
pub fn file_hash(path: &str, reading: &FileReading) -> (result: Result<Digest, Error>)
    ensures
        digest_view(result) == hashed(path@, *reading),
{
    match reading {
        FileReading::Unopened(source) => Err(cannot_read(path, source.as_str())),
        FileReading::NoMetadata(source) => {
            let mut message: String = "failed to read metadata for ".to_owned();
            message.append(path);
            message.append(": ");
            message.append(source.as_str());
            Err(Error::Watcher(message))
        },
        FileReading::Opened { size, reads } => {
            if *size > MAX_HASH_FILE_BYTES {
                let mut message: String = "refusing to hash large file ".to_owned();
                message.append(path);
                message.append(" (");
                message.append(to_decimal(*size as u128).as_str());
                message.append(" bytes > ");
                message.append(to_decimal(MAX_HASH_FILE_BYTES as u128).as_str());
                message.append(" bytes)");
                return Err(Error::Watcher(message));
            }
            let mut content: Vec<u8> = Vec::new();
            let mut next: usize = 0;
            let mut at_end: bool = false;
            assert(content@ + content_from(reads@, 0)->Ok_0 =~= content_from(reads@, 0)->Ok_0);
            while next < reads.len() && !at_end
                invariant
                    next <= reads@.len(),
                    *reading == (FileReading::Opened { size: *size, reads: *reads }),
                    *size <= MAX_HASH_FILE_BYTES,
                    match content_from(reads@, 0) {
                        Ok(whole) => if at_end {
                            content@ == whole
                        } else {
                            content_from(reads@, next as int) matches Ok(rest) && content@ + rest
                                == whole
                        },
                        Err(source) => !at_end && content_from(reads@, next as int)
                            == Err::<Seq<u8>, Seq<char>>(source),
                    },
                decreases reads@.len() - next,
            {
                match &reads[next] {
                    ChunkRead::Failed(source) => {
                        return Err(cannot_read(path, source.as_str()));
                    },
                    ChunkRead::Data(bytes) => {
                        if bytes.len() == 0 {
                            assert(content@ + Seq::<u8>::empty() =~= content@);
                            at_end = true;
                        } else {
                            let ghost before = content@;
                            let mut copy: Vec<u8> = copy_bytes(bytes.as_slice());
                            content.append(&mut copy);
                            proof {
                                if let Ok(rest) = content_from(reads@, next + 1) {
                                    assert(before + (bytes@ + rest) =~= content@ + rest);
                                }
                            }
                        }
                        next += 1;
                    },
                }
            }
            assert(!at_end ==> content@ + Seq::<u8>::empty() =~= content@);
            Ok(Digest { bytes: hash_content(content.as_slice()) })
        },
    }
}

fn copy_bytes(bytes: &[u8]) -> (copy: Vec<u8>)
    ensures
        copy@ == bytes@,
{
    let mut copy: Vec<u8> = Vec::new();
    for i in 0..bytes.len()
        invariant
            copy@ == bytes@.take(i as int),
    {
        copy.push(bytes[i]);
    }
    copy
}

/// Whether a file rests, by two hashes of it. A hash that failed decides, the first before the
/// second.
pub open spec fn rests(
    first: Result<Seq<u8>, ErrorView>,
    second: Result<Seq<u8>, ErrorView>,
) -> Result<bool, ErrorView> {
    match (first, second) {
        (Err(error), _) => Err(error),
        (Ok(_), Err(error)) => Err(error),
        (Ok(one), Ok(other)) => Ok(one == other),
    }
}

/// Whether a file rests, by two hashes of it, some time apart. A hash that failed decides, the
/// first before the second.
pub fn is_stable(first: Result<Digest, Error>, second: Result<Digest, Error>) -> (result: Result<
    bool,
    Error,
>)
    ensures
        rests(digest_view(first), digest_view(second)) == (match result {
            Ok(stable) => Ok(stable),
            Err(error) => Err(error@),
        }),
{
    let one: Digest = match first {
        Ok(digest) => digest,
        Err(error) => return Err(error),
    };
    let other: Digest = match second {
        Ok(digest) => digest,
        Err(error) => return Err(error),
    };
    Ok(one.same(&other))
}

/// Two readings of a file that found the same content hash alike, in whatever pieces they were
/// made.
pub proof fn law_same_content_hashes_alike(
    path: Seq<char>,
    first_size: u64,
    first: Vec<ChunkRead>,
    second_size: u64,
    second: Vec<ChunkRead>,
)
    requires
        first_size <= MAX_HASH_FILE_BYTES,
        second_size <= MAX_HASH_FILE_BYTES,
        content_from(first@, 0) is Ok,
        content_from(first@, 0) == content_from(second@, 0),
    ensures
        hashed(path, FileReading::Opened { size: first_size, reads: first }) is Ok,
        hashed(path, FileReading::Opened { size: first_size, reads: first }) == hashed(
            path,
            FileReading::Opened { size: second_size, reads: second },
        ),
{
}

proof fn lemma_content_moved(read: ChunkRead, rest: Seq<ChunkRead>, from: int)
    requires
        0 <= from,
    ensures
        content_from(seq![read] + rest, from + 1) == content_from(rest, from),
    decreases rest.len() - from,
{
    if from < rest.len() {
        assert((seq![read] + rest)[from + 1] == rest[from]);
        lemma_content_moved(read, rest, from + 1);
    }
}

/// The pieces that are read, one behind the other, are the content, up to the first read that
/// finds nothing more; a read that fails before that is a failure of the whole.
pub proof fn law_pieces_make_the_content(
    piece: Vec<u8>,
    source: String,
    rest: Seq<ChunkRead>,
    content: Seq<u8>,
    reason: Seq<char>,
)
    ensures
        content_from(Seq::empty(), 0) == Ok::<Seq<u8>, Seq<char>>(Seq::empty()),
        content_from(seq![ChunkRead::Failed(source)] + rest, 0) == Err::<Seq<u8>, Seq<char>>(
            source@,
        ),
        piece@.len() == 0 ==> content_from(seq![ChunkRead::Data(piece)] + rest, 0) == Ok::<
            Seq<u8>,
            Seq<char>,
        >(Seq::empty()),
        piece@.len() > 0 && content_from(rest, 0) == Ok::<Seq<u8>, Seq<char>>(content)
            ==> content_from(seq![ChunkRead::Data(piece)] + rest, 0) == Ok::<Seq<u8>, Seq<char>>(
            piece@ + content,
        ),
        piece@.len() > 0 && content_from(rest, 0) == Err::<Seq<u8>, Seq<char>>(reason)
            ==> content_from(seq![ChunkRead::Data(piece)] + rest, 0) == Err::<Seq<u8>, Seq<char>>(
            reason,
        ),
{
    lemma_content_moved(ChunkRead::Data(piece), rest, 0);
}

/// A file of up to five mebibytes is hashed by its whole content, and a larger one is refused,
/// whatever was read of it. What went wrong is an error of the watcher that names the file.
pub proof fn law_file_is_hashed_by_its_content(
    path: Seq<char>,
    size: u64,
    reads: Vec<ChunkRead>,
    content: Seq<u8>,
    reason: Seq<char>,
    source: String,
)
    ensures
        size <= 5 * 1024 * 1024 && content_from(reads@, 0) == Ok::<Seq<u8>, Seq<char>>(content)
            ==> hashed(path, FileReading::Opened { size, reads }) == Ok::<Seq<u8>, ErrorView>(
            blake3_digest(content),
        ),
        size <= 5 * 1024 * 1024 && content_from(reads@, 0) == Err::<Seq<u8>, Seq<char>>(reason)
            ==> (hashed(path, FileReading::Opened { size, reads }) matches Err(error) && error.kind
            == ErrorKind::Watcher && (path + ": "@ + reason).is_suffix_of(error.message)),
        size > 5 * 1024 * 1024 ==> (hashed(path, FileReading::Opened { size, reads }) matches Err(
            error,
        ) && error.kind == ErrorKind::Watcher && occurs_in(path, error.message) && occurs_in(
            decimal(size as nat),
            error.message,
        )),
        hashed(path, FileReading::Unopened(source)) matches Err(error) && error.kind
            == ErrorKind::Watcher && (path + ": "@ + source@).is_suffix_of(error.message),
        hashed(path, FileReading::NoMetadata(source)) matches Err(error) && error.kind
            == ErrorKind::Watcher && (path + ": "@ + source@).is_suffix_of(error.message),
{
    assert forall|start: Seq<char>, why: Seq<char>|
        (path + ": "@ + why).is_suffix_of(#[trigger] (start + path + ": "@ + why)) by {
        let all = start + path + ": "@ + why;
        let end = path + ": "@ + why;
        assert(all.subrange(all.len() - end.len(), all.len() as int) =~= end);
    }
    let none = Seq::<char>::empty();
    let start = "refusing to hash large file "@;
    let number = decimal(size as nat);
    let bound = decimal(MAX_HASH_FILE_BYTES as nat);
    let tail = " bytes > "@ + bound + " bytes)"@;
    let message = start + path + " ("@ + number + " bytes > "@ + bound + " bytes)"@;
    law_occurrence_has_something_around_it(start, path, " ("@ + number + tail, none);
    assert(message =~= start + path + (" ("@ + number + tail));
    law_occurrence_has_something_around_it(start + path + " ("@, number, tail, none);
    assert(message =~= start + path + " ("@ + number + tail);
}

/// A file rests exactly where both hashes of it are the same, byte by byte. So one whose content
/// was read twice alike rests, in whatever pieces it was read. A hash that failed is reported.
pub proof fn law_file_rests_where_its_hashes_agree(
    path: Seq<char>,
    size: u64,
    first: Vec<ChunkRead>,
    second: Vec<ChunkRead>,
    one: Seq<u8>,
    other: Seq<u8>,
    error: ErrorView,
    hash: Result<Seq<u8>, ErrorView>,
)
    ensures
        size <= 5 * 1024 * 1024 && content_from(first@, 0) is Ok && content_from(first@, 0)
            == content_from(second@, 0) ==> rests(
            hashed(path, FileReading::Opened { size, reads: first }),
            hashed(path, FileReading::Opened { size, reads: second }),
        ) == Ok::<bool, ErrorView>(true),
        one != other ==> rests(Ok(one), Ok(other)) == Ok::<bool, ErrorView>(false),
        rests(Ok(one), Ok(one)) == Ok::<bool, ErrorView>(true),
        rests(Err(error), hash) == Err::<bool, ErrorView>(error),
        rests(Ok(one), Err(error)) == Err::<bool, ErrorView>(error),
{
}

} // verus!
