use git_bak::error::Error;
use git_bak::hash::{file_hash, is_stable, may_hash, ChunkRead, FileReading, MAX_HASH_FILE_BYTES};

fn reading(chunks: &[&str]) -> FileReading {
    let mut reads: Vec<ChunkRead> = chunks
        .iter()
        .map(|chunk| ChunkRead::Data(chunk.as_bytes().to_vec()))
        .collect();
    reads.push(ChunkRead::Data(Vec::new()));
    FileReading::Opened {
        size: chunks.iter().map(|chunk| chunk.len() as u64).sum(),
        reads,
    }
}

fn hex(bytes: &[u8]) -> String {
    bytes.iter().map(|byte| format!("{byte:02x}")).collect()
}

#[test]
fn test_is_stable_with_same_content_returns_true() {
    let first = file_hash("MEMORY.md", &reading(&["consistent content"]));
    let second = file_hash("MEMORY.md", &reading(&["consistent ", "content"]));
    let stable = match is_stable(first, second) {
        Ok(stable) => stable,
        Err(err) => panic!("failed to evaluate stability: {err:?}"),
    };
    assert!(stable);
}

#[test]
fn test_is_stable_with_content_change_returns_false() {
    let first = file_hash("MEMORY.md", &reading(&["before"]));
    let second = file_hash("MEMORY.md", &reading(&["after"]));
    let stable = match is_stable(first, second) {
        Ok(stable) => stable,
        Err(err) => panic!("failed to evaluate stability: {err:?}"),
    };
    assert!(!stable);
}

#[test]
fn test_file_hash_rejects_large_file() {
    let big = FileReading::Opened { size: MAX_HASH_FILE_BYTES + 1, reads: vec![] };
    let hash_result = file_hash("big.bin", &big);
    assert!(hash_result.is_err());
    assert_eq!(
        hash_result.err(),
        Some(Error::Watcher(
            "refusing to hash large file big.bin (5242881 bytes > 5242880 bytes)".to_owned()
        ))
    );
    assert!(!may_hash(MAX_HASH_FILE_BYTES + 1));
    assert!(may_hash(MAX_HASH_FILE_BYTES));
}

#[test]
fn hashes_are_those_of_blake3() {
    let empty = file_hash("e", &reading(&[])).unwrap_or_else(|err| panic!("{err:?}"));
    assert_eq!(
        hex(empty.as_bytes()),
        "af1349b9f5f9a1a6a0404dea36dcc9499bcb25c9adc112b7cc9a93cae41f3262"
    );
    let mut hasher = blake3::Hasher::new();
    hasher.update(b"some ");
    hasher.update(b"text");
    let text = file_hash("t", &reading(&["some ", "text"])).unwrap_or_else(|err| panic!("{err:?}"));
    assert_eq!(text.as_bytes(), hasher.finalize().as_bytes());
}

#[test]
fn reading_stops_at_the_end_of_the_file() {
    let reads = vec![
        ChunkRead::Data(b"a".to_vec()),
        ChunkRead::Data(Vec::new()),
        ChunkRead::Failed("not reached".to_owned()),
    ];
    let hash = file_hash("x", &FileReading::Opened { size: 1, reads })
        .unwrap_or_else(|err| panic!("{err:?}"));
    assert_eq!(hash.as_bytes(), blake3::hash(b"a").as_bytes());
}

#[test]
fn files_that_cannot_be_read_are_named() {
    let failure = |reading: FileReading| file_hash("f.md", &reading).err();
    assert_eq!(
        failure(FileReading::Unopened("denied".to_owned())),
        Some(Error::Watcher("failed to read file f.md: denied".to_owned()))
    );
    assert_eq!(
        failure(FileReading::NoMetadata("denied".to_owned())),
        Some(Error::Watcher("failed to read metadata for f.md: denied".to_owned()))
    );
    let broken = FileReading::Opened { size: 1, reads: vec![ChunkRead::Failed("io".to_owned())] };
    assert_eq!(
        failure(broken),
        Some(Error::Watcher("failed to read file f.md: io".to_owned()))
    );
    let first = file_hash("f.md", &FileReading::Unopened("denied".to_owned()));
    let second = file_hash("f.md", &reading(&["x"]));
    assert!(is_stable(first, second).is_err());
}
