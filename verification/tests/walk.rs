use git_bak::error::Error;
use git_bak::walk::{DirEntry, FileWalk, WalkStep};

/// Walks through a tree that is given as directories with their entries.
fn walk(root: &str, tree: &[(&str, Vec<DirEntry>)]) -> (Vec<String>, Result<Vec<String>, Error>) {
    let mut tree: Vec<(String, Option<Vec<DirEntry>>)> = tree
        .iter()
        .map(|(path, entries)| ((*path).to_owned(), Some(entries.iter().map(copy).collect())))
        .collect();
    let mut read = Vec::new();
    let mut step = WalkStep::ReadDir(FileWalk::start(root));
    loop {
        step = match step {
            WalkStep::ReadDir(walk) => {
                let directory = walk.directory().to_owned();
                let entries = tree
                    .iter_mut()
                    .find(|(path, _)| *path == directory)
                    .and_then(|(_, entries)| entries.take());
                read.push(directory);
                walk.resume(entries.ok_or_else(|| "no such directory".to_owned()))
            }
            WalkStep::Done(result) => return (read, result),
        };
    }
}

fn copy(entry: &DirEntry) -> DirEntry {
    match entry {
        DirEntry::Dir(path) => DirEntry::Dir(path.clone()),
        DirEntry::File(path) => DirEntry::File(path.clone()),
        DirEntry::Other(path) => DirEntry::Other(path.clone()),
        DirEntry::Untyped { path, source } => {
            DirEntry::Untyped { path: path.clone(), source: source.clone() }
        }
        DirEntry::Unreadable(source) => DirEntry::Unreadable(source.clone()),
    }
}

fn file(path: &str) -> DirEntry {
    DirEntry::File(path.to_owned())
}

fn dir(path: &str) -> DirEntry {
    DirEntry::Dir(path.to_owned())
}

#[test]
fn all_files_are_found_in_order() {
    let (read, files) = walk(
        "/w",
        &[
            ("/w", vec![file("/w/a"), dir("/w/d"), DirEntry::Other("/w/s".to_owned()), file("/w/z")]),
            ("/w/d", vec![file("/w/d/b"), dir("/w/d/e"), file("/w/d/c")]),
            ("/w/d/e", vec![]),
        ],
    );
    assert_eq!(read, ["/w", "/w/d", "/w/d/e"]);
    assert_eq!(
        files,
        Ok(vec![
            "/w/a".to_owned(),
            "/w/d/b".to_owned(),
            "/w/d/c".to_owned(),
            "/w/z".to_owned()
        ])
    );
}

#[test]
fn what_cannot_be_read_ends_the_walk() {
    let (_, files) = walk("/w", &[]);
    assert_eq!(
        files,
        Err(Error::Hook(
            "failed to read directory while collecting watched files /w: no such directory"
                .to_owned()
        ))
    );
    let (_, files) = walk("/w", &[("/w", vec![DirEntry::Unreadable("io".to_owned())])]);
    assert_eq!(
        files,
        Err(Error::Hook("failed to read directory entry in /w: io".to_owned()))
    );
    let untyped = DirEntry::Untyped { path: "/w/x".to_owned(), source: "io".to_owned() };
    let (_, files) = walk("/w", &[("/w", vec![file("/w/a"), untyped])]);
    assert_eq!(
        files,
        Err(Error::Hook(
            "failed to get file type while collecting /w/x: io".to_owned()
        ))
    );
}
