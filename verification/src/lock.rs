//! The lock that keeps two processes from working on one repository.
use vstd::prelude::*;

use crate::error::{lock_error, text_view, Error, ErrorKind, ErrorView};
use crate::git::{text_call, GitCall, GitOutcome, Wording};
use crate::paths::{
    absolute, end_of, is_name, join_path, joined_path, law_file_in_a_directory_has_its_name,
    parent, parent_of, spans,
};
use crate::text::{
    all_white_space, decode_lossy, decoded, is_white_space, law_trimming_takes_white_space_around,
    trim, trimmed, views,
};

verus! {

/// What is said when git does not tell where the lock lies.
pub open spec fn unresolved(repo: Seq<char>, reason: Seq<char>) -> ErrorView {
    lock_error("failed to resolve git lock path for "@ + repo + ": "@ + reason)
}

/// Where the lock lies, by what git printed when it was asked.
pub open spec fn resolved_path(
    repo: Seq<char>,
    success: bool,
    stdout: Seq<char>,
    stderr: Seq<char>,
) -> Result<Seq<char>, ErrorView> {
    if !success {
        Err(unresolved(repo, trimmed(stderr)))
    } else if trimmed(stdout).len() == 0 {
        Err(unresolved(repo, "empty response"@))
    } else {
        Ok(joined_path(repo, trimmed(stdout)))
    }
}

/// Where the lock lies, by the outcome of asking git.
pub open spec fn lock_path(repo: Seq<char>, outcome: GitOutcome) -> Result<Seq<char>, ErrorView> {
    match outcome {
        GitOutcome::NotStarted(source) => Err(unresolved(repo, source@)),
        GitOutcome::Exited { success, stdout, stderr, .. } => resolved_path(
            repo,
            success,
            decoded(stdout@),
            decoded(stderr@),
        ),
    }
}

fn unresolved_error(repo_path: &str, reason: &str) -> (error: Error)
    ensures
        error@ == unresolved(repo_path@, reason@),
{
    let mut message: String = "failed to resolve git lock path for ".to_owned();
    message.append(repo_path);
    message.append(": ");
    message.append(reason);
    Error::Lock(message)
}

/// The command that tells where the lock lies.
pub fn lock_path_call(repo_path: &str) -> (call: GitCall)
    ensures
        call@ == text_call(repo_path@, seq!["rev-parse"@, "--git-path"@, "git-bak.lock"@]),
{
    let args: Vec<String> =
        vec!["rev-parse".to_owned(), "--git-path".to_owned(), "git-bak.lock".to_owned()];
    assert(views(args@) =~= seq!["rev-parse"@, "--git-path"@, "git-bak.lock"@]);
    GitCall { dir: repo_path.to_owned(), args, wording: Wording::Text }
}

/// Where the lock lies, by what git printed when it was asked.
pub fn resolve_lock_path(repo_path: &str, success: bool, stdout: &str, stderr: &str) -> (result:
    Result<String, Error>)
    ensures
        text_view(result) == resolved_path(repo_path@, success, stdout@, stderr@),
{
    if !success {
        return Err(unresolved_error(repo_path, trim(stderr).as_str()));
    }
    let raw_path: String = trim(stdout);
    if raw_path.as_str().is_empty() {
        return Err(unresolved_error(repo_path, "empty response"));
    }
    if absolute(raw_path.as_str()) {
        Ok(raw_path)
    } else {
        Ok(join_path(repo_path, raw_path.as_str()))
    }
}

/// Where the lock lies, by the outcome of [`lock_path_call`].
pub fn lock_path_for_repo(repo_path: &str, outcome: &GitOutcome) -> (result: Result<String, Error>)
    ensures
        text_view(result) == lock_path(repo_path@, *outcome),
{
    match outcome {
        GitOutcome::NotStarted(source) => Err(unresolved_error(repo_path, source.as_str())),
        GitOutcome::Exited { success, stdout, stderr, .. } => resolve_lock_path(
            repo_path,
            *success,
            decode_lossy(stdout.as_slice()).as_str(),
            decode_lossy(stderr.as_slice()).as_str(),
        ),
    }
}

/// The file to lock, and the directory that must be there before.
#[derive(Debug)]
pub struct LockPlan {
    path: String,
    directory: String,
}

/// The file to lock, and the directory that must be there before, as characters.
pub struct PlanView {
    pub path: Seq<char>,
    pub directory: Seq<char>,
}

impl View for LockPlan {
    type V = PlanView;

    closed spec fn view(&self) -> PlanView {
        PlanView { path: self.path@, directory: self.directory@ }
    }
}

/// What came of locking: the directory could not be made, the file could not be opened, another
/// process holds the lock, or it is held now.
#[derive(Debug)]
pub enum LockAttempt {
    NoDirectory(String),
    NotOpened(String),
    Refused(String),
    Held,
}

/// The file to lock, or why there is none.
pub open spec fn planned(repo: Seq<char>, outcome: GitOutcome) -> Result<PlanView, ErrorView> {
    match lock_path(repo, outcome) {
        Err(error) => Err(error),
        Ok(path) => match parent_of(path) {
            Some(directory) => Ok(PlanView { path, directory }),
            None => Err(lock_error("failed to determine parent directory for "@ + path)),
        },
    }
}

/// The lock, or why it is not held.
pub open spec fn acquired(plan: PlanView, attempt: LockAttempt) -> Result<Seq<char>, ErrorView> {
    match attempt {
        LockAttempt::NoDirectory(source) => Err(
            lock_error("failed to create lock directory "@ + plan.directory + ": "@ + source@),
        ),
        LockAttempt::NotOpened(source) => Err(
            lock_error("failed to open lock file "@ + plan.path + ": "@ + source@),
        ),
        LockAttempt::Refused(source) => Err(
            lock_error("failed to acquire lock "@ + plan.path + ": "@ + source@),
        ),
        LockAttempt::Held => Ok(plan.path),
    }
}

impl LockPlan {
    /// The file to lock in a repository, by the outcome of [`lock_path_call`].
    pub fn new(repo_path: &str, outcome: &GitOutcome) -> (result: Result<Self, Error>)
        ensures
            planned(repo_path@, *outcome) == (match result {
                Ok(plan) => Ok(plan@),
                Err(error) => Err(error@),
            }),
    {
        let path: String = match lock_path_for_repo(repo_path, outcome) {
            Ok(path) => path,
            Err(error) => return Err(error),
        };
        match parent(path.as_str()) {
            Some(directory) => Ok(LockPlan { path, directory }),
            None => {
                let mut message: String = "failed to determine parent directory for ".to_owned();
                message.append(path.as_str());
                Err(Error::Lock(message))
            },
        }
    }

    /// The file to lock.
    pub fn path(&self) -> (path: &str)
        ensures
            path@ == self@.path,
    {
        self.path.as_str()
    }

    /// The directory that must be there before.
    pub fn directory(&self) -> (directory: &str)
        ensures
            directory@ == self@.directory,
    {
        self.directory.as_str()
    }
}

/// A lock that is held.
#[derive(Debug)]
pub struct ProcessLock {
    path: String,
}

impl View for ProcessLock {
    type V = Seq<char>;

    closed spec fn view(&self) -> Seq<char> {
        self.path@
    }
}

fn refused(before: &str, place: &str, source: &str) -> (error: Error)
    ensures
        error@ == lock_error(before@ + place@ + ": "@ + source@),
{
    let mut message: String = before.to_owned();
    message.append(place);
    message.append(": ");
    message.append(source);
    Error::Lock(message)
}

impl ProcessLock {
    /// The lock, by what came of making the directory, opening the file and locking it.
    pub fn acquire(plan: LockPlan, attempt: LockAttempt) -> (result: Result<Self, Error>)
        ensures
            acquired(plan@, attempt) == (match result {
                Ok(lock) => Ok(lock@),
                Err(error) => Err(error@),
            }),
    {
        match attempt {
            LockAttempt::NoDirectory(source) => Err(
                refused(
                    "failed to create lock directory ",
                    plan.directory.as_str(),
                    source.as_str(),
                ),
            ),
            LockAttempt::NotOpened(source) => Err(
                refused("failed to open lock file ", plan.path.as_str(), source.as_str()),
            ),
            LockAttempt::Refused(source) => Err(
                refused("failed to acquire lock ", plan.path.as_str(), source.as_str()),
            ),
            LockAttempt::Held => Ok(ProcessLock { path: plan.path }),
        }
    }

    /// The file that is locked.
    pub fn path(&self) -> (path: &str)
        ensures
            path@ == self@,
    {
        self.path.as_str()
    }
}

/// The lock lies where git says, but for white space around that: from the repository where git
/// names a relative path. Without an answer there is no lock, and the reason is reported.
pub proof fn law_lock_lies_where_git_says(
    repo: Seq<char>,
    code: Option<i32>,
    stdout: Vec<u8>,
    stderr: Vec<u8>,
    head: Seq<char>,
    kept: Seq<char>,
    tail: Seq<char>,
    source: String,
)
    requires
        all_white_space(head),
        all_white_space(tail),
        kept.len() == 0 || (!is_white_space(kept.first()) && !is_white_space(kept.last())),
    ensures
        decoded(stdout@) == head + kept + tail && kept.len() > 0 && kept[0] == '/' ==> lock_path(
            repo,
            GitOutcome::Exited { success: true, code, stdout, stderr },
        ) == Ok::<Seq<char>, ErrorView>(kept),
        decoded(stdout@) == head + kept + tail && kept.len() > 0 && kept[0] != '/' ==> lock_path(
            repo,
            GitOutcome::Exited { success: true, code, stdout, stderr },
        ) == Ok::<Seq<char>, ErrorView>(joined_path(repo, kept)),
        decoded(stdout@) == head + kept + tail && kept.len() == 0 ==> (lock_path(
            repo,
            GitOutcome::Exited { success: true, code, stdout, stderr },
        ) matches Err(error) && error.kind == ErrorKind::Lock && (repo + ": "@
            + "empty response"@).is_suffix_of(error.message)),
        decoded(stderr@) == head + kept + tail ==> (lock_path(
            repo,
            GitOutcome::Exited { success: false, code, stdout, stderr },
        ) matches Err(error) && error.kind == ErrorKind::Lock && (repo + ": "@
            + kept).is_suffix_of(error.message)),
        lock_path(repo, GitOutcome::NotStarted(source)) matches Err(error) && error.kind
            == ErrorKind::Lock && (repo + ": "@ + source@).is_suffix_of(error.message),
{
    law_trimming_takes_white_space_around(head, kept, tail);
    assert forall|start: Seq<char>, why: Seq<char>|
        (repo + ": "@ + why).is_suffix_of(#[trigger] (start + repo + ": "@ + why)) by {
        let all = start + repo + ": "@ + why;
        let end = repo + ": "@ + why;
        assert(all.subrange(all.len() - end.len(), all.len() as int) =~= end);
    }
    if kept.len() == 0 {
        assert(trimmed(head + kept + tail) =~= kept);
    }
}

/// The directory of the lock file is the one that the file is in.
pub proof fn law_lock_is_planned_in_its_directory(
    repo: Seq<char>,
    outcome: GitOutcome,
    dir: Seq<char>,
    name: Seq<char>,
)
    requires
        is_name(name),
        end_of(dir, spans(dir).len() as int) == dir.len(),
        lock_path(repo, outcome) == Ok::<Seq<char>, ErrorView>(joined_path(dir, name)),
    ensures
        planned(repo, outcome) matches Ok(plan) && plan.path == joined_path(dir, name)
            && plan.directory == dir,
{
    law_file_in_a_directory_has_its_name(dir, name);
}

/// The lock is held exactly where the attempt says so, and it is that of the plan; what came in
/// between is an error of the lock that names the place and the reason.
pub proof fn law_lock_is_held_only_if_taken(plan: PlanView, source: String)
    ensures
        acquired(plan, LockAttempt::Held) == Ok::<Seq<char>, ErrorView>(plan.path),
        acquired(plan, LockAttempt::Refused(source)) matches Err(error) && error.kind
            == ErrorKind::Lock && (plan.path + ": "@ + source@).is_suffix_of(error.message),
        acquired(plan, LockAttempt::NotOpened(source)) matches Err(error) && error.kind
            == ErrorKind::Lock && (plan.path + ": "@ + source@).is_suffix_of(error.message),
        acquired(plan, LockAttempt::NoDirectory(source)) matches Err(error) && error.kind
            == ErrorKind::Lock && (plan.directory + ": "@ + source@).is_suffix_of(error.message),
{
    assert forall|start: Seq<char>, place: Seq<char>|
        (place + ": "@ + source@).is_suffix_of(#[trigger] (start + place + ": "@ + source@)) by {
        let all = start + place + ": "@ + source@;
        let end = place + ": "@ + source@;
        assert(all.subrange(all.len() - end.len(), all.len() as int) =~= end);
    }
}

} // verus!
