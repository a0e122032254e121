//! The git commands that the system runs, and what their outcomes mean.
//!
//! A [`GitCall`] is a command before it runs; [`GitCall::conclude`] reads its outcome.
use vstd::prelude::*;

use crate::error::{git_error, text_view, Error, ErrorKind, ErrorView};
use crate::paths::{
    absolute, components, is_absolute, is_plain, join_path, joined_path,
    law_relative_path_undoes_joining, strip_base, strip_prefix,
};
use crate::text::{
    debug_path, debug_text, decimal, decode_lossy, decoded, format_debug, format_debug_path, join,
    joined, law_decimal_stands_for_the_number, law_joining_puts_separators_between,
    law_line_ends_behind_are_taken, law_occurrence_has_something_around_it, number_of, occurs_in,
    to_decimal, trim_trailing_newlines, views, without_line_ends,
};

verus! {

/// What came of running git: it could not be started, or it ended.
#[derive(Debug)]
pub enum GitOutcome {
    NotStarted(String),
    Exited { success: bool, code: Option<i32>, stdout: Vec<u8>, stderr: Vec<u8> },
}

/// How a command is described when it fails.
#[derive(Debug, Clone, Copy, PartialEq, Eq, Structural)]
pub enum Wording {
    /// By its arguments as text.
    Text,
    /// By its arguments as the operating system takes them.
    System,
}

/// A git command: the directory it runs in and its arguments.
#[derive(Debug)]
pub struct GitCall {
    pub dir: String,
    pub args: Vec<String>,
    pub wording: Wording,
}

/// A git command as characters.
#[verifier::ext_equal]
pub struct CallView {
    pub dir: Seq<char>,
    pub args: Seq<Seq<char>>,
    pub wording: Wording,
}

impl View for GitCall {
    type V = CallView;

    open spec fn view(&self) -> CallView {
        CallView { dir: self.dir@, args: views(self.args@), wording: self.wording }
    }
}

/// Each argument as a message shows it.
pub open spec fn shown_each(call: CallView) -> Seq<Seq<char>> {
    call.args.map_values(
        |arg: Seq<char>|
            match call.wording {
                Wording::Text => debug_text(arg),
                Wording::System => debug_path(arg),
            },
    )
}

/// The arguments as a message shows them.
pub open spec fn shown_args(call: CallView) -> Seq<char> {
    "["@ + joined(shown_each(call), ", "@) + "]"@
}

/// What is said when git could not be started.
pub open spec fn start_failure(call: CallView, source: Seq<char>) -> Seq<char> {
    match call.wording {
        Wording::Text => "failed to run git "@ + shown_args(call) + " in "@ + call.dir + ": "@
            + source,
        Wording::System => "failed to run git command in "@ + call.dir + ": "@ + source,
    }
}

/// What is said when git ended with a failure.
pub open spec fn run_failure(call: CallView, complaint: Seq<char>) -> Seq<char> {
    match call.wording {
        Wording::Text => "git "@ + shown_args(call) + " failed in "@ + call.dir + ": "@ + complaint,
        Wording::System => "git command "@ + shown_args(call) + " failed in "@ + call.dir + ": "@
            + complaint,
    }
}

/// What a command that ended hands back: its output, or its complaint as an error, each without
/// the line ends behind it.
pub open spec fn ended(call: CallView, success: bool, stdout: Seq<char>, stderr: Seq<char>) -> Result<
    Seq<char>,
    ErrorView,
> {
    if success {
        Ok(without_line_ends(stdout))
    } else {
        Err(git_error(run_failure(call, without_line_ends(stderr))))
    }
}

/// What a command hands back.
pub open spec fn concluded(call: CallView, outcome: GitOutcome) -> Result<Seq<char>, ErrorView> {
    match outcome {
        GitOutcome::NotStarted(source) => Err(git_error(start_failure(call, source@))),
        GitOutcome::Exited { success, stdout, stderr, .. } => ended(
            call,
            success,
            decoded(stdout@),
            decoded(stderr@),
        ),
    }
}

impl GitCall {
    /// The words of the command behind `git`.
    pub fn argv(&self) -> (words: Vec<String>)
        ensures
            views(words@) == seq!["-C"@, self@.dir] + self@.args,
    {
        let mut words: Vec<String> = Vec::new();
        words.push("-C".to_owned());
        words.push(self.dir.clone());
        assert(views(words@) =~= seq!["-C"@, self@.dir]);
        for i in 0..self.args.len()
            invariant
                views(words@) == seq!["-C"@, self@.dir] + self@.args.take(i as int),
        {
            let ghost before = views(words@);
            words.push(self.args[i].clone());
            assert(views(words@) =~= before.push(self@.args[i as int]));
        }
        assert(self@.args.take(self.args@.len() as int) =~= self@.args);
        words
    }

    fn show_args(&self) -> (text: String)
        ensures
            text@ == shown_args(self@),
    {
        let mut parts: Vec<String> = Vec::new();
        let ghost all = shown_each(self@);
        for i in 0..self.args.len()
            invariant
                all == shown_each(self@),
                views(parts@) == all.take(i as int),
        {
            let ghost before = views(parts@);
            let part: String = match self.wording {
                Wording::Text => format_debug(self.args[i].as_str()),
                Wording::System => format_debug_path(self.args[i].as_str()),
            };
            parts.push(part);
            assert(part@ == all[i as int]);
            assert(views(parts@) =~= before.push(part@));
        }
        assert(all.take(self.args@.len() as int) =~= all);
        let mut text: String = "[".to_owned();
        text.append(join(&parts, ", ").as_str());
        text.append("]");
        text
    }

    /// What the command hands back when it ended with this output.
    pub fn finish(&self, success: bool, stdout: &str, stderr: &str) -> (result: Result<
        String,
        Error,
    >)
        ensures
            text_view(result) == ended(self@, success, stdout@, stderr@),
    {
        if success {
            return Ok(trim_trailing_newlines(stdout));
        }
        let complaint: String = trim_trailing_newlines(stderr);
        let mut message: String = match self.wording {
            Wording::Text => "git ".to_owned(),
            Wording::System => "git command ".to_owned(),
        };
        message.append(self.show_args().as_str());
        message.append(" failed in ");
        message.append(self.dir.as_str());
        message.append(": ");
        message.append(complaint.as_str());
        Err(Error::Git(message))
    }

    /// What the command hands back.
    pub fn conclude(&self, outcome: &GitOutcome) -> (result: Result<String, Error>)
        ensures
            text_view(result) == concluded(self@, *outcome),
    {
        match outcome {
            GitOutcome::NotStarted(source) => {
                let mut message: String = match self.wording {
                    Wording::Text => {
                        let mut message: String = "failed to run git ".to_owned();
                        message.append(self.show_args().as_str());
                        message.append(" in ");
                        message
                    },
                    Wording::System => "failed to run git command in ".to_owned(),
                };
                message.append(self.dir.as_str());
                message.append(": ");
                message.append(source.as_str());
                Err(Error::Git(message))
            },
            GitOutcome::Exited { success, stdout, stderr, .. } => self.finish(
                *success,
                decode_lossy(stdout.as_slice()).as_str(),
                decode_lossy(stderr.as_slice()).as_str(),
            ),
        }
    }
}

/// A repository, by the directory that holds it.
#[derive(Debug)]
pub struct GitRepo {
    path: String,
}

impl View for GitRepo {
    type V = Seq<char>;

    closed spec fn view(&self) -> Seq<char> {
        self.path@
    }
}

impl Clone for GitRepo {
    fn clone(&self) -> (copy: GitRepo)
        ensures
            copy@ == self@,
    {
        GitRepo { path: self.path.clone() }
    }
}

/// A command whose failure is described by its arguments as the system takes them.
pub open spec fn system_call(dir: Seq<char>, args: Seq<Seq<char>>) -> CallView {
    CallView { dir, args, wording: Wording::System }
}

/// A command whose failure is described by its arguments as text.
pub open spec fn text_call(dir: Seq<char>, args: Seq<Seq<char>>) -> CallView {
    CallView { dir, args, wording: Wording::Text }
}

/// The name of a file inside the repository; an absolute path outside it is refused.
pub open spec fn repo_relative(repo: Seq<char>, file: Seq<char>) -> Result<Seq<char>, ErrorView> {
    if is_absolute(file) {
        match strip_base(file, repo) {
            Some(rest) => Ok(rest),
            None => Err(
                git_error(
                    "path "@ + file + " is outside repository "@ + repo + ": prefix not found"@,
                ),
            ),
        }
    } else {
        Ok(file)
    }
}

/// The command, or the reason why there is none.
pub open spec fn call_view(result: Result<GitCall, Error>) -> Result<CallView, ErrorView> {
    match result {
        Ok(call) => Ok(call@),
        Err(error) => Err(error@),
    }
}

/// The command that stages one file's changes.
pub open spec fn add_call(repo: Seq<char>, file: Seq<char>) -> Result<CallView, ErrorView> {
    match repo_relative(repo, file) {
        Ok(name) => Ok(system_call(repo, seq!["add"@, "--"@, name])),
        Err(error) => Err(error),
    }
}

/// The command that stages one file's changes, its removal too.
pub open spec fn add_all_call(repo: Seq<char>, file: Seq<char>) -> Result<CallView, ErrorView> {
    match repo_relative(repo, file) {
        Ok(name) => Ok(system_call(repo, seq!["add"@, "-A"@, "--"@, name])),
        Err(error) => Err(error),
    }
}

/// The command that commits what is staged.
pub open spec fn commit_call(repo: Seq<char>, message: Seq<char>) -> CallView {
    system_call(repo, seq!["commit"@, "-m"@, message, "--no-gpg-sign"@])
}

/// The command that commits one file.
pub open spec fn commit_path_call(repo: Seq<char>, message: Seq<char>, file: Seq<char>) -> Result<
    CallView,
    ErrorView,
> {
    match repo_relative(repo, file) {
        Ok(name) => Ok(
            system_call(repo, seq!["commit"@, "-m"@, message, "--no-gpg-sign"@, "--"@, name]),
        ),
        Err(error) => Err(error),
    }
}

/// The command that names the newest commit.
pub open spec fn head_call(repo: Seq<char>) -> CallView {
    text_call(repo, seq!["rev-parse"@, "HEAD"@])
}

/// The command that makes a branch.
pub open spec fn create_branch_call(
    repo: Seq<char>,
    name: Seq<char>,
    start_point: Option<Seq<char>>,
) -> CallView {
    match start_point {
        Some(start) => system_call(repo, seq!["branch"@, name, start]),
        None => system_call(repo, seq!["branch"@, name]),
    }
}

/// The text of each word.
pub open spec fn word_views(words: Seq<&str>) -> Seq<Seq<char>> {
    words.map_values(|word: &str| word@)
}

pub(crate) fn words_of(words: &[&str]) -> (owned: Vec<String>)
    ensures
        views(owned@) == word_views(words@),
{
    let mut owned: Vec<String> = Vec::new();
    for i in 0..words.len()
        invariant
            views(owned@) == word_views(words@).take(i as int),
    {
        let ghost before = views(owned@);
        owned.push(words[i].to_owned());
        assert(views(owned@) =~= before.push(words@[i as int]@));
    }
    owned
}

impl GitRepo {
    /// Where a repository keeps its data.
    pub fn git_dir(path: &str) -> (dir: String)
        ensures
            dir@ == joined_path(path@, ".git"@),
    {
        join_path(path, ".git")
    }

    /// The repository at `path`; `git_dir_exists` tells whether there is something at
    /// [`GitRepo::git_dir`].
    pub fn new(path: &str, git_dir_exists: bool) -> (result: Result<Self, Error>)
        ensures
            match result {
                Ok(repo) => git_dir_exists && repo@ == path@,
                Err(error) => !git_dir_exists && error@ == git_error(
                    "missing .git directory in "@ + path@,
                ),
            },
    {
        if !git_dir_exists {
            let mut message: String = "missing .git directory in ".to_owned();
            message.append(path);
            return Err(Error::Git(message));
        }
        Ok(GitRepo { path: path.to_owned() })
    }

    /// The directory that holds the repository.
    pub fn path(&self) -> (path: &str)
        ensures
            path@ == self@,
    {
        self.path.as_str()
    }

    fn system(&self, words: &[&str]) -> (call: GitCall)
        ensures
            call@ == system_call(self@, word_views(words@)),
    {
        GitCall { dir: self.path.clone(), args: words_of(words), wording: Wording::System }
    }

    fn textual(&self, words: &[&str]) -> (call: GitCall)
        ensures
            call@ == text_call(self@, word_views(words@)),
    {
        GitCall { dir: self.path.clone(), args: words_of(words), wording: Wording::Text }
    }

    fn relative(&self, file: &str) -> (result: Result<String, Error>)
        ensures
            text_view(result) == repo_relative(self@, file@),
    {
        if !absolute(file) {
            return Ok(file.to_owned());
        }
        match strip_prefix(file, self.path.as_str()) {
            Some(rest) => Ok(rest),
            None => {
                let mut message: String = "path ".to_owned();
                message.append(file);
                message.append(" is outside repository ");
                message.append(self.path.as_str());
                message.append(": prefix not found");
                Err(Error::Git(message))
            },
        }
    }

    /// The command that lists what differs from the newest commit.
    pub fn status(&self) -> (call: GitCall)
        ensures
            call@ == text_call(self@, seq!["status"@, "--porcelain"@]),
    {
        let call: GitCall = self.textual(&["status", "--porcelain"]);
        assert(call@.args =~= seq!["status"@, "--porcelain"@]);
        call
    }

    /// The command that stages one file's changes.
    pub fn add(&self, file: &str) -> (result: Result<GitCall, Error>)
        ensures
            call_view(result) == add_call(self@, file@),
    {
        match self.relative(file) {
            Ok(name) => {
                let call: GitCall = self.system(&["add", "--", name.as_str()]);
                assert(call@.args =~= seq!["add"@, "--"@, name@]);
                Ok(call)
            },
            Err(error) => Err(error),
        }
    }

    /// The command that stages one file's changes, its removal too.
    pub fn add_all(&self, file: &str) -> (result: Result<GitCall, Error>)
        ensures
            call_view(result) == add_all_call(self@, file@),
    {
        match self.relative(file) {
            Ok(name) => {
                let call: GitCall = self.system(&["add", "-A", "--", name.as_str()]);
                assert(call@.args =~= seq!["add"@, "-A"@, "--"@, name@]);
                Ok(call)
            },
            Err(error) => Err(error),
        }
    }

    /// The command that commits what is staged. The commit's name comes from
    /// [`GitRepo::head`].
    pub fn commit(&self, message: &str) -> (call: GitCall)
        ensures
            call@ == commit_call(self@, message@),
    {
        let call: GitCall = self.system(&["commit", "-m", message, "--no-gpg-sign"]);
        assert(call@.args =~= seq!["commit"@, "-m"@, message@, "--no-gpg-sign"@]);
        call
    }

    /// The command that commits one file. The commit's name comes from [`GitRepo::head`].
    pub fn commit_path(&self, message: &str, path: &str) -> (result: Result<GitCall, Error>)
        ensures
            call_view(result) == commit_path_call(self@, message@, path@),
    {
        match self.relative(path) {
            Ok(name) => {
                let call: GitCall = self.system(
                    &["commit", "-m", message, "--no-gpg-sign", "--", name.as_str()],
                );
                assert(call@.args =~= seq![
                    "commit"@,
                    "-m"@,
                    message@,
                    "--no-gpg-sign"@,
                    "--"@,
                    name@,
                ]);
                Ok(call)
            },
            Err(error) => Err(error),
        }
    }

    /// The command that names the newest commit.
    pub fn head(&self) -> (call: GitCall)
        ensures
            call@ == head_call(self@),
    {
        let call: GitCall = self.textual(&["rev-parse", "HEAD"]);
        assert(call@.args =~= seq!["rev-parse"@, "HEAD"@]);
        call
    }

    /// The command that tells whether there is a commit.
    pub fn verify_head(&self) -> (call: GitCall)
        ensures
            call@ == text_call(self@, seq!["rev-parse"@, "--verify"@, "HEAD"@]),
    {
        let call: GitCall = self.textual(&["rev-parse", "--verify", "HEAD"]);
        assert(call@.args =~= seq!["rev-parse"@, "--verify"@, "HEAD"@]);
        call
    }

    /// Whether there is a commit, by the outcome of [`GitRepo::verify_head`].
    pub fn has_head_commit(&self, outcome: &GitOutcome) -> (result: Result<bool, Error>)
        ensures
            head_found(self@, *outcome) == (match result {
                Ok(found) => Ok(found),
                Err(error) => Err(error@),
            }),
    {
        match outcome {
            GitOutcome::NotStarted(source) => {
                let mut message: String = "failed to verify HEAD in ".to_owned();
                message.append(self.path.as_str());
                message.append(": ");
                message.append(source.as_str());
                Err(Error::Git(message))
            },
            GitOutcome::Exited { success, .. } => Ok(*success),
        }
    }

    /// Begins to list the newest commits, at most `limit` of them.
    pub fn recent_commits(&self, limit: usize) -> (step: RecentStep)
        ensures
            step@ == (if limit == 0 {
                RecentStepView::Done(Ok(Seq::empty()))
            } else {
                RecentStepView::VerifyHead(RecentView { repo: self@, limit: limit as nat })
            }),
    {
        if limit == 0 {
            nothing_recent()
        } else {
            RecentStep::VerifyHead(RecentHead { repo: self.clone(), limit })
        }
    }

    /// The command that sets a tag.
    pub fn tag(&self, name: &str) -> (call: GitCall)
        ensures
            call@ == system_call(self@, seq!["tag"@, name@]),
    {
        let call: GitCall = self.system(&["tag", name]);
        assert(call@.args =~= seq!["tag"@, name@]);
        call
    }

    /// The command that checks a branch out.
    pub fn checkout_branch(&self, name: &str) -> (call: GitCall)
        ensures
            call@ == system_call(self@, seq!["checkout"@, name@]),
    {
        let call: GitCall = self.system(&["checkout", name]);
        assert(call@.args =~= seq!["checkout"@, name@]);
        call
    }

    /// The command that makes a branch.
    pub fn create_branch(&self, name: &str, start_point: Option<&str>) -> (call: GitCall)
        ensures
            call@ == create_branch_call(
                self@,
                name@,
                match start_point {
                    Some(start) => Some(start@),
                    None => None,
                },
            ),
    {
        match start_point {
            Some(start) => {
                let call: GitCall = self.system(&["branch", name, start]);
                assert(call@.args =~= seq!["branch"@, name@, start@]);
                call
            },
            None => {
                let call: GitCall = self.system(&["branch", name]);
                assert(call@.args =~= seq!["branch"@, name@]);
                call
            },
        }
    }

    /// The command that merges a branch into one change.
    pub fn merge_squash(&self, from: &str) -> (call: GitCall)
        ensures
            call@ == system_call(self@, seq!["merge"@, "--squash"@, from@]),
    {
        let call: GitCall = self.system(&["merge", "--squash", from]);
        assert(call@.args =~= seq!["merge"@, "--squash"@, from@]);
        call
    }

    /// The command that names the branch that is checked out.
    pub fn current_branch(&self) -> (call: GitCall)
        ensures
            call@ == text_call(self@, seq!["rev-parse"@, "--abbrev-ref"@, "HEAD"@]),
    {
        let call: GitCall = self.textual(&["rev-parse", "--abbrev-ref", "HEAD"]);
        assert(call@.args =~= seq!["rev-parse"@, "--abbrev-ref"@, "HEAD"@]);
        call
    }

    /// The command that pushes what is checked out.
    pub fn push(&self, remote: &str) -> (call: GitCall)
        ensures
            call@ == system_call(self@, seq!["push"@, remote@, "HEAD"@]),
    {
        let call: GitCall = self.system(&["push", remote, "HEAD"]);
        assert(call@.args =~= seq!["push"@, remote@, "HEAD"@]);
        call
    }

    /// A command with these arguments, described as text.
    pub fn run_git_args(&self, args: &[&str]) -> (call: GitCall)
        ensures
            call@ == text_call(self@, word_views(args@)),
    {
        self.textual(args)
    }

    /// A command with these arguments, described as the system takes them.
    pub fn run_git_os_args(&self, args: &[&str]) -> (call: GitCall)
        ensures
            call@ == system_call(self@, word_views(args@)),
    {
        self.system(args)
    }
}

/// A list of the newest commits, before it is known whether there is a commit.
#[derive(Debug)]
pub struct RecentHead {
    repo: GitRepo,
    limit: usize,
}

/// A list of the newest commits, when there is one.
#[derive(Debug)]
pub struct RecentList {
    repo: GitRepo,
    limit: usize,
}

/// A list of the newest commits: the repository, and how many are listed at most.
pub struct RecentView {
    pub repo: Seq<char>,
    pub limit: nat,
}

impl View for RecentHead {
    type V = RecentView;

    closed spec fn view(&self) -> RecentView {
        RecentView { repo: self.repo@, limit: self.limit as nat }
    }
}

impl View for RecentList {
    type V = RecentView;

    closed spec fn view(&self) -> RecentView {
        RecentView { repo: self.repo@, limit: self.limit as nat }
    }
}

/// What listing the newest commits does next: find out whether there is a commit, list, or end
/// with the list.
#[derive(Debug)]
pub enum RecentStep {
    VerifyHead(RecentHead),
    List(RecentList),
    Done(Result<String, Error>),
}

/// What listing the newest commits does next, as characters.
pub enum RecentStepView {
    VerifyHead(RecentView),
    List(RecentView),
    Done(Result<Seq<char>, ErrorView>),
}

impl View for RecentStep {
    type V = RecentStepView;

    open spec fn view(&self) -> RecentStepView {
        match self {
            RecentStep::VerifyHead(head) => RecentStepView::VerifyHead(head@),
            RecentStep::List(list) => RecentStepView::List(list@),
            RecentStep::Done(result) => RecentStepView::Done(text_view(*result)),
        }
    }
}

/// Whether there is a commit, by the outcome of verifying it.
pub open spec fn head_found(repo: Seq<char>, outcome: GitOutcome) -> Result<bool, ErrorView> {
    match outcome {
        GitOutcome::NotStarted(source) => Err(
            git_error("failed to verify HEAD in "@ + repo + ": "@ + source@),
        ),
        GitOutcome::Exited { success, .. } => Ok(success),
    }
}

/// What follows when it is known whether there is a commit: without one, the list is empty.
pub open spec fn after_head(recent: RecentView, outcome: GitOutcome) -> RecentStepView {
    match head_found(recent.repo, outcome) {
        Err(error) => RecentStepView::Done(Err(error)),
        Ok(false) => RecentStepView::Done(Ok(Seq::empty())),
        Ok(true) => RecentStepView::List(recent),
    }
}

/// The command that lists the newest commits.
pub open spec fn log_call(recent: RecentView) -> CallView {
    system_call(recent.repo, seq!["log"@, "--oneline"@, "-"@ + decimal(recent.limit)])
}

fn nothing_recent() -> (step: RecentStep)
    ensures
        step@ == RecentStepView::Done(Ok(Seq::empty())),
{
    let empty: String = String::new();
    assert(empty@ =~= Seq::empty());
    RecentStep::Done(Ok(empty))
}

impl RecentHead {
    /// The command that tells whether there is a commit.
    pub fn call(&self) -> (call: GitCall)
        ensures
            call@ == text_call(self@.repo, seq!["rev-parse"@, "--verify"@, "HEAD"@]),
    {
        self.repo.verify_head()
    }

    /// What follows when the command has ended.
    pub fn resume(self, outcome: &GitOutcome) -> (step: RecentStep)
        ensures
            step@ == after_head(self@, *outcome),
    {
        match self.repo.has_head_commit(outcome) {
            Err(error) => RecentStep::Done(Err(error)),
            Ok(false) => nothing_recent(),
            Ok(true) => RecentStep::List(RecentList { repo: self.repo, limit: self.limit }),
        }
    }
}

impl RecentList {
    /// The command that lists the newest commits.
    pub fn call(&self) -> (call: GitCall)
        ensures
            call@ == log_call(self@),
    {
        let mut count: String = "-".to_owned();
        count.append(to_decimal(self.limit as u128).as_str());
        let call: GitCall = self.repo.system(&["log", "--oneline", count.as_str()]);
        assert(call@.args =~= seq!["log"@, "--oneline"@, "-"@ + decimal(self.limit as nat)]);
        call
    }

    /// The list, when the command has ended.
    pub fn resume(self, outcome: &GitOutcome) -> (step: RecentStep)
        ensures
            step@ == RecentStepView::Done(concluded(log_call(self@), *outcome)),
    {
        RecentStep::Done(self.call().conclude(outcome))
    }
}

/// What git printed is handed back without the line ends behind it, white space and all, where git
/// succeeded, whatever else it printed or returned.
pub proof fn law_output_is_handed_back(
    call: CallView,
    code: Option<i32>,
    stdout: Vec<u8>,
    stderr: Vec<u8>,
    kept: Seq<char>,
    tail: Seq<char>,
)
    requires
        decoded(stdout@) == kept + tail,
        kept.len() == 0 || (kept.last() != '\n' && kept.last() != '\r'),
        forall|i: int| 0 <= i < tail.len() ==> #[trigger] tail[i] == '\n' || tail[i] == '\r',
    ensures
        concluded(call, GitOutcome::Exited { success: true, code, stdout, stderr }) == Ok::<
            Seq<char>,
            ErrorView,
        >(kept),
{
    law_line_ends_behind_are_taken(kept, tail);
}

/// A failure of git is an error of git that names the directory and the arguments and ends with
/// what git complained of; where git could not be started, with the reason for that.
pub proof fn law_failure_tells_what_git_complained_of(
    call: CallView,
    code: Option<i32>,
    stdout: Vec<u8>,
    stderr: Vec<u8>,
    kept: Seq<char>,
    tail: Seq<char>,
    source: String,
)
    requires
        decoded(stderr@) == kept + tail,
        kept.len() == 0 || (kept.last() != '\n' && kept.last() != '\r'),
        forall|i: int| 0 <= i < tail.len() ==> #[trigger] tail[i] == '\n' || tail[i] == '\r',
    ensures
        concluded(call, GitOutcome::Exited { success: false, code, stdout, stderr }) matches Err(
            error,
        ) && error.kind == ErrorKind::Git && (call.dir + ": "@ + kept).is_suffix_of(error.message)
            && occurs_in(shown_args(call), error.message),
        concluded(call, GitOutcome::NotStarted(source)) matches Err(error) && error.kind
            == ErrorKind::Git && (call.dir + ": "@ + source@).is_suffix_of(error.message) && (
        call.wording == Wording::Text ==> occurs_in(shown_args(call), error.message)),
{
    law_line_ends_behind_are_taken(kept, tail);
    let shown = shown_args(call);
    let end = call.dir + ": "@ + kept;
    let message = run_failure(call, kept);
    let start = match call.wording {
        Wording::Text => "git "@,
        Wording::System => "git command "@,
    };
    law_occurrence_has_something_around_it(start, shown, " failed in "@ + end, Seq::empty());
    assert(message =~= start + shown + (" failed in "@ + end));
    assert(message.subrange(message.len() - end.len(), message.len() as int) =~= end);
    let reason = call.dir + ": "@ + source@;
    let text = start_failure(call, source@);
    law_occurrence_has_something_around_it(
        "failed to run git "@,
        shown,
        " in "@ + reason,
        Seq::empty(),
    );
    if call.wording == Wording::Text {
        assert(text =~= "failed to run git "@ + shown + (" in "@ + reason));
    }
    assert(text.subrange(text.len() - reason.len(), text.len() as int) =~= reason);
}

/// The arguments of a command are shown in square brackets, one behind the other with a comma
/// between each two.
pub proof fn law_arguments_are_shown_as_a_list(
    call: CallView,
    first: Seq<Seq<char>>,
    second: Seq<Seq<char>>,
    shown_first: Seq<char>,
    shown_second: Seq<char>,
    word: Seq<char>,
)
    requires
        first.len() > 0,
        second.len() > 0,
        shown_args(CallView { args: first, ..call }) == "["@ + shown_first + "]"@,
        shown_args(CallView { args: second, ..call }) == "["@ + shown_second + "]"@,
    ensures
        shown_args(CallView { args: first + second, ..call }) == "["@ + shown_first + ", "@
            + shown_second + "]"@,
        shown_args(CallView { args: seq![word], wording: Wording::Text, ..call }) == "["@
            + debug_text(word) + "]"@,
        shown_args(CallView { args: seq![word], wording: Wording::System, ..call }) == "["@
            + debug_path(word) + "]"@,
{
    let one = CallView { args: first, ..call };
    let two = CallView { args: second, ..call };
    let both = CallView { args: first + second, ..call };
    reveal_strlit("[");
    reveal_strlit("]");
    let inner_one = joined(shown_each(one), ", "@);
    let inner_two = joined(shown_each(two), ", "@);
    assert(shown_args(one).subrange(1, shown_args(one).len() - 1) =~= inner_one);
    assert(shown_args(one).subrange(1, shown_args(one).len() - 1) =~= shown_first);
    assert(shown_args(two).subrange(1, shown_args(two).len() - 1) =~= inner_two);
    assert(shown_args(two).subrange(1, shown_args(two).len() - 1) =~= shown_second);
    assert(shown_each(both) =~= shown_each(one) + shown_each(two));
    law_joining_puts_separators_between(shown_each(one), shown_each(two), ", "@);
    assert(shown_args(both) =~= "["@ + shown_first + ", "@ + shown_second + "]"@);
    let text = CallView { args: seq![word], wording: Wording::Text, ..call };
    let system = CallView { args: seq![word], wording: Wording::System, ..call };
    assert(shown_each(text) =~= seq![debug_text(word)]);
    assert(shown_each(system) =~= seq![debug_path(word)]);
    law_joining_puts_separators_between(seq![debug_text(word)], seq![debug_text(word)], ", "@);
    law_joining_puts_separators_between(seq![debug_path(word)], seq![debug_path(word)], ", "@);
}

/// A file is called by its name inside the repository, whether it is given by that or by its whole
/// path; what lies outside is refused by an error of git that names both.
pub proof fn law_files_are_called_by_their_name_inside(
    repo: Seq<char>,
    name: Seq<char>,
    file: Seq<char>,
)
    requires
        is_plain(name),
    ensures
        repo_relative(repo, name) == Ok::<Seq<char>, ErrorView>(name),
        repo.len() > 0 && repo[0] == '/' ==> repo_relative(repo, joined_path(repo, name)) == Ok::<
            Seq<char>,
            ErrorView,
        >(name),
        file.len() > 0 && file[0] == '/' && components(repo).len() > 0 && !components(
            repo,
        ).is_prefix_of(components(file)) ==> (repo_relative(repo, file) matches Err(error)
            && error.kind == ErrorKind::Git && occurs_in(file, error.message) && occurs_in(
            repo,
            error.message,
        )),
{
    law_relative_path_undoes_joining(repo, name);
    if repo.len() > 0 && repo[0] == '/' {
        assert(joined_path(repo, name)[0] == '/');
    }
    let first = " is outside repository "@ + repo + ": prefix not found"@;
    let message = "path "@ + file + " is outside repository "@ + repo + ": prefix not found"@;
    law_occurrence_has_something_around_it("path "@, file, first, Seq::empty());
    assert(message =~= "path "@ + file + first);
    law_occurrence_has_something_around_it(
        "path "@ + file + " is outside repository "@,
        repo,
        ": prefix not found"@,
        Seq::empty(),
    );
}

/// The newest commits are listed where there is a commit; where there is none, the list is empty
/// and no error. As many are asked for as the limit says.
pub proof fn law_recent_commits_are_listed_where_there_are_any(
    recent: RecentView,
    code: Option<i32>,
    stdout: Vec<u8>,
    stderr: Vec<u8>,
    source: String,
)
    ensures
        after_head(recent, GitOutcome::Exited { success: true, code, stdout, stderr })
            == RecentStepView::List(recent),
        after_head(recent, GitOutcome::Exited { success: false, code, stdout, stderr })
            == RecentStepView::Done(Ok(Seq::empty())),
        after_head(recent, GitOutcome::NotStarted(source)) matches RecentStepView::Done(Err(error))
            && error.kind == ErrorKind::Git && source@.is_suffix_of(error.message),
        log_call(recent).dir == recent.repo,
        log_call(recent).args.len() == 3,
        log_call(recent).args[0] == "log"@,
        log_call(recent).args[1] == "--oneline"@,
        log_call(recent).args[2][0] == '-',
        number_of(log_call(recent).args[2].drop_first()) == recent.limit,
{
    reveal_strlit("-");
    law_decimal_stands_for_the_number(recent.limit);
    assert(log_call(recent).args[2].drop_first() =~= decimal(recent.limit));
    let text = "failed to verify HEAD in "@ + recent.repo + ": "@ + source@;
    assert(text.subrange(text.len() - source@.len(), text.len() as int) =~= source@);
}

/// To stage a file takes its name inside the repository, whichever of the two ways it is staged;
/// a file outside is refused, and so it is for a commit.
pub proof fn law_files_are_staged_by_their_name_inside(
    repo: Seq<char>,
    name: Seq<char>,
    file: Seq<char>,
    message: Seq<char>,
)
    requires
        is_plain(name),
    ensures
        add_call(repo, name) matches Ok(call) && call.dir == repo && call.args == seq![
            "add"@,
            "--"@,
            name,
        ],
        add_all_call(repo, name) matches Ok(call) && call.dir == repo && call.args == seq![
            "add"@,
            "-A"@,
            "--"@,
            name,
        ],
        repo.len() > 0 && repo[0] == '/' ==> add_call(repo, joined_path(repo, name)) == add_call(
            repo,
            name,
        ) && add_all_call(repo, joined_path(repo, name)) == add_all_call(repo, name)
            && commit_path_call(repo, message, joined_path(repo, name)) == commit_path_call(
            repo,
            message,
            name,
        ),
        file.len() > 0 && file[0] == '/' && components(repo).len() > 0 && !components(
            repo,
        ).is_prefix_of(components(file)) ==> add_call(repo, file) is Err && add_all_call(
            repo,
            file,
        ) is Err && commit_path_call(repo, message, file) is Err,
{
    law_files_are_called_by_their_name_inside(repo, name, file);
}

} // verus!
