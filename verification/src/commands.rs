//! What the commands of the program say and decide.
use vstd::prelude::*;

use crate::config::{ConfigView, WatchMode, WorkspaceConfig};
use crate::error::{
    config_error, git_error, hook_error, text_view, unit_view, watcher_error, Error, ErrorKind,
    ErrorView,
};
use crate::git::{system_call, GitCall, GitOutcome, GitRepo};
use crate::hook::{allowed_event, checked, HookSignal, SignalView};
use crate::init::{item_path, reading_view, Item};
use crate::lock::ProcessLock;
use crate::paths::{absolute, is_absolute, join_path, joined_path};
use crate::text::{
    all_white_space, decimal, decode_lossy, decoded, is_white_space,
    law_decimal_stands_for_the_number, law_decimal_tells_numbers_apart,
    law_trimming_keeps_what_is_no_white_space, law_trimming_takes_white_space_around, number_of,
    to_decimal, trim, trimmed, views,
};

verus! {

/// The config file in the current directory.
pub open spec fn config_file(current_dir: Result<Seq<char>, Seq<char>>) -> Result<
    Seq<char>,
    ErrorView,
> {
    match current_dir {
        Ok(dir) => Ok(joined_path(dir, "personaguard.toml"@)),
        Err(source) => Err(config_error("failed to resolve current directory: "@ + source)),
    }
}

/// A workspace's path, taken from the current directory where it is relative.
pub open spec fn candidate(path: Seq<char>, current_dir: Result<Seq<char>, Seq<char>>) -> Result<
    Seq<char>,
    ErrorView,
> {
    if is_absolute(path) {
        Ok(path)
    } else {
        match current_dir {
            Ok(dir) => Ok(joined_path(dir, path)),
            Err(source) => Err(config_error("failed to resolve current directory: "@ + source)),
        }
    }
}

/// What making a workspace's path absolute and free of links came to.
pub open spec fn canonical_workspace(
    candidate: Seq<char>,
    canonical: Result<Seq<char>, Seq<char>>,
) -> Result<Seq<char>, ErrorView> {
    match canonical {
        Ok(path) => Ok(path),
        Err(source) => Err(
            config_error("failed to normalize workspace path "@ + candidate + ": "@ + source),
        ),
    }
}

fn unresolved(source: String) -> (error: Error)
    ensures
        error@ == config_error("failed to resolve current directory: "@ + source@),
{
    let mut message: String = "failed to resolve current directory: ".to_owned();
    message.append(source.as_str());
    Error::Config(message)
}

/// The config file in the current directory.
pub fn config_path(current_dir: Result<String, String>) -> (result: Result<String, Error>)
    ensures
        text_view(result) == config_file(reading_view(current_dir)),
{
    match current_dir {
        Ok(dir) => Ok(join_path(dir.as_str(), "personaguard.toml")),
        Err(source) => Err(unresolved(source)),
    }
}

/// A workspace's path, taken from the current directory where it is relative.
pub fn workspace_candidate(path: &str, current_dir: Result<String, String>) -> (result: Result<
    String,
    Error,
>)
    ensures
        text_view(result) == candidate(path@, reading_view(current_dir)),
{
    if absolute(path) {
        return Ok(path.to_owned());
    }
    match current_dir {
        Ok(dir) => Ok(join_path(dir.as_str(), path)),
        Err(source) => Err(unresolved(source)),
    }
}

/// What making a workspace's path absolute and free of links came to.
pub fn normalize_workspace_path(candidate: &str, canonical: Result<String, String>) -> (result:
    Result<String, Error>)
    ensures
        text_view(result) == canonical_workspace(candidate@, reading_view(canonical)),
{
    match canonical {
        Ok(path) => Ok(path),
        Err(source) => {
            let mut message: String = "failed to normalize workspace path ".to_owned();
            message.append(candidate);
            message.append(": ");
            message.append(source.as_str());
            Err(Error::Config(message))
        },
    }
}

/// The time since the epoch began: whole seconds, and nanoseconds beyond them.
#[derive(Debug, Clone, Copy, PartialEq, Eq, Structural)]
pub struct SinceEpoch {
    pub seconds: u64,
    pub nanoseconds: u32,
}

/// The name of a checkpoint made now: the seconds since the epoch.
pub fn current_timestamp_string(now: Result<SinceEpoch, String>) -> (result: Result<String, Error>)
    ensures
        text_view(result) == (match now {
            Ok(now) => Ok(decimal(now.seconds as nat)),
            Err(source) => Err(config_error("failed to get system time: "@ + source@)),
        }),
{
    match now {
        Ok(now) => Ok(to_decimal(now.seconds as u128)),
        Err(source) => {
            let mut message: String = "failed to get system time: ".to_owned();
            message.append(source.as_str());
            Err(Error::Config(message))
        },
    }
}

/// The signal that a hook command stands for. Its key holds the time down to the nanosecond.
pub open spec fn manual(event: Seq<char>, now: SinceEpoch) -> SignalView {
    SignalView {
        event,
        dedupe_key: "manual-"@ + decimal(
            (now.seconds * 1_000_000_000 + now.nanoseconds) as nat,
        ),
        timestamp: decimal(now.seconds as nat),
    }
}

/// The signal that a hook command stands for.
pub fn manual_signal(event: String, now: Result<SinceEpoch, String>) -> (result: Result<
    HookSignal,
    Error,
>)
    ensures
        match (now, result) {
            (Ok(now), Ok(signal)) => signal@ == manual(event@, now),
            (Err(source), Err(error)) => error@ == hook_error(
                "failed to get system time for hook event: "@ + source@,
            ),
            _ => false,
        },
{
    match now {
        Ok(now) => {
            let mut dedupe_key: String = "manual-".to_owned();
            let nanoseconds: u128 = now.seconds as u128 * 1_000_000_000 + now.nanoseconds as u128;
            dedupe_key.append(to_decimal(nanoseconds).as_str());
            Ok(HookSignal { event, dedupe_key, timestamp: to_decimal(now.seconds as u128) })
        },
        Err(source) => {
            let mut message: String = "failed to get system time for hook event: ".to_owned();
            message.append(source.as_str());
            Err(Error::Hook(message))
        },
    }
}

/// What running a workspace in hook mode comes to: hooks run by themselves.
pub fn run_hook_mode() -> (result: Result<(), Error>)
    ensures
        unit_view(result) == Err::<(), ErrorView>(
            hook_error(
                "hook mode is not managed by `git-bak run`; install and trigger the hook instead"@,
            ),
        ),
{
    Err(
        Error::Hook(
            "hook mode is not managed by `git-bak run`; install and trigger the hook instead"
                .to_owned(),
        ),
    )
}

/// What running a workspace in watcher mode came to: the wait for an interrupt failed, or the
/// watcher's thread panicked, or the watcher ended.
#[derive(Debug)]
pub enum WatcherEnd {
    NoInterrupt(String),
    Panicked,
    Ended(Result<(), Error>),
}

/// What running a workspace in watcher mode comes to.
pub fn run_watcher_mode(end: WatcherEnd) -> (result: Result<(), Error>)
    ensures
        unit_view(result) == (match end {
            WatcherEnd::NoInterrupt(source) => Err(
                watcher_error("failed to listen for Ctrl-C: "@ + source@),
            ),
            WatcherEnd::Panicked => Err(watcher_error("watcher thread panicked"@)),
            WatcherEnd::Ended(result) => unit_view(result),
        }),
{
    match end {
        WatcherEnd::NoInterrupt(source) => {
            let mut message: String = "failed to listen for Ctrl-C: ".to_owned();
            message.append(source.as_str());
            Err(Error::Watcher(message))
        },
        WatcherEnd::Panicked => Err(Error::Watcher("watcher thread panicked".to_owned())),
        WatcherEnd::Ended(result) => result,
    }
}

/// How a mode is shown.
pub open spec fn mode_text(mode: WatchMode) -> Seq<char> {
    match mode {
        WatchMode::Watcher => "Watcher"@,
        WatchMode::Hook => "Hook"@,
    }
}

/// The lines of the status that come from the config.
pub open spec fn config_lines(config_path: Seq<char>, config: ConfigView) -> Seq<Seq<char>> {
    seq![
        "config: "@ + config_path,
        "workspace: "@ + config.workspace,
        "watch count: "@ + decimal(config.watch.len()),
        "debounce_ms: "@ + decimal(config.debounce_ms as nat),
        "push_interval_sec: "@ + decimal(config.push_interval_sec as nat),
        "mode: "@ + mode_text(config.mode),
    ]
}

fn labelled(label: &str, text: &str) -> (line: String)
    ensures
        line@ == label@ + text@,
{
    let mut line: String = label.to_owned();
    line.append(text);
    line
}

/// The lines of the status that come from the config.
pub fn config_report(config_path: &str, config: &WorkspaceConfig) -> (report: Vec<String>)
    ensures
        views(report@) == config_lines(config_path@, config@),
{
    let mode: &str = match config.mode {
        WatchMode::Watcher => "Watcher",
        WatchMode::Hook => "Hook",
    };
    let count: usize = config.watch.len();
    let report: Vec<String> = vec![
        labelled("config: ", config_path),
        labelled("workspace: ", config.workspace.as_str()),
        labelled("watch count: ", to_decimal(count as u128).as_str()),
        labelled("debounce_ms: ", to_decimal(config.debounce_ms as u128).as_str()),
        labelled("push_interval_sec: ", to_decimal(config.push_interval_sec as u128).as_str()),
        labelled("mode: ", mode),
    ];
    assert(views(report@) =~= config_lines(config_path@, config@));
    report
}

/// The part of the status that comes from git.
pub open spec fn status_text(porcelain: Seq<char>) -> Seq<char> {
    if porcelain.len() == 0 {
        "git status: clean"@
    } else {
        "git status:\n"@ + porcelain
    }
}

/// The part of the status that comes from git.
pub fn git_status_report(porcelain: &str) -> (report: String)
    ensures
        report@ == status_text(porcelain@),
{
    if porcelain.is_empty() {
        "git status: clean".to_owned()
    } else {
        labelled("git status:\n", porcelain)
    }
}

/// The command that lists the five newest commits.
pub fn recent_commits_call(repo: &GitRepo) -> (call: GitCall)
    ensures
        call@ == system_call(repo@, seq!["log"@, "--oneline"@, "-5"@]),
{
    let call: GitCall = repo.run_git_os_args(&["log", "--oneline", "-5"]);
    assert(call@.args =~= seq!["log"@, "--oneline"@, "-5"@]);
    call
}

/// The newest commits, by how listing them ended.
pub open spec fn commits_listed(
    repo: Seq<char>,
    success: bool,
    stdout: Seq<char>,
    stderr: Seq<char>,
) -> Result<Seq<char>, ErrorView> {
    if success {
        Ok(trimmed(stdout))
    } else {
        Err(git_error("failed to read recent commits in "@ + repo + ": "@ + trimmed(stderr)))
    }
}

/// The newest commits, by how listing them ended.
pub fn read_commits(repo_path: &str, success: bool, stdout: &str, stderr: &str) -> (result: Result<
    String,
    Error,
>)
    ensures
        text_view(result) == commits_listed(repo_path@, success, stdout@, stderr@),
{
    if success {
        return Ok(trim(stdout));
    }
    let mut message: String = "failed to read recent commits in ".to_owned();
    message.append(repo_path);
    message.append(": ");
    message.append(trim(stderr).as_str());
    Err(Error::Git(message))
}

/// The newest commits, by the outcome of [`recent_commits_call`].
pub open spec fn commits_read(repo: Seq<char>, outcome: GitOutcome) -> Result<Seq<char>, ErrorView> {
    match outcome {
        GitOutcome::NotStarted(source) => Err(
            git_error("failed to read recent commits in "@ + repo + ": "@ + source@),
        ),
        GitOutcome::Exited { success, stdout, stderr, .. } => commits_listed(
            repo,
            success,
            decoded(stdout@),
            decoded(stderr@),
        ),
    }
}

/// The newest commits, by the outcome of [`recent_commits_call`].
pub fn recent_commits(repo_path: &str, outcome: &GitOutcome) -> (result: Result<String, Error>)
    ensures
        text_view(result) == commits_read(repo_path@, *outcome),
{
    match outcome {
        GitOutcome::NotStarted(source) => {
            let mut message: String = "failed to read recent commits in ".to_owned();
            message.append(repo_path);
            message.append(": ");
            message.append(source.as_str());
            Err(Error::Git(message))
        },
        GitOutcome::Exited { success, stdout, stderr, .. } => read_commits(
            repo_path,
            *success,
            decode_lossy(stdout.as_slice()).as_str(),
            decode_lossy(stderr.as_slice()).as_str(),
        ),
    }
}

/// The line of the status that tells whether the workspace is in use, by what came of locking it.
pub fn lock_report(lock: &Result<ProcessLock, Error>) -> (report: String)
    ensures
        report@ == (match *lock {
            Ok(lock) => "lock status: unlocked ("@ + lock@ + ")"@,
            Err(_) => "lock status: locked"@,
        }),
{
    match lock {
        Ok(lock) => {
            let mut report: String = labelled("lock status: unlocked (", lock.path());
            report.append(")");
            report
        },
        Err(_) => "lock status: locked".to_owned(),
    }
}

/// A hook command is refused for its event alone: its key and its time are never missing.
pub proof fn law_manual_signal_is_refused_for_its_event_alone(event: Seq<char>, now: SinceEpoch)
    ensures
        checked(manual(event, now)) is Ok <==> allowed_event(event),
{
    let signal = manual(event, now);
    reveal_strlit("manual-");
    assert(signal.dedupe_key[0] == 'm');
    law_trimming_keeps_what_is_no_white_space(signal.dedupe_key, 0);
    law_decimal_tells_numbers_apart(now.seconds as nat, 0);
    law_trimming_keeps_what_is_no_white_space(signal.timestamp, 0);
}

/// Hook commands at different moments have different keys, so that none passes for another.
pub proof fn law_manual_signals_have_keys_of_their_own(
    event: Seq<char>,
    other_event: Seq<char>,
    now: SinceEpoch,
    other: SinceEpoch,
)
    requires
        now.nanoseconds < 1_000_000_000,
        other.nanoseconds < 1_000_000_000,
        manual(event, now).dedupe_key == manual(other_event, other).dedupe_key,
    ensures
        now == other,
{
    let before = "manual-"@;
    let key = manual(event, now).dedupe_key;
    let a = (now.seconds * 1_000_000_000 + now.nanoseconds) as nat;
    let b = (other.seconds * 1_000_000_000 + other.nanoseconds) as nat;
    assert(key.skip(before.len() as int) =~= decimal(a));
    assert(key.skip(before.len() as int) =~= decimal(b));
    law_decimal_tells_numbers_apart(a, b);
}

/// The config file that a command looks for in the current directory is the one that a workspace
/// there was made with.
pub proof fn law_config_file_is_that_of_the_workspace(dir: Seq<char>, source: Seq<char>)
    ensures
        config_file(Ok(dir)) == Ok::<Seq<char>, ErrorView>(item_path(dir, Item::Config)),
        config_file(Ok(dir)) == Ok::<Seq<char>, ErrorView>(
            joined_path(dir, "personaguard.toml"@),
        ),
        config_file(Err(source)) matches Err(error) && error.kind == ErrorKind::Config
            && source.is_suffix_of(error.message),
{
    let text = "failed to resolve current directory: "@ + source;
    assert(text.subrange(text.len() - source.len(), text.len() as int) =~= source);
}

/// An absolute path stands for itself, and needs no current directory; a relative one is taken from
/// the current directory. The path free of links is the one that is used.
pub proof fn law_relative_workspace_is_taken_from_the_current_dir(
    path: Seq<char>,
    dir: Seq<char>,
    current: Result<Seq<char>, Seq<char>>,
    source: Seq<char>,
)
    ensures
        path.len() > 0 && path[0] == '/' ==> candidate(path, current) == Ok::<
            Seq<char>,
            ErrorView,
        >(path),
        path.len() == 0 || path[0] != '/' ==> candidate(path, Ok(dir)) == Ok::<
            Seq<char>,
            ErrorView,
        >(joined_path(dir, path)),
        path.len() == 0 || path[0] != '/' ==> (candidate(path, Err(source)) matches Err(error)
            && error.kind == ErrorKind::Config && source.is_suffix_of(error.message)),
        canonical_workspace(path, Ok(dir)) == Ok::<Seq<char>, ErrorView>(dir),
        canonical_workspace(path, Err(source)) matches Err(error) && error.kind
            == ErrorKind::Config && (path + ": "@ + source).is_suffix_of(error.message),
{
    let text = "failed to resolve current directory: "@ + source;
    assert(text.subrange(text.len() - source.len(), text.len() as int) =~= source);
    let told = "failed to normalize workspace path "@ + path + ": "@ + source;
    let end = path + ": "@ + source;
    assert(told.subrange(told.len() - end.len(), told.len() as int) =~= end);
}

/// A hook command carries its event, its time in seconds, and a key that tells the time in
/// nanoseconds.
pub proof fn law_manual_signal_tells_its_time(event: Seq<char>, now: SinceEpoch)
    ensures
        manual(event, now).event == event,
        number_of(manual(event, now).timestamp) == now.seconds,
        "manual-"@.is_prefix_of(manual(event, now).dedupe_key),
        number_of(manual(event, now).dedupe_key.skip("manual-"@.len() as int)) == now.seconds
            * 1_000_000_000 + now.nanoseconds,
{
    let signal = manual(event, now);
    let n = (now.seconds * 1_000_000_000 + now.nanoseconds) as nat;
    law_decimal_stands_for_the_number(now.seconds as nat);
    law_decimal_stands_for_the_number(n);
    assert(signal.dedupe_key.skip("manual-"@.len() as int) =~= decimal(n));
    assert(signal.dedupe_key.subrange(0, "manual-"@.len() as int) =~= "manual-"@);
}

/// The status shows each setting on a line of its own, behind its name.
pub proof fn law_status_shows_the_settings(config_path: Seq<char>, config: ConfigView)
    ensures
        ({
            let report = config_lines(config_path, config);
            &&& report.len() == 6
            &&& report[0] == "config: "@ + config_path
            &&& report[1] == "workspace: "@ + config.workspace
            &&& "watch count: "@.is_prefix_of(report[2]) && number_of(
                report[2].skip("watch count: "@.len() as int),
            ) == config.watch.len()
            &&& "debounce_ms: "@.is_prefix_of(report[3]) && number_of(
                report[3].skip("debounce_ms: "@.len() as int),
            ) == config.debounce_ms
            &&& "push_interval_sec: "@.is_prefix_of(report[4]) && number_of(
                report[4].skip("push_interval_sec: "@.len() as int),
            ) == config.push_interval_sec
            &&& config.mode == WatchMode::Watcher ==> report[5] == "mode: "@ + "Watcher"@
            &&& config.mode == WatchMode::Hook ==> report[5] == "mode: "@ + "Hook"@
        }),
{
    let report = config_lines(config_path, config);
    law_decimal_stands_for_the_number(config.watch.len());
    law_decimal_stands_for_the_number(config.debounce_ms as nat);
    law_decimal_stands_for_the_number(config.push_interval_sec as nat);
    assert forall|label: Seq<char>, text: Seq<char>|
        label.is_prefix_of(#[trigger] (label + text)) && (label + text).skip(label.len() as int)
            == text by {
        assert((label + text).skip(label.len() as int) =~= text);
        assert((label + text).subrange(0, label.len() as int) =~= label);
    }
    assert(report[2] == "watch count: "@ + decimal(config.watch.len()));
    assert(report[3] == "debounce_ms: "@ + decimal(config.debounce_ms as nat));
    assert(report[4] == "push_interval_sec: "@ + decimal(config.push_interval_sec as nat));
}

/// The newest commits are what git printed, without the white space around it; a failure is an
/// error of git that names the repository and ends with what git complained of, or with the reason
/// why git could not be started.
pub proof fn law_commits_are_what_git_printed(
    repo: Seq<char>,
    code: Option<i32>,
    stdout: Vec<u8>,
    stderr: Vec<u8>,
    head: Seq<char>,
    kept: Seq<char>,
    tail: Seq<char>,
    source: String,
)
    requires
        all_white_space(head),
        all_white_space(tail),
        kept.len() > 0 ==> !is_white_space(kept.first()) && !is_white_space(kept.last()),
    ensures
        decoded(stdout@) == head + kept + tail ==> commits_read(
            repo,
            GitOutcome::Exited { success: true, code, stdout, stderr },
        ) == Ok::<Seq<char>, ErrorView>(kept),
        decoded(stderr@) == head + kept + tail ==> (commits_read(
            repo,
            GitOutcome::Exited { success: false, code, stdout, stderr },
        ) matches Err(error) && error.kind == ErrorKind::Git && (repo + ": "@
            + kept).is_suffix_of(error.message)),
        commits_read(repo, GitOutcome::NotStarted(source)) matches Err(error) && error.kind
            == ErrorKind::Git && (repo + ": "@ + source@).is_suffix_of(error.message),
{
    law_trimming_takes_white_space_around(head, kept, tail);
    if kept.len() == 0 {
        assert(trimmed(head + kept + tail) =~= kept);
    }
    assert forall|start: Seq<char>, why: Seq<char>|
        (repo + ": "@ + why).is_suffix_of(#[trigger] (start + repo + ": "@ + why)) by {
        let all = start + repo + ": "@ + why;
        let end = repo + ": "@ + why;
        assert(all.subrange(all.len() - end.len(), all.len() as int) =~= end);
    }
}

/// The status calls a repository clean exactly where git has nothing to tell, and else shows all
/// that git told.
pub proof fn law_status_is_clean_where_git_tells_nothing(porcelain: Seq<char>)
    ensures
        status_text(Seq::empty()) == "git status: clean"@,
        porcelain.len() > 0 ==> status_text(porcelain) == "git status:\n"@ + porcelain,
        status_text(porcelain) == "git status: clean"@ <==> porcelain.len() == 0,
{
    reveal_strlit("git status: clean");
    reveal_strlit("git status:\n");
    if porcelain.len() > 0 {
        assert(status_text(porcelain)[11] == '\n');
        assert("git status: clean"@[11] == ' ');
    }
}

} // verus!
