//! Backups that a hook asks for: a signal names an event, and every watched file that changed is
//! committed.
//!
//! [`HookHandler::handle_signal_file`] decides what a signal file asks for, and
//! [`HookHandler::process_signal`] begins the work. Each step holds what to do next and takes
//! what came of it.
use vstd::prelude::*;

use crate::config::WorkspaceConfig;
use crate::error::{hook_error, unit_view, Error, ErrorKind, ErrorView};
use crate::executor::{CommandReply, CommandView, GitCommand, ReplyView};
use crate::filter::{allowed, denied, name_of, watched, PathFilter};
use crate::paths::{
    file_name, is_name, is_plain, join_path, joined_path, law_file_in_a_directory_has_its_name,
    law_relative_path_undoes_joining, relative_path, relative_to_workspace,
};
use crate::text::{
    all_white_space, copy_texts, ends_with, is_white_space,
    law_lines_hold_only_what_the_text_holds, law_lines_lie_between_line_feeds,
    law_lines_of_two_texts, law_occurrence_has_something_around_it,
    law_trimming_keeps_what_is_no_white_space, law_trimming_takes_white_space_around, lines,
    occurs_in, same_text, split_lines, trim, trimmed, views,
};
use crate::walk::{DirEntry, FileWalk, WalkStep};

verus! {

/// A signal: what happened, a key that tells signals apart, and when.
#[derive(Debug, PartialEq, Eq)]
pub struct HookSignal {
    pub event: String,
    pub dedupe_key: String,
    pub timestamp: String,
}

/// A signal, as characters.
pub struct SignalView {
    pub event: Seq<char>,
    pub dedupe_key: Seq<char>,
    pub timestamp: Seq<char>,
}

impl View for HookSignal {
    type V = SignalView;

    open spec fn view(&self) -> SignalView {
        SignalView {
            event: self.event@,
            dedupe_key: self.dedupe_key@,
            timestamp: self.timestamp@,
        }
    }
}

impl Clone for HookSignal {
    fn clone(&self) -> (copy: HookSignal)
        ensures
            copy@ == self@,
    {
        HookSignal {
            event: self.event.clone(),
            dedupe_key: self.dedupe_key.clone(),
            timestamp: self.timestamp.clone(),
        }
    }
}

/// An event that may ask for a backup.
pub open spec fn allowed_event(event: Seq<char>) -> bool {
    event == "command:new"@ || event == "command:stop"@ || event == "command:reset"@
}

/// Whether a signal can be worked on.
pub open spec fn checked(signal: SignalView) -> Result<(), ErrorView> {
    if !allowed_event(signal.event) {
        Err(
            hook_error(
                "unsupported hook event "@ + signal.event
                    + ", expected one of [\"command:new\", \"command:stop\", \"command:reset\"]"@,
            ),
        )
    } else if trimmed(signal.dedupe_key).len() == 0 {
        Err(hook_error("missing hook dedupe_key"@))
    } else if trimmed(signal.timestamp).len() == 0 {
        Err(hook_error("missing hook timestamp"@))
    } else {
        Ok(())
    }
}

/// Whether a signal can be worked on.
pub fn validate_signal(signal: &HookSignal) -> (result: Result<(), Error>)
    ensures
        unit_view(result) == checked(signal@),
{
    let event: &str = signal.event.as_str();
    if !(same_text(event, "command:new") || same_text(event, "command:stop") || same_text(
        event,
        "command:reset",
    )) {
        let mut message: String = "unsupported hook event ".to_owned();
        message.append(event);
        message.append(
            ", expected one of [\"command:new\", \"command:stop\", \"command:reset\"]",
        );
        return Err(Error::Hook(message));
    }
    if trim(signal.dedupe_key.as_str()).as_str().is_empty() {
        return Err(Error::Hook("missing hook dedupe_key".to_owned()));
    }
    if trim(signal.timestamp.as_str()).as_str().is_empty() {
        return Err(Error::Hook("missing hook timestamp".to_owned()));
    }
    Ok(())
}

/// What came of reading a signal file: it is no file, it could not be read, it holds no signal,
/// or it holds this one.
#[derive(Debug)]
pub enum SignalFile {
    NotAFile,
    Unreadable(String),
    Malformed(String),
    Parsed(HookSignal),
}

/// Handles the signals of one workspace.
#[derive(Debug)]
pub struct HookHandler {
    workspace: String,
    watch_patterns: Vec<String>,
    signal_dir: String,
    seen_dedupe_keys: Vec<String>,
    poisoned: bool,
}

/// The state of a handler: its settings, the keys of the signals it has taken on, and whether
/// the lock around them was left broken by a holder that panicked.
#[verifier::ext_equal]
pub struct HandlerView {
    pub workspace: Seq<char>,
    pub patterns: Seq<Seq<char>>,
    pub signal_dir: Seq<char>,
    pub seen: Set<Seq<char>>,
    pub poisoned: bool,
}

impl View for HookHandler {
    type V = HandlerView;

    closed spec fn view(&self) -> HandlerView {
        HandlerView {
            workspace: self.workspace@,
            patterns: views(self.watch_patterns@),
            signal_dir: self.signal_dir@,
            seen: views(self.seen_dedupe_keys@).to_set(),
            poisoned: self.poisoned,
        }
    }
}

/// The file is one that is still being written.
pub open spec fn temporary(signal_path: Seq<char>) -> bool {
    ".tmp"@.is_suffix_of(name_of(signal_path))
}

/// The signal that a file asks to be worked on: none where the file is passed over, or where a
/// signal with its key was taken on before.
pub open spec fn asked(
    handler: HandlerView,
    signal_path: Seq<char>,
    file: SignalFile,
) -> Result<Option<SignalView>, ErrorView> {
    if temporary(signal_path) {
        Ok(None)
    } else {
        match file {
            SignalFile::NotAFile => Ok(None),
            SignalFile::Unreadable(source) => Err(
                hook_error("failed to read hook signal "@ + signal_path + ": "@ + source@),
            ),
            SignalFile::Malformed(source) => Err(
                hook_error("invalid hook signal json: "@ + source@),
            ),
            SignalFile::Parsed(signal) => match checked(signal@) {
                Err(error) => Err(error),
                Ok(()) => if handler.poisoned {
                    Err(hook_error("failed to lock hook dedupe key set"@))
                } else if handler.seen.contains(signal.dedupe_key@) {
                    Ok(None)
                } else {
                    Ok(Some(signal@))
                },
            },
        }
    }
}

/// The handler after a signal with this key was taken on.
pub open spec fn remembering(handler: HandlerView, dedupe_key: Seq<char>) -> HandlerView {
    HandlerView { seen: handler.seen.insert(dedupe_key), ..handler }
}

/// The handler after it looked at a signal file.
pub open spec fn after_file(
    handler: HandlerView,
    signal_path: Seq<char>,
    file: SignalFile,
) -> HandlerView {
    match asked(handler, signal_path, file) {
        Ok(Some(signal)) => remembering(handler, signal.dedupe_key),
        _ => handler,
    }
}

/// The relative paths of the files that are watched, in order.
pub open spec fn watched_paths(
    workspace: Seq<char>,
    patterns: Seq<Seq<char>>,
    files: Seq<Seq<char>>,
) -> Seq<Seq<char>> {
    files.map_values(|file: Seq<char>| relative_path(workspace, file)).filter(
        |path: Seq<char>| watched(path, patterns),
    )
}

/// The relative paths of the files that are watched, in order.
pub fn collect_watched_files(workspace: &str, watch_patterns: &[String], files: &[String]) -> (paths:
    Vec<String>)
    ensures
        views(paths@) == watched_paths(workspace@, views(watch_patterns@), views(files@)),
{
    let mut paths: Vec<String> = Vec::new();
    let ghost wanted = |path: Seq<char>| watched(path, views(watch_patterns@));
    let ghost relative = views(files@).map_values(
        |file: Seq<char>| relative_path(workspace@, file),
    );
    for i in 0..files.len()
        invariant
            relative == views(files@).map_values(
                |file: Seq<char>| relative_path(workspace@, file),
            ),
            wanted == (|path: Seq<char>| watched(path, views(watch_patterns@))),
            views(paths@) == relative.take(i as int).filter(wanted),
    {
        let path: String = relative_to_workspace(workspace, files[i].as_str());
        assert(views(files@)[i as int] == files@[i as int]@);
        assert(relative[i as int] == path@);
        assert(relative.take(i + 1).drop_last() =~= relative.take(i as int));
        proof {
            reveal_with_fuel(Seq::filter, 2);
        }
        let ghost before = views(paths@);
        if !PathFilter::matches_denylist(path.as_str()) && PathFilter::matches_allowlist(
            path.as_str(),
            watch_patterns,
        ) {
            paths.push(path);
            assert(views(paths@) =~= before.push(path@));
        }
    }
    assert(relative.take(files@.len() as int) =~= relative);
    paths
}

/// What the work on one path waits for.
#[derive(Debug, Clone, Copy, PartialEq, Eq, Structural)]
pub enum PathPhase {
    Add,
    Status,
    Commit,
}

/// Where the work on one path stands after a reply: it goes on, or it is over.
pub enum PathProgress {
    Next(PathPhase),
    Over(Result<(), ErrorView>),
}

/// Some line of git's status ends with the path.
pub open spec fn path_changed(status: Seq<char>, path: Seq<char>) -> bool {
    exists|i: int| 0 <= i < lines(status).len() && path.is_suffix_of(#[trigger] lines(status)[i])
}

/// What a reply says: the executor's answer, or an error with one of these two texts before the
/// reason why none came.
pub open spec fn answered(reply: ReplyView, not_sent: Seq<char>, no_answer: Seq<char>) -> Result<
    Seq<char>,
    ErrorView,
> {
    match reply {
        ReplyView::NotSent(source) => Err(hook_error(not_sent + source)),
        ReplyView::NoAnswer(source) => Err(hook_error(no_answer + source)),
        ReplyView::Answer(result) => result,
    }
}

/// What the reply to a phase's command says.
pub open spec fn phase_answer(phase: PathPhase, reply: ReplyView) -> Result<Seq<char>, ErrorView> {
    match phase {
        PathPhase::Add => answered(
            reply,
            "failed to enqueue add command: "@,
            "failed to receive add command result: "@,
        ),
        PathPhase::Status => answered(
            reply,
            "failed to enqueue status command: "@,
            "failed to receive status command result: "@,
        ),
        PathPhase::Commit => answered(
            reply,
            "failed to enqueue commit command: "@,
            "failed to receive commit command result: "@,
        ),
    }
}

/// Where the work on one path stands after a reply: the path is staged, and committed if git's
/// status then names it.
pub open spec fn path_progress(phase: PathPhase, path: Seq<char>, reply: ReplyView) -> PathProgress {
    match (phase, phase_answer(phase, reply)) {
        (_, Err(error)) => PathProgress::Over(Err(error)),
        (PathPhase::Add, Ok(_)) => PathProgress::Next(PathPhase::Status),
        (PathPhase::Status, Ok(status)) => if path_changed(status, path) {
            PathProgress::Next(PathPhase::Commit)
        } else {
            PathProgress::Over(Ok(()))
        },
        (PathPhase::Commit, Ok(_)) => PathProgress::Over(Ok(())),
    }
}

/// The command of a phase.
pub open spec fn path_command(phase: PathPhase, path: Seq<char>, event: Seq<char>) -> CommandView {
    match phase {
        PathPhase::Add => CommandView::Add { path },
        PathPhase::Status => CommandView::Status,
        PathPhase::Commit => CommandView::CommitPath {
            path,
            message: "chore: hook "@ + event + " "@ + path,
        },
    }
}

/// Whether some line of git's status ends with the path.
pub fn has_path_change(status: &str, path: &str) -> (found: bool)
    ensures
        found == path_changed(status@, path@),
{
    let found: Vec<String> = split_lines(status);
    for i in 0..found.len()
        invariant
            views(found@) == lines(status@),
            forall|k: int| 0 <= k < i ==> !path@.is_suffix_of(#[trigger] lines(status@)[k]),
    {
        assert(views(found@)[i as int] == found@[i as int]@);
        if ends_with(found[i].as_str(), path) {
            return true;
        }
    }
    false
}

fn read_reply(reply: CommandReply, not_sent: &str, no_answer: &str) -> (result: Result<
    String,
    Error,
>)
    ensures
        crate::error::text_view(result) == answered(reply@, not_sent@, no_answer@),
{
    match reply {
        CommandReply::NotSent(source) => {
            let mut message: String = not_sent.to_owned();
            message.append(source.as_str());
            Err(Error::Hook(message))
        },
        CommandReply::NoAnswer(source) => {
            let mut message: String = no_answer.to_owned();
            message.append(source.as_str());
            Err(Error::Hook(message))
        },
        CommandReply::Answer(result) => result,
    }
}

enum Progress {
    Next(PathPhase),
    Over(Result<(), Error>),
}

spec fn progress_view(progress: Progress) -> PathProgress {
    match progress {
        Progress::Next(phase) => PathProgress::Next(phase),
        Progress::Over(result) => PathProgress::Over(unit_view(result)),
    }
}

fn commit_path_if_changed(phase: PathPhase, path: &str, reply: CommandReply) -> (progress: Progress)
    ensures
        progress_view(progress) == path_progress(phase, path@, reply@),
{
    let answer: Result<String, Error> = match phase {
        PathPhase::Add => read_reply(
            reply,
            "failed to enqueue add command: ",
            "failed to receive add command result: ",
        ),
        PathPhase::Status => read_reply(
            reply,
            "failed to enqueue status command: ",
            "failed to receive status command result: ",
        ),
        PathPhase::Commit => read_reply(
            reply,
            "failed to enqueue commit command: ",
            "failed to receive commit command result: ",
        ),
    };
    match answer {
        Err(error) => Progress::Over(Err(error)),
        Ok(text) => match phase {
            PathPhase::Add => Progress::Next(PathPhase::Status),
            PathPhase::Status => if has_path_change(text.as_str(), path) {
                Progress::Next(PathPhase::Commit)
            } else {
                Progress::Over(Ok(()))
            },
            PathPhase::Commit => Progress::Over(Ok(())),
        },
    }
}

/// The work on a signal while the files of the workspace are collected.
#[derive(Debug)]
pub struct SignalWalk {
    workspace: String,
    watch_patterns: Vec<String>,
    event: String,
    walk: FileWalk,
}

/// The work on a signal while the files of the workspace are collected, as characters.
#[verifier::ext_equal]
pub struct SignalWalkView {
    pub workspace: Seq<char>,
    pub patterns: Seq<Seq<char>>,
    pub event: Seq<char>,
    pub walk: crate::walk::WalkView,
}

impl View for SignalWalk {
    type V = SignalWalkView;

    closed spec fn view(&self) -> SignalWalkView {
        SignalWalkView {
            workspace: self.workspace@,
            patterns: views(self.watch_patterns@),
            event: self.event@,
            walk: self.walk@,
        }
    }
}

/// The work on a signal while the watched files are committed.
#[derive(Debug)]
pub struct SignalCommit {
    event: String,
    paths: Vec<String>,
    next: usize,
    phase: PathPhase,
    committed: usize,
}

/// The work on a signal while the watched files are committed: the paths, the one that is worked
/// on, what its work waits for, and how many were worked on without an error.
#[verifier::ext_equal]
pub struct SignalCommitView {
    pub event: Seq<char>,
    pub paths: Seq<Seq<char>>,
    pub next: int,
    pub phase: PathPhase,
    pub committed: int,
}

impl View for SignalCommit {
    type V = SignalCommitView;

    closed spec fn view(&self) -> SignalCommitView {
        SignalCommitView {
            event: self.event@,
            paths: views(self.paths@),
            next: self.next as int,
            phase: self.phase,
            committed: self.committed as int,
        }
    }
}

impl SignalCommit {
    #[verifier::type_invariant]
    spec fn in_bounds(self) -> bool {
        self.committed <= self.next < self.paths@.len()
    }
}

/// What the work on a signal does next: read a directory, send a command to the executor, or
/// end with the number of paths that were worked on without an error.
#[derive(Debug)]
pub enum HookStep {
    ReadDir(SignalWalk),
    Send(SignalCommit),
    Done(Result<usize, Error>),
}

/// What the work on a signal does next, as characters.
pub enum StepView {
    ReadDir(SignalWalkView),
    Send(SignalCommitView),
    Done(Result<int, ErrorView>),
}

impl View for HookStep {
    type V = StepView;

    open spec fn view(&self) -> StepView {
        match self {
            HookStep::ReadDir(walk) => StepView::ReadDir(walk@),
            HookStep::Send(commit) => StepView::Send(commit@),
            HookStep::Done(Ok(committed)) => StepView::Done(Ok(*committed as int)),
            HookStep::Done(Err(error)) => StepView::Done(Err(error@)),
        }
    }
}

/// What the work on a signal does first.
pub open spec fn begun(handler: HandlerView, signal: SignalView) -> StepView {
    match checked(signal) {
        Err(error) => StepView::Done(Err(error)),
        Ok(()) => StepView::ReadDir(
            SignalWalkView {
                workspace: handler.workspace,
                patterns: handler.patterns,
                event: signal.event,
                walk: crate::walk::WalkView {
                    directory: handler.workspace,
                    pending: Seq::empty(),
                    files: Seq::empty(),
                },
            },
        ),
    }
}

/// Goes on with the path number `next`, or ends.
pub open spec fn go_on(
    event: Seq<char>,
    paths: Seq<Seq<char>>,
    next: int,
    committed: int,
) -> StepView {
    if next < paths.len() {
        StepView::Send(SignalCommitView { event, paths, next, phase: PathPhase::Add, committed })
    } else {
        StepView::Done(Ok(committed))
    }
}

/// What the work on a signal does with the entries of a directory.
pub open spec fn listed(
    walk: SignalWalkView,
    listing: Result<Seq<crate::walk::EntryView>, Seq<char>>,
) -> StepView {
    match crate::walk::resumed(walk.walk, listing) {
        crate::walk::StepView::ReadDir(next) => StepView::ReadDir(
            SignalWalkView { walk: next, ..walk },
        ),
        crate::walk::StepView::Done(Err(error)) => StepView::Done(Err(error)),
        crate::walk::StepView::Done(Ok(files)) => go_on(
            walk.event,
            watched_paths(walk.workspace, walk.patterns, files),
            0,
            0,
        ),
    }
}

/// What the work on a signal does with the reply to its command. A path that fails is left
/// behind.
pub open spec fn replied(commit: SignalCommitView, reply: ReplyView) -> StepView {
    match path_progress(commit.phase, commit.paths[commit.next], reply) {
        PathProgress::Next(phase) => StepView::Send(SignalCommitView { phase, ..commit }),
        PathProgress::Over(Ok(())) => go_on(
            commit.event,
            commit.paths,
            commit.next + 1,
            commit.committed + 1,
        ),
        PathProgress::Over(Err(_)) => go_on(
            commit.event,
            commit.paths,
            commit.next + 1,
            commit.committed,
        ),
    }
}

/// The failure that leaves a path behind.
pub open spec fn left_behind(commit: SignalCommitView, reply: ReplyView) -> Option<ErrorView> {
    match path_progress(commit.phase, commit.paths[commit.next], reply) {
        PathProgress::Over(Err(error)) => Some(error),
        _ => None,
    }
}

fn start_path(event: String, paths: Vec<String>, next: usize, committed: usize) -> (step: HookStep)
    requires
        committed <= next <= paths@.len(),
    ensures
        step@ == go_on(event@, views(paths@), next as int, committed as int),
{
    if next < paths.len() {
        HookStep::Send(SignalCommit { event, paths, next, phase: PathPhase::Add, committed })
    } else {
        HookStep::Done(Ok(committed))
    }
}

impl HookHandler {
    /// A handler with these settings that has seen no signal.
    pub fn new(config: &WorkspaceConfig) -> (handler: Self)
        ensures
            handler@ == (HandlerView {
                workspace: config@.workspace,
                patterns: config@.watch,
                signal_dir: joined_path(config@.workspace, config@.hook_signal_dir),
                seen: Set::empty(),
                poisoned: false,
            }),
    {
        let handler: HookHandler = HookHandler {
            workspace: config.workspace.clone(),
            watch_patterns: copy_texts(config.watch.as_slice()),
            signal_dir: join_path(config.workspace.as_str(), config.hook_signal_dir.as_str()),
            seen_dedupe_keys: Vec::new(),
            poisoned: false,
        };
        assert(handler@.seen =~= Set::empty());
        handler
    }

    /// Where hooks leave their signals.
    pub fn signal_dir(&self) -> (dir: &str)
        ensures
            dir@ == self@.signal_dir,
    {
        self.signal_dir.as_str()
    }

    /// What came of making the directory where hooks leave their signals.
    pub fn ensure_signal_dir(&self, created: Result<(), String>) -> (result: Result<(), Error>)
        ensures
            unit_view(result) == (match created {
                Ok(()) => Ok(()),
                Err(source) => Err(
                    hook_error(
                        "failed to create hook signal directory "@ + self@.signal_dir + ": "@
                            + source@,
                    ),
                ),
            }),
    {
        match created {
            Ok(()) => Ok(()),
            Err(source) => {
                let mut message: String = "failed to create hook signal directory ".to_owned();
                message.append(self.signal_dir.as_str());
                message.append(": ");
                message.append(source.as_str());
                Err(Error::Hook(message))
            },
        }
    }

    /// Records that a holder of the lock around the keys panicked.
    pub fn poison(&mut self)
        ensures
            final(self)@ == (HandlerView { poisoned: true, ..old(self)@ }),
    {
        self.poisoned = true;
    }

    /// The signal that a text holds, by what came of parsing it: one that can be worked on.
    pub fn parse_signal_json(parsed: Result<HookSignal, String>) -> (result: Result<
        HookSignal,
        Error,
    >)
        ensures
            match (parsed, result) {
                (Err(source), Err(error)) => error@ == hook_error(
                    "invalid hook signal json: "@ + source@,
                ),
                (Ok(signal), Err(error)) => checked(signal@) == Err::<(), ErrorView>(error@),
                (Ok(signal), Ok(same)) => checked(signal@) is Ok && same == signal,
                (Err(_), Ok(_)) => false,
            },
    {
        let signal: HookSignal = match parsed {
            Ok(signal) => signal,
            Err(source) => {
                let mut message: String = "invalid hook signal json: ".to_owned();
                message.append(source.as_str());
                return Err(Error::Hook(message));
            },
        };
        match validate_signal(&signal) {
            Ok(()) => Ok(signal),
            Err(error) => Err(error),
        }
    }

    /// Whether a signal with this key was taken on before; if not, it is now.
    pub fn is_duplicate_dedupe_key(&mut self, dedupe_key: &str) -> (result: Result<bool, Error>)
        ensures
            match result {
                Err(error) => old(self)@.poisoned && error@ == hook_error(
                    "failed to lock hook dedupe key set"@,
                ) && final(self)@ == old(self)@,
                Ok(duplicate) => !old(self)@.poisoned && duplicate == old(self)@.seen.contains(
                    dedupe_key@,
                ) && final(self)@ == remembering(old(self)@, dedupe_key@),
            },
    {
        if self.poisoned {
            return Err(Error::Hook("failed to lock hook dedupe key set".to_owned()));
        }
        let ghost keys = views(self.seen_dedupe_keys@);
        for i in 0..self.seen_dedupe_keys.len()
            invariant
                keys == views(self.seen_dedupe_keys@),
                *self == *old(self),
                !self@.poisoned,
                forall|k: int| 0 <= k < i ==> keys[k] != dedupe_key@,
        {
            assert(keys[i as int] == self.seen_dedupe_keys@[i as int]@);
            if same_text(self.seen_dedupe_keys[i].as_str(), dedupe_key) {
                assert(keys.contains(dedupe_key@));
                assert(self@.seen.insert(dedupe_key@) =~= self@.seen);
                return Ok(true);
            }
        }
        self.seen_dedupe_keys.push(dedupe_key.to_owned());
        proof {
            let now = views(self.seen_dedupe_keys@);
            assert(now =~= keys.push(dedupe_key@));
            assert forall|key: Seq<char>| now.contains(key) == (keys.contains(key) || key
                == dedupe_key@) by {
                if keys.contains(key) {
                    let k = choose|k: int| 0 <= k < keys.len() && keys[k] == key;
                    assert(now[k] == key);
                }
                if key == dedupe_key@ {
                    assert(now[keys.len() as int] == key);
                }
            }
            assert(now.to_set() =~= keys.to_set().insert(dedupe_key@));
        }
        Ok(false)
    }

    /// Whether a signal file is looked at: not while it is still being written.
    pub fn considers(signal_path: &str) -> (looks: bool)
        ensures
            looks == !temporary(signal_path@),
    {
        let name: String = match file_name(signal_path) {
            Some(name) => name,
            None => String::new(),
        };
        !ends_with(name.as_str(), ".tmp")
    }

    /// The signal that a file asks to be worked on, which is taken on by this; none where the
    /// file is passed over.
    pub fn handle_signal_file(&mut self, signal_path: &str, file: SignalFile) -> (result: Result<
        Option<HookSignal>,
        Error,
    >)
        ensures
            final(self)@ == after_file(old(self)@, signal_path@, file),
            asked(old(self)@, signal_path@, file) == (match result {
                Ok(Some(signal)) => Ok(Some(signal@)),
                Ok(None) => Ok(None),
                Err(error) => Err(error@),
            }),
    {
        if !HookHandler::considers(signal_path) {
            return Ok(None);
        }
        let parsed: Result<HookSignal, String> = match file {
            SignalFile::NotAFile => return Ok(None),
            SignalFile::Unreadable(source) => {
                let mut message: String = "failed to read hook signal ".to_owned();
                message.append(signal_path);
                message.append(": ");
                message.append(source.as_str());
                return Err(Error::Hook(message));
            },
            SignalFile::Malformed(source) => Err(source),
            SignalFile::Parsed(signal) => Ok(signal),
        };
        let signal: HookSignal = match HookHandler::parse_signal_json(parsed) {
            Ok(signal) => signal,
            Err(error) => return Err(error),
        };
        match self.is_duplicate_dedupe_key(signal.dedupe_key.as_str()) {
            Ok(true) => {
                assert(old(self)@.seen.insert(signal.dedupe_key@) =~= old(self)@.seen);
                Ok(None)
            },
            Ok(false) => Ok(Some(signal)),
            Err(error) => Err(error),
        }
    }

    /// Begins the work on a signal.
    pub fn process_signal(&self, signal: &HookSignal) -> (step: HookStep)
        ensures
            step@ == begun(self@, signal@),
    {
        match validate_signal(signal) {
            Err(error) => HookStep::Done(Err(error)),
            Ok(()) => HookStep::ReadDir(
                SignalWalk {
                    workspace: self.workspace.clone(),
                    watch_patterns: copy_texts(self.watch_patterns.as_slice()),
                    event: signal.event.clone(),
                    walk: FileWalk::start(self.workspace.as_str()),
                },
            ),
        }
    }
}

impl SignalWalk {
    /// The directory to read.
    pub fn directory(&self) -> (directory: &str)
        ensures
            directory@ == self@.walk.directory,
    {
        self.walk.directory()
    }

    /// What the work does with the entries of the directory.
    pub fn resume(self, listing: Result<Vec<DirEntry>, String>) -> (step: HookStep)
        ensures
            step@ == listed(self@, crate::walk::listing_view(listing)),
    {
        match self.walk.resume(listing) {
            WalkStep::ReadDir(walk) => HookStep::ReadDir(
                SignalWalk {
                    workspace: self.workspace,
                    watch_patterns: self.watch_patterns,
                    event: self.event,
                    walk,
                },
            ),
            WalkStep::Done(Err(error)) => HookStep::Done(Err(error)),
            WalkStep::Done(Ok(files)) => {
                let paths: Vec<String> = collect_watched_files(
                    self.workspace.as_str(),
                    self.watch_patterns.as_slice(),
                    files.as_slice(),
                );
                start_path(self.event, paths, 0, 0)
            },
        }
    }
}

impl SignalCommit {
    /// The path that is worked on.
    pub fn path(&self) -> (path: &str)
        ensures
            0 <= self@.next < self@.paths.len(),
            path@ == self@.paths[self@.next],
    {
        proof {
            use_type_invariant(self);
        }
        assert(views(self.paths@)[self.next as int] == self.paths@[self.next as int]@);
        self.paths[self.next].as_str()
    }

    /// The command to send to the executor.
    pub fn command(&self) -> (command: GitCommand)
        ensures
            command@ == path_command(self@.phase, self@.paths[self@.next], self@.event),
    {
        let path: &str = self.path();
        match self.phase {
            PathPhase::Add => GitCommand::Add { path: path.to_owned() },
            PathPhase::Status => GitCommand::Status,
            PathPhase::Commit => {
                let mut message: String = "chore: hook ".to_owned();
                message.append(self.event.as_str());
                message.append(" ");
                message.append(path);
                GitCommand::CommitPath { path: path.to_owned(), message }
            },
        }
    }

    /// What the work does with the reply to its command, and the failure that leaves the path
    /// behind, if there was one.
    pub fn resume(self, reply: CommandReply) -> (outcome: (HookStep, Option<Error>))
        ensures
            outcome.0@ == replied(self@, reply@),
            left_behind(self@, reply@) == (match outcome.1 {
                Some(error) => Some(error@),
                None => None,
            }),
    {
        proof {
            use_type_invariant(&self);
        }
        let total: usize = self.paths.len();
        assert(self.next < total);
        match commit_path_if_changed(self.phase, self.path(), reply) {
            Progress::Next(phase) => (
                HookStep::Send(
                    SignalCommit {
                        event: self.event,
                        paths: self.paths,
                        next: self.next,
                        phase,
                        committed: self.committed,
                    },
                ),
                None,
            ),
            Progress::Over(Ok(())) => (
                start_path(self.event, self.paths, self.next + 1, self.committed + 1),
                None,
            ),
            Progress::Over(Err(error)) => (
                start_path(self.event, self.paths, self.next + 1, self.committed),
                Some(error),
            ),
        }
    }
}

/// A signal whose key was taken on before is passed over, from whatever file it comes.
pub proof fn law_signal_is_worked_on_once(
    handler: HandlerView,
    first_path: Seq<char>,
    first: SignalFile,
    second_path: Seq<char>,
    second: SignalFile,
)
    requires
        asked(handler, first_path, first) matches Ok(Some(taken)) && second is Parsed
            && second->Parsed_0@.dedupe_key == taken.dedupe_key,
    ensures
        !(asked(after_file(handler, first_path, first), second_path, second) matches Ok(Some(_))),
{
}

/// Every path that the work on a signal names is one that is backed up: a pattern asks for it,
/// and it holds no secrets.
pub proof fn law_only_watched_paths_are_named(
    workspace: Seq<char>,
    patterns: Seq<Seq<char>>,
    files: Seq<Seq<char>>,
)
    ensures
        forall|i: int|
            0 <= i < watched_paths(workspace, patterns, files).len() ==> watched(
                #[trigger] watched_paths(workspace, patterns, files)[i],
                patterns,
            ),
{
    let relative = files.map_values(|file: Seq<char>| relative_path(workspace, file));
    relative.lemma_filter_len(|path: Seq<char>| watched(path, patterns));
    let wanted = |path: Seq<char>| watched(path, patterns);
    assert forall|i: int| 0 <= i < relative.filter(wanted).len() implies watched(
        #[trigger] relative.filter(wanted)[i],
        patterns,
    ) by {
        assert(wanted(relative.filter(wanted)[i]));
    }
}

/// What the work does after these replies.
pub open spec fn step_after(step: StepView, replies: Seq<ReplyView>) -> StepView
    decreases replies.len(),
{
    match step {
        StepView::Send(commit) => if replies.len() == 0 {
            step
        } else {
            step_after(replied(commit, replies.first()), replies.drop_first())
        },
        _ => step,
    }
}

/// How many replies a phase needs at most until the work on its path is over.
pub open spec fn phase_rank(phase: PathPhase) -> nat {
    match phase {
        PathPhase::Add => 3,
        PathPhase::Status => 2,
        PathPhase::Commit => 1,
    }
}

/// Three replies for each path are enough for the work to end, whatever they are, and it then
/// tells of no more paths than there were.
pub proof fn law_work_on_signal_ends(commit: SignalCommitView, replies: Seq<ReplyView>)
    requires
        0 <= commit.committed <= commit.next < commit.paths.len(),
        replies.len() >= 3 * (commit.paths.len() - commit.next - 1) + phase_rank(commit.phase),
    ensures
        step_after(StepView::Send(commit), replies) matches StepView::Done(Ok(committed))
            && 0 <= committed <= commit.paths.len(),
    decreases replies.len(),
{
    reveal_with_fuel(step_after, 2);
    match replied(commit, replies.first()) {
        StepView::Send(next) => {
            law_work_on_signal_ends(next, replies.drop_first());
        },
        _ => {},
    }
}

/// The replies let the work on a path go through: it is staged, git's status names it, and it is
/// committed.
pub open spec fn goes_through(
    path: Seq<char>,
    add: ReplyView,
    status: ReplyView,
    commit: ReplyView,
) -> bool {
    &&& phase_answer(PathPhase::Add, add) is Ok
    &&& phase_answer(PathPhase::Status, status) matches Ok(text) && path_changed(text, path)
    &&& phase_answer(PathPhase::Commit, commit) is Ok
}

/// Where every watched path has changed and can be committed, every one of them is.
pub proof fn law_all_changed_paths_are_committed(
    commit: SignalCommitView,
    replies: Seq<ReplyView>,
)
    requires
        0 <= commit.committed,
        0 <= commit.next < commit.paths.len(),
        commit.phase == PathPhase::Add,
        replies.len() == 3 * (commit.paths.len() - commit.next),
        forall|i: int|
            commit.next <= i < commit.paths.len() ==> goes_through(
                #[trigger] commit.paths[i],
                replies[3 * (i - commit.next)],
                replies[3 * (i - commit.next) + 1],
                replies[3 * (i - commit.next) + 2],
            ),
    ensures
        step_after(StepView::Send(commit), replies) == StepView::Done(
            Ok(commit.committed + commit.paths.len() - commit.next),
        ),
    decreases commit.paths.len() - commit.next,
{
    reveal_with_fuel(step_after, 4);
    let path = commit.paths[commit.next];
    assert(goes_through(path, replies[0], replies[1], replies[2]));
    let second = SignalCommitView { phase: PathPhase::Status, ..commit };
    let third = SignalCommitView { phase: PathPhase::Commit, ..commit };
    assert(replied(commit, replies.first()) == StepView::Send(second));
    let behind_add = replies.drop_first();
    assert(replied(second, behind_add.first()) == StepView::Send(third));
    let behind_status = behind_add.drop_first();
    assert(behind_status.first() == replies[2]);
    let rest = behind_status.drop_first();
    let next = go_on(commit.event, commit.paths, commit.next + 1, commit.committed + 1);
    assert(replied(third, behind_status.first()) == next);
    assert(step_after(StepView::Send(commit), replies) == step_after(next, rest));
    if commit.next + 1 < commit.paths.len() {
        let later = next->Send_0;
        assert forall|i: int| later.next <= i < later.paths.len() implies goes_through(
            #[trigger] later.paths[i],
            rest[3 * (i - later.next)],
            rest[3 * (i - later.next) + 1],
            rest[3 * (i - later.next) + 2],
        ) by {
            assert(commit.paths[i] == later.paths[i]);
            assert(rest[3 * (i - later.next)] == replies[3 * (i - commit.next)]);
            assert(rest[3 * (i - later.next) + 1] == replies[3 * (i - commit.next) + 1]);
            assert(rest[3 * (i - later.next) + 2] == replies[3 * (i - commit.next) + 2]);
        }
        law_all_changed_paths_are_committed(later, rest);
    }
}

/// What the work on a path comes to by these replies, from a phase on; none while they are too few.
pub open spec fn path_result(phase: PathPhase, path: Seq<char>, replies: Seq<ReplyView>) -> Option<
    Result<(), ErrorView>,
>
    decreases replies.len(),
{
    if replies.len() == 0 {
        None
    } else {
        match path_progress(phase, path, replies.first()) {
            PathProgress::Next(next) => path_result(next, path, replies.drop_first()),
            PathProgress::Over(result) => Some(result),
        }
    }
}

/// How many of the replies the work on a path takes, from a phase on.
pub open spec fn replies_taken(phase: PathPhase, path: Seq<char>, replies: Seq<ReplyView>) -> nat
    decreases replies.len(),
{
    if replies.len() == 0 {
        0
    } else {
        match path_progress(phase, path, replies.first()) {
            PathProgress::Next(next) => 1 + replies_taken(next, path, replies.drop_first()),
            PathProgress::Over(_) => 1,
        }
    }
}

/// How many of the paths are worked on without an error, where each takes its own replies behind
/// those of the paths before it.
pub open spec fn paths_without_error(paths: Seq<Seq<char>>, replies: Seq<ReplyView>) -> nat
    decreases paths.len(),
{
    if paths.len() == 0 {
        0
    } else {
        let path = paths.first();
        let rest = replies.skip(replies_taken(PathPhase::Add, path, replies) as int);
        let others = paths_without_error(paths.drop_first(), rest);
        if path_result(PathPhase::Add, path, replies) == Some(Ok::<(), ErrorView>(())) {
            others + 1
        } else {
            others
        }
    }
}

/// The work on one path takes its replies and leaves the others to the paths behind it.
proof fn lemma_path_takes_its_replies(commit: SignalCommitView, replies: Seq<ReplyView>)
    requires
        replies.len() >= phase_rank(commit.phase),
    ensures
        ({
            let path = commit.paths[commit.next];
            let taken = replies_taken(commit.phase, path, replies);
            let done = if path_result(commit.phase, path, replies) == Some(Ok::<(), ErrorView>(())) {
                commit.committed + 1
            } else {
                commit.committed
            };
            &&& taken <= phase_rank(commit.phase)
            &&& step_after(StepView::Send(commit), replies) == step_after(
                go_on(commit.event, commit.paths, commit.next + 1, done),
                replies.skip(taken as int),
            )
        }),
    decreases phase_rank(commit.phase),
{
    let path = commit.paths[commit.next];
    let rest = replies.drop_first();
    match path_progress(commit.phase, path, replies.first()) {
        PathProgress::Next(phase) => {
            let next = SignalCommitView { phase, ..commit };
            lemma_path_takes_its_replies(next, rest);
            let taken = replies_taken(phase, path, rest);
            assert(replies.skip(1 + taken as int) =~= rest.skip(taken as int));
        },
        PathProgress::Over(_) => {
            assert(replies.skip(1) =~= rest);
        },
    }
}

proof fn lemma_work_counts(
    event: Seq<char>,
    paths: Seq<Seq<char>>,
    next: int,
    committed: int,
    replies: Seq<ReplyView>,
)
    requires
        0 <= next <= paths.len(),
        replies.len() >= 3 * (paths.len() - next),
    ensures
        step_after(go_on(event, paths, next, committed), replies) == StepView::Done(
            Ok(committed + paths_without_error(paths.skip(next), replies)),
        ),
    decreases paths.len() - next,
{
    let left = paths.skip(next);
    if next < paths.len() {
        let commit = SignalCommitView { event, paths, next, phase: PathPhase::Add, committed };
        assert(left.first() == paths[next]);
        assert(left.drop_first() =~= paths.skip(next + 1));
        lemma_path_takes_its_replies(commit, replies);
        let taken = replies_taken(PathPhase::Add, paths[next], replies);
        let rest = replies.skip(taken as int);
        let done = if path_result(PathPhase::Add, paths[next], replies) == Some(
            Ok::<(), ErrorView>(()),
        ) {
            committed + 1
        } else {
            committed
        };
        lemma_work_counts(event, paths, next + 1, done, rest);
    }
}

/// Whatever the replies are, the work on a signal ends, once they are enough, with the number of
/// watched paths whose own replies let them be worked on without an error.
pub proof fn law_work_counts_the_paths_without_error(
    event: Seq<char>,
    paths: Seq<Seq<char>>,
    replies: Seq<ReplyView>,
)
    requires
        replies.len() >= 3 * paths.len(),
    ensures
        step_after(go_on(event, paths, 0, 0), replies) == StepView::Done(
            Ok(paths_without_error(paths, replies) as int),
        ),
{
    assert(paths.skip(0) =~= paths);
    lemma_work_counts(event, paths, 0, 0, replies);
}

/// Once the last directory was listed, the watched ones among the files that were found are worked
/// on, and the work ends with the number of those that were without an error.
pub proof fn law_signal_is_worked_on_for_all_watched_files(
    walk: SignalWalkView,
    listing: Result<Seq<crate::walk::EntryView>, Seq<char>>,
    files: Seq<Seq<char>>,
    replies: Seq<ReplyView>,
)
    requires
        crate::walk::resumed(walk.walk, listing) == crate::walk::StepView::Done(Ok(files)),
        replies.len() >= 3 * watched_paths(walk.workspace, walk.patterns, files).len(),
    ensures
        step_after(listed(walk, listing), replies) == StepView::Done(
            Ok(
                paths_without_error(
                    watched_paths(walk.workspace, walk.patterns, files),
                    replies,
                ) as int,
            ),
        ),
{
    law_work_counts_the_paths_without_error(
        walk.event,
        watched_paths(walk.workspace, walk.patterns, files),
        replies,
    );
}

/// A change of a path is told by any line of git's status that ends with the path, whatever stands
/// before the path in that line and wherever the line stands.
pub proof fn law_any_line_that_ends_with_the_path_tells_of_it(
    before: Seq<char>,
    mark: Seq<char>,
    path: Seq<char>,
    behind: Seq<char>,
)
    requires
        before.len() == 0 || before.last() == '\n',
        forall|i: int| 0 <= i < mark.len() ==> mark[i] != '\n',
        forall|i: int| 0 <= i < path.len() ==> path[i] != '\n',
        path.len() > 0 && path.last() != '\r',
        behind.len() == 0 || behind.first() == '\n',
    ensures
        path_changed(before + mark + path + behind, path),
{
    let line = mark + path;
    let text = before + mark + path + behind;
    assert(line.last() == path.last());
    assert(text =~= before + (line + behind));
    law_lines_of_two_texts(before, line + behind);
    if behind.len() > 0 {
        let rest = behind.drop_first();
        assert(line + behind =~= line + seq!['\n'] + rest);
        law_lines_lie_between_line_feeds(line, rest);
    } else {
        assert(line + behind =~= line);
        law_lines_lie_between_line_feeds(line, behind);
    }
    assert(lines(line + behind)[0] == line);
    assert(lines(text)[lines(before).len() as int] == line);
    assert(path.is_suffix_of(line)) by {
        assert(line.subrange(mark.len() as int, line.len() as int) =~= path);
    }
}

/// Git's status tells of a path line by line, and of no path that does not stand in it.
pub proof fn law_status_tells_of_a_path_line_by_line(
    line: Seq<char>,
    rest: Seq<char>,
    status: Seq<char>,
    path: Seq<char>,
)
    requires
        forall|i: int| 0 <= i < line.len() ==> line[i] != '\n',
        line.len() > 0 && line.last() != '\r',
    ensures
        path_changed(line + seq!['\n'] + rest, path) == (path.is_suffix_of(line) || path_changed(
            rest,
            path,
        )),
        path_changed(line, path) == path.is_suffix_of(line),
        !path_changed(Seq::empty(), path),
        !occurs_in(path, status) ==> !path_changed(status, path),
{
    law_lines_lie_between_line_feeds(line, rest);
    let all = lines(line + seq!['\n'] + rest);
    assert(all[0] == line);
    assert forall|i: int| 0 <= i < lines(rest).len() implies #[trigger] lines(rest)[i] == all[i
        + 1] by {}
    if path_changed(rest, path) {
        let i = choose|i: int|
            0 <= i < lines(rest).len() && path.is_suffix_of(#[trigger] lines(rest)[i]);
        assert(path.is_suffix_of(all[i + 1]));
    }
    if path_changed(line + seq!['\n'] + rest, path) {
        let i = choose|i: int| 0 <= i < all.len() && path.is_suffix_of(#[trigger] all[i]);
        if i > 0 {
            assert(all[i] == lines(rest)[i - 1]);
        }
    }
    assert(lines(line)[0] == line);
    if path_changed(status, path) {
        let i = choose|i: int|
            0 <= i < lines(status).len() && path.is_suffix_of(#[trigger] lines(status)[i]);
        let told = lines(status)[i];
        let cut = told.len() - path.len();
        assert(told.subrange(cut, cut + path.len()) =~= path);
        law_lines_hold_only_what_the_text_holds(status, path, i);
    }
}

/// Some character of the text is no white space.
pub open spec fn says_something(text: Seq<char>) -> bool {
    exists|i: int| 0 <= i < text.len() && !is_white_space(#[trigger] text[i])
}

proof fn lemma_trimmed_says_something(text: Seq<char>)
    ensures
        says_something(text) == (trimmed(text).len() > 0),
{
    if says_something(text) {
        let i = choose|i: int| 0 <= i < text.len() && !is_white_space(#[trigger] text[i]);
        law_trimming_keeps_what_is_no_white_space(text, i);
    } else {
        let none = Seq::<char>::empty();
        assert(all_white_space(text));
        law_trimming_takes_white_space_around(text, none, none);
        assert(text + none + none =~= text);
    }
}

/// A signal can be worked on exactly where its event is one of the three and its key and its time
/// are not blank. The first of these that fails is reported.
pub proof fn law_signals_are_refused_for_these_reasons_alone(signal: SignalView)
    ensures
        checked(signal) is Ok <==> seq![
            "command:new"@,
            "command:stop"@,
            "command:reset"@,
        ].contains(signal.event) && says_something(signal.dedupe_key) && says_something(
            signal.timestamp,
        ),
        checked(signal) matches Err(error) ==> error.kind == ErrorKind::Hook,
        !seq!["command:new"@, "command:stop"@, "command:reset"@].contains(signal.event) ==> (
        checked(signal) matches Err(error) && occurs_in(signal.event, error.message)
            && "unsupported hook event "@.is_prefix_of(error.message)),
        seq!["command:new"@, "command:stop"@, "command:reset"@].contains(signal.event)
            && !says_something(signal.dedupe_key) ==> (checked(signal) matches Err(error)
            && error.message == "missing hook dedupe_key"@),
        seq!["command:new"@, "command:stop"@, "command:reset"@].contains(signal.event)
            && says_something(signal.dedupe_key) && !says_something(signal.timestamp) ==> (checked(
            signal,
        ) matches Err(error) && error.message == "missing hook timestamp"@),
{
    let events = seq!["command:new"@, "command:stop"@, "command:reset"@];
    assert(events[0] == "command:new"@ && events[1] == "command:stop"@ && events[2]
        == "command:reset"@);
    lemma_trimmed_says_something(signal.dedupe_key);
    lemma_trimmed_says_something(signal.timestamp);
    let tail = ", expected one of [\"command:new\", \"command:stop\", \"command:reset\"]"@;
    let text = "unsupported hook event "@ + signal.event + tail;
    law_occurrence_has_something_around_it(
        "unsupported hook event "@,
        signal.event,
        tail,
        Seq::empty(),
    );
    assert(text.subrange(0, "unsupported hook event "@.len() as int)
        =~= "unsupported hook event "@);
}

/// A signal that can be worked on and whose key is new is taken on, from every file that is not
/// still being written, and it is only its own key that counts as seen from then on.
pub proof fn law_new_signal_is_taken_on(
    handler: HandlerView,
    dir: Seq<char>,
    name: Seq<char>,
    signal: HookSignal,
    key: Seq<char>,
)
    requires
        is_name(name),
        checked(signal@) is Ok,
        !handler.poisoned,
    ensures
        ({
            let path = joined_path(dir, name);
            let file = SignalFile::Parsed(signal);
            let after = after_file(handler, path, file);
            &&& !".tmp"@.is_suffix_of(name) && !handler.seen.contains(signal.dedupe_key@) ==> asked(
                handler,
                path,
                file,
            ) == Ok::<Option<SignalView>, ErrorView>(Some(signal@))
            &&& !".tmp"@.is_suffix_of(name) ==> (after.seen.contains(key) <==> handler.seen.contains(
                key,
            ) || key == signal.dedupe_key@)
            &&& after.workspace == handler.workspace
            &&& after.patterns == handler.patterns
            &&& after.signal_dir == handler.signal_dir
            &&& after.poisoned == handler.poisoned
        }),
{
    law_file_in_a_directory_has_its_name(dir, name);
}

/// A file that asks for nothing, or that holds no signal that can be worked on, changes nothing,
/// and why it is refused is reported; a file that is still being written is not looked at.
pub proof fn law_other_files_change_nothing(
    handler: HandlerView,
    dir: Seq<char>,
    name: Seq<char>,
    file: SignalFile,
)
    requires
        is_name(name),
    ensures
        ({
            let path = joined_path(dir, name);
            &&& ".tmp"@.is_suffix_of(name) || file is NotAFile ==> asked(handler, path, file)
                == Ok::<Option<SignalView>, ErrorView>(None) && after_file(handler, path, file)
                == handler
            &&& !".tmp"@.is_suffix_of(name) ==> match file {
                SignalFile::NotAFile => true,
                SignalFile::Unreadable(source) => (asked(handler, path, file) matches Err(error)
                    && error.kind == ErrorKind::Hook && source@.is_suffix_of(error.message)
                    && occurs_in(path, error.message)) && after_file(handler, path, file)
                    == handler,
                SignalFile::Malformed(source) => (asked(handler, path, file) matches Err(error)
                    && error.kind == ErrorKind::Hook && source@.is_suffix_of(error.message))
                    && after_file(handler, path, file) == handler,
                SignalFile::Parsed(signal) => (checked(signal@) is Err || handler.poisoned
                    ==> asked(handler, path, file) is Err && after_file(handler, path, file)
                    == handler) && (checked(signal@) matches Err(reason) ==> asked(
                    handler,
                    path,
                    file,
                ) == Err::<Option<SignalView>, ErrorView>(reason)),
            }
        }),
{
    let path = joined_path(dir, name);
    law_file_in_a_directory_has_its_name(dir, name);
    if let SignalFile::Unreadable(source) = file {
        let text = "failed to read hook signal "@ + path + ": "@ + source@;
        assert(text.subrange(text.len() - source@.len(), text.len() as int) =~= source@);
        law_occurrence_has_something_around_it(
            "failed to read hook signal "@,
            path,
            ": "@ + source@,
            Seq::empty(),
        );
        assert(text =~= "failed to read hook signal "@ + path + (": "@ + source@));
    }
    if let SignalFile::Malformed(source) = file {
        let text = "invalid hook signal json: "@ + source@;
        assert(text.subrange(text.len() - source@.len(), text.len() as int) =~= source@);
    }
}

/// A file of the workspace is named, by its name inside the workspace and in its place, exactly
/// where a pattern asks for it and it is not denied.
pub proof fn law_each_watched_file_is_named_in_its_place(
    workspace: Seq<char>,
    patterns: Seq<Seq<char>>,
    before: Seq<Seq<char>>,
    name: Seq<char>,
    behind: Seq<Seq<char>>,
)
    requires
        is_plain(name),
    ensures
        allowed(name, patterns) && !denied(name) ==> watched_paths(
            workspace,
            patterns,
            before + seq![joined_path(workspace, name)] + behind,
        ) == watched_paths(workspace, patterns, before) + seq![name] + watched_paths(
            workspace,
            patterns,
            behind,
        ),
        !allowed(name, patterns) || denied(name) ==> watched_paths(
            workspace,
            patterns,
            before + seq![joined_path(workspace, name)] + behind,
        ) == watched_paths(workspace, patterns, before) + watched_paths(
            workspace,
            patterns,
            behind,
        ),
        watched_paths(workspace, patterns, Seq::empty()) == Seq::<Seq<char>>::empty(),
{
    law_relative_path_undoes_joining(workspace, name);
    let called = |file: Seq<char>| relative_path(workspace, file);
    let wanted = |path: Seq<char>| watched(path, patterns);
    let one = seq![joined_path(workspace, name)];
    let all = before + one + behind;
    let head = before.map_values(called);
    let tail = behind.map_values(called);
    assert(one.map_values(called) =~= seq![name]);
    assert(all.map_values(called) =~= head + seq![name] + tail);
    Seq::filter_distributes_over_add(head + seq![name], tail, wanted);
    Seq::filter_distributes_over_add(head, seq![name], wanted);
    reveal_with_fuel(Seq::filter, 2);
    assert(seq![name].drop_last() =~= Seq::empty());
    if watched(name, patterns) {
        assert(seq![name].filter(wanted) =~= seq![name]);
    } else {
        assert(seq![name].filter(wanted) =~= Seq::empty());
        assert(watched_paths(workspace, patterns, all) =~= watched_paths(
            workspace,
            patterns,
            before,
        ) + watched_paths(workspace, patterns, behind));
    }
    assert(watched_paths(workspace, patterns, Seq::empty()) =~= Seq::empty());
}

/// A signal that can be worked on begins with the workspace itself, and nothing has been found
/// then; one that cannot ends at once with the reason.
pub proof fn law_work_begins_at_the_workspace(handler: HandlerView, signal: SignalView)
    ensures
        checked(signal) is Ok ==> (begun(handler, signal) matches StepView::ReadDir(walk)
            && walk.workspace == handler.workspace && walk.patterns == handler.patterns
            && walk.event == signal.event && walk.walk.directory == handler.workspace
            && walk.walk.pending.len() == 0 && walk.walk.files.len() == 0),
        checked(signal) matches Err(error) ==> begun(handler, signal) == StepView::Done(Err(error)),
{
}

/// The work that is left behind a path: the next path is staged, or the work ends.
pub open spec fn behind_path(commit: SignalCommitView, step: StepView, committed: int) -> bool {
    if commit.next + 1 == commit.paths.len() {
        step == StepView::Done(Ok(committed))
    } else {
        step matches StepView::Send(next) && next.paths == commit.paths && next.event
            == commit.event && next.next == commit.next + 1 && next.phase == PathPhase::Add
            && next.committed == committed
    }
}

/// The work on a path stages it, asks for git's status and commits it if some line of the status
/// ends with it, with a message that names the event and the path. Where the three are answered
/// the path counts, and so does one that the status does not name.
pub proof fn law_path_is_staged_and_committed_if_changed(
    commit: SignalCommitView,
    added: Seq<char>,
    status: Seq<char>,
    name: Seq<char>,
)
    requires
        0 <= commit.next < commit.paths.len(),
        commit.phase == PathPhase::Add,
    ensures
        ({
            let path = commit.paths[commit.next];
            let staged = replied(commit, ReplyView::Answer(Ok(added)));
            let looked = replied(staged->Send_0, ReplyView::Answer(Ok(status)));
            let made = replied(looked->Send_0, ReplyView::Answer(Ok(name)));
            &&& path_command(commit.phase, path, commit.event) == (CommandView::Add { path })
            &&& staged is Send && staged->Send_0.paths == commit.paths && staged->Send_0.next
                == commit.next && staged->Send_0.event == commit.event
            &&& path_command(staged->Send_0.phase, path, commit.event) == CommandView::Status
            &&& path_changed(status, path) ==> {
                &&& looked is Send && looked->Send_0.paths == commit.paths && looked->Send_0.next
                    == commit.next && looked->Send_0.event == commit.event
                &&& path_command(looked->Send_0.phase, path, commit.event) == (
                CommandView::CommitPath {
                    path,
                    message: "chore: hook "@ + commit.event + " "@ + path,
                })
                &&& behind_path(commit, made, commit.committed + 1)
            }
            &&& !occurs_in(path, status) ==> behind_path(commit, looked, commit.committed + 1)
            &&& left_behind(commit, ReplyView::Answer(Ok(added))) is None
            &&& left_behind(staged->Send_0, ReplyView::Answer(Ok(status))) is None
            &&& path_changed(status, path) ==> left_behind(
                looked->Send_0,
                ReplyView::Answer(Ok(name)),
            ) is None
        }),
{
    let path = commit.paths[commit.next];
    if !occurs_in(path, status) {
        law_status_tells_of_a_path_line_by_line(seq!['x'], Seq::empty(), status, path);
    }
}

/// A path that fails is left behind with the reason, does not count, and holds up no other path:
/// the work goes on with the next one.
pub proof fn law_failing_path_is_left_behind(
    commit: SignalCommitView,
    error: ErrorView,
    source: Seq<char>,
)
    requires
        0 <= commit.next < commit.paths.len(),
    ensures
        left_behind(commit, ReplyView::Answer(Err(error))) == Some(error),
        behind_path(commit, replied(commit, ReplyView::Answer(Err(error))), commit.committed),
        left_behind(commit, ReplyView::NotSent(source)) matches Some(told) && told.kind
            == ErrorKind::Hook && source.is_suffix_of(told.message),
        behind_path(commit, replied(commit, ReplyView::NotSent(source)), commit.committed),
        left_behind(commit, ReplyView::NoAnswer(source)) matches Some(told) && told.kind
            == ErrorKind::Hook && source.is_suffix_of(told.message),
        behind_path(commit, replied(commit, ReplyView::NoAnswer(source)), commit.committed),
{
    let path = commit.paths[commit.next];
    assert forall|start: Seq<char>| source.is_suffix_of(#[trigger] (start + source)) by {
        let all = start + source;
        assert(all.subrange(all.len() - source.len(), all.len() as int) =~= source);
    }
}

/// While the workspace is read, the work waits for the directories that the walk asks for, and
/// neither the settings nor the event change. A walk that fails ends the work with its error.
pub proof fn law_work_waits_for_the_walk(
    walk: SignalWalkView,
    listing: Result<Seq<crate::walk::EntryView>, Seq<char>>,
)
    ensures
        match crate::walk::resumed(walk.walk, listing) {
            crate::walk::StepView::ReadDir(next) => listed(walk, listing) matches StepView::ReadDir(
                after,
            ) && after.walk == next && after.workspace == walk.workspace && after.patterns
                == walk.patterns && after.event == walk.event,
            crate::walk::StepView::Done(Err(error)) => listed(walk, listing) == StepView::Done(
                Err(error),
            ),
            crate::walk::StepView::Done(Ok(files)) => {
                let paths = watched_paths(walk.workspace, walk.patterns, files);
                if paths.len() == 0 {
                    listed(walk, listing) == StepView::Done(Ok(0))
                } else {
                    listed(walk, listing) matches StepView::Send(commit) && commit.paths == paths
                        && commit.event == walk.event && commit.next == 0 && commit.committed == 0
                        && commit.phase == PathPhase::Add
                }
            },
        },
{
}

/// What is said of a command of a path that could not be sent, and of one that got no answer, names
/// the command.
pub proof fn law_unanswered_commands_are_named(source: Seq<char>, text: Seq<char>, error: ErrorView)
    ensures
        phase_answer(PathPhase::Add, ReplyView::NotSent(source)) == Err::<Seq<char>, ErrorView>(
            hook_error("failed to enqueue add command: "@ + source),
        ),
        phase_answer(PathPhase::Status, ReplyView::NotSent(source)) == Err::<Seq<char>, ErrorView>(
            hook_error("failed to enqueue status command: "@ + source),
        ),
        phase_answer(PathPhase::Commit, ReplyView::NotSent(source)) == Err::<Seq<char>, ErrorView>(
            hook_error("failed to enqueue commit command: "@ + source),
        ),
        phase_answer(PathPhase::Add, ReplyView::NoAnswer(source)) == Err::<Seq<char>, ErrorView>(
            hook_error("failed to receive add command result: "@ + source),
        ),
        phase_answer(PathPhase::Status, ReplyView::NoAnswer(source)) == Err::<Seq<char>, ErrorView>(
            hook_error("failed to receive status command result: "@ + source),
        ),
        phase_answer(PathPhase::Commit, ReplyView::NoAnswer(source)) == Err::<Seq<char>, ErrorView>(
            hook_error("failed to receive commit command result: "@ + source),
        ),
        forall|phase: PathPhase| #[trigger] phase_answer(phase, ReplyView::Answer(Ok(text))) == Ok::<
            Seq<char>,
            ErrorView,
        >(text),
        forall|phase: PathPhase| #[trigger] phase_answer(phase, ReplyView::Answer(Err(error)))
            == Err::<Seq<char>, ErrorView>(error),
{
}

} // verus!
