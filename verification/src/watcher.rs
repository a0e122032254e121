//! The watcher: each change of a watched file that has settled down is committed.
//!
//! [`PersonaWatcher::run`] says which paths a turn of the event loop has to handle, and
//! [`PersonaWatcher::handle_path`] begins the work on one of them. Each step of that work holds
//! what to do next and takes what came of it.
use vstd::prelude::*;

use crate::config::{ConfigView, WorkspaceConfig};
use crate::error::{
    git_error, law_shown_error_ends_with_its_message, shown, text_view, watcher_error, Error,
    ErrorKind, ErrorView,
};
use crate::executor::{CommandReply, CommandView, GitCommand, ReplyView};
use crate::filter::{allowed, denied, watched, PathFilter};
use crate::hook::PathPhase;
use crate::paths::{
    is_plain, join_path, joined_path, law_relative_path_undoes_joining, relative_path,
    relative_to_workspace,
};
use crate::storm::{
    admitted, due, law_commit_holds_back_its_path_for_the_window, law_commit_stays_remembered, law_commits_of_a_path_keep_apart,
    law_due_is_what_is_ripe, law_held_back_change_becomes_due, law_held_back_change_stays,
    nanoseconds, noted, remembers, ripe, storming, ShieldView, StormShield,
};
use crate::text::{contains_text, law_occurrence_has_something_around_it, occurs_in, views};

verus! {

/// Watches one workspace.
#[derive(Debug)]
pub struct PersonaWatcher {
    config: WorkspaceConfig,
    stopped: bool,
    shield: StormShield,
}

/// The state of a watcher.
#[verifier::ext_equal]
pub struct WatcherView {
    pub config: ConfigView,
    pub stopped: bool,
    pub shield: ShieldView,
}

impl View for PersonaWatcher {
    type V = WatcherView;

    closed spec fn view(&self) -> WatcherView {
        WatcherView { config: self.config@, stopped: self.stopped, shield: self.shield@ }
    }
}

/// What one turn of the event loop brought: paths that changed, failures of the event source,
/// nothing in time, or the end of the event source.
#[derive(Debug)]
pub enum WatchEvent {
    Changed(Vec<String>),
    Failed,
    Quiet,
    Disconnected,
}

/// Where paths that are named from the workspace stand.
pub open spec fn in_workspace(workspace: Seq<char>, paths: Seq<Seq<char>>) -> Seq<Seq<char>> {
    paths.map_values(|path: Seq<char>| joined_path(workspace, path))
}

/// The paths that a turn of the event loop has to handle: those that were held back and are due,
/// and those that changed.
pub open spec fn to_handle(
    watcher: WatcherView,
    event: WatchEvent,
    running: bool,
    now: int,
) -> Result<Seq<Seq<char>>, ErrorView> {
    let waiting = if running {
        in_workspace(watcher.config.workspace, due(watcher.shield, now))
    } else {
        Seq::empty()
    };
    match event {
        WatchEvent::Changed(paths) => Ok(waiting + views(paths@)),
        WatchEvent::Failed | WatchEvent::Quiet => Ok(waiting),
        WatchEvent::Disconnected => Err(
            watcher_error("watcher event channel disconnected unexpectedly"@),
        ),
    }
}

/// What stands at a path.
#[derive(Debug, Clone, Copy, PartialEq, Eq, Structural)]
pub enum PathKind {
    File,
    Missing,
    Other,
}

/// A path whose kind has to be found out.
#[derive(Debug)]
pub struct PathProbe {
    absolute: String,
    relative: String,
}

/// A file that has to be checked for being stable.
#[derive(Debug)]
pub struct StableCheck {
    absolute: String,
    relative: String,
}

/// A path, as it was reported and as seen from the workspace.
#[verifier::ext_equal]
pub struct PathView {
    pub absolute: Seq<char>,
    pub relative: Seq<char>,
}

impl View for PathProbe {
    type V = PathView;

    closed spec fn view(&self) -> PathView {
        PathView { absolute: self.absolute@, relative: self.relative@ }
    }
}

impl View for StableCheck {
    type V = PathView;

    closed spec fn view(&self) -> PathView {
        PathView { absolute: self.absolute@, relative: self.relative@ }
    }
}

/// A path on the way to being committed.
#[derive(Debug)]
pub struct PathCommit {
    relative: String,
    missing: bool,
    phase: PathPhase,
}

/// A path on the way to being committed, as characters, and whether nothing stood there.
#[verifier::ext_equal]
pub struct PathCommitView {
    pub relative: Seq<char>,
    pub missing: bool,
    pub phase: PathPhase,
}

impl View for PathCommit {
    type V = PathCommitView;

    closed spec fn view(&self) -> PathCommitView {
        PathCommitView {
            relative: self.relative@,
            missing: self.missing,
            phase: self.phase,
        }
    }
}

/// What the work on a path does next: find out what stands there, check that the file is stable,
/// send a command to the executor, or end, with the commit that was made, if one was.
#[derive(Debug)]
pub enum PathStep {
    Probe(PathProbe),
    CheckStable(StableCheck),
    Send(PathCommit),
    Done(Result<Option<String>, Error>),
}

/// What the work on a path does next, as characters.
pub enum StepView {
    Probe(PathView),
    CheckStable(PathView),
    Send(PathCommitView),
    Done(Result<Option<Seq<char>>, ErrorView>),
}

impl View for PathStep {
    type V = StepView;

    open spec fn view(&self) -> StepView {
        match self {
            PathStep::Probe(path) => StepView::Probe(path@),
            PathStep::CheckStable(path) => StepView::CheckStable(path@),
            PathStep::Send(commit) => StepView::Send(commit@),
            PathStep::Done(Ok(Some(hash))) => StepView::Done(Ok(Some(hash@))),
            PathStep::Done(Ok(None)) => StepView::Done(Ok(None)),
            PathStep::Done(Err(error)) => StepView::Done(Err(error@)),
        }
    }
}

/// The work on a path ends with no commit.
pub open spec fn skipped() -> StepView {
    StepView::Done(Ok(None))
}

/// The work on a path may go as far as the storm shield.
pub open spec fn wanted(watcher: WatcherView, absolute: Seq<char>, running: bool) -> bool {
    running && watched(
        relative_path(watcher.config.workspace, absolute),
        watcher.config.watch,
    )
}

/// What the work on a path does first.
pub open spec fn begun(
    watcher: WatcherView,
    absolute: Seq<char>,
    running: bool,
    now: int,
) -> StepView {
    let relative = relative_path(watcher.config.workspace, absolute);
    if wanted(watcher, absolute, running) && !storming(watcher.shield, relative, now) {
        StepView::Probe(PathView { absolute, relative })
    } else {
        skipped()
    }
}

/// The watcher after the work on a path began.
pub open spec fn after_beginning(
    watcher: WatcherView,
    absolute: Seq<char>,
    running: bool,
    now: int,
) -> WatcherView {
    let relative = relative_path(watcher.config.workspace, absolute);
    if wanted(watcher, absolute, running) {
        WatcherView { shield: admitted(watcher.shield, relative, now), ..watcher }
    } else {
        watcher
    }
}

/// What the work on a path does with what stands there. A path where nothing stands was deleted,
/// and the deletion is committed.
pub open spec fn probed(path: PathView, kind: PathKind) -> StepView {
    match kind {
        PathKind::File => StepView::CheckStable(path),
        PathKind::Missing => StepView::Send(
            PathCommitView { relative: path.relative, missing: true, phase: PathPhase::Add },
        ),
        PathKind::Other => skipped(),
    }
}

/// What the work on a path does with the outcome of the check for being stable.
pub open spec fn settled(path: PathView, stable: Result<bool, ErrorView>) -> StepView {
    match stable {
        Err(error) => StepView::Done(Err(error)),
        Ok(false) => skipped(),
        Ok(true) => StepView::Send(
            PathCommitView { relative: path.relative, missing: false, phase: PathPhase::Add },
        ),
    }
}

/// The outcome of the check for being stable, as characters.
pub open spec fn stable_view(stable: Result<bool, Error>) -> Result<bool, ErrorView> {
    match stable {
        Ok(is_stable) => Ok(is_stable),
        Err(error) => Err(error@),
    }
}

/// The command of a phase.
pub open spec fn command_of(commit: PathCommitView) -> CommandView {
    match commit.phase {
        PathPhase::Add => CommandView::Add { path: commit.relative },
        PathPhase::Status => CommandView::Status,
        PathPhase::Commit => CommandView::CommitPath {
            path: commit.relative,
            message: "chore: auto backup "@ + commit.relative,
        },
    }
}

/// What a reply says: the executor's answer, or an error with one of these two texts before the
/// reason why none came.
pub open spec fn answered(reply: ReplyView, not_sent: Seq<char>, no_answer: Seq<char>) -> Result<
    Seq<char>,
    ErrorView,
> {
    match reply {
        ReplyView::NotSent(source) => Err(watcher_error(not_sent + source)),
        ReplyView::NoAnswer(source) => Err(watcher_error(no_answer + source)),
        ReplyView::Answer(result) => result,
    }
}

/// What the reply to a phase's command says.
pub open spec fn phase_answer(phase: PathPhase, reply: ReplyView) -> Result<Seq<char>, ErrorView> {
    match phase {
        PathPhase::Add => answered(
            reply,
            "failed to enqueue add command: "@,
            "failed to receive add command result: "@,
        ),
        PathPhase::Status => answered(
            reply,
            "failed to enqueue status command: "@,
            "failed to receive status command result: "@,
        ),
        PathPhase::Commit => answered(
            reply,
            "failed to enqueue commit command: "@,
            "failed to receive commit command result: "@,
        ),
    }
}

/// The error says that git knows no file by the path.
pub open spec fn unknown_path(error: ErrorView) -> bool {
    occurs_in("did not match any files"@, shown(error))
}

/// What the work on a path does with the reply to its command: the path is staged, and committed
/// if git's status is not empty then. Where nothing stood at the path and git knows no file by
/// it, there is no deletion to commit.
pub open spec fn replied(commit: PathCommitView, reply: ReplyView) -> StepView {
    match (commit.phase, phase_answer(commit.phase, reply)) {
        (PathPhase::Add, Err(error)) => if commit.missing && unknown_path(error) {
            skipped()
        } else {
            StepView::Done(Err(error))
        },
        (_, Err(error)) => StepView::Done(Err(error)),
        (PathPhase::Add, Ok(_)) => StepView::Send(
            PathCommitView { phase: PathPhase::Status, ..commit },
        ),
        (PathPhase::Status, Ok(status)) => if status.len() == 0 {
            skipped()
        } else {
            StepView::Send(PathCommitView { phase: PathPhase::Commit, ..commit })
        },
        (PathPhase::Commit, Ok(hash)) => StepView::Done(Ok(Some(hash))),
    }
}

/// The watcher after the reply to a command: a commit that was made is remembered.
pub open spec fn after_reply(
    watcher: WatcherView,
    commit: PathCommitView,
    reply: ReplyView,
    now: int,
) -> WatcherView {
    if commit.phase == PathPhase::Commit && phase_answer(commit.phase, reply) is Ok {
        WatcherView { shield: noted(watcher.shield, commit.relative, now), ..watcher }
    } else {
        watcher
    }
}

fn read_reply(reply: CommandReply, not_sent: &str, no_answer: &str) -> (result: Result<
    String,
    Error,
>)
    ensures
        text_view(result) == answered(reply@, not_sent@, no_answer@),
{
    match reply {
        CommandReply::NotSent(source) => {
            let mut message: String = not_sent.to_owned();
            message.append(source.as_str());
            Err(Error::Watcher(message))
        },
        CommandReply::NoAnswer(source) => {
            let mut message: String = no_answer.to_owned();
            message.append(source.as_str());
            Err(Error::Watcher(message))
        },
        CommandReply::Answer(result) => result,
    }
}

fn read_phase(phase: PathPhase, reply: CommandReply) -> (result: Result<String, Error>)
    ensures
        text_view(result) == phase_answer(phase, reply@),
{
    match phase {
        PathPhase::Add => read_reply(
            reply,
            "failed to enqueue add command: ",
            "failed to receive add command result: ",
        ),
        PathPhase::Status => read_reply(
            reply,
            "failed to enqueue status command: ",
            "failed to receive status command result: ",
        ),
        PathPhase::Commit => read_reply(
            reply,
            "failed to enqueue commit command: ",
            "failed to receive commit command result: ",
        ),
    }
}

/// Whether the error says that git knows no file by the path.
pub fn is_unknown_path_error(error: &Error) -> (found: bool)
    ensures
        found == unknown_path(error@),
{
    contains_text(error.to_text().as_str(), "did not match any files")
}

impl PersonaWatcher {
    /// A watcher of the workspace, if that exists.
    pub fn new(config: &WorkspaceConfig, workspace_exists: bool) -> (result: Result<Self, Error>)
        ensures
            match result {
                Ok(watcher) => workspace_exists && watcher@ == (WatcherView {
                    config: config@,
                    stopped: false,
                    shield: ShieldView {
                        window: nanoseconds(config@.storm_window_sec as int),
                        marks: Seq::empty(),
                    },
                }),
                Err(error) => !workspace_exists && error@ == watcher_error(
                    "workspace path does not exist: "@ + config@.workspace,
                ),
            },
    {
        if !workspace_exists {
            let mut message: String = "workspace path does not exist: ".to_owned();
            message.append(config.workspace.as_str());
            return Err(Error::Watcher(message));
        }
        Ok(
            PersonaWatcher {
                config: config.clone(),
                stopped: false,
                shield: StormShield::new(config.storm_window_sec),
            },
        )
    }

    /// Asks the event loop to end.
    pub fn stop(&mut self)
        ensures
            final(self)@ == (WatcherView { stopped: true, ..old(self)@ }),
    {
        self.stopped = true;
    }

    /// Whether the event loop takes another turn.
    pub fn keeps_running(&self) -> (runs: bool)
        ensures
            runs == !self@.stopped,
    {
        !self.stopped
    }

    /// How long a file has to stay the same, in milliseconds.
    pub fn debounce_ms(&self) -> (ms: u64)
        ensures
            ms == self@.config.debounce_ms,
    {
        self.config.debounce_ms
    }

    fn waiting_paths(&self, now: u64) -> (paths: Vec<String>)
        ensures
            views(paths@) == in_workspace(
                self@.config.workspace,
                due(self@.shield, now as int),
            ),
    {
        let held: Vec<String> = self.shield.due_paths(now);
        let ghost all = in_workspace(self@.config.workspace, views(held@));
        let mut paths: Vec<String> = Vec::new();
        for i in 0..held.len()
            invariant
                all == in_workspace(self@.config.workspace, views(held@)),
                views(paths@) == all.take(i as int),
        {
            let ghost before = views(paths@);
            let path: String = join_path(self.config.workspace.as_str(), held[i].as_str());
            paths.push(path);
            assert(path@ == all[i as int]);
            assert(views(paths@) =~= before.push(path@));
        }
        assert(all.take(held@.len() as int) =~= all);
        paths
    }

    /// The paths that a turn of the event loop has to handle.
    pub fn run(&self, event: WatchEvent, running: bool, now: u64) -> (result: Result<
        Vec<String>,
        Error,
    >)
        ensures
            to_handle(self@, event, running, now as int) == (match result {
                Ok(paths) => Ok(views(paths@)),
                Err(error) => Err(error@),
            }),
    {
        let mut waiting: Vec<String> = if running {
            self.waiting_paths(now)
        } else {
            Vec::new()
        };
        let ghost held = views(waiting@);
        assert(!running ==> held =~= Seq::empty());
        match event {
            WatchEvent::Changed(paths) => {
                let mut paths: Vec<String> = paths;
                let ghost changed = views(paths@);
                waiting.append(&mut paths);
                assert(views(waiting@) =~= held + changed);
                Ok(waiting)
            },
            WatchEvent::Failed => Ok(waiting),
            WatchEvent::Quiet => Ok(waiting),
            WatchEvent::Disconnected => Err(
                Error::Watcher("watcher event channel disconnected unexpectedly".to_owned()),
            ),
        }
    }

    /// Begins the work on a path. One that the shield holds back becomes due later.
    pub fn handle_path(&mut self, absolute_path: &str, running: bool, now: u64) -> (step: PathStep)
        ensures
            step@ == begun(old(self)@, absolute_path@, running, now as int),
            final(self)@ == after_beginning(old(self)@, absolute_path@, running, now as int),
    {
        let relative: String = relative_to_workspace(
            self.config.workspace.as_str(),
            absolute_path,
        );
        if !running || PathFilter::matches_denylist(relative.as_str())
            || !PathFilter::matches_allowlist(relative.as_str(), self.config.watch.as_slice()) {
            return PathStep::Done(Ok(None));
        }
        if self.shield.let_through(relative.as_str(), now) {
            PathStep::Probe(PathProbe { absolute: absolute_path.to_owned(), relative })
        } else {
            PathStep::Done(Ok(None))
        }
    }
}

impl PathProbe {
    /// The path to look at.
    pub fn path(&self) -> (path: &str)
        ensures
            path@ == self@.absolute,
    {
        self.absolute.as_str()
    }

    /// What the work does with what stands at the path.
    pub fn resume(self, kind: PathKind) -> (step: PathStep)
        ensures
            step@ == probed(self@, kind),
    {
        match kind {
            PathKind::File => PathStep::CheckStable(
                StableCheck { absolute: self.absolute, relative: self.relative },
            ),
            PathKind::Missing => PathStep::Send(
                PathCommit { relative: self.relative, missing: true, phase: PathPhase::Add },
            ),
            PathKind::Other => PathStep::Done(Ok(None)),
        }
    }
}

impl StableCheck {
    /// The file to check.
    pub fn path(&self) -> (path: &str)
        ensures
            path@ == self@.absolute,
    {
        self.absolute.as_str()
    }

    /// What the work does with the outcome of the check.
    pub fn resume(self, stable: Result<bool, Error>) -> (step: PathStep)
        ensures
            step@ == settled(self@, stable_view(stable)),
    {
        match stable {
            Err(error) => PathStep::Done(Err(error)),
            Ok(false) => PathStep::Done(Ok(None)),
            Ok(true) => PathStep::Send(
                PathCommit { relative: self.relative, missing: false, phase: PathPhase::Add },
            ),
        }
    }
}

impl PathCommit {
    /// The command to send to the executor.
    pub fn command(&self) -> (command: GitCommand)
        ensures
            command@ == command_of(self@),
    {
        match self.phase {
            PathPhase::Add => GitCommand::Add { path: self.relative.clone() },
            PathPhase::Status => GitCommand::Status,
            PathPhase::Commit => {
                let mut message: String = "chore: auto backup ".to_owned();
                message.append(self.relative.as_str());
                GitCommand::CommitPath { path: self.relative.clone(), message }
            },
        }
    }

    /// What the work does with the reply to its command. A commit that was made is remembered.
    pub fn resume(self, watcher: &mut PersonaWatcher, reply: CommandReply, now: u64) -> (step:
        PathStep)
        ensures
            step@ == replied(self@, reply@),
            final(watcher)@ == after_reply(old(watcher)@, self@, reply@, now as int),
    {
        match read_phase(self.phase, reply) {
            Err(error) => match self.phase {
                PathPhase::Add => if self.missing && is_unknown_path_error(&error) {
                    PathStep::Done(Ok(None))
                } else {
                    PathStep::Done(Err(error))
                },
                _ => PathStep::Done(Err(error)),
            },
            Ok(text) => match self.phase {
                PathPhase::Add => PathStep::Send(
                    PathCommit {
                        relative: self.relative,
                        missing: self.missing,
                        phase: PathPhase::Status,
                    },
                ),
                PathPhase::Status => if text.as_str().is_empty() {
                    PathStep::Done(Ok(None))
                } else {
                    PathStep::Send(
                        PathCommit {
                            relative: self.relative,
                            missing: self.missing,
                            phase: PathPhase::Commit,
                        },
                    )
                },
                PathPhase::Commit => {
                    watcher.shield.note_commit(self.relative.as_str(), now);
                    PathStep::Done(Ok(Some(text)))
                },
            },
        }
    }
}

/// While the system is not running, no path is worked on and nothing is forgotten.
pub proof fn law_paused_watcher_does_nothing(watcher: WatcherView, absolute: Seq<char>, now: int)
    ensures
        begun(watcher, absolute, false, now) == skipped(),
        after_beginning(watcher, absolute, false, now) == watcher,
{
}

/// Only a path that is backed up is ever worked on: a pattern asks for it, and it holds no
/// secrets.
pub proof fn law_only_watched_paths_are_worked_on(
    watcher: WatcherView,
    absolute: Seq<char>,
    running: bool,
    now: int,
)
    requires
        begun(watcher, absolute, running, now) is Probe,
    ensures
        watched(relative_path(watcher.config.workspace, absolute), watcher.config.watch),
{
}

/// A path that was just committed is not worked on again until the window is over.
pub proof fn law_committed_path_rests(
    watcher: WatcherView,
    commit: PathCommitView,
    reply: ReplyView,
    at: int,
    absolute: Seq<char>,
    running: bool,
    now: int,
)
    requires
        commit.phase == PathPhase::Commit,
        phase_answer(commit.phase, reply) is Ok,
        relative_path(watcher.config.workspace, absolute) == commit.relative,
        at <= now < at + watcher.shield.window,
    ensures
        begun(after_reply(watcher, commit, reply, at), absolute, running, now) == skipped(),
{
    let after = after_reply(watcher, commit, reply, at);
    law_commit_stays_remembered(
        watcher.shield,
        commit.relative,
        at,
        commit.relative,
        at,
    );
    law_commits_of_a_path_keep_apart(after.shield, commit.relative, at, now);
}

/// A change that was held back is handled in the end: once the window is over, a turn of the
/// event loop has to handle the path, and knows it by the same name. (No commit lies in the
/// future, and the name is a plain one.)
pub proof fn law_held_back_path_is_handled_later(
    watcher: WatcherView,
    absolute: Seq<char>,
    now: int,
    event: WatchEvent,
    later: int,
)
    requires
        wanted(watcher, absolute, true),
        is_plain(relative_path(watcher.config.workspace, absolute)),
        begun(watcher, absolute, true, now) == skipped(),
        forall|i: int|
            0 <= i < watcher.shield.marks.len() ==> (
            #[trigger] watcher.shield.marks[i]).committed <= now,
        later - now >= watcher.shield.window,
        !(event is Disconnected),
    ensures
        ({
            let after = after_beginning(watcher, absolute, true, now);
            let relative = relative_path(watcher.config.workspace, absolute);
            let path = joined_path(watcher.config.workspace, relative);
            &&& to_handle(after, event, true, later) matches Ok(paths) && paths.contains(path)
            &&& relative_path(watcher.config.workspace, path) == relative
        }),
{
    let relative = relative_path(watcher.config.workspace, absolute);
    let after = after_beginning(watcher, absolute, true, now);
    law_relative_path_undoes_joining(watcher.config.workspace, relative);
    law_held_back_change_becomes_due(watcher.shield, relative, now, later);
    let held = due(after.shield, later);
    let waiting = in_workspace(watcher.config.workspace, held);
    let k = choose|k: int| 0 <= k < held.len() && held[k] == relative;
    assert(waiting[k] == joined_path(watcher.config.workspace, relative));
    match event {
        WatchEvent::Changed(paths) => {
            assert((waiting + views(paths@))[k] == waiting[k]);
        },
        _ => {},
    }
}

/// What the work on a path comes to, when the executor gives these answers to adding the path,
/// to the status and to the commit.
pub open spec fn finished(
    relative: Seq<char>,
    missing: bool,
    add: ReplyView,
    status: ReplyView,
    commit: ReplyView,
) -> StepView {
    match replied(PathCommitView { relative, missing, phase: PathPhase::Add }, add) {
        StepView::Send(second) => match replied(second, status) {
            StepView::Send(third) => replied(third, commit),
            done => done,
        },
        done => done,
    }
}

/// The work on a path always ends, and it ends with a commit exactly where the path was staged,
/// git's status was not empty, and the commit was made.
pub proof fn law_work_on_path_ends(
    relative: Seq<char>,
    missing: bool,
    add: ReplyView,
    status: ReplyView,
    commit: ReplyView,
)
    ensures
        finished(relative, missing, add, status, commit) is Done,
        forall|hash: Seq<char>|
            finished(relative, missing, add, status, commit) == StepView::Done(Ok(Some(hash))) <==> {
                &&& phase_answer(PathPhase::Add, add) is Ok
                &&& phase_answer(PathPhase::Status, status) matches Ok(text) && text.len() > 0
                &&& phase_answer(PathPhase::Commit, commit) == Ok::<Seq<char>, ErrorView>(hash)
            },
{
}

/// A path at which nothing stands and that git does not know, such as that of a file whose
/// deletion was committed before, is skipped without an error.
pub proof fn law_unknown_missing_path_is_skipped(
    path: PathView,
    add: ReplyView,
    status: ReplyView,
    commit: ReplyView,
)
    requires
        phase_answer(PathPhase::Add, add) matches Err(error) && unknown_path(error),
    ensures
        probed(path, PathKind::Missing) == StepView::Send(
            PathCommitView { relative: path.relative, missing: true, phase: PathPhase::Add },
        ),
        finished(path.relative, true, add, status, commit) == skipped(),
{
}

/// The whole work on one path: when it begins and what it meets. What stands at the path, whether
/// the file is stable, the replies to staging, to the status and to the commit, and when the last
/// of these comes.
pub struct PathEvent {
    pub absolute: Seq<char>,
    pub running: bool,
    pub begin: int,
    pub kind: PathKind,
    pub stable: Result<bool, ErrorView>,
    pub add: ReplyView,
    pub status: ReplyView,
    pub commit: ReplyView,
    pub end: int,
}

/// The path of an event, as seen from the workspace.
pub open spec fn path_of(watcher: WatcherView, event: PathEvent) -> Seq<char> {
    relative_path(watcher.config.workspace, event.absolute)
}

/// Work on the path begins, and is not held back or skipped at once.
pub open spec fn begins(watcher: WatcherView, event: PathEvent) -> bool {
    begun(watcher, event.absolute, event.running, event.begin) is Probe
}

/// The first command of the work, if it gets so far.
pub open spec fn first_command(watcher: WatcherView, event: PathEvent) -> Option<PathCommitView> {
    match begun(watcher, event.absolute, event.running, event.begin) {
        StepView::Probe(path) => match probed(path, event.kind) {
            StepView::CheckStable(file) => match settled(file, event.stable) {
                StepView::Send(commit) => Some(commit),
                _ => None,
            },
            StepView::Send(commit) => Some(commit),
            _ => None,
        },
        _ => None,
    }
}

/// The command of the work that commits, if it gets so far.
pub open spec fn last_command(watcher: WatcherView, event: PathEvent) -> Option<PathCommitView> {
    match first_command(watcher, event) {
        Some(first) => match replied(first, event.add) {
            StepView::Send(second) => match replied(second, event.status) {
                StepView::Send(third) => Some(third),
                _ => None,
            },
            _ => None,
        },
        None => None,
    }
}

/// The work ends with a commit.
pub open spec fn commits(watcher: WatcherView, event: PathEvent) -> bool {
    last_command(watcher, event) matches Some(last) && replied(last, event.commit) matches
        StepView::Done(Ok(Some(_)))
}

/// The watcher after the work on a path.
pub open spec fn after_work(watcher: WatcherView, event: PathEvent) -> WatcherView {
    let begun = after_beginning(watcher, event.absolute, event.running, event.begin);
    match last_command(watcher, event) {
        Some(last) => after_reply(begun, last, event.commit, event.end),
        None => begun,
    }
}

/// The watcher after it worked on one path after the other.
pub open spec fn watcher_after(start: WatcherView, events: Seq<PathEvent>) -> WatcherView
    decreases events.len(),
{
    if events.len() == 0 {
        start
    } else {
        after_work(watcher_after(start, events.drop_last()), events.last())
    }
}

/// When commits of the path were made, in their order.
pub open spec fn commit_times(start: WatcherView, events: Seq<PathEvent>, path: Seq<char>) -> Seq<
    int,
>
    decreases events.len(),
{
    if events.len() == 0 {
        Seq::empty()
    } else {
        let before = watcher_after(start, events.drop_last());
        let times = commit_times(start, events.drop_last(), path);
        if path_of(before, events.last()) == path && commits(before, events.last()) {
            times.push(events.last().end)
        } else {
            times
        }
    }
}

/// In the whole run, no work on the path begins.
pub open spec fn never_begins(
    start: WatcherView,
    events: Seq<PathEvent>,
    path: Seq<char>,
) -> bool
    decreases events.len(),
{
    events.len() > 0 ==> {
        let before = watcher_after(start, events.drop_last());
        &&& never_begins(start, events.drop_last(), path)
        &&& !(path_of(before, events.last()) == path && begins(before, events.last()))
    }
}

/// What the work on a path does to the shield: it is asked, and a commit is noted.
proof fn lemma_shield_after_work(watcher: WatcherView, event: PathEvent)
    ensures
        ({
            let path = path_of(watcher, event);
            let after = after_work(watcher, event);
            let asked = if wanted(watcher, event.absolute, event.running) {
                admitted(watcher.shield, path, event.begin)
            } else {
                watcher.shield
            };
            &&& after.config == watcher.config
            &&& after.shield.window == watcher.shield.window
            &&& after.shield == (if commits(watcher, event) {
                noted(asked, path, event.end)
            } else {
                asked
            })
            &&& commits(watcher, event) ==> begins(watcher, event)
            &&& begins(watcher, event) == (wanted(watcher, event.absolute, event.running)
                && !storming(watcher.shield, path, event.begin))
        }),
{
}

proof fn lemma_settings_stay(start: WatcherView, events: Seq<PathEvent>)
    ensures
        watcher_after(start, events).config == start.config,
        watcher_after(start, events).shield.window == start.shield.window,
    decreases events.len(),
{
    if events.len() > 0 {
        lemma_settings_stay(start, events.drop_last());
        lemma_shield_after_work(watcher_after(start, events.drop_last()), events.last());
    }
}

proof fn lemma_last_commit_is_remembered(
    start: WatcherView,
    events: Seq<PathEvent>,
    path: Seq<char>,
)
    requires
        commit_times(start, events, path).len() > 0,
    ensures
        remembers(
            watcher_after(start, events).shield,
            path,
            commit_times(start, events, path).last(),
        ),
    decreases events.len(),
{
    let rest = events.drop_last();
    let event = events.last();
    let before = watcher_after(start, rest);
    let other = path_of(before, event);
    let since = commit_times(start, events, path).last();
    lemma_shield_after_work(before, event);
    let asked = if wanted(before, event.absolute, event.running) {
        admitted(before.shield, other, event.begin)
    } else {
        before.shield
    };
    if other == path && commits(before, event) {
        law_commit_stays_remembered(asked, path, since, path, since);
    } else {
        lemma_last_commit_is_remembered(start, rest, path);
        law_commit_stays_remembered(before.shield, path, since, other, event.begin);
        law_commit_stays_remembered(asked, path, since, other, event.end);
    }
}

/// In every run, work on a path begins no earlier than one window after that path's last commit,
/// whatever else the watcher has worked on in between. (Without a window, it may begin at all
/// times.)
pub proof fn law_work_begins_a_window_after_the_last_commit(
    start: WatcherView,
    events: Seq<PathEvent>,
    next: PathEvent,
)
    requires
        0 < start.shield.window,
        begins(watcher_after(start, events), next),
        commit_times(
            start,
            events,
            path_of(watcher_after(start, events), next),
        ).len() > 0,
    ensures
        next.begin >= commit_times(
            start,
            events,
            path_of(watcher_after(start, events), next),
        ).last() + start.shield.window,
{
    let watcher = watcher_after(start, events);
    let path = path_of(watcher, next);
    let since = commit_times(start, events, path).last();
    lemma_settings_stay(start, events);
    lemma_shield_after_work(watcher, next);
    lemma_last_commit_is_remembered(start, events, path);
    if next.begin - since < watcher.shield.window {
        law_commits_of_a_path_keep_apart(watcher.shield, path, since, next.begin);
    }
}

/// In every run, two commits of one path are at least one window apart. (The work on a path does
/// not end before it begins.)
pub proof fn law_commits_of_one_path_are_a_window_apart(
    start: WatcherView,
    events: Seq<PathEvent>,
    path: Seq<char>,
)
    requires
        0 < start.shield.window,
        forall|i: int| 0 <= i < events.len() ==> (#[trigger] events[i]).begin <= events[i].end,
    ensures
        forall|i: int, j: int|
            #![trigger commit_times(start, events, path)[i], commit_times(start, events, path)[j]]
            0 <= i < j < commit_times(start, events, path).len() ==> commit_times(
                start,
                events,
                path,
            )[j] - commit_times(start, events, path)[i] >= start.shield.window,
    decreases events.len(),
{
    if events.len() > 0 {
        let rest = events.drop_last();
        let event = events.last();
        let before = watcher_after(start, rest);
        let times = commit_times(start, rest, path);
        assert forall|i: int| 0 <= i < rest.len() implies (#[trigger] rest[i]).begin
            <= rest[i].end by {
            assert(rest[i] == events[i]);
        }
        law_commits_of_one_path_are_a_window_apart(start, rest, path);
        assert(events[events.len() - 1].begin <= event.end);
        if path_of(before, event) == path && commits(before, event) {
            let all = commit_times(start, events, path);
            lemma_shield_after_work(before, event);
            if times.len() > 0 {
                law_work_begins_a_window_after_the_last_commit(start, rest, event);
                let last = times.len() - 1;
                assert forall|i: int, j: int|
                    #![trigger all[i], all[j]]
                    0 <= i < j < all.len() implies all[j] - all[i] >= start.shield.window by {
                    assert(all[i] == times[i]);
                    if j < times.len() {
                        assert(all[j] == times[j]);
                    } else if i < last {
                        assert(times[last] - times[i] >= start.shield.window);
                    }
                }
            }
        }
    }
}

proof fn lemma_stays_ripe(
    start: WatcherView,
    events: Seq<PathEvent>,
    path: Seq<char>,
    later: int,
)
    requires
        ripe(start.shield, path, later),
        never_begins(start, events, path),
    ensures
        ripe(watcher_after(start, events).shield, path, later),
    decreases events.len(),
{
    if events.len() > 0 {
        let rest = events.drop_last();
        let event = events.last();
        let before = watcher_after(start, rest);
        let other = path_of(before, event);
        lemma_stays_ripe(start, rest, path, later);
        lemma_shield_after_work(before, event);
        let asked = if wanted(before, event.absolute, event.running) {
            admitted(before.shield, other, event.begin)
        } else {
            before.shield
        };
        law_held_back_change_stays(before.shield, path, later, other, event.begin);
        assert(ripe(asked, path, later));
        law_held_back_change_stays(asked, path, later, other, event.end);
    }
}

/// In every run, a change that is held back stays held back until work on its path begins: as long
/// as none does, each turn of the event loop from one window later on has to handle the path,
/// whatever else the watcher has worked on. (No commit lies in the future when the change is held
/// back.)
pub proof fn law_held_back_change_waits_to_be_handed_out(
    start: WatcherView,
    change: PathEvent,
    events: Seq<PathEvent>,
    turn: WatchEvent,
    later: int,
)
    requires
        wanted(start, change.absolute, change.running),
        !begins(start, change),
        forall|i: int|
            0 <= i < start.shield.marks.len() ==> (#[trigger] start.shield.marks[i]).committed
                <= change.begin,
        never_begins(after_work(start, change), events, path_of(start, change)),
        later - change.begin >= start.shield.window,
        !(turn is Disconnected),
    ensures
        ({
            let after = watcher_after(after_work(start, change), events);
            let path = path_of(start, change);
            &&& ripe(after.shield, path, later)
            &&& to_handle(after, turn, true, later) matches Ok(paths) && paths.contains(
                joined_path(start.config.workspace, path),
            )
        }),
{
    let held = after_work(start, change);
    let after = watcher_after(held, events);
    let path = path_of(start, change);
    lemma_shield_after_work(start, change);
    law_held_back_change_becomes_due(start.shield, path, change.begin, later);
    law_due_is_what_is_ripe(held.shield, path, later);
    lemma_stays_ripe(held, events, path, later);
    lemma_settings_stay(held, events);
    law_due_is_what_is_ripe(after.shield, path, later);
    let names = due(after.shield, later);
    let waiting = in_workspace(start.config.workspace, names);
    let k = choose|k: int| 0 <= k < names.len() && names[k] == path;
    assert(waiting[k] == joined_path(start.config.workspace, path));
    match turn {
        WatchEvent::Changed(paths) => {
            assert((waiting + views(paths@))[k] == waiting[k]);
        },
        _ => {},
    }
}

/// Every path of a turn that brought changes is handled, in the order in which they came and
/// behind what was held back.
pub proof fn law_every_changed_path_is_handled(
    watcher: WatcherView,
    paths: Vec<String>,
    running: bool,
    now: int,
    i: int,
)
    requires
        0 <= i < paths@.len(),
    ensures
        to_handle(watcher, WatchEvent::Changed(paths), running, now) matches Ok(handled)
            && handled.contains(paths@[i]@) && handled.len() >= paths@.len() && handled[handled.len()
            - paths@.len() + i] == paths@[i]@,
{
    let handled = to_handle(watcher, WatchEvent::Changed(paths), running, now)->Ok_0;
    let k = handled.len() - paths@.len() + i;
    assert(views(paths@)[i] == paths@[i]@);
    assert(handled[k] == paths@[i]@);
}

/// Every path whose held back change is due is handled while the system runs, whatever the turn
/// brought, and only the end of the event source ends the loop.
pub proof fn law_every_due_path_is_handled(
    watcher: WatcherView,
    event: WatchEvent,
    running: bool,
    now: int,
    relative: Seq<char>,
)
    ensures
        to_handle(watcher, event, running, now) is Err <==> event is Disconnected,
        running && !(event is Disconnected) && due(watcher.shield, now).contains(relative) ==> (
        to_handle(watcher, event, running, now) matches Ok(handled) && handled.contains(
            joined_path(watcher.config.workspace, relative),
        )),
{
    if running && !(event is Disconnected) && due(watcher.shield, now).contains(relative) {
        let held = due(watcher.shield, now);
        let handled = to_handle(watcher, event, running, now)->Ok_0;
        let k = choose|k: int| 0 <= k < held.len() && held[k] == relative;
        assert(in_workspace(watcher.config.workspace, held)[k] == joined_path(
            watcher.config.workspace,
            relative,
        ));
        assert(handled[k] == joined_path(watcher.config.workspace, relative));
    }
}

/// Nothing is handled but what changed and, while the system runs, what is due.
pub proof fn law_only_changed_and_due_paths_are_handled(
    watcher: WatcherView,
    event: WatchEvent,
    running: bool,
    now: int,
    path: Seq<char>,
)
    requires
        to_handle(watcher, event, running, now) matches Ok(handled) && handled.contains(path),
    ensures
        ({
            ||| event matches WatchEvent::Changed(paths) && exists|i: int|
                0 <= i < paths@.len() && (#[trigger] paths@[i])@ == path
            ||| running && exists|relative: Seq<char>|
                due(watcher.shield, now).contains(relative) && #[trigger] joined_path(
                    watcher.config.workspace,
                    relative,
                ) == path
        }),
{
    let handled = to_handle(watcher, event, running, now)->Ok_0;
    let held = due(watcher.shield, now);
    let waiting = in_workspace(watcher.config.workspace, held);
    let k = choose|k: int| 0 <= k < handled.len() && handled[k] == path;
    if running && k < held.len() {
        assert(handled[k] == waiting[k]);
        assert(held.contains(held[k]));
        assert(joined_path(watcher.config.workspace, held[k]) == path);
    } else {
        let paths = event->Changed_0;
        let start = handled.len() - paths@.len();
        assert(views(paths@)[k - start] == paths@[k - start]@);
    }
}

/// A turn hands out each changed path as often as it came: as many paths are handled as changed
/// and are due, none of the latter while the system does not run.
pub proof fn law_paths_are_handled_as_often_as_they_came(
    watcher: WatcherView,
    paths: Vec<String>,
    now: int,
)
    ensures
        to_handle(watcher, WatchEvent::Changed(paths), false, now) matches Ok(handled)
            && handled.len() == paths@.len(),
        to_handle(watcher, WatchEvent::Changed(paths), true, now) matches Ok(handled)
            && handled.len() == due(watcher.shield, now).len() + paths@.len(),
        to_handle(watcher, WatchEvent::Quiet, true, now) matches Ok(handled) && handled.len()
            == due(watcher.shield, now).len(),
        to_handle(watcher, WatchEvent::Failed, true, now) matches Ok(handled) && handled.len()
            == due(watcher.shield, now).len(),
        to_handle(watcher, WatchEvent::Quiet, false, now) matches Ok(handled) && handled.len() == 0,
        to_handle(watcher, WatchEvent::Failed, false, now) matches Ok(handled) && handled.len()
            == 0,
{
}

/// A change of a file of the workspace that is asked for, holds no secrets and does not come too
/// soon behind a commit is committed, where the file has settled down or is gone and git answers:
/// the path is staged, and since the status is not empty it is committed, under a message that
/// names it. From then on the path rests for the window.
pub proof fn law_settled_change_is_committed(
    watcher: WatcherView,
    event: PathEvent,
    relative: Seq<char>,
    hash: Seq<char>,
    later: int,
)
    requires
        is_plain(relative),
        event.absolute == joined_path(watcher.config.workspace, relative),
        event.running,
        allowed(relative, watcher.config.watch),
        !denied(relative),
        !storming(watcher.shield, relative, event.begin),
        event.kind == PathKind::Missing || (event.kind == PathKind::File && event.stable
            == Ok::<bool, ErrorView>(true)),
        event.add matches ReplyView::Answer(Ok(_)),
        event.status matches ReplyView::Answer(Ok(text)) && text.len() > 0,
        event.commit == ReplyView::Answer(Ok(hash)),
    ensures
        ({
            let first = first_command(watcher, event);
            let second = replied(first->Some_0, event.add);
            let third = replied(second->Send_0, event.status);
            let after = after_work(watcher, event);
            &&& begun(watcher, event.absolute, event.running, event.begin) == StepView::Probe(
                PathView { absolute: event.absolute, relative },
            )
            &&& first is Some && command_of(first->Some_0) == (CommandView::Add { path: relative })
            &&& second is Send && command_of(second->Send_0) == CommandView::Status
            &&& third is Send && command_of(third->Send_0) == (CommandView::CommitPath {
                path: relative,
                message: "chore: auto backup "@ + relative,
            })
            &&& replied(third->Send_0, event.commit) == StepView::Done(Ok(Some(hash)))
            &&& commits(watcher, event)
            &&& storming(after.shield, relative, later) <==> 0 < watcher.shield.window && later
                < event.end + watcher.shield.window
            &&& after.config == watcher.config
            &&& after.stopped == watcher.stopped
        }),
{
    law_relative_path_undoes_joining(watcher.config.workspace, relative);
    let middle = after_beginning(watcher, event.absolute, event.running, event.begin);
    law_commit_holds_back_its_path_for_the_window(
        middle.shield,
        relative,
        event.end,
        relative,
        later,
    );
}

/// Whatever is not asked for, holds secrets, or changes while the system does not run is left
/// alone, and the watcher with it. A change that comes too soon behind a commit is put off.
pub proof fn law_other_changes_are_left_alone(
    watcher: WatcherView,
    relative: Seq<char>,
    running: bool,
    now: int,
)
    requires
        is_plain(relative),
    ensures
        ({
            let path = joined_path(watcher.config.workspace, relative);
            &&& !running || !allowed(relative, watcher.config.watch) || denied(relative) ==> begun(
                watcher,
                path,
                running,
                now,
            ) == StepView::Done(Ok(None)) && after_beginning(watcher, path, running, now) == watcher
            &&& storming(watcher.shield, relative, now) ==> begun(watcher, path, running, now)
                == StepView::Done(Ok(None))
        }),
{
    law_relative_path_undoes_joining(watcher.config.workspace, relative);
}

/// What is neither a file nor gone is not committed, nor a file that has not settled down, nor a
/// path for which git's status says nothing; a failed check is reported.
pub proof fn law_nothing_is_committed_without_a_settled_change(
    path: PathView,
    commit: PathCommitView,
    error: ErrorView,
)
    ensures
        probed(path, PathKind::Other) == StepView::Done(Ok(None)),
        probed(path, PathKind::File) == StepView::CheckStable(path),
        settled(path, Ok(false)) == StepView::Done(Ok(None)),
        settled(path, Err(error)) == StepView::Done(Err(error)),
        commit.phase == PathPhase::Status ==> replied(commit, ReplyView::Answer(Ok(Seq::empty())))
            == StepView::Done(Ok(None)),
{
}

/// An error of git ends the work on a path with that error, and the watcher remembers no commit.
/// The one exception is a path at which nothing stands: where git says that the path matches no
/// file, there is nothing to commit.
pub proof fn law_errors_end_the_work(
    watcher: WatcherView,
    commit: PathCommitView,
    before: Seq<char>,
    behind: Seq<char>,
    error: ErrorView,
    source: Seq<char>,
    now: int,
)
    ensures
        commit.phase != PathPhase::Add || !commit.missing ==> replied(
            commit,
            ReplyView::Answer(Err(error)),
        ) == StepView::Done(Err(error)),
        commit.phase == PathPhase::Add && commit.missing ==> replied(
            commit,
            ReplyView::Answer(Err(git_error(before + "did not match any files"@ + behind))),
        ) == StepView::Done(Ok(None)),
        commit.phase == PathPhase::Add && commit.missing && !occurs_in(
            "did not match any files"@,
            shown(error),
        ) ==> replied(commit, ReplyView::Answer(Err(error))) == StepView::Done(Err(error)),
        !commit.missing ==> (replied(commit, ReplyView::NotSent(source)) matches StepView::Done(
            Err(told),
        ) && told.kind == ErrorKind::Watcher && source.is_suffix_of(told.message)),
        !commit.missing ==> (replied(commit, ReplyView::NoAnswer(source)) matches StepView::Done(
            Err(told),
        ) && told.kind == ErrorKind::Watcher && source.is_suffix_of(told.message)),
        after_reply(watcher, commit, ReplyView::Answer(Err(error)), now) == watcher,
        after_reply(watcher, commit, ReplyView::NotSent(source), now) == watcher,
        after_reply(watcher, commit, ReplyView::NoAnswer(source), now) == watcher,
{
    let message = before + "did not match any files"@ + behind;
    law_shown_error_ends_with_its_message(message);
    let told = "git error: "@ + before;
    law_occurrence_has_something_around_it(
        told,
        "did not match any files"@,
        behind,
        Seq::empty(),
    );
    assert(shown(git_error(message)) =~= told + "did not match any files"@ + behind);
    assert forall|start: Seq<char>| source.is_suffix_of(#[trigger] (start + source)) by {
        let all = start + source;
        assert(all.subrange(all.len() - source.len(), all.len() as int) =~= source);
    }
}

/// What is said of a command of a path that could not be sent, and of one that got no answer, names
/// the command.
pub proof fn law_unanswered_commands_are_named(source: Seq<char>, text: Seq<char>, error: ErrorView)
    ensures
        phase_answer(PathPhase::Add, ReplyView::NotSent(source)) == Err::<Seq<char>, ErrorView>(
            watcher_error("failed to enqueue add command: "@ + source),
        ),
        phase_answer(PathPhase::Status, ReplyView::NotSent(source)) == Err::<Seq<char>, ErrorView>(
            watcher_error("failed to enqueue status command: "@ + source),
        ),
        phase_answer(PathPhase::Commit, ReplyView::NotSent(source)) == Err::<Seq<char>, ErrorView>(
            watcher_error("failed to enqueue commit command: "@ + source),
        ),
        phase_answer(PathPhase::Add, ReplyView::NoAnswer(source)) == Err::<Seq<char>, ErrorView>(
            watcher_error("failed to receive add command result: "@ + source),
        ),
        phase_answer(PathPhase::Status, ReplyView::NoAnswer(source)) == Err::<Seq<char>, ErrorView>(
            watcher_error("failed to receive status command result: "@ + source),
        ),
        phase_answer(PathPhase::Commit, ReplyView::NoAnswer(source)) == Err::<Seq<char>, ErrorView>(
            watcher_error("failed to receive commit command result: "@ + source),
        ),
        forall|phase: PathPhase| #[trigger] phase_answer(phase, ReplyView::Answer(Ok(text))) == Ok::<
            Seq<char>,
            ErrorView,
        >(text),
        forall|phase: PathPhase| #[trigger] phase_answer(phase, ReplyView::Answer(Err(error)))
            == Err::<Seq<char>, ErrorView>(error),
{
}

} // verus!
