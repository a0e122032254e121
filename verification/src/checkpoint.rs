//! A checkpoint: everything on the branch `raw`, squashed into one commit on the branch
//! `checkpoint`.
//!
//! [`checkpoint`] begins one. Each [`CheckpointRun`] holds the command to send to the executor
//! next and takes its reply.
use vstd::prelude::*;

use crate::error::{git_error, shown, unit_view, watcher_error, Error, ErrorKind, ErrorView};
use crate::executor::{CommandReply, CommandView, GitCommand, ReplyView};
use crate::state::{answer, applied, SharedSystemState, StateOp};
use crate::text::{contains_text, law_occurrence_has_something_around_it, occurs_in};

verus! {

pub const RAW_BRANCH: &'static str = "raw";

pub const CHECKPOINT_BRANCH: &'static str = "checkpoint";

/// Where the branch `checkpoint` may start, in the order in which it is tried.
#[derive(Debug, Clone, Copy, PartialEq, Eq, Structural)]
pub enum StartPoint {
    Main,
    Master,
    Raw,
    Head,
}

/// What a checkpoint waits for.
#[derive(Debug, Clone, Copy, PartialEq, Eq, Structural)]
pub enum Phase {
    /// That the commands before it are done.
    Barrier,
    /// That `raw` is checked out.
    EnterRaw,
    /// That `raw`, which was missing, is made.
    CreateRaw,
    /// That the new `raw` is checked out.
    ReenterRaw,
    /// That `checkpoint` is made.
    CreateCheckpoint(StartPoint),
    /// That `checkpoint` is checked out.
    EnterCheckpoint,
    /// That `raw` is merged into it as one change.
    Squash,
    /// That the change is committed.
    Commit,
}

#[derive(Debug)]
enum Stage {
    Working(Phase),
    Restoring(Option<Error>),
}

/// How far a checkpoint has come: it works, or it goes back to `raw`, after a failure or not.
pub enum StageView {
    Working(Phase),
    Restoring(Option<ErrorView>),
}

/// The stage, as characters.
spec fn stage_view(stage: Stage) -> StageView {
    match stage {
        Stage::Working(phase) => StageView::Working(phase),
        Stage::Restoring(None) => StageView::Restoring(None),
        Stage::Restoring(Some(error)) => StageView::Restoring(Some(error@)),
    }
}

/// A checkpoint that waits for a reply, as characters.
pub struct RunView {
    pub timestamp: Seq<char>,
    pub stage: StageView,
}

/// A checkpoint that waits for a reply.
#[derive(Debug)]
pub struct CheckpointRun {
    timestamp: String,
    stage: Stage,
}

impl View for CheckpointRun {
    type V = RunView;

    closed spec fn view(&self) -> RunView {
        RunView { timestamp: self.timestamp@, stage: stage_view(self.stage) }
    }
}

/// What a checkpoint does next: send its command, or end.
#[derive(Debug)]
pub enum CheckpointStep {
    Send(CheckpointRun),
    Done(Result<(), Error>),
}

/// What a checkpoint does next, as characters.
pub enum StepView {
    Send(RunView),
    Done(Result<(), ErrorView>),
}

impl View for CheckpointStep {
    type V = StepView;

    open spec fn view(&self) -> StepView {
        match self {
            CheckpointStep::Send(run) => StepView::Send(run@),
            CheckpointStep::Done(result) => StepView::Done(unit_view(*result)),
        }
    }
}

/// The error says that a branch is there already.
pub open spec fn branch_exists(error: ErrorView) -> bool {
    occurs_in("already exists"@, shown(error))
}

/// The error says that a branch or a commit is not there.
pub open spec fn unknown_start_point(error: ErrorView) -> bool {
    ||| occurs_in("not a valid object name"@, shown(error))
    ||| occurs_in("unknown revision"@, shown(error))
    ||| occurs_in("not found"@, shown(error))
    ||| occurs_in("did not match any file(s) known to git"@, shown(error))
}

/// Whether the error says that a branch is there already.
pub fn is_branch_exists_error(error: &Error) -> (found: bool)
    ensures
        found == branch_exists(error@),
{
    contains_text(error.to_text().as_str(), "already exists")
}

/// Whether the error says that a branch or a commit is not there.
pub fn is_unknown_start_point_error(error: &Error) -> (found: bool)
    ensures
        found == unknown_start_point(error@),
{
    let message: String = error.to_text();
    contains_text(message.as_str(), "not a valid object name") || contains_text(
        message.as_str(),
        "unknown revision",
    ) || contains_text(message.as_str(), "not found") || contains_text(
        message.as_str(),
        "did not match any file(s) known to git",
    )
}

/// What a branch starts from.
pub open spec fn start_text(start: StartPoint) -> Option<Seq<char>> {
    match start {
        StartPoint::Main => Some("main"@),
        StartPoint::Master => Some("master"@),
        StartPoint::Raw => Some("raw"@),
        StartPoint::Head => None,
    }
}

/// The command that checks `raw` out.
pub open spec fn checkout_raw() -> CommandView {
    CommandView::CheckoutBranch { name: "raw"@ }
}

/// The commit that a checkpoint makes.
pub open spec fn commit_command(timestamp: Seq<char>) -> CommandView {
    CommandView::Commit { message: "checkpoint: "@ + timestamp }
}

/// The command that a checkpoint sends.
pub open spec fn command_of(run: RunView) -> CommandView {
    match run.stage {
        StageView::Working(phase) => match phase {
            Phase::Barrier => CommandView::Barrier,
            Phase::EnterRaw => checkout_raw(),
            Phase::CreateRaw => CommandView::CreateBranch { name: "raw"@, start_point: None },
            Phase::ReenterRaw => checkout_raw(),
            Phase::CreateCheckpoint(start) => CommandView::CreateBranch {
                name: "checkpoint"@,
                start_point: start_text(start),
            },
            Phase::EnterCheckpoint => CommandView::CheckoutBranch { name: "checkpoint"@ },
            Phase::Squash => CommandView::MergeSquash { from: "raw"@ },
            Phase::Commit => commit_command(run.timestamp),
        },
        StageView::Restoring(_) => checkout_raw(),
    }
}

/// What a reply to a command says: the executor's answer, or an error with one of these two
/// texts before the reason why none came.
pub open spec fn answered(reply: ReplyView, not_sent: Seq<char>, no_answer: Seq<char>) -> Result<
    (),
    ErrorView,
> {
    match reply {
        ReplyView::NotSent(source) => Err(git_error(not_sent + source)),
        ReplyView::NoAnswer(source) => Err(git_error(no_answer + source)),
        ReplyView::Answer(Ok(_)) => Ok(()),
        ReplyView::Answer(Err(error)) => Err(error),
    }
}

/// What a reply to a checkout says.
pub open spec fn checked_out(reply: ReplyView) -> Result<(), ErrorView> {
    answered(reply, "failed to send checkout command: "@, "failed to receive checkout result: "@)
}

/// What the reply to a phase's command says.
pub open spec fn result_of(phase: Phase, reply: ReplyView) -> Result<(), ErrorView> {
    match phase {
        Phase::Barrier => match reply {
            ReplyView::NotSent(source) => Err(
                watcher_error("failed to send barrier command: "@ + source),
            ),
            ReplyView::NoAnswer(source) => Err(
                watcher_error(
                    "failed to receive barrier acknowledgement for checkpoint: "@ + source,
                ),
            ),
            ReplyView::Answer(_) => Ok(()),
        },
        Phase::EnterRaw | Phase::ReenterRaw | Phase::EnterCheckpoint => checked_out(reply),
        Phase::CreateRaw | Phase::CreateCheckpoint(_) => answered(
            reply,
            "failed to send create-branch command: "@,
            "failed to receive create-branch command result: "@,
        ),
        Phase::Squash => answered(
            reply,
            "failed to send merge-squash command: "@,
            "failed to receive merge-squash command result: "@,
        ),
        Phase::Commit => answered(
            reply,
            "failed to send checkpoint commit command: "@,
            "failed to receive checkpoint commit result from executor: "@,
        ),
    }
}

/// The next place where `checkpoint` may start.
pub open spec fn start_after(start: StartPoint) -> Option<StartPoint> {
    match start {
        StartPoint::Main => Some(StartPoint::Master),
        StartPoint::Master => Some(StartPoint::Raw),
        StartPoint::Raw => Some(StartPoint::Head),
        StartPoint::Head => None,
    }
}

/// Where a phase leads when its command was done, where it was not, and where its failure only
/// calls for another try.
pub open spec fn stage_after(phase: Phase, result: Result<(), ErrorView>) -> StageView {
    match (phase, result) {
        (Phase::Barrier, Ok(())) => StageView::Working(Phase::EnterRaw),
        (Phase::EnterRaw, Ok(())) => StageView::Working(Phase::CreateCheckpoint(StartPoint::Main)),
        (Phase::EnterRaw, Err(error)) => if unknown_start_point(error) {
            StageView::Working(Phase::CreateRaw)
        } else {
            StageView::Restoring(Some(error))
        },
        (Phase::CreateRaw, Ok(())) => StageView::Working(Phase::ReenterRaw),
        (Phase::ReenterRaw, Ok(())) => StageView::Working(
            Phase::CreateCheckpoint(StartPoint::Main),
        ),
        (Phase::CreateCheckpoint(_), Ok(())) => StageView::Working(Phase::EnterCheckpoint),
        (Phase::CreateCheckpoint(start), Err(error)) => if branch_exists(error) {
            StageView::Working(Phase::EnterCheckpoint)
        } else if unknown_start_point(error) {
            match start_after(start) {
                Some(next) => StageView::Working(Phase::CreateCheckpoint(next)),
                None => StageView::Restoring(
                    Some(
                        git_error(
                            "failed to ensure checkpoint branch from available start points"@,
                        ),
                    ),
                ),
            }
        } else {
            StageView::Restoring(Some(error))
        },
        (Phase::EnterCheckpoint, Ok(())) => StageView::Working(Phase::Squash),
        (Phase::Squash, Ok(())) => StageView::Working(Phase::Commit),
        (Phase::Commit, Ok(())) => StageView::Restoring(None),
        (_, Err(error)) => StageView::Restoring(Some(error)),
    }
}

/// What the work and the way back to `raw` come to together.
pub open spec fn restored(failure: Option<ErrorView>, cleanup: Result<(), ErrorView>) -> Result<
    (),
    ErrorView,
> {
    match (failure, cleanup) {
        (None, cleanup) => cleanup,
        (Some(failure), Ok(())) => Err(failure),
        (Some(failure), Err(cleanup)) => Err(
            git_error(
                "checkpoint failed: "@ + shown(failure) + "; failed to restore raw branch: "@
                    + shown(cleanup),
            ),
        ),
    }
}

/// What a checkpoint comes to once the system was asked to go on.
pub open spec fn closed_with(result: Result<(), ErrorView>, exit: Result<(), ErrorView>) -> Result<
    (),
    ErrorView,
> {
    match (result, exit) {
        (Ok(()), exit) => exit,
        (Err(failure), Ok(())) => Err(failure),
        (Err(failure), Err(exit)) => Err(
            watcher_error(
                "checkpoint failed: "@ + shown(failure) + "; failed to exit exclusive state: "@
                    + shown(exit),
            ),
        ),
    }
}

/// What a checkpoint does with a reply; `exit` is the answer to the request that ends its hold
/// on the system.
pub open spec fn resumed(run: RunView, reply: ReplyView, exit: Result<(), ErrorView>) -> StepView {
    match run.stage {
        StageView::Working(phase) => StepView::Send(
            RunView {
                timestamp: run.timestamp,
                stage: stage_after(phase, result_of(phase, reply)),
            },
        ),
        StageView::Restoring(failure) => StepView::Done(
            closed_with(restored(failure, checked_out(reply)), exit),
        ),
    }
}

fn read_reply(reply: CommandReply, not_sent: &str, no_answer: &str) -> (result: Result<(), Error>)
    ensures
        unit_view(result) == answered(reply@, not_sent@, no_answer@),
{
    match reply {
        CommandReply::NotSent(source) => {
            let mut message: String = not_sent.to_owned();
            message.append(source.as_str());
            Err(Error::Git(message))
        },
        CommandReply::NoAnswer(source) => {
            let mut message: String = no_answer.to_owned();
            message.append(source.as_str());
            Err(Error::Git(message))
        },
        CommandReply::Answer(Ok(_)) => Ok(()),
        CommandReply::Answer(Err(error)) => Err(error),
    }
}

fn read_checkout(reply: CommandReply) -> (result: Result<(), Error>)
    ensures
        unit_view(result) == checked_out(reply@),
{
    read_reply(reply, "failed to send checkout command: ", "failed to receive checkout result: ")
}

fn read_barrier(reply: CommandReply) -> (result: Result<(), Error>)
    ensures
        unit_view(result) == result_of(Phase::Barrier, reply@),
{
    match reply {
        CommandReply::NotSent(source) => {
            let mut message: String = "failed to send barrier command: ".to_owned();
            message.append(source.as_str());
            Err(Error::Watcher(message))
        },
        CommandReply::NoAnswer(source) => {
            let mut message: String =
                "failed to receive barrier acknowledgement for checkpoint: ".to_owned();
            message.append(source.as_str());
            Err(Error::Watcher(message))
        },
        CommandReply::Answer(_) => Ok(()),
    }
}

fn read_phase(phase: Phase, reply: CommandReply) -> (result: Result<(), Error>)
    ensures
        unit_view(result) == result_of(phase, reply@),
{
    match phase {
        Phase::Barrier => read_barrier(reply),
        Phase::EnterRaw | Phase::ReenterRaw | Phase::EnterCheckpoint => read_checkout(reply),
        Phase::CreateRaw | Phase::CreateCheckpoint(_) => read_reply(
            reply,
            "failed to send create-branch command: ",
            "failed to receive create-branch command result: ",
        ),
        Phase::Squash => read_reply(
            reply,
            "failed to send merge-squash command: ",
            "failed to receive merge-squash command result: ",
        ),
        Phase::Commit => read_reply(
            reply,
            "failed to send checkpoint commit command: ",
            "failed to receive checkpoint commit result from executor: ",
        ),
    }
}

fn ensure_raw_branch(result: Result<(), Error>) -> (stage: Stage)
    ensures
        stage_view(stage) == stage_after(Phase::EnterRaw, unit_view(result)),
{
    match result {
        Ok(()) => Stage::Working(Phase::CreateCheckpoint(StartPoint::Main)),
        Err(error) => if is_unknown_start_point_error(&error) {
            Stage::Working(Phase::CreateRaw)
        } else {
            Stage::Restoring(Some(error))
        },
    }
}

fn ensure_checkpoint_branch(start: StartPoint, result: Result<(), Error>) -> (stage: Stage)
    ensures
        stage_view(stage) == stage_after(Phase::CreateCheckpoint(start), unit_view(result)),
{
    let error: Error = match result {
        Ok(()) => return Stage::Working(Phase::EnterCheckpoint),
        Err(error) => error,
    };
    if is_branch_exists_error(&error) {
        return Stage::Working(Phase::EnterCheckpoint);
    }
    if !is_unknown_start_point_error(&error) {
        return Stage::Restoring(Some(error));
    }
    match start {
        StartPoint::Main => Stage::Working(Phase::CreateCheckpoint(StartPoint::Master)),
        StartPoint::Master => Stage::Working(Phase::CreateCheckpoint(StartPoint::Raw)),
        StartPoint::Raw => Stage::Working(Phase::CreateCheckpoint(StartPoint::Head)),
        StartPoint::Head => Stage::Restoring(
            Some(
                Error::Git(
                    "failed to ensure checkpoint branch from available start points".to_owned(),
                ),
            ),
        ),
    }
}

fn run_checkpoint(phase: Phase, result: Result<(), Error>) -> (stage: Stage)
    ensures
        stage_view(stage) == stage_after(phase, unit_view(result)),
{
    match phase {
        Phase::EnterRaw => return ensure_raw_branch(result),
        Phase::CreateCheckpoint(start) => return ensure_checkpoint_branch(start, result),
        _ => {},
    }
    match result {
        Err(error) => Stage::Restoring(Some(error)),
        Ok(()) => match phase {
            Phase::Barrier => Stage::Working(Phase::EnterRaw),
            Phase::EnterRaw | Phase::ReenterRaw => Stage::Working(
                Phase::CreateCheckpoint(StartPoint::Main),
            ),
            Phase::CreateRaw => Stage::Working(Phase::ReenterRaw),
            Phase::CreateCheckpoint(_) => Stage::Working(Phase::EnterCheckpoint),
            Phase::EnterCheckpoint => Stage::Working(Phase::Squash),
            Phase::Squash => Stage::Working(Phase::Commit),
            Phase::Commit => Stage::Restoring(None),
        },
    }
}

fn join_failures(failure: Error, between: &str, other: Error) -> (message: String)
    ensures
        message@ == "checkpoint failed: "@ + shown(failure@) + between@ + shown(other@),
{
    let mut message: String = "checkpoint failed: ".to_owned();
    message.append(failure.to_text().as_str());
    message.append(between);
    message.append(other.to_text().as_str());
    message
}

fn join_cleanup(failure: Option<Error>, cleanup: Result<(), Error>) -> (result: Result<(), Error>)
    ensures
        unit_view(result) == restored(
            match failure {
                Some(error) => Some(error@),
                None => None,
            },
            unit_view(cleanup),
        ),
{
    match (failure, cleanup) {
        (None, cleanup) => cleanup,
        (Some(failure), Ok(())) => Err(failure),
        (Some(failure), Err(cleanup)) => Err(
            Error::Git(join_failures(failure, "; failed to restore raw branch: ", cleanup)),
        ),
    }
}

fn join_exit(result: Result<(), Error>, exit: Result<(), Error>) -> (joined: Result<(), Error>)
    ensures
        unit_view(joined) == closed_with(unit_view(result), unit_view(exit)),
{
    match (result, exit) {
        (Ok(()), exit) => exit,
        (Err(failure), Ok(())) => Err(failure),
        (Err(failure), Err(exit)) => Err(
            Error::Watcher(join_failures(failure, "; failed to exit exclusive state: ", exit)),
        ),
    }
}

/// A checkpoint at its beginning.
pub open spec fn begun(timestamp: Seq<char>) -> RunView {
    RunView { timestamp, stage: StageView::Working(Phase::Barrier) }
}

/// Begins a checkpoint: takes the system for itself and waits for the commands before it.
pub fn checkpoint(state: &mut SharedSystemState, timestamp: &str) -> (step: CheckpointStep)
    ensures
        final(state)@ == applied(StateOp::Enter("checkpoint"@), old(state)@),
        step@ == (match answer(StateOp::Enter("checkpoint"@), old(state)@) {
            Ok(()) => StepView::Send(begun(timestamp@)),
            Err(error) => StepView::Done(Err(error)),
        }),
{
    match state.enter_exclusive("checkpoint") {
        Ok(()) => CheckpointStep::Send(
            CheckpointRun {
                timestamp: timestamp.to_owned(),
                stage: Stage::Working(Phase::Barrier),
            },
        ),
        Err(error) => CheckpointStep::Done(Err(error)),
    }
}

impl CheckpointRun {
    /// The command to send to the executor.
    pub fn command(&self) -> (command: GitCommand)
        ensures
            command@ == command_of(self@),
    {
        match &self.stage {
            Stage::Working(phase) => match phase {
                Phase::Barrier => GitCommand::Barrier,
                Phase::EnterRaw | Phase::ReenterRaw => GitCommand::CheckoutBranch {
                    name: RAW_BRANCH.to_owned(),
                },
                Phase::CreateRaw => GitCommand::CreateBranch {
                    name: RAW_BRANCH.to_owned(),
                    start_point: None,
                },
                Phase::CreateCheckpoint(start) => GitCommand::CreateBranch {
                    name: CHECKPOINT_BRANCH.to_owned(),
                    start_point: match start {
                        StartPoint::Main => Some("main".to_owned()),
                        StartPoint::Master => Some("master".to_owned()),
                        StartPoint::Raw => Some(RAW_BRANCH.to_owned()),
                        StartPoint::Head => None,
                    },
                },
                Phase::EnterCheckpoint => GitCommand::CheckoutBranch {
                    name: CHECKPOINT_BRANCH.to_owned(),
                },
                Phase::Squash => GitCommand::MergeSquash { from: RAW_BRANCH.to_owned() },
                Phase::Commit => {
                    let mut message: String = "checkpoint: ".to_owned();
                    message.append(self.timestamp.as_str());
                    GitCommand::Commit { message }
                },
            },
            Stage::Restoring(_) => GitCommand::CheckoutBranch { name: RAW_BRANCH.to_owned() },
        }
    }

    /// What the checkpoint does with the reply to its command. With the reply to its last
    /// command it gives the system back.
    pub fn resume(self, state: &mut SharedSystemState, reply: CommandReply) -> (step:
        CheckpointStep)
        ensures
            step@ == resumed(self@, reply@, answer(StateOp::Exit, old(state)@)),
            final(state)@ == (if step@ is Done {
                applied(StateOp::Exit, old(state)@)
            } else {
                old(state)@
            }),
    {
        match self.stage {
            Stage::Working(phase) => {
                let result: Result<(), Error> = read_phase(phase, reply);
                CheckpointStep::Send(
                    CheckpointRun {
                        timestamp: self.timestamp,
                        stage: run_checkpoint(phase, result),
                    },
                )
            },
            Stage::Restoring(failure) => {
                let cleanup: Result<(), Error> = read_checkout(reply);
                let result: Result<(), Error> = join_cleanup(failure, cleanup);
                let exit: Result<(), Error> = state.exit_exclusive();
                CheckpointStep::Done(join_exit(result, exit))
            },
        }
    }
}

/// What a checkpoint does after these replies, where the system can be given back.
pub open spec fn step_after(run: RunView, replies: Seq<ReplyView>) -> StepView
    decreases replies.len(),
{
    if replies.len() == 0 {
        StepView::Send(run)
    } else {
        match resumed(run, replies.first(), Ok(())) {
            StepView::Send(next) => step_after(next, replies.drop_first()),
            StepView::Done(result) => StepView::Done(result),
        }
    }
}

/// The commands that a checkpoint sends while these replies come.
pub open spec fn commands(run: RunView, replies: Seq<ReplyView>) -> Seq<CommandView>
    decreases replies.len(),
{
    seq![command_of(run)] + if replies.len() == 0 {
        Seq::empty()
    } else {
        match resumed(run, replies.first(), Ok(())) {
            StepView::Send(next) => commands(next, replies.drop_first()),
            StepView::Done(_) => Seq::empty(),
        }
    }
}

/// How many replies a checkpoint needs at most until it ends.
pub open spec fn rank(stage: StageView) -> nat {
    match stage {
        StageView::Working(phase) => match phase {
            Phase::Barrier => 12,
            Phase::EnterRaw => 11,
            Phase::CreateRaw => 10,
            Phase::ReenterRaw => 9,
            Phase::CreateCheckpoint(StartPoint::Main) => 8,
            Phase::CreateCheckpoint(StartPoint::Master) => 7,
            Phase::CreateCheckpoint(StartPoint::Raw) => 6,
            Phase::CreateCheckpoint(StartPoint::Head) => 5,
            Phase::EnterCheckpoint => 4,
            Phase::Squash => 3,
            Phase::Commit => 2,
        },
        StageView::Restoring(_) => 1,
    }
}

/// From every stage a checkpoint ends after as many replies as its rank says, whatever they are.
pub proof fn law_checkpoint_ends(run: RunView, replies: Seq<ReplyView>)
    requires
        replies.len() >= rank(run.stage),
    ensures
        step_after(run, replies) is Done,
    decreases replies.len(),
{
    match resumed(run, replies.first(), Ok(())) {
        StepView::Send(next) => {
            assert(rank(next.stage) < rank(run.stage));
            law_checkpoint_ends(next, replies.drop_first());
        },
        StepView::Done(_) => {},
    }
}

/// Whatever happened, the last command of a checkpoint that ended checks `raw` out.
pub proof fn law_raw_branch_is_restored(run: RunView, replies: Seq<ReplyView>)
    requires
        step_after(run, replies) is Done,
    ensures
        commands(run, replies).len() > 0,
        commands(run, replies).last() == checkout_raw(),
    decreases replies.len(),
{
    match resumed(run, replies.first(), Ok(())) {
        StepView::Send(next) => {
            law_raw_branch_is_restored(next, replies.drop_first());
        },
        StepView::Done(_) => {
            assert(commands(run, replies) =~= seq![checkout_raw()]);
        },
    }
}

/// The replies in the order of the commands say that the command number `i` was done.
pub open spec fn was_done(replies: Seq<ReplyView>, i: int) -> bool {
    replies[i] matches ReplyView::Answer(Ok(_))
}

/// A checkpoint that ends without an error has made its commit, and `raw` is checked out again.
pub proof fn law_success_means_committed(run: RunView, replies: Seq<ReplyView>)
    requires
        run.stage is Working,
        step_after(run, replies) == StepView::Done(Ok(())),
    ensures
        ({
            let sent = commands(run, replies);
            &&& 2 <= sent.len() <= replies.len()
            &&& sent[sent.len() - 2] == commit_command(run.timestamp)
            &&& was_done(replies, sent.len() - 2)
            &&& sent[sent.len() - 1] == checkout_raw()
            &&& was_done(replies, sent.len() - 1)
        }),
    decreases replies.len(),
{
    let sent = commands(run, replies);
    let rest = replies.drop_first();
    match resumed(run, replies.first(), Ok(())) {
        StepView::Send(next) => {
            let later = commands(next, rest);
            assert(sent =~= seq![command_of(run)] + later);
            if next.stage is Working {
                law_success_means_committed(next, rest);
                assert(rest[later.len() - 2] == replies[sent.len() - 2]);
                assert(rest[later.len() - 1] == replies[sent.len() - 1]);
                assert(sent[sent.len() - 2] == later[later.len() - 2]);
            } else {
                assert(rest.len() > 0);
                assert(resumed(next, rest.first(), Ok(())) is Done);
                assert(step_after(next, rest) == resumed(next, rest.first(), Ok(())));
                assert(next.stage == StageView::Restoring(None));
                assert(run.stage == StageView::Working(Phase::Commit));
                assert(later =~= seq![checkout_raw()]);
                assert(sent =~= seq![commit_command(run.timestamp), checkout_raw()]);
                assert(rest.first() == replies[1]);
                assert(was_done(replies, 0));
                assert(was_done(replies, 1));
            }
        },
        StepView::Done(_) => {},
    }
}

/// A checkpoint sends at most one command more than it has replies.
proof fn lemma_commands_len(run: RunView, replies: Seq<ReplyView>)
    ensures
        commands(run, replies).len() <= replies.len() + 1,
    decreases replies.len(),
{
    if replies.len() > 0 {
        match resumed(run, replies.first(), Ok(())) {
            StepView::Send(next) => lemma_commands_len(next, replies.drop_first()),
            StepView::Done(_) => {},
        }
    }
}

/// A checkpoint commits only right behind a merge of `raw` that was done, and merges only right
/// behind a checkout of `checkpoint` that was done.
pub proof fn law_commit_follows_squash_on_checkpoint(
    timestamp: Seq<char>,
    replies: Seq<ReplyView>,
    i: int,
)
    requires
        0 <= i < commands(begun(timestamp), replies).len(),
        commands(begun(timestamp), replies)[i] is Commit,
    ensures
        ({
            let sent = commands(begun(timestamp), replies);
            &&& 2 <= i <= replies.len()
            &&& sent[i - 1] == (CommandView::MergeSquash { from: "raw"@ })
            &&& was_done(replies, i - 1)
            &&& sent[i - 2] == (CommandView::CheckoutBranch { name: "checkpoint"@ })
            &&& was_done(replies, i - 2)
        }),
{
    lemma_commit_follows_squash(begun(timestamp), replies, i);
    lemma_commands_len(begun(timestamp), replies);
}

proof fn lemma_commit_follows_squash(run: RunView, replies: Seq<ReplyView>, i: int)
    requires
        rank(run.stage) >= 4,
        0 <= i < commands(run, replies).len(),
        commands(run, replies)[i] is Commit,
    ensures
        i >= 2,
        commands(run, replies)[i - 1] == (CommandView::MergeSquash { from: "raw"@ }),
        was_done(replies, i - 1),
        commands(run, replies)[i - 2] == (CommandView::CheckoutBranch { name: "checkpoint"@ }),
        was_done(replies, i - 2),
    decreases replies.len(),
{
    reveal_with_fuel(commands, 4);
    lemma_commands_len(run, replies);
    let sent = commands(run, replies);
    let rest = replies.drop_first();
    assert(i > 0);
    match resumed(run, replies.first(), Ok(())) {
        StepView::Send(next) => {
            let later = commands(next, rest);
            assert(sent =~= seq![command_of(run)] + later);
            assert(later[i - 1] == sent[i]);
            if rank(next.stage) >= 4 {
                lemma_commit_follows_squash(next, rest, i - 1);
                assert(later[i - 2] == sent[i - 1] && later[i - 3] == sent[i - 2]);
                assert(rest[i - 2] == replies[i - 1] && rest[i - 3] == replies[i - 2]);
            } else if next.stage == StageView::Working(Phase::Squash) {
                assert(i >= 2);
                let second = resumed(next, rest.first(), Ok(()));
                let after = second->Send_0;
                assert(later[1] == command_of(after));
                if after.stage is Restoring {
                    assert(later =~= seq![command_of(next), command_of(after)] || later =~= seq![
                        command_of(next),
                    ]);
                } else {
                    assert(after.stage == StageView::Working(Phase::Commit));
                    assert(rest.first() == replies[1]);
                    assert(later[2] == checkout_raw() || later.len() == 2);
                    assert(i == 2);
                }
            } else {
                assert(next.stage is Restoring);
            }
        },
        StepView::Done(_) => {},
    }
}

proof fn lemma_shown_says_what_the_message_says(
    error: ErrorView,
    before: Seq<char>,
    phrase: Seq<char>,
    behind: Seq<char>,
)
    requires
        error.message == before + phrase + behind,
    ensures
        occurs_in(phrase, shown(error)),
{
    let start = shown(error).take(shown(error).len() - error.message.len());
    assert(shown(error) =~= (start + before) + phrase + behind);
    law_occurrence_has_something_around_it(start + before, phrase, behind, Seq::empty());
}

/// Every reply from this one on says that the command was done.
pub open spec fn done_from(replies: Seq<ReplyView>, from: int) -> bool {
    forall|i: int| from <= i < replies.len() ==> #[trigger] was_done(replies, i)
}

/// From the moment on at which the branch `checkpoint` is made, or is there, a checkpoint whose
/// commands are done checks it out, merges `raw` into it, commits and goes back to `raw`.
proof fn lemma_rest_of_checkpoint(run: RunView, replies: Seq<ReplyView>)
    requires
        run.stage == StageView::Working(Phase::EnterCheckpoint),
        replies.len() == 4,
        done_from(replies, 0),
    ensures
        step_after(run, replies) == StepView::Done(Ok(())),
        commands(run, replies) == seq![
            CommandView::CheckoutBranch { name: "checkpoint"@ },
            CommandView::MergeSquash { from: "raw"@ },
            CommandView::Commit { message: "checkpoint: "@ + run.timestamp },
            CommandView::CheckoutBranch { name: "raw"@ },
        ],
{
    reveal_with_fuel(step_after, 5);
    reveal_with_fuel(commands, 5);
    assert(was_done(replies, 0) && was_done(replies, 1) && was_done(replies, 2) && was_done(
        replies,
        3,
    ));
    let second = replies.drop_first();
    let third = second.drop_first();
    let fourth = third.drop_first();
    assert(second.first() == replies[1] && third.first() == replies[2] && fourth.first()
        == replies[3]);
    assert(commands(run, replies) =~= seq![
        CommandView::CheckoutBranch { name: "checkpoint"@ },
        CommandView::MergeSquash { from: "raw"@ },
        CommandView::Commit { message: "checkpoint: "@ + run.timestamp },
        CommandView::CheckoutBranch { name: "raw"@ },
    ]);
}

/// A reply that says that the branch is made, or that it is there already.
pub open spec fn made_or_there(reply: ReplyView) -> bool {
    ||| reply matches ReplyView::Answer(Ok(_))
    ||| reply matches ReplyView::Answer(Err(error)) && exists|before: Seq<char>, behind: Seq<char>|
        #[trigger] (before + "already exists"@ + behind) == error.message
}

/// A reply that says that the place to start from is not known, and not that the branch is there.
pub open spec fn start_not_known(reply: ReplyView) -> bool {
    reply matches ReplyView::Answer(Err(error)) && !occurs_in("already exists"@, shown(error))
        && says_not_known(error)
}

/// The message of the error tells, somewhere in it, of a name that git does not know.
pub open spec fn says_not_known(error: ErrorView) -> bool {
    exists|before: Seq<char>, phrase: Seq<char>, behind: Seq<char>|
        #[trigger] (before + phrase + behind) == error.message && seq![
            "not a valid object name"@,
            "unknown revision"@,
            "not found"@,
            "did not match any file(s) known to git"@,
        ].contains(phrase)
}

proof fn lemma_not_known_is_told(error: ErrorView)
    requires
        says_not_known(error),
    ensures
        unknown_start_point(error),
{
    let (before, phrase, behind) = choose|before: Seq<char>, phrase: Seq<char>, behind: Seq<char>|
        #[trigger] (before + phrase + behind) == error.message && seq![
            "not a valid object name"@,
            "unknown revision"@,
            "not found"@,
            "did not match any file(s) known to git"@,
        ].contains(phrase);
    lemma_shown_says_what_the_message_says(error, before, phrase, behind);
}

/// Where the branch `checkpoint` starts, in the order in which it is tried: the last is wherever
/// the repository stands.
pub open spec fn start_points() -> Seq<Option<Seq<char>>> {
    seq![Some("main"@), Some("master"@), Some("raw"@), None]
}

/// The place that is tried after `tried` others.
pub open spec fn start_number(tried: int) -> StartPoint {
    if tried == 0 {
        StartPoint::Main
    } else if tried == 1 {
        StartPoint::Master
    } else if tried == 2 {
        StartPoint::Raw
    } else {
        StartPoint::Head
    }
}

/// The commands of a checkpoint that makes the branch `checkpoint` with one of the `tries`.
pub open spec fn commands_from_branch(
    timestamp: Seq<char>,
    tries: Seq<Option<Seq<char>>>,
) -> Seq<CommandView> {
    tries.map_values(
        |start_point: Option<Seq<char>>|
            CommandView::CreateBranch { name: "checkpoint"@, start_point },
    ) + seq![
        CommandView::CheckoutBranch { name: "checkpoint"@ },
        CommandView::MergeSquash { from: "raw"@ },
        CommandView::Commit { message: "checkpoint: "@ + timestamp },
        CommandView::CheckoutBranch { name: "raw"@ },
    ]
}

proof fn lemma_branch_is_tried_until_made(
    run: RunView,
    tried: int,
    last: int,
    replies: Seq<ReplyView>,
)
    requires
        0 <= tried <= last < 4,
        run.stage == StageView::Working(Phase::CreateCheckpoint(start_number(tried))),
        replies.len() == last - tried + 5,
        forall|i: int| 0 <= i < last - tried ==> start_not_known(#[trigger] replies[i]),
        made_or_there(replies[last - tried]),
        done_from(replies, last - tried + 1),
    ensures
        step_after(run, replies) == StepView::Done(Ok(())),
        commands(run, replies) == commands_from_branch(
            run.timestamp,
            start_points().subrange(tried, last + 1),
        ),
    decreases last - tried,
{
    reveal_with_fuel(step_after, 2);
    reveal_with_fuel(commands, 2);
    let rest = replies.drop_first();
    let tries = start_points().subrange(tried, last + 1);
    let later = start_points().subrange(tried + 1, last + 1);
    assert forall|i: int| last - tried <= i < rest.len() implies #[trigger] was_done(rest, i) by {
        assert(was_done(replies, i + 1));
    }
    if tried == last {
        let next = RunView { stage: StageView::Working(Phase::EnterCheckpoint), ..run };
        if let ReplyView::Answer(Err(error)) = replies[0] {
            let (before, behind) = choose|before: Seq<char>, behind: Seq<char>|
                #[trigger] (before + "already exists"@ + behind) == error.message;
            lemma_shown_says_what_the_message_says(error, before, "already exists"@, behind);
        }
        assert(resumed(run, replies.first(), Ok(())) == StepView::Send(next));
        lemma_rest_of_checkpoint(next, rest);
        assert(commands(run, replies) =~= commands_from_branch(run.timestamp, tries));
    } else {
        let next = RunView {
            stage: StageView::Working(Phase::CreateCheckpoint(start_number(tried + 1))),
            ..run
        };
        assert(start_not_known(replies[0]));
        lemma_not_known_is_told(replies[0]->Answer_0->Err_0);
        assert(resumed(run, replies.first(), Ok(())) == StepView::Send(next));
        assert forall|i: int| 0 <= i < last - tried - 1 implies start_not_known(
            #[trigger] rest[i],
        ) by {
            assert(start_not_known(replies[i + 1]));
        }
        assert forall|i: int| last - tried <= i < rest.len() implies #[trigger] was_done(
            rest,
            i,
        ) by {
            assert(was_done(replies, i + 1));
        }
        lemma_branch_is_tried_until_made(next, tried + 1, last, rest);
        assert(commands(run, replies) =~= commands_from_branch(run.timestamp, tries));
    }
}

/// A checkpoint succeeds wherever git lets it: `raw` is checked out, `checkpoint` is made, from
/// the first of its start points that git knows, or is there already, and every other command is
/// done. It has then sent exactly these commands.
pub proof fn law_checkpoint_succeeds_wherever_git_lets_it(
    timestamp: Seq<char>,
    last: int,
    replies: Seq<ReplyView>,
)
    requires
        0 <= last < 4,
        replies.len() == last + 7,
        was_done(replies, 0),
        was_done(replies, 1),
        forall|i: int| 2 <= i < 2 + last ==> start_not_known(#[trigger] replies[i]),
        made_or_there(replies[2 + last]),
        done_from(replies, 3 + last),
    ensures
        step_after(begun(timestamp), replies) == StepView::Done(Ok(())),
        commands(begun(timestamp), replies) == seq![
            CommandView::Barrier,
            CommandView::CheckoutBranch { name: "raw"@ },
        ] + commands_from_branch(timestamp, start_points().take(last + 1)),
{
    reveal_with_fuel(step_after, 3);
    reveal_with_fuel(commands, 3);
    let second = replies.drop_first();
    let third = second.drop_first();
    assert(second.first() == replies[1]);
    assert(third =~= replies.skip(2));
    let run = RunView {
        timestamp,
        stage: StageView::Working(Phase::CreateCheckpoint(StartPoint::Main)),
    };
    assert forall|i: int| 0 <= i < last implies start_not_known(#[trigger] third[i]) by {
        assert(start_not_known(replies[i + 2]));
    }
    assert forall|i: int| last + 1 <= i < third.len() implies #[trigger] was_done(third, i) by {
        assert(was_done(replies, i + 2));
    }
    lemma_branch_is_tried_until_made(run, 0, last, third);
    assert(start_points().subrange(0, last + 1) =~= start_points().take(last + 1));
    assert(commands(begun(timestamp), replies) =~= seq![
        CommandView::Barrier,
        CommandView::CheckoutBranch { name: "raw"@ },
    ] + commands_from_branch(timestamp, start_points().take(last + 1)));
}

/// Where the branch `checkpoint` is there already and every other command is done, a checkpoint
/// ends without an error, and has merged `raw` into that branch and committed.
pub proof fn law_existing_checkpoint_branch_is_used(
    timestamp: Seq<char>,
    replies: Seq<ReplyView>,
    kind: ErrorKind,
    before: Seq<char>,
    behind: Seq<char>,
)
    requires
        replies.len() == 7,
        forall|i: int| 0 <= i < 7 && i != 2 ==> #[trigger] was_done(replies, i),
        replies[2] == ReplyView::Answer(
            Err(ErrorView { kind, message: before + "already exists"@ + behind }),
        ),
    ensures
        step_after(begun(timestamp), replies) == StepView::Done(Ok(())),
        commands(begun(timestamp), replies) == seq![
            CommandView::Barrier,
            CommandView::CheckoutBranch { name: "raw"@ },
            CommandView::CreateBranch { name: "checkpoint"@, start_point: Some("main"@) },
            CommandView::CheckoutBranch { name: "checkpoint"@ },
            CommandView::MergeSquash { from: "raw"@ },
            CommandView::Commit { message: "checkpoint: "@ + timestamp },
            CommandView::CheckoutBranch { name: "raw"@ },
        ],
{
    assert(was_done(replies, 0) && was_done(replies, 1));
    assert(made_or_there(replies[2]));
    law_checkpoint_succeeds_wherever_git_lets_it(timestamp, 0, replies);
    let first = start_points().take(1);
    assert(first =~= seq![Some("main"@)]);
    assert(commands(begun(timestamp), replies) =~= seq![
        CommandView::Barrier,
        CommandView::CheckoutBranch { name: "raw"@ },
        CommandView::CreateBranch { name: "checkpoint"@, start_point: Some("main"@) },
        CommandView::CheckoutBranch { name: "checkpoint"@ },
        CommandView::MergeSquash { from: "raw"@ },
        CommandView::Commit { message: "checkpoint: "@ + timestamp },
        CommandView::CheckoutBranch { name: "raw"@ },
    ]);
}

/// Where git does not know the branch `raw`, it is made where the repository stands and checked
/// out, and the checkpoint goes on as if it had been there.
pub proof fn law_missing_raw_branch_is_made(timestamp: Seq<char>, replies: Seq<ReplyView>)
    requires
        replies.len() == 9,
        replies[1] matches ReplyView::Answer(Err(error)) && says_not_known(error),
        forall|i: int| 0 <= i < 9 && i != 1 ==> #[trigger] was_done(replies, i),
    ensures
        step_after(begun(timestamp), replies) == StepView::Done(Ok(())),
        commands(begun(timestamp), replies) == seq![
            CommandView::Barrier,
            CommandView::CheckoutBranch { name: "raw"@ },
            CommandView::CreateBranch { name: "raw"@, start_point: None },
            CommandView::CheckoutBranch { name: "raw"@ },
            CommandView::CreateBranch { name: "checkpoint"@, start_point: Some("main"@) },
            CommandView::CheckoutBranch { name: "checkpoint"@ },
            CommandView::MergeSquash { from: "raw"@ },
            CommandView::Commit { message: "checkpoint: "@ + timestamp },
            CommandView::CheckoutBranch { name: "raw"@ },
        ],
{
    reveal_with_fuel(step_after, 5);
    reveal_with_fuel(commands, 5);
    lemma_not_known_is_told(replies[1]->Answer_0->Err_0);
    assert(was_done(replies, 0) && was_done(replies, 2) && was_done(replies, 3) && was_done(
        replies,
        4,
    ));
    let second = replies.drop_first();
    let third = second.drop_first();
    let fourth = third.drop_first();
    let rest = fourth.drop_first();
    assert(second.first() == replies[1] && third.first() == replies[2] && fourth.first()
        == replies[3]);
    assert(rest =~= replies.skip(4));
    let run = RunView {
        timestamp,
        stage: StageView::Working(Phase::CreateCheckpoint(StartPoint::Main)),
    };
    assert(rest[0] == replies[4]);
    assert forall|i: int| 1 <= i < rest.len() implies #[trigger] was_done(rest, i) by {
        assert(was_done(replies, i + 4));
    }
    lemma_branch_is_tried_until_made(run, 0, 0, rest);
    assert(start_points().subrange(0, 1) =~= seq![Some("main"@)]);
    assert(commands(begun(timestamp), replies) =~= seq![
        CommandView::Barrier,
        CommandView::CheckoutBranch { name: "raw"@ },
        CommandView::CreateBranch { name: "raw"@, start_point: None },
        CommandView::CheckoutBranch { name: "raw"@ },
        CommandView::CreateBranch { name: "checkpoint"@, start_point: Some("main"@) },
        CommandView::CheckoutBranch { name: "checkpoint"@ },
        CommandView::MergeSquash { from: "raw"@ },
        CommandView::Commit { message: "checkpoint: "@ + timestamp },
        CommandView::CheckoutBranch { name: "raw"@ },
    ]);
}

/// Where git knows none of the start points, all four are tried, `raw` is checked out again, and
/// the checkpoint ends with an error that says so.
pub proof fn law_no_start_point_is_an_error(run: RunView, replies: Seq<ReplyView>)
    requires
        run.stage == StageView::Working(Phase::CreateCheckpoint(StartPoint::Main)),
        replies.len() == 5,
        forall|i: int| 0 <= i < 4 ==> start_not_known(#[trigger] replies[i]),
        was_done(replies, 4),
    ensures
        step_after(run, replies) == StepView::Done(
            Err(git_error("failed to ensure checkpoint branch from available start points"@)),
        ),
        commands(run, replies) == seq![
            CommandView::CreateBranch { name: "checkpoint"@, start_point: Some("main"@) },
            CommandView::CreateBranch { name: "checkpoint"@, start_point: Some("master"@) },
            CommandView::CreateBranch { name: "checkpoint"@, start_point: Some("raw"@) },
            CommandView::CreateBranch { name: "checkpoint"@, start_point: None },
            CommandView::CheckoutBranch { name: "raw"@ },
        ],
{
    reveal_with_fuel(step_after, 6);
    reveal_with_fuel(commands, 6);
    let second = replies.drop_first();
    let third = second.drop_first();
    let fourth = third.drop_first();
    let fifth = fourth.drop_first();
    assert(second.first() == replies[1] && third.first() == replies[2] && fourth.first()
        == replies[3] && fifth.first() == replies[4]);
    assert(start_not_known(replies[0]) && start_not_known(replies[1]) && start_not_known(replies[2])
        && start_not_known(replies[3]));
    lemma_not_known_is_told(replies[0]->Answer_0->Err_0);
    lemma_not_known_is_told(replies[1]->Answer_0->Err_0);
    lemma_not_known_is_told(replies[2]->Answer_0->Err_0);
    lemma_not_known_is_told(replies[3]->Answer_0->Err_0);
    assert(commands(run, replies) =~= seq![
        CommandView::CreateBranch { name: "checkpoint"@, start_point: Some("main"@) },
        CommandView::CreateBranch { name: "checkpoint"@, start_point: Some("master"@) },
        CommandView::CreateBranch { name: "checkpoint"@, start_point: Some("raw"@) },
        CommandView::CreateBranch { name: "checkpoint"@, start_point: None },
        CommandView::CheckoutBranch { name: "raw"@ },
    ]);
}

/// The error tells neither that a branch is there nor that a name is not known.
pub open spec fn is_plain_failure(error: ErrorView) -> bool {
    &&& !occurs_in("already exists"@, shown(error))
    &&& !occurs_in("not a valid object name"@, shown(error))
    &&& !occurs_in("unknown revision"@, shown(error))
    &&& !occurs_in("not found"@, shown(error))
    &&& !occurs_in("did not match any file(s) known to git"@, shown(error))
}

/// Any other failure of a command ends the checkpoint with that failure, once `raw` is checked
/// out again; where it cannot be, the error tells of both. (The barrier cannot fail but for want
/// of an answer.)
pub proof fn law_failure_ends_the_checkpoint(
    run: RunView,
    phase: Phase,
    error: ErrorView,
    restored_with: Seq<char>,
    cleanup: ErrorView,
)
    requires
        run.stage == StageView::Working(phase),
        phase != Phase::Barrier,
        is_plain_failure(error),
    ensures
        ({
            let failed = ReplyView::Answer(Err(error));
            let back = ReplyView::Answer(Ok(restored_with));
            let stuck = ReplyView::Answer(Err(cleanup));
            &&& step_after(run, seq![failed, back]) == StepView::Done(Err(error))
            &&& commands(run, seq![failed, back]) == seq![
                command_of(run),
                CommandView::CheckoutBranch { name: "raw"@ },
            ]
            &&& step_after(run, seq![failed, stuck]) matches StepView::Done(Err(told)) && told.kind
                == ErrorKind::Git && occurs_in(shown(error), told.message) && shown(
                cleanup,
            ).is_suffix_of(told.message)
        }),
{
    let failed = ReplyView::Answer(Err::<Seq<char>, ErrorView>(error));
    let back = ReplyView::Answer(Ok::<Seq<char>, ErrorView>(restored_with));
    let stuck = ReplyView::Answer(Err::<Seq<char>, ErrorView>(cleanup));
    let next = RunView { timestamp: run.timestamp, stage: StageView::Restoring(Some(error)) };
    assert(resumed(run, failed, Ok(())) == StepView::Send(next));
    assert(seq![failed, back].drop_first() =~= seq![back]);
    assert(seq![failed, stuck].drop_first() =~= seq![stuck]);
    assert(resumed(next, back, Ok(())) == StepView::Done(Err(error)));
    assert(step_after(next, seq![back]) == StepView::Done(Err(error)));
    assert(commands(next, seq![back]) =~= seq![CommandView::CheckoutBranch { name: "raw"@ }]);
    assert(commands(run, seq![failed, back]) =~= seq![
        command_of(run),
        CommandView::CheckoutBranch { name: "raw"@ },
    ]);
    let tail = "; failed to restore raw branch: "@ + shown(cleanup);
    let message = "checkpoint failed: "@ + shown(error) + "; failed to restore raw branch: "@
        + shown(cleanup);
    law_occurrence_has_something_around_it(
        "checkpoint failed: "@,
        shown(error),
        tail,
        Seq::empty(),
    );
    assert(message =~= "checkpoint failed: "@ + shown(error) + tail);
    assert(message.subrange(message.len() - shown(cleanup).len(), message.len() as int) =~= shown(
        cleanup,
    ));
    assert(resumed(next, stuck, Ok(())) == StepView::Done(Err(git_error(message))));
    assert(step_after(next, seq![stuck]) == StepView::Done(Err(git_error(message))));
}

/// A command that could not be sent, or that got no answer, is a failure that tells why.
pub proof fn law_silence_is_a_failure(run: RunView, phase: Phase, source: Seq<char>)
    requires
        run.stage == StageView::Working(phase),
        phase == Phase::Barrier || phase == Phase::CreateRaw || phase == Phase::ReenterRaw || phase
            == Phase::EnterCheckpoint || phase == Phase::Squash || phase == Phase::Commit,
    ensures
        resumed(run, ReplyView::NotSent(source), Ok(())) matches StepView::Send(next)
            && next.stage matches StageView::Restoring(Some(told)) && source.is_suffix_of(
            told.message,
        ),
        resumed(run, ReplyView::NoAnswer(source), Ok(())) matches StepView::Send(next)
            && next.stage matches StageView::Restoring(Some(told)) && source.is_suffix_of(
            told.message,
        ),
{
    assert forall|start: Seq<char>| source.is_suffix_of(#[trigger] (start + source)) by {
        let all = start + source;
        assert(all.subrange(all.len() - source.len(), all.len() as int) =~= source);
    }
}

/// A checkpoint whose way back to `raw` is done comes to what its work came to, unless the system
/// cannot be given back: that is an error too, and no error hides another.
pub proof fn law_end_of_checkpoint_tells_of_all_failures(
    run: RunView,
    restored_with: Seq<char>,
    failure: ErrorView,
    refusal: ErrorView,
)
    ensures
        ({
            let back = ReplyView::Answer(Ok(restored_with));
            &&& run.stage == StageView::Restoring(None) ==> resumed(run, back, Ok(()))
                == StepView::Done(Ok(())) && resumed(run, back, Err(refusal)) == StepView::Done(
                Err(refusal),
            )
            &&& run.stage == StageView::Restoring(Some(failure)) ==> resumed(run, back, Ok(()))
                == StepView::Done(Err(failure))
            &&& run.stage == StageView::Restoring(Some(failure)) ==> (resumed(
                run,
                back,
                Err(refusal),
            ) matches StepView::Done(Err(told)) && told.kind == ErrorKind::Watcher && occurs_in(
                shown(failure),
                told.message,
            ) && shown(refusal).is_suffix_of(told.message))
            &&& run.stage == StageView::Restoring(None) ==> resumed(
                run,
                ReplyView::Answer(Err(failure)),
                Ok(()),
            ) == StepView::Done(Err(failure))
        }),
{
    let between = "; failed to exit exclusive state: "@;
    let message = "checkpoint failed: "@ + shown(failure) + between + shown(refusal);
    law_occurrence_has_something_around_it(
        "checkpoint failed: "@,
        shown(failure),
        between + shown(refusal),
        Seq::empty(),
    );
    assert(message =~= "checkpoint failed: "@ + shown(failure) + (between + shown(refusal)));
    assert(message.subrange(message.len() - shown(refusal).len(), message.len() as int) =~= shown(
        refusal,
    ));
}

/// Where a branch is looked for or made, a command that could not be sent, or that got no answer,
/// is a failure too, as long as what is said of it tells neither of a branch nor of an unknown
/// name.
pub proof fn law_silence_about_a_branch_is_a_failure(
    run: RunView,
    phase: Phase,
    source: Seq<char>,
)
    requires
        run.stage == StageView::Working(phase),
        phase == Phase::EnterRaw || phase is CreateCheckpoint,
    ensures
        ({
            let what = if phase == Phase::EnterRaw {
                "checkout command: "@
            } else {
                "create-branch command: "@
            };
            let how = if phase == Phase::EnterRaw {
                "checkout result: "@
            } else {
                "create-branch command result: "@
            };
            let lost = git_error("failed to send "@ + what + source);
            let silent = git_error("failed to receive "@ + how + source);
            &&& is_plain_failure(lost) ==> (resumed(run, ReplyView::NotSent(source), Ok(())) matches
                StepView::Send(next) && next.stage == StageView::Restoring(Some(lost)))
            &&& is_plain_failure(silent) ==> (resumed(
                run,
                ReplyView::NoAnswer(source),
                Ok(()),
            ) matches StepView::Send(next) && next.stage == StageView::Restoring(Some(silent)))
        }),
{
    reveal_strlit("failed to send ");
    reveal_strlit("failed to receive ");
    reveal_strlit("checkout command: ");
    reveal_strlit("create-branch command: ");
    reveal_strlit("checkout result: ");
    reveal_strlit("create-branch command result: ");
    reveal_strlit("failed to send checkout command: ");
    reveal_strlit("failed to send create-branch command: ");
    reveal_strlit("failed to receive checkout result: ");
    reveal_strlit("failed to receive create-branch command result: ");
    assert("failed to send "@ + "checkout command: "@ =~= "failed to send checkout command: "@);
    assert("failed to send "@ + "create-branch command: "@
        =~= "failed to send create-branch command: "@);
    assert("failed to receive "@ + "checkout result: "@ =~= "failed to receive checkout result: "@);
    assert("failed to receive "@ + "create-branch command result: "@
        =~= "failed to receive create-branch command result: "@);
}

/// Once the barrier is acknowledged, in whatever words, `raw` is checked out.
pub proof fn law_acknowledged_barrier_is_passed(
    timestamp: Seq<char>,
    answer: Result<Seq<char>, ErrorView>,
)
    ensures
        command_of(begun(timestamp)) == CommandView::Barrier,
        resumed(begun(timestamp), ReplyView::Answer(answer), Ok(())) matches StepView::Send(next)
            && command_of(next) == (CommandView::CheckoutBranch { name: "raw"@ })
            && next.timestamp == timestamp && next.stage is Working,
{
}

} // verus!
