//! A search for the first bad commit with `git bisect`, while nothing else touches the
//! repository.
//!
//! [`bisect_run`] begins one. Each step holds what to do next and takes what came of it.
use vstd::prelude::*;

use crate::error::{git_error, shown, text_view, watcher_error, Error, ErrorKind, ErrorView};
use crate::executor::{CommandReply, GitCommand, ReplyView};
use crate::git::{concluded, system_call, text_call, CallView, GitCall, GitOutcome, GitRepo};
use crate::state::{answer, applied, SharedSystemState, StateOp};
use crate::text::{law_occurrence_has_something_around_it, occurs_in};

verus! {

/// The commands of a search, in their order.
#[derive(Debug, Clone, Copy, PartialEq, Eq, Structural)]
pub enum Phase {
    Start,
    Good,
    Bad,
    Run,
}

#[derive(Debug)]
enum Stage {
    Working(Phase),
    Resetting(Result<String, Error>),
}

/// How far a search has come: it works, or it gives the repository back, with what it came to.
pub enum StageView {
    Working(Phase),
    Resetting(Result<Seq<char>, ErrorView>),
}

/// What is searched for: the repository, a good commit, a bad one, and the command that tells
/// them apart.
pub struct SearchView {
    pub repo: Seq<char>,
    pub good: Seq<char>,
    pub bad: Seq<char>,
    pub healthcheck: Seq<char>,
}

#[derive(Debug)]
struct Search {
    repo: GitRepo,
    good: String,
    bad: String,
    healthcheck: String,
}

spec fn search_view(search: Search) -> SearchView {
    SearchView {
        repo: search.repo@,
        good: search.good@,
        bad: search.bad@,
        healthcheck: search.healthcheck@,
    }
}

spec fn stage_view(stage: Stage) -> StageView {
    match stage {
        Stage::Working(phase) => StageView::Working(phase),
        Stage::Resetting(result) => StageView::Resetting(text_view(result)),
    }
}

/// A search that waits until the commands before it are done.
#[derive(Debug)]
pub struct BarrierWait {
    search: Search,
}

impl View for BarrierWait {
    type V = SearchView;

    closed spec fn view(&self) -> SearchView {
        search_view(self.search)
    }
}

/// A search that waits for git.
#[derive(Debug)]
pub struct BisectRun {
    search: Search,
    stage: Stage,
}

/// A search that waits for git, as characters.
pub struct RunView {
    pub search: SearchView,
    pub stage: StageView,
}

impl View for BisectRun {
    type V = RunView;

    closed spec fn view(&self) -> RunView {
        RunView { search: search_view(self.search), stage: stage_view(self.stage) }
    }
}

/// What a search does next: send a barrier to the executor, run git, or end.
#[derive(Debug)]
pub enum BisectStep {
    SendBarrier(BarrierWait),
    RunGit(BisectRun),
    Done(Result<String, Error>),
}

/// What a search does next, as characters.
pub enum StepView {
    SendBarrier(SearchView),
    RunGit(RunView),
    Done(Result<Seq<char>, ErrorView>),
}

impl View for BisectStep {
    type V = StepView;

    open spec fn view(&self) -> StepView {
        match self {
            BisectStep::SendBarrier(wait) => StepView::SendBarrier(wait@),
            BisectStep::RunGit(run) => StepView::RunGit(run@),
            BisectStep::Done(result) => StepView::Done(text_view(*result)),
        }
    }
}

/// The git command that a search runs.
pub open spec fn call_of(run: RunView) -> CallView {
    let repo = run.search.repo;
    match run.stage {
        StageView::Working(Phase::Start) => text_call(repo, seq!["bisect"@, "start"@]),
        StageView::Working(Phase::Good) => text_call(
            repo,
            seq!["bisect"@, "good"@, run.search.good],
        ),
        StageView::Working(Phase::Bad) => text_call(repo, seq!["bisect"@, "bad"@, run.search.bad]),
        StageView::Working(Phase::Run) => system_call(
            repo,
            seq!["bisect"@, "run"@, "sh"@, "-c"@, run.search.healthcheck],
        ),
        StageView::Resetting(_) => text_call(repo, seq!["bisect"@, "reset"@]),
    }
}

/// What a search does with the reply to its barrier.
pub open spec fn after_barrier(search: SearchView, reply: ReplyView) -> StepView {
    StepView::RunGit(
        RunView {
            search,
            stage: match reply {
                ReplyView::NotSent(source) => StageView::Resetting(
                    Err(watcher_error("failed to send bisect barrier command: "@ + source)),
                ),
                ReplyView::NoAnswer(source) => StageView::Resetting(
                    Err(
                        watcher_error(
                            "failed to receive bisect barrier acknowledgement: "@ + source,
                        ),
                    ),
                ),
                ReplyView::Answer(_) => StageView::Working(Phase::Start),
            },
        },
    )
}

/// Where a command leads by what it handed back.
pub open spec fn stage_after(phase: Phase, handed: Result<Seq<char>, ErrorView>) -> StageView {
    match (phase, handed) {
        (_, Err(error)) => StageView::Resetting(Err(error)),
        (Phase::Start, Ok(_)) => StageView::Working(Phase::Good),
        (Phase::Good, Ok(_)) => StageView::Working(Phase::Bad),
        (Phase::Bad, Ok(_)) => StageView::Working(Phase::Run),
        (Phase::Run, Ok(output)) => StageView::Resetting(Ok(output)),
    }
}

/// What is added to a failure when a second thing failed too.
pub open spec fn suffix<T>(before: Seq<char>, result: Result<T, ErrorView>) -> Seq<char> {
    match result {
        Ok(_) => Seq::empty(),
        Err(error) => before + shown(error),
    }
}

/// What a search comes to, by its own result, by that of giving the repository back, and by the
/// answer to the request that ends its hold on the system.
pub open spec fn closed_with(
    result: Result<Seq<char>, ErrorView>,
    reset: Result<Seq<char>, ErrorView>,
    exit: Result<(), ErrorView>,
) -> Result<Seq<char>, ErrorView> {
    match (result, reset, exit) {
        (Ok(output), Ok(_), Ok(())) => Ok(output),
        (Ok(_), Ok(_), Err(exit)) => Err(exit),
        (Ok(_), Err(reset), _) => Err(
            git_error("bisect completed but reset failed: "@ + shown(reset)),
        ),
        (Err(failure), reset, exit) => Err(
            git_error(
                "bisect run failed: "@ + shown(failure) + suffix(
                    "; failed to reset bisect state: "@,
                    reset,
                ) + suffix("; failed to exit exclusive state: "@, exit),
            ),
        ),
    }
}

/// What a search does with what git handed back.
pub open spec fn continued(
    run: RunView,
    handed: Result<Seq<char>, ErrorView>,
    exit: Result<(), ErrorView>,
) -> StepView {
    match run.stage {
        StageView::Working(phase) => StepView::RunGit(
            RunView { search: run.search, stage: stage_after(phase, handed) },
        ),
        StageView::Resetting(result) => StepView::Done(closed_with(result, handed, exit)),
    }
}

fn run_bisect(phase: Phase, handed: Result<String, Error>) -> (stage: Stage)
    ensures
        stage_view(stage) == stage_after(phase, text_view(handed)),
{
    match handed {
        Err(error) => Stage::Resetting(Err(error)),
        Ok(output) => match phase {
            Phase::Start => Stage::Working(Phase::Good),
            Phase::Good => Stage::Working(Phase::Bad),
            Phase::Bad => Stage::Working(Phase::Run),
            Phase::Run => Stage::Resetting(Ok(output)),
        },
    }
}

fn close(
    result: Result<String, Error>,
    reset: Result<String, Error>,
    exit: Result<(), Error>,
) -> (closed: Result<String, Error>)
    ensures
        text_view(closed) == closed_with(
            text_view(result),
            text_view(reset),
            crate::error::unit_view(exit),
        ),
{
    match result {
        Ok(output) => {
            if let Err(error) = reset {
                let mut message: String = "bisect completed but reset failed: ".to_owned();
                message.append(error.to_text().as_str());
                return Err(Error::Git(message));
            }
            if let Err(error) = exit {
                return Err(error);
            }
            Ok(output)
        },
        Err(error) => {
            let mut message: String = "bisect run failed: ".to_owned();
            message.append(error.to_text().as_str());
            let mut reset_suffix: String = String::new();
            if let Err(error) = reset {
                reset_suffix = "; failed to reset bisect state: ".to_owned();
                reset_suffix.append(error.to_text().as_str());
            }
            let mut exit_suffix: String = String::new();
            if let Err(error) = exit {
                exit_suffix = "; failed to exit exclusive state: ".to_owned();
                exit_suffix.append(error.to_text().as_str());
            }
            message.append(reset_suffix.as_str());
            message.append(exit_suffix.as_str());
            Err(Error::Git(message))
        },
    }
}

/// Begins a search: takes the system for itself and waits for the commands before it.
pub fn bisect_run(
    state: &mut SharedSystemState,
    repo: &GitRepo,
    good_ref: &str,
    bad_ref: &str,
    healthcheck_cmd: &str,
) -> (step: BisectStep)
    ensures
        final(state)@ == applied(StateOp::Enter("bisect"@), old(state)@),
        step@ == (match answer(StateOp::Enter("bisect"@), old(state)@) {
            Ok(()) => StepView::SendBarrier(
                SearchView {
                    repo: repo@,
                    good: good_ref@,
                    bad: bad_ref@,
                    healthcheck: healthcheck_cmd@,
                },
            ),
            Err(error) => StepView::Done(Err(error)),
        }),
{
    match state.enter_exclusive("bisect") {
        Ok(()) => BisectStep::SendBarrier(
            BarrierWait {
                search: Search {
                    repo: repo.clone(),
                    good: good_ref.to_owned(),
                    bad: bad_ref.to_owned(),
                    healthcheck: healthcheck_cmd.to_owned(),
                },
            },
        ),
        Err(error) => BisectStep::Done(Err(error)),
    }
}

impl BarrierWait {
    /// The command to send to the executor.
    pub fn command(&self) -> (command: GitCommand)
        ensures
            command@ == crate::executor::CommandView::Barrier,
    {
        GitCommand::Barrier
    }

    /// What the search does with the reply to its barrier.
    pub fn resume(self, reply: CommandReply) -> (step: BisectStep)
        ensures
            step@ == after_barrier(self@, reply@),
    {
        let stage: Stage = match reply {
            CommandReply::NotSent(source) => {
                let mut message: String = "failed to send bisect barrier command: ".to_owned();
                message.append(source.as_str());
                Stage::Resetting(Err(Error::Watcher(message)))
            },
            CommandReply::NoAnswer(source) => {
                let mut message: String =
                    "failed to receive bisect barrier acknowledgement: ".to_owned();
                message.append(source.as_str());
                Stage::Resetting(Err(Error::Watcher(message)))
            },
            CommandReply::Answer(_) => Stage::Working(Phase::Start),
        };
        BisectStep::RunGit(BisectRun { search: self.search, stage })
    }
}

impl BisectRun {
    /// The git command to run.
    pub fn call(&self) -> (call: GitCall)
        ensures
            call@ == call_of(self@),
    {
        let repo: &GitRepo = &self.search.repo;
        match &self.stage {
            Stage::Working(Phase::Start) => {
                let call: GitCall = repo.run_git_args(&["bisect", "start"]);
                assert(call@.args =~= seq!["bisect"@, "start"@]);
                call
            },
            Stage::Working(Phase::Good) => {
                let call: GitCall = repo.run_git_args(
                    &["bisect", "good", self.search.good.as_str()],
                );
                assert(call@.args =~= seq!["bisect"@, "good"@, self.search.good@]);
                call
            },
            Stage::Working(Phase::Bad) => {
                let call: GitCall = repo.run_git_args(&["bisect", "bad", self.search.bad.as_str()]);
                assert(call@.args =~= seq!["bisect"@, "bad"@, self.search.bad@]);
                call
            },
            Stage::Working(Phase::Run) => {
                let call: GitCall = repo.run_git_os_args(
                    &["bisect", "run", "sh", "-c", self.search.healthcheck.as_str()],
                );
                assert(call@.args =~= seq![
                    "bisect"@,
                    "run"@,
                    "sh"@,
                    "-c"@,
                    self.search.healthcheck@,
                ]);
                call
            },
            Stage::Resetting(_) => {
                let call: GitCall = repo.run_git_args(&["bisect", "reset"]);
                assert(call@.args =~= seq!["bisect"@, "reset"@]);
                call
            },
        }
    }

    /// What the search does with what its command handed back. With the last one it gives the
    /// system back.
    pub fn proceed(self, state: &mut SharedSystemState, handed: Result<String, Error>) -> (step:
        BisectStep)
        ensures
            step@ == continued(self@, text_view(handed), answer(StateOp::Exit, old(state)@)),
            final(state)@ == (if step@ is Done {
                applied(StateOp::Exit, old(state)@)
            } else {
                old(state)@
            }),
    {
        match self.stage {
            Stage::Working(phase) => BisectStep::RunGit(
                BisectRun { search: self.search, stage: run_bisect(phase, handed) },
            ),
            Stage::Resetting(result) => {
                let exit: Result<(), Error> = state.exit_exclusive();
                BisectStep::Done(close(result, handed, exit))
            },
        }
    }

    /// What the search does with the outcome of its command.
    pub fn resume(self, state: &mut SharedSystemState, outcome: &GitOutcome) -> (step: BisectStep)
        ensures
            step@ == continued(
                self@,
                concluded(call_of(self@), *outcome),
                answer(StateOp::Exit, old(state)@),
            ),
            final(state)@ == (if step@ is Done {
                applied(StateOp::Exit, old(state)@)
            } else {
                old(state)@
            }),
    {
        let handed: Result<String, Error> = self.call().conclude(outcome);
        self.proceed(state, handed)
    }
}

/// What a search does after git handed these back, where the system can be given back.
pub open spec fn step_after(run: RunView, handed: Seq<Result<Seq<char>, ErrorView>>) -> StepView
    decreases handed.len(),
{
    if handed.len() == 0 {
        StepView::RunGit(run)
    } else {
        match continued(run, handed.first(), Ok(())) {
            StepView::RunGit(next) => step_after(next, handed.drop_first()),
            other => other,
        }
    }
}

/// The git commands that a search runs while git hands these back.
pub open spec fn calls(run: RunView, handed: Seq<Result<Seq<char>, ErrorView>>) -> Seq<CallView>
    decreases handed.len(),
{
    seq![call_of(run)] + if handed.len() == 0 {
        Seq::empty()
    } else {
        match continued(run, handed.first(), Ok(())) {
            StepView::RunGit(next) => calls(next, handed.drop_first()),
            _ => Seq::empty(),
        }
    }
}

/// How many commands a search runs at most until it ends.
pub open spec fn rank(stage: StageView) -> nat {
    match stage {
        StageView::Working(Phase::Start) => 5,
        StageView::Working(Phase::Good) => 4,
        StageView::Working(Phase::Bad) => 3,
        StageView::Working(Phase::Run) => 2,
        StageView::Resetting(_) => 1,
    }
}

/// From every stage a search ends after as many commands as its rank says, whatever they hand
/// back.
pub proof fn law_bisect_ends(run: RunView, handed: Seq<Result<Seq<char>, ErrorView>>)
    requires
        handed.len() >= rank(run.stage),
    ensures
        step_after(run, handed) is Done,
    decreases handed.len(),
{
    match continued(run, handed.first(), Ok(())) {
        StepView::RunGit(next) => {
            law_bisect_ends(next, handed.drop_first());
        },
        _ => {},
    }
}

/// Whatever happened, the last command of a search that ended is `git bisect reset`.
pub proof fn law_bisect_always_resets(run: RunView, handed: Seq<Result<Seq<char>, ErrorView>>)
    requires
        step_after(run, handed) is Done,
    ensures
        calls(run, handed).len() > 0,
        calls(run, handed).last() == text_call(run.search.repo, seq!["bisect"@, "reset"@]),
    decreases handed.len(),
{
    match continued(run, handed.first(), Ok(())) {
        StepView::RunGit(next) => {
            law_bisect_always_resets(next, handed.drop_first());
        },
        _ => {
            assert(calls(run, handed) =~= seq![call_of(run)]);
        },
    }
}

/// A search that ends without an error hands back what `git bisect run` printed.
pub proof fn law_success_is_the_search_output(
    search: SearchView,
    handed: Seq<Result<Seq<char>, ErrorView>>,
    output: Seq<char>,
)
    requires
        step_after(
            RunView { search, stage: StageView::Working(Phase::Start) },
            handed,
        ) == StepView::Done(Ok(output)),
    ensures
        handed.len() >= 5,
        handed[3] == Ok::<Seq<char>, ErrorView>(output),
        calls(RunView { search, stage: StageView::Working(Phase::Start) }, handed)[3]
            == system_call(
            search.repo,
            seq!["bisect"@, "run"@, "sh"@, "-c"@, search.healthcheck],
        ),
{
    reveal_with_fuel(step_after, 6);
    reveal_with_fuel(calls, 6);
}

/// A search in which every command succeeds runs these five, in this order and in its repository,
/// and hands back what the fourth printed.
pub proof fn law_search_runs_its_commands_in_order(
    search: SearchView,
    handed: Seq<Result<Seq<char>, ErrorView>>,
)
    requires
        handed.len() == 5,
        forall|i: int| 0 <= i < 5 ==> #[trigger] handed[i] is Ok,
    ensures
        ({
            let run = RunView { search, stage: StageView::Working(Phase::Start) };
            let ran = calls(run, handed);
            &&& step_after(run, handed) == StepView::Done(handed[3])
            &&& ran.len() == 5
            &&& forall|i: int| 0 <= i < 5 ==> (#[trigger] ran[i]).dir == search.repo
            &&& ran[0].args == seq!["bisect"@, "start"@]
            &&& ran[1].args == seq!["bisect"@, "good"@, search.good]
            &&& ran[2].args == seq!["bisect"@, "bad"@, search.bad]
            &&& ran[3].args == seq!["bisect"@, "run"@, "sh"@, "-c"@, search.healthcheck]
            &&& ran[4].args == seq!["bisect"@, "reset"@]
        }),
{
    reveal_with_fuel(step_after, 6);
    reveal_with_fuel(calls, 6);
    assert(handed[0] is Ok && handed[1] is Ok && handed[2] is Ok && handed[3] is Ok
        && handed[4] is Ok);
    let second = handed.drop_first();
    let third = second.drop_first();
    let fourth = third.drop_first();
    let fifth = fourth.drop_first();
    assert(second.first() == handed[1] && third.first() == handed[2] && fourth.first() == handed[3]
        && fifth.first() == handed[4]);
}

/// The search begins once the commands before it are done, and without that it does not begin: the
/// repository is only given back.
pub proof fn law_search_begins_behind_the_barrier(
    search: SearchView,
    reply: Result<Seq<char>, ErrorView>,
    source: Seq<char>,
)
    ensures
        after_barrier(search, ReplyView::Answer(reply)) matches StepView::RunGit(run) && run.search
            == search && call_of(run).args == seq!["bisect"@, "start"@],
        after_barrier(search, ReplyView::NotSent(source)) matches StepView::RunGit(run)
            && run.search == search && call_of(run).args == seq!["bisect"@, "reset"@] && (
        run.stage matches StageView::Resetting(Err(error)) && source.is_suffix_of(error.message)),
        after_barrier(search, ReplyView::NoAnswer(source)) matches StepView::RunGit(run)
            && run.search == search && call_of(run).args == seq!["bisect"@, "reset"@] && (
        run.stage matches StageView::Resetting(Err(error)) && source.is_suffix_of(error.message)),
{
    assert forall|start: Seq<char>| source.is_suffix_of(#[trigger] (start + source)) by {
        let all = start + source;
        assert(all.subrange(all.len() - source.len(), all.len() as int) =~= source);
    }
}

/// A command that fails ends the search with that failure, once the repository is given back, and
/// no other command is run but for that.
pub proof fn law_failed_command_ends_the_search(
    run: RunView,
    phase: Phase,
    error: ErrorView,
    output: Seq<char>,
)
    requires
        run.stage == StageView::Working(phase),
    ensures
        ({
            let handed = seq![Err(error), Ok(output)];
            &&& step_after(run, handed) == StepView::Done(
                Err(git_error("bisect run failed: "@ + shown(error))),
            )
            &&& calls(run, handed).len() == 2
            &&& calls(run, handed)[1].args == seq!["bisect"@, "reset"@]
        }),
{
    let handed = seq![
        Err::<Seq<char>, ErrorView>(error),
        Ok::<Seq<char>, ErrorView>(output),
    ];
    reveal_with_fuel(step_after, 3);
    reveal_with_fuel(calls, 3);
    assert(handed.drop_first() =~= seq![Ok::<Seq<char>, ErrorView>(output)]);
    let none = Seq::<char>::empty();
    assert("bisect run failed: "@ + shown(error) + none + none =~= "bisect run failed: "@ + shown(
        error,
    ));
}

/// A search tells of every failure: of a repository that could not be given back, of a system that
/// could not, and of its own, none of them hidden by another; only the first of the two is told
/// where the search itself succeeded.
pub proof fn law_end_of_search_tells_of_all_failures(
    run: RunView,
    output: Seq<char>,
    given_back: Seq<char>,
    failure: ErrorView,
    reset: ErrorView,
    exit: ErrorView,
)
    ensures
        run.stage == StageView::Resetting(Ok(output)) ==> {
            &&& continued(run, Ok(given_back), Ok(())) == StepView::Done(Ok(output))
            &&& continued(run, Ok(given_back), Err(exit)) == StepView::Done(Err(exit))
            &&& continued(run, Err(reset), Ok(())) matches StepView::Done(Err(error)) && error.kind
                == ErrorKind::Git && shown(reset).is_suffix_of(error.message)
            &&& continued(run, Err(reset), Err(exit)) matches StepView::Done(Err(error))
                && error.kind == ErrorKind::Git && shown(reset).is_suffix_of(error.message)
        },
        run.stage == StageView::Resetting(Err(failure)) ==> {
            &&& continued(run, Ok(given_back), Err(exit)) matches StepView::Done(Err(error))
                && error.kind == ErrorKind::Git && occurs_in(shown(failure), error.message)
                && shown(exit).is_suffix_of(error.message)
            &&& continued(run, Err(reset), Ok(())) matches StepView::Done(Err(error)) && error.kind
                == ErrorKind::Git && occurs_in(shown(failure), error.message) && shown(
                reset,
            ).is_suffix_of(error.message)
            &&& continued(run, Err(reset), Err(exit)) matches StepView::Done(Err(error))
                && error.kind == ErrorKind::Git && occurs_in(shown(failure), error.message)
                && occurs_in(shown(reset), error.message) && shown(exit).is_suffix_of(
                error.message,
            )
        },
{
    let none = Seq::<char>::empty();
    let start = "bisect run failed: "@;
    let told = start + shown(failure);
    let reset_told = "; failed to reset bisect state: "@ + shown(reset);
    let exit_told = "; failed to exit exclusive state: "@ + shown(exit);
    let completed = "bisect completed but reset failed: "@ + shown(reset);
    assert(completed.subrange(completed.len() - shown(reset).len(), completed.len() as int)
        =~= shown(reset));
    assert forall|a: Seq<char>, b: Seq<char>| occurs_in(shown(failure), #[trigger] (told + a + b)) by {
        law_occurrence_has_something_around_it(start, shown(failure), a + b, none);
        assert(told + a + b =~= start + shown(failure) + (a + b));
    }
    let both = told + reset_told + exit_told;
    law_occurrence_has_something_around_it(
        told + "; failed to reset bisect state: "@,
        shown(reset),
        exit_told,
        none,
    );
    assert(both =~= told + "; failed to reset bisect state: "@ + shown(reset) + exit_told);
    assert(both.subrange(both.len() - shown(exit).len(), both.len() as int) =~= shown(exit));
    let only_reset = told + reset_told + none;
    assert(only_reset.subrange(only_reset.len() - shown(reset).len(), only_reset.len() as int)
        =~= shown(reset));
    let only_exit = told + none + exit_told;
    assert(only_exit.subrange(only_exit.len() - shown(exit).len(), only_exit.len() as int)
        =~= shown(exit));
}

} // verus!
