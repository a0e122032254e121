//! When to push: after a while, or once enough commits wait, and with growing pauses after
//! failures.
//!
//! Points in time are nanoseconds since the scheduler's clock was started.
use vstd::arithmetic::power2::pow2;
use vstd::prelude::*;

use crate::checkpoint::answered;
use crate::config::{ConfigView, WorkspaceConfig};
use crate::counter::{counted, CommitCounter};
use crate::error::{unit_view, watcher_error, Error, ErrorKind, ErrorView};
use crate::executor::{CommandReply, CommandView, GitCommand, ReplyView};
use crate::git::{text_call, GitCall, GitOutcome, GitRepo};
use crate::text::{
    contains_text, decode_lossy, decoded, law_occurrence_has_something_around_it, lower_case,
    occurs_in, to_lower_case,
};

verus! {

/// Where pushes go.
pub const DEFAULT_REMOTE: &'static str = "origin";

/// The longest pause after a failure, in seconds.
pub const MAX_BACKOFF_SEC: u64 = 900;

/// Nanoseconds in a second.
pub const NANOS: u128 = 1_000_000_000;

/// The pause after the next failure: twice the last one, up to a bound.
pub open spec fn doubled(current: int, max_backoff: int) -> int {
    if 2 * current > max_backoff {
        max_backoff
    } else {
        2 * current
    }
}

/// The pause after the next failure: twice the last one, up to a bound. All in seconds.
pub fn next_backoff(current: u64, max_backoff: u64) -> (next: u64)
    ensures
        next == doubled(current as int, max_backoff as int),
{
    if current > max_backoff / 2 {
        max_backoff
    } else {
        current * 2
    }
}

/// The pause after `failures` more failures.
pub open spec fn backoff_after(base: int, max_backoff: int, failures: nat) -> int
    decreases failures,
{
    if failures == 0 {
        base
    } else {
        doubled(backoff_after(base, max_backoff, (failures - 1) as nat), max_backoff)
    }
}

/// A scheduler's settings and its memory: seconds for pauses, nanoseconds for points in time.
pub struct SchedulerView {
    pub interval: int,
    pub threshold: int,
    pub base_backoff: int,
    pub backoff: int,
    pub interval_deadline: int,
    pub retry_deadline: int,
}

/// Decides when to push.
#[derive(Debug)]
pub struct PushScheduler {
    interval_sec: u64,
    threshold: usize,
    base_backoff_sec: u64,
    backoff_sec: u64,
    interval_deadline: u128,
    retry_deadline: u128,
}

impl View for PushScheduler {
    type V = SchedulerView;

    closed spec fn view(&self) -> SchedulerView {
        SchedulerView {
            interval: self.interval_sec as int,
            threshold: self.threshold as int,
            base_backoff: self.base_backoff_sec as int,
            backoff: self.backoff_sec as int,
            interval_deadline: self.interval_deadline as int,
            retry_deadline: self.retry_deadline as int,
        }
    }
}

/// A push that may be tried, with the point in time at which that was found.
#[derive(Debug)]
pub struct PushAttempt {
    now: u64,
}

impl View for PushAttempt {
    type V = int;

    closed spec fn view(&self) -> int {
        self.now as int
    }
}

/// The point in time so many seconds after another.
pub open spec fn later(now: int, seconds: int) -> int {
    now + seconds * 1_000_000_000
}

/// At least one.
pub open spec fn at_least_one(n: int) -> int {
    if n < 1 {
        1
    } else {
        n
    }
}

/// A scheduler at its start.
pub open spec fn started(config: ConfigView, now: int) -> SchedulerView {
    let interval = at_least_one(config.push_interval_sec as int);
    let base = at_least_one(config.push_backoff_base_sec as int);
    SchedulerView {
        interval,
        threshold: at_least_one(config.push_commit_threshold as int),
        base_backoff: base,
        backoff: base,
        interval_deadline: later(now, interval),
        retry_deadline: now,
    }
}

/// A push is called for: commits wait, either long enough or enough of them, and the last
/// failure is long enough ago.
pub open spec fn push_due(scheduler: SchedulerView, now: int, commits: int) -> bool {
    &&& commits > 0
    &&& now >= scheduler.interval_deadline || commits >= scheduler.threshold
    &&& now >= scheduler.retry_deadline
}

/// The scheduler after it looked at the clock: while no commits wait, the wait starts anew.
pub open spec fn ticked(before: SchedulerView, now: int, commits: int) -> SchedulerView {
    if commits == 0 {
        SchedulerView { interval_deadline: later(now, before.interval), ..before }
    } else {
        before
    }
}

/// The scheduler after an attempt that failed.
pub open spec fn failed(before: SchedulerView, now: int) -> SchedulerView {
    SchedulerView {
        retry_deadline: later(now, before.backoff),
        backoff: doubled(before.backoff, MAX_BACKOFF_SEC as int),
        ..before
    }
}

/// The scheduler after a push.
pub open spec fn succeeded(before: SchedulerView, now: int) -> SchedulerView {
    SchedulerView {
        backoff: before.base_backoff,
        retry_deadline: now,
        interval_deadline: later(now, before.interval),
        ..before
    }
}

/// The scheduler after it was found out whether the remote can be reached.
pub open spec fn after_probe(before: SchedulerView, now: int, network_reachable: bool) -> SchedulerView {
    if network_reachable {
        before
    } else {
        failed(before, now)
    }
}

/// The scheduler after a push came to this.
pub open spec fn after_push(
    before: SchedulerView,
    now: int,
    result: Result<(), ErrorView>,
) -> SchedulerView {
    match result {
        Ok(()) => succeeded(before, now),
        Err(_) => failed(before, now),
    }
}

/// How many commits wait after a push came to this.
pub open spec fn left_to_push(commits: int, result: Result<(), ErrorView>) -> int {
    match result {
        Ok(()) => 0,
        Err(_) => commits,
    }
}

/// What the reply to a push says.
pub open spec fn push_result(reply: ReplyView) -> Result<(), ErrorView> {
    answered(
        reply,
        "failed to enqueue push command: "@,
        "failed to receive push command result: "@,
    )
}

/// Git's complaint, in lower case, says that the remote cannot be used.
pub open spec fn complains_of_remote(complaint: Seq<char>) -> bool {
    ||| occurs_in("could not resolve host"@, complaint)
    ||| occurs_in("could not read from remote repository"@, complaint)
    ||| occurs_in("does not appear to be a git repository"@, complaint)
    ||| occurs_in("repository not found"@, complaint)
}

/// The remote can be reached: git listed it, or it only has nothing to list.
pub open spec fn reachable(outcome: GitOutcome) -> bool {
    match outcome {
        GitOutcome::NotStarted(_) => false,
        GitOutcome::Exited { success, code, stderr, .. } => success || (code == Some(2i32)
            && !complains_of_remote(lower_case(decoded(stderr@)))),
    }
}

/// Whether git's complaint, in lower case, says that the remote cannot be used.
pub fn complains_of_unusable_remote(complaint: &str) -> (found: bool)
    ensures
        found == complains_of_remote(complaint@),
{
    contains_text(complaint, "could not resolve host") || contains_text(
        complaint,
        "could not read from remote repository",
    ) || contains_text(complaint, "does not appear to be a git repository") || contains_text(
        complaint,
        "repository not found",
    )
}

/// The command that tells whether a remote can be reached.
pub fn probe_call(repo: &GitRepo, remote: &str) -> (call: GitCall)
    ensures
        call@ == text_call(repo@, seq!["ls-remote"@, "--exit-code"@, remote@]),
{
    let call: GitCall = repo.run_git_args(&["ls-remote", "--exit-code", remote]);
    assert(call@.args =~= seq!["ls-remote"@, "--exit-code"@, remote@]);
    call
}

/// Whether a remote can be reached, by the outcome of [`probe_call`].
pub fn is_network_reachable(outcome: &GitOutcome) -> (found: bool)
    ensures
        found == reachable(*outcome),
{
    match outcome {
        GitOutcome::NotStarted(_) => false,
        GitOutcome::Exited { success, code, stderr, .. } => {
            if *success {
                return true;
            }
            match code {
                Some(2) => {
                    let complaint: String = decode_lossy(stderr.as_slice());
                    !complains_of_unusable_remote(to_lower_case(complaint.as_str()).as_str())
                },
                _ => false,
            }
        },
    }
}

/// The command that pushes to a remote.
pub fn push_command(remote: &str) -> (command: GitCommand)
    ensures
        command@ == (CommandView::Push { remote: remote@ }),
{
    GitCommand::Push { remote: remote.to_owned() }
}

fn push_once(reply: CommandReply) -> (result: Result<(), Error>)
    ensures
        unit_view(result) == push_result(reply@),
{
    match reply {
        CommandReply::NotSent(source) => {
            let mut message: String = "failed to enqueue push command: ".to_owned();
            message.append(source.as_str());
            Err(Error::Git(message))
        },
        CommandReply::NoAnswer(source) => {
            let mut message: String = "failed to receive push command result: ".to_owned();
            message.append(source.as_str());
            Err(Error::Git(message))
        },
        CommandReply::Answer(Ok(_)) => Ok(()),
        CommandReply::Answer(Err(error)) => Err(error),
    }
}

fn deadline(now: u64, seconds: u64) -> (point: u128)
    ensures
        point == later(now as int, seconds as int),
{
    now as u128 + seconds as u128 * NANOS
}

impl PushScheduler {
    /// A scheduler with these settings, started at `now`.
    pub fn start(config: &WorkspaceConfig, now: u64) -> (scheduler: Self)
        ensures
            scheduler@ == started(config@, now as int),
    {
        let interval_sec: u64 = if config.push_interval_sec < 1 {
            1
        } else {
            config.push_interval_sec
        };
        let threshold: usize = if config.push_commit_threshold < 1 {
            1
        } else {
            config.push_commit_threshold
        };
        let base_backoff_sec: u64 = if config.push_backoff_base_sec < 1 {
            1
        } else {
            config.push_backoff_base_sec
        };
        PushScheduler {
            interval_sec,
            threshold,
            base_backoff_sec,
            backoff_sec: base_backoff_sec,
            interval_deadline: deadline(now, interval_sec),
            retry_deadline: now as u128,
        }
    }

    /// Looks at the clock and at how many commits wait; hands back an attempt where a push is
    /// called for.
    pub fn tick(&mut self, now: u64, commits: &CommitCounter) -> (attempt: Option<PushAttempt>)
        ensures
            final(self)@ == ticked(old(self)@, now as int, commits@),
            match attempt {
                Some(attempt) => push_due(old(self)@, now as int, commits@) && attempt@ == now,
                None => !push_due(old(self)@, now as int, commits@),
            },
    {
        let waiting: usize = commits.count();
        if waiting == 0 {
            self.interval_deadline = deadline(now, self.interval_sec);
            return None;
        }
        let timer_ready: bool = now as u128 >= self.interval_deadline;
        let threshold_ready: bool = waiting >= self.threshold;
        if !(timer_ready || threshold_ready) {
            return None;
        }
        if (now as u128) < self.retry_deadline {
            return None;
        }
        Some(PushAttempt { now })
    }

    fn fail(&mut self, now: u64)
        ensures
            final(self)@ == failed(old(self)@, now as int),
    {
        self.retry_deadline = deadline(now, self.backoff_sec);
        self.backoff_sec = next_backoff(self.backoff_sec, MAX_BACKOFF_SEC);
    }

    /// Takes in whether the remote can be reached; hands the attempt back where it can.
    pub fn probed(&mut self, attempt: PushAttempt, network_reachable: bool) -> (go_on: Option<
        PushAttempt,
    >)
        ensures
            final(self)@ == after_probe(old(self)@, attempt@, network_reachable),
            match go_on {
                Some(same) => network_reachable && same@ == attempt@,
                None => !network_reachable,
            },
    {
        if network_reachable {
            Some(attempt)
        } else {
            self.fail(attempt.now);
            None
        }
    }

    /// What stopping the scheduler comes to, by whether the thread behind it ended without a
    /// panic.
    pub fn stop(ended: bool) -> (result: Result<(), Error>)
        ensures
            unit_view(result) == (if ended {
                Ok(())
            } else {
                Err(watcher_error("push scheduler thread panicked"@))
            }),
    {
        if ended {
            Ok(())
        } else {
            Err(Error::Watcher("push scheduler thread panicked".to_owned()))
        }
    }

    /// Takes in the reply to the push. Where there is no error, the commits that waited are
    /// pushed and none wait any more.
    pub fn pushed(
        &mut self,
        attempt: PushAttempt,
        reply: CommandReply,
        commits: &mut CommitCounter,
    ) -> (result: Result<(), Error>)
        ensures
            unit_view(result) == push_result(reply@),
            final(commits)@ == left_to_push(old(commits)@, push_result(reply@)),
            final(self)@ == after_push(old(self)@, attempt@, push_result(reply@)),
    {
        let result: Result<(), Error> = push_once(reply);
        match &result {
            Ok(()) => {
                commits.clear();
                self.backoff_sec = self.base_backoff_sec;
                self.retry_deadline = attempt.now as u128;
                self.interval_deadline = deadline(attempt.now, self.interval_sec);
            },
            Err(_) => {
                self.fail(attempt.now);
            },
        }
        result
    }
}

/// The pause doubles with each failure and stays at its bound once there.
pub proof fn law_backoff_doubles_and_caps(base: int, max_backoff: int, failures: nat)
    requires
        0 <= base <= max_backoff,
    ensures
        backoff_after(base, max_backoff, failures) == (if base * pow2(failures) > max_backoff {
            max_backoff
        } else {
            base * pow2(failures)
        }),
    decreases failures,
{
    if failures == 0 {
        vstd::arithmetic::power2::lemma2_to64();
        assert(base * 1 == base);
    } else {
        let fewer = (failures - 1) as nat;
        law_backoff_doubles_and_caps(base, max_backoff, fewer);
        vstd::arithmetic::power2::lemma_pow2_unfold(failures);
        vstd::arithmetic::power2::lemma_pow2_pos(fewer);
        let power = pow2(fewer) as int;
        assert(base * (2 * power) == 2 * (base * power)) by (nonlinear_arith);
        assert(base * power >= 0) by (nonlinear_arith)
            requires
                base >= 0,
                power >= 0,
        ;
    }
}

/// After a failed attempt no push is called for until the pause is over, however many commits
/// wait.
pub proof fn law_failure_pauses_pushes(before: SchedulerView, at: int, now: int, commits: int)
    requires
        now < later(at, before.backoff),
    ensures
        !push_due(failed(before, at), now, commits),
{
}

/// The pause that follows a failure is never longer than its bound, nor does it vanish.
pub proof fn law_backoff_stays_in_bounds(before: SchedulerView, at: int)
    requires
        before.backoff >= 1,
    ensures
        1 <= failed(before, at).backoff <= MAX_BACKOFF_SEC,
{
}

/// A push clears what failures left behind: the next one needs no pause, and its first failure
/// pauses as long as the very first.
pub proof fn law_success_clears_failures(before: SchedulerView, at: int)
    ensures
        succeeded(before, at).backoff == before.base_backoff,
        succeeded(before, at).retry_deadline == at,
        succeeded(failed(before, at), at) == succeeded(before, at),
{
}

/// No push is called for while no commits wait.
pub proof fn law_nothing_to_push_without_commits(scheduler: SchedulerView, now: int)
    ensures
        !push_due(scheduler, now, 0),
{
}

/// Enough commits call for a push before the wait is over.
pub proof fn law_threshold_pushes_early(scheduler: SchedulerView, now: int, commits: int)
    requires
        scheduler.threshold >= 1,
        commits >= scheduler.threshold,
        now >= scheduler.retry_deadline,
    ensures
        push_due(scheduler, now, commits),
{
}

/// What happens while the scheduler runs: the executor answers a command, which made a commit or
/// did not; or the scheduler wakes up, at a time at which the remote can be reached or not, and
/// with the reply that a push would get.
pub enum PushEvent {
    Answered { committed: bool },
    Woke { now: int, reachable: bool, reply: ReplyView },
}

/// A scheduler, and how many commits wait.
pub struct PushRunView {
    pub scheduler: SchedulerView,
    pub commits: int,
}

/// What an event comes to: a push is tried and fails, is made, or is not tried.
pub enum Attempt {
    No,
    Failed,
    Made,
}

/// What an event comes to. A push is tried where it is called for; where the remote cannot be
/// reached, no push is sent.
pub open spec fn attempted(run: PushRunView, event: PushEvent) -> Attempt {
    match event {
        PushEvent::Answered { .. } => Attempt::No,
        PushEvent::Woke { now, reachable, reply } => if !push_due(run.scheduler, now, run.commits) {
            Attempt::No
        } else if reachable && push_result(reply) is Ok {
            Attempt::Made
        } else {
            Attempt::Failed
        },
    }
}

/// A push command is sent.
pub open spec fn sends_push(run: PushRunView, event: PushEvent) -> bool {
    event matches PushEvent::Woke { now, reachable, .. } && reachable && push_due(
        run.scheduler,
        now,
        run.commits,
    )
}

/// The run after an event.
pub open spec fn after_event(run: PushRunView, event: PushEvent) -> PushRunView {
    match event {
        PushEvent::Answered { committed } => PushRunView {
            commits: counted(run.commits, committed),
            ..run
        },
        PushEvent::Woke { now, reachable, reply } => {
            let looked = ticked(run.scheduler, now, run.commits);
            let probed = after_probe(looked, now, reachable);
            if !push_due(run.scheduler, now, run.commits) {
                PushRunView { scheduler: looked, ..run }
            } else if !reachable {
                PushRunView { scheduler: probed, ..run }
            } else {
                PushRunView {
                    scheduler: after_push(probed, now, push_result(reply)),
                    commits: left_to_push(run.commits, push_result(reply)),
                }
            }
        },
    }
}

/// A scheduler that was started at `start`, after these events.
pub open spec fn run_after(config: ConfigView, start: int, events: Seq<PushEvent>) -> PushRunView
    decreases events.len(),
{
    if events.len() == 0 {
        PushRunView { scheduler: started(config, start), commits: 0 }
    } else {
        after_event(run_after(config, start, events.drop_last()), events.last())
    }
}

/// Since when commits wait for the interval: the start, the last push that was made, or the last
/// time that the scheduler woke up and found no commits, whichever came last.
pub open spec fn waiting_since(config: ConfigView, start: int, events: Seq<PushEvent>) -> int
    decreases events.len(),
{
    if events.len() == 0 {
        start
    } else {
        let before = run_after(config, start, events.drop_last());
        match events.last() {
            PushEvent::Woke { now, .. } => if before.commits == 0 || attempted(
                before,
                events.last(),
            ) is Made {
                now
            } else {
                waiting_since(config, start, events.drop_last())
            },
            _ => waiting_since(config, start, events.drop_last()),
        }
    }
}

/// When the attempts were made that have failed since the last push, or since the start.
pub open spec fn failures_in_a_row(config: ConfigView, start: int, events: Seq<PushEvent>) -> Seq<
    int,
>
    decreases events.len(),
{
    if events.len() == 0 {
        Seq::empty()
    } else {
        let before = failures_in_a_row(config, start, events.drop_last());
        match (
            events.last(),
            attempted(run_after(config, start, events.drop_last()), events.last()),
        ) {
            (PushEvent::Woke { now, .. }, Attempt::Failed) => before.push(now),
            (PushEvent::Woke { .. }, Attempt::Made) => Seq::empty(),
            _ => before,
        }
    }
}

/// When the last push was made; the start, if there was none.
pub open spec fn last_push(config: ConfigView, start: int, events: Seq<PushEvent>) -> int
    decreases events.len(),
{
    if events.len() == 0 {
        start
    } else {
        match (
            events.last(),
            attempted(run_after(config, start, events.drop_last()), events.last()),
        ) {
            (PushEvent::Woke { now, .. }, Attempt::Made) => now,
            _ => last_push(config, start, events.drop_last()),
        }
    }
}

/// The settings of a scheduler stay as they were at its start.
proof fn lemma_settings_stay(config: ConfigView, start: int, events: Seq<PushEvent>)
    ensures
        ({
            let now = run_after(config, start, events).scheduler;
            let first = started(config, start);
            now.interval == first.interval && now.threshold == first.threshold
                && now.base_backoff == first.base_backoff
        }),
    decreases events.len(),
{
    if events.len() > 0 {
        lemma_settings_stay(config, start, events.drop_last());
    }
}

/// At all times the wait ends one interval after the start, after the last push that was made, or
/// after the last time that no commits were found, whichever came last.
pub proof fn law_wait_starts_anew(config: ConfigView, start: int, events: Seq<PushEvent>)
    ensures
        run_after(config, start, events).scheduler.interval_deadline == later(
            waiting_since(config, start, events),
            at_least_one(config.push_interval_sec as int),
        ),
    decreases events.len(),
{
    if events.len() > 0 {
        law_wait_starts_anew(config, start, events.drop_last());
        lemma_settings_stay(config, start, events.drop_last());
    }
}

/// After failures in a row, the pause has doubled with each of them, and no attempt is due before
/// the pause that followed the last of them is over. Where there is no failure, the pause is the
/// first one, and none is waited for.
pub proof fn law_failures_in_a_row_pause_longer(
    config: ConfigView,
    start: int,
    events: Seq<PushEvent>,
)
    ensures
        ({
            let scheduler = run_after(config, start, events).scheduler;
            let base = at_least_one(config.push_backoff_base_sec as int);
            let failures = failures_in_a_row(config, start, events);
            &&& scheduler.backoff == backoff_after(base, MAX_BACKOFF_SEC as int, failures.len())
            &&& scheduler.retry_deadline == (if failures.len() == 0 {
                last_push(config, start, events)
            } else {
                later(
                    failures.last(),
                    backoff_after(base, MAX_BACKOFF_SEC as int, (failures.len() - 1) as nat),
                )
            })
        }),
    decreases events.len(),
{
    if events.len() > 0 {
        law_failures_in_a_row_pause_longer(config, start, events.drop_last());
        lemma_settings_stay(config, start, events.drop_last());
    }
}

/// Behind `k` failures in a row, the last of them at time `t`, no push is tried before
/// `t + min(base * 2^(k - 1), bound)`, however many commits wait.
pub proof fn law_no_attempt_before_the_pause_is_over(
    config: ConfigView,
    start: int,
    events: Seq<PushEvent>,
    now: int,
    reachable: bool,
    reply: ReplyView,
)
    requires
        failures_in_a_row(config, start, events).len() > 0,
        at_least_one(config.push_backoff_base_sec as int) <= MAX_BACKOFF_SEC,
        !(attempted(
            run_after(config, start, events),
            PushEvent::Woke { now, reachable, reply },
        ) is No),
    ensures
        ({
            let failures = failures_in_a_row(config, start, events);
            let grown = at_least_one(config.push_backoff_base_sec as int) * pow2(
                (failures.len() - 1) as nat,
            );
            now >= later(
                failures.last(),
                if grown > MAX_BACKOFF_SEC {
                    MAX_BACKOFF_SEC as int
                } else {
                    grown
                },
            )
        }),
{
    let failures = failures_in_a_row(config, start, events);
    law_failures_in_a_row_pause_longer(config, start, events);
    law_backoff_doubles_and_caps(
        at_least_one(config.push_backoff_base_sec as int),
        MAX_BACKOFF_SEC as int,
        (failures.len() - 1) as nat,
    );
}

/// When the scheduler wakes up with no failure to wait for, and time has not gone back behind the
/// last push, one push is sent exactly where commits wait, enough of them or for long enough, and
/// the remote can be reached. Where it is answered without an error, no commits wait afterwards,
/// and the next failure pauses as long as the very first.
pub proof fn law_push_is_sent_exactly_when_due(
    config: ConfigView,
    start: int,
    events: Seq<PushEvent>,
    now: int,
    reachable: bool,
    reply: ReplyView,
)
    requires
        failures_in_a_row(config, start, events).len() == 0,
        now >= last_push(config, start, events),
    ensures
        ({
            let run = run_after(config, start, events);
            let event = PushEvent::Woke { now, reachable, reply };
            let interval = at_least_one(config.push_interval_sec as int);
            let threshold = at_least_one(config.push_commit_threshold as int);
            &&& sends_push(run, event) == (reachable && run.commits > 0 && (run.commits
                >= threshold || now >= later(waiting_since(config, start, events), interval)))
            &&& sends_push(run, event) && push_result(reply) is Ok ==> {
                let after = run_after(config, start, events.push(event));
                &&& after.commits == 0
                &&& after.scheduler.backoff == at_least_one(config.push_backoff_base_sec as int)
            }
        }),
{
    let event = PushEvent::Woke { now, reachable, reply };
    law_wait_starts_anew(config, start, events);
    law_failures_in_a_row_pause_longer(config, start, events);
    lemma_settings_stay(config, start, events);
    assert(events.push(event).drop_last() =~= events);
}

/// An attempt that fails leaves the commits waiting, and one for which the remote cannot be reached
/// sends no push.
pub proof fn law_failed_attempt_keeps_the_commits(run: PushRunView, event: PushEvent)
    requires
        attempted(run, event) is Failed,
    ensures
        after_event(run, event).commits == run.commits,
        event matches PushEvent::Woke { reachable, .. } && (!reachable ==> !sends_push(run, event)),
{
}

/// A remote that git listed can be reached, whatever git printed.
pub proof fn law_listed_remote_is_reachable(
    code: Option<i32>,
    stdout: Vec<u8>,
    stderr: Vec<u8>,
)
    ensures
        reachable(GitOutcome::Exited { success: true, code, stdout, stderr }),
{
}

/// A remote that git did not list can be reached only where git says, by its exit code, that there
/// is nothing to list, and does not complain of the remote. What it lists does not matter.
pub proof fn law_unlisted_remote_is_reachable_only_without_complaint(
    code: Option<i32>,
    stdout: Vec<u8>,
    stderr: Vec<u8>,
    source: String,
    before: Seq<char>,
    phrase: Seq<char>,
    behind: Seq<char>,
)
    ensures
        ({
            let outcome = GitOutcome::Exited { success: false, code, stdout, stderr };
            let complaint = lower_case(decoded(stderr@));
            let phrases = seq![
                "could not resolve host"@,
                "could not read from remote repository"@,
                "does not appear to be a git repository"@,
                "repository not found"@,
            ];
            &&& !reachable(GitOutcome::NotStarted(source))
            &&& code != Some(2i32) ==> !reachable(outcome)
            &&& phrases.contains(phrase) && complaint == before + phrase + behind ==> !reachable(
                outcome,
            )
            &&& code == Some(2i32) && (forall|i: int|
                0 <= i < phrases.len() ==> !occurs_in(#[trigger] phrases[i], complaint))
                ==> reachable(outcome)
        }),
{
    let complaint = lower_case(decoded(stderr@));
    let phrases = seq![
        "could not resolve host"@,
        "could not read from remote repository"@,
        "does not appear to be a git repository"@,
        "repository not found"@,
    ];
    law_occurrence_has_something_around_it(before, phrase, behind, complaint);
    assert(phrases[0] == "could not resolve host"@ && phrases[1]
        == "could not read from remote repository"@ && phrases[2]
        == "does not appear to be a git repository"@ && phrases[3] == "repository not found"@);
}

/// A push that is answered comes to its answer; one that is not is an error that tells why.
pub proof fn law_push_comes_to_its_answer(
    text: Seq<char>,
    error: ErrorView,
    source: Seq<char>,
)
    ensures
        push_result(ReplyView::Answer(Ok(text))) is Ok,
        push_result(ReplyView::Answer(Err(error))) == Err::<(), ErrorView>(error),
        push_result(ReplyView::NotSent(source)) matches Err(told) && told.kind == ErrorKind::Git
            && told.message == "failed to enqueue push command: "@ + source,
        push_result(ReplyView::NoAnswer(source)) matches Err(told) && told.kind == ErrorKind::Git
            && told.message == "failed to receive push command result: "@ + source,
{
}

/// A setting that is nothing counts as one, and every other as it is.
pub proof fn law_settings_count_as_given(config: ConfigView, now: int)
    requires
        config.push_interval_sec >= 1,
        config.push_commit_threshold >= 1,
        config.push_backoff_base_sec >= 1,
    ensures
        started(config, now).interval == config.push_interval_sec,
        started(config, now).threshold == config.push_commit_threshold,
        started(config, now).base_backoff == config.push_backoff_base_sec,
        started(config, now).backoff == config.push_backoff_base_sec,
        started(ConfigView { push_interval_sec: 0, ..config }, now).interval == 1,
        started(ConfigView { push_commit_threshold: 0, ..config }, now).threshold == 1,
        started(ConfigView { push_backoff_base_sec: 0, ..config }, now).base_backoff == 1,
        started(ConfigView { push_backoff_base_sec: 0, ..config }, now).backoff == 1,
{
}

/// Before the first attempt a push is called for exactly where a commit waits and either as many
/// as the threshold or the whole interval since the start.
pub proof fn law_first_push_is_called_for(
    config: ConfigView,
    start: int,
    now: int,
    commits: int,
)
    requires
        config.push_interval_sec >= 1,
        config.push_commit_threshold >= 1,
        start <= now,
    ensures
        push_due(started(config, start), now, commits) <==> commits >= 1 && (commits
            >= config.push_commit_threshold || now - start >= config.push_interval_sec
            * 1_000_000_000),
{
}

/// After a failure a push is called for again once the pause is over, and after a push once the
/// interval is over or enough commits wait.
pub proof fn law_next_push_is_called_for(
    before: SchedulerView,
    at: int,
    now: int,
    commits: int,
)
    requires
        at <= now,
    ensures
        push_due(failed(before, at), now, commits) <==> commits >= 1 && now - at >= before.backoff
            * 1_000_000_000 && (commits >= before.threshold || now >= before.interval_deadline),
        push_due(succeeded(before, at), now, commits) <==> commits >= 1 && (commits
            >= before.threshold || now - at >= before.interval * 1_000_000_000),
        commits >= 1 ==> ticked(before, at, commits) == before,
        push_due(ticked(before, at, 0), now, commits) <==> commits >= 1 && now
            >= before.retry_deadline && (commits >= before.threshold || now - at >= before.interval
            * 1_000_000_000),
        ticked(before, at, 0).backoff == before.backoff,
        ticked(before, at, 0).threshold == before.threshold,
        ticked(before, at, 0).interval == before.interval,
        ticked(before, at, 0).base_backoff == before.base_backoff,
        succeeded(before, at).backoff == before.base_backoff,
        succeeded(before, at).threshold == before.threshold,
        succeeded(before, at).interval == before.interval,
        failed(before, at).threshold == before.threshold,
        failed(before, at).interval == before.interval,
        failed(before, at).base_backoff == before.base_backoff,
{
}

/// The pause after a failure is twice the one before, but never more than a quarter of an hour.
pub proof fn law_pause_is_at_most_a_quarter_of_an_hour(before: SchedulerView, at: int)
    ensures
        2 * before.backoff <= 15 * 60 ==> failed(before, at).backoff == 2 * before.backoff,
        2 * before.backoff > 15 * 60 ==> failed(before, at).backoff == 15 * 60,
{
}

/// Behind failures in a row one push is sent exactly where the pause that followed the last of
/// them is over, commits wait, enough of them or for long enough, and the remote can be reached.
pub proof fn law_push_is_sent_again_behind_failures(
    config: ConfigView,
    start: int,
    events: Seq<PushEvent>,
    now: int,
    reachable: bool,
    reply: ReplyView,
)
    requires
        failures_in_a_row(config, start, events).len() > 0,
        1 <= config.push_backoff_base_sec <= 900,
        config.push_interval_sec >= 1,
        config.push_commit_threshold >= 1,
    ensures
        ({
            let run = run_after(config, start, events);
            let failures = failures_in_a_row(config, start, events);
            let grown = config.push_backoff_base_sec * pow2((failures.len() - 1) as nat);
            let pause = if grown > 900 {
                900int
            } else {
                grown
            };
            sends_push(run, PushEvent::Woke { now, reachable, reply }) <==> {
                &&& reachable
                &&& run.commits >= 1
                &&& now - failures.last() >= pause * 1_000_000_000
                &&& run.commits >= config.push_commit_threshold || now - waiting_since(
                    config,
                    start,
                    events,
                ) >= config.push_interval_sec * 1_000_000_000
            }
        }),
{
    let failures = failures_in_a_row(config, start, events);
    law_wait_starts_anew(config, start, events);
    law_failures_in_a_row_pause_longer(config, start, events);
    lemma_settings_stay(config, start, events);
    law_backoff_doubles_and_caps(
        config.push_backoff_base_sec as int,
        900,
        (failures.len() - 1) as nat,
    );
}

/// A push that was answered without an error leaves no commits waiting; any other reply leaves them
/// all, and so does a remote that cannot be reached. Either failure pauses the next attempt alike.
pub proof fn law_only_a_push_that_was_made_clears_the_commits(
    before: SchedulerView,
    now: int,
    commits: int,
    text: Seq<char>,
    reply: ReplyView,
)
    ensures
        left_to_push(commits, push_result(ReplyView::Answer(Ok(text)))) == 0,
        !(reply matches ReplyView::Answer(Ok(_))) ==> left_to_push(commits, push_result(reply))
            == commits,
        !(reply matches ReplyView::Answer(Ok(_))) ==> after_push(before, now, push_result(reply))
            == after_probe(before, now, false),
        after_push(before, now, push_result(ReplyView::Answer(Ok(text)))).backoff
            == before.base_backoff,
        after_probe(before, now, false).retry_deadline == now + before.backoff * 1_000_000_000,
        after_probe(before, now, true) == before,
{
}

} // verus!
