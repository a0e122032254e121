//! The one place that changes the repository: it takes commands one at a time, runs git for
//! each, and answers before it takes the next.
use vstd::prelude::*;

use crate::counter::counted;
use crate::error::{text_view, unit_view, watcher_error, Error, ErrorKind, ErrorView};
use crate::git::{
    add_all_call, commit_call, commit_path_call, concluded, create_branch_call, head_call,
    law_files_are_called_by_their_name_inside, law_output_is_handed_back, system_call, text_call,
    CallView, GitCall, GitOutcome, GitRepo,
};
use crate::paths::is_plain;
use crate::text::{
    all_white_space, decoded, is_line_end, is_white_space, law_trimming_takes_white_space_around,
    law_white_space_is_these_characters, trim, trimmed, without_line_ends, without_tail,
};

verus! {

/// What can be asked of the repository.
#[derive(Debug, PartialEq, Eq)]
pub enum GitCommand {
    Add { path: String },
    Commit { message: String },
    CommitPath { path: String, message: String },
    Push { remote: String },
    Tag { name: String },
    CheckoutBranch { name: String },
    MergeSquash { from: String },
    CreateBranch { name: String, start_point: Option<String> },
    Status,
    Barrier,
    Shutdown,
}

/// What can be asked of the repository, as characters.
pub enum CommandView {
    Add { path: Seq<char> },
    Commit { message: Seq<char> },
    CommitPath { path: Seq<char>, message: Seq<char> },
    Push { remote: Seq<char> },
    Tag { name: Seq<char> },
    CheckoutBranch { name: Seq<char> },
    MergeSquash { from: Seq<char> },
    CreateBranch { name: Seq<char>, start_point: Option<Seq<char>> },
    Status,
    Barrier,
    Shutdown,
}

/// The characters of a text that may be missing.
pub open spec fn option_view(text: Option<String>) -> Option<Seq<char>> {
    match text {
        Some(text) => Some(text@),
        None => None,
    }
}

impl View for GitCommand {
    type V = CommandView;

    open spec fn view(&self) -> CommandView {
        match self {
            GitCommand::Add { path } => CommandView::Add { path: path@ },
            GitCommand::Commit { message } => CommandView::Commit { message: message@ },
            GitCommand::CommitPath { path, message } => CommandView::CommitPath {
                path: path@,
                message: message@,
            },
            GitCommand::Push { remote } => CommandView::Push { remote: remote@ },
            GitCommand::Tag { name } => CommandView::Tag { name: name@ },
            GitCommand::CheckoutBranch { name } => CommandView::CheckoutBranch { name: name@ },
            GitCommand::MergeSquash { from } => CommandView::MergeSquash { from: from@ },
            GitCommand::CreateBranch { name, start_point } => CommandView::CreateBranch {
                name: name@,
                start_point: option_view(*start_point),
            },
            GitCommand::Status => CommandView::Status,
            GitCommand::Barrier => CommandView::Barrier,
            GitCommand::Shutdown => CommandView::Shutdown,
        }
    }
}

/// What came of a command: it could not be handed over, no answer came, or this answer came.
#[derive(Debug)]
pub enum CommandReply {
    NotSent(String),
    NoAnswer(String),
    Answer(Result<String, Error>),
}

/// What came of a command, as characters.
pub enum ReplyView {
    NotSent(Seq<char>),
    NoAnswer(Seq<char>),
    Answer(Result<Seq<char>, ErrorView>),
}

impl View for CommandReply {
    type V = ReplyView;

    open spec fn view(&self) -> ReplyView {
        match self {
            CommandReply::NotSent(source) => ReplyView::NotSent(source@),
            CommandReply::NoAnswer(source) => ReplyView::NoAnswer(source@),
            CommandReply::Answer(result) => ReplyView::Answer(text_view(*result)),
        }
    }
}

/// What is left to do with a git command's outcome.
#[derive(Debug)]
enum After {
    /// Hand back its output.
    Output,
    /// Hand back that it is done.
    Nothing,
    /// It committed: ask for the commit's name.
    Name(GitCall),
    /// It named the commit: hand the name back.
    Committed,
}

/// What is left to do with a git command's outcome, as characters.
pub enum AfterView {
    Output,
    Nothing,
    Name(CallView),
    Committed,
}

/// A git command that the executor waits for.
#[derive(Debug)]
pub struct GitRun {
    call: GitCall,
    after: After,
}

/// A git command that the executor waits for, as characters.
#[verifier::ext_equal]
pub struct RunView {
    pub call: CallView,
    pub after: AfterView,
}

impl View for GitRun {
    type V = RunView;

    closed spec fn view(&self) -> RunView {
        RunView {
            call: self.call@,
            after: match self.after {
                After::Output => AfterView::Output,
                After::Nothing => AfterView::Nothing,
                After::Name(call) => AfterView::Name(call@),
                After::Committed => AfterView::Committed,
            },
        }
    }
}

/// What the executor does next: run git, or answer. An answer says whether a commit was made,
/// which counts toward the next push, and whether the executor ends.
#[derive(Debug)]
pub enum ExecutorStep {
    Run(GitRun),
    Reply { result: Result<String, Error>, committed: bool, stop: bool },
}

/// What the executor does next, as characters.
pub enum StepView {
    Run(RunView),
    Reply { result: Result<Seq<char>, ErrorView>, committed: bool, stop: bool },
}

impl View for ExecutorStep {
    type V = StepView;

    open spec fn view(&self) -> StepView {
        match self {
            ExecutorStep::Run(run) => StepView::Run(run@),
            ExecutorStep::Reply { result, committed, stop } => StepView::Reply {
                result: text_view(*result),
                committed: *committed,
                stop: *stop,
            },
        }
    }
}

/// An answer that neither counts as a commit nor ends the executor.
pub open spec fn plain_reply(result: Result<Seq<char>, ErrorView>) -> StepView {
    StepView::Reply { result, committed: false, stop: false }
}

/// Runs a command and goes on as `after` says.
pub open spec fn run_then(call: CallView, after: AfterView) -> StepView {
    StepView::Run(RunView { call, after })
}

/// What the executor does with a command.
pub open spec fn accepted(repo: Seq<char>, command: CommandView) -> StepView {
    match command {
        CommandView::Add { path } => match add_all_call(repo, path) {
            Ok(call) => run_then(call, AfterView::Nothing),
            Err(error) => plain_reply(Err(error)),
        },
        CommandView::Commit { message } => run_then(
            commit_call(repo, message),
            AfterView::Name(head_call(repo)),
        ),
        CommandView::CommitPath { path, message } => match commit_path_call(repo, message, path) {
            Ok(call) => run_then(call, AfterView::Name(head_call(repo))),
            Err(error) => plain_reply(Err(error)),
        },
        CommandView::Push { remote } => run_then(
            system_call(repo, seq!["push"@, remote, "HEAD"@]),
            AfterView::Nothing,
        ),
        CommandView::Tag { name } => run_then(
            system_call(repo, seq!["tag"@, name]),
            AfterView::Nothing,
        ),
        CommandView::CheckoutBranch { name } => run_then(
            system_call(repo, seq!["checkout"@, name]),
            AfterView::Nothing,
        ),
        CommandView::MergeSquash { from } => run_then(
            system_call(repo, seq!["merge"@, "--squash"@, from]),
            AfterView::Nothing,
        ),
        CommandView::CreateBranch { name, start_point } => run_then(
            create_branch_call(repo, name, start_point),
            AfterView::Nothing,
        ),
        CommandView::Status => run_then(
            text_call(repo, seq!["status"@, "--porcelain"@]),
            AfterView::Output,
        ),
        CommandView::Barrier => plain_reply(Ok(Seq::empty())),
        CommandView::Shutdown => StepView::Reply {
            result: Ok(Seq::empty()),
            committed: false,
            stop: true,
        },
    }
}

/// What the executor does when git handed something back.
pub open spec fn continued(after: AfterView, handed: Result<Seq<char>, ErrorView>) -> StepView {
    match handed {
        Err(error) => plain_reply(Err(error)),
        Ok(text) => match after {
            AfterView::Output => plain_reply(Ok(text)),
            AfterView::Nothing => plain_reply(Ok(Seq::empty())),
            AfterView::Name(call) => run_then(call, AfterView::Committed),
            AfterView::Committed => StepView::Reply {
                result: Ok(trimmed(text)),
                committed: true,
                stop: false,
            },
        },
    }
}

/// What the executor does with the outcome of a git command.
pub open spec fn resumed(run: RunView, outcome: GitOutcome) -> StepView {
    continued(run.after, concluded(run.call, outcome))
}

fn reply(result: Result<String, Error>) -> (step: ExecutorStep)
    ensures
        step@ == plain_reply(text_view(result)),
{
    ExecutorStep::Reply { result, committed: false, stop: false }
}

fn run(call: GitCall, after: After) -> (step: ExecutorStep)
    ensures
        step@ == StepView::Run((GitRun { call, after })@),
{
    ExecutorStep::Run(GitRun { call, after })
}

impl GitRun {
    /// The command to run.
    pub fn call(&self) -> (call: &GitCall)
        ensures
            call@ == self@.call,
    {
        &self.call
    }

    /// What the executor does now that the command handed this back.
    pub fn proceed(self, handed: Result<String, Error>) -> (step: ExecutorStep)
        ensures
            step@ == continued(self@.after, text_view(handed)),
    {
        match handed {
            Err(error) => reply(Err(error)),
            Ok(text) => match self.after {
                After::Output => reply(Ok(text)),
                After::Nothing => reply(Ok(String::new())),
                After::Name(call) => run(call, After::Committed),
                After::Committed => ExecutorStep::Reply {
                    result: Ok(trim(text.as_str())),
                    committed: true,
                    stop: false,
                },
            },
        }
    }

    /// What the executor does now that the command ended.
    pub fn resume(self, outcome: &GitOutcome) -> (step: ExecutorStep)
        ensures
            step@ == resumed(self@, *outcome),
    {
        let handed: Result<String, Error> = self.call.conclude(outcome);
        self.proceed(handed)
    }
}

/// The executor of one repository.
#[derive(Debug)]
pub struct GitExecutor {
    repo: GitRepo,
}

impl View for GitExecutor {
    type V = Seq<char>;

    closed spec fn view(&self) -> Seq<char> {
        self.repo@
    }
}

impl GitExecutor {
    /// The executor of a repository.
    pub fn start(repo: GitRepo) -> (executor: Self)
        ensures
            executor@ == repo@,
    {
        GitExecutor { repo }
    }

    /// What the executor does with a command.
    pub fn accept(&self, command: GitCommand) -> (step: ExecutorStep)
        ensures
            step@ == accepted(self@, command@),
    {
        match command {
            GitCommand::Add { path } => match self.repo.add_all(path.as_str()) {
                Ok(call) => run(call, After::Nothing),
                Err(error) => reply(Err(error)),
            },
            GitCommand::Commit { message } => run(
                self.repo.commit(message.as_str()),
                After::Name(self.repo.head()),
            ),
            GitCommand::CommitPath { path, message } => match self.repo.commit_path(
                message.as_str(),
                path.as_str(),
            ) {
                Ok(call) => run(call, After::Name(self.repo.head())),
                Err(error) => reply(Err(error)),
            },
            GitCommand::Push { remote } => run(self.repo.push(remote.as_str()), After::Nothing),
            GitCommand::Tag { name } => run(self.repo.tag(name.as_str()), After::Nothing),
            GitCommand::CheckoutBranch { name } => run(
                self.repo.checkout_branch(name.as_str()),
                After::Nothing,
            ),
            GitCommand::MergeSquash { from } => run(
                self.repo.merge_squash(from.as_str()),
                After::Nothing,
            ),
            GitCommand::CreateBranch { name, start_point } => {
                let start: Option<&str> = match &start_point {
                    Some(start) => Some(start.as_str()),
                    None => None,
                };
                run(self.repo.create_branch(name.as_str(), start), After::Nothing)
            },
            GitCommand::Status => run(self.repo.status(), After::Output),
            GitCommand::Barrier => reply(Ok(String::new())),
            GitCommand::Shutdown => ExecutorStep::Reply {
                result: Ok(String::new()),
                committed: false,
                stop: true,
            },
        }
    }

    /// What stopping the executor comes to.
    pub fn stop(reply: CommandReply, ended: bool) -> (result: Result<(), Error>)
        ensures
            unit_view(result) == stop_result(reply@, ended),
    {
        match reply {
            CommandReply::NotSent(source) => {
                let mut message: String = "failed to send shutdown command: ".to_owned();
                message.append(source.as_str());
                Err(Error::Watcher(message))
            },
            CommandReply::NoAnswer(source) => {
                let mut message: String =
                    "failed to receive shutdown acknowledgment from executor: ".to_owned();
                message.append(source.as_str());
                Err(Error::Watcher(message))
            },
            CommandReply::Answer(_) => if ended {
                Ok(())
            } else {
                Err(Error::Watcher("git executor thread panicked".to_owned()))
            },
        }
    }
}

/// What stopping the executor comes to: the reply to [`GitCommand::Shutdown`] and whether the
/// thread behind the executor ended without a panic decide.
pub open spec fn stop_result(reply: ReplyView, ended: bool) -> Result<(), ErrorView> {
    match reply {
        ReplyView::NotSent(source) => Err(
            watcher_error("failed to send shutdown command: "@ + source),
        ),
        ReplyView::NoAnswer(source) => Err(
            watcher_error(
                "failed to receive shutdown acknowledgment from executor: "@ + source,
            ),
        ),
        ReplyView::Answer(_) => if ended {
            Ok(())
        } else {
            Err(watcher_error("git executor thread panicked"@))
        },
    }
}

/// What the executor does with a command when git's outcomes are these, one for each time it
/// runs git.
pub open spec fn handled(step: StepView, outcomes: Seq<GitOutcome>) -> StepView
    decreases outcomes.len(),
{
    match step {
        StepView::Run(run) => if outcomes.len() == 0 {
            step
        } else {
            handled(resumed(run, outcomes.first()), outcomes.drop_first())
        },
        StepView::Reply { .. } => step,
    }
}

/// The command makes a commit.
pub open spec fn makes_commit(command: CommandView) -> bool {
    command is Commit || command is CommitPath
}

/// Two outcomes of git are enough for every command to be answered.
pub proof fn law_every_command_is_answered(
    repo: Seq<char>,
    command: CommandView,
    outcomes: Seq<GitOutcome>,
)
    requires
        outcomes.len() >= 2,
    ensures
        handled(accepted(repo, command), outcomes) is Reply,
{
    reveal_with_fuel(handled, 3);
}

/// A commit is counted exactly when a command that makes one is answered with its name.
pub proof fn law_only_made_commits_count(
    repo: Seq<char>,
    command: CommandView,
    outcomes: Seq<GitOutcome>,
)
    requires
        outcomes.len() >= 2,
    ensures
        handled(accepted(repo, command), outcomes) matches StepView::Reply { result, committed, .. }
            && committed == (makes_commit(command) && result is Ok),
{
    reveal_with_fuel(handled, 3);
}

/// Only a request to shut down ends the executor, and it does.
pub proof fn law_only_shutdown_ends(
    repo: Seq<char>,
    command: CommandView,
    outcomes: Seq<GitOutcome>,
)
    requires
        outcomes.len() >= 2,
    ensures
        handled(accepted(repo, command), outcomes) matches StepView::Reply { stop, .. } && stop == (
        command is Shutdown),
{
    reveal_with_fuel(handled, 3);
}

/// What a queue of commands comes to: the answers in their order, how many commits they tell of,
/// and whether the executor has ended.
pub struct ServedView {
    pub replies: Seq<Result<Seq<char>, ErrorView>>,
    pub commits: nat,
    pub stopped: bool,
}

/// What a queue of commands comes to, where `outcomes[i]` are git's outcomes for the command
/// number `i`. An executor that has ended takes no further command.
pub open spec fn served(
    repo: Seq<char>,
    commands: Seq<CommandView>,
    outcomes: Seq<Seq<GitOutcome>>,
) -> ServedView
    decreases commands.len(),
{
    if commands.len() == 0 {
        ServedView { replies: Seq::empty(), commits: 0, stopped: false }
    } else {
        let count = commands.len() - 1;
        let before = served(repo, commands.drop_last(), outcomes);
        if before.stopped {
            before
        } else {
            match handled(accepted(repo, commands[count]), outcomes[count]) {
                StepView::Reply { result, committed, stop } => ServedView {
                    replies: before.replies.push(result),
                    commits: if committed {
                        before.commits + 1
                    } else {
                        before.commits
                    },
                    stopped: stop,
                },
                StepView::Run(_) => before,
            }
        }
    }
}

/// The answer that a command gets by itself.
pub open spec fn own_answer(
    repo: Seq<char>,
    command: CommandView,
    outcomes: Seq<GitOutcome>,
) -> Result<Seq<char>, ErrorView> {
    handled(accepted(repo, command), outcomes)->result
}

/// How many of the commands make a commit and are answered without an error.
pub open spec fn commits_made(
    repo: Seq<char>,
    commands: Seq<CommandView>,
    outcomes: Seq<Seq<GitOutcome>>,
) -> nat
    decreases commands.len(),
{
    if commands.len() == 0 {
        0
    } else {
        let count = commands.len() - 1;
        let before = commits_made(repo, commands.drop_last(), outcomes);
        if makes_commit(commands[count]) && own_answer(
            repo,
            commands[count],
            outcomes[count],
        ) is Ok {
            before + 1
        } else {
            before
        }
    }
}

/// Git has an outcome for each time that a command can run it.
pub open spec fn enough_outcomes(count: nat, outcomes: Seq<Seq<GitOutcome>>) -> bool {
    &&& count <= outcomes.len()
    &&& forall|i: int| 0 <= i < count ==> (#[trigger] outcomes[i]).len() >= 2
}

/// None of the commands ends the executor.
pub open spec fn none_ends(commands: Seq<CommandView>) -> bool {
    forall|i: int| 0 <= i < commands.len() ==> !(#[trigger] commands[i] is Shutdown)
}

/// Commands of which none ends the executor are answered in their order, each with its own result,
/// and all commits among them are counted.
pub proof fn law_commands_are_answered_in_order(
    repo: Seq<char>,
    commands: Seq<CommandView>,
    outcomes: Seq<Seq<GitOutcome>>,
)
    requires
        none_ends(commands),
        enough_outcomes(commands.len(), outcomes),
    ensures
        ({
            let all = served(repo, commands, outcomes);
            &&& all.replies.len() == commands.len()
            &&& forall|i: int|
                0 <= i < commands.len() ==> #[trigger] all.replies[i] == own_answer(
                    repo,
                    commands[i],
                    outcomes[i],
                )
            &&& all.commits == commits_made(repo, commands, outcomes)
            &&& !all.stopped
        }),
    decreases commands.len(),
{
    if commands.len() > 0 {
        let rest = commands.drop_last();
        let last = commands.len() - 1;
        assert forall|i: int| 0 <= i < rest.len() implies !(#[trigger] rest[i] is Shutdown) by {
            assert(rest[i] == commands[i]);
        }
        law_commands_are_answered_in_order(repo, rest, outcomes);
        assert(outcomes[last].len() >= 2);
        assert(!(commands[last] is Shutdown));
        law_only_made_commits_count(repo, commands[last], outcomes[last]);
        law_only_shutdown_ends(repo, commands[last], outcomes[last]);
        let before = served(repo, rest, outcomes);
        let all = served(repo, commands, outcomes);
        assert forall|i: int| 0 <= i < commands.len() implies #[trigger] all.replies[i]
            == own_answer(repo, commands[i], outcomes[i]) by {
            if i < last {
                assert(all.replies[i] == before.replies[i]);
                assert(rest[i] == commands[i]);
            }
        }
    }
}

/// A barrier is answered behind all commands before it: by then each of them has been answered with
/// its own result, and their commits are counted.
pub proof fn law_barrier_is_answered_behind_all_before(
    repo: Seq<char>,
    commands: Seq<CommandView>,
    outcomes: Seq<Seq<GitOutcome>>,
)
    requires
        none_ends(commands),
        enough_outcomes(commands.len() + 1, outcomes),
    ensures
        ({
            let before = served(repo, commands, outcomes);
            let all = served(repo, commands.push(CommandView::Barrier), outcomes);
            &&& before.replies.len() == commands.len()
            &&& all.replies == before.replies.push(Ok(Seq::empty()))
            &&& all.commits == before.commits == commits_made(repo, commands, outcomes)
            &&& !all.stopped
        }),
{
    law_commands_are_answered_in_order(repo, commands, outcomes);
    assert(commands.push(CommandView::Barrier).drop_last() =~= commands);
}

/// The request to shut down ends the executor: it is answered, what was answered and counted before
/// it stays, and nothing behind it is answered or counted.
pub proof fn law_nothing_is_done_behind_shutdown(
    repo: Seq<char>,
    commands: Seq<CommandView>,
    behind: Seq<CommandView>,
    outcomes: Seq<Seq<GitOutcome>>,
)
    requires
        none_ends(commands),
        enough_outcomes(commands.len() + 1, outcomes),
    ensures
        ({
            let before = served(repo, commands, outcomes);
            let all = served(repo, commands.push(CommandView::Shutdown) + behind, outcomes);
            &&& all.replies == before.replies.push(Ok(Seq::empty()))
            &&& all.commits == before.commits == commits_made(repo, commands, outcomes)
            &&& all.stopped
        }),
    decreases behind.len(),
{
    let ended = commands.push(CommandView::Shutdown);
    if behind.len() == 0 {
        law_commands_are_answered_in_order(repo, commands, outcomes);
        assert(ended + behind =~= ended);
        assert(ended.drop_last() =~= commands);
    } else {
        law_nothing_is_done_behind_shutdown(repo, commands, behind.drop_last(), outcomes);
        assert((ended + behind).drop_last() =~= ended + behind.drop_last());
    }
}

/// The counter of the commits that wait, after it took in each answer to a queue of commands.
pub open spec fn count_after(
    waiting: int,
    repo: Seq<char>,
    commands: Seq<CommandView>,
    outcomes: Seq<Seq<GitOutcome>>,
) -> int
    decreases commands.len(),
{
    if commands.len() == 0 {
        waiting
    } else {
        let count = commands.len() - 1;
        let rest = commands.drop_last();
        let before = count_after(waiting, repo, rest, outcomes);
        if served(repo, rest, outcomes).stopped {
            before
        } else {
            match handled(accepted(repo, commands[count]), outcomes[count]) {
                StepView::Reply { committed, .. } => counted(before, committed),
                StepView::Run(_) => before,
            }
        }
    }
}

/// The counter grows by the number of commits that the answers tell of, as long as the machine has
/// a number for that.
pub proof fn law_counter_grows_by_the_commits(
    waiting: int,
    repo: Seq<char>,
    commands: Seq<CommandView>,
    outcomes: Seq<Seq<GitOutcome>>,
)
    requires
        0 <= waiting,
        waiting + commands.len() <= usize::MAX,
    ensures
        count_after(waiting, repo, commands, outcomes) == waiting + served(
            repo,
            commands,
            outcomes,
        ).commits,
        served(repo, commands, outcomes).commits <= commands.len(),
    decreases commands.len(),
{
    if commands.len() > 0 {
        law_counter_grows_by_the_commits(waiting, repo, commands.drop_last(), outcomes);
    }
}

/// The git command that is run for a command, if one is: its directory and its words.
pub open spec fn runs(step: StepView, repo: Seq<char>, words: Seq<Seq<char>>) -> bool {
    step matches StepView::Run(run) && run.call.dir == repo && run.call.args == words
}

/// The words with which git is run for each command.
pub proof fn law_each_command_runs_git_with_its_words(
    repo: Seq<char>,
    path: Seq<char>,
    message: Seq<char>,
    name: Seq<char>,
    start: Seq<char>,
)
    requires
        is_plain(path),
    ensures
        runs(accepted(repo, CommandView::Add { path }), repo, seq!["add"@, "-A"@, "--"@, path]),
        runs(
            accepted(repo, CommandView::Commit { message }),
            repo,
            seq!["commit"@, "-m"@, message, "--no-gpg-sign"@],
        ),
        runs(
            accepted(repo, CommandView::CommitPath { path, message }),
            repo,
            seq!["commit"@, "-m"@, message, "--no-gpg-sign"@, "--"@, path],
        ),
        runs(
            accepted(repo, CommandView::Push { remote: name }),
            repo,
            seq!["push"@, name, "HEAD"@],
        ),
        runs(accepted(repo, CommandView::Tag { name }), repo, seq!["tag"@, name]),
        runs(accepted(repo, CommandView::CheckoutBranch { name }), repo, seq!["checkout"@, name]),
        runs(
            accepted(repo, CommandView::MergeSquash { from: name }),
            repo,
            seq!["merge"@, "--squash"@, name],
        ),
        runs(
            accepted(repo, CommandView::CreateBranch { name, start_point: Some(start) }),
            repo,
            seq!["branch"@, name, start],
        ),
        runs(
            accepted(repo, CommandView::CreateBranch { name, start_point: None }),
            repo,
            seq!["branch"@, name],
        ),
        runs(accepted(repo, CommandView::Status), repo, seq!["status"@, "--porcelain"@]),
        accepted(repo, CommandView::Barrier) is Reply,
        accepted(repo, CommandView::Shutdown) is Reply,
{
    law_files_are_called_by_their_name_inside(repo, path, path);
}

/// Git ended with success, and printed this text and line ends behind it.
pub open spec fn printed(outcome: GitOutcome, text: Seq<char>) -> bool {
    outcome matches GitOutcome::Exited { success, stdout, .. } && success && exists|tail: Seq<char>|
        decoded(stdout@) == #[trigger] (text + tail) && forall|i: int|
            0 <= i < tail.len() ==> #[trigger] tail[i] == '\n' || tail[i] == '\r'
}

proof fn lemma_printed_is_concluded(call: CallView, outcome: GitOutcome, text: Seq<char>)
    requires
        printed(outcome, text),
        text.len() == 0 || (text.last() != '\n' && text.last() != '\r'),
    ensures
        concluded(call, outcome) == Ok::<Seq<char>, ErrorView>(text),
{
    if let GitOutcome::Exited { success, code, stdout, stderr } = outcome {
        let tail = choose|tail: Seq<char>|
            decoded(stdout@) == #[trigger] (text + tail) && forall|i: int|
                0 <= i < tail.len() ==> #[trigger] tail[i] == '\n' || tail[i] == '\r';
        law_output_is_handed_back(call, code, stdout, stderr, text, tail);
    }
}

/// The status is answered with what git printed, the white space at its start too.
pub proof fn law_status_is_what_git_printed(
    repo: Seq<char>,
    outcome: GitOutcome,
    text: Seq<char>,
)
    requires
        printed(outcome, text),
        text.len() == 0 || (text.last() != '\n' && text.last() != '\r'),
    ensures
        handled(accepted(repo, CommandView::Status), seq![outcome]) == (StepView::Reply {
            result: Ok(text),
            committed: false,
            stop: false,
        }),
{
    reveal_with_fuel(handled, 2);
    let call = text_call(repo, seq!["status"@, "--porcelain"@]);
    lemma_printed_is_concluded(call, outcome, text);
}

proof fn lemma_line_ends_cut(kept: Seq<char>, tail: Seq<char>)
    requires
        kept.len() > 0 && kept.last() != '\n' && kept.last() != '\r',
    ensures
        exists|k: int|
            0 <= k <= tail.len() && without_line_ends(kept + tail) == kept + #[trigger] tail.take(k),
    decreases tail.len(),
{
    let all = kept + tail;
    reveal_with_fuel(without_tail, 2);
    if tail.len() == 0 {
        assert(all =~= kept);
        assert(kept + tail.take(0) =~= kept);
    } else if is_line_end(tail.last()) {
        let rest = tail.drop_last();
        assert(all.last() == tail.last());
        assert(all.drop_last() =~= kept + rest);
        lemma_line_ends_cut(kept, rest);
        let k = choose|k: int|
            0 <= k <= rest.len() && without_line_ends(kept + rest) == kept + #[trigger] rest.take(k);
        assert(rest.take(k) =~= tail.take(k));
    } else {
        assert(all.last() == tail.last());
        assert(tail.take(tail.len() as int) =~= tail);
        assert(without_line_ends(all) == kept + tail.take(tail.len() as int));
    }
}

/// A commit that git made is answered with the name that git gives for the newest commit, without
/// the white space around it, and counts; the name is asked for only then.
pub proof fn law_commit_is_answered_with_its_name(
    repo: Seq<char>,
    command: CommandView,
    made: GitOutcome,
    code: Option<i32>,
    stdout: Vec<u8>,
    stderr: Vec<u8>,
    head: Seq<char>,
    name: Seq<char>,
    tail: Seq<char>,
)
    requires
        command is Commit || (command matches CommandView::CommitPath { path, .. } && is_plain(
            path,
        )),
        made matches GitOutcome::Exited { success, .. } && success,
        decoded(stdout@) == head + name + tail,
        all_white_space(head),
        all_white_space(tail),
        name.len() > 0 && !is_white_space(name.first()) && !is_white_space(name.last()),
    ensures
        ({
            let named = GitOutcome::Exited { success: true, code, stdout, stderr };
            &&& handled(accepted(repo, command), seq![made, named]) == (StepView::Reply {
                result: Ok(name),
                committed: true,
                stop: false,
            })
            &&& runs(
                handled(accepted(repo, command), seq![made]),
                repo,
                seq!["rev-parse"@, "HEAD"@],
            )
        }),
{
    let named = GitOutcome::Exited { success: true, code, stdout, stderr };
    reveal_with_fuel(handled, 3);
    if let CommandView::CommitPath { path, message } = command {
        law_files_are_called_by_their_name_inside(repo, path, path);
    }
    law_white_space_is_these_characters('\n');
    law_white_space_is_these_characters('\r');
    let kept = head + name;
    assert(kept.last() == name.last());
    lemma_line_ends_cut(kept, tail);
    let k = choose|k: int|
        0 <= k <= tail.len() && without_line_ends(kept + tail) == kept + #[trigger] tail.take(k);
    assert forall|i: int| 0 <= i < tail.take(k).len() implies is_white_space(
        #[trigger] tail.take(k)[i],
    ) by {
        assert(tail.take(k)[i] == tail[i]);
    }
    law_trimming_takes_white_space_around(head, name, tail.take(k));
    assert(concluded(head_call(repo), named) == Ok::<Seq<char>, ErrorView>(
        head + name + tail.take(k),
    ));
    assert(seq![made, named].drop_first() =~= seq![named]);
    assert(seq![made].drop_first() =~= Seq::empty());
}

/// Any other command for which git succeeds is answered without a text, whatever git printed.
pub proof fn law_other_commands_are_answered_when_git_succeeds(
    repo: Seq<char>,
    command: CommandView,
    outcome: GitOutcome,
)
    requires
        outcome matches GitOutcome::Exited { success, .. } && success,
        !makes_commit(command),
        !(command is Status),
        !(command is Shutdown),
        command matches CommandView::Add { path } ==> is_plain(path),
    ensures
        handled(accepted(repo, command), seq![outcome]) == (StepView::Reply {
            result: Ok(Seq::empty()),
            committed: false,
            stop: false,
        }),
{
    reveal_with_fuel(handled, 2);
    if let CommandView::Add { path } = command {
        law_files_are_called_by_their_name_inside(repo, path, path);
    }
}

/// A command for which git fails is answered with that failure, and no commit counts, whichever of
/// the git commands of a commit it was.
pub proof fn law_failure_of_git_is_the_answer(
    run: RunView,
    outcome: GitOutcome,
)
    requires
        outcome matches GitOutcome::Exited { success, .. } ==> !success,
    ensures
        resumed(run, outcome) matches StepView::Reply { result, committed, stop } && result is Err
            && result == concluded(run.call, outcome) && !committed && !stop,
{
}

/// A stop succeeds exactly where the executor acknowledged it and its thread ended; what kept it
/// from that is reported.
pub proof fn law_stop_succeeds_when_acknowledged(
    answer: Result<Seq<char>, ErrorView>,
    source: Seq<char>,
    ended: bool,
)
    ensures
        stop_result(ReplyView::Answer(answer), true) is Ok,
        stop_result(ReplyView::Answer(answer), false) is Err,
        stop_result(ReplyView::NotSent(source), ended) matches Err(error) && error.kind
            == ErrorKind::Watcher && error.message == "failed to send shutdown command: "@ + source,
        stop_result(ReplyView::NoAnswer(source), ended) matches Err(error) && error.kind
            == ErrorKind::Watcher && error.message
            == "failed to receive shutdown acknowledgment from executor: "@ + source,
{
}

} // verus!
