//! Setting up a repository: it is made, and gets an identity to commit under if it has none.
use vstd::prelude::*;

use crate::error::{git_error, Error, ErrorKind, ErrorView};
use crate::git::{concluded, text_call, words_of, CallView, GitCall, GitOutcome, GitRepo, Wording};
use crate::paths::joined_path;
use crate::text::{
    decode_lossy, decoded, law_more_than_line_ends_is_kept, trim_trailing_newlines,
    without_line_ends,
};

verus! {

/// Which command of the setup runs.
#[derive(Debug, Clone, Copy, PartialEq, Eq, Structural)]
pub enum Stage {
    Init,
    ReadName,
    SetName,
    ReadEmail,
    SetEmail,
}

/// The arguments of a stage's command.
pub open spec fn stage_args(stage: Stage) -> Seq<Seq<char>> {
    match stage {
        Stage::Init => seq!["init"@],
        Stage::ReadName => seq!["config"@, "--get"@, "user.name"@],
        Stage::SetName => seq!["config"@, "--local"@, "user.name"@, "git-bak"@],
        Stage::ReadEmail => seq!["config"@, "--get"@, "user.email"@],
        Stage::SetEmail => seq!["config"@, "--local"@, "user.email"@, "git-bak@localhost"@],
    }
}

/// The command of a stage.
pub open spec fn stage_call(path: Seq<char>, stage: Stage) -> CallView {
    text_call(path, stage_args(stage))
}

/// The setting has a value, by how reading it ended.
pub open spec fn has_value(success: bool, stdout: Seq<char>) -> bool {
    success && without_line_ends(stdout).len() > 0
}

/// Whether the setting has a value.
pub open spec fn config_value(path: Seq<char>, key: Seq<char>, outcome: GitOutcome) -> Result<
    bool,
    ErrorView,
> {
    match outcome {
        GitOutcome::NotStarted(source) => Err(
            git_error("failed to read git config "@ + key + " in "@ + path + ": "@ + source@),
        ),
        GitOutcome::Exited { success, stdout, .. } => Ok(has_value(success, decoded(stdout@))),
    }
}

/// The stage behind a stage, if there is one: what is set already is not set again.
pub open spec fn stage_after(path: Seq<char>, stage: Stage, outcome: GitOutcome) -> Result<
    Option<Stage>,
    ErrorView,
> {
    match stage {
        Stage::Init => match concluded(stage_call(path, stage), outcome) {
            Ok(_) => Ok(Some(Stage::ReadName)),
            Err(error) => Err(error),
        },
        Stage::ReadName => match config_value(path, "user.name"@, outcome) {
            Ok(true) => Ok(Some(Stage::ReadEmail)),
            Ok(false) => Ok(Some(Stage::SetName)),
            Err(error) => Err(error),
        },
        Stage::SetName => match concluded(stage_call(path, stage), outcome) {
            Ok(_) => Ok(Some(Stage::ReadEmail)),
            Err(error) => Err(error),
        },
        Stage::ReadEmail => match config_value(path, "user.email"@, outcome) {
            Ok(true) => Ok(None),
            Ok(false) => Ok(Some(Stage::SetEmail)),
            Err(error) => Err(error),
        },
        Stage::SetEmail => match concluded(stage_call(path, stage), outcome) {
            Ok(_) => Ok(None),
            Err(error) => Err(error),
        },
    }
}

/// Whether a setting has a value, by how reading it ended.
pub fn is_set(success: bool, stdout: &str) -> (found: bool)
    ensures
        found == has_value(success, stdout@),
{
    success && !trim_trailing_newlines(stdout).as_str().is_empty()
}

fn has_git_config_value(path: &str, key: &str, outcome: &GitOutcome) -> (result: Result<
    bool,
    Error,
>)
    ensures
        config_value(path@, key@, *outcome) == (match result {
            Ok(found) => Ok(found),
            Err(error) => Err(error@),
        }),
{
    match outcome {
        GitOutcome::NotStarted(source) => {
            let mut message: String = "failed to read git config ".to_owned();
            message.append(key);
            message.append(" in ");
            message.append(path);
            message.append(": ");
            message.append(source.as_str());
            Err(Error::Git(message))
        },
        GitOutcome::Exited { success, stdout, .. } => Ok(
            is_set(*success, decode_lossy(stdout.as_slice()).as_str()),
        ),
    }
}

/// The setup before the repository's directory is there.
#[derive(Debug)]
pub struct SetupDir {
    path: String,
}

impl View for SetupDir {
    type V = Seq<char>;

    closed spec fn view(&self) -> Seq<char> {
        self.path@
    }
}

/// The setup with a git command to run.
#[derive(Debug)]
pub struct SetupRun {
    path: String,
    stage: Stage,
}

/// The setup with a git command to run, as characters.
#[verifier::ext_equal]
pub struct SetupRunView {
    pub path: Seq<char>,
    pub stage: Stage,
}

impl View for SetupRun {
    type V = SetupRunView;

    closed spec fn view(&self) -> SetupRunView {
        SetupRunView { path: self.path@, stage: self.stage }
    }
}

/// The setup when all commands have run.
#[derive(Debug)]
pub struct SetupProbe {
    path: String,
}

impl View for SetupProbe {
    type V = Seq<char>;

    closed spec fn view(&self) -> Seq<char> {
        self.path@
    }
}

/// What the setup does next: make a directory with all above it, run git, look for the
/// repository's data, or end.
#[derive(Debug)]
pub enum SetupStep {
    CreateDir(SetupDir),
    Run(SetupRun),
    Probe(SetupProbe),
    Done(Result<GitRepo, Error>),
}

/// What the setup does next, as characters.
pub enum StepView {
    CreateDir(Seq<char>),
    Run(SetupRunView),
    Probe(Seq<char>),
    Done(Result<Seq<char>, ErrorView>),
}

impl View for SetupStep {
    type V = StepView;

    open spec fn view(&self) -> StepView {
        match self {
            SetupStep::CreateDir(dir) => StepView::CreateDir(dir@),
            SetupStep::Run(run) => StepView::Run(run@),
            SetupStep::Probe(probe) => StepView::Probe(probe@),
            SetupStep::Done(Ok(repo)) => StepView::Done(Ok(repo@)),
            SetupStep::Done(Err(error)) => StepView::Done(Err(error@)),
        }
    }
}

/// What the setup does when making the directory has ended.
pub open spec fn after_dir(path: Seq<char>, created: Result<(), Seq<char>>) -> StepView {
    match created {
        Ok(()) => StepView::Run(SetupRunView { path, stage: Stage::Init }),
        Err(source) => StepView::Done(
            Err(git_error("failed to create repository directory "@ + path + ": "@ + source)),
        ),
    }
}

/// What the setup does when a git command has ended.
pub open spec fn after_run(run: SetupRunView, outcome: GitOutcome) -> StepView {
    match stage_after(run.path, run.stage, outcome) {
        Ok(Some(stage)) => StepView::Run(SetupRunView { stage, ..run }),
        Ok(None) => StepView::Probe(run.path),
        Err(error) => StepView::Done(Err(error)),
    }
}

/// How the setup ends.
pub open spec fn after_probe(path: Seq<char>, git_dir_exists: bool) -> StepView {
    if git_dir_exists {
        StepView::Done(Ok(path))
    } else {
        StepView::Done(Err(git_error("missing .git directory in "@ + path)))
    }
}

impl GitRepo {
    /// Begins to set up a repository.
    pub fn init(path: &str) -> (step: SetupStep)
        ensures
            step@ == StepView::CreateDir(path@),
    {
        SetupStep::CreateDir(SetupDir { path: path.to_owned() })
    }
}

impl SetupDir {
    /// The directory to make.
    pub fn path(&self) -> (path: &str)
        ensures
            path@ == self@,
    {
        self.path.as_str()
    }

    /// What the setup does when making the directory has ended.
    pub fn resume(self, created: Result<(), String>) -> (step: SetupStep)
        ensures
            step@ == after_dir(
                self@,
                match created {
                    Ok(()) => Ok(()),
                    Err(source) => Err(source@),
                },
            ),
    {
        match created {
            Ok(()) => SetupStep::Run(SetupRun { path: self.path, stage: Stage::Init }),
            Err(source) => {
                let mut message: String = "failed to create repository directory ".to_owned();
                message.append(self.path.as_str());
                message.append(": ");
                message.append(source.as_str());
                SetupStep::Done(Err(Error::Git(message)))
            },
        }
    }
}

impl SetupRun {
    /// The command to run.
    pub fn call(&self) -> (call: GitCall)
        ensures
            call@ == stage_call(self@.path, self@.stage),
    {
        let args: Vec<String> = match self.stage {
            Stage::Init => words_of(&["init"]),
            Stage::ReadName => words_of(&["config", "--get", "user.name"]),
            Stage::SetName => words_of(&["config", "--local", "user.name", "git-bak"]),
            Stage::ReadEmail => words_of(&["config", "--get", "user.email"]),
            Stage::SetEmail => words_of(
                &["config", "--local", "user.email", "git-bak@localhost"],
            ),
        };
        let call: GitCall = GitCall { dir: self.path.clone(), args, wording: Wording::Text };
        assert(call@.args =~= stage_args(self@.stage));
        call
    }

    fn ensure_local_identity(&self, outcome: &GitOutcome) -> (result: Result<Option<Stage>, Error>)
        ensures
            stage_after(self@.path, self@.stage, *outcome) == (match result {
                Ok(stage) => Ok(stage),
                Err(error) => Err(error@),
            }),
    {
        match self.stage {
            Stage::Init => match self.call().conclude(outcome) {
                Ok(_) => Ok(Some(Stage::ReadName)),
                Err(error) => Err(error),
            },
            Stage::ReadName => match has_git_config_value(
                self.path.as_str(),
                "user.name",
                outcome,
            ) {
                Ok(true) => Ok(Some(Stage::ReadEmail)),
                Ok(false) => Ok(Some(Stage::SetName)),
                Err(error) => Err(error),
            },
            Stage::SetName => match self.call().conclude(outcome) {
                Ok(_) => Ok(Some(Stage::ReadEmail)),
                Err(error) => Err(error),
            },
            Stage::ReadEmail => match has_git_config_value(
                self.path.as_str(),
                "user.email",
                outcome,
            ) {
                Ok(true) => Ok(None),
                Ok(false) => Ok(Some(Stage::SetEmail)),
                Err(error) => Err(error),
            },
            Stage::SetEmail => match self.call().conclude(outcome) {
                Ok(_) => Ok(None),
                Err(error) => Err(error),
            },
        }
    }

    /// What the setup does when the command has ended.
    pub fn resume(self, outcome: &GitOutcome) -> (step: SetupStep)
        ensures
            step@ == after_run(self@, *outcome),
    {
        match self.ensure_local_identity(outcome) {
            Ok(Some(stage)) => SetupStep::Run(SetupRun { path: self.path, stage }),
            Ok(None) => SetupStep::Probe(SetupProbe { path: self.path }),
            Err(error) => SetupStep::Done(Err(error)),
        }
    }
}

impl SetupProbe {
    /// Where the repository's data has to be.
    pub fn git_dir(&self) -> (dir: String)
        ensures
            dir@ == joined_path(self@, ".git"@),
    {
        GitRepo::git_dir(self.path.as_str())
    }

    /// How the setup ends, by whether the repository's data is there.
    pub fn resume(self, git_dir_exists: bool) -> (step: SetupStep)
        ensures
            step@ == after_probe(self@, git_dir_exists),
    {
        SetupStep::Done(GitRepo::new(self.path.as_str(), git_dir_exists))
    }
}

/// What the setup does after git was run with these outcomes.
pub open spec fn step_after(step: StepView, outcomes: Seq<GitOutcome>) -> StepView
    decreases outcomes.len(),
{
    match step {
        StepView::Run(run) => if outcomes.len() == 0 {
            step
        } else {
            step_after(after_run(run, outcomes.first()), outcomes.drop_first())
        },
        _ => step,
    }
}

/// The commands of the setup end: five outcomes are enough, whatever they are.
pub proof fn law_setup_ends(path: Seq<char>, outcomes: Seq<GitOutcome>)
    requires
        outcomes.len() == 5,
    ensures
        !(step_after(
            StepView::Run(SetupRunView { path, stage: Stage::Init }),
            outcomes,
        ) is Run),
{
    reveal_with_fuel(step_after, 6);
}

/// A repository whose setup gets to its end has an identity: a name that was missing has been
/// set, and so has an address.
pub proof fn law_missing_identity_is_set(
    path: Seq<char>,
    init: GitOutcome,
    name: GitOutcome,
    set_name: GitOutcome,
    email: GitOutcome,
    set_email: GitOutcome,
)
    requires
        config_value(path, "user.name"@, name) == Ok::<bool, ErrorView>(false),
        config_value(path, "user.email"@, email) == Ok::<bool, ErrorView>(false),
    ensures
        step_after(
            StepView::Run(SetupRunView { path, stage: Stage::Init }),
            seq![init, name, set_name, email, set_email],
        ) is Probe <==> {
            &&& concluded(stage_call(path, Stage::Init), init) is Ok
            &&& concluded(stage_call(path, Stage::SetName), set_name) is Ok
            &&& concluded(stage_call(path, Stage::SetEmail), set_email) is Ok
        },
{
    let outcomes = seq![init, name, set_name, email, set_email];
    reveal_with_fuel(step_after, 6);
    assert(outcomes.drop_first() =~= seq![name, set_name, email, set_email]);
    assert(seq![name, set_name, email, set_email].drop_first() =~= seq![
        set_name,
        email,
        set_email,
    ]);
    assert(seq![set_name, email, set_email].drop_first() =~= seq![email, set_email]);
    assert(seq![email, set_email].drop_first() =~= seq![set_email]);
}

/// Git ended with success.
pub open spec fn succeeded(outcome: GitOutcome) -> bool {
    outcome matches GitOutcome::Exited { success, .. } && success
}

/// Git was asked for a setting and told of a value: it succeeded and printed more than line ends.
pub open spec fn tells_a_value(outcome: GitOutcome) -> bool {
    outcome matches GitOutcome::Exited { success, stdout, .. } && success && exists|i: int|
        0 <= i < decoded(stdout@).len() && #[trigger] decoded(stdout@)[i] != '\n' && decoded(
            stdout@,
        )[i] != '\r'
}

/// The words with which git is run while these are its outcomes.
pub open spec fn words_run(step: StepView, outcomes: Seq<GitOutcome>) -> Seq<Seq<Seq<char>>>
    decreases outcomes.len(),
{
    match step {
        StepView::Run(run) => if outcomes.len() == 0 {
            Seq::empty()
        } else {
            seq![stage_call(run.path, run.stage).args] + words_run(
                after_run(run, outcomes.first()),
                outcomes.drop_first(),
            )
        },
        _ => Seq::empty(),
    }
}

proof fn lemma_value_is_told(path: Seq<char>, key: Seq<char>, outcome: GitOutcome)
    requires
        outcome is Exited,
    ensures
        config_value(path, key, outcome) == Ok::<bool, ErrorView>(tells_a_value(outcome)),
{
    if let GitOutcome::Exited { success, code, stdout, stderr } = outcome {
        law_more_than_line_ends_is_kept(decoded(stdout@));
    }
}

proof fn lemma_email_is_set_where_it_is_missing(
    path: Seq<char>,
    email: GitOutcome,
    set_email: GitOutcome,
)
    requires
        email is Exited,
        succeeded(set_email),
    ensures
        ({
            let start = StepView::Run(SetupRunView { path, stage: Stage::ReadEmail });
            &&& tells_a_value(email) ==> step_after(start, seq![email]) == StepView::Probe(path)
                && words_run(start, seq![email]) == seq![
                seq!["config"@, "--get"@, "user.email"@],
            ]
            &&& !tells_a_value(email) ==> step_after(start, seq![email, set_email])
                == StepView::Probe(path) && words_run(start, seq![email, set_email]) == seq![
                seq!["config"@, "--get"@, "user.email"@],
                seq!["config"@, "--local"@, "user.email"@, "git-bak@localhost"@],
            ]
        }),
{
    reveal_with_fuel(step_after, 3);
    reveal_with_fuel(words_run, 3);
    let start = StepView::Run(SetupRunView { path, stage: Stage::ReadEmail });
    lemma_value_is_told(path, "user.email"@, email);
    if tells_a_value(email) {
        assert(words_run(start, seq![email]) =~= seq![seq!["config"@, "--get"@, "user.email"@]]);
    } else {
        assert(seq![email, set_email].drop_first() =~= seq![set_email]);
        assert(words_run(start, seq![email, set_email]) =~= seq![
            seq!["config"@, "--get"@, "user.email"@],
            seq!["config"@, "--local"@, "user.email"@, "git-bak@localhost"@],
        ]);
    }
}

proof fn lemma_one_run(run: SetupRunView, outcome: GitOutcome, more: Seq<GitOutcome>)
    ensures
        step_after(StepView::Run(run), seq![outcome] + more) == step_after(
            after_run(run, outcome),
            more,
        ),
        words_run(StepView::Run(run), seq![outcome] + more) == seq![
            stage_call(run.path, run.stage).args,
        ] + words_run(after_run(run, outcome), more),
{
    let all = seq![outcome] + more;
    assert(all.first() == outcome);
    assert(all.drop_first() =~= more);
}

proof fn lemma_name_is_set_where_it_is_missing(
    path: Seq<char>,
    init: GitOutcome,
    name: GitOutcome,
    set_name: GitOutcome,
    more: Seq<GitOutcome>,
)
    requires
        succeeded(init),
        succeeded(set_name),
        name is Exited,
    ensures
        ({
            let start = StepView::Run(SetupRunView { path, stage: Stage::Init });
            let later = StepView::Run(SetupRunView { path, stage: Stage::ReadEmail });
            &&& tells_a_value(name) ==> step_after(start, seq![init, name] + more) == step_after(
                later,
                more,
            ) && words_run(start, seq![init, name] + more) == seq![
                seq!["init"@],
                seq!["config"@, "--get"@, "user.name"@],
            ] + words_run(later, more)
            &&& !tells_a_value(name) ==> step_after(start, seq![init, name, set_name] + more)
                == step_after(later, more) && words_run(start, seq![init, name, set_name] + more)
                == seq![
                seq!["init"@],
                seq!["config"@, "--get"@, "user.name"@],
                seq!["config"@, "--local"@, "user.name"@, "git-bak"@],
            ] + words_run(later, more)
        }),
{
    let first = SetupRunView { path, stage: Stage::Init };
    let second = SetupRunView { path, stage: Stage::ReadName };
    let third = SetupRunView { path, stage: Stage::SetName };
    let later = SetupRunView { path, stage: Stage::ReadEmail };
    lemma_value_is_told(path, "user.name"@, name);
    assert(after_run(first, init) == StepView::Run(second));
    if tells_a_value(name) {
        assert(after_run(second, name) == StepView::Run(later));
        lemma_one_run(first, init, seq![name] + more);
        lemma_one_run(second, name, more);
        assert(seq![init, name] + more =~= seq![init] + (seq![name] + more));
        assert(words_run(StepView::Run(first), seq![init, name] + more) =~= seq![
            seq!["init"@],
            seq!["config"@, "--get"@, "user.name"@],
        ] + words_run(StepView::Run(later), more));
    } else {
        assert(after_run(second, name) == StepView::Run(third));
        assert(after_run(third, set_name) == StepView::Run(later));
        lemma_one_run(first, init, seq![name] + (seq![set_name] + more));
        lemma_one_run(second, name, seq![set_name] + more);
        lemma_one_run(third, set_name, more);
        assert(seq![init, name, set_name] + more =~= seq![init] + (seq![name] + (seq![set_name]
            + more)));
        assert(words_run(StepView::Run(first), seq![init, name, set_name] + more) =~= seq![
            seq!["init"@],
            seq!["config"@, "--get"@, "user.name"@],
            seq!["config"@, "--local"@, "user.name"@, "git-bak"@],
        ] + words_run(StepView::Run(later), more));
    }
}

/// A repository is made, asked for its name and its address, and given each of the two that it
/// lacks and no other, where git does as it is told. Then its data is looked for.
pub proof fn law_identity_is_set_only_where_it_is_missing(
    path: Seq<char>,
    init: GitOutcome,
    name: GitOutcome,
    set_name: GitOutcome,
    email: GitOutcome,
    set_email: GitOutcome,
)
    requires
        succeeded(init),
        succeeded(set_name),
        succeeded(set_email),
        name is Exited,
        email is Exited,
    ensures
        ({
            let start = StepView::Run(SetupRunView { path, stage: Stage::Init });
            let asked = if tells_a_value(name) {
                seq![init, name]
            } else {
                seq![init, name, set_name]
            };
            let asked_words = if tells_a_value(name) {
                seq![seq!["init"@], seq!["config"@, "--get"@, "user.name"@]]
            } else {
                seq![
                    seq!["init"@],
                    seq!["config"@, "--get"@, "user.name"@],
                    seq!["config"@, "--local"@, "user.name"@, "git-bak"@],
                ]
            };
            let more = if tells_a_value(email) {
                seq![email]
            } else {
                seq![email, set_email]
            };
            let more_words = if tells_a_value(email) {
                seq![seq!["config"@, "--get"@, "user.email"@]]
            } else {
                seq![
                    seq!["config"@, "--get"@, "user.email"@],
                    seq!["config"@, "--local"@, "user.email"@, "git-bak@localhost"@],
                ]
            };
            &&& step_after(start, asked + more) == StepView::Probe(path)
            &&& words_run(start, asked + more) == asked_words + more_words
        }),
{
    let more = if tells_a_value(email) {
        seq![email]
    } else {
        seq![email, set_email]
    };
    lemma_name_is_set_where_it_is_missing(path, init, name, set_name, more);
    lemma_email_is_set_where_it_is_missing(path, email, set_email);
}

/// The setup begins with its directory and ends with the repository, where its data is there.
/// Whatever fails before that ends it with an error of git.
pub proof fn law_setup_failures_are_errors_of_git(
    run: SetupRunView,
    outcome: GitOutcome,
    source: Seq<char>,
)
    ensures
        after_dir(run.path, Ok(())) matches StepView::Run(first) && first.path == run.path
            && stage_call(first.path, first.stage).args == seq!["init"@],
        after_dir(run.path, Err(source)) matches StepView::Done(Err(error)) && error.kind
            == ErrorKind::Git && source.is_suffix_of(error.message),
        after_probe(run.path, true) == StepView::Done(Ok(run.path)),
        after_probe(run.path, false) matches StepView::Done(Err(error)) && error.kind
            == ErrorKind::Git && run.path.is_suffix_of(error.message),
        outcome is NotStarted ==> (after_run(run, outcome) matches StepView::Done(Err(error))
            && error.kind == ErrorKind::Git),
        (run.stage == Stage::Init || run.stage == Stage::SetName || run.stage == Stage::SetEmail)
            && !succeeded(outcome) ==> (after_run(run, outcome) matches StepView::Done(Err(error))
            && error.kind == ErrorKind::Git),
        stage_call(run.path, run.stage).dir == run.path,
{
    let text = "failed to create repository directory "@ + run.path + ": "@ + source;
    assert(text.subrange(text.len() - source.len(), text.len() as int) =~= source);
    let missing = "missing .git directory in "@ + run.path;
    assert(missing.subrange(missing.len() - run.path.len(), missing.len() as int) =~= run.path);
}

} // verus!
