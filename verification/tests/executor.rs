use git_bak::counter::CommitCounter;
use git_bak::error::Error;
use git_bak::executor::{CommandReply, ExecutorStep, GitCommand, GitExecutor};
use git_bak::git::{GitOutcome, GitRepo};

fn executor() -> GitExecutor {
    let repo = GitRepo::new("/work/repo", true).unwrap_or_else(|err| panic!("{err:?}"));
    GitExecutor::start(repo)
}

fn ended(success: bool, stdout: &str, stderr: &str) -> GitOutcome {
    GitOutcome::Exited {
        success,
        code: Some(if success { 0 } else { 1 }),
        stdout: stdout.as_bytes().to_vec(),
        stderr: stderr.as_bytes().to_vec(),
    }
}

/// Runs a command with these outcomes of git; hands back what git was asked and the reply.
fn run(
    command: GitCommand,
    outcomes: Vec<GitOutcome>,
) -> (Vec<String>, Result<String, Error>, bool, bool) {
    let mut asked = Vec::new();
    let mut outcomes = outcomes.into_iter();
    let mut step = executor().accept(command);
    loop {
        step = match step {
            ExecutorStep::Run(run) => {
                asked.push(run.call().argv()[2..].join(" "));
                let outcome = outcomes.next().unwrap_or_else(|| panic!("one run too many"));
                run.resume(&outcome)
            }
            ExecutorStep::Reply { result, committed, stop } => {
                assert!(outcomes.next().is_none());
                return (asked, result, committed, stop);
            }
        };
    }
}

#[test]
fn test_executor_serializes_add_then_commit() {
    let mut commit_count = CommitCounter::new();
    let (asked, add_result, committed, _) = run(
        GitCommand::Add { path: "SOUL.md".to_owned() },
        vec![ended(true, "", "")],
    );
    assert_eq!(asked, ["add -A -- SOUL.md"]);
    assert!(add_result.is_ok());
    assert!(!committed);

    let (asked, commit_result, committed, _) = run(
        GitCommand::Commit { message: "test add commit".to_owned() },
        vec![ended(true, "[raw 0a1b] test add commit\n", ""), ended(true, "0a1b2c3d\n", "")],
    );
    assert_eq!(asked, ["commit -m test add commit --no-gpg-sign", "rev-parse HEAD"]);
    assert_eq!(commit_result, Ok("0a1b2c3d".to_owned()));
    commit_count.answered(committed);

    let (_, status, _, _) = run(GitCommand::Status, vec![ended(true, "", "")]);
    assert!(status.unwrap_or_else(|err| panic!("status failed: {err:?}")).is_empty());
    assert_eq!(commit_count.count(), 1);
    assert!(GitExecutor::stop(CommandReply::Answer(Ok(String::new())), true).is_ok());
}

/// Takes a queue of commands one after the other, until one of them ends the executor; every run
/// of git succeeds. Hands back the answers and the counter.
fn serve(commands: Vec<GitCommand>) -> (Vec<Result<String, Error>>, CommitCounter) {
    let executor = executor();
    let mut replies = Vec::new();
    let mut counter = CommitCounter::new();
    for command in commands {
        let mut step = executor.accept(command);
        let stop = loop {
            step = match step {
                ExecutorStep::Run(run) => run.resume(&ended(true, "0a1b\n", "")),
                ExecutorStep::Reply { result, committed, stop } => {
                    counter.answered(committed);
                    replies.push(result);
                    break stop;
                }
            };
        };
        if stop {
            break;
        }
    }
    (replies, counter)
}

#[test]
fn test_barrier_ack_arrives_after_prior_commands() {
    let (replies, commit_count) = serve(vec![
        GitCommand::Add { path: "SOUL.md".to_owned() },
        GitCommand::Commit { message: "barrier test".to_owned() },
        GitCommand::Barrier,
    ]);
    assert_eq!(replies.len(), 3);
    let add_result = &replies[0];
    assert!(add_result.is_ok());
    let commit_result = &replies[1];
    assert!(commit_result.is_ok());
    assert_eq!(replies[2], Ok(String::new()));
    assert_eq!(commit_count.count(), 1);
}

#[test]
fn nothing_is_done_behind_a_shutdown() {
    let commit = || GitCommand::Commit { message: "m".to_owned() };
    let (replies, commit_count) =
        serve(vec![commit(), GitCommand::Status, commit(), GitCommand::Shutdown, commit()]);
    let ok = |text: &str| Ok(text.to_owned());
    assert_eq!(replies, [ok("0a1b"), ok("0a1b"), ok("0a1b"), ok("")]);
    assert_eq!(commit_count.count(), 2);
}

#[test]
fn a_commit_of_one_path_counts_too() {
    let (asked, result, committed, stop) = run(
        GitCommand::CommitPath { path: "SOUL.md".to_owned(), message: "m".to_owned() },
        vec![ended(true, "", ""), ended(true, " 77aa \n", "")],
    );
    assert_eq!(asked, ["commit -m m --no-gpg-sign -- SOUL.md", "rev-parse HEAD"]);
    assert_eq!(result, Ok("77aa".to_owned()));
    assert!(committed);
    assert!(!stop);
}

#[test]
fn a_commit_that_fails_does_not_count() {
    let (asked, result, committed, _) = run(
        GitCommand::Commit { message: "m".to_owned() },
        vec![ended(false, "", "nothing to commit\n")],
    );
    assert_eq!(asked.len(), 1);
    assert!(result.is_err());
    assert!(!committed);
    let (asked, result, committed, _) = run(
        GitCommand::Commit { message: "m".to_owned() },
        vec![ended(true, "", ""), ended(false, "", "ambiguous argument\n")],
    );
    assert_eq!(asked.len(), 2);
    assert!(result.is_err());
    assert!(!committed);
}

#[test]
fn a_path_outside_the_repository_never_reaches_git() {
    let (asked, result, committed, _) =
        run(GitCommand::Add { path: "/elsewhere/x".to_owned() }, vec![]);
    assert!(asked.is_empty());
    assert!(matches!(result, Err(Error::Git(_))));
    assert!(!committed);
    let (asked, result, _, _) = run(
        GitCommand::CommitPath { path: "/elsewhere/x".to_owned(), message: "m".to_owned() },
        vec![],
    );
    assert!(asked.is_empty());
    assert!(result.is_err());
}

#[test]
fn other_commands_run_git_once() {
    let ok = || vec![ended(true, "out\n", "")];
    let cases = vec![
        (GitCommand::Push { remote: "origin".to_owned() }, "push origin HEAD"),
        (GitCommand::Tag { name: "v1".to_owned() }, "tag v1"),
        (GitCommand::CheckoutBranch { name: "raw".to_owned() }, "checkout raw"),
        (GitCommand::MergeSquash { from: "raw".to_owned() }, "merge --squash raw"),
        (
            GitCommand::CreateBranch { name: "raw".to_owned(), start_point: None },
            "branch raw",
        ),
        (
            GitCommand::CreateBranch {
                name: "checkpoint".to_owned(),
                start_point: Some("main".to_owned()),
            },
            "branch checkpoint main",
        ),
    ];
    for (command, words) in cases {
        let (asked, result, committed, stop) = run(command, ok());
        assert_eq!(asked, [words]);
        assert!(result.is_ok());
        assert!(!committed);
        assert!(!stop);
    }
    let (_, status, _, _) = run(GitCommand::Status, vec![ended(true, " M SOUL.md\n", "")]);
    assert_eq!(status, Ok(" M SOUL.md".to_owned()));
}

#[test]
fn only_shutdown_ends_the_executor() {
    let (asked, result, _, stop) = run(GitCommand::Barrier, vec![]);
    assert!(asked.is_empty());
    assert!(result.is_ok());
    assert!(!stop);
    let (asked, result, _, stop) = run(GitCommand::Shutdown, vec![]);
    assert!(asked.is_empty());
    assert!(result.is_ok());
    assert!(stop);
}

#[test]
fn stopping_reports_what_went_wrong() {
    assert_eq!(
        GitExecutor::stop(CommandReply::NotSent("closed".to_owned()), true),
        Err(Error::Watcher("failed to send shutdown command: closed".to_owned()))
    );
    assert_eq!(
        GitExecutor::stop(CommandReply::NoAnswer("closed".to_owned()), true),
        Err(Error::Watcher(
            "failed to receive shutdown acknowledgment from executor: closed".to_owned()
        ))
    );
    assert_eq!(
        GitExecutor::stop(CommandReply::Answer(Ok(String::new())), false),
        Err(Error::Watcher("git executor thread panicked".to_owned()))
    );
}
