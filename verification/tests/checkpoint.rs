use git_bak::checkpoint::{
    checkpoint, is_branch_exists_error, is_unknown_start_point_error, CheckpointStep,
};
use git_bak::error::Error;
use git_bak::executor::{CommandReply, GitCommand};
use git_bak::state::{SharedSystemState, SystemState};

/// A repository with these branches, which answers as git does.
struct Branches {
    names: Vec<String>,
    current: String,
    squashed: bool,
    nothing_to_commit: bool,
    log: Vec<GitCommand>,
}

impl Branches {
    fn new(names: &[&str], current: &str) -> Self {
        Branches {
            names: names.iter().map(|name| (*name).to_owned()).collect(),
            current: current.to_owned(),
            squashed: false,
            nothing_to_commit: false,
            log: Vec::new(),
        }
    }

    fn has(&self, name: &str) -> bool {
        self.names.iter().any(|known| known == name)
    }

    fn answer(&mut self, command: GitCommand) -> Result<String, Error> {
        let result = match &command {
            GitCommand::Barrier => Ok(String::new()),
            GitCommand::CheckoutBranch { name } => {
                if self.has(name) {
                    self.current = name.clone();
                    Ok(String::new())
                } else {
                    Err(Error::Git(format!(
                        "git command failed: pathspec '{name}' did not match any file(s) known to git"
                    )))
                }
            }
            GitCommand::CreateBranch { name, start_point } => {
                if self.has(name) {
                    Err(Error::Git(format!("fatal: a branch named '{name}' already exists")))
                } else if start_point.as_ref().is_some_and(|start| !self.has(start)) {
                    Err(Error::Git("fatal: not a valid object name".to_owned()))
                } else {
                    self.names.push(name.clone());
                    Ok(String::new())
                }
            }
            GitCommand::MergeSquash { .. } => {
                self.squashed = true;
                Ok(String::new())
            }
            GitCommand::Commit { .. } => {
                if self.nothing_to_commit {
                    Err(Error::Git("nothing to commit, working tree clean".to_owned()))
                } else {
                    assert!(self.squashed);
                    assert_eq!(self.current, "checkpoint");
                    Ok("0a1b".to_owned())
                }
            }
            other => panic!("unexpected command {other:?}"),
        };
        self.log.push(command);
        result
    }

    fn run(&mut self, state: &mut SharedSystemState, timestamp: &str) -> Result<(), Error> {
        let mut step = checkpoint(state, timestamp);
        loop {
            step = match step {
                CheckpointStep::Send(run) => {
                    let reply = self.answer(run.command());
                    run.resume(state, CommandReply::Answer(reply))
                }
                CheckpointStep::Done(result) => return result,
            };
        }
    }
}

#[test]
fn test_checkpoint_creates_squash_commit_on_checkpoint_branch() {
    let mut state = SharedSystemState::new_running();
    let mut git = Branches::new(&["main", "raw"], "raw");
    assert!(git.run(&mut state, "2026-02-18T00:00:00Z").is_ok());
    assert_eq!(git.current, "raw");
    assert!(git.log.contains(&GitCommand::Commit {
        message: "checkpoint: 2026-02-18T00:00:00Z".to_owned()
    }));
    assert_eq!(state.current(), Ok(SystemState::Running));
    assert_eq!(
        git.log,
        [
            GitCommand::Barrier,
            GitCommand::CheckoutBranch { name: "raw".to_owned() },
            GitCommand::CreateBranch {
                name: "checkpoint".to_owned(),
                start_point: Some("main".to_owned())
            },
            GitCommand::CheckoutBranch { name: "checkpoint".to_owned() },
            GitCommand::MergeSquash { from: "raw".to_owned() },
            GitCommand::Commit { message: "checkpoint: 2026-02-18T00:00:00Z".to_owned() },
            GitCommand::CheckoutBranch { name: "raw".to_owned() },
        ]
    );
}

#[test]
fn test_checkpoint_creates_raw_branch_if_missing() {
    let mut state = SharedSystemState::new_running();
    let mut git = Branches::new(&["master"], "master");
    let result = git.run(&mut state, "2026-02-18T00:00:00Z");
    assert!(result.is_ok());
    assert!(git.has("raw"));
    assert_eq!(git.current, "raw");
}

#[test]
fn test_checkpoint_failure_restores_raw_branch() {
    let mut state = SharedSystemState::new_running();
    let mut git = Branches::new(&["main", "raw"], "raw");
    assert!(git.run(&mut state, "2026-02-18T00:00:00Z").is_ok());

    git.nothing_to_commit = true;
    let failed = git.run(&mut state, "2026-02-18T00:10:00Z");
    assert!(failed.is_err());
    assert_eq!(git.current, "raw");
    assert_eq!(state.current(), Ok(SystemState::Running));
}

#[test]
fn a_checkpoint_starts_where_there_is_a_branch() {
    let mut state = SharedSystemState::new_running();
    let mut git = Branches::new(&["raw"], "raw");
    assert!(git.run(&mut state, "1").is_ok());
    let starts: Vec<Option<String>> = git
        .log
        .iter()
        .filter_map(|command| match command {
            GitCommand::CreateBranch { start_point, .. } => Some(start_point.clone()),
            _ => None,
        })
        .collect();
    assert_eq!(
        starts,
        [
            Some("main".to_owned()),
            Some("master".to_owned()),
            Some("raw".to_owned())
        ]
    );
}

#[test]
fn a_second_operation_is_refused() {
    let mut state = SharedSystemState::new_running();
    assert!(state.enter_exclusive("bisect").is_ok());
    let mut git = Branches::new(&["raw"], "raw");
    assert!(matches!(git.run(&mut state, "1"), Err(Error::Watcher(_))));
    assert!(git.log.is_empty());
    assert_eq!(
        state.current(),
        Ok(SystemState::ExclusiveOp("bisect".to_owned()))
    );
}

#[test]
fn a_lost_executor_is_reported_and_the_state_is_left() {
    let mut state = SharedSystemState::new_running();
    let mut step = checkpoint(&mut state, "1");
    let result = loop {
        step = match step {
            CheckpointStep::Send(run) => {
                run.resume(&mut state, CommandReply::NotSent("closed".to_owned()))
            }
            CheckpointStep::Done(result) => break result,
        };
    };
    assert_eq!(
        result,
        Err(Error::Git(
            "checkpoint failed: watcher error: failed to send barrier command: closed; failed to \
             restore raw branch: git error: failed to send checkout command: closed"
                .to_owned()
        ))
    );
    assert_eq!(state.current(), Ok(SystemState::Running));
}

#[test]
fn complaints_of_git_are_told_apart() {
    assert!(is_branch_exists_error(&Error::Git("branch 'raw' already exists".to_owned())));
    assert!(!is_branch_exists_error(&Error::Git("not found".to_owned())));
    for text in [
        "not a valid object name: 'main'",
        "unknown revision",
        "not found",
        "pathspec 'raw' did not match any file(s) known to git",
    ] {
        assert!(is_unknown_start_point_error(&Error::Git(text.to_owned())));
    }
    assert!(!is_unknown_start_point_error(&Error::Git("permission denied".to_owned())));
}
