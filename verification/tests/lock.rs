use git_bak::error::Error;
use git_bak::git::GitOutcome;
use git_bak::lock::{lock_path_call, resolve_lock_path, LockAttempt, LockPlan, ProcessLock};

fn ended(success: bool, stdout: &str, stderr: &str) -> GitOutcome {
    GitOutcome::Exited {
        success,
        code: Some(if success { 0 } else { 128 }),
        stdout: stdout.as_bytes().to_vec(),
        stderr: stderr.as_bytes().to_vec(),
    }
}

fn plan() -> LockPlan {
    LockPlan::new("/work/repo", &ended(true, ".git/git-bak.lock\n", ""))
        .unwrap_or_else(|err| panic!("{err:?}"))
}

#[test]
fn test_acquire_fails_when_lock_is_already_held() {
    let first = ProcessLock::acquire(plan(), LockAttempt::Held);
    assert!(first.is_ok());

    let second = ProcessLock::acquire(
        plan(),
        LockAttempt::Refused("Resource temporarily unavailable (os error 11)".to_owned()),
    );
    assert!(second.is_err());
    assert_eq!(
        second.err(),
        Some(Error::Lock(
            "failed to acquire lock /work/repo/.git/git-bak.lock: Resource temporarily \
             unavailable (os error 11)"
                .to_owned()
        ))
    );
}

#[test]
fn test_acquire_succeeds_for_git_worktree() {
    let outcome = ended(true, "/work/repo/.git/worktrees/wt-lock-test/git-bak.lock\n", "");
    let plan = LockPlan::new("/work/wt-lock-test", &outcome).unwrap_or_else(|err| panic!("{err:?}"));
    assert_eq!(plan.directory(), "/work/repo/.git/worktrees/wt-lock-test");
    let lock = ProcessLock::acquire(plan, LockAttempt::Held);
    assert!(lock.is_ok());
    assert_eq!(
        lock.unwrap_or_else(|err| panic!("{err:?}")).path(),
        "/work/repo/.git/worktrees/wt-lock-test/git-bak.lock"
    );
}

#[test]
fn the_lock_lies_where_git_says() {
    assert_eq!(
        lock_path_call("/work/repo").argv(),
        ["-C", "/work/repo", "rev-parse", "--git-path", "git-bak.lock"]
    );
    let plan = plan();
    assert_eq!(plan.path(), "/work/repo/.git/git-bak.lock");
    assert_eq!(plan.directory(), "/work/repo/.git");
    assert_eq!(
        resolve_lock_path("/r", true, "  /x/y.lock \n", ""),
        Ok("/x/y.lock".to_owned())
    );
}

#[test]
fn a_path_that_git_does_not_give_is_an_error() {
    let failure = |outcome: GitOutcome| LockPlan::new("/r", &outcome).err();
    assert_eq!(
        failure(GitOutcome::NotStarted("no git".to_owned())),
        Some(Error::Lock("failed to resolve git lock path for /r: no git".to_owned()))
    );
    assert_eq!(
        failure(ended(false, "", " fatal: not a git repository\n")),
        Some(Error::Lock(
            "failed to resolve git lock path for /r: fatal: not a git repository".to_owned()
        ))
    );
    assert_eq!(
        failure(ended(true, " \n", "")),
        Some(Error::Lock(
            "failed to resolve git lock path for /r: empty response".to_owned()
        ))
    );
    assert_eq!(
        failure(ended(true, "/\n", "")),
        Some(Error::Lock("failed to determine parent directory for /".to_owned()))
    );
}

#[test]
fn each_way_to_fail_has_its_words() {
    let failure = |attempt: LockAttempt| ProcessLock::acquire(plan(), attempt).err();
    assert_eq!(
        failure(LockAttempt::NoDirectory("denied".to_owned())),
        Some(Error::Lock(
            "failed to create lock directory /work/repo/.git: denied".to_owned()
        ))
    );
    assert_eq!(
        failure(LockAttempt::NotOpened("denied".to_owned())),
        Some(Error::Lock(
            "failed to open lock file /work/repo/.git/git-bak.lock: denied".to_owned()
        ))
    );
}
