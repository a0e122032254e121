use git_bak::bisect::{bisect_run, BisectStep};
use git_bak::error::Error;
use git_bak::executor::{CommandReply, GitCommand};
use git_bak::git::{GitOutcome, GitRepo};
use git_bak::state::{SharedSystemState, SystemState};

fn repo() -> GitRepo {
    GitRepo::new("/work/repo", true).unwrap_or_else(|err| panic!("{err:?}"))
}

fn ended(success: bool, stdout: &str, stderr: &str) -> GitOutcome {
    GitOutcome::Exited {
        success,
        code: Some(if success { 0 } else { 1 }),
        stdout: stdout.as_bytes().to_vec(),
        stderr: stderr.as_bytes().to_vec(),
    }
}

/// Runs a search in which the command that begins with `failing` fails.
fn search(
    state: &mut SharedSystemState,
    failing: &str,
    barrier: CommandReply,
) -> (Vec<String>, Result<String, Error>) {
    let mut asked = Vec::new();
    let mut barrier = Some(barrier);
    let mut step = bisect_run(state, &repo(), "v-good", "v-bad", "./probe-health");
    loop {
        step = match step {
            BisectStep::SendBarrier(wait) => {
                assert_eq!(wait.command(), GitCommand::Barrier);
                wait.resume(barrier.take().unwrap_or_else(|| panic!("two barriers")))
            }
            BisectStep::RunGit(run) => {
                let words = run.call().argv()[2..].join(" ");
                let outcome = if !failing.is_empty() && words.starts_with(failing) {
                    ended(false, "", "fatal: no\n")
                } else if words.starts_with("bisect run") {
                    ended(true, "0a1b is the first bad commit\n", "")
                } else {
                    ended(true, "", "")
                };
                asked.push(words);
                run.resume(state, &outcome)
            }
            BisectStep::Done(result) => return (asked, result),
        };
    }
}

fn acknowledged() -> CommandReply {
    CommandReply::Answer(Ok(String::new()))
}

#[test]
fn test_bisect_finds_first_bad_commit() {
    let mut state = SharedSystemState::new_running();
    let (asked, result) = search(&mut state, "", acknowledged());
    let output = result.unwrap_or_else(|err| panic!("bisect run failed: {err:?}"));
    assert!(output.contains("0a1b"));
    assert!(output.contains("is the first bad commit"));
    assert_eq!(
        asked,
        [
            "bisect start",
            "bisect good v-good",
            "bisect bad v-bad",
            "bisect run sh -c ./probe-health",
            "bisect reset",
        ]
    );
    assert_eq!(state.current(), Ok(SystemState::Running));
}

#[test]
fn a_search_that_fails_is_reset() {
    for failing in ["bisect start", "bisect good", "bisect bad", "bisect run"] {
        let mut state = SharedSystemState::new_running();
        let (asked, result) = search(&mut state, failing, acknowledged());
        assert_eq!(asked.last().map(String::as_str), Some("bisect reset"));
        assert!(matches!(result, Err(Error::Git(_))));
        assert_eq!(state.current(), Ok(SystemState::Running));
    }
}

#[test]
fn a_reset_that_fails_is_reported() {
    let mut state = SharedSystemState::new_running();
    let (_, result) = search(&mut state, "bisect reset", acknowledged());
    assert_eq!(
        result,
        Err(Error::Git(
            "bisect completed but reset failed: git error: git [\"bisect\", \"reset\"] failed in \
             /work/repo: fatal: no"
                .to_owned()
        ))
    );
}

#[test]
fn a_barrier_that_fails_leaves_only_the_reset() {
    let mut state = SharedSystemState::new_running();
    let (asked, result) = search(&mut state, "", CommandReply::NoAnswer("closed".to_owned()));
    assert_eq!(asked, ["bisect reset"]);
    assert_eq!(
        result,
        Err(Error::Git(
            "bisect run failed: watcher error: failed to receive bisect barrier acknowledgement: \
             closed"
                .to_owned()
        ))
    );
}

#[test]
fn a_search_waits_for_its_turn() {
    let mut state = SharedSystemState::new_running();
    assert!(state.enter_exclusive("checkpoint").is_ok());
    let (asked, result) = search(&mut state, "", acknowledged());
    assert!(asked.is_empty());
    assert!(matches!(result, Err(Error::Watcher(_))));
}
