use git_bak::error::Error;
use git_bak::git::{GitOutcome, GitRepo, RecentStep};
use git_bak::setup::SetupStep;

fn repo() -> GitRepo {
    GitRepo::new("/work/repo", true).unwrap_or_else(|err| panic!("{err:?}"))
}

fn ended(success: bool, stdout: &[u8], stderr: &[u8]) -> GitOutcome {
    GitOutcome::Exited {
        success,
        code: Some(if success { 0 } else { 1 }),
        stdout: stdout.to_vec(),
        stderr: stderr.to_vec(),
    }
}

#[test]
fn test_new_fails_without_git_directory() {
    let result = GitRepo::new("/tmp/empty", false);
    assert!(result.is_err());
    assert_eq!(
        result.err(),
        Some(Error::Git("missing .git directory in /tmp/empty".to_owned()))
    );
}

#[test]
fn test_recent_commits_is_empty_when_repository_has_no_commits() {
    let repo = repo();
    assert_eq!(
        repo.verify_head().argv(),
        ["-C", "/work/repo", "rev-parse", "--verify", "HEAD"]
    );
    let has_commit = repo.has_head_commit(&ended(
        false,
        b"",
        b"fatal: Needed a single revision\n",
    ));
    assert!(has_commit.is_ok());
    assert!(!has_commit.unwrap_or(true));

    let RecentStep::VerifyHead(head) = repo.recent_commits(5) else {
        panic!("not verified");
    };
    assert_eq!(
        head.call().argv(),
        ["-C", "/work/repo", "rev-parse", "--verify", "HEAD"]
    );
    let RecentStep::Done(commits) =
        head.resume(&ended(false, b"", b"fatal: Needed a single revision\n"))
    else {
        panic!("not over");
    };
    assert!(commits.is_ok());
    assert!(commits.unwrap_or_default().is_empty());
}

#[test]
fn test_status_preserves_porcelain_leading_space() {
    let call = repo().status();
    assert_eq!(call.argv(), ["-C", "/work/repo", "status", "--porcelain"]);
    let status = call.conclude(&ended(true, b" M SOUL.md\n", b""));
    assert_eq!(status, Ok(" M SOUL.md".to_owned()));
}

#[test]
fn recent_commits_are_listed_up_to_the_limit() {
    let repo = repo();
    let RecentStep::Done(none) = repo.recent_commits(0) else {
        panic!("not over");
    };
    assert_eq!(none, Ok(String::new()));
    let RecentStep::VerifyHead(head) = repo.recent_commits(12) else {
        panic!("not verified");
    };
    let RecentStep::List(list) = head.resume(&ended(true, b"0a1b\n", b"")) else {
        panic!("not listed");
    };
    assert_eq!(
        list.call().argv(),
        ["-C", "/work/repo", "log", "--oneline", "-12"]
    );
    let RecentStep::Done(commits) = list.resume(&ended(true, b"0a1b x\n77aa y\n", b"")) else {
        panic!("not over");
    };
    assert_eq!(commits, Ok("0a1b x\n77aa y".to_owned()));

    let RecentStep::VerifyHead(head) = repo.recent_commits(1) else {
        panic!("not verified");
    };
    let RecentStep::Done(failed) = head.resume(&GitOutcome::NotStarted("no git".to_owned())) else {
        panic!("not over");
    };
    assert_eq!(
        failed,
        Err(Error::Git("failed to verify HEAD in /work/repo: no git".to_owned()))
    );
}

#[test]
fn head_that_cannot_be_verified_is_an_error() {
    assert_eq!(
        repo().has_head_commit(&GitOutcome::NotStarted("no such file".to_owned())),
        Err(Error::Git(
            "failed to verify HEAD in /work/repo: no such file".to_owned()
        ))
    );
}

#[test]
fn paths_are_named_from_the_repository() {
    let repo = repo();
    let add = repo.add("/work/repo/memory/a.md").unwrap_or_else(|err| panic!("{err:?}"));
    assert_eq!(add.argv(), ["-C", "/work/repo", "add", "--", "memory/a.md"]);
    let add = repo.add_all("SOUL.md").unwrap_or_else(|err| panic!("{err:?}"));
    assert_eq!(add.argv(), ["-C", "/work/repo", "add", "-A", "--", "SOUL.md"]);
    let commit = repo
        .commit_path("commit soul only", "/work/repo/SOUL.md")
        .unwrap_or_else(|err| panic!("{err:?}"));
    assert_eq!(
        commit.argv(),
        [
            "-C",
            "/work/repo",
            "commit",
            "-m",
            "commit soul only",
            "--no-gpg-sign",
            "--",
            "SOUL.md"
        ]
    );
    let outside = Error::Git(
        "path /elsewhere/x is outside repository /work/repo: prefix not found".to_owned(),
    );
    assert_eq!(repo.add("/elsewhere/x").err(), Some(outside.clone()));
    assert_eq!(repo.add_all("/elsewhere/x").err(), Some(outside.clone()));
    assert_eq!(repo.commit_path("m", "/elsewhere/x").err(), Some(outside));
}

#[test]
fn commands_have_their_words() {
    let repo = repo();
    let words = |call: git_bak::git::GitCall| call.argv()[2..].join(" ");
    assert_eq!(words(repo.commit("seed")), "commit -m seed --no-gpg-sign");
    assert_eq!(words(repo.head()), "rev-parse HEAD");
    assert_eq!(words(repo.tag("v1")), "tag v1");
    assert_eq!(words(repo.checkout_branch("raw")), "checkout raw");
    assert_eq!(words(repo.create_branch("raw", None)), "branch raw");
    assert_eq!(
        words(repo.create_branch("checkpoint", Some("main"))),
        "branch checkpoint main"
    );
    assert_eq!(words(repo.merge_squash("raw")), "merge --squash raw");
    assert_eq!(words(repo.current_branch()), "rev-parse --abbrev-ref HEAD");
    assert_eq!(words(repo.push("origin")), "push origin HEAD");
    assert_eq!(repo.path(), "/work/repo");
    assert_eq!(GitRepo::git_dir("/work/repo"), "/work/repo/.git");
}

#[test]
fn failures_name_the_command() {
    let repo = repo();
    let failed = ended(false, b"", b"fatal: bad\r\n\n");
    assert_eq!(
        repo.run_git_args(&["bisect", "good", "v\"1"]).conclude(&failed),
        Err(Error::Git(
            "git [\"bisect\", \"good\", \"v\\\"1\"] failed in /work/repo: fatal: bad".to_owned()
        ))
    );
    assert_eq!(
        repo.run_git_os_args(&["tag", "v\"1"]).conclude(&failed),
        Err(Error::Git(
            "git command [\"tag\", \"v\\\"1\"] failed in /work/repo: fatal: bad".to_owned()
        ))
    );
    let missing = GitOutcome::NotStarted("no git here".to_owned());
    assert_eq!(
        repo.run_git_args(&["status"]).conclude(&missing),
        Err(Error::Git(
            "failed to run git [\"status\"] in /work/repo: no git here".to_owned()
        ))
    );
    assert_eq!(
        repo.run_git_os_args(&["tag", "x"]).conclude(&missing),
        Err(Error::Git(
            "failed to run git command in /work/repo: no git here".to_owned()
        ))
    );
}

#[test]
fn arguments_are_shown_as_std_shows_them() {
    let repo = repo();
    let failed = ended(false, b"", b"no\n");
    for word in ["it's", "a\tb", "\u{e4}\u{301}", "\u{200b}", "back\\slash"] {
        assert_eq!(
            repo.run_git_args(&["tag", word]).conclude(&failed),
            Err(Error::Git(format!("git {:?} failed in /work/repo: no", ["tag", word])))
        );
        let system = [std::path::Path::new("tag"), std::path::Path::new(word)];
        assert_eq!(
            repo.run_git_os_args(&["tag", word]).conclude(&failed),
            Err(Error::Git(format!("git command {system:?} failed in /work/repo: no")))
        );
    }
}

#[test]
fn output_that_is_not_utf8_is_decoded_all_the_same() {
    let handed = repo().status().conclude(&ended(true, b" M caf\xe9.md\n", b""));
    assert_eq!(handed, Ok(" M caf\u{fffd}.md".to_owned()));
}

#[test]
fn test_init_sets_identity_so_commit_works_without_manual_config() {
    let mut seen: Vec<String> = Vec::new();
    let mut step = GitRepo::init("/work/new");
    let repo = loop {
        step = match step {
            SetupStep::CreateDir(dir) => {
                assert_eq!(dir.path(), "/work/new");
                dir.resume(Ok(()))
            }
            SetupStep::Run(run) => {
                let words = run.call().argv()[2..].join(" ");
                let outcome = if words.starts_with("config --get") {
                    ended(false, b"", b"")
                } else {
                    ended(true, b"", b"")
                };
                seen.push(words);
                run.resume(&outcome)
            }
            SetupStep::Probe(probe) => {
                assert_eq!(probe.git_dir(), "/work/new/.git");
                probe.resume(true)
            }
            SetupStep::Done(result) => break result.unwrap_or_else(|err| panic!("{err:?}")),
        };
    };
    assert_eq!(repo.path(), "/work/new");
    assert_eq!(
        seen,
        [
            "init",
            "config --get user.name",
            "config --local user.name git-bak",
            "config --get user.email",
            "config --local user.email git-bak@localhost",
        ]
    );
}

#[test]
fn an_identity_that_is_there_is_kept() {
    let mut commands = 0;
    let mut step = GitRepo::init("/work/new");
    loop {
        step = match step {
            SetupStep::CreateDir(dir) => dir.resume(Ok(())),
            SetupStep::Run(run) => {
                commands += 1;
                run.resume(&ended(true, b"Ada\n", b""))
            }
            SetupStep::Probe(probe) => probe.resume(false),
            SetupStep::Done(result) => {
                assert_eq!(
                    result.err(),
                    Some(Error::Git("missing .git directory in /work/new".to_owned()))
                );
                break;
            }
        };
    }
    assert_eq!(commands, 3);
}

#[test]
fn an_empty_identity_counts_as_missing() {
    assert!(git_bak::setup::is_set(true, "Ada\n"));
    assert!(!git_bak::setup::is_set(true, "\r\n"));
    assert!(!git_bak::setup::is_set(false, "Ada\n"));
}

#[test]
fn a_setup_that_fails_says_where() {
    let SetupStep::CreateDir(dir) = GitRepo::init("/work/new") else {
        panic!("no directory");
    };
    let SetupStep::Done(result) = dir.resume(Err("denied".to_owned())) else {
        panic!("not over");
    };
    assert_eq!(
        result.err(),
        Some(Error::Git(
            "failed to create repository directory /work/new: denied".to_owned()
        ))
    );

    let SetupStep::CreateDir(dir) = GitRepo::init("/work/new") else {
        panic!("no directory");
    };
    let SetupStep::Run(run) = dir.resume(Ok(())) else {
        panic!("no command");
    };
    let SetupStep::Run(run) = run.resume(&ended(true, b"", b"")) else {
        panic!("no command");
    };
    let SetupStep::Done(result) = run.resume(&GitOutcome::NotStarted("gone".to_owned())) else {
        panic!("not over");
    };
    assert_eq!(
        result.err(),
        Some(Error::Git(
            "failed to read git config user.name in /work/new: gone".to_owned()
        ))
    );
}
