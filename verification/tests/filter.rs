use git_bak::filter::{matches_glob, PathFilter};

#[test]
fn test_matches_allowlist_supports_file_and_glob_patterns() {
    let patterns = vec![
        "SOUL.md".to_owned(),
        "memory/*.md".to_owned(),
        "AGENTS.md".to_owned(),
    ];

    assert!(PathFilter::matches_allowlist("SOUL.md", &patterns));
    assert!(PathFilter::matches_allowlist("memory/session.md", &patterns));
    assert!(!PathFilter::matches_allowlist("notes.txt", &patterns));
}

#[test]
fn test_matches_denylist_blocks_secret_patterns() {
    assert!(PathFilter::matches_denylist(".env"));
    assert!(PathFilter::matches_denylist(".env.local"));
    assert!(PathFilter::matches_denylist("keys/private.key"));
    assert!(PathFilter::matches_denylist("tls/cert.pem"));
    assert!(PathFilter::matches_denylist("secrets/token.txt"));
    assert!(!PathFilter::matches_denylist("memory/notes.md"));
}

#[test]
fn nothing_is_allowed_without_patterns() {
    assert!(!PathFilter::matches_allowlist("SOUL.md", &[]));
}

#[test]
fn a_literal_matches_itself_alone() {
    assert!(matches_glob("SOUL.md", "SOUL.md"));
    assert!(!matches_glob("SOUL.md", "SOUL.mdx"));
    assert!(!matches_glob("SOUL.md", "xSOUL.md"));
    assert!(matches_glob("", ""));
    assert!(!matches_glob("", "a"));
}

#[test]
fn a_star_matches_everything() {
    assert!(matches_glob("*", ""));
    assert!(matches_glob("*", "a/b/c.md"));
    assert!(matches_glob("**", "a/b/c.md"));
}

#[test]
fn a_star_before_a_literal_asks_for_a_suffix() {
    assert!(matches_glob("*.md", "memory/x.md"));
    assert!(matches_glob("*.md", ".md"));
    assert!(!matches_glob("*.md", "x.md.bak"));
}

#[test]
fn stars_between_literals_take_what_lies_between() {
    assert!(matches_glob("a*b*c", "abc"));
    assert!(matches_glob("a*b*c", "a--b--b--c"));
    assert!(!matches_glob("a*b*c", "a--c--b"));
}
