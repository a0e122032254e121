//! Which paths are backed up: an allowlist of glob patterns, and a denylist of paths that
//! hold secrets.
use vstd::prelude::*;

use crate::paths::{
    file_name, file_name_of, is_name, joined_path, law_file_in_a_directory_has_its_name,
    normalize_path, normalized,
};
use crate::text::{
    chars_of, contains_text, law_occurrence_has_something_around_it, occurs_in, same_text,
    starts_with, views,
};

verus! {

/// A pattern matches a text: `*` stands for any run of characters, the empty one too, `?` for
/// any one character, and every other character for itself.
pub open spec fn glob_matches(pattern: Seq<char>, text: Seq<char>) -> bool
    decreases pattern.len(),
{
    if pattern.len() == 0 {
        text.len() == 0
    } else {
        let head = pattern.drop_last();
        if pattern.last() == '*' {
            exists|k: int| 0 <= k <= text.len() && glob_matches(head, #[trigger] text.take(k))
        } else {
            text.len() > 0 && (pattern.last() == '?' || pattern.last() == text.last())
                && glob_matches(head, text.drop_last())
        }
    }
}

/// The name under which a path is matched: its last component, or nothing.
pub open spec fn name_of(path: Seq<char>) -> Seq<char> {
    match file_name_of(path) {
        Some(name) => name,
        None => Seq::empty(),
    }
}

/// One of the patterns matches the path, or matches its last component.
pub open spec fn allowed(path: Seq<char>, patterns: Seq<Seq<char>>) -> bool {
    exists|i: int| 0 <= i < patterns.len() && pattern_allows(#[trigger] patterns[i], path)
}

/// The path is backed up: a pattern asks for it, and it holds no secrets.
pub open spec fn watched(path: Seq<char>, patterns: Seq<Seq<char>>) -> bool {
    !denied(path) && allowed(path, patterns)
}

/// The pattern matches the path, or matches its last component.
pub open spec fn pattern_allows(pattern: Seq<char>, path: Seq<char>) -> bool {
    glob_matches(pattern, normalized(path)) || glob_matches(pattern, name_of(path))
}

/// The path may hold secrets: an environment file, a key or a certificate, or anything in a
/// directory `secrets`.
pub open spec fn denied(path: Seq<char>) -> bool {
    ||| name_of(path) == ".env"@
    ||| ".env."@.is_prefix_of(name_of(path))
    ||| ".pem"@.is_suffix_of(name_of(path))
    ||| ".key"@.is_suffix_of(name_of(path))
    ||| "secrets/"@.is_prefix_of(normalized(path))
    ||| occurs_in("/secrets/"@, normalized(path))
}

/// A trailing star matches what the rest of the pattern matches, and then any one character
/// more.
proof fn lemma_star_step(pattern: Seq<char>, text: Seq<char>)
    requires
        pattern.len() > 0,
        pattern.last() == '*',
    ensures
        glob_matches(pattern, text) == (glob_matches(pattern.drop_last(), text) || (text.len() > 0
            && glob_matches(pattern, text.drop_last()))),
{
    let head = pattern.drop_last();
    assert(text.take(text.len() as int) =~= text);
    if glob_matches(pattern, text) {
        let k = choose|k: int| 0 <= k <= text.len() && glob_matches(head, #[trigger] text.take(k));
        if k < text.len() {
            assert(text.drop_last().take(k) =~= text.take(k));
        }
    }
    if text.len() > 0 && glob_matches(pattern, text.drop_last()) {
        let k = choose|k: int|
            0 <= k <= text.drop_last().len() && glob_matches(
                head,
                #[trigger] text.drop_last().take(k),
            );
        assert(text.drop_last().take(k) =~= text.take(k));
    }
}

/// Whether a pattern matches a text.
pub fn matches_glob(pattern: &str, text: &str) -> (found: bool)
    ensures
        found == glob_matches(pattern@, text@),
{
    let pattern_chars: Vec<char> = chars_of(pattern);
    let text_chars: Vec<char> = chars_of(text);
    let width: usize = text_chars.len();
    // row[j]: the part of the pattern seen so far matches the first j characters.
    let mut row: Vec<bool> = Vec::new();
    row.push(true);
    for j in 0..width
        invariant
            width == text@.len(),
            row@.len() == j + 1,
            forall|k: int|
                0 <= k < row@.len() ==> row@[k] == glob_matches(
                    pattern@.take(0),
                    #[trigger] text@.take(k),
                ),
    {
        row.push(false);
    }
    for i in 0..pattern_chars.len()
        invariant
            pattern_chars@ == pattern@,
            text_chars@ == text@,
            width == text@.len(),
            row@.len() == width + 1,
            forall|k: int|
                0 <= k <= width ==> row@[k] == glob_matches(
                    pattern@.take(i as int),
                    #[trigger] text@.take(k),
                ),
    {
        let wanted: char = pattern_chars[i];
        let ghost seen = pattern@.take(i + 1);
        assert(seen.drop_last() =~= pattern@.take(i as int));
        assert(text@.take(0) =~= Seq::<char>::empty());
        let mut next: Vec<bool> = Vec::new();
        proof {
            if wanted == '*' {
                lemma_star_step(seen, text@.take(0));
            }
        }
        next.push(wanted == '*' && row[0]);
        for j in 0..width
            invariant
                text_chars@ == text@,
                width == text@.len(),
                row@.len() == width + 1,
                next@.len() == j + 1,
                seen.len() > 0,
                seen.last() == wanted,
                seen.drop_last() == pattern@.take(i as int),
                forall|k: int|
                    0 <= k <= width ==> row@[k] == glob_matches(
                        pattern@.take(i as int),
                        #[trigger] text@.take(k),
                    ),
                forall|k: int|
                    0 <= k < next@.len() ==> next@[k] == glob_matches(
                        seen,
                        #[trigger] text@.take(k),
                    ),
        {
            let ghost now = text@.take(j + 1);
            assert(now.drop_last() =~= text@.take(j as int));
            proof {
                if wanted == '*' {
                    lemma_star_step(seen, now);
                }
            }
            let matched: bool = if wanted == '*' {
                row[j + 1] || next[j]
            } else {
                (wanted == '?' || wanted == text_chars[j]) && row[j]
            };
            next.push(matched);
        }
        row = next;
    }
    assert(pattern@.take(pattern@.len() as int) =~= pattern@);
    assert(text@.take(text@.len() as int) =~= text@);
    row[width]
}

/// The filter that decides which paths are backed up.
#[derive(Debug, Default, Clone, Copy)]
pub struct PathFilter;

impl PathFilter {
    /// Whether one of the patterns matches the path or its last component.
    pub fn matches_allowlist(path: &str, patterns: &[String]) -> (found: bool)
        ensures
            found == allowed(path@, views(patterns@)),
    {
        let normalized_path: String = normalize_path(path);
        let name: String = match file_name(path) {
            Some(name) => name,
            None => String::new(),
        };
        for i in 0..patterns.len()
            invariant
                normalized_path@ == normalized(path@),
                name@ == name_of(path@),
                forall|k: int|
                    0 <= k < i ==> !pattern_allows(#[trigger] views(patterns@)[k], path@),
        {
            let pattern: &str = patterns[i].as_str();
            assert(views(patterns@)[i as int] == pattern@);
            if matches_glob(pattern, normalized_path.as_str()) || matches_glob(
                pattern,
                name.as_str(),
            ) {
                return true;
            }
        }
        false
    }

    /// Whether the path may hold secrets.
    pub fn matches_denylist(path: &str) -> (found: bool)
        ensures
            found == denied(path@),
    {
        let normalized_path: String = normalize_path(path);
        let name: String = match file_name(path) {
            Some(name) => name,
            None => String::new(),
        };
        if same_text(name.as_str(), ".env") || starts_with(name.as_str(), ".env.") {
            return true;
        }
        proof {
            reveal_strlit("*.pem");
            reveal_strlit("*.key");
            reveal_strlit(".pem");
            reveal_strlit(".key");
            assert("*.pem"@ =~= seq!['*'] + ".pem"@);
            assert("*.key"@ =~= seq!['*'] + ".key"@);
            law_star_then_literal_is_suffix(".pem"@, name@);
            law_star_then_literal_is_suffix(".key"@, name@);
        }
        if matches_glob("*.pem", name.as_str()) || matches_glob("*.key", name.as_str()) {
            return true;
        }
        starts_with(normalized_path.as_str(), "secrets/") || contains_text(
            normalized_path.as_str(),
            "/secrets/",
        )
    }
}

/// The pattern holds no wildcard.
pub open spec fn is_literal(pattern: Seq<char>) -> bool {
    forall|i: int| 0 <= i < pattern.len() ==> #[trigger] pattern[i] != '*' && pattern[i] != '?'
}

/// A pattern without wildcards matches exactly its own text.
pub proof fn law_literal_matches_itself(pattern: Seq<char>, text: Seq<char>)
    requires
        is_literal(pattern),
    ensures
        glob_matches(pattern, text) <==> pattern == text,
    decreases pattern.len(),
{
    if pattern.len() == 0 {
        assert(text.len() == 0 ==> pattern =~= text);
    } else {
        assert(pattern.last() == pattern[pattern.len() - 1]);
        if text.len() > 0 {
            law_literal_matches_itself(pattern.drop_last(), text.drop_last());
            if pattern.last() == text.last() && pattern.drop_last() == text.drop_last() {
                assert(pattern =~= pattern.drop_last().push(pattern.last()));
                assert(text =~= text.drop_last().push(text.last()));
            }
        }
    }
}

/// A star alone matches every text.
pub proof fn law_star_matches_everything(text: Seq<char>)
    ensures
        glob_matches(seq!['*'], text),
{
    assert(seq!['*'].drop_last() =~= Seq::<char>::empty());
    assert(glob_matches(seq!['*'].drop_last(), text.take(0)));
}

/// A star and then a text without wildcards matches exactly the texts that end with it.
pub proof fn law_star_then_literal_is_suffix(suffix: Seq<char>, text: Seq<char>)
    requires
        is_literal(suffix),
    ensures
        glob_matches(seq!['*'] + suffix, text) <==> suffix.is_suffix_of(text),
    decreases suffix.len(),
{
    let pattern = seq!['*'] + suffix;
    if suffix.len() == 0 {
        law_star_matches_everything(text);
        assert(pattern =~= seq!['*']);
        assert(text.subrange(text.len() as int, text.len() as int) =~= suffix);
    } else {
        assert(pattern.drop_last() =~= seq!['*'] + suffix.drop_last());
        assert(pattern.last() == suffix.last());
        assert(suffix.last() == suffix[suffix.len() - 1]);
        if text.len() > 0 {
            law_star_then_literal_is_suffix(suffix.drop_last(), text.drop_last());
            let cut = text.subrange(text.len() - suffix.len(), text.len() as int);
            let short = text.drop_last().subrange(
                text.len() - suffix.len(),
                text.len() - 1,
            );
            if suffix.len() <= text.len() {
                assert(short =~= cut.drop_last());
                if suffix == cut {
                    assert(suffix.drop_last() =~= short);
                }
                if suffix.drop_last() == short && suffix.last() == text.last() {
                    assert(suffix =~= suffix.drop_last().push(suffix.last()));
                    assert(cut =~= cut.drop_last().push(cut.last()));
                }
            }
        }
    }
}

/// Where two patterns match two texts, the patterns one behind the other match the texts one behind
/// the other. So a `*` matches whatever stands in its place, and a `?` any one character.
pub proof fn law_patterns_match_piece_by_piece(
    pattern: Seq<char>,
    text: Seq<char>,
    next: Seq<char>,
    behind: Seq<char>,
)
    requires
        glob_matches(pattern, text),
        glob_matches(next, behind),
    ensures
        glob_matches(pattern + next, text + behind),
    decreases next.len(),
{
    let whole = pattern + next;
    let all = text + behind;
    if next.len() == 0 {
        assert(whole =~= pattern);
        assert(all =~= text);
    } else {
        let head = next.drop_last();
        assert(whole.drop_last() =~= pattern + head);
        assert(whole.last() == next.last());
        if next.last() == '*' {
            let k = choose|k: int|
                0 <= k <= behind.len() && glob_matches(head, #[trigger] behind.take(k));
            law_patterns_match_piece_by_piece(pattern, text, head, behind.take(k));
            assert(text + behind.take(k) =~= all.take(text.len() + k));
        } else {
            law_patterns_match_piece_by_piece(pattern, text, head, behind.drop_last());
            assert(text + behind.drop_last() =~= all.drop_last());
            assert(all.last() == behind.last());
        }
    }
}

/// Every text matches itself as a pattern, a star between two texts matches everything that stands
/// there, and so does a question mark with one character.
pub proof fn law_wildcards_stand_for_what_is_there(
    before: Seq<char>,
    between: Seq<char>,
    c: char,
    behind: Seq<char>,
)
    ensures
        glob_matches(before, before),
        glob_matches(before + seq!['*'] + behind, before + between + behind),
        glob_matches(before + seq!['?'] + behind, before + seq![c] + behind),
{
    lemma_text_matches_itself(before);
    lemma_text_matches_itself(behind);
    law_star_matches_everything(between);
    assert(glob_matches(seq!['?'], seq![c])) by {
        assert(seq!['?'].drop_last() =~= Seq::<char>::empty());
        reveal_with_fuel(glob_matches, 2);
    }
    law_patterns_match_piece_by_piece(before, before, seq!['*'], between);
    law_patterns_match_piece_by_piece(before + seq!['*'], before + between, behind, behind);
    law_patterns_match_piece_by_piece(before, before, seq!['?'], seq![c]);
    law_patterns_match_piece_by_piece(before + seq!['?'], before + seq![c], behind, behind);
}

proof fn lemma_text_matches_itself(text: Seq<char>)
    ensures
        glob_matches(text, text),
    decreases text.len(),
{
    if text.len() > 0 {
        lemma_text_matches_itself(text.drop_last());
        assert(text.take(text.len() - 1) =~= text.drop_last());
    }
}

/// A text that a pattern matches is made of a part that the pattern's beginning matches and a part
/// that the rest of it matches, wherever the pattern is cut.
pub proof fn law_matches_split_with_the_pattern(
    pattern: Seq<char>,
    next: Seq<char>,
    text: Seq<char>,
)
    requires
        glob_matches(pattern + next, text),
    ensures
        exists|k: int|
            0 <= k <= text.len() && glob_matches(pattern, #[trigger] text.take(k))
                && glob_matches(next, text.skip(k)),
    decreases next.len(),
{
    let whole = pattern + next;
    if next.len() == 0 {
        assert(whole =~= pattern);
        assert(text.take(text.len() as int) =~= text);
        assert(text.skip(text.len() as int) =~= Seq::empty());
        assert(glob_matches(pattern, text.take(text.len() as int)));
    } else {
        let head = next.drop_last();
        assert(whole.drop_last() =~= pattern + head);
        assert(whole.last() == next.last());
        if next.last() == '*' {
            let m = choose|m: int|
                0 <= m <= text.len() && glob_matches(whole.drop_last(), #[trigger] text.take(m));
            let part = text.take(m);
            law_matches_split_with_the_pattern(pattern, head, part);
            let k = choose|k: int|
                0 <= k <= part.len() && glob_matches(pattern, #[trigger] part.take(k))
                    && glob_matches(head, part.skip(k));
            assert(part.take(k) =~= text.take(k));
            assert(text.skip(k).take(m - k) =~= part.skip(k));
            assert(glob_matches(next, text.skip(k)));
        } else {
            let part = text.drop_last();
            law_matches_split_with_the_pattern(pattern, head, part);
            let k = choose|k: int|
                0 <= k <= part.len() && glob_matches(pattern, #[trigger] part.take(k))
                    && glob_matches(head, part.skip(k));
            assert(part.take(k) =~= text.take(k));
            assert(text.skip(k).drop_last() =~= part.skip(k));
            assert(text.skip(k).last() == text.last());
            assert(glob_matches(next, text.skip(k)));
        }
    }
}

/// A question mark matches every text of one character and no other.
pub proof fn law_question_mark_matches_one_character(text: Seq<char>)
    ensures
        glob_matches(seq!['?'], text) <==> text.len() == 1,
{
    assert(seq!['?'].drop_last() =~= Seq::<char>::empty());
    reveal_with_fuel(glob_matches, 2);
}

/// A path is allowed where a pattern is the path itself, or the name of the file, in whatever
/// directory it stands.
pub proof fn law_named_files_are_allowed(
    dir: Seq<char>,
    name: Seq<char>,
    path: Seq<char>,
    patterns: Seq<Seq<char>>,
)
    requires
        is_name(name),
        forall|i: int| 0 <= i < path.len() ==> path[i] != '\\',
    ensures
        patterns.contains(path) ==> allowed(path, patterns),
        patterns.contains(name) ==> allowed(joined_path(dir, name), patterns),
        patterns.contains(name) ==> allowed(name, patterns),
{
    lemma_text_matches_itself(path);
    lemma_text_matches_itself(name);
    law_file_in_a_directory_has_its_name(dir, name);
    assert(normalized(path) =~= path);
    if patterns.contains(path) {
        let i = choose|i: int| 0 <= i < patterns.len() && patterns[i] == path;
        assert(pattern_allows(patterns[i], path));
    }
    if patterns.contains(name) {
        let i = choose|i: int| 0 <= i < patterns.len() && patterns[i] == name;
        assert(pattern_allows(patterns[i], joined_path(dir, name)));
        assert(pattern_allows(patterns[i], name));
    }
}

/// A path is allowed exactly by the patterns that allow it alone: each further pattern allows what
/// it allows, and takes nothing away. Without patterns nothing is allowed.
pub proof fn law_each_pattern_allows_by_itself(
    path: Seq<char>,
    patterns: Seq<Seq<char>>,
    more: Seq<Seq<char>>,
)
    ensures
        allowed(path, patterns + more) == (allowed(path, patterns) || allowed(path, more)),
        !allowed(path, Seq::empty()),
{
    let all = patterns + more;
    if allowed(path, patterns) {
        let i = choose|i: int|
            0 <= i < patterns.len() && pattern_allows(#[trigger] patterns[i], path);
        assert(all[i] == patterns[i]);
    }
    if allowed(path, more) {
        let i = choose|i: int| 0 <= i < more.len() && pattern_allows(#[trigger] more[i], path);
        assert(all[patterns.len() + i] == more[i]);
    }
    if allowed(path, all) {
        let i = choose|i: int| 0 <= i < all.len() && pattern_allows(#[trigger] all[i], path);
        if i < patterns.len() {
            assert(all[i] == patterns[i]);
        } else {
            assert(all[i] == more[i - patterns.len()]);
        }
    }
}

/// A pattern allows the paths that it matches, and the paths whose last component it matches, and
/// no others.
pub proof fn law_a_pattern_allows_what_it_matches(
    path: Seq<char>,
    pattern: Seq<char>,
    dir: Seq<char>,
    name: Seq<char>,
)
    requires
        forall|i: int| 0 <= i < path.len() ==> path[i] != '\\',
        is_name(name),
    ensures
        glob_matches(pattern, path) ==> allowed(path, seq![pattern]),
        glob_matches(pattern, name) ==> allowed(joined_path(dir, name), seq![pattern]),
        path == joined_path(dir, name) && allowed(path, seq![pattern]) ==> glob_matches(
            pattern,
            path,
        ) || glob_matches(pattern, name),
{
    let patterns = seq![pattern];
    assert(normalized(path) =~= path);
    law_file_in_a_directory_has_its_name(dir, name);
    assert(patterns[0] == pattern);
    if glob_matches(pattern, path) {
        assert(pattern_allows(patterns[0], path));
    }
    if glob_matches(pattern, name) {
        assert(pattern_allows(patterns[0], joined_path(dir, name)));
    }
}

/// Everything in a directory `secrets` is denied, at whatever depth, and so is every file that is
/// named like an environment file, a certificate or a key, in whatever directory.
pub proof fn law_secrets_are_denied(a: Seq<char>, b: Seq<char>, dir: Seq<char>, name: Seq<char>)
    requires
        is_name(name),
    ensures
        denied(a + "/secrets/"@ + b),
        denied("secrets/"@ + b),
        denied(a + "\\secrets\\"@ + b),
        name == ".env"@ ==> denied(joined_path(dir, name)) && denied(name),
        ".env."@.is_prefix_of(name) ==> denied(joined_path(dir, name)) && denied(name),
        ".pem"@.is_suffix_of(name) ==> denied(joined_path(dir, name)) && denied(name),
        ".key"@.is_suffix_of(name) ==> denied(joined_path(dir, name)) && denied(name),
{
    reveal_strlit("/secrets/");
    reveal_strlit("secrets/");
    reveal_strlit("\\secrets\\");
    let deep = a + "/secrets/"@ + b;
    assert(normalized(deep) =~= normalized(a) + "/secrets/"@ + normalized(b));
    law_occurrence_has_something_around_it(
        normalized(a),
        "/secrets/"@,
        normalized(b),
        Seq::empty(),
    );
    let slanted = a + "\\secrets\\"@ + b;
    assert(normalized(slanted) =~= normalized(a) + "/secrets/"@ + normalized(b));
    let top = "secrets/"@ + b;
    assert(normalized(top) =~= "secrets/"@ + normalized(b));
    assert(normalized(top).subrange(0, "secrets/"@.len() as int) =~= "secrets/"@);
    law_file_in_a_directory_has_its_name(dir, name);
}

/// Nothing else is denied: a file is denied only for its name or for a directory `secrets` on its
/// way.
pub proof fn law_only_secrets_are_denied(dir: Seq<char>, name: Seq<char>)
    requires
        is_name(name),
        denied(joined_path(dir, name)),
    ensures
        ({
            let path = normalized(joined_path(dir, name));
            ||| name == ".env"@
            ||| exists|rest: Seq<char>| #[trigger] (".env."@ + rest) == name
            ||| exists|start: Seq<char>| #[trigger] (start + ".pem"@) == name
            ||| exists|start: Seq<char>| #[trigger] (start + ".key"@) == name
            ||| exists|rest: Seq<char>| #[trigger] ("secrets/"@ + rest) == path
            ||| exists|a: Seq<char>, b: Seq<char>| #[trigger] (a + "/secrets/"@ + b) == path
        }),
{
    law_file_in_a_directory_has_its_name(dir, name);
    let path = normalized(joined_path(dir, name));
    if ".env."@.is_prefix_of(name) {
        let rest = name.skip(".env."@.len() as int);
        assert(".env."@ + rest =~= name);
    }
    if ".pem"@.is_suffix_of(name) {
        let start = name.take(name.len() - ".pem"@.len());
        assert(start + ".pem"@ =~= name);
    }
    if ".key"@.is_suffix_of(name) {
        let start = name.take(name.len() - ".key"@.len());
        assert(start + ".key"@ =~= name);
    }
    if "secrets/"@.is_prefix_of(path) {
        let rest = path.skip("secrets/"@.len() as int);
        assert("secrets/"@ + rest =~= path);
    }
    law_occurrence_has_something_around_it(Seq::empty(), "/secrets/"@, Seq::empty(), path);
}

/// A path is backed up exactly where a pattern asks for it and it is not denied, whatever the
/// patterns are: no pattern brings a secret in.
pub proof fn law_no_pattern_brings_a_secret_in(
    a: Seq<char>,
    b: Seq<char>,
    path: Seq<char>,
    patterns: Seq<Seq<char>>,
)
    ensures
        !watched(a + "/secrets/"@ + b, patterns),
        watched(path, patterns) ==> allowed(path, patterns) && !denied(path),
        allowed(path, patterns) && !denied(path) ==> watched(path, patterns),
{
    let name = seq!['x'];
    assert(is_name(name)) by {
        reveal_strlit(".");
        reveal_strlit("..");
        assert(name[0] == 'x');
    }
    law_secrets_are_denied(a, b, Seq::empty(), name);
}

} // verus!
