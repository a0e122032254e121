//! Text as sequences of characters: searching, trimming, cutting into lines, and
//! the few pieces of formatting that error messages need.
use vstd::prelude::*;

verus! {

/// `needle` stands somewhere in `hay`.
pub open spec fn occurs_in(needle: Seq<char>, hay: Seq<char>) -> bool {
    exists|i: int|
        0 <= i <= hay.len() - needle.len() && #[trigger] hay.subrange(i, i + needle.len())
            == needle
}

/// A character with the Unicode property `White_Space`.
pub open spec fn is_white_space(c: char) -> bool {
    ||| '\u{9}' <= c && c <= '\u{d}'
    ||| c == ' '
    ||| c == '\u{85}'
    ||| c == '\u{a0}'
    ||| c == '\u{1680}'
    ||| '\u{2000}' <= c && c <= '\u{200a}'
    ||| c == '\u{2028}'
    ||| c == '\u{2029}'
    ||| c == '\u{202f}'
    ||| c == '\u{205f}'
    ||| c == '\u{3000}'
}

/// A character that ends a line of a command's output.
pub open spec fn is_line_end(c: char) -> bool {
    c == '\n' || c == '\r'
}

/// `s` without the longest tail of characters for which `drop` holds.
pub open spec fn without_tail(s: Seq<char>, drop: spec_fn(char) -> bool) -> Seq<char>
    decreases s.len(),
{
    if s.len() > 0 && drop(s.last()) {
        without_tail(s.drop_last(), drop)
    } else {
        s
    }
}

/// `s` without the longest head of characters for which `drop` holds.
pub open spec fn without_head(s: Seq<char>, drop: spec_fn(char) -> bool) -> Seq<char>
    decreases s.len(),
{
    if s.len() > 0 && drop(s.first()) {
        without_head(s.drop_first(), drop)
    } else {
        s
    }
}

/// `s` without white space at its end.
pub open spec fn trimmed_end(s: Seq<char>) -> Seq<char> {
    without_tail(s, |c: char| is_white_space(c))
}

/// `s` without white space at its start and at its end.
pub open spec fn trimmed(s: Seq<char>) -> Seq<char> {
    trimmed_end(without_head(s, |c: char| is_white_space(c)))
}

/// `s` without the line feeds and carriage returns at its end.
pub open spec fn without_line_ends(s: Seq<char>) -> Seq<char> {
    without_tail(s, |c: char| is_line_end(c))
}

/// Where the first `c` at or behind `from` stands; the length of `s` if there is none.
pub open spec fn next_index(s: Seq<char>, c: char, from: int) -> int
    decreases s.len() - from,
{
    if from < 0 || from >= s.len() || s[from] == c {
        from
    } else {
        next_index(s, c, from + 1)
    }
}

/// A line's text without the carriage return that stood before its line feed.
pub open spec fn without_carriage_return(s: Seq<char>) -> Seq<char> {
    if s.len() > 0 && s.last() == '\r' {
        s.drop_last()
    } else {
        s
    }
}

/// The lines of a text, from `from` on. A line ends with a line feed, or with a carriage
/// return and a line feed; what stands behind the last line feed is a line unless it is empty.
pub open spec fn lines_from(s: Seq<char>, from: int) -> Seq<Seq<char>>
    decreases s.len() - from,
    when 0 <= from
    via lines_from_decreases
{
    if from >= s.len() {
        Seq::empty()
    } else {
        let end = next_index(s, '\n', from);
        if end < s.len() {
            seq![without_carriage_return(s.subrange(from, end))] + lines_from(s, end + 1)
        } else {
            seq![s.subrange(from, end)]
        }
    }
}

#[via_fn]
proof fn lines_from_decreases(s: Seq<char>, from: int) {
    if 0 <= from < s.len() {
        lemma_next_index(s, '\n', from);
    }
}

/// The lines of a text.
pub open spec fn lines(s: Seq<char>) -> Seq<Seq<char>> {
    lines_from(s, 0)
}

pub proof fn lemma_next_index(s: Seq<char>, c: char, from: int)
    requires
        0 <= from <= s.len(),
    ensures
        from <= next_index(s, c, from) <= s.len(),
        next_index(s, c, from) < s.len() ==> s[next_index(s, c, from)] == c,
        forall|i: int| from <= i < next_index(s, c, from) ==> s[i] != c,
    decreases s.len() - from,
{
    if from < s.len() && s[from] != c {
        lemma_next_index(s, c, from + 1);
    }
}

/// The decimal digit of `n`, which is below ten.
pub open spec fn digit(n: int) -> char {
    (n + 48) as char
}

/// A natural number in decimal notation.
pub open spec fn decimal(n: nat) -> Seq<char>
    decreases n,
{
    if n < 10 {
        seq![digit(n as int)]
    } else {
        decimal(n / 10).push(digit((n % 10) as int))
    }
}

/// The characters of each text.
pub open spec fn views(texts: Seq<String>) -> Seq<Seq<char>> {
    texts.map_values(|text: String| text@)
}

/// The texts one behind the other, with `separator` between each two.
pub open spec fn joined(parts: Seq<Seq<char>>, separator: Seq<char>) -> Seq<char>
    decreases parts.len(),
{
    if parts.len() == 0 {
        Seq::empty()
    } else if parts.len() == 1 {
        parts[0]
    } else {
        joined(parts.drop_last(), separator) + separator + parts.last()
    }
}

/// What `String::from_utf8_lossy` makes of bytes.
pub uninterp spec fn utf8_lossy(bytes: Seq<u8>) -> Seq<char>;

/// The text that bytes stand for: valid UTF-8 is decoded as it is, and of other bytes
/// `String::from_utf8_lossy` makes a text.
pub open spec fn decoded(bytes: Seq<u8>) -> Seq<char> {
    if vstd::utf8::valid_utf8(bytes) {
        vstd::utf8::decode_utf8(bytes)
    } else {
        utf8_lossy(bytes)
    }
}

/// What `str::to_lowercase` makes of a text.
pub uninterp spec fn lower_case(text: Seq<char>) -> Seq<char>;

/// How a `str` is written with `{:?}`: in double quotes, with escapes.
pub uninterp spec fn debug_text(text: Seq<char>) -> Seq<char>;

/// How a path is written with `{:?}`: in double quotes, with escapes.
pub uninterp spec fn debug_path(text: Seq<char>) -> Seq<char>;

/// `String::push` puts the character behind the text.
pub assume_specification[ String::push ](text: &mut String, c: char)
    ensures
        final(text)@ == old(text)@.push(c),
;

/// `String::from_utf8_lossy`: valid UTF-8 is decoded as it is. Elsewhere the result is only
/// named; which bytes become replacement characters is not said.
#[verifier::external_body]
pub(crate) fn decode_lossy(bytes: &[u8]) -> (text: String)
    ensures
        text@ == utf8_lossy(bytes@),
        vstd::utf8::valid_utf8(bytes@) ==> text@ == vstd::utf8::decode_utf8(bytes@),
{
    String::from_utf8_lossy(bytes).into_owned()
}

/// `str::to_lowercase`, whose result is only named: it follows Unicode's tables.
#[verifier::external_body]
pub(crate) fn to_lower_case(text: &str) -> (lower: String)
    ensures
        lower@ == lower_case(text@),
{
    text.to_lowercase()
}

/// `{:?}` of a `str`, whose result is only named: which characters are escaped follows
/// Unicode's tables.
#[verifier::external_body]
pub(crate) fn format_debug(text: &str) -> (written: String)
    ensures
        written@ == debug_text(text@),
{
    format!("{:?}", text)
}

/// `{:?}` of a path, whose result is only named. It differs from that of a `str` in that single
/// quotes are escaped too.
#[verifier::external_body]
pub(crate) fn format_debug_path(text: &str) -> (written: String)
    ensures
        written@ == debug_path(text@),
{
    format!("{:?}", std::path::Path::new(text))
}

/// The characters of a text.
pub fn chars_of(text: &str) -> (chars: Vec<char>)
    ensures
        chars@ == text@,
{
    let mut chars: Vec<char> = Vec::new();
    for c in it: text.chars()
        invariant
            chars@ == it.seq().take(it.index()),
            it.seq() == text@,
    {
        chars.push(c);
    }
    chars
}

/// The text made of the given characters.
pub fn text_of(chars: &[char]) -> (text: String)
    ensures
        text@ == chars@,
{
    text_of_range(chars, 0, chars.len())
}

/// The text made of the characters from `start` up to `end`.
pub fn text_of_range(chars: &[char], start: usize, end: usize) -> (text: String)
    requires
        start <= end <= chars@.len(),
    ensures
        text@ == chars@.subrange(start as int, end as int),
{
    let mut text: String = String::new();
    for i in start..end
        invariant
            start <= i <= end <= chars@.len(),
            text@ == chars@.subrange(start as int, i as int),
    {
        text.push(chars[i]);
    }
    text
}

/// Whether two texts hold the same characters.
pub fn same_text(a: &str, b: &str) -> (same: bool)
    ensures
        same == (a@ == b@),
{
    a.to_owned() == b.to_owned()
}

fn matches_at(hay: &[char], needle: &[char], start: usize) -> (found: bool)
    requires
        start + needle@.len() <= hay@.len(),
    ensures
        found == (hay@.subrange(start as int, start + needle@.len()) == needle@),
{
    let ghost window = hay@.subrange(start as int, start + needle@.len());
    let total: usize = hay.len();
    for i in 0..needle.len()
        invariant
            total == hay@.len(),
            start + needle@.len() <= hay@.len(),
            window == hay@.subrange(start as int, start + needle@.len()),
            forall|j: int| 0 <= j < i ==> window[j] == needle@[j],
    {
        if hay[start + i] != needle[i] {
            assert(window[i as int] != needle@[i as int]);
            return false;
        }
    }
    assert(window =~= needle@);
    true
}

/// Whether `needle` stands somewhere in `hay`.
pub fn contains_text(hay: &str, needle: &str) -> (found: bool)
    ensures
        found == occurs_in(needle@, hay@),
{
    let hay_chars: Vec<char> = chars_of(hay);
    let needle_chars: Vec<char> = chars_of(needle);
    if needle_chars.len() > hay_chars.len() {
        return false;
    }
    let last: usize = hay_chars.len() - needle_chars.len();
    let mut start: usize = 0;
    while start <= last
        invariant
            hay_chars@ == hay@,
            needle_chars@ == needle@,
            last + needle@.len() == hay@.len(),
            start <= last + 1,
            forall|i: int|
                0 <= i < start ==> #[trigger] hay@.subrange(i, i + needle@.len()) != needle@,
        decreases last + 1 - start,
    {
        if matches_at(&hay_chars, &needle_chars, start) {
            return true;
        }
        if start == last {
            return false;
        }
        start += 1;
    }
    false
}

/// Whether `text` begins with `prefix`.
pub fn starts_with(text: &str, prefix: &str) -> (found: bool)
    ensures
        found == prefix@.is_prefix_of(text@),
{
    let chars: Vec<char> = chars_of(text);
    let prefix_chars: Vec<char> = chars_of(prefix);
    if prefix_chars.len() > chars.len() {
        return false;
    }
    matches_at(&chars, &prefix_chars, 0)
}

/// Whether `text` ends with `suffix`.
pub fn ends_with(text: &str, suffix: &str) -> (found: bool)
    ensures
        found == suffix@.is_suffix_of(text@),
{
    let chars: Vec<char> = chars_of(text);
    let suffix_chars: Vec<char> = chars_of(suffix);
    if suffix_chars.len() > chars.len() {
        return false;
    }
    matches_at(&chars, &suffix_chars, chars.len() - suffix_chars.len())
}

/// Whether a character is white space.
pub fn white_space(c: char) -> (found: bool)
    ensures
        found == is_white_space(c),
{
    ('\u{9}' <= c && c <= '\u{d}') || c == ' ' || c == '\u{85}' || c == '\u{a0}' || c
        == '\u{1680}' || ('\u{2000}' <= c && c <= '\u{200a}') || c == '\u{2028}' || c
        == '\u{2029}' || c == '\u{202f}' || c == '\u{205f}' || c == '\u{3000}'
}

/// A text without the white space at its end.
pub fn trim_end(text: &str) -> (kept: String)
    ensures
        kept@ == trimmed_end(text@),
{
    let chars: Vec<char> = chars_of(text);
    let ghost drop = |c: char| is_white_space(c);
    let mut end: usize = chars.len();
    assert(chars@.take(end as int) =~= chars@);
    while end > 0 && white_space(chars[end - 1])
        invariant
            end <= chars@.len(),
            chars@ == text@,
            drop == (|c: char| is_white_space(c)),
            without_tail(chars@.take(end as int), drop) == without_tail(text@, drop),
        decreases end,
    {
        assert(chars@.take(end as int).drop_last() =~= chars@.take(end - 1));
        end -= 1;
    }
    text_of_range(&chars, 0, end)
}

/// A text without the white space at its start and its end.
pub fn trim(text: &str) -> (kept: String)
    ensures
        kept@ == trimmed(text@),
{
    let chars: Vec<char> = chars_of(text);
    let ghost drop = |c: char| is_white_space(c);
    let mut start: usize = 0;
    assert(chars@.skip(0) =~= chars@);
    while start < chars.len() && white_space(chars[start])
        invariant
            start <= chars@.len(),
            chars@ == text@,
            drop == (|c: char| is_white_space(c)),
            without_head(chars@.skip(start as int), drop) == without_head(text@, drop),
        decreases chars@.len() - start,
    {
        assert(chars@.skip(start as int).drop_first() =~= chars@.skip(start + 1));
        start += 1;
    }
    let rest: String = text_of_range(&chars, start, chars.len());
    assert(rest@ =~= chars@.skip(start as int));
    trim_end(rest.as_str())
}

/// A text without the line feeds and carriage returns at its end.
pub fn trim_trailing_newlines(text: &str) -> (kept: String)
    ensures
        kept@ == without_line_ends(text@),
{
    let chars: Vec<char> = chars_of(text);
    let ghost drop = |c: char| is_line_end(c);
    let mut end: usize = chars.len();
    assert(chars@.take(end as int) =~= chars@);
    while end > 0 && (chars[end - 1] == '\n' || chars[end - 1] == '\r')
        invariant
            end <= chars@.len(),
            chars@ == text@,
            drop == (|c: char| is_line_end(c)),
            without_tail(chars@.take(end as int), drop) == without_tail(text@, drop),
        decreases end,
    {
        assert(chars@.take(end as int).drop_last() =~= chars@.take(end - 1));
        end -= 1;
    }
    text_of_range(&chars, 0, end)
}

/// The lines of a text.
pub fn split_lines(text: &str) -> (found: Vec<String>)
    ensures
        views(found@) == lines(text@),
{
    let chars: Vec<char> = chars_of(text);
    let mut found: Vec<String> = Vec::new();
    let mut from: usize = 0;
    while from < chars.len()
        invariant
            from <= chars@.len(),
            chars@ == text@,
            views(found@) + lines_from(text@, from as int) == lines(text@),
        decreases chars@.len() - from,
    {
        let end: usize = find_char(&chars, '\n', from);
        proof {
            lemma_next_index(text@, '\n', from as int);
        }
        let ghost before = views(found@);
        if end < chars.len() {
            let stop: usize = if end > from && chars[end - 1] == '\r' {
                end - 1
            } else {
                end
            };
            let line: String = text_of_range(&chars, from, stop);
            assert(line@ =~= without_carriage_return(text@.subrange(from as int, end as int)));
            found.push(line);
            assert(views(found@) =~= before.push(line@));
            assert(before + (seq![line@] + lines_from(text@, end + 1)) =~= views(found@)
                + lines_from(text@, end + 1));
            from = end + 1;
        } else {
            let line: String = text_of_range(&chars, from, end);
            found.push(line);
            assert(views(found@) =~= before + seq![line@]);
            assert(lines_from(text@, end as int) == Seq::<Seq<char>>::empty());
            assert(views(found@) + lines_from(text@, end as int) =~= views(found@));
            from = end;
        }
    }
    assert(views(found@) + lines_from(text@, from as int) =~= views(found@));
    found
}

/// Where the first `wanted` at or behind `from` stands; the length if there is none.
pub fn find_char(chars: &[char], wanted: char, from: usize) -> (index: usize)
    requires
        from <= chars@.len(),
    ensures
        index == next_index(chars@, wanted, from as int),
{
    let mut index: usize = from;
    while index < chars.len() && chars[index] != wanted
        invariant
            from <= index <= chars@.len(),
            next_index(chars@, wanted, index as int) == next_index(chars@, wanted, from as int),
        decreases chars@.len() - index,
    {
        index += 1;
    }
    index
}

/// A number in decimal notation.
pub fn to_decimal(n: u128) -> (text: String)
    ensures
        text@ == decimal(n as nat),
    decreases n,
{
    let last: char = (((n % 10) as u8) + 48u8) as char;
    let mut text: String = if n < 10 {
        String::new()
    } else {
        to_decimal(n / 10)
    };
    text.push(last);
    assert(n < 10 ==> text@ =~= decimal(n as nat));
    text
}

/// Copies of the texts.
pub fn copy_texts(texts: &[String]) -> (copies: Vec<String>)
    ensures
        copies@ == texts@,
{
    let mut copies: Vec<String> = Vec::new();
    for i in 0..texts.len()
        invariant
            copies@ == texts@.take(i as int),
    {
        copies.push(texts[i].clone());
    }
    copies
}

/// The texts one behind the other, with `separator` between each two.
pub fn join(parts: &[String], separator: &str) -> (text: String)
    ensures
        text@ == joined(views(parts@), separator@),
{
    let mut text: String = String::new();
    let ghost all = views(parts@);
    for i in 0..parts.len()
        invariant
            all == views(parts@),
            text@ == joined(all.take(i as int), separator@),
    {
        let ghost next = all.take(i + 1);
        assert(next.drop_last() =~= all.take(i as int));
        assert(next.last() == parts@[i as int]@);
        if i > 0 {
            text.append(separator);
        } else {
            assert(Seq::<char>::empty() + parts@[0]@ =~= parts@[0]@);
        }
        text.append(parts[i].as_str());
    }
    assert(all.take(parts@.len() as int) =~= all);
    text
}

proof fn lemma_head_keeps(s: Seq<char>, i: int, drop: spec_fn(char) -> bool)
    requires
        0 <= i < s.len(),
        !drop(s[i]),
    ensures
        without_head(s, drop).contains(s[i]),
    decreases s.len(),
{
    if drop(s.first()) {
        assert(s.drop_first()[i - 1] == s[i]);
        lemma_head_keeps(s.drop_first(), i - 1, drop);
    }
}

proof fn lemma_tail_keeps(s: Seq<char>, i: int, drop: spec_fn(char) -> bool)
    requires
        0 <= i < s.len(),
        !drop(s[i]),
    ensures
        without_tail(s, drop).len() > 0,
    decreases s.len(),
{
    if drop(s.last()) {
        assert(s.drop_last()[i] == s[i]);
        lemma_tail_keeps(s.drop_last(), i, drop);
    }
}

/// A text with a character that is no white space is not trimmed to nothing.
pub proof fn law_trimming_keeps_what_is_no_white_space(s: Seq<char>, i: int)
    requires
        0 <= i < s.len(),
        !is_white_space(s[i]),
    ensures
        trimmed(s).len() > 0,
{
    let drop = |c: char| is_white_space(c);
    lemma_head_keeps(s, i, drop);
    let rest = without_head(s, drop);
    let k = choose|k: int| 0 <= k < rest.len() && rest[k] == s[i];
    lemma_tail_keeps(rest, k, drop);
}

/// Two numbers with the same decimal notation are the same, and no digit is white space.
pub proof fn law_decimal_tells_numbers_apart(a: nat, b: nat)
    ensures
        decimal(a) == decimal(b) ==> a == b,
        decimal(a).len() > 0,
        !is_white_space(decimal(a)[0]),
    decreases a,
{
    assert(forall|n: int| 0 <= n < 10 ==> #[trigger] digit(n) as int == n + 48);
    if a >= 10 {
        law_decimal_tells_numbers_apart(a / 10, b / 10);
        assert(decimal(a)[0] == decimal(a / 10)[0]);
    }
    if decimal(a) == decimal(b) {
        assert(decimal(a).last() == digit((a % 10) as int));
        assert(decimal(b).last() == digit((b % 10) as int));
        assert(a % 10 == b % 10);
        if a >= 10 && b >= 10 {
            assert(decimal(a).drop_last() =~= decimal(a / 10));
            assert(decimal(b).drop_last() =~= decimal(b / 10));
        } else if a >= 10 {
            assert(decimal(a).len() == decimal(a / 10).len() + 1);
            assert(decimal(b).len() == 1);
            lemma_decimal_is_not_empty(a / 10);
        } else if b >= 10 {
            assert(decimal(b).len() == decimal(b / 10).len() + 1);
            assert(decimal(a).len() == 1);
            lemma_decimal_is_not_empty(b / 10);
        }
    }
}

proof fn lemma_decimal_is_not_empty(n: nat)
    ensures
        decimal(n).len() > 0,
{
}

/// The text is empty or ends with a line feed.
pub open spec fn whole_lines(content: Seq<char>) -> bool {
    content.len() == 0 || content.last() == '\n'
}

/// Behind whole lines, the lines are those of the text and then those of what follows.
pub proof fn lemma_lines_of_both(content: Seq<char>, more: Seq<char>, from: int)
    requires
        0 <= from <= content.len(),
        whole_lines(content),
    ensures
        lines_from(content + more, from) == lines_from(content, from) + lines_from(
            content + more,
            content.len() as int,
        ),
    decreases content.len() - from,
{
    let all = content + more;
    if from == content.len() {
        assert(lines_from(content, from) =~= Seq::empty());
        assert(lines_from(all, from) =~= lines_from(content, from) + lines_from(all, from));
    } else {
        lemma_next_index(content, '\n', from);
        lemma_next_index(all, '\n', from);
        let end = next_index(content, '\n', from);
        assert(content[content.len() - 1] == '\n');
        assert(end < content.len());
        assert(all[end] == '\n');
        assert(next_index(all, '\n', from) == end) by {
            let other = next_index(all, '\n', from);
            if other < end {
                assert(all[other] == content[other]);
            }
        }
        assert(all.subrange(from, end) =~= content.subrange(from, end));
        lemma_lines_of_both(content, more, end + 1);
        assert(lines_from(all, from) =~= lines_from(content, from) + lines_from(
            all,
            content.len() as int,
        ));
    }
}

proof fn lemma_lines_moved(before: Seq<char>, s: Seq<char>, from: int)
    requires
        0 <= from <= s.len(),
    ensures
        lines_from(before + s, before.len() + from) == lines_from(s, from),
    decreases s.len() - from,
{
    let all = before + s;
    let by = before.len() as int;
    if from < s.len() {
        lemma_next_index(s, '\n', from);
        lemma_next_index(all, '\n', by + from);
        let end = next_index(s, '\n', from);
        assert(next_index(all, '\n', by + from) == by + end) by {
            let other = next_index(all, '\n', by + from);
            if other < by + end {
                assert(all[other] == s[other - by]);
            } else if end < s.len() {
                assert(all[by + end] == s[end]);
            }
        }
        assert(all.subrange(by + from, by + end) =~= s.subrange(from, end));
        if end < s.len() {
            lemma_lines_moved(before, s, end + 1);
        }
    }
}

/// The lines of whole lines and a text behind them are the lines of the one and then those of the
/// other.
pub proof fn law_lines_of_two_texts(before: Seq<char>, behind: Seq<char>)
    requires
        before.len() == 0 || before.last() == '\n',
    ensures
        lines(before + behind) == lines(before) + lines(behind),
{
    lemma_lines_of_both(before, behind, 0);
    lemma_lines_moved(before, behind, 0);
}

/// A line is what stands before a line feed, or before a carriage return and a line feed; what
/// stands behind the last line feed is a line unless it is empty.
pub proof fn law_lines_lie_between_line_feeds(line: Seq<char>, behind: Seq<char>)
    requires
        forall|i: int| 0 <= i < line.len() ==> line[i] != '\n',
    ensures
        lines(Seq::empty()) == Seq::<Seq<char>>::empty(),
        line.len() > 0 ==> lines(line) == seq![line],
        line.len() == 0 || line.last() != '\r' ==> lines(line + seq!['\n'] + behind) == seq![line]
            + lines(behind),
        lines(line + seq!['\r', '\n'] + behind) == seq![line] + lines(behind),
{
    lemma_next_index(line, '\n', 0);
    assert(line.subrange(0, line.len() as int) =~= line);
    let plain = line + seq!['\n'];
    lemma_next_index(plain, '\n', 0);
    assert(plain[line.len() as int] == '\n');
    assert(next_index(plain, '\n', 0) == line.len()) by {
        let other = next_index(plain, '\n', 0);
        if other < line.len() {
            assert(plain[other] == line[other]);
        }
    }
    assert(plain.subrange(0, line.len() as int) =~= line);
    law_lines_of_two_texts(plain, behind);
    reveal_with_fuel(lines_from, 2);
    if line.len() == 0 || line.last() != '\r' {
        assert(lines(plain) =~= seq![line]);
    }
    let returned = line + seq!['\r', '\n'];
    let end = line.len() as int + 1;
    lemma_next_index(returned, '\n', 0);
    assert(returned[end] == '\n');
    assert(next_index(returned, '\n', 0) == end) by {
        let other = next_index(returned, '\n', 0);
        if other < line.len() {
            assert(returned[other] == line[other]);
        }
    }
    assert(returned.subrange(0, end) =~= line.push('\r'));
    assert(line.push('\r').drop_last() =~= line);
    law_lines_of_two_texts(returned, behind);
    assert(lines(returned) =~= seq![line]);
}

/// A text occurs in another exactly where the other is made of something, the text, and something
/// more.
pub proof fn law_occurrence_has_something_around_it(
    before: Seq<char>,
    needle: Seq<char>,
    behind: Seq<char>,
    hay: Seq<char>,
)
    ensures
        occurs_in(needle, before + needle + behind),
        occurs_in(needle, hay) ==> exists|a: Seq<char>, b: Seq<char>|
            #[trigger] (a + needle + b) == hay,
{
    let whole = before + needle + behind;
    let at = before.len() as int;
    assert(whole.subrange(at, at + needle.len()) =~= needle);
    if occurs_in(needle, hay) {
        let i = choose|i: int|
            0 <= i <= hay.len() - needle.len() && #[trigger] hay.subrange(i, i + needle.len())
                == needle;
        let a = hay.subrange(0, i);
        let b = hay.subrange(i + needle.len(), hay.len() as int);
        assert(a + needle + b =~= hay);
    }
}

proof fn lemma_tail_removed(kept: Seq<char>, tail: Seq<char>, drop: spec_fn(char) -> bool)
    requires
        kept.len() == 0 || !drop(kept.last()),
        forall|i: int| 0 <= i < tail.len() ==> drop(#[trigger] tail[i]),
    ensures
        without_tail(kept + tail, drop) == kept,
    decreases tail.len(),
{
    if tail.len() == 0 {
        assert(kept + tail =~= kept);
    } else {
        assert((kept + tail).drop_last() =~= kept + tail.drop_last());
        assert((kept + tail).last() == tail[tail.len() - 1]);
        assert forall|i: int| 0 <= i < tail.drop_last().len() implies drop(
            #[trigger] tail.drop_last()[i],
        ) by {
            assert(tail.drop_last()[i] == tail[i]);
        }
        lemma_tail_removed(kept, tail.drop_last(), drop);
    }
}

proof fn lemma_head_removed(head: Seq<char>, kept: Seq<char>, drop: spec_fn(char) -> bool)
    requires
        kept.len() == 0 || !drop(kept.first()),
        forall|i: int| 0 <= i < head.len() ==> drop(#[trigger] head[i]),
    ensures
        without_head(head + kept, drop) == kept,
    decreases head.len(),
{
    if head.len() == 0 {
        assert(head + kept =~= kept);
    } else {
        assert((head + kept).drop_first() =~= head.drop_first() + kept);
        assert((head + kept).first() == head[0]);
        assert forall|i: int| 0 <= i < head.drop_first().len() implies drop(
            #[trigger] head.drop_first()[i],
        ) by {
            assert(head.drop_first()[i] == head[i + 1]);
        }
        lemma_head_removed(head.drop_first(), kept, drop);
    }
}

/// Every character of the text is white space.
pub open spec fn all_white_space(s: Seq<char>) -> bool {
    forall|i: int| 0 <= i < s.len() ==> is_white_space(#[trigger] s[i])
}

/// Trimming takes away the white space around a text and nothing else.
pub proof fn law_trimming_takes_white_space_around(
    head: Seq<char>,
    kept: Seq<char>,
    tail: Seq<char>,
)
    requires
        all_white_space(head),
        all_white_space(tail),
    ensures
        kept.len() > 0 && !is_white_space(kept.first()) && !is_white_space(kept.last()) ==> trimmed(
            head + kept + tail,
        ) == kept,
        kept.len() == 0 ==> trimmed(head + kept + tail).len() == 0,
        kept.len() == 0 || !is_white_space(kept.last()) ==> trimmed_end(kept + tail) == kept,
{
    let drop = |c: char| is_white_space(c);
    if kept.len() > 0 && !is_white_space(kept.first()) && !is_white_space(kept.last()) {
        assert(head + kept + tail =~= head + (kept + tail));
        assert((kept + tail).first() == kept.first());
        lemma_head_removed(head, kept + tail, drop);
        lemma_tail_removed(kept, tail, drop);
    }
    if kept.len() == 0 {
        let all = head + kept + tail;
        let none = Seq::<char>::empty();
        assert forall|i: int| 0 <= i < all.len() implies drop(#[trigger] all[i]) by {
            if i < head.len() {
                assert(all[i] == head[i]);
            } else {
                assert(all[i] == tail[i - head.len()]);
            }
        }
        assert(all + none =~= all);
        lemma_head_removed(all, none, drop);
        reveal_with_fuel(without_tail, 2);
    }
    if kept.len() == 0 || !is_white_space(kept.last()) {
        lemma_tail_removed(kept, tail, drop);
    }
}

/// The line ends behind a command's output are taken away, and nothing else: white space stays.
pub proof fn law_line_ends_behind_are_taken(kept: Seq<char>, tail: Seq<char>)
    requires
        kept.len() == 0 || (kept.last() != '\n' && kept.last() != '\r'),
        forall|i: int| 0 <= i < tail.len() ==> #[trigger] tail[i] == '\n' || tail[i] == '\r',
    ensures
        without_line_ends(kept + tail) == kept,
{
    lemma_tail_removed(kept, tail, |c: char| is_line_end(c));
}

/// The number that digits stand for.
pub open spec fn number_of(digits: Seq<char>) -> int
    decreases digits.len(),
{
    if digits.len() == 0 {
        0
    } else {
        10 * number_of(digits.drop_last()) + (digits.last() as int - '0' as int)
    }
}

/// The decimal notation of a number stands for that number, is made of digits alone, and begins
/// with a zero only where it is the zero.
pub proof fn law_decimal_stands_for_the_number(n: nat)
    ensures
        number_of(decimal(n)) == n,
        forall|i: int| 0 <= i < decimal(n).len() ==> '0' <= #[trigger] decimal(n)[i] <= '9',
        n > 0 ==> decimal(n)[0] != '0',
        n == 0 ==> decimal(n).len() == 1,
    decreases n,
{
    assert(forall|d: int| 0 <= d < 10 ==> #[trigger] digit(d) as int == d + 48);
    reveal_with_fuel(number_of, 2);
    if n >= 10 {
        law_decimal_stands_for_the_number(n / 10);
        assert(decimal(n).drop_last() =~= decimal(n / 10));
        assert(decimal(n)[0] == decimal(n / 10)[0]) by {
            lemma_decimal_is_not_empty(n / 10);
        }
        assert forall|i: int| 0 <= i < decimal(n).len() implies '0' <= #[trigger] decimal(
            n,
        )[i] <= '9' by {
            if i < decimal(n / 10).len() {
                assert(decimal(n)[i] == decimal(n / 10)[i]);
            }
        }
    }
}

/// Joined texts stand one behind the other, with the separator between each two and nowhere else.
pub proof fn law_joining_puts_separators_between(
    parts: Seq<Seq<char>>,
    more: Seq<Seq<char>>,
    separator: Seq<char>,
)
    requires
        parts.len() > 0,
        more.len() > 0,
    ensures
        joined(parts + more, separator) == joined(parts, separator) + separator + joined(
            more,
            separator,
        ),
        joined(seq![parts[0]], separator) == parts[0],
        joined(Seq::empty(), separator) == Seq::<char>::empty(),
    decreases more.len(),
{
    let all = parts + more;
    if more.len() == 1 {
        assert(all.drop_last() =~= parts);
        assert(all.last() == more[0]);
    } else {
        law_joining_puts_separators_between(parts, more.drop_last(), separator);
        assert(all.drop_last() =~= parts + more.drop_last());
        assert(joined(all, separator) =~= joined(parts, separator) + separator + joined(
            more,
            separator,
        ));
    }
}

/// Every line stands in the text as it is.
proof fn lemma_lines_stand_in_the_text(s: Seq<char>, from: int)
    requires
        0 <= from,
    ensures
        forall|i: int|
            0 <= i < lines_from(s, from).len() ==> exists|a: int, b: int|
                0 <= a <= b <= s.len() && #[trigger] lines_from(s, from)[i] == #[trigger] s.subrange(
                    a,
                    b,
                ),
    decreases s.len() - from,
{
    if from < s.len() {
        lemma_next_index(s, '\n', from);
        let end = next_index(s, '\n', from);
        let all = lines_from(s, from);
        let text = s.subrange(from, end);
        if end < s.len() {
            lemma_lines_stand_in_the_text(s, end + 1);
            let rest = lines_from(s, end + 1);
            if text.len() > 0 && text.last() == '\r' {
                assert(text.drop_last() =~= s.subrange(from, end - 1));
            }
            assert forall|i: int| 0 <= i < all.len() implies exists|a: int, b: int|
                0 <= a <= b <= s.len() && #[trigger] all[i] == #[trigger] s.subrange(a, b) by {
                if i == 0 {
                    assert(all[0] == without_carriage_return(text));
                } else {
                    assert(all[i] == rest[i - 1]);
                }
            }
        } else {
            assert(all[0] == s.subrange(from, end));
        }
    }
}

/// A text that stands in a line stands in the whole text.
pub proof fn law_lines_hold_only_what_the_text_holds(text: Seq<char>, needle: Seq<char>, i: int)
    requires
        0 <= i < lines(text).len(),
        occurs_in(needle, lines(text)[i]),
    ensures
        occurs_in(needle, text),
{
    lemma_lines_stand_in_the_text(text, 0);
    let line = lines(text)[i];
    let k = choose|k: int|
        0 <= k <= line.len() - needle.len() && #[trigger] line.subrange(k, k + needle.len())
            == needle;
    let (a, b) = choose|a: int, b: int|
        0 <= a <= b <= text.len() && line == #[trigger] text.subrange(a, b);
    assert(text.subrange(a + k, a + k + needle.len()) =~= line.subrange(k, k + needle.len()));
}

/// The characters that count as white space, one by one.
pub proof fn law_white_space_is_these_characters(c: char)
    ensures
        is_white_space(c) <==> seq![
            '\u{9}',
            '\u{a}',
            '\u{b}',
            '\u{c}',
            '\u{d}',
            '\u{20}',
            '\u{85}',
            '\u{a0}',
            '\u{1680}',
            '\u{2000}',
            '\u{2001}',
            '\u{2002}',
            '\u{2003}',
            '\u{2004}',
            '\u{2005}',
            '\u{2006}',
            '\u{2007}',
            '\u{2008}',
            '\u{2009}',
            '\u{200a}',
            '\u{2028}',
            '\u{2029}',
            '\u{202f}',
            '\u{205f}',
            '\u{3000}',
        ].contains(c),
{
    let spaces = seq![
        '\u{9}',
        '\u{a}',
        '\u{b}',
        '\u{c}',
        '\u{d}',
        '\u{20}',
        '\u{85}',
        '\u{a0}',
        '\u{1680}',
        '\u{2000}',
        '\u{2001}',
        '\u{2002}',
        '\u{2003}',
        '\u{2004}',
        '\u{2005}',
        '\u{2006}',
        '\u{2007}',
        '\u{2008}',
        '\u{2009}',
        '\u{200a}',
        '\u{2028}',
        '\u{2029}',
        '\u{202f}',
        '\u{205f}',
        '\u{3000}',
    ];
    assert(spaces.len() == 25);
    if is_white_space(c) {
        let at: int = if c <= '\u{d}' {
            c as int - 9
        } else if c == ' ' {
            5
        } else if c == '\u{85}' {
            6
        } else if c == '\u{a0}' {
            7
        } else if c == '\u{1680}' {
            8
        } else if c <= '\u{200a}' {
            9 + (c as int - 0x2000)
        } else if c == '\u{2028}' {
            20
        } else if c == '\u{2029}' {
            21
        } else if c == '\u{202f}' {
            22
        } else if c == '\u{205f}' {
            23
        } else {
            24
        };
        assert(spaces[at] == c);
    }
}

/// Bytes that a text is encoded with stand for that text.
pub proof fn law_encoded_text_is_decoded(text: Seq<char>)
    ensures
        decoded(vstd::utf8::encode_utf8(text)) == text,
{
    vstd::utf8::encode_utf8_valid_utf8(text);
    vstd::utf8::encode_utf8_decode_utf8(text);
}

/// Something is left without the line ends behind a text exactly where the text holds more than
/// line ends.
pub proof fn law_more_than_line_ends_is_kept(s: Seq<char>)
    ensures
        without_line_ends(s).len() > 0 <==> exists|i: int|
            0 <= i < s.len() && #[trigger] s[i] != '\n' && s[i] != '\r',
    decreases s.len(),
{
    reveal_with_fuel(without_tail, 2);
    if s.len() > 0 {
        let rest = s.drop_last();
        if is_line_end(s.last()) {
            law_more_than_line_ends_is_kept(rest);
            if without_line_ends(s).len() > 0 {
                let i = choose|i: int|
                    0 <= i < rest.len() && #[trigger] rest[i] != '\n' && rest[i] != '\r';
                assert(s[i] == rest[i]);
            }
            if exists|i: int| 0 <= i < s.len() && #[trigger] s[i] != '\n' && s[i] != '\r' {
                let i = choose|i: int|
                    0 <= i < s.len() && #[trigger] s[i] != '\n' && s[i] != '\r';
                assert(rest[i] == s[i]);
            }
        } else {
            assert(s[s.len() - 1] == s.last());
        }
    }
}

} // verus!
