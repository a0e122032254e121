//! Paths as text, with `/` between their components.
//!
//! A component is a run of characters without `/`. Empty runs and `.` are no components, but
//! for a `.` that begins a relative path.
use vstd::prelude::*;

use crate::text::{chars_of, find_char, text_of, text_of_range};

verus! {

/// The path starts at the root.
pub open spec fn is_absolute(path: Seq<char>) -> bool {
    path.len() > 0 && path[0] == '/'
}

/// The run of characters from `start` up to `end` is a component.
pub open spec fn is_component(path: Seq<char>, start: int, end: int) -> bool {
    start < end && !(start > 0 && end == start + 1 && path[start] == '.')
}

/// The components from `from` on, each as where it starts and where it ends.
pub open spec fn spans_from(path: Seq<char>, from: int) -> Seq<(int, int)>
    decreases path.len() - from,
    when 0 <= from
    via spans_from_decreases
{
    if from >= path.len() {
        Seq::empty()
    } else {
        let end = crate::text::next_index(path, '/', from);
        let rest = if end < path.len() {
            spans_from(path, end + 1)
        } else {
            Seq::empty()
        };
        if is_component(path, from, end) {
            seq![(from, end)] + rest
        } else {
            rest
        }
    }
}

#[via_fn]
proof fn spans_from_decreases(path: Seq<char>, from: int) {
    if 0 <= from < path.len() {
        crate::text::lemma_next_index(path, '/', from);
    }
}

/// The components of a path, each as where it starts and where it ends.
pub open spec fn spans(path: Seq<char>) -> Seq<(int, int)> {
    spans_from(path, 0)
}

/// The component number `i` of a path.
pub open spec fn component(path: Seq<char>, i: int) -> Seq<char> {
    path.subrange(spans(path)[i].0, spans(path)[i].1)
}

/// The components of a path.
pub open spec fn components(path: Seq<char>) -> Seq<Seq<char>> {
    Seq::new(spans(path).len(), |i: int| component(path, i))
}

/// The last component, unless that is `.` or `..` or there is none.
pub open spec fn file_name_of(path: Seq<char>) -> Option<Seq<char>> {
    let count = spans(path).len();
    if count == 0 || component(path, count - 1) == seq!['.'] || component(path, count - 1) == seq![
        '.',
        '.',
    ] {
        None
    } else {
        Some(component(path, count - 1))
    }
}

/// Where the first `count` components end.
pub open spec fn end_of(path: Seq<char>, count: int) -> int {
    if count > 0 {
        spans(path)[count - 1].1
    } else if is_absolute(path) {
        1
    } else {
        0
    }
}

/// The path without its last component.
pub open spec fn parent_of(path: Seq<char>) -> Option<Seq<char>> {
    if spans(path).len() == 0 {
        None
    } else {
        Some(path.subrange(0, end_of(path, spans(path).len() - 1)))
    }
}

/// The path names no place of its own: joined to another path it changes nothing.
pub open spec fn names_nothing(path: Seq<char>) -> bool {
    !is_absolute(path) && spans(path).len() == 0
}

/// `base` holds `path`: every component of `base` begins `path`, from the root if `base` does.
pub open spec fn is_under(path: Seq<char>, base: Seq<char>) -> bool {
    names_nothing(base) || (is_absolute(path) == is_absolute(base) && components(
        base,
    ).is_prefix_of(components(path)))
}

/// What is left of a path behind `base`, where `base` holds it.
pub open spec fn strip_base(path: Seq<char>, base: Seq<char>) -> Option<Seq<char>> {
    let count = spans(path).len() as int;
    let skip = spans(base).len() as int;
    if !is_under(path, base) {
        None
    } else if names_nothing(base) {
        Some(path.subrange(0, end_of(path, count)))
    } else if count == skip {
        Some(Seq::empty())
    } else {
        Some(path.subrange(spans(path)[skip].0, end_of(path, count)))
    }
}

/// `path` as seen from `base`.
pub open spec fn joined_path(base: Seq<char>, path: Seq<char>) -> Seq<char> {
    if is_absolute(path) {
        path
    } else if base.len() > 0 && base.last() != '/' {
        base + seq!['/'] + path
    } else {
        base + path
    }
}

/// `path` as it is called inside `base`; a path outside `base` keeps its name.
pub open spec fn relative_path(base: Seq<char>, path: Seq<char>) -> Seq<char> {
    match strip_base(path, base) {
        Some(rest) => rest,
        None => path,
    }
}

/// The components lie in the path, one behind the other, and none of them is empty.
pub proof fn lemma_spans_from(path: Seq<char>, from: int)
    requires
        0 <= from,
    ensures
        forall|i: int|
            0 <= i < spans_from(path, from).len() ==> {
                let span = #[trigger] spans_from(path, from)[i];
                from <= span.0 < span.1 <= path.len() && path[span.0] != '/'
            },
        forall|i: int, j: int|
            0 <= i < j < spans_from(path, from).len() ==> (#[trigger] spans_from(path, from)[i]).1
                < (#[trigger] spans_from(path, from)[j]).0,
    decreases path.len() - from,
{
    if from < path.len() {
        crate::text::lemma_next_index(path, '/', from);
        let end = crate::text::next_index(path, '/', from);
        if end < path.len() {
            lemma_spans_from(path, end + 1);
        }
        let all = spans_from(path, from);
        let rest = if end < path.len() {
            spans_from(path, end + 1)
        } else {
            Seq::empty()
        };
        if is_component(path, from, end) {
            assert(all =~= seq![(from, end)] + rest);
            assert(all[0] == (from, end));
            assert forall|i: int| 0 < i < all.len() implies #[trigger] all[i] == rest[i - 1] by {}
        } else {
            assert(all == rest);
        }
    }
}

/// The components as pairs of exact integers.
pub open spec fn spans_view(found: Seq<(usize, usize)>) -> Seq<(int, int)> {
    found.map_values(|span: (usize, usize)| (span.0 as int, span.1 as int))
}

fn find_spans(chars: &[char]) -> (found: Vec<(usize, usize)>)
    ensures
        spans_view(found@) == spans(chars@),
{
    let mut found: Vec<(usize, usize)> = Vec::new();
    let mut from: usize = 0;
    assert(spans_view(found@) + spans_from(chars@, 0) =~= spans(chars@));
    while from < chars.len()
        invariant
            from <= chars@.len(),
            spans_view(found@) + spans_from(chars@, from as int) == spans(chars@),
        decreases chars@.len() - from,
    {
        let end: usize = find_char(chars, '/', from);
        proof {
            crate::text::lemma_next_index(chars@, '/', from as int);
        }
        let ghost before = spans_view(found@);
        let ghost rest = if end < chars@.len() {
            spans_from(chars@, end + 1)
        } else {
            Seq::empty()
        };
        if from < end && !(from > 0 && end == from + 1 && chars[from] == '.') {
            found.push((from, end));
            assert(spans_view(found@) =~= before.push((from as int, end as int)));
            assert(before + (seq![(from as int, end as int)] + rest) =~= spans_view(found@) + rest);
        }
        if end < chars.len() {
            from = end + 1;
        } else {
            assert(spans_from(chars@, end as int) =~= rest);
            from = end;
        }
    }
    assert(spans_view(found@) + spans_from(chars@, from as int) =~= spans_view(found@));
    found
}

fn same_range(a: &[char], a_span: (usize, usize), b: &[char], b_span: (usize, usize)) -> (same: bool)
    requires
        a_span.0 <= a_span.1 <= a@.len(),
        b_span.0 <= b_span.1 <= b@.len(),
    ensures
        same == (a@.subrange(a_span.0 as int, a_span.1 as int) == b@.subrange(
            b_span.0 as int,
            b_span.1 as int,
        )),
{
    let ghost left = a@.subrange(a_span.0 as int, a_span.1 as int);
    let ghost right = b@.subrange(b_span.0 as int, b_span.1 as int);
    let length: usize = a_span.1 - a_span.0;
    if length != b_span.1 - b_span.0 {
        assert(left.len() != right.len());
        return false;
    }
    for i in 0..length
        invariant
            a_span.0 + length == a_span.1 <= a@.len(),
            b_span.0 + length == b_span.1 <= b@.len(),
            left == a@.subrange(a_span.0 as int, a_span.1 as int),
            right == b@.subrange(b_span.0 as int, b_span.1 as int),
            forall|j: int| 0 <= j < i ==> left[j] == right[j],
    {
        if a[a_span.0 + i] != b[b_span.0 + i] {
            assert(left[i as int] != right[i as int]);
            return false;
        }
    }
    assert(left =~= right);
    true
}

fn begins_at_root(chars: &[char]) -> (absolute: bool)
    ensures
        absolute == is_absolute(chars@),
{
    chars.len() > 0 && chars[0] == '/'
}

/// Whether the path starts at the root.
pub fn absolute(path: &str) -> (found: bool)
    ensures
        found == is_absolute(path@),
{
    begins_at_root(&chars_of(path))
}

/// The last component of a path, unless that is `.` or `..`.
pub fn file_name(path: &str) -> (name: Option<String>)
    ensures
        file_name_of(path@) == (match name {
            Some(text) => Some(text@),
            None => None,
        }),
{
    let chars: Vec<char> = chars_of(path);
    let found: Vec<(usize, usize)> = find_spans(&chars);
    proof {
        lemma_spans_from(path@, 0);
    }
    let count: usize = found.len();
    assert(spans(path@).len() == count);
    if count == 0 {
        return None;
    }
    let (start, end): (usize, usize) = found[count - 1];
    assert(spans_view(found@)[count - 1] == (start as int, end as int));
    let ghost name = path@.subrange(start as int, end as int);
    if chars[start] == '.' && (end - start == 1 || (end - start == 2 && chars[start + 1] == '.')) {
        assert(name =~= seq!['.'] || name =~= seq!['.', '.']);
        return None;
    }
    proof {
        let dot = seq!['.'];
        let dots = seq!['.', '.'];
        assert(name[0] == chars@[start as int]);
        if name == dot {
            assert(dot.len() == 1 && dot[0] == '.');
        }
        if name == dots {
            assert(dots.len() == 2 && dots[0] == '.' && dots[1] == '.');
            assert(name[1] == chars@[start + 1]);
        }
    }
    Some(text_of_range(&chars, start, end))
}

/// The path without its last component.
pub fn parent(path: &str) -> (rest: Option<String>)
    ensures
        parent_of(path@) == (match rest {
            Some(text) => Some(text@),
            None => None,
        }),
{
    let chars: Vec<char> = chars_of(path);
    let found: Vec<(usize, usize)> = find_spans(&chars);
    proof {
        lemma_spans_from(path@, 0);
    }
    let count: usize = found.len();
    assert(spans(path@).len() == count);
    if count == 0 {
        return None;
    }
    assert(spans(path@)[count - 1].1 <= path@.len());
    let end: usize = if count > 1 {
        assert(spans_view(found@)[count - 2] == (found@[count - 2].0 as int, found@[count
            - 2].1 as int));
        found[count - 2].1
    } else if begins_at_root(&chars) {
        1
    } else {
        0
    };
    Some(text_of_range(&chars, 0, end))
}

/// What is left of `path` behind `base`; nothing if `base` does not hold it.
pub fn strip_prefix(path: &str, base: &str) -> (rest: Option<String>)
    ensures
        strip_base(path@, base@) == (match rest {
            Some(text) => Some(text@),
            None => None,
        }),
{
    let chars: Vec<char> = chars_of(path);
    let base_chars: Vec<char> = chars_of(base);
    let found: Vec<(usize, usize)> = find_spans(&chars);
    let skipped: Vec<(usize, usize)> = find_spans(&base_chars);
    proof {
        lemma_spans_from(path@, 0);
        lemma_spans_from(base@, 0);
    }
    let count: usize = found.len();
    let skip: usize = skipped.len();
    assert(spans(path@).len() == count && spans(base@).len() == skip);
    assert forall|i: int| 0 <= i < count implies spans(path@)[i] == (
        found@[i].0 as int,
        found@[i].1 as int,
    ) by {
        assert(spans_view(found@)[i] == (found@[i].0 as int, found@[i].1 as int));
    }
    assert forall|i: int| 0 <= i < skip implies spans(base@)[i] == (
        skipped@[i].0 as int,
        skipped@[i].1 as int,
    ) by {
        assert(spans_view(skipped@)[i] == (skipped@[i].0 as int, skipped@[i].1 as int));
    }
    let rooted: bool = begins_at_root(&chars);
    let base_rooted: bool = begins_at_root(&base_chars);
    let end: usize = if count > 0 {
        found[count - 1].1
    } else if rooted {
        1
    } else {
        0
    };
    if !base_rooted && skip == 0 {
        return Some(text_of_range(&chars, 0, end));
    }
    if rooted != base_rooted || skip > count {
        return None;
    }
    for i in 0..skip
        invariant
            skip <= count,
            count == found@.len(),
            skip == skipped@.len(),
            chars@ == path@,
            base_chars@ == base@,
            spans(path@).len() == count,
            spans(base@).len() == skip,
            forall|k: int|
                0 <= k < count ==> #[trigger] spans(path@)[k] == (
                    found@[k].0 as int,
                    found@[k].1 as int,
                ),
            forall|k: int|
                0 <= k < skip ==> #[trigger] spans(base@)[k] == (
                    skipped@[k].0 as int,
                    skipped@[k].1 as int,
                ),
            forall|k: int|
                0 <= k < count ==> {
                    let span = #[trigger] spans(path@)[k];
                    0 <= span.0 < span.1 <= path@.len()
                },
            forall|k: int|
                0 <= k < skip ==> {
                    let span = #[trigger] spans(base@)[k];
                    0 <= span.0 < span.1 <= base@.len()
                },
            rooted == is_absolute(path@),
            base_rooted == is_absolute(base@),
            !names_nothing(base@),
            forall|k: int| 0 <= k < i ==> component(path@, k) == component(base@, k),
    {
        assert(spans(path@)[i as int].1 <= path@.len() && spans(base@)[i as int].1 <= base@.len());
        if !same_range(&chars, found[i], &base_chars, skipped[i]) {
            assert(components(path@)[i as int] != components(base@)[i as int]);
            return None;
        }
    }
    assert(components(base@).is_prefix_of(components(path@))) by {
        assert forall|k: int| 0 <= k < skip implies components(base@)[k] == components(
            path@,
        )[k] by {}
        assert(components(base@) =~= components(path@).subrange(0, skip as int));
    }
    if count == skip {
        return Some(String::new());
    }
    assert(spans(path@)[skip as int].0 <= spans(path@)[count - 1].1);
    Some(text_of_range(&chars, found[skip].0, end))
}

/// `path` as seen from `base`.
pub fn join_path(base: &str, path: &str) -> (whole: String)
    ensures
        whole@ == joined_path(base@, path@),
{
    if absolute(path) {
        return path.to_owned();
    }
    let base_chars: Vec<char> = chars_of(base);
    let mut whole: String = base.to_owned();
    if base_chars.len() > 0 && base_chars[base_chars.len() - 1] != '/' {
        whole.push('/');
        assert(whole@ =~= base@ + seq!['/']);
    }
    whole.append(path);
    whole
}

/// `path` as it is called inside `workspace`; a path outside keeps its name.
pub fn relative_to_workspace(workspace: &str, path: &str) -> (relative: String)
    ensures
        relative@ == relative_path(workspace@, path@),
{
    match strip_prefix(path, workspace) {
        Some(rest) => rest,
        None => path.to_owned(),
    }
}

/// The path with every backslash turned into a slash.
pub open spec fn normalized(path: Seq<char>) -> Seq<char> {
    path.map_values(
        |c: char|
            if c == '\\' {
                '/'
            } else {
                c
            },
    )
}

/// The path with every backslash turned into a slash.
pub fn normalize_path(path: &str) -> (text: String)
    ensures
        text@ == normalized(path@),
{
    let mut chars: Vec<char> = Vec::new();
    let given: Vec<char> = chars_of(path);
    for i in 0..given.len()
        invariant
            given@ == path@,
            chars@ == normalized(path@).take(i as int),
    {
        chars.push(if given[i] == '\\' { '/' } else { given[i] });
    }
    text_of(&chars)
}

spec fn moved(spans: Seq<(int, int)>, by: int) -> Seq<(int, int)> {
    spans.map_values(|span: (int, int)| (span.0 + by, span.1 + by))
}

/// Behind a whole path, the components are those of the path and then those of what follows.
proof fn lemma_spans_of_both(base: Seq<char>, more: Seq<char>, from: int)
    requires
        0 <= from <= base.len(),
        base.len() == 0 || base.last() == '/' || (more.len() > 0 && more[0] == '/'),
    ensures
        spans_from(base + more, from) == spans_from(base, from) + spans_from(
            base + more,
            base.len() as int,
        ),
    decreases base.len() - from,
{
    let all = base + more;
    let cut = base.len() as int;
    if from == base.len() {
        assert(spans_from(base, from) =~= Seq::empty());
        assert(spans_from(all, from) =~= spans_from(base, from) + spans_from(all, cut));
    } else {
        crate::text::lemma_next_index(base, '/', from);
        crate::text::lemma_next_index(all, '/', from);
        let end = crate::text::next_index(base, '/', from);
        if end == base.len() {
            assert(base.last() == base[base.len() - 1]);
            assert(all[end] == more[0]);
        } else {
            assert(all[end] == base[end]);
        }
        assert(crate::text::next_index(all, '/', from) == end) by {
            let other = crate::text::next_index(all, '/', from);
            if other < end {
                assert(all[other] == base[other]);
            }
        }
        assert(all[from] == base[from]);
        assert(is_component(all, from, end) == is_component(base, from, end));
        if end < base.len() {
            lemma_spans_of_both(base, more, end + 1);
        } else {
            assert(crate::text::next_index(all, '/', cut) == cut);
            assert(spans_from(all, cut) == spans_from(all, cut + 1));
        }
        assert(spans_from(all, from) =~= spans_from(base, from) + spans_from(all, cut));
    }
}

/// What follows a path has its own components there, unless it begins with a `.` component.
proof fn lemma_spans_moved(before: Seq<char>, path: Seq<char>, from: int)
    requires
        before.len() > 0,
        0 <= from <= path.len(),
        from == 0 ==> !(path.len() > 0 && path[0] == '.' && (path.len() == 1 || path[1] == '/')),
    ensures
        spans_from(before + path, before.len() + from) == moved(
            spans_from(path, from),
            before.len() as int,
        ),
    decreases path.len() - from,
{
    let all = before + path;
    let by = before.len() as int;
    if from == path.len() {
        assert(spans_from(all, by + from) =~= moved(spans_from(path, from), by));
    } else {
        crate::text::lemma_next_index(path, '/', from);
        crate::text::lemma_next_index(all, '/', by + from);
        let end = crate::text::next_index(path, '/', from);
        assert(crate::text::next_index(all, '/', by + from) == by + end) by {
            let other = crate::text::next_index(all, '/', by + from);
            if other < by + end {
                assert(all[other] == path[other - by]);
            } else if end < path.len() {
                assert(all[by + end] == path[end]);
            }
        }
        assert(all[by + from] == path[from]);
        if end < path.len() {
            assert(path[end] == '/');
            lemma_spans_moved(before, path, end + 1);
        }
        assert(spans_from(all, by + from) =~= moved(spans_from(path, from), by));
    }
}

/// A path below a directory, written without anything that could be left out: it is relative,
/// does not begin with `.` as a component, and its last component is its end.
pub open spec fn is_plain(path: Seq<char>) -> bool {
    &&& path.len() > 0
    &&& path[0] != '/'
    &&& !(path[0] == '.' && (path.len() == 1 || path[1] == '/'))
    &&& end_of(path, spans(path).len() as int) == path.len()
}

/// A plain path that is joined to a directory is called by its own name inside that directory.
pub proof fn law_relative_path_undoes_joining(base: Seq<char>, path: Seq<char>)
    requires
        is_plain(path),
    ensures
        strip_base(joined_path(base, path), base) == Some(path),
        relative_path(base, joined_path(base, path)) == path,
{
    let all = joined_path(base, path);
    let count = spans(path).len() as int;
    crate::text::lemma_next_index(path, '/', 0);
    assert(crate::text::next_index(path, '/', 0) > 0);
    assert(spans(path)[0] == (0int, crate::text::next_index(path, '/', 0)));
    if base.len() == 0 {
        assert(all =~= path);
        assert(spans(base) =~= Seq::empty());
        assert(path.subrange(0, path.len() as int) =~= path);
    } else {
        let more = if base.last() != '/' {
            seq!['/'] + path
        } else {
            path
        };
        let before = if base.last() != '/' {
            base.push('/')
        } else {
            base
        };
        let skip = spans(base).len() as int;
        assert(all =~= base + more);
        assert(all =~= before + path);
        lemma_spans_of_both(base, more, 0);
        lemma_spans_moved(before, path, 0);
        if base.last() != '/' {
            let cut = base.len() as int;
            assert(all[cut] == '/');
            assert(crate::text::next_index(all, '/', cut) == cut);
            assert(spans_from(all, cut) == spans_from(all, cut + 1));
        }
        assert(spans(all) == spans(base) + moved(spans(path), before.len() as int));
        lemma_spans_from(base, 0);
        assert(all[0] == base[0]);
        assert forall|i: int| 0 <= i < skip implies #[trigger] components(base)[i] == components(
            all,
        )[i] by {
            let span = spans(base)[i];
            assert(spans(all)[i] == span);
            assert(all.subrange(span.0, span.1) =~= base.subrange(span.0, span.1));
        }
        assert(components(base).is_prefix_of(components(all))) by {
            assert(components(base) =~= components(all).subrange(0, skip));
        }
        if !is_absolute(base) {
            crate::text::lemma_next_index(base, '/', 0);
            assert(is_component(base, 0, crate::text::next_index(base, '/', 0)));
            assert(skip > 0);
        }
        assert(spans(all)[skip].0 == before.len());
        assert(spans(all).last() == moved(spans(path), before.len() as int)[count - 1]);
        assert(all.subrange(before.len() as int, all.len() as int) =~= path);
    }
}

/// A component fills the space between two slashes, or between a slash and an end of the path.
proof fn lemma_span_borders(path: Seq<char>, from: int)
    requires
        0 <= from,
        from == 0 || from > path.len() || path[from - 1] == '/',
    ensures
        forall|i: int|
            0 <= i < spans_from(path, from).len() ==> {
                let span = #[trigger] spans_from(path, from)[i];
                &&& is_component(path, span.0, span.1)
                &&& span.0 == 0 || path[span.0 - 1] == '/'
                &&& span.1 == path.len() || path[span.1] == '/'
                &&& forall|k: int| span.0 <= k < span.1 ==> path[k] != '/'
            },
    decreases path.len() - from,
{
    if from < path.len() {
        crate::text::lemma_next_index(path, '/', from);
        let end = crate::text::next_index(path, '/', from);
        if end < path.len() {
            lemma_span_borders(path, end + 1);
        }
        let all = spans_from(path, from);
        let rest = if end < path.len() {
            spans_from(path, end + 1)
        } else {
            Seq::empty()
        };
        if is_component(path, from, end) {
            assert(all =~= seq![(from, end)] + rest);
            assert forall|i: int| 0 < i < all.len() implies #[trigger] all[i] == rest[i - 1] by {}
        }
    }
}

/// The components that begin at `from`, up to the end of the last one, are those of the part
/// between.
#[verifier::spinoff_prover]
#[verifier::rlimit(40)]
proof fn lemma_spans_of_part(path: Seq<char>, skip: int)
    requires
        0 <= skip < spans(path).len(),
    ensures
        ({
            let start = spans(path)[skip].0;
            let part = path.subrange(start, end_of(path, spans(path).len() as int));
            &&& spans(part).len() == spans(path).len() - skip
            &&& forall|i: int|
                0 <= i < spans(part).len() ==> component(part, i) == #[trigger] component(
                    path,
                    skip + i,
                )
        }),
{
    let all = spans(path);
    let count = all.len() as int;
    let start = all[skip].0;
    let end = end_of(path, count);
    lemma_spans_from(path, 0);
    lemma_span_borders(path, 0);
    assert(end == all[count - 1].1);
    let last = all[count - 1];
    let first = all[skip];
    assert(first.0 <= last.0) by {
        if skip < count - 1 {
            assert(all[skip].1 < all[count - 1].0);
        }
    }
    let before = path.subrange(0, start);
    let part = path.subrange(start, end);
    let behind = path.subrange(end, path.len() as int);
    let tail = part + behind;
    assert(path =~= before + tail);
    assert(before.len() == 0 || before.last() == '/') by {
        if start > 0 {
            assert(before.last() == path[start - 1]);
        }
    }
    lemma_spans_of_both(before, tail, 0);
    lemma_spans_from(before, 0);
    lemma_spans_from(path, start);
    let head = spans(before);
    assert(all == head + spans_from(path, start));
    assert(head.len() == skip) by {
        if head.len() > skip {
            assert(all[skip] == head[skip]);
        } else if head.len() < skip {
            assert(all[head.len() as int] == spans_from(path, start)[0]);
            assert(all[head.len() as int].1 < all[skip].0);
        }
    }
    if start > 0 {
        assert(tail[0] == path[start]);
        if tail[0] == '.' && tail.len() > 1 && tail[1] == '/' {
            assert(path[start + 1] == '/');
            assert(first.1 == start + 1);
        }
        if tail[0] == '.' && tail.len() == 1 {
            assert(first.1 == start + 1);
        }
        lemma_spans_moved(before, tail, 0);
    } else {
        assert(before =~= Seq::empty());
        assert(tail =~= path);
        assert(moved(spans(tail), 0) =~= spans(tail));
    }
    assert(spans_from(path, start) == moved(spans(tail), start));
    if behind.len() > 0 {
        assert(behind[0] == path[end]);
        assert(behind[0] == '/');
        lemma_spans_of_both(part, behind, 0);
        lemma_spans_from(tail, part.len() as int);
        let extra = spans_from(tail, part.len() as int);
        assert(extra.len() == 0) by {
            if extra.len() > 0 {
                assert(spans(tail).last() == extra.last());
                assert(all[count - 1] == moved(spans(tail), start).last());
                assert(extra.last().0 >= part.len());
            }
        }
        assert(spans(tail) =~= spans(part));
    } else {
        assert(tail =~= part);
    }
    lemma_spans_from(part, 0);
    assert forall|i: int| 0 <= i < spans(part).len() implies component(part, i)
        == #[trigger] component(path, skip + i) by {
        let span = spans(part)[i];
        assert(all[skip + i] == moved(spans(tail), start)[i]);
        assert(all[skip + i] == (span.0 + start, span.1 + start));
        assert(part.subrange(span.0, span.1) =~= path.subrange(span.0 + start, span.1 + start));
    }
}

/// What is left of a path behind a directory is exactly what the path adds to the directory: the
/// components of the directory and of the rest are together those of the path. So only a path
/// below the directory, component by component, is taken for one.
pub proof fn law_stripping_splits_the_components(path: Seq<char>, base: Seq<char>)
    requires
        strip_base(path, base) is Some,
    ensures
        components(path) == components(base) + components(strip_base(path, base)->Some_0),
        base.len() > 0 ==> is_absolute(path) == is_absolute(base),
{
    let rest = strip_base(path, base)->Some_0;
    let count = spans(path).len() as int;
    let skip = spans(base).len() as int;
    assert(components(base).len() == skip);
    assert(components(path).len() == count);
    if names_nothing(base) {
        if base.len() > 0 {
            crate::text::lemma_next_index(base, '/', 0);
            assert(is_component(base, 0, crate::text::next_index(base, '/', 0)));
        }
        if count > 0 {
            lemma_up_to_last_component(path, end_of(path, count));
            assert(components(path) =~= components(base) + components(rest));
        } else {
            lemma_nothing_in_short(path);
            assert(components(path) =~= components(base) + components(rest));
        }
    } else if count == skip {
        assert(components(rest) =~= Seq::empty());
        assert(components(path) =~= components(base)) by {
            assert(components(base) =~= components(path).subrange(0, skip));
        }
        assert(components(path) =~= components(base) + components(rest));
    } else {
        lemma_spans_of_part(path, skip);
        assert(components(path) =~= components(base) + components(rest)) by {
            assert forall|i: int| 0 <= i < count implies components(path)[i] == (components(base)
                + components(rest))[i] by {
                if i < skip {
                    assert(components(base)[i] == components(path)[i]);
                } else {
                    assert(component(rest, i - skip) == component(path, skip + (i - skip)));
                }
            }
        }
    }
}

/// A path up to the end of its last component has the same components.
proof fn lemma_up_to_last_component(path: Seq<char>, end: int)
    requires
        spans(path).len() > 0,
        end == end_of(path, spans(path).len() as int),
    ensures
        components(path.subrange(0, end)) == components(path),
{
    let part = path.subrange(0, end);
    let behind = path.subrange(end, path.len() as int);
    let count = spans(path).len() as int;
    lemma_spans_from(path, 0);
    lemma_span_borders(path, 0);
    assert(path =~= part + behind);
    if behind.len() > 0 {
        assert(behind[0] == path[end]);
        lemma_spans_of_both(part, behind, 0);
        lemma_spans_from(path, end);
        let extra = spans_from(path, end);
        if extra.len() > 0 {
            assert(spans(path)[count - 1] == extra.last());
        }
        assert(spans(path) =~= spans(part));
    } else {
        assert(part =~= path);
    }
    lemma_spans_from(part, 0);
    assert forall|i: int| 0 <= i < count implies components(part)[i] == components(path)[i] by {
        let span = spans(path)[i];
        assert(part.subrange(span.0, span.1) =~= path.subrange(span.0, span.1));
    }
    assert(components(part) =~= components(path));
}

proof fn lemma_nothing_in_short(path: Seq<char>)
    requires
        spans(path).len() == 0,
    ensures
        components(path.subrange(0, end_of(path, 0))).len() == 0,
{
    let part = path.subrange(0, end_of(path, 0));
    if is_absolute(path) {
        assert(part =~= seq!['/']);
        assert(crate::text::next_index(part, '/', 0) == 0);
        reveal_with_fuel(spans_from, 2);
    } else {
        assert(part =~= Seq::empty());
    }
}

/// A name: it holds no slash, and is neither empty nor `.` nor `..`.
pub open spec fn is_name(name: Seq<char>) -> bool {
    &&& name.len() > 0
    &&& forall|i: int| 0 <= i < name.len() ==> #[trigger] name[i] != '/'
    &&& name != seq!['.']
    &&& name != seq!['.', '.']
}

/// A component as it is written: it holds no slash, and is neither empty nor `.`.
pub open spec fn is_step(name: Seq<char>) -> bool {
    &&& name.len() > 0
    &&& forall|i: int| 0 <= i < name.len() ==> #[trigger] name[i] != '/'
    &&& name != seq!['.']
}

/// A component is a plain path by itself.
pub proof fn law_component_is_plain(name: Seq<char>)
    requires
        is_step(name),
    ensures
        spans(name) == seq![(0int, name.len() as int)],
        is_plain(name),
{
    crate::text::lemma_next_index(name, '/', 0);
    assert(crate::text::next_index(name, '/', 0) == name.len());
    reveal_with_fuel(spans_from, 2);
    assert(spans(name) =~= seq![(0int, name.len() as int)]);
    if name[0] == '.' && name.len() == 1 {
        assert(name =~= seq!['.']);
    }
}

proof fn lemma_spans_of_joined(dir: Seq<char>, name: Seq<char>)
    requires
        is_step(name),
    ensures
        ({
            let all = joined_path(dir, name);
            let at = all.len() - name.len();
            &&& spans(all) == spans(dir).push((at, all.len() as int))
            &&& all.subrange(at, all.len() as int) == name
        }),
{
    law_component_is_plain(name);
    let all = joined_path(dir, name);
    let at = all.len() - name.len();
    if dir.len() == 0 {
        assert(all =~= name);
        assert(spans(dir) =~= Seq::empty());
        assert(spans(all) =~= spans(dir).push((at, all.len() as int)));
    } else {
        let more = if dir.last() != '/' {
            seq!['/'] + name
        } else {
            name
        };
        let before = if dir.last() != '/' {
            dir.push('/')
        } else {
            dir
        };
        assert(all =~= dir + more);
        assert(all =~= before + name);
        lemma_spans_of_both(dir, more, 0);
        lemma_spans_moved(before, name, 0);
        if dir.last() != '/' {
            let cut = dir.len() as int;
            assert(all[cut] == '/');
            assert(crate::text::next_index(all, '/', cut) == cut);
            assert(spans_from(all, cut) == spans_from(all, cut + 1));
        }
        assert(moved(spans(name), before.len() as int) =~= seq![(at, all.len() as int)]);
        assert(spans(all) =~= spans(dir).push((at, all.len() as int)));
    }
    assert(all.subrange(at, all.len() as int) =~= name);
}

/// The name of a file in a directory is its file name, and the directory holds all the components
/// before it.
pub proof fn law_file_in_a_directory_has_its_name(dir: Seq<char>, name: Seq<char>)
    requires
        is_name(name),
    ensures
        file_name_of(joined_path(dir, name)) == Some(name),
        file_name_of(name) == Some(name),
        components(joined_path(dir, name)) == components(dir).push(name),
        is_absolute(joined_path(dir, name)) == is_absolute(dir),
        end_of(dir, spans(dir).len() as int) == dir.len() ==> parent_of(joined_path(dir, name))
            == Some(dir),
{
    let all = joined_path(dir, name);
    lemma_spans_of_joined(dir, name);
    lemma_spans_of_joined(Seq::empty(), name);
    assert(joined_path(Seq::empty(), name) =~= name);
    lemma_spans_from(dir, 0);
    let count = spans(dir).len() as int;
    assert(component(all, count) == name);
    assert forall|i: int| 0 <= i < count implies #[trigger] components(all)[i] == components(
        dir,
    )[i] by {
        let span = spans(dir)[i];
        assert(spans(all)[i] == span);
        assert(all.subrange(span.0, span.1) =~= dir.subrange(span.0, span.1));
    }
    assert(components(all) =~= components(dir).push(name));
    if dir.len() > 0 {
        assert(all[0] == dir[0]);
    } else {
        assert(all[0] == name[0]);
    }
    if end_of(dir, count) == dir.len() {
        assert(end_of(all, count) == dir.len()) by {
            if count > 0 {
                assert(spans(all)[count - 1] == spans(dir)[count - 1]);
            }
        }
        assert(all.subrange(0, dir.len() as int) =~= dir);
    }
}

/// A path is taken from a directory unless it is absolute; then it stands for itself.
pub proof fn law_joining_keeps_both_parts(base: Seq<char>, path: Seq<char>)
    ensures
        is_absolute(path) ==> joined_path(base, path) == path,
        !is_absolute(path) ==> base.is_prefix_of(joined_path(base, path)) && path.is_suffix_of(
            joined_path(base, path),
        ),
        !is_absolute(path) && base.len() > 0 ==> {
            let cut = joined_path(base, path).len() - path.len();
            &&& joined_path(base, path)[cut - 1] == '/'
            &&& cut == base.len() || (cut == base.len() + 1 && base.last() != '/')
        },
        !is_absolute(path) && base.len() == 0 ==> joined_path(base, path) == path,
{
    let all = joined_path(base, path);
    if !is_absolute(path) {
        assert(all.subrange(0, base.len() as int) =~= base);
        assert(all.subrange(all.len() - path.len(), all.len() as int) =~= path);
        if base.len() == 0 {
            assert(all =~= path);
        }
    }
}

/// Written with slashes, a path holds a slash wherever it held a slash or a backslash, and is
/// unchanged elsewhere.
pub proof fn law_only_backslashes_change(path: Seq<char>)
    ensures
        normalized(path).len() == path.len(),
        forall|i: int|
            0 <= i < path.len() ==> #[trigger] normalized(path)[i] != '\\' && (path[i] != '\\'
                ==> normalized(path)[i] == path[i]) && (path[i] == '\\' ==> normalized(path)[i]
                == '/'),
{
}

proof fn lemma_components_of_both(a: Seq<char>, mid: Seq<char>, b: Seq<char>)
    requires
        a.len() > 0,
        mid.len() > 0 && mid[0] == '/',
        !(b.len() > 0 && b[0] == '.' && (b.len() == 1 || b[1] == '/')),
        spans_from(a + mid + b, a.len() as int) == spans_from(a + mid + b, (a + mid).len() as int),
    ensures
        components(a + mid + b) == components(a) + components(b),
        is_absolute(a + mid + b) == is_absolute(a),
{
    let all = a + mid + b;
    let by = (a + mid).len() as int;
    assert(all =~= a + (mid + b));
    lemma_spans_of_both(a, mid + b, 0);
    lemma_spans_moved(a + mid, b, 0);
    lemma_spans_from(a, 0);
    lemma_spans_from(b, 0);
    let count = spans(a).len() as int;
    assert(spans(all) == spans(a) + moved(spans(b), by));
    assert forall|i: int| 0 <= i < spans(all).len() implies #[trigger] components(all)[i] == (
    components(a) + components(b))[i] by {
        if i < count {
            let span = spans(a)[i];
            assert(spans(all)[i] == span);
            assert(all.subrange(span.0, span.1) =~= a.subrange(span.0, span.1));
        } else {
            let span = spans(b)[i - count];
            assert(spans(all)[i] == (span.0 + by, span.1 + by));
            assert(all.subrange(span.0 + by, span.1 + by) =~= b.subrange(span.0, span.1));
        }
    }
    assert(components(all) =~= components(a) + components(b));
    assert(all[0] == a[0]);
}

/// The components of two paths with a slash between are those of the one and then those of the
/// other. A second slash, or a `.` as a component, changes nothing, nor does one at the end.
pub proof fn law_components_of_two_paths(a: Seq<char>, b: Seq<char>)
    requires
        a.len() > 0,
        !(b.len() > 0 && b[0] == '.' && (b.len() == 1 || b[1] == '/')),
    ensures
        components(a + seq!['/'] + b) == components(a) + components(b),
        components(a + seq!['/', '/'] + b) == components(a) + components(b),
        components(a + seq!['/', '.', '/'] + b) == components(a) + components(b),
        components(a + seq!['/']) == components(a),
        is_absolute(a + seq!['/'] + b) == is_absolute(a),
{
    let cut = a.len() as int;
    let one = a + seq!['/'] + b;
    assert(one[cut] == '/');
    assert(crate::text::next_index(one, '/', cut) == cut);
    lemma_components_of_both(a, seq!['/'], b);
    let two = a + seq!['/', '/'] + b;
    assert(two[cut] == '/' && two[cut + 1] == '/');
    assert(crate::text::next_index(two, '/', cut) == cut);
    assert(crate::text::next_index(two, '/', cut + 1) == cut + 1);
    assert(spans_from(two, cut + 1) == spans_from(two, cut + 2)) by {
        if cut + 2 == two.len() {
            assert(spans_from(two, cut + 2) =~= Seq::empty());
        }
    }
    lemma_components_of_both(a, seq!['/', '/'], b);
    let dot = a + seq!['/', '.', '/'] + b;
    assert(dot[cut] == '/' && dot[cut + 1] == '.' && dot[cut + 2] == '/');
    assert(crate::text::next_index(dot, '/', cut) == cut);
    assert(crate::text::next_index(dot, '/', cut + 2) == cut + 2);
    assert(crate::text::next_index(dot, '/', cut + 1) == cut + 2);
    assert(!is_component(dot, cut + 1, cut + 2));
    assert(spans_from(dot, cut + 1) == spans_from(dot, cut + 3));
    assert(spans_from(dot, cut) == spans_from(dot, cut + 1));
    lemma_components_of_both(a, seq!['/', '.', '/'], b);
    let none = Seq::<char>::empty();
    let ended = a + seq!['/'] + none;
    assert(ended[cut] == '/');
    assert(crate::text::next_index(ended, '/', cut) == cut);
    assert(spans_from(ended, cut) =~= spans_from(ended, cut + 1));
    lemma_components_of_both(a, seq!['/'], none);
    assert(ended =~= a + seq!['/']);
    assert(components(none) =~= Seq::empty());
    assert(components(a) + components(none) =~= components(a));
}

/// A path is absolute exactly where it begins with a slash. A path outside a directory keeps its
/// name there: it is one where the directory has components with which the path does not begin, or
/// where only one of the two is absolute.
pub proof fn law_path_outside_keeps_its_name(path: Seq<char>, base: Seq<char>)
    ensures
        is_absolute(seq!['/'] + path),
        !is_absolute(Seq::empty()),
        path.len() > 0 && path[0] != '/' ==> !is_absolute(path),
        components(base).len() > 0 && (!components(base).is_prefix_of(components(path)) || (
        is_absolute(path) != is_absolute(base))) ==> strip_base(path, base) is None
            && relative_path(base, path) == path,
{
}

/// The root and the empty path hold nothing: neither has a name or a directory above it.
pub proof fn law_root_has_no_name()
    ensures
        file_name_of(Seq::empty()) is None,
        file_name_of(seq!['/']) is None,
        parent_of(Seq::empty()) is None,
        parent_of(seq!['/']) is None,
{
    let root = seq!['/'];
    assert(crate::text::next_index(root, '/', 0) == 0);
    reveal_with_fuel(spans_from, 2);
    assert(spans(root) =~= Seq::empty());
}

/// A path that leads up has no file name: `..` names no file.
pub proof fn law_way_up_is_no_file_name(dir: Seq<char>)
    ensures
        file_name_of(joined_path(dir, seq!['.', '.'])) is None,
        components(joined_path(dir, seq!['.', '.'])).last() == seq!['.', '.'],
{
    let up = seq!['.', '.'];
    assert(up.len() != seq!['.'].len());
    lemma_spans_of_joined(dir, up);
    let all = joined_path(dir, up);
    assert(component(all, spans(all).len() - 1) == up);
}

} // verus!
