//! Storm suppression: after a commit of a path, further changes of it are held back until a
//! window of time has passed.
use vstd::prelude::*;

use crate::text::{same_text, views};

verus! {

/// When a path was last committed, in nanoseconds, and whether a change of it has been held
/// back since.
#[derive(Debug)]
struct StormMark {
    path: String,
    committed: u64,
    held: bool,
}

/// When a path was last committed, and whether a change of it has been held back since.
#[verifier::ext_equal]
pub struct MarkView {
    pub path: Seq<char>,
    pub committed: int,
    pub held: bool,
}

impl View for StormMark {
    type V = MarkView;

    closed spec fn view(&self) -> MarkView {
        MarkView { path: self.path@, committed: self.committed as int, held: self.held }
    }
}

/// Holds back the changes of a path that come within a window after its last commit.
#[derive(Debug)]
pub struct StormShield {
    window_sec: u64,
    marks: Vec<StormMark>,
}

/// The window, in nanoseconds, and the marks of the paths that were committed.
#[verifier::ext_equal]
pub struct ShieldView {
    pub window: int,
    pub marks: Seq<MarkView>,
}

spec fn mark_views(marks: Seq<StormMark>) -> Seq<MarkView> {
    marks.map_values(|mark: StormMark| mark@)
}

/// A number of seconds, in nanoseconds.
pub open spec fn nanoseconds(seconds: int) -> int {
    seconds * 1_000_000_000
}

impl View for StormShield {
    type V = ShieldView;

    closed spec fn view(&self) -> ShieldView {
        ShieldView { window: nanoseconds(self.window_sec as int), marks: mark_views(self.marks@) }
    }
}

/// The time from one moment to another.
pub open spec fn elapsed(now: int, since: int) -> int {
    if now <= since {
        0
    } else {
        now - since
    }
}

/// The window after a mark's commit is not over.
pub open spec fn within(mark: MarkView, window: int, now: int) -> bool {
    elapsed(now, mark.committed) < window
}

/// The path was committed less than a window ago.
pub open spec fn storming(shield: ShieldView, path: Seq<char>, now: int) -> bool {
    exists|i: int|
        0 <= i < shield.marks.len() && (#[trigger] shield.marks[i]).path == path && within(
            shield.marks[i],
            shield.window,
            now,
        )
}

/// A mark, where that of the path says whether a change is held back.
pub open spec fn remark(mark: MarkView, path: Seq<char>, held: bool) -> MarkView {
    if mark.path == path {
        MarkView { held, ..mark }
    } else {
        mark
    }
}

/// The shield after it was asked about a change of the path.
pub open spec fn admitted(shield: ShieldView, path: Seq<char>, now: int) -> ShieldView {
    let held = storming(shield, path, now);
    ShieldView { marks: shield.marks.map_values(|mark: MarkView| remark(mark, path, held)), ..shield }
}

/// The shield after a commit of the path.
pub open spec fn noted(shield: ShieldView, path: Seq<char>, at: int) -> ShieldView {
    ShieldView {
        marks: shield.marks.filter(|mark: MarkView| mark.path != path).push(
            MarkView { path, committed: at, held: false },
        ),
        ..shield
    }
}

/// The paths with a change that was held back and need not be any longer.
pub open spec fn due(shield: ShieldView, now: int) -> Seq<Seq<char>> {
    shield.marks.filter(
        |mark: MarkView| mark.held && !within(mark, shield.window, now),
    ).map_values(|mark: MarkView| mark.path)
}

fn is_within(committed: u64, window_sec: u64, now: u64) -> (found: bool)
    ensures
        found == (elapsed(now as int, committed as int) < nanoseconds(window_sec as int)),
{
    let passed: u64 = if now <= committed {
        0
    } else {
        now - committed
    };
    (passed as u128) < (window_sec as u128) * 1_000_000_000
}

impl StormShield {
    /// A shield with this window that has seen no commit.
    pub fn new(window_sec: u64) -> (shield: Self)
        ensures
            shield@ == (ShieldView {
                window: nanoseconds(window_sec as int),
                marks: Seq::empty(),
            }),
    {
        let shield: StormShield = StormShield { window_sec, marks: Vec::new() };
        assert(shield@.marks =~= Seq::empty());
        shield
    }

    fn is_storming(&self, path: &str, now: u64) -> (found: bool)
        ensures
            found == storming(self@, path@, now as int),
    {
        for i in 0..self.marks.len()
            invariant
                forall|k: int|
                    0 <= k < i ==> !((#[trigger] self@.marks[k]).path == path@ && within(
                        self@.marks[k],
                        self@.window,
                        now as int,
                    )),
        {
            let mark: &StormMark = &self.marks[i];
            assert(self@.marks[i as int] == mark@);
            if same_text(mark.path.as_str(), path) && is_within(
                mark.committed,
                self.window_sec,
                now,
            ) {
                return true;
            }
        }
        false
    }

    /// Whether a change of the path may be committed now. One that may not is held back.
    pub fn let_through(&mut self, path: &str, now: u64) -> (admits: bool)
        ensures
            admits == !storming(old(self)@, path@, now as int),
            final(self)@ == admitted(old(self)@, path@, now as int),
    {
        let held: bool = self.is_storming(path, now);
        let mut marks: Vec<StormMark> = Vec::new();
        for i in 0..self.marks.len()
            invariant
                *self == *old(self),
                marks@.len() == i,
                forall|k: int|
                    0 <= k < i ==> (#[trigger] marks@[k])@ == remark(
                        self@.marks[k],
                        path@,
                        held,
                    ),
        {
            let mark: &StormMark = &self.marks[i];
            let held_now: bool = if same_text(mark.path.as_str(), path) {
                held
            } else {
                mark.held
            };
            assert(self@.marks[i as int] == mark@);
            marks.push(
                StormMark {
                    path: mark.path.clone(),
                    committed: mark.committed,
                    held: held_now,
                },
            );
        }
        assert(mark_views(marks@) =~= admitted(self@, path@, now as int).marks);
        self.marks = marks;
        !held
    }

    /// Remembers a commit of the path.
    pub fn note_commit(&mut self, path: &str, now: u64)
        ensures
            final(self)@ == noted(old(self)@, path@, now as int),
    {
        let mut marks: Vec<StormMark> = Vec::new();
        let ghost other = |mark: MarkView| mark.path != path@;
        for i in 0..self.marks.len()
            invariant
                *self == *old(self),
                other == (|mark: MarkView| mark.path != path@),
                mark_views(marks@) == self@.marks.take(i as int).filter(other),
        {
            let mark: &StormMark = &self.marks[i];
            assert(self@.marks[i as int] == mark@);
            assert(self@.marks.take(i + 1).drop_last() =~= self@.marks.take(i as int));
            proof {
                reveal_with_fuel(Seq::filter, 2);
            }
            let ghost before = mark_views(marks@);
            if !same_text(mark.path.as_str(), path) {
                let copy: StormMark = StormMark {
                    path: mark.path.clone(),
                    committed: mark.committed,
                    held: mark.held,
                };
                marks.push(copy);
                assert(mark_views(marks@) =~= before.push(copy@));
            }
        }
        assert(self@.marks.take(self.marks@.len() as int) =~= self@.marks);
        let ghost kept = mark_views(marks@);
        let mark: StormMark = StormMark { path: path.to_owned(), committed: now, held: false };
        marks.push(mark);
        assert(mark_views(marks@) =~= kept.push(mark@));
        self.marks = marks;
    }

    /// The paths with a change that was held back and need not be any longer.
    pub fn due_paths(&self, now: u64) -> (paths: Vec<String>)
        ensures
            views(paths@) == due(self@, now as int),
    {
        let mut paths: Vec<String> = Vec::new();
        let ghost shield = self@;
        let ghost over = |mark: MarkView| mark.held && !within(mark, shield.window, now as int);
        let ghost path_of = |mark: MarkView| mark.path;
        for i in 0..self.marks.len()
            invariant
                shield == self@,
                over == (|mark: MarkView|
                    mark.held && !within(mark, shield.window, now as int)),
                path_of == (|mark: MarkView| mark.path),
                views(paths@) == shield.marks.take(i as int).filter(over).map_values(path_of),
        {
            let mark: &StormMark = &self.marks[i];
            assert(shield.marks[i as int] == mark@);
            assert(shield.marks.take(i + 1).drop_last() =~= shield.marks.take(i as int));
            proof {
                reveal_with_fuel(Seq::filter, 2);
            }
            let ghost before = views(paths@);
            let ghost found = shield.marks.take(i as int).filter(over);
            if mark.held && !is_within(mark.committed, self.window_sec, now) {
                paths.push(mark.path.clone());
                assert(found.push(mark@).map_values(path_of) =~= found.map_values(path_of).push(
                    mark@.path,
                ));
                assert(views(paths@) =~= before.push(mark@.path));
            }
        }
        assert(shield.marks.take(self.marks@.len() as int) =~= shield.marks);
        paths
    }
}

/// The shield remembers a commit of the path that was made at this time or later.
pub open spec fn remembers(shield: ShieldView, path: Seq<char>, since: int) -> bool {
    exists|i: int|
        0 <= i < shield.marks.len() && (#[trigger] shield.marks[i]).path == path
            && shield.marks[i].committed >= since
}

/// A commit is remembered, and stays remembered whatever the shield is asked and whatever is
/// committed later.
pub proof fn law_commit_stays_remembered(
    shield: ShieldView,
    path: Seq<char>,
    since: int,
    other: Seq<char>,
    at: int,
)
    ensures
        remembers(noted(shield, path, since), path, since),
        remembers(shield, path, since) ==> remembers(admitted(shield, other, at), path, since),
        remembers(shield, path, since) && (at >= since || other != path) ==> remembers(
            noted(shield, other, at),
            path,
            since,
        ),
{
    let after = noted(shield, path, since);
    assert(after.marks[after.marks.len() - 1].path == path);
    if remembers(shield, path, since) {
        let i = choose|i: int|
            0 <= i < shield.marks.len() && (#[trigger] shield.marks[i]).path == path
                && shield.marks[i].committed >= since;
        let asked = admitted(shield, other, at);
        assert(asked.marks[i].path == path && asked.marks[i].committed >= since);
        let later = noted(shield, other, at);
        let kept = |mark: MarkView| mark.path != other;
        if other == path {
            assert(later.marks[later.marks.len() - 1].path == path);
        } else {
            lemma_filter_keeps(shield.marks, kept, i);
            let k = choose|k: int|
                0 <= k < shield.marks.filter(kept).len() && shield.marks.filter(kept)[k]
                    == shield.marks[i];
            assert(later.marks[k] == shield.marks[i]);
        }
    }
}

proof fn lemma_filter_keeps(marks: Seq<MarkView>, kept: spec_fn(MarkView) -> bool, i: int)
    requires
        0 <= i < marks.len(),
        kept(marks[i]),
    ensures
        exists|k: int| 0 <= k < marks.filter(kept).len() && marks.filter(kept)[k] == marks[i],
    decreases marks.len(),
{
    reveal_with_fuel(Seq::filter, 2);
    let rest = marks.drop_last();
    if i == marks.len() - 1 {
        assert(marks.filter(kept)[rest.filter(kept).len() as int] == marks[i]);
    } else {
        lemma_filter_keeps(rest, kept, i);
        let k = choose|k: int| 0 <= k < rest.filter(kept).len() && rest.filter(kept)[k] == rest[i];
        assert(marks.filter(kept)[k] == marks[i]);
    }
}

proof fn lemma_filter_comes_from(marks: Seq<MarkView>, kept: spec_fn(MarkView) -> bool, k: int)
    requires
        0 <= k < marks.filter(kept).len(),
    ensures
        exists|i: int|
            0 <= i < marks.len() && #[trigger] marks[i] == marks.filter(kept)[k] && kept(marks[i]),
    decreases marks.len(),
{
    reveal_with_fuel(Seq::filter, 2);
    let rest = marks.drop_last();
    if k < rest.filter(kept).len() {
        lemma_filter_comes_from(rest, kept, k);
        let i = choose|i: int|
            0 <= i < rest.len() && #[trigger] rest[i] == rest.filter(kept)[k] && kept(rest[i]);
        assert(marks[i] == rest[i]);
    } else {
        assert(marks[marks.len() - 1] == marks.filter(kept)[k]);
    }
}

/// While a path's commit is less than a window old, no change of it is let through: two commits
/// of one path are at least a window apart.
pub proof fn law_commits_of_a_path_keep_apart(
    shield: ShieldView,
    path: Seq<char>,
    since: int,
    now: int,
)
    requires
        remembers(shield, path, since),
        now - since < shield.window,
        0 < shield.window,
    ensures
        storming(shield, path, now),
{
    let i = choose|i: int|
        0 <= i < shield.marks.len() && (#[trigger] shield.marks[i]).path == path
            && shield.marks[i].committed >= since;
    assert(within(shield.marks[i], shield.window, now));
}

/// A change that is held back is not lost: once the window is over, its path is due. (No commit
/// lies in the future.)
pub proof fn law_held_back_change_becomes_due(
    shield: ShieldView,
    path: Seq<char>,
    now: int,
    later: int,
)
    requires
        storming(shield, path, now),
        forall|i: int| 0 <= i < shield.marks.len() ==> (#[trigger] shield.marks[i]).committed <= now,
        later - now >= shield.window,
    ensures
        due(admitted(shield, path, now), later).contains(path),
{
    let after = admitted(shield, path, now);
    let i = choose|i: int|
        0 <= i < shield.marks.len() && (#[trigger] shield.marks[i]).path == path && within(
            shield.marks[i],
            shield.window,
            now,
        );
    let over = |mark: MarkView| mark.held && !within(mark, after.window, later);
    assert(after.marks[i].held);
    assert(over(after.marks[i]));
    lemma_filter_keeps(after.marks, over, i);
    let k = choose|k: int|
        0 <= k < after.marks.filter(over).len() && after.marks.filter(over)[k] == after.marks[i];
    assert(due(after, later)[k] == path);
}

/// A change of the path is held back, and need not be any longer at this time.
pub open spec fn ripe(shield: ShieldView, path: Seq<char>, later: int) -> bool {
    exists|i: int|
        0 <= i < shield.marks.len() && (#[trigger] shield.marks[i]).path == path
            && shield.marks[i].held && !within(shield.marks[i], shield.window, later)
}

/// What is held back stays held back, and gets ripe at the same time, whatever is asked about and
/// committed of other paths, and whatever more is held back of this one.
pub proof fn law_held_back_change_stays(
    shield: ShieldView,
    path: Seq<char>,
    later: int,
    other: Seq<char>,
    at: int,
)
    requires
        ripe(shield, path, later),
    ensures
        other != path || storming(shield, other, at) ==> ripe(
            admitted(shield, other, at),
            path,
            later,
        ),
        other != path ==> ripe(noted(shield, other, at), path, later),
{
    let i = choose|i: int|
        0 <= i < shield.marks.len() && (#[trigger] shield.marks[i]).path == path
            && shield.marks[i].held && !within(shield.marks[i], shield.window, later);
    let asked = admitted(shield, other, at);
    if other != path || storming(shield, other, at) {
        assert(asked.marks[i].path == path && asked.marks[i].held);
    }
    if other != path {
        let kept = |mark: MarkView| mark.path != other;
        lemma_filter_keeps(shield.marks, kept, i);
        let k = choose|k: int|
            0 <= k < shield.marks.filter(kept).len() && shield.marks.filter(kept)[k]
                == shield.marks[i];
        assert(noted(shield, other, at).marks[k] == shield.marks[i]);
    }
}

/// A path is due exactly where a change of it is held back and need not be any longer.
pub proof fn law_due_is_what_is_ripe(shield: ShieldView, path: Seq<char>, later: int)
    ensures
        due(shield, later).contains(path) == ripe(shield, path, later),
{
    let over = |mark: MarkView| mark.held && !within(mark, shield.window, later);
    let found = shield.marks.filter(over);
    if ripe(shield, path, later) {
        let i = choose|i: int|
            0 <= i < shield.marks.len() && (#[trigger] shield.marks[i]).path == path
                && shield.marks[i].held && !within(shield.marks[i], shield.window, later);
        lemma_filter_keeps(shield.marks, over, i);
        let k = choose|k: int| 0 <= k < found.len() && found[k] == shield.marks[i];
        assert(due(shield, later)[k] == path);
    }
    if due(shield, later).contains(path) {
        let k = choose|k: int| 0 <= k < due(shield, later).len() && due(shield, later)[k] == path;
        lemma_filter_comes_from(shield.marks, over, k);
        let i = choose|i: int|
            0 <= i < shield.marks.len() && #[trigger] shield.marks[i] == found[k] && over(
                shield.marks[i],
            );
        assert(shield.marks[i].path == path);
    }
}

/// With no window nothing is held back.
pub proof fn law_no_window_holds_nothing_back(shield: ShieldView, path: Seq<char>, now: int)
    requires
        shield.window == 0,
    ensures
        !storming(shield, path, now),
{
}

/// A commit of a path holds its changes back for exactly the window, and those of other paths not
/// at all. A shield that has seen no commit holds nothing back.
pub proof fn law_commit_holds_back_its_path_for_the_window(
    shield: ShieldView,
    path: Seq<char>,
    at: int,
    other: Seq<char>,
    now: int,
)
    ensures
        storming(noted(shield, path, at), path, now) <==> 0 < shield.window && now < at
            + shield.window,
        other != path ==> storming(noted(shield, path, at), other, now) == storming(
            shield,
            other,
            now,
        ),
        shield.marks.len() == 0 ==> !storming(shield, path, now),
        noted(shield, path, at).window == shield.window,
{
    let after = noted(shield, path, at);
    let kept = |mark: MarkView| mark.path != path;
    let others = shield.marks.filter(kept);
    let last = after.marks.len() - 1;
    assert(after.marks[last].path == path && after.marks[last].committed == at);
    assert forall|i: int| 0 <= i < last implies (#[trigger] after.marks[i]).path != path by {
        lemma_filter_comes_from(shield.marks, kept, i);
        assert(after.marks[i] == others[i]);
    }
    if other != path {
        if storming(shield, other, now) {
            let i = choose|i: int|
                0 <= i < shield.marks.len() && (#[trigger] shield.marks[i]).path == other && within(
                    shield.marks[i],
                    shield.window,
                    now,
                );
            lemma_filter_keeps(shield.marks, kept, i);
            let k = choose|k: int| 0 <= k < others.len() && others[k] == shield.marks[i];
            assert(after.marks[k] == shield.marks[i]);
        }
        if storming(after, other, now) {
            let k = choose|k: int|
                0 <= k < after.marks.len() && (#[trigger] after.marks[k]).path == other && within(
                    after.marks[k],
                    after.window,
                    now,
                );
            assert(k < last);
            lemma_filter_comes_from(shield.marks, kept, k);
            assert(after.marks[k] == others[k]);
        }
    }
}

/// To ask about a change neither shortens nor lengthens any window.
pub proof fn law_asking_moves_no_window(
    shield: ShieldView,
    path: Seq<char>,
    at: int,
    other: Seq<char>,
    now: int,
)
    ensures
        storming(admitted(shield, path, at), other, now) == storming(shield, other, now),
        admitted(shield, path, at).window == shield.window,
{
    let after = admitted(shield, path, at);
    assert forall|i: int| 0 <= i < shield.marks.len() implies (#[trigger] after.marks[i]).path
        == shield.marks[i].path && after.marks[i].committed == shield.marks[i].committed by {}
    if storming(shield, other, now) {
        let i = choose|i: int|
            0 <= i < shield.marks.len() && (#[trigger] shield.marks[i]).path == other && within(
                shield.marks[i],
                shield.window,
                now,
            );
        assert(within(after.marks[i], after.window, now));
    }
    if storming(after, other, now) {
        let i = choose|i: int|
            0 <= i < after.marks.len() && (#[trigger] after.marks[i]).path == other && within(
                after.marks[i],
                after.window,
                now,
            );
        assert(within(shield.marks[i], shield.window, now));
    }
}

/// A change that came within the window after a commit is due from the moment on at which the
/// window is over, and no sooner. One that came after it, or none at all, is not due.
pub proof fn law_change_is_due_from_the_end_of_the_window_on(
    shield: ShieldView,
    path: Seq<char>,
    at: int,
    now: int,
    later: int,
)
    requires
        0 < shield.window,
        at <= later,
    ensures
        now < at + shield.window ==> (due(
            admitted(noted(shield, path, at), path, now),
            later,
        ).contains(path) <==> at + shield.window <= later),
        now >= at + shield.window ==> !due(
            admitted(noted(shield, path, at), path, now),
            later,
        ).contains(path),
        !due(noted(shield, path, at), later).contains(path),
{
    let after = noted(shield, path, at);
    let asked = admitted(after, path, now);
    let kept = |mark: MarkView| mark.path != path;
    let last = after.marks.len() - 1;
    law_commit_holds_back_its_path_for_the_window(shield, path, at, path, now);
    law_due_is_what_is_ripe(asked, path, later);
    law_due_is_what_is_ripe(after, path, later);
    assert forall|i: int| 0 <= i < last implies (#[trigger] after.marks[i]).path != path by {
        lemma_filter_comes_from(shield.marks, kept, i);
        assert(after.marks[i] == shield.marks.filter(kept)[i]);
    }
    assert forall|i: int| 0 <= i < last implies (#[trigger] asked.marks[i]).path != path by {
        assert(asked.marks[i].path == after.marks[i].path);
    }
    assert(asked.marks[last].path == path && asked.marks[last].committed == at);
    assert(asked.marks[last].held == storming(after, path, now));
    assert(!after.marks[last].held);
}

/// What happens to one path makes no other path due, and keeps none from being so.
pub proof fn law_paths_are_due_each_for_itself(
    shield: ShieldView,
    path: Seq<char>,
    at: int,
    other: Seq<char>,
    later: int,
)
    requires
        other != path,
    ensures
        due(admitted(shield, path, at), later).contains(other) == due(shield, later).contains(other),
        due(noted(shield, path, at), later).contains(other) == due(shield, later).contains(other),
{
    let asked = admitted(shield, path, at);
    let after = noted(shield, path, at);
    law_due_is_what_is_ripe(shield, other, later);
    law_due_is_what_is_ripe(asked, other, later);
    law_due_is_what_is_ripe(after, other, later);
    if ripe(shield, other, later) {
        law_held_back_change_stays(shield, other, later, path, at);
    }
    if ripe(asked, other, later) {
        let i = choose|i: int|
            0 <= i < asked.marks.len() && (#[trigger] asked.marks[i]).path == other
                && asked.marks[i].held && !within(asked.marks[i], asked.window, later);
        assert(shield.marks[i] == asked.marks[i]);
    }
    if ripe(after, other, later) {
        let k = choose|k: int|
            0 <= k < after.marks.len() && (#[trigger] after.marks[k]).path == other
                && after.marks[k].held && !within(after.marks[k], after.window, later);
        let kept = |mark: MarkView| mark.path != path;
        assert(k < after.marks.len() - 1);
        lemma_filter_comes_from(shield.marks, kept, k);
        assert(after.marks[k] == shield.marks.filter(kept)[k]);
    }
}

/// A second has a thousand million nanoseconds.
pub proof fn law_seconds_add_up(seconds: int)
    ensures
        nanoseconds(0) == 0,
        nanoseconds(seconds + 1) == nanoseconds(seconds) + 1_000_000_000,
{
}

/// A change that is let through takes with it what was held back before: its path is not due any
/// more.
pub proof fn law_change_that_is_let_through_is_not_due(
    shield: ShieldView,
    path: Seq<char>,
    now: int,
    later: int,
)
    requires
        !storming(shield, path, now),
    ensures
        !due(admitted(shield, path, now), later).contains(path),
{
    let after = admitted(shield, path, now);
    law_due_is_what_is_ripe(after, path, later);
    assert forall|i: int| 0 <= i < after.marks.len() && (#[trigger] after.marks[i]).path
        == path implies !after.marks[i].held by {
        assert(after.marks[i] == remark(shield.marks[i], path, false));
    }
}

} // verus!
