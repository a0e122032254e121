//! All files below a directory, each directory's content where the directory stands.
use vstd::prelude::*;

use crate::error::{hook_error, Error, ErrorKind, ErrorView};
use crate::text::views;

verus! {

/// One entry of a directory: a directory, a file, something else, one whose kind could not be
/// found out, or one that could not be read.
#[derive(Debug)]
pub enum DirEntry {
    Dir(String),
    File(String),
    Other(String),
    Untyped { path: String, source: String },
    Unreadable(String),
}

/// One entry of a directory, as characters.
pub enum EntryView {
    Dir(Seq<char>),
    File(Seq<char>),
    Other(Seq<char>),
    Untyped { path: Seq<char>, source: Seq<char> },
    Unreadable(Seq<char>),
}

impl View for DirEntry {
    type V = EntryView;

    open spec fn view(&self) -> EntryView {
        match self {
            DirEntry::Dir(path) => EntryView::Dir(path@),
            DirEntry::File(path) => EntryView::File(path@),
            DirEntry::Other(path) => EntryView::Other(path@),
            DirEntry::Untyped { path, source } => EntryView::Untyped {
                path: path@,
                source: source@,
            },
            DirEntry::Unreadable(source) => EntryView::Unreadable(source@),
        }
    }
}

/// An entry that is still to be looked at, and the directory it is in.
pub struct PendingView {
    pub directory: Seq<char>,
    pub entry: EntryView,
}

#[derive(Debug)]
struct Pending {
    directory: String,
    entry: DirEntry,
}

spec fn pending_view(pending: Pending) -> PendingView {
    PendingView { directory: pending.directory@, entry: pending.entry@ }
}

/// The entries on a stack, the topmost first.
spec fn stack_view(stack: Seq<Pending>) -> Seq<PendingView> {
    Seq::new(stack.len(), |i: int| pending_view(stack[stack.len() - 1 - i]))
}

/// A walk that waits for the entries of a directory.
#[derive(Debug)]
pub struct FileWalk {
    directory: String,
    stack: Vec<Pending>,
    files: Vec<String>,
}

/// A walk that waits for the entries of a directory: the directory, what is to be looked at
/// behind it, and the files found so far.
#[verifier::ext_equal]
pub struct WalkView {
    pub directory: Seq<char>,
    pub pending: Seq<PendingView>,
    pub files: Seq<Seq<char>>,
}

impl View for FileWalk {
    type V = WalkView;

    closed spec fn view(&self) -> WalkView {
        WalkView {
            directory: self.directory@,
            pending: stack_view(self.stack@),
            files: views(self.files@),
        }
    }
}

/// What a walk does next: read a directory, or end.
#[derive(Debug)]
pub enum WalkStep {
    ReadDir(FileWalk),
    Done(Result<Vec<String>, Error>),
}

/// What a walk does next, as characters.
pub enum StepView {
    ReadDir(WalkView),
    Done(Result<Seq<Seq<char>>, ErrorView>),
}

impl View for WalkStep {
    type V = StepView;

    open spec fn view(&self) -> StepView {
        match self {
            WalkStep::ReadDir(walk) => StepView::ReadDir(walk@),
            WalkStep::Done(Ok(files)) => StepView::Done(Ok(views(files@))),
            WalkStep::Done(Err(error)) => StepView::Done(Err(error@)),
        }
    }
}

/// The entries of a directory, to be looked at.
pub open spec fn entries_of(directory: Seq<char>, entries: Seq<EntryView>) -> Seq<PendingView> {
    entries.map_values(|entry: EntryView| PendingView { directory, entry })
}

/// Looks at the entries in order: files are kept, the first directory must be read, and the
/// first entry that cannot be looked at ends the walk.
pub open spec fn advanced(files: Seq<Seq<char>>, pending: Seq<PendingView>) -> StepView
    decreases pending.len(),
{
    if pending.len() == 0 {
        StepView::Done(Ok(files))
    } else {
        let rest = pending.drop_first();
        match pending.first().entry {
            EntryView::Dir(directory) => StepView::ReadDir(
                WalkView { directory, pending: rest, files },
            ),
            EntryView::File(path) => advanced(files.push(path), rest),
            EntryView::Other(_) => advanced(files, rest),
            EntryView::Untyped { path, source } => StepView::Done(
                Err(hook_error("failed to get file type while collecting "@ + path + ": "@ + source)),
            ),
            EntryView::Unreadable(source) => StepView::Done(
                Err(
                    hook_error(
                        "failed to read directory entry in "@ + pending.first().directory + ": "@
                            + source,
                    ),
                ),
            ),
        }
    }
}

/// What a walk does with the entries of its directory, or with the reason why there are none.
pub open spec fn resumed(walk: WalkView, listing: Result<Seq<EntryView>, Seq<char>>) -> StepView {
    match listing {
        Ok(entries) => advanced(
            walk.files,
            entries_of(walk.directory, entries) + walk.pending,
        ),
        Err(source) => StepView::Done(
            Err(
                hook_error(
                    "failed to read directory while collecting watched files "@ + walk.directory
                        + ": "@ + source,
                ),
            ),
        ),
    }
}

/// The entries of a directory, or the reason why there are none, as characters.
pub open spec fn listing_view(listing: Result<Vec<DirEntry>, String>) -> Result<
    Seq<EntryView>,
    Seq<char>,
> {
    match listing {
        Ok(entries) => Ok(entries@.map_values(|entry: DirEntry| entry@)),
        Err(source) => Err(source@),
    }
}

impl FileWalk {
    /// A walk through everything below a directory.
    pub fn start(root: &str) -> (walk: Self)
        ensures
            walk@ == (WalkView { directory: root@, pending: Seq::empty(), files: Seq::empty() }),
    {
        let walk: FileWalk = FileWalk {
            directory: root.to_owned(),
            stack: Vec::new(),
            files: Vec::new(),
        };
        assert(walk@ =~= WalkView {
            directory: root@,
            pending: Seq::empty(),
            files: Seq::empty(),
        });
        walk
    }

    /// The directory to read.
    pub fn directory(&self) -> (directory: &str)
        ensures
            directory@ == self@.directory,
    {
        self.directory.as_str()
    }

    /// What the walk does with the entries of its directory, in the order in which they were
    /// found.
    pub fn resume(self, listing: Result<Vec<DirEntry>, String>) -> (step: WalkStep)
        ensures
            step@ == resumed(self@, listing_view(listing)),
    {
        let ghost goal = resumed(self@, listing_view(listing));
        let directory: String = self.directory;
        let mut stack: Vec<Pending> = self.stack;
        let mut files: Vec<String> = self.files;
        let mut entries: Vec<DirEntry> = match listing {
            Ok(entries) => entries,
            Err(source) => {
                let mut message: String =
                    "failed to read directory while collecting watched files ".to_owned();
                message.append(directory.as_str());
                message.append(": ");
                message.append(source.as_str());
                return WalkStep::Done(Err(Error::Hook(message)));
            },
        };
        let ghost listed = entries@.map_values(|entry: DirEntry| entry@);
        let ghost all = entries_of(directory@, listed) + stack_view(stack@);
        assert(entries_of(directory@, listed.take(entries@.len() as int)) + stack_view(stack@)
            =~= all);
        while entries.len() > 0
            invariant
                entries@.len() <= listed.len(),
                entries@.map_values(|entry: DirEntry| entry@) == listed.take(entries@.len() as int),
                entries_of(directory@, listed.take(entries@.len() as int)) + stack_view(stack@)
                    == all,
            decreases entries@.len(),
        {
            let ghost count = entries@.len();
            let ghost before = stack_view(stack@);
            let ghost entry_views = entries@.map_values(|entry: DirEntry| entry@);
            if let Some(entry) = entries.pop() {
                assert(entry_views[count - 1] == entry@);
                assert(entries@.map_values(|entry: DirEntry| entry@) =~= listed.take(count - 1)) by {
                    assert(entry_views.drop_last() =~= listed.take(count - 1));
                }
                let pending: Pending = Pending { directory: directory.clone(), entry };
                stack.push(pending);
                let ghost top = pending_view(pending);
                assert(stack_view(stack@) =~= seq![top] + before);
                assert(entries_of(directory@, listed.take(count as int)) =~= entries_of(
                    directory@,
                    listed.take(count - 1),
                ) + seq![top]);
                assert(entries_of(directory@, listed.take(count - 1)) + stack_view(stack@) =~= all);
            }
        }
        assert(entries_of(directory@, listed.take(0)) + stack_view(stack@) =~= stack_view(stack@));
        while stack.len() > 0
            invariant
                goal == resumed(self@, listing_view(listing)),
                advanced(views(files@), stack_view(stack@)) == goal,
            decreases stack@.len(),
        {
            let ghost pending = stack_view(stack@);
            let ghost found = views(files@);
            let ghost top = stack@.last();
            if let Some(next) = stack.pop() {
                assert(pending.first() == pending_view(top));
                assert(pending.drop_first() =~= stack_view(stack@));
                match next.entry {
                    DirEntry::Dir(path) => {
                        return WalkStep::ReadDir(FileWalk { directory: path, stack, files });
                    },
                    DirEntry::File(path) => {
                        files.push(path);
                        assert(views(files@) =~= found.push(path@));
                    },
                    DirEntry::Other(_) => {},
                    DirEntry::Untyped { path, source } => {
                        let mut message: String =
                            "failed to get file type while collecting ".to_owned();
                        message.append(path.as_str());
                        message.append(": ");
                        message.append(source.as_str());
                        return WalkStep::Done(Err(Error::Hook(message)));
                    },
                    DirEntry::Unreadable(source) => {
                        let mut message: String = "failed to read directory entry in ".to_owned();
                        message.append(next.directory.as_str());
                        message.append(": ");
                        message.append(source.as_str());
                        return WalkStep::Done(Err(Error::Hook(message)));
                    },
                }
            }
        }
        WalkStep::Done(Ok(files))
    }
}

/// What is below a directory: files, directories with what is below them, and other things.
pub enum Node {
    File(Seq<char>),
    Dir(Seq<char>, Seq<Node>),
    Other(Seq<char>),
}

/// The entry of its directory under which something is found.
pub open spec fn entry_of(node: Node) -> EntryView {
    match node {
        Node::File(path) => EntryView::File(path),
        Node::Dir(path, _) => EntryView::Dir(path),
        Node::Other(path) => EntryView::Other(path),
    }
}

/// The entries of a directory that holds these.
pub open spec fn listing_of(nodes: Seq<Node>) -> Seq<EntryView> {
    nodes.map_values(|node: Node| entry_of(node))
}

/// All files among these and below them, in order.
pub open spec fn files_in(nodes: Seq<Node>) -> Seq<Seq<char>>
    decreases nodes,
{
    if nodes.len() == 0 {
        Seq::empty()
    } else {
        (match nodes[0] {
            Node::File(path) => seq![path],
            Node::Dir(_, inner) => files_in(inner),
            Node::Other(_) => Seq::empty(),
        }) + files_in(nodes.drop_first())
    }
}

/// The entries of the directories among these and below them, in the order in which a walk asks
/// for them.
pub open spec fn listings_in(nodes: Seq<Node>) -> Seq<Seq<EntryView>>
    decreases nodes,
{
    if nodes.len() == 0 {
        Seq::empty()
    } else {
        (match nodes[0] {
            Node::Dir(_, inner) => seq![listing_of(inner)] + listings_in(inner),
            _ => Seq::empty(),
        }) + listings_in(nodes.drop_first())
    }
}

/// What a walk does after it was given these entries.
pub open spec fn walked(step: StepView, listings: Seq<Seq<EntryView>>) -> StepView
    decreases listings.len(),
{
    match step {
        StepView::ReadDir(walk) => if listings.len() == 0 {
            step
        } else {
            walked(resumed(walk, Ok(listings.first())), listings.drop_first())
        },
        StepView::Done(_) => step,
    }
}

proof fn lemma_walk_past(
    directory: Seq<char>,
    nodes: Seq<Node>,
    files: Seq<Seq<char>>,
    pending: Seq<PendingView>,
    more: Seq<Seq<EntryView>>,
)
    ensures
        walked(
            advanced(files, entries_of(directory, listing_of(nodes)) + pending),
            listings_in(nodes) + more,
        ) == walked(advanced(files + files_in(nodes), pending), more),
    decreases nodes,
{
    let here = entries_of(directory, listing_of(nodes)) + pending;
    if nodes.len() == 0 {
        assert(here =~= pending);
        assert(listings_in(nodes) + more =~= more);
        assert(files + files_in(nodes) =~= files);
    } else {
        let rest = nodes.drop_first();
        let behind = entries_of(directory, listing_of(rest)) + pending;
        assert(here.drop_first() =~= behind);
        assert(here.first().entry == entry_of(nodes[0]));
        match nodes[0] {
            Node::File(path) => {
                lemma_walk_past(directory, rest, files.push(path), pending, more);
                assert(listings_in(nodes) + more =~= listings_in(rest) + more);
                assert(files + files_in(nodes) =~= files.push(path) + files_in(rest));
            },
            Node::Other(_) => {
                lemma_walk_past(directory, rest, files, pending, more);
                assert(listings_in(nodes) + more =~= listings_in(rest) + more);
                assert(files + files_in(nodes) =~= files + files_in(rest));
            },
            Node::Dir(path, inner) => {
                let left = listings_in(rest) + more;
                let asked = listings_in(nodes) + more;
                assert(asked.first() == listing_of(inner));
                assert(asked.drop_first() =~= listings_in(inner) + left);
                lemma_walk_past(path, inner, files, behind, left);
                lemma_walk_past(directory, rest, files + files_in(inner), pending, more);
                assert(files + files_in(nodes) =~= files + files_in(inner) + files_in(rest));
            },
        }
    }
}

/// A walk finds every file below its root, in order, and nothing else.
pub proof fn law_walk_finds_all_files(root: Seq<char>, nodes: Seq<Node>)
    ensures
        walked(
            StepView::ReadDir(
                WalkView { directory: root, pending: Seq::empty(), files: Seq::empty() },
            ),
            seq![listing_of(nodes)] + listings_in(nodes),
        ) == StepView::Done(Ok(files_in(nodes))),
{
    let start = WalkView { directory: root, pending: Seq::empty(), files: Seq::empty() };
    let asked = seq![listing_of(nodes)] + listings_in(nodes);
    assert(asked.first() == listing_of(nodes));
    assert(asked.drop_first() =~= listings_in(nodes) + Seq::<Seq<EntryView>>::empty());
    lemma_walk_past(root, nodes, Seq::empty(), Seq::empty(), Seq::empty());
    assert(Seq::<Seq<char>>::empty() + files_in(nodes) =~= files_in(nodes));
}

/// The entry is neither a directory nor in the way of the walk.
pub open spec fn is_passed(entry: EntryView) -> bool {
    entry is File || entry is Other
}

proof fn lemma_walk_stops(
    files: Seq<Seq<char>>,
    before: Seq<PendingView>,
    bad: PendingView,
    behind: Seq<PendingView>,
)
    requires
        forall|i: int| 0 <= i < before.len() ==> is_passed((#[trigger] before[i]).entry),
        bad.entry is Untyped || bad.entry is Unreadable,
    ensures
        advanced(files, before + seq![bad] + behind) == advanced(Seq::empty(), seq![bad]),
    decreases before.len(),
{
    let all = before + seq![bad] + behind;
    if before.len() == 0 {
        assert(all.first() == bad);
    } else {
        let rest = before.drop_first();
        assert(all.first() == before[0]);
        assert(all.drop_first() =~= rest + seq![bad] + behind);
        assert forall|i: int| 0 <= i < rest.len() implies is_passed((#[trigger] rest[i]).entry) by {
            assert(rest[i] == before[i + 1]);
        }
        match before[0].entry {
            EntryView::File(path) => lemma_walk_stops(files.push(path), rest, bad, behind),
            _ => lemma_walk_stops(files, rest, bad, behind),
        }
    }
}

/// A directory that cannot be read, or an entry that cannot be looked at, ends the walk with an
/// error that names it and the reason: no file is left out in silence.
pub proof fn law_walk_leaves_nothing_out_in_silence(
    walk: WalkView,
    before: Seq<EntryView>,
    behind: Seq<EntryView>,
    path: Seq<char>,
    source: Seq<char>,
)
    requires
        forall|i: int| 0 <= i < before.len() ==> is_passed(#[trigger] before[i]),
    ensures
        resumed(walk, Err(source)) matches StepView::Done(Err(error)) && error.kind
            == ErrorKind::Hook && (walk.directory + ": "@ + source).is_suffix_of(error.message),
        resumed(walk, Ok(before + seq![EntryView::Unreadable(source)] + behind)) matches
            StepView::Done(Err(error)) && error.kind == ErrorKind::Hook && (walk.directory + ": "@
            + source).is_suffix_of(error.message),
        resumed(walk, Ok(before + seq![EntryView::Untyped { path, source }] + behind)) matches
            StepView::Done(Err(error)) && error.kind == ErrorKind::Hook && (path + ": "@
            + source).is_suffix_of(error.message),
{
    assert forall|start: Seq<char>, place: Seq<char>|
        (place + ": "@ + source).is_suffix_of(#[trigger] (start + place + ": "@ + source)) by {
        let all = start + place + ": "@ + source;
        let end = place + ": "@ + source;
        assert(all.subrange(all.len() - end.len(), all.len() as int) =~= end);
    }
    let head = entries_of(walk.directory, before);
    let tail = entries_of(walk.directory, behind) + walk.pending;
    assert forall|i: int| 0 <= i < head.len() implies is_passed((#[trigger] head[i]).entry) by {
        assert(head[i].entry == before[i]);
    }
    let unreadable = PendingView {
        directory: walk.directory,
        entry: EntryView::Unreadable(source),
    };
    let untyped = PendingView {
        directory: walk.directory,
        entry: EntryView::Untyped { path, source },
    };
    lemma_walk_stops(walk.files, head, unreadable, tail);
    lemma_walk_stops(walk.files, head, untyped, tail);
    assert(entries_of(
        walk.directory,
        before + seq![EntryView::Unreadable(source)] + behind,
    ) + walk.pending =~= head + seq![unreadable] + tail);
    assert(entries_of(
        walk.directory,
        before + seq![EntryView::Untyped { path, source }] + behind,
    ) + walk.pending =~= head + seq![untyped] + tail);
    assert(seq![unreadable].first() == unreadable && seq![untyped].first() == untyped);
}

/// The files below several things are those below each of them, one behind the other: a file is
/// found as itself, a directory as what is below it, and nothing else is found.
pub proof fn law_files_below_are_found_each_in_its_place(
    before: Seq<Node>,
    behind: Seq<Node>,
    path: Seq<char>,
    inner: Seq<Node>,
)
    ensures
        files_in(before + behind) == files_in(before) + files_in(behind),
        files_in(seq![Node::File(path)]) == seq![path],
        files_in(seq![Node::Dir(path, inner)]) == files_in(inner),
        files_in(seq![Node::Other(path)]) == Seq::<Seq<char>>::empty(),
    decreases before.len(),
{
    reveal_with_fuel(files_in, 2);
    let all = before + behind;
    if before.len() == 0 {
        assert(all =~= behind);
        assert(files_in(all) =~= files_in(before) + files_in(behind));
    } else {
        assert(all.drop_first() =~= before.drop_first() + behind);
        assert(all[0] == before[0]);
        law_files_below_are_found_each_in_its_place(before.drop_first(), behind, path, inner);
        assert(files_in(all) =~= files_in(before) + files_in(behind));
    }
    assert(seq![Node::File(path)].drop_first() =~= Seq::<Node>::empty());
    assert(seq![Node::Dir(path, inner)].drop_first() =~= Seq::<Node>::empty());
    assert(seq![Node::Other(path)].drop_first() =~= Seq::<Node>::empty());
    assert(files_in(seq![Node::File(path)]) =~= seq![path]);
    assert(files_in(seq![Node::Dir(path, inner)]) =~= files_in(inner));
    assert(files_in(seq![Node::Other(path)]) =~= Seq::<Seq<char>>::empty());
}

} // verus!
