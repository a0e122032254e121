//! Making a workspace: its directory, its config file, its `.gitignore` and the files that are
//! watched by default. What is there already stays.
//!
//! [`init_workspace`] begins. Each step holds what to do next and takes what came of it.
use vstd::prelude::*;

use crate::config::{default_patterns, law_persona_files_are_asked_for_by_default};
use crate::defaults::{
    complete_gitignore, completed_ignores, default_config, default_config_contents,
};
use crate::error::{config_error, text_view, Error, ErrorKind, ErrorView};
use crate::filter::{allowed, watched};
use crate::paths::{
    is_name, join_path, joined_path, law_component_is_plain, law_relative_path_undoes_joining,
    relative_path,
};

verus! {

/// A file that is watched by default.
#[derive(Debug, Clone, Copy, PartialEq, Eq, Structural)]
pub enum WatchFile {
    Soul,
    Agents,
    User,
    Identity,
    Tools,
    Memory,
    MemoryIndex,
}

/// A file of a new workspace.
#[derive(Debug, Clone, Copy, PartialEq, Eq, Structural)]
pub enum Item {
    Config,
    Ignore,
    Watch(WatchFile),
}

/// The directory of the workspace that holds further memory files.
pub open spec fn memory_dir(workspace: Seq<char>) -> Seq<char> {
    joined_path(workspace, "memory"@)
}

/// Where a file of the workspace stands.
pub open spec fn item_path(workspace: Seq<char>, item: Item) -> Seq<char> {
    match item {
        Item::Config => joined_path(workspace, "personaguard.toml"@),
        Item::Ignore => joined_path(workspace, ".gitignore"@),
        Item::Watch(WatchFile::Soul) => joined_path(workspace, "SOUL.md"@),
        Item::Watch(WatchFile::Agents) => joined_path(workspace, "AGENTS.md"@),
        Item::Watch(WatchFile::User) => joined_path(workspace, "USER.md"@),
        Item::Watch(WatchFile::Identity) => joined_path(workspace, "IDENTITY.md"@),
        Item::Watch(WatchFile::Tools) => joined_path(workspace, "TOOLS.md"@),
        Item::Watch(WatchFile::Memory) => joined_path(workspace, "MEMORY.md"@),
        Item::Watch(WatchFile::MemoryIndex) => joined_path(memory_dir(workspace), "index.md"@),
    }
}

/// The watched file behind another, if there is one.
pub open spec fn watch_file_after(file: WatchFile) -> Option<WatchFile> {
    match file {
        WatchFile::Soul => Some(WatchFile::Agents),
        WatchFile::Agents => Some(WatchFile::User),
        WatchFile::User => Some(WatchFile::Identity),
        WatchFile::Identity => Some(WatchFile::Tools),
        WatchFile::Tools => Some(WatchFile::Memory),
        WatchFile::Memory => Some(WatchFile::MemoryIndex),
        WatchFile::MemoryIndex => None,
    }
}

/// Which directory is made.
#[derive(Debug, Clone, Copy, PartialEq, Eq, Structural)]
pub enum DirItem {
    Workspace,
    Memory,
}

/// The current directory has to be found out.
#[derive(Debug)]
pub struct AskDir {
    asked: (),
}

/// A directory has to be made, with all above it.
#[derive(Debug)]
pub struct MakeDir {
    workspace: String,
    item: DirItem,
}

/// A directory has to be made, as characters.
#[verifier::ext_equal]
pub struct MakeDirView {
    pub workspace: Seq<char>,
    pub item: DirItem,
}

impl View for MakeDir {
    type V = MakeDirView;

    closed spec fn view(&self) -> MakeDirView {
        MakeDirView { workspace: self.workspace@, item: self.item }
    }
}

/// The workspace's path has to be made absolute and free of links.
#[derive(Debug)]
pub struct Normalize {
    path: String,
}

impl View for Normalize {
    type V = Seq<char>;

    closed spec fn view(&self) -> Seq<char> {
        self.path@
    }
}

/// It has to be found out whether there is something at a file's path.
#[derive(Debug)]
pub struct FileProbe {
    workspace: String,
    item: Item,
}

/// It has to be found out whether there is something at a file's path, as characters.
#[verifier::ext_equal]
pub struct FileProbeView {
    pub workspace: Seq<char>,
    pub item: Item,
}

impl View for FileProbe {
    type V = FileProbeView;

    closed spec fn view(&self) -> FileProbeView {
        FileProbeView { workspace: self.workspace@, item: self.item }
    }
}

/// The `.gitignore` has to be read.
#[derive(Debug)]
pub struct IgnoreRead {
    workspace: String,
}

impl View for IgnoreRead {
    type V = Seq<char>;

    closed spec fn view(&self) -> Seq<char> {
        self.workspace@
    }
}

/// A file has to be written.
#[derive(Debug)]
pub struct FileWrite {
    workspace: String,
    item: Item,
    content: String,
}

/// A file has to be written, as characters.
#[verifier::ext_equal]
pub struct FileWriteView {
    pub workspace: Seq<char>,
    pub item: Item,
    pub content: Seq<char>,
}

impl View for FileWrite {
    type V = FileWriteView;

    closed spec fn view(&self) -> FileWriteView {
        FileWriteView {
            workspace: self.workspace@,
            item: self.item,
            content: self.content@,
        }
    }
}

/// What the making of a workspace does next. It ends with the workspace's path.
#[derive(Debug)]
pub enum InitStep {
    CurrentDir(AskDir),
    CreateDir(MakeDir),
    Canonicalize(Normalize),
    Probe(FileProbe),
    Read(IgnoreRead),
    Write(FileWrite),
    Done(Result<String, Error>),
}

/// What the making of a workspace does next, as characters.
pub enum StepView {
    CurrentDir,
    CreateDir(MakeDirView),
    Canonicalize(Seq<char>),
    Probe(FileProbeView),
    Read(Seq<char>),
    Write(FileWriteView),
    Done(Result<Seq<char>, ErrorView>),
}

impl View for InitStep {
    type V = StepView;

    open spec fn view(&self) -> StepView {
        match self {
            InitStep::CurrentDir(_) => StepView::CurrentDir,
            InitStep::CreateDir(dir) => StepView::CreateDir(dir@),
            InitStep::Canonicalize(path) => StepView::Canonicalize(path@),
            InitStep::Probe(probe) => StepView::Probe(probe@),
            InitStep::Read(read) => StepView::Read(read@),
            InitStep::Write(write) => StepView::Write(write@),
            InitStep::Done(result) => StepView::Done(text_view(*result)),
        }
    }
}

/// An outcome, with its reason as characters.
pub open spec fn outcome_view(outcome: Result<(), String>) -> Result<(), Seq<char>> {
    match outcome {
        Ok(()) => Ok(()),
        Err(source) => Err(source@),
    }
}

/// A text or the reason why there is none, as characters.
pub open spec fn reading_view(reading: Result<String, String>) -> Result<Seq<char>, Seq<char>> {
    match reading {
        Ok(text) => Ok(text@),
        Err(source) => Err(source@),
    }
}

/// An end with an error about a path.
pub open spec fn failed(before: Seq<char>, path: Seq<char>, source: Seq<char>) -> StepView {
    StepView::Done(Err(config_error(before + path + ": "@ + source)))
}

/// Goes on with a watched file, or ends.
pub open spec fn go_on(workspace: Seq<char>, file: Option<WatchFile>) -> StepView {
    match file {
        Some(file) => StepView::Probe(FileProbeView { workspace, item: Item::Watch(file) }),
        None => StepView::Done(Ok(workspace)),
    }
}

/// Goes on behind a file that is there.
pub open spec fn after_item(workspace: Seq<char>, item: Item) -> StepView {
    match item {
        Item::Config => StepView::Probe(FileProbeView { workspace, item: Item::Ignore }),
        Item::Ignore => StepView::CreateDir(MakeDirView { workspace, item: DirItem::Memory }),
        Item::Watch(file) => go_on(workspace, watch_file_after(file)),
    }
}

/// What happens first: without a path, the current directory is the workspace.
pub open spec fn begun(path: Option<Seq<char>>) -> StepView {
    match path {
        Some(path) => StepView::CreateDir(
            MakeDirView { workspace: path, item: DirItem::Workspace },
        ),
        None => StepView::CurrentDir,
    }
}

/// What happens when the current directory is known.
pub open spec fn after_current_dir(current: Result<Seq<char>, Seq<char>>) -> StepView {
    match current {
        Ok(dir) => begun(Some(dir)),
        Err(source) => StepView::Done(
            Err(config_error("failed to resolve current directory: "@ + source)),
        ),
    }
}

/// What happens when a directory was made.
pub open spec fn after_dir(dir: MakeDirView, created: Result<(), Seq<char>>) -> StepView {
    match (dir.item, created) {
        (DirItem::Workspace, Ok(())) => StepView::Canonicalize(dir.workspace),
        (DirItem::Workspace, Err(source)) => failed(
            "failed to create workspace directory "@,
            dir.workspace,
            source,
        ),
        (DirItem::Memory, Ok(())) => go_on(dir.workspace, Some(WatchFile::Soul)),
        (DirItem::Memory, Err(source)) => failed(
            "failed to create memory directory "@,
            memory_dir(dir.workspace),
            source,
        ),
    }
}

/// What happens when the workspace's path is known in full.
pub open spec fn after_normalizing(
    path: Seq<char>,
    normal: Result<Seq<char>, Seq<char>>,
) -> StepView {
    match normal {
        Ok(workspace) => StepView::Probe(FileProbeView { workspace, item: Item::Config }),
        Err(source) => failed("failed to normalize workspace path "@, path, source),
    }
}

/// What happens when it is known whether a file is there. Of those that are, only the
/// `.gitignore` is looked into.
pub open spec fn after_probe(probe: FileProbeView, exists: bool) -> StepView {
    let workspace = probe.workspace;
    match (probe.item, exists) {
        (Item::Ignore, true) => StepView::Read(workspace),
        (item, true) => after_item(workspace, item),
        (Item::Config, false) => StepView::Write(
            FileWriteView { workspace, item: Item::Config, content: default_config(workspace) },
        ),
        (Item::Ignore, false) => StepView::Write(
            FileWriteView {
                workspace,
                item: Item::Ignore,
                content: completed_ignores(Seq::empty()),
            },
        ),
        (Item::Watch(file), false) => StepView::Write(
            FileWriteView { workspace, item: Item::Watch(file), content: Seq::empty() },
        ),
    }
}

/// What happens when the `.gitignore` was read: it is written only where it lacks an entry.
pub open spec fn after_read(
    workspace: Seq<char>,
    reading: Result<Seq<char>, Seq<char>>,
) -> StepView {
    match reading {
        Ok(content) => if completed_ignores(content) == content {
            after_item(workspace, Item::Ignore)
        } else {
            StepView::Write(
                FileWriteView {
                    workspace,
                    item: Item::Ignore,
                    content: completed_ignores(content),
                },
            )
        },
        Err(source) => failed(
            "failed to read .gitignore file "@,
            item_path(workspace, Item::Ignore),
            source,
        ),
    }
}

/// The beginning of the complaint that a file could not be written.
pub open spec fn write_complaint(item: Item) -> Seq<char> {
    match item {
        Item::Config => "failed to write config file "@,
        Item::Ignore => "failed to write .gitignore file "@,
        Item::Watch(WatchFile::MemoryIndex) => "failed to create default memory file "@,
        Item::Watch(_) => "failed to create default file "@,
    }
}

/// What happens when a file was written.
pub open spec fn after_write(write: FileWriteView, written: Result<(), Seq<char>>) -> StepView {
    match written {
        Ok(()) => after_item(write.workspace, write.item),
        Err(source) => failed(
            write_complaint(write.item),
            item_path(write.workspace, write.item),
            source,
        ),
    }
}

fn locate(workspace: &str, item: Item) -> (path: String)
    ensures
        path@ == item_path(workspace@, item),
{
    match item {
        Item::Config => join_path(workspace, "personaguard.toml"),
        Item::Ignore => join_path(workspace, ".gitignore"),
        Item::Watch(file) => match file {
            WatchFile::Soul => join_path(workspace, "SOUL.md"),
            WatchFile::Agents => join_path(workspace, "AGENTS.md"),
            WatchFile::User => join_path(workspace, "USER.md"),
            WatchFile::Identity => join_path(workspace, "IDENTITY.md"),
            WatchFile::Tools => join_path(workspace, "TOOLS.md"),
            WatchFile::Memory => join_path(workspace, "MEMORY.md"),
            WatchFile::MemoryIndex => join_path(
                join_path(workspace, "memory").as_str(),
                "index.md",
            ),
        },
    }
}

fn fail(before: &str, path: &str, source: &str) -> (step: InitStep)
    ensures
        step@ == failed(before@, path@, source@),
{
    let mut message: String = before.to_owned();
    message.append(path);
    message.append(": ");
    message.append(source);
    InitStep::Done(Err(Error::Config(message)))
}

fn continue_behind(workspace: String, item: Item) -> (step: InitStep)
    ensures
        step@ == after_item(workspace@, item),
{
    let next: WatchFile = match item {
        Item::Config => return InitStep::Probe(FileProbe { workspace, item: Item::Ignore }),
        Item::Ignore => return InitStep::CreateDir(
            MakeDir { workspace, item: DirItem::Memory },
        ),
        Item::Watch(WatchFile::Soul) => WatchFile::Agents,
        Item::Watch(WatchFile::Agents) => WatchFile::User,
        Item::Watch(WatchFile::User) => WatchFile::Identity,
        Item::Watch(WatchFile::Identity) => WatchFile::Tools,
        Item::Watch(WatchFile::Tools) => WatchFile::Memory,
        Item::Watch(WatchFile::Memory) => WatchFile::MemoryIndex,
        Item::Watch(WatchFile::MemoryIndex) => return InitStep::Done(Ok(workspace)),
    };
    InitStep::Probe(FileProbe { workspace, item: Item::Watch(next) })
}

/// Begins to make a workspace.
pub fn init_workspace(path: Option<String>) -> (step: InitStep)
    ensures
        step@ == begun(
            match path {
                Some(path) => Some(path@),
                None => None,
            },
        ),
{
    match path {
        Some(workspace) => InitStep::CreateDir(MakeDir { workspace, item: DirItem::Workspace }),
        None => InitStep::CurrentDir(AskDir { asked: () }),
    }
}

impl AskDir {
    /// What happens when the current directory is known.
    pub fn resume(self, current: Result<String, String>) -> (step: InitStep)
        ensures
            step@ == after_current_dir(reading_view(current)),
    {
        match current {
            Ok(dir) => init_workspace(Some(dir)),
            Err(source) => {
                let mut message: String = "failed to resolve current directory: ".to_owned();
                message.append(source.as_str());
                InitStep::Done(Err(Error::Config(message)))
            },
        }
    }
}

impl MakeDir {
    /// The directory to make.
    pub fn path(&self) -> (path: String)
        ensures
            path@ == (match self@.item {
                DirItem::Workspace => self@.workspace,
                DirItem::Memory => memory_dir(self@.workspace),
            }),
    {
        match self.item {
            DirItem::Workspace => self.workspace.clone(),
            DirItem::Memory => join_path(self.workspace.as_str(), "memory"),
        }
    }

    /// What happens when the directory was made.
    pub fn resume(self, created: Result<(), String>) -> (step: InitStep)
        ensures
            step@ == after_dir(self@, outcome_view(created)),
    {
        let path: String = self.path();
        match (self.item, created) {
            (DirItem::Workspace, Ok(())) => InitStep::Canonicalize(
                Normalize { path: self.workspace },
            ),
            (DirItem::Workspace, Err(source)) => fail(
                "failed to create workspace directory ",
                path.as_str(),
                source.as_str(),
            ),
            (DirItem::Memory, Ok(())) => InitStep::Probe(
                FileProbe { workspace: self.workspace, item: Item::Watch(WatchFile::Soul) },
            ),
            (DirItem::Memory, Err(source)) => fail(
                "failed to create memory directory ",
                path.as_str(),
                source.as_str(),
            ),
        }
    }
}

impl Normalize {
    /// The path to make absolute and free of links.
    pub fn path(&self) -> (path: &str)
        ensures
            path@ == self@,
    {
        self.path.as_str()
    }

    /// What happens when the path is known in full.
    pub fn resume(self, normal: Result<String, String>) -> (step: InitStep)
        ensures
            step@ == after_normalizing(self@, reading_view(normal)),
    {
        match normal {
            Ok(workspace) => InitStep::Probe(FileProbe { workspace, item: Item::Config }),
            Err(source) => fail(
                "failed to normalize workspace path ",
                self.path.as_str(),
                source.as_str(),
            ),
        }
    }
}

impl FileProbe {
    /// The path to look at.
    pub fn path(&self) -> (path: String)
        ensures
            path@ == item_path(self@.workspace, self@.item),
    {
        locate(self.workspace.as_str(), self.item)
    }

    /// What happens when it is known whether the file is there.
    pub fn resume(self, exists: bool) -> (step: InitStep)
        ensures
            step@ == after_probe(self@, exists),
    {
        if exists {
            return match self.item {
                Item::Ignore => InitStep::Read(IgnoreRead { workspace: self.workspace }),
                item => continue_behind(self.workspace, item),
            };
        }
        let content: String = match self.item {
            Item::Config => default_config_contents(self.workspace.as_str()),
            Item::Ignore => {
                let empty: String = String::new();
                assert(empty@ =~= Seq::empty());
                match complete_gitignore(empty.as_str()) {
                    Some(content) => content,
                    None => empty,
                }
            },
            Item::Watch(_) => {
                let empty: String = String::new();
                assert(empty@ =~= Seq::empty());
                empty
            },
        };
        InitStep::Write(FileWrite { workspace: self.workspace, item: self.item, content })
    }
}

impl IgnoreRead {
    /// The file to read.
    pub fn path(&self) -> (path: String)
        ensures
            path@ == item_path(self@, Item::Ignore),
    {
        locate(self.workspace.as_str(), Item::Ignore)
    }

    /// What happens when the file was read.
    pub fn resume(self, reading: Result<String, String>) -> (step: InitStep)
        ensures
            step@ == after_read(self@, reading_view(reading)),
    {
        match reading {
            Ok(content) => match complete_gitignore(content.as_str()) {
                Some(content) => InitStep::Write(
                    FileWrite { workspace: self.workspace, item: Item::Ignore, content },
                ),
                None => continue_behind(self.workspace, Item::Ignore),
            },
            Err(source) => fail(
                "failed to read .gitignore file ",
                self.path().as_str(),
                source.as_str(),
            ),
        }
    }
}

impl FileWrite {
    /// The file to write.
    pub fn path(&self) -> (path: String)
        ensures
            path@ == item_path(self@.workspace, self@.item),
    {
        locate(self.workspace.as_str(), self.item)
    }

    /// What to write.
    pub fn content(&self) -> (content: &str)
        ensures
            content@ == self@.content,
    {
        self.content.as_str()
    }

    /// What happens when the file was written.
    pub fn resume(self, written: Result<(), String>) -> (step: InitStep)
        ensures
            step@ == after_write(self@, outcome_view(written)),
    {
        match written {
            Ok(()) => continue_behind(self.workspace, self.item),
            Err(source) => {
                let before: &str = match self.item {
                    Item::Config => "failed to write config file ",
                    Item::Ignore => "failed to write .gitignore file ",
                    Item::Watch(WatchFile::MemoryIndex) => {
                        "failed to create default memory file "
                    },
                    Item::Watch(_) => "failed to create default file ",
                };
                fail(before, self.path().as_str(), source.as_str())
            },
        }
    }
}

/// How many steps are still possible.
pub open spec fn steps_left(step: StepView) -> nat {
    match step {
        StepView::CurrentDir => 24,
        StepView::CreateDir(dir) => match dir.item {
            DirItem::Workspace => 23,
            DirItem::Memory => 15,
        },
        StepView::Canonicalize(_) => 22,
        StepView::Probe(probe) => match probe.item {
            Item::Config => 21,
            Item::Ignore => 19,
            Item::Watch(file) => 2 * files_from(file),
        },
        StepView::Read(_) => 18,
        StepView::Write(write) => match write.item {
            Item::Config => 20,
            Item::Ignore => 17,
            Item::Watch(file) => (2 * files_from(file) - 1) as nat,
        },
        StepView::Done(_) => 0,
    }
}

/// How many watched files are still to come, with this one.
pub open spec fn files_from(file: WatchFile) -> nat {
    match file {
        WatchFile::Soul => 7,
        WatchFile::Agents => 6,
        WatchFile::User => 5,
        WatchFile::Identity => 4,
        WatchFile::Tools => 3,
        WatchFile::Memory => 2,
        WatchFile::MemoryIndex => 1,
    }
}

/// The making of a workspace comes to an end: whatever a step meets, fewer steps are left
/// behind it.
pub proof fn law_every_step_gets_nearer_to_the_end(
    dir: MakeDirView,
    path: Seq<char>,
    probe: FileProbeView,
    write: FileWriteView,
    text: Result<Seq<char>, Seq<char>>,
    outcome: Result<(), Seq<char>>,
    exists: bool,
)
    ensures
        steps_left(after_current_dir(text)) < steps_left(StepView::CurrentDir),
        steps_left(after_dir(dir, outcome)) < steps_left(StepView::CreateDir(dir)),
        steps_left(after_normalizing(path, text)) < steps_left(StepView::Canonicalize(path)),
        steps_left(after_probe(probe, exists)) < steps_left(StepView::Probe(probe)),
        steps_left(after_read(path, text)) < steps_left(StepView::Read(path)),
        steps_left(after_write(write, outcome)) < steps_left(StepView::Write(write)),
{
}

/// Nothing that is there is lost: a file that exists is never written, but for the
/// `.gitignore`, whose text is kept at the beginning of what is written.
pub proof fn law_existing_files_are_kept(probe: FileProbeView, content: Seq<char>)
    ensures
        !(after_probe(probe, true) is Write),
        after_read(probe.workspace, Ok(content)) matches StepView::Write(write) ==> write.item
            == Item::Ignore && content.is_prefix_of(write.content),
{
    crate::defaults::law_gitignore_keeps_what_it_has(content);
}

/// What one step of a run meets: whichever of these the step asks for.
pub struct Turn {
    pub text: Result<Seq<char>, Seq<char>>,
    pub outcome: Result<(), Seq<char>>,
    pub exists: bool,
}

/// What happens after a step, by what it met.
pub open spec fn step_with(step: StepView, turn: Turn) -> StepView {
    match step {
        StepView::CurrentDir => after_current_dir(turn.text),
        StepView::CreateDir(dir) => after_dir(dir, turn.outcome),
        StepView::Canonicalize(path) => after_normalizing(path, turn.text),
        StepView::Probe(probe) => after_probe(probe, turn.exists),
        StepView::Read(workspace) => after_read(workspace, turn.text),
        StepView::Write(write) => after_write(write, turn.outcome),
        StepView::Done(result) => StepView::Done(result),
    }
}

/// What happens after all of the turns.
pub open spec fn run_from(step: StepView, turns: Seq<Turn>) -> StepView
    decreases turns.len(),
{
    if turns.len() == 0 {
        step
    } else {
        run_from(step_with(step, turns.first()), turns.drop_first())
    }
}

/// The files that a run looks for, in its order.
pub open spec fn probes_of(step: StepView, turns: Seq<Turn>) -> Seq<Item>
    decreases turns.len(),
{
    if turns.len() == 0 {
        Seq::empty()
    } else {
        let rest = probes_of(step_with(step, turns.first()), turns.drop_first());
        match step {
            StepView::Probe(probe) => seq![probe.item] + rest,
            _ => rest,
        }
    }
}

/// What a run writes, in its order.
pub open spec fn writes_of(step: StepView, turns: Seq<Turn>) -> Seq<FileWriteView>
    decreases turns.len(),
{
    if turns.len() == 0 {
        Seq::empty()
    } else {
        let rest = writes_of(step_with(step, turns.first()), turns.drop_first());
        match step {
            StepView::Write(write) => seq![write] + rest,
            _ => rest,
        }
    }
}

/// The workspace before the run: which files are there, and what its `.gitignore` holds.
pub struct Disk {
    pub exists: spec_fn(Item) -> bool,
    pub ignores: Seq<char>,
}

/// The run meets this workspace.
pub open spec fn meets(step: StepView, turns: Seq<Turn>, disk: Disk) -> bool
    decreases turns.len(),
{
    turns.len() > 0 ==> {
        &&& step matches StepView::Probe(probe) ==> turns.first().exists == (disk.exists)(
            probe.item,
        )
        &&& step is Read ==> (turns.first().text matches Ok(content) ==> content == disk.ignores)
        &&& meets(step_with(step, turns.first()), turns.drop_first(), disk)
    }
}

/// The file behind another, if there is one.
pub open spec fn item_after(item: Item) -> Option<Item> {
    match item {
        Item::Config => Some(Item::Ignore),
        Item::Ignore => Some(Item::Watch(WatchFile::Soul)),
        Item::Watch(file) => match watch_file_after(file) {
            Some(next) => Some(Item::Watch(next)),
            None => None,
        },
    }
}

/// How many files there are from this one on.
pub open spec fn items_left(item: Item) -> nat {
    match item {
        Item::Config => 9,
        Item::Ignore => 8,
        Item::Watch(file) => files_from(file),
    }
}

/// The files from this one on.
pub open spec fn items_from(item: Item) -> Seq<Item>
    decreases items_left(item),
{
    match item_after(item) {
        Some(next) => seq![item] + items_from(next),
        None => seq![item],
    }
}

/// The files behind this one.
pub open spec fn items_behind(item: Item) -> Seq<Item> {
    match item_after(item) {
        Some(next) => items_from(next),
        None => Seq::empty(),
    }
}

/// What has to be written of a file: all of one that is missing, nothing of one that is there, but
/// for a `.gitignore` that lacks entries.
pub open spec fn owed(workspace: Seq<char>, item: Item, disk: Disk) -> Option<FileWriteView> {
    match item {
        Item::Config => if (disk.exists)(item) {
            None
        } else {
            Some(FileWriteView { workspace, item, content: default_config(workspace) })
        },
        Item::Ignore => if !(disk.exists)(item) {
            Some(FileWriteView { workspace, item, content: completed_ignores(Seq::empty()) })
        } else if completed_ignores(disk.ignores) == disk.ignores {
            None
        } else {
            Some(FileWriteView { workspace, item, content: completed_ignores(disk.ignores) })
        },
        Item::Watch(_) => if (disk.exists)(item) {
            None
        } else {
            Some(FileWriteView { workspace, item, content: Seq::empty() })
        },
    }
}

/// What has to be written, as a list of at most one.
pub open spec fn owed_list(workspace: Seq<char>, item: Item, disk: Disk) -> Seq<FileWriteView> {
    match owed(workspace, item, disk) {
        Some(write) => seq![write],
        None => Seq::empty(),
    }
}

/// What has to be written of the files, in their order.
pub open spec fn owed_of(workspace: Seq<char>, items: Seq<Item>, disk: Disk) -> Seq<FileWriteView>
    decreases items.len(),
{
    if items.len() == 0 {
        Seq::empty()
    } else {
        owed_list(workspace, items.first(), disk) + owed_of(workspace, items.drop_first(), disk)
    }
}

/// The files that a run still has to look for.
spec fn still_to_probe(step: StepView) -> Seq<Item> {
    match step {
        StepView::CurrentDir | StepView::Canonicalize(_) => items_from(Item::Config),
        StepView::CreateDir(dir) => match dir.item {
            DirItem::Workspace => items_from(Item::Config),
            DirItem::Memory => items_behind(Item::Ignore),
        },
        StepView::Probe(probe) => items_from(probe.item),
        StepView::Read(_) => items_behind(Item::Ignore),
        StepView::Write(write) => items_behind(write.item),
        StepView::Done(_) => Seq::empty(),
    }
}

/// What a run still has to write.
spec fn still_to_write(workspace: Seq<char>, step: StepView, disk: Disk) -> Seq<FileWriteView> {
    let behind = owed_of(workspace, still_to_probe(step), disk);
    match step {
        StepView::Read(_) => (if completed_ignores(disk.ignores) == disk.ignores {
            Seq::empty()
        } else {
            seq![
                FileWriteView {
                    workspace,
                    item: Item::Ignore,
                    content: completed_ignores(disk.ignores),
                },
            ]
        }) + behind,
        StepView::Write(write) => seq![write] + behind,
        _ => behind,
    }
}

/// The workspace that a step works on, once that is known.
spec fn settled_on(step: StepView) -> Option<Seq<char>> {
    match step {
        StepView::CreateDir(dir) => match dir.item {
            DirItem::Workspace => None,
            DirItem::Memory => Some(dir.workspace),
        },
        StepView::Probe(probe) => Some(probe.workspace),
        StepView::Read(workspace) => Some(workspace),
        StepView::Write(write) => Some(write.workspace),
        _ => None,
    }
}

proof fn lemma_ended_run_stays(result: Result<Seq<char>, ErrorView>, turns: Seq<Turn>)
    ensures
        run_from(StepView::Done(result), turns) == StepView::Done(result),
        probes_of(StepView::Done(result), turns) == Seq::<Item>::empty(),
        writes_of(StepView::Done(result), turns) == Seq::<FileWriteView>::empty(),
    decreases turns.len(),
{
    if turns.len() > 0 {
        lemma_ended_run_stays(result, turns.drop_first());
    }
}

proof fn lemma_run(step: StepView, turns: Seq<Turn>, disk: Disk, workspace: Seq<char>)
    requires
        meets(step, turns, disk),
        run_from(step, turns) == StepView::Done(Ok(workspace)),
    ensures
        probes_of(step, turns) == still_to_probe(step),
        writes_of(step, turns) == still_to_write(workspace, step, disk),
        settled_on(step) is Some ==> settled_on(step) == Some(workspace),
    decreases turns.len(),
{
    if step is Done {
        lemma_ended_run_stays(step->Done_0, turns);
    } else if turns.len() > 0 {
        let turn = turns.first();
        let next = step_with(step, turn);
        lemma_run(next, turns.drop_first(), disk, workspace);
        if next is Done {
            lemma_ended_run_stays(next->Done_0, turns.drop_first());
        }
        match step {
            StepView::Probe(probe) => {
                let items = items_from(probe.item);
                assert(items.first() == probe.item);
                assert(items.drop_first() =~= items_behind(probe.item));
                assert(probes_of(step, turns) =~= still_to_probe(step));
                assert(writes_of(step, turns) =~= still_to_write(workspace, step, disk));
            },
            _ => {
                assert(probes_of(step, turns) =~= still_to_probe(step));
                assert(writes_of(step, turns) =~= still_to_write(workspace, step, disk));
            },
        }
    }
}

/// The nine files of a workspace, in the order in which they are looked for.
pub open spec fn all_items() -> Seq<Item> {
    seq![
        Item::Config,
        Item::Ignore,
        Item::Watch(WatchFile::Soul),
        Item::Watch(WatchFile::Agents),
        Item::Watch(WatchFile::User),
        Item::Watch(WatchFile::Identity),
        Item::Watch(WatchFile::Tools),
        Item::Watch(WatchFile::Memory),
        Item::Watch(WatchFile::MemoryIndex),
    ]
}

/// A run that ends without an error has looked for each of the nine files once, and has written
/// exactly those that were missing, and the `.gitignore` where it lacked entries, once each and
/// with the content that they begin with.
pub proof fn law_workspace_gets_exactly_what_it_lacks(
    path: Option<Seq<char>>,
    turns: Seq<Turn>,
    disk: Disk,
    workspace: Seq<char>,
)
    requires
        meets(begun(path), turns, disk),
        run_from(begun(path), turns) == StepView::Done(Ok(workspace)),
    ensures
        probes_of(begun(path), turns) == all_items(),
        writes_of(begun(path), turns) == owed_of(workspace, all_items(), disk),
{
    lemma_run(begun(path), turns, disk, workspace);
    reveal_with_fuel(items_from, 10);
    assert(items_from(Item::Config) =~= all_items());
}

/// Where each file of a workspace stands.
pub proof fn law_files_of_a_workspace_have_their_names(workspace: Seq<char>)
    ensures
        item_path(workspace, Item::Config) == joined_path(workspace, "personaguard.toml"@),
        item_path(workspace, Item::Ignore) == joined_path(workspace, ".gitignore"@),
        item_path(workspace, Item::Watch(WatchFile::Soul)) == joined_path(workspace, "SOUL.md"@),
        item_path(workspace, Item::Watch(WatchFile::Agents)) == joined_path(
            workspace,
            "AGENTS.md"@,
        ),
        item_path(workspace, Item::Watch(WatchFile::User)) == joined_path(workspace, "USER.md"@),
        item_path(workspace, Item::Watch(WatchFile::Identity)) == joined_path(
            workspace,
            "IDENTITY.md"@,
        ),
        item_path(workspace, Item::Watch(WatchFile::Tools)) == joined_path(workspace, "TOOLS.md"@),
        item_path(workspace, Item::Watch(WatchFile::Memory)) == joined_path(
            workspace,
            "MEMORY.md"@,
        ),
        item_path(workspace, Item::Watch(WatchFile::MemoryIndex)) == joined_path(
            joined_path(workspace, "memory"@),
            "index.md"@,
        ),
{
}

/// The files that a new workspace begins with are among those that are backed up by default.
pub proof fn law_new_files_are_backed_up_by_default(workspace: Seq<char>, file: WatchFile)
    ensures
        file != WatchFile::MemoryIndex ==> watched(
            relative_path(workspace, item_path(workspace, Item::Watch(file))),
            default_patterns(),
        ),
        file == WatchFile::MemoryIndex ==> exists|note: Seq<char>|
            item_path(workspace, Item::Watch(file)) == #[trigger] joined_path(
                joined_path(workspace, "memory"@),
                note + ".md"@,
            ) && allowed("memory/"@ + note + ".md"@, default_patterns()),
{
    let names = seq![
        "SOUL.md"@,
        "AGENTS.md"@,
        "USER.md"@,
        "IDENTITY.md"@,
        "TOOLS.md"@,
        "MEMORY.md"@,
    ];
    reveal_strlit("SOUL.md");
    reveal_strlit("AGENTS.md");
    reveal_strlit("USER.md");
    reveal_strlit("IDENTITY.md");
    reveal_strlit("TOOLS.md");
    reveal_strlit("MEMORY.md");
    let at: int = match file {
        WatchFile::Soul => 0,
        WatchFile::Agents => 1,
        WatchFile::User => 2,
        WatchFile::Identity => 3,
        WatchFile::Tools => 4,
        _ => 5,
    };
    let name = names[at];
    assert(names.contains(name));
    law_persona_files_are_asked_for_by_default(workspace, name, Seq::empty());
    if file != WatchFile::MemoryIndex {
        assert(item_path(workspace, Item::Watch(file)) == joined_path(workspace, name));
        assert(name.len() > 2);
        assert(is_name(name));
        law_component_is_plain(name);
        law_relative_path_undoes_joining(workspace, name);
    } else {
        reveal_strlit("index.md");
        reveal_strlit("index");
        reveal_strlit(".md");
        law_persona_files_are_asked_for_by_default(workspace, name, "index"@);
        assert("index"@ + ".md"@ =~= "index.md"@);
    }
}

/// Everything that a run asks for goes well.
pub open spec fn goes_well(turn: Turn) -> bool {
    turn.text is Ok && turn.outcome is Ok
}

/// A run in which everything goes well makes the workspace: it ends without an error.
pub proof fn law_workspace_is_made_where_all_goes_well(step: StepView, turns: Seq<Turn>)
    requires
        step matches StepView::Done(result) ==> result is Ok,
        turns.len() >= steps_left(step),
        forall|i: int| 0 <= i < turns.len() ==> goes_well(#[trigger] turns[i]),
    ensures
        run_from(step, turns) matches StepView::Done(Ok(_)),
    decreases turns.len(),
{
    if step is Done {
        lemma_ended_run_stays(step->Done_0, turns);
    } else {
        let rest = turns.drop_first();
        assert(goes_well(turns[0]));
        assert forall|i: int| 0 <= i < rest.len() implies goes_well(#[trigger] rest[i]) by {
            assert(rest[i] == turns[i + 1]);
        }
        law_workspace_is_made_where_all_goes_well(step_with(step, turns.first()), rest);
    }
}

/// The workspace is the path that is given, or the current directory: it is made first, and its
/// path free of links is where the files are looked for.
pub proof fn law_workspace_is_where_it_was_asked_for(path: Seq<char>, workspace: Seq<char>)
    ensures
        begun(Some(path)) == StepView::CreateDir(
            MakeDirView { workspace: path, item: DirItem::Workspace },
        ),
        begun(None) == StepView::CurrentDir,
        after_current_dir(Ok(path)) == begun(Some(path)),
        after_dir(MakeDirView { workspace: path, item: DirItem::Workspace }, Ok(()))
            == StepView::Canonicalize(path),
        after_normalizing(path, Ok(workspace)) matches StepView::Probe(probe) && probe.workspace
            == workspace,
        memory_dir(workspace) == joined_path(workspace, "memory"@),
{
}

/// Whatever fails ends the run with an error of the configuration that ends with the reason.
pub proof fn law_failures_end_the_run(
    dir: MakeDirView,
    path: Seq<char>,
    write: FileWriteView,
    source: Seq<char>,
)
    ensures
        ends_with_reason(after_current_dir(Err(source)), source),
        ends_with_reason(after_dir(dir, Err(source)), source),
        ends_with_reason(after_normalizing(path, Err(source)), path + ": "@ + source),
        ends_with_reason(
            after_read(path, Err(source)),
            joined_path(path, ".gitignore"@) + ": "@ + source,
        ),
        ends_with_reason(
            after_write(write, Err(source)),
            item_path(write.workspace, write.item) + ": "@ + source,
        ),
{
    assert forall|start: Seq<char>, place: Seq<char>|
        (place + ": "@ + source).is_suffix_of(#[trigger] (start + place + ": "@ + source))
            && source.is_suffix_of(start + place + ": "@ + source) by {
        let all = start + place + ": "@ + source;
        let end = place + ": "@ + source;
        assert(all.subrange(all.len() - end.len(), all.len() as int) =~= end);
        assert(all.subrange(all.len() - source.len(), all.len() as int) =~= source);
    }
    let text = "failed to resolve current directory: "@ + source;
    assert(text.subrange(text.len() - source.len(), text.len() as int) =~= source);
}

/// The run has ended with an error of the configuration that ends with this text.
pub open spec fn ends_with_reason(step: StepView, reason: Seq<char>) -> bool {
    step matches StepView::Done(Err(error)) && error.kind == ErrorKind::Config
        && reason.is_suffix_of(error.message)
}

} // verus!
