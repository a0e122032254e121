//! What a new workspace starts with: the texts of its config file and of its `.gitignore`.
use vstd::prelude::*;

use crate::config::{
    default_patterns, loaded, patterns_view, ConfigFile, ConfigView, RawConfig, WatchMode,
};
use crate::error::ErrorView;
use crate::text::{
    all_white_space, chars_of, decimal, is_white_space, joined, law_lines_lie_between_line_feeds,
    law_trimming_takes_white_space_around, law_white_space_is_these_characters,
    lemma_lines_of_both, lemma_next_index, lines, lines_from, next_index, same_text, split_lines,
    trim_end, trimmed_end, views, whole_lines, without_carriage_return, without_tail,
};

verus! {

/// A character as it stands in a basic string of TOML.
pub open spec fn escaped_char(c: char) -> Seq<char> {
    if c == '\\' {
        seq!['\\', '\\']
    } else if c == '"' {
        seq!['\\', '"']
    } else {
        seq![c]
    }
}

/// A text as it stands in a basic string of TOML: with a backslash before each backslash and
/// each quotation mark.
pub open spec fn escaped(value: Seq<char>) -> Seq<char>
    decreases value.len(),
{
    if value.len() == 0 {
        Seq::empty()
    } else {
        escaped(value.drop_last()) + escaped_char(value.last())
    }
}

/// The config file of a new workspace.
pub open spec fn default_config(workspace: Seq<char>) -> Seq<char> {
    "workspace = \""@ + escaped(workspace)
        + "\"\nwatch = [\"SOUL.md\", \"AGENTS.md\", \"USER.md\", \"IDENTITY.md\", \"TOOLS.md\", \"MEMORY.md\", \"memory/*.md\"]\ndebounce_ms = 1500\npush_interval_sec = 600\nmode = \"watcher\"\n"@
}

/// A text as it stands in a basic string of TOML.
pub fn escape_toml_basic_string(value: &str) -> (text: String)
    ensures
        text@ == escaped(value@),
{
    let chars: Vec<char> = chars_of(value);
    let mut text: String = String::new();
    for i in 0..chars.len()
        invariant
            chars@ == value@,
            text@ == escaped(value@.take(i as int)),
    {
        let c: char = chars[i];
        assert(value@.take(i + 1).drop_last() =~= value@.take(i as int));
        let ghost before = text@;
        if c == '\\' || c == '"' {
            text.push('\\');
        }
        text.push(c);
        assert(text@ =~= before + escaped_char(c));
    }
    assert(value@.take(value@.len() as int) =~= value@);
    text
}

/// The config file of a new workspace.
pub fn default_config_contents(workspace: &str) -> (contents: String)
    ensures
        contents@ == default_config(workspace@),
{
    let mut contents: String = "workspace = \"".to_owned();
    contents.append(escape_toml_basic_string(workspace).as_str());
    contents.append(
        "\"\nwatch = [\"SOUL.md\", \"AGENTS.md\", \"USER.md\", \"IDENTITY.md\", \"TOOLS.md\", \"MEMORY.md\", \"memory/*.md\"]\ndebounce_ms = 1500\npush_interval_sec = 600\nmode = \"watcher\"\n",
    );
    contents
}

/// A control character other than the tab; none may stand in a basic string of TOML.
pub open spec fn is_control(c: char) -> bool {
    ||| c <= '\u{8}'
    ||| '\u{a}' <= c && c <= '\u{1f}'
    ||| c == '\u{7f}'
}

/// The text holds no control character other than tabs.
pub open spec fn free_of_controls(text: Seq<char>) -> bool {
    forall|i: int| 0 <= i < text.len() ==> !is_control(#[trigger] text[i])
}

/// Reads a basic string of TOML behind its opening quotation mark, up to its closing one: the
/// value, and what follows. Control characters are refused. Of the escapes it knows those of a
/// backslash and of a quotation mark.
pub open spec fn read_basic_string(text: Seq<char>) -> Option<(Seq<char>, Seq<char>)>
    decreases text.len(),
{
    if text.len() == 0 {
        None
    } else if text[0] == '"' {
        Some((Seq::empty(), text.skip(1)))
    } else if text[0] == '\\' {
        if text.len() > 1 && (text[1] == '\\' || text[1] == '"') {
            match read_basic_string(text.skip(2)) {
                Some((value, rest)) => Some((seq![text[1]] + value, rest)),
                None => None,
            }
        } else {
            None
        }
    } else if is_control(text[0]) {
        None
    } else {
        match read_basic_string(text.skip(1)) {
            Some((value, rest)) => Some((seq![text[0]] + value, rest)),
            None => None,
        }
    }
}

proof fn lemma_escaped_front(value: Seq<char>)
    requires
        value.len() > 0,
    ensures
        escaped(value) == escaped_char(value[0]) + escaped(value.drop_first()),
    decreases value.len(),
{
    reveal_with_fuel(escaped, 2);
    if value.len() == 1 {
        assert(value.drop_first() =~= Seq::empty());
        assert(value.drop_last() =~= Seq::empty());
        assert(escaped(value) =~= escaped_char(value[0]) + escaped(value.drop_first()));
    } else {
        lemma_escaped_front(value.drop_last());
        assert(value.drop_last().drop_first() =~= value.drop_first().drop_last());
        assert(escaped(value) =~= escaped_char(value[0]) + escaped(value.drop_first()));
    }
}

/// An escaped text without control characters reads back as the text between quotation marks,
/// and reading stops at the closing mark.
pub proof fn law_escaped_text_reads_back(value: Seq<char>, rest: Seq<char>)
    requires
        free_of_controls(value),
    ensures
        read_basic_string(escaped(value) + seq!['"'] + rest) == Some((value, rest)),
    decreases value.len(),
{
    let text = escaped(value) + seq!['"'] + rest;
    if value.len() == 0 {
        assert(text.skip(1) =~= rest);
        assert(value =~= Seq::empty());
    } else {
        lemma_escaped_front(value);
        let head = escaped_char(value[0]);
        let tail = escaped(value.drop_first()) + seq!['"'] + rest;
        assert(text =~= head + tail);
        assert(text.skip(head.len() as int) =~= tail);
        assert forall|i: int| 0 <= i < value.drop_first().len() implies !is_control(
            #[trigger] value.drop_first()[i],
        ) by {
            assert(value.drop_first()[i] == value[i + 1]);
        }
        assert(!is_control(value[0]));
        law_escaped_text_reads_back(value.drop_first(), rest);
        assert(seq![value[0]] + value.drop_first() =~= value);
    }
}

/// The config file of a new workspace begins by naming the workspace, whose path may hold every
/// character but control characters.
pub proof fn law_default_config_names_the_workspace(workspace: Seq<char>)
    requires
        free_of_controls(workspace),
    ensures
        "workspace = \""@.is_prefix_of(default_config(workspace)),
        read_basic_string(default_config(workspace).skip("workspace = \""@.len() as int)) matches
            Some((value, _)) && value == workspace,
{
    let before = "workspace = \""@;
    let behind =
        "\"\nwatch = [\"SOUL.md\", \"AGENTS.md\", \"USER.md\", \"IDENTITY.md\", \"TOOLS.md\", \"MEMORY.md\", \"memory/*.md\"]\ndebounce_ms = 1500\npush_interval_sec = 600\nmode = \"watcher\"\n"@;
    reveal_strlit(
        "\"\nwatch = [\"SOUL.md\", \"AGENTS.md\", \"USER.md\", \"IDENTITY.md\", \"TOOLS.md\", \"MEMORY.md\", \"memory/*.md\"]\ndebounce_ms = 1500\npush_interval_sec = 600\nmode = \"watcher\"\n",
    );
    let rest = behind.skip(1);
    assert(behind[0] == '"');
    assert(behind =~= seq!['"'] + rest);
    assert(default_config(workspace).skip(before.len() as int) =~= escaped(workspace) + seq!['"']
        + rest);
    law_escaped_text_reads_back(workspace, rest);
}

/// A text as a basic string of TOML.
pub open spec fn quoted(text: Seq<char>) -> Seq<char> {
    "\""@ + escaped(text) + "\""@
}

/// How a config file names a mode.
pub open spec fn mode_name(mode: WatchMode) -> Seq<char> {
    match mode {
        WatchMode::Watcher => "watcher"@,
        WatchMode::Hook => "hook"@,
    }
}

/// These settings, as a config file gives them.
pub open spec fn config_text(
    workspace: Seq<char>,
    watch: Seq<Seq<char>>,
    debounce_ms: u64,
    push_interval_sec: u64,
    mode: WatchMode,
) -> Seq<char> {
    "workspace = "@ + quoted(workspace) + "\nwatch = ["@ + joined(
        watch.map_values(|pattern: Seq<char>| quoted(pattern)),
        ", "@,
    ) + "]\ndebounce_ms = "@ + decimal(debounce_ms as nat) + "\npush_interval_sec = "@ + decimal(
        push_interval_sec as nat,
    ) + "\nmode = "@ + quoted(mode_name(mode)) + "\n"@
}

proof fn lemma_nothing_to_escape(text: Seq<char>)
    requires
        forall|i: int| 0 <= i < text.len() ==> text[i] != '\\' && text[i] != '"',
    ensures
        escaped(text) == text,
    decreases text.len(),
{
    if text.len() == 0 {
        assert(text =~= Seq::empty());
    } else {
        assert forall|i: int| 0 <= i < text.drop_last().len() implies text.drop_last()[i] != '\\'
            && text.drop_last()[i] != '"' by {
            assert(text.drop_last()[i] == text[i]);
        }
        lemma_nothing_to_escape(text.drop_last());
        assert(text.last() == text[text.len() - 1]);
        assert(escaped(text) =~= text);
    }
}

proof fn lemma_default_patterns_text()
    ensures
        joined(default_patterns().map_values(|pattern: Seq<char>| quoted(pattern)), ", "@)
            == "\"SOUL.md\", \"AGENTS.md\", \"USER.md\", \"IDENTITY.md\", \"TOOLS.md\", \"MEMORY.md\", \"memory/*.md\""@,
{
    reveal_strlit("\"");
    reveal_strlit(", ");
    reveal_strlit("SOUL.md");
    reveal_strlit("AGENTS.md");
    reveal_strlit("USER.md");
    reveal_strlit("IDENTITY.md");
    reveal_strlit("TOOLS.md");
    reveal_strlit("MEMORY.md");
    reveal_strlit("memory/*.md");
    reveal_strlit(
        "\"SOUL.md\", \"AGENTS.md\", \"USER.md\", \"IDENTITY.md\", \"TOOLS.md\", \"MEMORY.md\", \"memory/*.md\"",
    );
    lemma_nothing_to_escape("SOUL.md"@);
    lemma_nothing_to_escape("AGENTS.md"@);
    lemma_nothing_to_escape("USER.md"@);
    lemma_nothing_to_escape("IDENTITY.md"@);
    lemma_nothing_to_escape("TOOLS.md"@);
    lemma_nothing_to_escape("MEMORY.md"@);
    lemma_nothing_to_escape("memory/*.md"@);
    let all = default_patterns().map_values(|pattern: Seq<char>| quoted(pattern));
    assert(all.len() == 7);
    assert(all.drop_last() =~= all.take(6));
    assert(all.take(6).drop_last() =~= all.take(5));
    assert(all.take(5).drop_last() =~= all.take(4));
    assert(all.take(4).drop_last() =~= all.take(3));
    assert(all.take(3).drop_last() =~= all.take(2));
    assert(all.take(2).drop_last() =~= all.take(1));
    assert(joined(all.take(1), ", "@) == all[0]);
    assert(joined(all.take(2), ", "@) == all[0] + ", "@ + all[1]);
    assert(joined(all.take(3), ", "@) == joined(all.take(2), ", "@) + ", "@ + all[2]);
    assert(joined(all.take(4), ", "@) == joined(all.take(3), ", "@) + ", "@ + all[3]);
    assert(joined(all.take(5), ", "@) == joined(all.take(4), ", "@) + ", "@ + all[4]);
    assert(joined(all.take(6), ", "@) == joined(all.take(5), ", "@) + ", "@ + all[5]);
    assert(joined(all, ", "@) == joined(all.take(6), ", "@) + ", "@ + all[6]);
    assert(joined(all, ", "@)
        =~= "\"SOUL.md\", \"AGENTS.md\", \"USER.md\", \"IDENTITY.md\", \"TOOLS.md\", \"MEMORY.md\", \"memory/*.md\""@);
}

/// The config file of a new workspace gives the workspace and the default patterns, pauses and
/// mode, and nothing else.
pub proof fn law_default_config_gives_the_default_settings(workspace: Seq<char>)
    ensures
        default_config(workspace) == config_text(
            workspace,
            default_patterns(),
            1500,
            600,
            WatchMode::Watcher,
        ),
{
    lemma_default_patterns_text();
    reveal_strlit("\"");
    reveal_strlit("workspace = ");
    reveal_strlit("workspace = \"");
    reveal_strlit("\nwatch = [");
    reveal_strlit(
        "\"SOUL.md\", \"AGENTS.md\", \"USER.md\", \"IDENTITY.md\", \"TOOLS.md\", \"MEMORY.md\", \"memory/*.md\"",
    );
    reveal_strlit("]\ndebounce_ms = ");
    reveal_strlit("\npush_interval_sec = ");
    reveal_strlit("\nmode = ");
    reveal_strlit("watcher");
    reveal_strlit("\n");
    reveal_strlit(
        "\"\nwatch = [\"SOUL.md\", \"AGENTS.md\", \"USER.md\", \"IDENTITY.md\", \"TOOLS.md\", \"MEMORY.md\", \"memory/*.md\"]\ndebounce_ms = 1500\npush_interval_sec = 600\nmode = \"watcher\"\n",
    );
    lemma_nothing_to_escape("watcher"@);
    reveal_with_fuel(decimal, 4);
    assert(decimal(1500) =~= seq!['1', '5', '0', '0']);
    assert(decimal(600) =~= seq!['6', '0', '0']);
    let tail = "\""@ + "\nwatch = ["@
        + "\"SOUL.md\", \"AGENTS.md\", \"USER.md\", \"IDENTITY.md\", \"TOOLS.md\", \"MEMORY.md\", \"memory/*.md\""@
        + "]\ndebounce_ms = "@ + decimal(1500) + "\npush_interval_sec = "@ + decimal(600)
        + "\nmode = "@ + quoted("watcher"@) + "\n"@;
    assert(tail
        =~= "\"\nwatch = [\"SOUL.md\", \"AGENTS.md\", \"USER.md\", \"IDENTITY.md\", \"TOOLS.md\", \"MEMORY.md\", \"memory/*.md\"]\ndebounce_ms = 1500\npush_interval_sec = 600\nmode = \"watcher\"\n"@);
    assert("workspace = "@ + "\""@ =~= "workspace = \""@);
    assert(config_text(workspace, default_patterns(), 1500, 600, WatchMode::Watcher) =~= "workspace = "@
        + "\""@ + escaped(workspace) + tail);
}

/// The parsed settings are these, and no others are given.
pub open spec fn gives(
    raw: RawConfig,
    workspace: Seq<char>,
    watch: Seq<Seq<char>>,
    debounce_ms: u64,
    push_interval_sec: u64,
    mode: WatchMode,
) -> bool {
    &&& raw.workspace@ == workspace
    &&& patterns_view(raw.watch) == Some(watch)
    &&& raw.debounce_ms == Some(debounce_ms)
    &&& raw.push_interval_sec == Some(push_interval_sec)
    &&& raw.mode == Some(mode)
    &&& raw.push_commit_threshold is None
    &&& raw.push_backoff_base_sec is None
    &&& raw.storm_window_sec is None
    &&& raw.hook_signal_dir is None
}

/// A config file can give these settings: no text holds control characters, and the numbers are
/// integers of TOML.
pub open spec fn can_be_given(
    workspace: Seq<char>,
    watch: Seq<Seq<char>>,
    debounce_ms: u64,
    push_interval_sec: u64,
) -> bool {
    &&& free_of_controls(workspace)
    &&& forall|i: int| 0 <= i < watch.len() ==> free_of_controls(#[trigger] watch[i])
    &&& debounce_ms <= i64::MAX
    &&& push_interval_sec <= i64::MAX
}

/// A parser that reads back what a config file gives.
pub open spec fn reads_config_text(parser: spec_fn(Seq<char>) -> Option<RawConfig>) -> bool {
    forall|ws: Seq<char>, watch: Seq<Seq<char>>, ms: u64, sec: u64, mode: WatchMode|
        can_be_given(ws, watch, ms, sec) ==> {
            let read = #[trigger] parser(config_text(ws, watch, ms, sec, mode));
            read is Some && gives(read->Some_0, ws, watch, ms, sec, mode)
        }
}

/// With a parser that reads back what a config file gives, the config file of a new workspace is
/// loaded as the settings of that workspace with the default of everything else.
pub proof fn law_default_config_loads_as_the_defaults(
    config_path: Seq<char>,
    workspace: Seq<char>,
    parser: spec_fn(Seq<char>) -> Option<RawConfig>,
)
    requires
        free_of_controls(workspace),
        reads_config_text(parser),
    ensures
        parser(default_config(workspace)) matches Some(raw) && loaded(
            config_path,
            ConfigFile::Parsed(raw),
        ) == Ok::<ConfigView, ErrorView>(
            ConfigView {
                workspace,
                watch: default_patterns(),
                debounce_ms: 1500,
                push_interval_sec: 600,
                push_commit_threshold: 50,
                push_backoff_base_sec: 30,
                storm_window_sec: 5,
                hook_signal_dir: ".git-bak/hooks"@,
                mode: WatchMode::Watcher,
            },
        ),
{
    law_default_config_gives_the_default_settings(workspace);
    reveal_strlit("SOUL.md");
    reveal_strlit("AGENTS.md");
    reveal_strlit("USER.md");
    reveal_strlit("IDENTITY.md");
    reveal_strlit("TOOLS.md");
    reveal_strlit("MEMORY.md");
    reveal_strlit("memory/*.md");
    assert(can_be_given(workspace, default_patterns(), 1500, 600));
}

/// The entries that a workspace's `.gitignore` has at least.
pub open spec fn default_entries() -> Seq<Seq<char>> {
    seq![
        "target/"@,
        "*.swp"@,
        ".env"@,
        ".env.*"@,
        "*.pem"@,
        "*.key"@,
        ".csa/"@,
        ".weave/"@,
    ]
}

/// Some line of the text is the entry, but for white space behind it.
pub open spec fn listed(content: Seq<char>, entry: Seq<char>) -> bool {
    exists|i: int|
        0 <= i < lines(content).len() && trimmed_end(#[trigger] lines(content)[i]) == entry
}

/// The text with an entry on a line of its own behind it.
pub open spec fn with_entry(content: Seq<char>, entry: Seq<char>) -> Seq<char> {
    let before = if content.len() > 0 && content.last() != '\n' {
        content.push('\n')
    } else {
        content
    };
    (before + entry).push('\n')
}

/// The text with those of the entries behind it that it does not list.
pub open spec fn with_entries(content: Seq<char>, entries: Seq<Seq<char>>) -> Seq<char>
    decreases entries.len(),
{
    if entries.len() == 0 {
        content
    } else {
        let before = with_entries(content, entries.drop_last());
        if listed(before, entries.last()) {
            before
        } else {
            with_entry(before, entries.last())
        }
    }
}

/// The text of a `.gitignore` with the default entries.
pub open spec fn completed_ignores(content: Seq<char>) -> Seq<char> {
    with_entries(content, default_entries())
}

/// The entries that a workspace's `.gitignore` has at least.
pub fn default_gitignore_entries() -> (entries: Vec<String>)
    ensures
        views(entries@) == default_entries(),
{
    let entries: Vec<String> = vec![
        "target/".to_owned(),
        "*.swp".to_owned(),
        ".env".to_owned(),
        ".env.*".to_owned(),
        "*.pem".to_owned(),
        "*.key".to_owned(),
        ".csa/".to_owned(),
        ".weave/".to_owned(),
    ];
    assert(views(entries@) =~= default_entries());
    entries
}

fn is_listed(content: &str, entry: &str) -> (found: bool)
    ensures
        found == listed(content@, entry@),
{
    let found: Vec<String> = split_lines(content);
    for i in 0..found.len()
        invariant
            views(found@) == lines(content@),
            forall|k: int| 0 <= k < i ==> trimmed_end(#[trigger] lines(content@)[k]) != entry@,
    {
        assert(views(found@)[i as int] == found@[i as int]@);
        if same_text(trim_end(found[i].as_str()).as_str(), entry) {
            return true;
        }
    }
    false
}

fn lacks_line_end(content: &str) -> (lacks: bool)
    ensures
        lacks == (content@.len() > 0 && content@.last() != '\n'),
{
    let chars: Vec<char> = chars_of(content);
    chars.len() > 0 && chars[chars.len() - 1] != '\n'
}

/// The text of a `.gitignore` with the default entries, where it lacks one of them.
pub fn complete_gitignore(content: &str) -> (updated: Option<String>)
    ensures
        match updated {
            Some(text) => text@ == completed_ignores(content@) && text@ != content@,
            None => completed_ignores(content@) == content@,
        },
{
    let entries: Vec<String> = default_gitignore_entries();
    let ghost all = default_entries();
    let mut text: String = content.to_owned();
    let mut changed: bool = false;
    for i in 0..entries.len()
        invariant
            views(entries@) == all,
            text@ == with_entries(content@, all.take(i as int)),
            text@.len() >= content@.len(),
            changed ==> text@.len() > content@.len(),
            !changed ==> text@ == content@,
    {
        let entry: &str = entries[i].as_str();
        assert(all[i as int] == entry@);
        assert(all.take(i + 1).drop_last() =~= all.take(i as int));
        if !is_listed(text.as_str(), entry) {
            let ghost before = text@;
            if lacks_line_end(text.as_str()) {
                text.push('\n');
            }
            text.append(entry);
            text.push('\n');
            assert(text@ == with_entry(before, entry@));
            changed = true;
        }
    }
    assert(all.take(entries@.len() as int) =~= all);
    if changed {
        Some(text)
    } else {
        None
    }
}

/// An entry that stands on one line and has no white space behind it.
pub open spec fn plain_entry(entry: Seq<char>) -> bool {
    &&& entry.len() > 0
    &&& !is_white_space(entry.last())
    &&& forall|i: int| 0 <= i < entry.len() ==> entry[i] != '\n'
}

proof fn lemma_carriage_return_is_trimmed(line: Seq<char>)
    ensures
        trimmed_end(without_carriage_return(line)) == trimmed_end(line),
{
    if line.len() > 0 && line.last() == '\r' {
        reveal_with_fuel(without_tail, 2);
    }
}

proof fn lemma_lines_of_ended(content: Seq<char>, from: int)
    requires
        0 <= from < content.len(),
        content.last() != '\n',
    ensures
        lines_from(content.push('\n'), from).len() == lines_from(content, from).len(),
        forall|i: int|
            0 <= i < lines_from(content, from).len() ==> trimmed_end(
                #[trigger] lines_from(content.push('\n'), from)[i],
            ) == trimmed_end(lines_from(content, from)[i]),
    decreases content.len() - from,
{
    let all = content.push('\n');
    lemma_next_index(content, '\n', from);
    lemma_next_index(all, '\n', from);
    let end = next_index(content, '\n', from);
    assert(all[end] == '\n');
    assert(next_index(all, '\n', from) == end) by {
        let other = next_index(all, '\n', from);
        if other < end {
            assert(all[other] == content[other]);
        }
    }
    assert(all.subrange(from, end) =~= content.subrange(from, end));
    lemma_carriage_return_is_trimmed(content.subrange(from, end));
    if end < content.len() {
        assert(end + 1 < content.len()) by {
            if end + 1 == content.len() {
                assert(content.last() == content[end]);
            }
        }
        lemma_lines_of_ended(content, end + 1);
        let head = seq![without_carriage_return(content.subrange(from, end))];
        assert(lines_from(content, from) == head + lines_from(content, end + 1));
        assert(lines_from(all, from) == head + lines_from(all, end + 1));
        assert forall|i: int| 0 <= i < lines_from(content, from).len() implies trimmed_end(
            #[trigger] lines_from(all, from)[i],
        ) == trimmed_end(lines_from(content, from)[i]) by {
            if i > 0 {
                assert(lines_from(all, from)[i] == lines_from(all, end + 1)[i - 1]);
                assert(lines_from(content, from)[i] == lines_from(content, end + 1)[i - 1]);
            }
        }
    } else {
        reveal_with_fuel(lines_from, 2);
    }
}

proof fn lemma_entry_is_listed(before: Seq<char>, entry: Seq<char>)
    requires
        whole_lines(before),
        plain_entry(entry),
    ensures
        lines((before + entry).push('\n')) == lines(before).push(entry),
        forall|other: Seq<char>|
            #[trigger] listed((before + entry).push('\n'), other) == (listed(before, other)
                || other == entry),
{
    let line = entry.push('\n');
    let all = (before + entry).push('\n');
    let at = before.len() as int;
    assert(all =~= before + line);
    lemma_lines_of_both(before, line, 0);
    lemma_next_index(all, '\n', at);
    let end = next_index(all, '\n', at);
    assert(all[at + entry.len()] == '\n');
    assert(end == at + entry.len()) by {
        if end < at + entry.len() {
            assert(all[end] == entry[end - at]);
        }
    }
    assert(all.subrange(at, end) =~= entry);
    assert(without_carriage_return(entry) == entry);
    reveal_with_fuel(lines_from, 2);
    assert(lines_from(all, at) =~= seq![entry]);
    assert(trimmed_end(entry) == entry);
    assert(lines(all) =~= lines(before).push(entry));
    let count = lines(before).len() as int;
    assert(lines(all)[count] == entry);
    assert forall|other: Seq<char>| #[trigger] listed(all, other) == (listed(before, other)
        || other == entry) by {
        if listed(before, other) {
            let i = choose|i: int|
                0 <= i < count && trimmed_end(#[trigger] lines(before)[i]) == other;
            assert(lines(all)[i] == lines(before)[i]);
        }
        if listed(all, other) {
            let i = choose|i: int|
                0 <= i < lines(all).len() && trimmed_end(#[trigger] lines(all)[i]) == other;
            if i < count {
                assert(lines(all)[i] == lines(before)[i]);
            }
        }
    }
}

/// The text with its last line ended.
pub open spec fn ended(content: Seq<char>) -> Seq<char> {
    if content.len() > 0 && content.last() != '\n' {
        content.push('\n')
    } else {
        content
    }
}

proof fn lemma_ended_lists_the_same(content: Seq<char>)
    ensures
        forall|other: Seq<char>| #[trigger]
            listed(ended(content), other) == listed(content, other),
{
    if !whole_lines(content) {
        let whole = ended(content);
        lemma_lines_of_ended(content, 0);
        assert forall|other: Seq<char>| #[trigger] listed(whole, other) == listed(
            content,
            other,
        ) by {
            if listed(content, other) {
                let i = choose|i: int|
                    0 <= i < lines(content).len() && trimmed_end(#[trigger] lines(content)[i])
                        == other;
                assert(trimmed_end(lines(whole)[i]) == other);
            }
            if listed(whole, other) {
                let i = choose|i: int|
                    0 <= i < lines(whole).len() && trimmed_end(#[trigger] lines(whole)[i])
                        == other;
                assert(trimmed_end(lines(content)[i]) == other);
            }
        }
    }
}

proof fn lemma_with_entry(content: Seq<char>, entry: Seq<char>)
    requires
        plain_entry(entry),
    ensures
        with_entry(content, entry) == ended(content) + entry.push('\n'),
        lines(with_entry(content, entry)) == lines(ended(content)).push(entry),
        forall|other: Seq<char>| #[trigger]
            listed(with_entry(content, entry), other) == (listed(content, other) || other
                == entry),
        content.is_prefix_of(with_entry(content, entry)),
{
    lemma_ended_lists_the_same(content);
    lemma_entry_is_listed(ended(content), entry);
    assert(with_entry(content, entry) =~= ended(content) + entry.push('\n'));
}

proof fn lemma_with_entries(content: Seq<char>, entries: Seq<Seq<char>>)
    requires
        forall|i: int| 0 <= i < entries.len() ==> plain_entry(#[trigger] entries[i]),
    ensures
        forall|i: int|
            0 <= i < entries.len() ==> listed(
                with_entries(content, entries),
                #[trigger] entries[i],
            ),
        content.is_prefix_of(with_entries(content, entries)),
    decreases entries.len(),
{
    if entries.len() > 0 {
        let rest = entries.drop_last();
        let before = with_entries(content, rest);
        assert forall|i: int| 0 <= i < rest.len() implies plain_entry(#[trigger] rest[i]) by {
            assert(rest[i] == entries[i]);
        }
        lemma_with_entries(content, rest);
        lemma_with_entry(before, entries.last());
        assert forall|i: int| 0 <= i < entries.len() implies listed(
            with_entries(content, entries),
            #[trigger] entries[i],
        ) by {
            if i < rest.len() {
                assert(rest[i] == entries[i]);
            }
        }
    }
}

proof fn lemma_nothing_to_add(content: Seq<char>, entries: Seq<Seq<char>>)
    requires
        forall|i: int| 0 <= i < entries.len() ==> listed(content, #[trigger] entries[i]),
    ensures
        with_entries(content, entries) == content,
    decreases entries.len(),
{
    if entries.len() > 0 {
        let rest = entries.drop_last();
        assert forall|i: int| 0 <= i < rest.len() implies listed(
            content,
            #[trigger] rest[i],
        ) by {
            assert(rest[i] == entries[i]);
        }
        lemma_nothing_to_add(content, rest);
        assert(listed(content, entries[entries.len() - 1]));
    }
}

proof fn lemma_default_entries_are_plain()
    ensures
        forall|i: int|
            0 <= i < default_entries().len() ==> plain_entry(#[trigger] default_entries()[i]),
{
    reveal_strlit("target/");
    reveal_strlit("*.swp");
    reveal_strlit(".env");
    reveal_strlit(".env.*");
    reveal_strlit("*.pem");
    reveal_strlit("*.key");
    reveal_strlit(".csa/");
    reveal_strlit(".weave/");
}

/// A completed `.gitignore` lists every default entry.
pub proof fn law_gitignore_lists_all_defaults(content: Seq<char>)
    ensures
        forall|i: int|
            0 <= i < default_entries().len() ==> listed(
                completed_ignores(content),
                #[trigger] default_entries()[i],
            ),
{
    lemma_default_entries_are_plain();
    lemma_with_entries(content, default_entries());
}

/// Completing a `.gitignore` only adds behind what stands there.
pub proof fn law_gitignore_keeps_what_it_has(content: Seq<char>)
    ensures
        content.is_prefix_of(completed_ignores(content)),
{
    lemma_default_entries_are_plain();
    lemma_with_entries(content, default_entries());
}

/// A completed `.gitignore` stays as it is.
pub proof fn law_completed_gitignore_is_complete(content: Seq<char>)
    ensures
        completed_ignores(completed_ignores(content)) == completed_ignores(content),
{
    law_gitignore_lists_all_defaults(content);
    lemma_nothing_to_add(completed_ignores(content), default_entries());
}

/// Those of the entries that the text does not list, in their order.
pub open spec fn missing_entries(content: Seq<char>, entries: Seq<Seq<char>>) -> Seq<Seq<char>> {
    entries.filter(|entry: Seq<char>| !listed(content, entry))
}

/// The entries, each on a line of its own.
pub open spec fn entry_lines(entries: Seq<Seq<char>>) -> Seq<char>
    decreases entries.len(),
{
    if entries.len() == 0 {
        Seq::empty()
    } else {
        entry_lines(entries.drop_last()) + entries.last().push('\n')
    }
}

proof fn lemma_only_missing_are_added(content: Seq<char>, entries: Seq<Seq<char>>)
    requires
        forall|i: int| 0 <= i < entries.len() ==> plain_entry(#[trigger] entries[i]),
        entries.no_duplicates(),
    ensures
        ({
            let missing = missing_entries(content, entries);
            let all = with_entries(content, entries);
            &&& missing.len() == 0 ==> all == content
            &&& missing.len() > 0 ==> all == ended(content) + entry_lines(missing) && lines(all)
                == lines(ended(content)) + missing && whole_lines(all)
            &&& forall|other: Seq<char>| #[trigger]
                listed(all, other) == (listed(content, other) || entries.contains(other))
        }),
    decreases entries.len(),
{
    let absent = |entry: Seq<char>| !listed(content, entry);
    let missing = missing_entries(content, entries);
    let all = with_entries(content, entries);
    reveal_with_fuel(Seq::filter, 2);
    if entries.len() > 0 {
        let rest = entries.drop_last();
        let last = entries.last();
        let before = with_entries(content, rest);
        let found = missing_entries(content, rest);
        assert forall|i: int| 0 <= i < rest.len() implies plain_entry(#[trigger] rest[i]) by {
            assert(rest[i] == entries[i]);
        }
        assert(rest.no_duplicates()) by {
            assert forall|i: int, j: int|
                0 <= i < rest.len() && 0 <= j < rest.len() && i != j implies rest[i]
                != rest[j] by {
                assert(rest[i] == entries[i] && rest[j] == entries[j]);
            }
        }
        lemma_only_missing_are_added(content, rest);
        assert(entries[entries.len() - 1] == last);
        assert(!rest.contains(last)) by {
            if rest.contains(last) {
                let i = choose|i: int| 0 <= i < rest.len() && rest[i] == last;
                assert(entries[i] == entries[entries.len() - 1]);
            }
        }
        assert(listed(before, last) == listed(content, last));
        lemma_with_entry(before, last);
        if absent(last) {
            assert(missing == found.push(last));
            assert(missing.drop_last() =~= found);
            assert(entry_lines(missing) == entry_lines(found) + last.push('\n'));
            if found.len() == 0 {
                assert(found =~= Seq::empty());
                assert(all =~= ended(content) + entry_lines(missing));
                assert(lines(all) =~= lines(ended(content)) + missing);
            } else {
                assert(ended(before) == before);
                assert(all =~= ended(content) + entry_lines(missing));
                assert(lines(all) =~= lines(ended(content)) + missing);
            }
            assert(all.last() == '\n');
        }
        assert forall|other: Seq<char>| #[trigger] listed(all, other) == (listed(content, other)
            || entries.contains(other)) by {
            if rest.contains(other) {
                let i = choose|i: int| 0 <= i < rest.len() && rest[i] == other;
                assert(entries[i] == other);
            }
            if entries.contains(other) && other != last {
                let i = choose|i: int| 0 <= i < entries.len() && entries[i] == other;
                assert(rest[i] == other);
            }
        }
    }
}

proof fn lemma_default_entries_differ()
    ensures
        default_entries().no_duplicates(),
{
    reveal_strlit("target/");
    reveal_strlit("*.swp");
    reveal_strlit(".env");
    reveal_strlit(".env.*");
    reveal_strlit("*.pem");
    reveal_strlit("*.key");
    reveal_strlit(".csa/");
    reveal_strlit(".weave/");
    let all = default_entries();
    assert forall|i: int, j: int|
        0 <= i < all.len() && 0 <= j < all.len() && i != j implies all[i] != all[j] by {
        if all[i] == all[j] {
            assert(all[i].len() == all[j].len());
            assert(all[i][0] == all[j][0]);
            assert(all[i][2] == all[j][2]);
        }
    }
}

/// Completing a `.gitignore` adds exactly the default entries that it does not list, once each, in
/// the order of the list, on lines of their own behind the old ones.
pub proof fn law_gitignore_gets_exactly_the_missing_entries(content: Seq<char>)
    ensures
        ({
            let missing = missing_entries(content, default_entries());
            let all = completed_ignores(content);
            &&& missing.no_duplicates()
            &&& missing.len() == 0 ==> all == content
            &&& missing.len() > 0 ==> all == ended(content) + entry_lines(missing) && lines(all)
                == lines(ended(content)) + missing
        }),
{
    lemma_default_entries_are_plain();
    lemma_default_entries_differ();
    lemma_only_missing_are_added(content, default_entries());
    lemma_filter_has_no_duplicates(default_entries(), |entry: Seq<char>| !listed(content, entry));
}

proof fn lemma_filter_has_no_duplicates(
    entries: Seq<Seq<char>>,
    kept: spec_fn(Seq<char>) -> bool,
)
    requires
        entries.no_duplicates(),
    ensures
        entries.filter(kept).no_duplicates(),
        forall|entry: Seq<char>| #[trigger]
            entries.filter(kept).contains(entry) ==> entries.contains(entry),
    decreases entries.len(),
{
    reveal_with_fuel(Seq::filter, 2);
    if entries.len() > 0 {
        let rest = entries.drop_last();
        let last = entries.last();
        let all = entries.filter(kept);
        let found = rest.filter(kept);
        assert forall|i: int, j: int|
            0 <= i < rest.len() && 0 <= j < rest.len() && i != j implies rest[i] != rest[j] by {
            assert(rest[i] == entries[i] && rest[j] == entries[j]);
        }
        lemma_filter_has_no_duplicates(rest, kept);
        assert forall|entry: Seq<char>| rest.contains(entry) implies #[trigger] entries.contains(
            entry,
        ) && entry != last by {
            let i = choose|i: int| 0 <= i < rest.len() && rest[i] == entry;
            assert(entries[i] == entry && entries[entries.len() - 1] == last);
        }
        assert forall|i: int, j: int|
            0 <= i < all.len() && 0 <= j < all.len() && i != j implies all[i] != all[j] by {
            if i < found.len() {
                assert(found.contains(found[i]));
                assert(rest.contains(found[i]));
            }
            if j < found.len() {
                assert(found.contains(found[j]));
                assert(rest.contains(found[j]));
            }
        }
        assert forall|entry: Seq<char>| #[trigger] all.contains(entry) implies entries.contains(
            entry,
        ) by {
            let i = choose|i: int| 0 <= i < all.len() && all[i] == entry;
            if i < found.len() {
                assert(found.contains(found[i]));
                assert(rest.contains(entry));
            } else {
                assert(entries[entries.len() - 1] == entry);
            }
        }
    }
}

/// A text lists an entry line by line: a line lists it that is the entry but for white space behind
/// it, and an empty text lists nothing.
pub proof fn law_entries_are_listed_line_by_line(
    kept: Seq<char>,
    tail: Seq<char>,
    rest: Seq<char>,
    entry: Seq<char>,
)
    requires
        kept.len() == 0 || !is_white_space(kept.last()),
        all_white_space(tail),
        forall|i: int| 0 <= i < kept.len() ==> kept[i] != '\n',
        forall|i: int| 0 <= i < tail.len() ==> tail[i] != '\n' && tail[i] != '\r',
    ensures
        listed(kept + tail + seq!['\n'] + rest, entry) <==> kept == entry || listed(rest, entry),
        listed(kept + tail + seq!['\r', '\n'] + rest, entry) <==> kept == entry || listed(
            rest,
            entry,
        ),
        !listed(Seq::empty(), entry),
{
    let line = kept + tail;
    law_trimming_takes_white_space_around(Seq::empty(), kept, tail);
    law_white_space_is_these_characters('\r');
    assert(is_white_space('\r'));
    assert(line.len() == 0 || line.last() != '\r') by {
        if tail.len() > 0 {
            assert(line.last() == tail.last());
        } else if line.len() > 0 {
            assert(line.last() == kept.last());
        }
    }
    assert forall|i: int| 0 <= i < line.len() implies line[i] != '\n' by {
        if i < kept.len() {
            assert(line[i] == kept[i]);
        } else {
            assert(line[i] == tail[i - kept.len()]);
        }
    }
    law_lines_lie_between_line_feeds(line, rest);
    assert forall|all: Seq<char>| #[trigger] lines(all) == seq![line] + lines(rest) implies (listed(
        all,
        entry,
    ) <==> kept == entry || listed(rest, entry)) by {
        assert(lines(all)[0] == line);
        if listed(rest, entry) {
            let i = choose|i: int|
                0 <= i < lines(rest).len() && trimmed_end(#[trigger] lines(rest)[i]) == entry;
            assert(lines(all)[i + 1] == lines(rest)[i]);
        }
        if listed(all, entry) {
            let i = choose|i: int|
                0 <= i < lines(all).len() && trimmed_end(#[trigger] lines(all)[i]) == entry;
            if i > 0 {
                assert(lines(all)[i] == lines(rest)[i - 1]);
            }
        }
    }
}

/// A completed `.gitignore` lists what it listed before and these eight, and nothing more.
pub proof fn law_completed_gitignore_lists_these_entries(content: Seq<char>, entry: Seq<char>)
    ensures
        listed(completed_ignores(content), entry) <==> listed(content, entry) || seq![
            "target/"@,
            "*.swp"@,
            ".env"@,
            ".env.*"@,
            "*.pem"@,
            "*.key"@,
            ".csa/"@,
            ".weave/"@,
        ].contains(entry),
{
    lemma_default_entries_are_plain();
    lemma_default_entries_differ();
    lemma_only_missing_are_added(content, default_entries());
    assert(listed(completed_ignores(content), entry) == (listed(content, entry)
        || default_entries().contains(entry)));
}

} // verus!
