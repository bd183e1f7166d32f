//! The markdown editor: word and line counts, toolbar and slash-command
//! insertions, view modes, and when unsaved text is saved.

use vstd::prelude::*;
use crate::text::{
    append, chars_of, contains, contains_text, ends_with, has_suffix, is_whitespace, is_ws, lowercase,
    owned, push_char, string_of_range, to_lowercase,
};

verus! {

/// Number of words of `s`: maximal runs of characters that are not blank
/// (`str::split_whitespace`).
pub open spec fn word_total(s: Seq<char>) -> nat
    decreases s.len(),
{
    if s.len() == 0 {
        0
    } else {
        let init = s.drop_last();
        word_total(init) + if !is_ws(s.last()) && (init.len() == 0 || is_ws(init.last())) {
            1nat
        } else {
            0nat
        }
    }
}

/// Number of times `c` occurs in `s`.
pub open spec fn count_char(s: Seq<char>, c: char) -> nat
    decreases s.len(),
{
    if s.len() == 0 {
        0
    } else {
        count_char(s.drop_last(), c) + if s.last() == c {
            1nat
        } else {
            0nat
        }
    }
}

/// Number of lines of `s` (`str::lines`): none for empty text, otherwise one
/// per line break plus one for a last line that has no break.
pub open spec fn line_total(s: Seq<char>) -> nat {
    if s.len() == 0 {
        0
    } else if s.last() == '\n' {
        count_char(s, '\n')
    } else {
        count_char(s, '\n') + 1
    }
}

/// Number of words of the text.
pub fn word_count(text: &str) -> (n: usize)
    ensures
        n == word_total(text@),
{
    let v = chars_of(text);
    let mut n: usize = 0;
    let mut i: usize = 0;
    while i < v.len()
        invariant
            i <= v@.len(),
            n == word_total(v@.take(i as int)),
            n <= i,
            v@ == text@,
        decreases v@.len() - i,
    {
        assert(v@.take(i + 1).drop_last() == v@.take(i as int));
        assert(v@.take(i + 1).last() == v@[i as int]);
        if i > 0 {
            assert(v@.take(i as int).last() == v@[i - 1]);
        }
        if !is_whitespace(v[i]) && (i == 0 || is_whitespace(v[i - 1])) {
            n += 1;
        }
        i += 1;
    }
    assert(v@.take(v@.len() as int) == v@);
    n
}

proof fn lemma_count_le(s: Seq<char>, c: char)
    ensures
        count_char(s, c) <= s.len(),
    decreases s.len(),
{
    if s.len() > 0 {
        lemma_count_le(s.drop_last(), c);
    }
}

/// Number of lines of the text.
pub fn line_count(text: &str) -> (n: usize)
    ensures
        n == line_total(text@),
{
    let v = chars_of(text);
    if v.len() == 0 {
        return 0;
    }
    let mut n: usize = 0;
    let mut i: usize = 0;
    while i < v.len()
        invariant
            i <= v@.len(),
            n == count_char(v@.take(i as int), '\n'),
            n <= i,
            v@ == text@,
        decreases v@.len() - i,
    {
        assert(v@.take(i + 1).drop_last() == v@.take(i as int));
        assert(v@.take(i + 1).last() == v@[i as int]);
        if v[i] == '\n' {
            n += 1;
        }
        i += 1;
    }
    assert(v@.take(v@.len() as int) == v@);
    if v[v.len() - 1] == '\n' {
        n
    } else {
        proof {
            lemma_count_le(v@.drop_last(), '\n');
        }
        n + 1
    }
}

/// A button of the editor's toolbar.
#[derive(Debug, Clone, Copy, PartialEq, Eq, Structural)]
pub enum ToolbarAction {
    Bold,
    Italic,
    Strikethrough,
    Code,
    Link,
    Heading1,
    Heading2,
    Heading3,
    List,
    TaskList,
    CodeBlock,
    Table,
    Quote,
    Divider,
}

/// The text a toolbar button adds.
pub open spec fn snippet(a: ToolbarAction) -> Seq<char> {
    match a {
        ToolbarAction::Bold => "**bold**"@,
        ToolbarAction::Italic => "*italic*"@,
        ToolbarAction::Strikethrough => "~~text~~"@,
        ToolbarAction::Code => "`code`"@,
        ToolbarAction::Link => "[text](url)"@,
        ToolbarAction::Heading1 => "# "@,
        ToolbarAction::Heading2 => "## "@,
        ToolbarAction::Heading3 => "### "@,
        ToolbarAction::List => "- "@,
        ToolbarAction::TaskList => "- [ ] "@,
        ToolbarAction::CodeBlock => "```\ncode\n```\n"@,
        ToolbarAction::Table => "| Column | Column |\n| --- | --- |\n| Cell | Cell |\n"@,
        ToolbarAction::Quote => "> "@,
        ToolbarAction::Divider => "---\n"@,
    }
}

/// The buttons that insert a block (headings, lists, code blocks, tables,
/// quotes and dividers); the others insert inline text.
pub open spec fn is_block(a: ToolbarAction) -> bool {
    match a {
        ToolbarAction::Bold | ToolbarAction::Italic | ToolbarAction::Strikethrough
        | ToolbarAction::Code | ToolbarAction::Link => false,
        _ => true,
    }
}

/// The editor text after `text` is added at its end: a block starts on a
/// new line when the text does not already end with one.
pub open spec fn after_insert(content: Seq<char>, text: Seq<char>, block: bool) -> Seq<char> {
    if block && content.len() > 0 && content.last() != '\n' {
        content + seq!['\n'] + text
    } else {
        content + text
    }
}

/// The editor text after pressing a toolbar button.
pub open spec fn after_toolbar(content: Seq<char>, a: ToolbarAction) -> Seq<char> {
    after_insert(content, snippet(a), is_block(a))
}

/// `s` is `marker`, then a non-empty text that neither starts nor ends
/// with the marker's character, then `marker` again: markdown's inline
/// delimiters (`*` emphasis, `**` strong emphasis, `~~` strikethrough,
/// `` ` `` code).
pub open spec fn wrapped_in(s: Seq<char>, marker: Seq<char>) -> bool {
    let m = marker.len();
    &&& m > 0
    &&& s.len() > 2 * m
    &&& s.take(m as int) == marker
    &&& s.skip(s.len() - m) == marker
    &&& s[m as int] != marker[0]
    &&& s[s.len() - m - 1] != marker[0]
}

/// A markdown heading marker of `level`: that many `#`, then a space.
pub open spec fn heading_marker(s: Seq<char>, level: int) -> bool {
    &&& s.len() == level + 1
    &&& forall|i: int| 0 <= i < level ==> s[i] == '#'
    &&& s[level] == ' '
}

/// The toolbar writes markdown as markdown reads it: bold is strong
/// emphasis (`**`), italic is emphasis with single `*`, strikethrough is
/// wrapped in `~~`, code in one backtick, and the heading buttons write one,
/// two and three `#` before a space; inline buttons add their text right
/// after the text already there.
pub proof fn lemma_toolbar_markdown(content: Seq<char>)
    ensures
        wrapped_in(snippet(ToolbarAction::Bold), "**"@),
        wrapped_in(snippet(ToolbarAction::Italic), "*"@),
        wrapped_in(snippet(ToolbarAction::Strikethrough), "~~"@),
        wrapped_in(snippet(ToolbarAction::Code), "`"@),
        heading_marker(snippet(ToolbarAction::Heading1), 1),
        heading_marker(snippet(ToolbarAction::Heading2), 2),
        heading_marker(snippet(ToolbarAction::Heading3), 3),
        forall|a: ToolbarAction|
            !is_block(a) ==> #[trigger] after_toolbar(content, a) == content + snippet(a),
{
    reveal_strlit("**bold**");
    reveal_strlit("*italic*");
    reveal_strlit("~~text~~");
    reveal_strlit("`code`");
    reveal_strlit("**");
    reveal_strlit("*");
    reveal_strlit("~~");
    reveal_strlit("`");
    reveal_strlit("# ");
    reveal_strlit("## ");
    reveal_strlit("### ");
    assert(snippet(ToolbarAction::Bold).take(2) =~= "**"@);
    assert(snippet(ToolbarAction::Bold).skip(6) =~= "**"@);
    assert(snippet(ToolbarAction::Italic).take(1) =~= "*"@);
    assert(snippet(ToolbarAction::Italic).skip(7) =~= "*"@);
    assert(snippet(ToolbarAction::Strikethrough).take(2) =~= "~~"@);
    assert(snippet(ToolbarAction::Strikethrough).skip(6) =~= "~~"@);
    assert(snippet(ToolbarAction::Code).take(1) =~= "`"@);
    assert(snippet(ToolbarAction::Code).skip(5) =~= "`"@);
}

/// Adds `text` at the end of the editor text (see `after_insert`).
fn insert_text(content: &str, text: &str, block: bool) -> (r: String)
    ensures
        r@ == after_insert(content@, text@, block),
{
    let v = chars_of(content);
    let mut r = owned(content);
    if block && v.len() > 0 && v[v.len() - 1] != '\n' {
        push_char(&mut r, '\n');
    }
    append(&mut r, text);
    r
}

impl ToolbarAction {
    /// The text the button adds.
    pub fn snippet(&self) -> (s: &'static str)
        ensures
            s@ == snippet(*self),
    {
        match self {
            ToolbarAction::Bold => "**bold**",
            ToolbarAction::Italic => "*italic*",
            ToolbarAction::Strikethrough => "~~text~~",
            ToolbarAction::Code => "`code`",
            ToolbarAction::Link => "[text](url)",
            ToolbarAction::Heading1 => "# ",
            ToolbarAction::Heading2 => "## ",
            ToolbarAction::Heading3 => "### ",
            ToolbarAction::List => "- ",
            ToolbarAction::TaskList => "- [ ] ",
            ToolbarAction::CodeBlock => "```\ncode\n```\n",
            ToolbarAction::Table => "| Column | Column |\n| --- | --- |\n| Cell | Cell |\n",
            ToolbarAction::Quote => "> ",
            ToolbarAction::Divider => "---\n",
        }
    }

    /// Whether the button inserts a block.
    pub fn is_block(&self) -> (b: bool)
        ensures
            b == is_block(*self),
    {
        match self {
            ToolbarAction::Bold | ToolbarAction::Italic | ToolbarAction::Strikethrough
            | ToolbarAction::Code | ToolbarAction::Link => false,
            _ => true,
        }
    }
}

/// Applies a toolbar button to the editor text.
pub fn apply_toolbar(content: &str, action: ToolbarAction) -> (r: String)
    ensures
        r@ == after_toolbar(content@, action),
{
    insert_text(content, action.snippet(), action.is_block())
}

/// A block type of the slash-command palette.
#[derive(Debug, Clone, Copy, PartialEq, Eq, Structural)]
pub enum SlashCommand {
    Heading1,
    Heading2,
    Heading3,
    BulletList,
    NumberedList,
    TaskList,
    Quote,
    CodeBlock,
    Table,
    Divider,
    Image,
    Link,
    Bold,
    Italic,
    Strikethrough,
}

/// The palette's commands, in the order it lists them.
pub open spec fn all_slash_commands() -> Seq<SlashCommand> {
    seq![
        SlashCommand::Heading1,
        SlashCommand::Heading2,
        SlashCommand::Heading3,
        SlashCommand::BulletList,
        SlashCommand::NumberedList,
        SlashCommand::TaskList,
        SlashCommand::Quote,
        SlashCommand::CodeBlock,
        SlashCommand::Table,
        SlashCommand::Divider,
        SlashCommand::Image,
        SlashCommand::Link,
        SlashCommand::Bold,
        SlashCommand::Italic,
        SlashCommand::Strikethrough,
    ]
}

/// The name a command is shown and searched by (lower case).
pub open spec fn slash_name(c: SlashCommand) -> Seq<char> {
    match c {
        SlashCommand::Heading1 => "heading 1"@,
        SlashCommand::Heading2 => "heading 2"@,
        SlashCommand::Heading3 => "heading 3"@,
        SlashCommand::BulletList => "bulleted list"@,
        SlashCommand::NumberedList => "numbered list"@,
        SlashCommand::TaskList => "task list"@,
        SlashCommand::Quote => "quote"@,
        SlashCommand::CodeBlock => "code block"@,
        SlashCommand::Table => "table"@,
        SlashCommand::Divider => "divider"@,
        SlashCommand::Image => "image"@,
        SlashCommand::Link => "link"@,
        SlashCommand::Bold => "bold"@,
        SlashCommand::Italic => "italic"@,
        SlashCommand::Strikethrough => "strikethrough"@,
    }
}

/// The markdown a command inserts.
pub open spec fn slash_snippet(c: SlashCommand) -> Seq<char> {
    match c {
        SlashCommand::Heading1 => snippet(ToolbarAction::Heading1),
        SlashCommand::Heading2 => snippet(ToolbarAction::Heading2),
        SlashCommand::Heading3 => snippet(ToolbarAction::Heading3),
        SlashCommand::BulletList => snippet(ToolbarAction::List),
        SlashCommand::NumberedList => "1. "@,
        SlashCommand::TaskList => snippet(ToolbarAction::TaskList),
        SlashCommand::Quote => snippet(ToolbarAction::Quote),
        SlashCommand::CodeBlock => snippet(ToolbarAction::CodeBlock),
        SlashCommand::Table => snippet(ToolbarAction::Table),
        SlashCommand::Divider => snippet(ToolbarAction::Divider),
        SlashCommand::Image => "![alt](url)"@,
        SlashCommand::Link => snippet(ToolbarAction::Link),
        SlashCommand::Bold => snippet(ToolbarAction::Bold),
        SlashCommand::Italic => snippet(ToolbarAction::Italic),
        SlashCommand::Strikethrough => snippet(ToolbarAction::Strikethrough),
    }
}

/// The commands that insert a block; the others insert inline text.
pub open spec fn slash_block(c: SlashCommand) -> bool {
    match c {
        SlashCommand::Image | SlashCommand::Link | SlashCommand::Bold | SlashCommand::Italic
        | SlashCommand::Strikethrough => false,
        _ => true,
    }
}

impl SlashCommand {
    /// The command's name in the palette.
    pub fn name(&self) -> (s: &'static str)
        ensures
            s@ == slash_name(*self),
    {
        match self {
            SlashCommand::Heading1 => "heading 1",
            SlashCommand::Heading2 => "heading 2",
            SlashCommand::Heading3 => "heading 3",
            SlashCommand::BulletList => "bulleted list",
            SlashCommand::NumberedList => "numbered list",
            SlashCommand::TaskList => "task list",
            SlashCommand::Quote => "quote",
            SlashCommand::CodeBlock => "code block",
            SlashCommand::Table => "table",
            SlashCommand::Divider => "divider",
            SlashCommand::Image => "image",
            SlashCommand::Link => "link",
            SlashCommand::Bold => "bold",
            SlashCommand::Italic => "italic",
            SlashCommand::Strikethrough => "strikethrough",
        }
    }

    /// The markdown the command inserts.
    pub fn snippet(&self) -> (s: &'static str)
        ensures
            s@ == slash_snippet(*self),
    {
        match self {
            SlashCommand::Heading1 => ToolbarAction::Heading1.snippet(),
            SlashCommand::Heading2 => ToolbarAction::Heading2.snippet(),
            SlashCommand::Heading3 => ToolbarAction::Heading3.snippet(),
            SlashCommand::BulletList => ToolbarAction::List.snippet(),
            SlashCommand::NumberedList => "1. ",
            SlashCommand::TaskList => ToolbarAction::TaskList.snippet(),
            SlashCommand::Quote => ToolbarAction::Quote.snippet(),
            SlashCommand::CodeBlock => ToolbarAction::CodeBlock.snippet(),
            SlashCommand::Table => ToolbarAction::Table.snippet(),
            SlashCommand::Divider => ToolbarAction::Divider.snippet(),
            SlashCommand::Image => "![alt](url)",
            SlashCommand::Link => ToolbarAction::Link.snippet(),
            SlashCommand::Bold => ToolbarAction::Bold.snippet(),
            SlashCommand::Italic => ToolbarAction::Italic.snippet(),
            SlashCommand::Strikethrough => ToolbarAction::Strikethrough.snippet(),
        }
    }

    /// Whether the command inserts a block.
    pub fn is_block(&self) -> (b: bool)
        ensures
            b == slash_block(*self),
    {
        match self {
            SlashCommand::Image | SlashCommand::Link | SlashCommand::Bold | SlashCommand::Italic
            | SlashCommand::Strikethrough => false,
            _ => true,
        }
    }
}

/// The commands of `cmds` whose name holds `q`, in order.
pub open spec fn slash_matches(cmds: Seq<SlashCommand>, q: Seq<char>) -> Seq<SlashCommand>
    decreases cmds.len(),
{
    if cmds.len() == 0 {
        seq![]
    } else {
        let rest = slash_matches(cmds.drop_last(), q);
        if contains_text(slash_name(cmds.last()), q) {
            rest.push(cmds.last())
        } else {
            rest
        }
    }
}

/// The palette's entries for the text typed after `/`: the commands whose
/// name holds it, ignoring case, in palette order.
pub fn slash_menu(query: &str) -> (r: Vec<SlashCommand>)
    ensures
        r@ == slash_matches(all_slash_commands(), lowercase(query@)),
{
    let all: Vec<SlashCommand> = vec![
        SlashCommand::Heading1,
        SlashCommand::Heading2,
        SlashCommand::Heading3,
        SlashCommand::BulletList,
        SlashCommand::NumberedList,
        SlashCommand::TaskList,
        SlashCommand::Quote,
        SlashCommand::CodeBlock,
        SlashCommand::Table,
        SlashCommand::Divider,
        SlashCommand::Image,
        SlashCommand::Link,
        SlashCommand::Bold,
        SlashCommand::Italic,
        SlashCommand::Strikethrough,
    ];
    assert(all@ =~= all_slash_commands());
    let q = to_lowercase(query);
    let qv = chars_of(q.as_str());
    let mut r: Vec<SlashCommand> = Vec::new();
    let mut i: usize = 0;
    while i < all.len()
        invariant
            i <= all@.len(),
            all@ == all_slash_commands(),
            qv@ == lowercase(query@),
            r@ == slash_matches(all@.take(i as int), qv@),
        decreases all@.len() - i,
    {
        assert(all@.take(i + 1).drop_last() == all@.take(i as int));
        assert(all@.take(i + 1).last() == all@[i as int]);
        let c = all[i];
        if contains(&chars_of(c.name()), &qv) {
            r.push(c);
        }
        i += 1;
    }
    assert(all@.take(all@.len() as int) == all@);
    r
}

/// Whether typing the last character of `before` (the text up to the
/// cursor) opens the palette: it is `/`, at the start of the text or after
/// a blank (which includes the start of a line).
pub open spec fn opens_slash(before: Seq<char>) -> bool {
    before.len() > 0 && before.last() == '/' && (before.len() == 1 || is_ws(before[before.len() - 2]))
}

/// Whether typing the last character of `before` opens the palette (see
/// `opens_slash`).
pub fn opens_slash_menu(before: &str) -> (b: bool)
    ensures
        b == opens_slash(before@),
{
    let v = chars_of(before);
    let n = v.len();
    n > 0 && v[n - 1] == '/' && (n == 1 || is_whitespace(v[n - 2]))
}

/// The editor text after a palette command is chosen: the `/` and the text
/// typed after it are removed from the end, then the command's markdown is
/// added (see `after_insert`).
pub open spec fn after_slash(content: Seq<char>, query: Seq<char>, c: SlashCommand) -> Seq<char> {
    let typed = seq!['/'] + query;
    let base = if has_suffix(content, typed) {
        content.subrange(0, content.len() - typed.len())
    } else {
        content
    };
    after_insert(base, slash_snippet(c), slash_block(c))
}

/// Inserts the chosen palette command into the editor text.
pub fn apply_slash(content: &str, query: &str, cmd: SlashCommand) -> (r: String)
    ensures
        r@ == after_slash(content@, query@, cmd),
{
    let v = chars_of(content);
    let mut typed = owned("/");
    append(&mut typed, query);
    proof {
        reveal_strlit("/");
    }
    assert(typed@ =~= seq!['/'] + query@);
    let t = chars_of(typed.as_str());
    let base = if ends_with(&v, &t) {
        string_of_range(&v, 0, v.len() - t.len())
    } else {
        owned(content)
    };
    insert_text(base.as_str(), cmd.snippet(), cmd.is_block())
}

/// The palette entry selected after an arrow key among `count` entries:
/// down moves to the next, up to the previous, wrapping around.
pub open spec fn selection_after(selected: nat, count: nat, down: bool) -> nat {
    if down {
        if selected + 1 == count {
            0
        } else {
            selected + 1
        }
    } else {
        if selected == 0 {
            (count - 1) as nat
        } else {
            (selected - 1) as nat
        }
    }
}

/// Moves the palette selection (see `selection_after`).
pub fn slash_selection(selected: usize, count: usize, down: bool) -> (r: usize)
    requires
        selected < count,
    ensures
        r == selection_after(selected as nat, count as nat, down),
{
    if down {
        if selected + 1 == count {
            0
        } else {
            selected + 1
        }
    } else {
        if selected == 0 {
            count - 1
        } else {
            selected - 1
        }
    }
}

/// The palette's state: `None` when closed, or where its `/` stands (in
/// characters) and the entry selected.  Typing opens it when `opens_slash`
/// holds of the text; deleting back over its `/` closes it.
pub open spec fn palette_after_input(open: Option<(usize, usize)>, text: Seq<char>) -> Option<
    (usize, usize),
> {
    match open {
        None => if opens_slash(text) {
            Some(((text.len() - 1) as usize, 0usize))
        } else {
            None
        },
        Some((at, _)) => if text.len() <= at {
            None
        } else {
            open
        },
    }
}

/// The palette after the text of the editor changed (see `palette_after_input`).
pub fn palette_on_input(open: Option<(usize, usize)>, text: &str) -> (r: Option<(usize, usize)>)
    ensures
        r == palette_after_input(open, text@),
{
    let v = chars_of(text);
    match open {
        None => {
            if opens_slash_menu(text) {
                Some((v.len() - 1, 0))
            } else {
                None
            }
        },
        Some((at, _)) => {
            if v.len() <= at {
                None
            } else {
                open
            }
        },
    }
}

/// A key the open palette reacts to.
#[derive(Debug, Clone, Copy, PartialEq, Eq, Structural)]
pub enum PaletteKey {
    Up,
    Down,
    Enter,
    Escape,
}

/// The palette after a key, with `count` entries listed, and the entry
/// chosen by the key: Escape closes it; Enter closes it and chooses the
/// selected entry when there is one; the arrows move the selection (a
/// selection past the end counts as the last entry) and do nothing on an
/// empty list.  A closed palette ignores keys.
pub open spec fn palette_after_key(open: Option<(usize, usize)>, key: PaletteKey, count: nat) -> (
    Option<(usize, usize)>,
    Option<usize>,
) {
    match open {
        None => (None, None),
        Some((at, sel)) => match key {
            PaletteKey::Escape => (None, None),
            PaletteKey::Enter => (
                None,
                if sel < count {
                    Some(sel)
                } else {
                    None
                },
            ),
            _ => if count == 0 {
                (open, None)
            } else {
                let s: nat = if sel < count {
                    sel as nat
                } else {
                    (count - 1) as nat
                };
                (Some((at, selection_after(s, count, key == PaletteKey::Down) as usize)), None)
            },
        },
    }
}

/// The palette after a key (see `palette_after_key`).
pub fn palette_on_key(open: Option<(usize, usize)>, key: PaletteKey, count: usize) -> (r: (
    Option<(usize, usize)>,
    Option<usize>,
))
    ensures
        r == palette_after_key(open, key, count as nat),
{
    match open {
        None => (None, None),
        Some((at, sel)) => match key {
            PaletteKey::Escape => (None, None),
            PaletteKey::Enter => (
                None,
                if sel < count {
                    Some(sel)
                } else {
                    None
                },
            ),
            _ => {
                if count == 0 {
                    (open, None)
                } else {
                    let s = if sel < count {
                        sel
                    } else {
                        count - 1
                    };
                    let down = match key {
                        PaletteKey::Down => true,
                        _ => false,
                    };
                    (Some((at, slash_selection(s, count, down))), None)
                }
            },
        },
    }
}

/// How a document is shown: the markdown source, source beside preview, or
/// the preview alone.
#[derive(Debug, Clone, Copy, PartialEq, Eq, Structural)]
pub enum EditorMode {
    Edit,
    Split,
    Preview,
}

impl EditorMode {
    /// Whether the source is shown (not in preview mode).
    pub fn shows_source(&self) -> (b: bool)
        ensures
            b == (*self != EditorMode::Preview),
    {
        match self {
            EditorMode::Preview => false,
            _ => true,
        }
    }

    /// Whether the preview is shown and so rendered (not in edit mode).
    pub fn shows_preview(&self) -> (b: bool)
        ensures
            b == (*self != EditorMode::Edit),
    {
        match self {
            EditorMode::Edit => false,
            _ => true,
        }
    }
}

/// The texts of a queued save: (item id, text).
pub open spec fn pending_view(p: Option<(String, String)>) -> Option<(Seq<char>, Seq<char>)> {
    match p {
        Some((a, b)) => Some((a@, b@)),
        None => None,
    }
}

/// The editor's pending-save slot after it switches away from the item
/// `prev_id`: its unsaved text is queued when `save_on_switch` holds;
/// otherwise the slot stays as it was.
pub open spec fn slot_after_switch(
    slot: Option<(Seq<char>, Seq<char>)>,
    prev_id: Seq<char>,
    prev_content: Seq<char>,
    prev_saved: Seq<char>,
) -> Option<(Seq<char>, Seq<char>)> {
    if prev_content != prev_saved && prev_id.len() > 0 {
        Some((prev_id, prev_content))
    } else {
        slot
    }
}

/// Queues the unsaved text of the item being left (see `slot_after_switch`).
pub fn queue_on_switch(
    slot: &mut Option<(String, String)>,
    prev_id: &str,
    prev_content: &str,
    prev_saved: &str,
)
    ensures
        pending_view(*final(slot)) == slot_after_switch(
            pending_view(*old(slot)),
            prev_id@,
            prev_content@,
            prev_saved@,
        ),
{
    if save_on_switch(prev_id, prev_content, prev_saved) {
        *slot = Some((owned(prev_id), owned(prev_content)));
    }
}

/// The effect that runs after a render: it takes the queued save, if any,
/// to be written, and empties the slot.
pub fn take_pending(slot: &mut Option<(String, String)>) -> (save: Option<(String, String)>)
    ensures
        pending_view(save) == pending_view(*old(slot)),
        *final(slot) is None,
{
    slot.take()
}

/// Switching away from an item whose text was edited and not saved queues
/// exactly that text, so the effect saves it once and a later run saves
/// nothing more; when the text was saved, or the item is unknown, nothing is
/// queued.
pub proof fn lemma_switch_saves_once(prev_id: Seq<char>, prev_content: Seq<char>, prev_saved: Seq<char>)
    ensures
        prev_content != prev_saved && prev_id.len() > 0 ==> slot_after_switch(
            None,
            prev_id,
            prev_content,
            prev_saved,
        ) == Some((prev_id, prev_content)),
        !(prev_content != prev_saved && prev_id.len() > 0) ==> slot_after_switch(
            None,
            prev_id,
            prev_content,
            prev_saved,
        ) is None,
{
}

/// Whether the text of the item being left must be saved when the editor
/// switches to another item: it differs from what was last saved and the
/// item is known.
pub fn save_on_switch(prev_id: &str, prev_content: &str, prev_saved: &str) -> (b: bool)
    ensures
        b == (prev_content@ != prev_saved@ && prev_id@.len() > 0),
{
    let a = chars_of(prev_content);
    let s = chars_of(prev_saved);
    let id = chars_of(prev_id);
    !crate::text::same_text(&a, &s) && id.len() > 0
}

} // verus!
