//! The file explorer: open tabs, the scripts that drive the code editor,
//! which files it opens and how it names new ones.

use vstd::prelude::*;
use crate::paths::{extension, extension_of_path, file_name, file_name_of};
use crate::text::{append, ascii_lower, chars_of, is_text, lowercase, owned, push_char, to_lowercase};

verus! {

/// A file open in a tab.
#[derive(Debug, Clone)]
pub struct FileTab {
    pub path: String,
    pub content: String,
    pub dirty: bool,
}

/// One entry of a directory listing.
#[derive(Debug, Clone)]
pub struct DirEntry {
    pub name: String,
    pub path: String,
    pub is_dir: bool,
}

/// The icon and colour of a tree entry: a triangle for a directory, a dash
/// for a file.
pub fn file_icon(is_dir: bool) -> (r: (&'static str, &'static str))
    ensures
        is_dir ==> r.0@ == "\u{25B8}"@ && r.1@ == "rgba(255,255,255,0.3)"@,
        !is_dir ==> r.0@ == "\u{2012}"@ && r.1@ == "rgba(255,255,255,0.2)"@,
{
    if is_dir {
        ("\u{25B8}", "rgba(255,255,255,0.3)")
    } else {
        ("\u{2012}", "rgba(255,255,255,0.2)")
    }
}

/// The active tab after the tab at `idx` of `len` tabs is closed.
pub open spec fn active_after_close(len: nat, active: Option<usize>, idx: nat) -> Option<usize> {
    let n = len - 1;
    if n == 0 {
        None
    } else {
        let cur = match active {
            Some(a) => a as int,
            None => 0,
        };
        let a1 = if cur >= n {
            Some((n - 1) as usize)
        } else if cur > idx {
            Some((cur - 1) as usize)
        } else {
            active
        };
        match a1 {
            Some(x) => if x >= n {
                Some((n - 1) as usize)
            } else {
                a1
            },
            None => a1,
        }
    }
}

/// Closes the tab at `idx` (nothing happens when there is none): the tab
/// is removed, and the active tab moves so that it still names an open tab.
pub fn close_tab<T>(tabs: &mut Vec<T>, active: &mut Option<usize>, idx: usize)
    ensures
        idx < old(tabs)@.len() ==> final(tabs)@ == old(tabs)@.remove(idx as int) && *final(active)
            == active_after_close(old(tabs)@.len(), *old(active), idx as nat),
        idx >= old(tabs)@.len() ==> final(tabs)@ == old(tabs)@ && *final(active) == *old(active),
{
    if idx < tabs.len() {
        tabs.remove(idx);
        let len = tabs.len();
        if len == 0 {
            *active = None;
        } else {
            let current = match *active {
                Some(a) => a,
                None => 0,
            };
            if current >= len {
                *active = Some(len - 1);
            } else if current > idx {
                *active = Some(current - 1);
            }
            match *active {
                Some(x) => {
                    if x >= len {
                        *active = Some(len - 1);
                    }
                },
                None => {},
            }
        }
    }
}

/// After a tab is closed the active tab is an open one (or none when no tab
/// is left): while tabs remain and one was active, one still is; closing the
/// active tab shows the tab that moves into its place (the new last tab when
/// it was the last); the tab that was active stays active when another is
/// closed; and with no active tab none becomes active.
pub proof fn lemma_close_tab_active(len: nat, active: Option<usize>, idx: nat)
    requires
        idx < len,
    ensures
        active_after_close(len, active, idx) matches Some(a) ==> a < len - 1,
        len - 1 == 0 ==> active_after_close(len, active, idx) is None,
        len > 1 && active is Some ==> active_after_close(len, active, idx) is Some,
        active is None ==> active_after_close(len, active, idx) is None,
        active matches Some(a) && a == idx && idx + 1 < len ==> active_after_close(len, active, idx)
            == active,
        active matches Some(a) && a == idx && idx + 1 == len && len > 1 ==> (active_after_close(
            len,
            active,
            idx,
        ) matches Some(b) && b == idx - 1),
        match active {
            Some(a) => (idx < a < len ==> active_after_close(len, active, idx) == Some(
                (a - 1) as usize,
            )) && (a < idx ==> active_after_close(len, active, idx) == active),
            None => true,
        },
{
}

/// `s` made safe inside a JavaScript template literal: `\` and `` ` `` get
/// a backslash, and so does the `$` of each `${`.
pub open spec fn template_escaped(s: Seq<char>) -> Seq<char>
    decreases s.len(),
{
    if s.len() == 0 {
        seq![]
    } else if s[0] == '\\' {
        seq!['\\', '\\'] + template_escaped(s.drop_first())
    } else if s[0] == '`' {
        seq!['\\', '`'] + template_escaped(s.drop_first())
    } else if s[0] == '$' && s.len() > 1 && s[1] == '{' {
        seq!['\\', '$', '{'] + template_escaped(s.subrange(2, s.len() as int))
    } else {
        seq![s[0]] + template_escaped(s.drop_first())
    }
}

/// `s` with `\` and `` ` `` given a backslash (the escaping of tab ids).
pub open spec fn id_escaped(s: Seq<char>) -> Seq<char>
    decreases s.len(),
{
    if s.len() == 0 {
        seq![]
    } else if s[0] == '\\' {
        seq!['\\', '\\'] + id_escaped(s.drop_first())
    } else if s[0] == '`' {
        seq!['\\', '`'] + id_escaped(s.drop_first())
    } else {
        seq![s[0]] + id_escaped(s.drop_first())
    }
}

/// Escapes text for a JavaScript template literal (see `template_escaped`).
pub fn escape_template(s: &str) -> (r: String)
    ensures
        r@ == template_escaped(s@),
{
    let v = chars_of(s);
    let mut out = String::new();
    let mut i: usize = 0;
    assert(v@.subrange(0, v@.len() as int) == v@);
    while i < v.len()
        invariant
            i <= v@.len(),
            v@ == s@,
            out@ + template_escaped(v@.subrange(i as int, v@.len() as int)) == template_escaped(s@),
        decreases v@.len() - i,
    {
        let ghost rest = v@.subrange(i as int, v@.len() as int);
        assert(rest.drop_first() == v@.subrange(i + 1, v@.len() as int));
        let c = v[i];
        if c == '\\' {
            push_char(&mut out, '\\');
            push_char(&mut out, '\\');
            i += 1;
        } else if c == '`' {
            push_char(&mut out, '\\');
            push_char(&mut out, '`');
            i += 1;
        } else if c == '$' && i + 1 < v.len() && v[i + 1] == '{' {
            assert(rest.subrange(2, rest.len() as int) == v@.subrange(i + 2, v@.len() as int));
            push_char(&mut out, '\\');
            push_char(&mut out, '$');
            push_char(&mut out, '{');
            i += 2;
        } else {
            push_char(&mut out, c);
            i += 1;
        }
    }
    assert(v@.subrange(i as int, v@.len() as int) =~= Seq::<char>::empty());
    assert(out@ + Seq::<char>::empty() =~= out@);
    out
}

/// Escapes a tab id (see `id_escaped`).
pub fn escape_tab_id(s: &str) -> (r: String)
    ensures
        r@ == id_escaped(s@),
{
    let v = chars_of(s);
    let mut out = String::new();
    let mut i: usize = 0;
    assert(v@.subrange(0, v@.len() as int) == v@);
    while i < v.len()
        invariant
            i <= v@.len(),
            v@ == s@,
            out@ + id_escaped(v@.subrange(i as int, v@.len() as int)) == id_escaped(s@),
        decreases v@.len() - i,
    {
        let ghost rest = v@.subrange(i as int, v@.len() as int);
        assert(rest.drop_first() == v@.subrange(i + 1, v@.len() as int));
        let c = v[i];
        if c == '\\' {
            push_char(&mut out, '\\');
            push_char(&mut out, '\\');
        } else if c == '`' {
            push_char(&mut out, '\\');
            push_char(&mut out, '`');
        } else {
            push_char(&mut out, c);
        }
        i += 1;
    }
    assert(v@.subrange(i as int, v@.len() as int) =~= Seq::<char>::empty());
    assert(out@ + Seq::<char>::empty() =~= out@);
    out
}

/// Reads a JavaScript template literal up to its closing `` ` ``: a
/// backslash takes the next character as it is, `${` would start code.
/// Returns the text read and what follows the closing quote, or `None` when
/// the literal is not closed or holds code.
pub open spec fn read_template(s: Seq<char>) -> Option<(Seq<char>, Seq<char>)>
    decreases s.len(),
{
    if s.len() == 0 {
        None
    } else if s[0] == '`' {
        Some((seq![], s.drop_first()))
    } else if s[0] == '\\' {
        if s.len() >= 2 {
            match read_template(s.subrange(2, s.len() as int)) {
                Some((t, rest)) => Some((seq![s[1]] + t, rest)),
                None => None,
            }
        } else {
            None
        }
    } else if s[0] == '$' && s.len() > 1 && s[1] == '{' {
        None
    } else {
        match read_template(s.drop_first()) {
            Some((t, rest)) => Some((seq![s[0]] + t, rest)),
            None => None,
        }
    }
}

proof fn lemma_escaped_first(r: Seq<char>)
    requires
        r.len() > 0,
    ensures
        template_escaped(r).len() > 0,
        template_escaped(r)[0] == (if r[0] == '\\' || r[0] == '`' || (r[0] == '$' && r.len() > 1
            && r[1] == '{') {
            '\\'
        } else {
            r[0]
        }),
{
}

/// Escaped text placed in a template literal reads back as exactly the
/// original text, and the literal ends where it was meant to: the text can
/// neither close the literal nor run code.
pub proof fn lemma_template_reads_back(s: Seq<char>, tail: Seq<char>)
    ensures
        read_template(template_escaped(s) + seq!['`'] + tail) == Some((s, tail)),
    decreases s.len(),
{
    let e = template_escaped(s) + seq!['`'] + tail;
    if s.len() == 0 {
        assert(e =~= seq!['`'] + tail);
        assert(e.drop_first() =~= tail);
    } else if s[0] == '$' && s.len() > 1 && s[1] == '{' {
        let rest = s.subrange(2, s.len() as int);
        lemma_template_reads_back(rest, tail);
        let er = template_escaped(rest) + seq!['`'] + tail;
        assert(e =~= seq!['\\', '$', '{'] + er);
        assert(e.subrange(2, e.len() as int) =~= seq!['{'] + er);
        let inner = seq!['{'] + er;
        assert(inner.drop_first() =~= er);
        assert(inner[0] == '{');
        assert(read_template(er) == Some((rest, tail)));
        assert(read_template(inner) == Some((seq!['{'] + rest, tail)));
        assert(e[0] == '\\' && e[1] == '$');
        assert(read_template(e) == Some((seq!['$'] + (seq!['{'] + rest), tail)));
        assert(seq!['$'] + (seq!['{'] + rest) =~= s) by {
            assert(s =~= seq![s[0], s[1]] + rest);
        }
    } else {
        let rest = s.drop_first();
        lemma_template_reads_back(rest, tail);
        let er = template_escaped(rest) + seq!['`'] + tail;
        if s[0] == '\\' || s[0] == '`' {
            assert(e =~= seq!['\\', s[0]] + er);
            assert(e.subrange(2, e.len() as int) =~= er);
            assert(read_template(e) == Some((seq![s[0]] + rest, tail)));
        } else {
            assert(e =~= seq![s[0]] + er);
            assert(e.drop_first() =~= er);
            if rest.len() == 0 {
                assert(er[0] == '`');
            } else {
                lemma_escaped_first(rest);
                assert(er[0] == template_escaped(rest)[0]);
                assert(rest[0] == s[1]);
            }
            assert(e[1] == er[0]);
            assert(read_template(e) == Some((seq![s[0]] + rest, tail)));
        }
        assert(seq![s[0]] + rest =~= s);
    }
}

/// The script that shows a file in the code editor the first time.
pub open spec fn mount_script_text(content: Seq<char>, language: Seq<char>, tab_id: Seq<char>) -> Seq<
    char,
> {
    "setTimeout(function(){window.__moteMonacoMount(`"@ + template_escaped(content) + "`,'"@
        + language + "',`"@ + id_escaped(tab_id) + "`);},100);"@
}

/// The script that switches the code editor to another file.
pub open spec fn switch_script_text(content: Seq<char>, language: Seq<char>, tab_id: Seq<char>) -> Seq<
    char,
> {
    "setTimeout(function(){window.__moteMonacoSetContent(`"@ + template_escaped(content) + "`,'"@
        + language + "',`"@ + id_escaped(tab_id) + "`);},0);"@
}

/// Builds `head`, escaped content, language, escaped id and `tail`.
fn editor_script(head: &str, content: &str, language: &str, tab_id: &str, tail: &str) -> (r: String)
    ensures
        r@ == head@ + template_escaped(content@) + "`,'"@ + language@ + "',`"@ + id_escaped(
            tab_id@,
        ) + tail@,
{
    let mut r = owned(head);
    let c = escape_template(content);
    append(&mut r, c.as_str());
    append(&mut r, "`,'");
    append(&mut r, language);
    append(&mut r, "',`");
    let t = escape_tab_id(tab_id);
    append(&mut r, t.as_str());
    append(&mut r, tail);
    r
}

/// The script that shows a file in the code editor the first time.
pub fn mount_script(content: &str, language: &str, tab_id: &str) -> (r: String)
    ensures
        r@ == mount_script_text(content@, language@, tab_id@),
{
    editor_script(
        "setTimeout(function(){window.__moteMonacoMount(`",
        content,
        language,
        tab_id,
        "`);},100);",
    )
}

/// The script that switches the code editor to another file.
pub fn switch_script(content: &str, language: &str, tab_id: &str) -> (r: String)
    ensures
        r@ == switch_script_text(content@, language@, tab_id@),
{
    editor_script(
        "setTimeout(function(){window.__moteMonacoSetContent(`",
        content,
        language,
        tab_id,
        "`);},0);",
    )
}

/// The decimal digits of `n`.
pub open spec fn decimal(n: nat) -> Seq<char>
    decreases n,
{
    if n < 10 {
        seq![((48 + n) as u32) as char]
    } else {
        decimal(n / 10) + seq![((48 + n % 10) as u32) as char]
    }
}

/// The character of a decimal digit.
fn digit(d: u64) -> (c: char)
    requires
        d < 10,
    ensures
        c == ((48 + d) as u32) as char,
{
    match d {
        0 => '0',
        1 => '1',
        2 => '2',
        3 => '3',
        4 => '4',
        5 => '5',
        6 => '6',
        7 => '7',
        8 => '8',
        _ => '9',
    }
}

/// Appends the decimal digits of `n` to `out`.
fn push_decimal(out: &mut String, n: u64)
    ensures
        final(out)@ == old(out)@ + decimal(n as nat),
    decreases n,
{
    if n >= 10 {
        push_decimal(out, n / 10);
    }
    push_char(out, digit(n % 10));
}

/// The name of the `i`-th candidate for a new file: `untitled.md`, then
/// `untitled-1.md`, `untitled-2.md`, …
pub fn untitled_name(i: u64) -> (r: String)
    ensures
        i == 0 ==> r@ == "untitled.md"@,
        i > 0 ==> r@ == "untitled-"@ + decimal(i as nat) + ".md"@,
{
    if i == 0 {
        return owned("untitled.md");
    }
    let mut r = owned("untitled-");
    push_decimal(&mut r, i);
    append(&mut r, ".md");
    r
}

/// The position of the first tab showing `path`.
pub fn tab_position(tabs: &Vec<FileTab>, path: &str) -> (r: Option<usize>)
    ensures
        match r {
            Some(k) => k < tabs@.len() && tabs@[k as int].path@ == path@ && forall|j: int|
                0 <= j < k ==> tabs@[j].path@ != path@,
            None => forall|j: int| 0 <= j < tabs@.len() ==> tabs@[j].path@ != path@,
        },
{
    let p = owned(path);
    let mut i: usize = 0;
    while i < tabs.len()
        invariant
            i <= tabs@.len(),
            p@ == path@,
            forall|j: int| 0 <= j < i ==> tabs@[j].path@ != path@,
        decreases tabs@.len() - i,
    {
        if tabs[i].path == p {
            return Some(i);
        }
        i += 1;
    }
    None
}

/// The extensions of files the explorer opens as text (compared lower-cased).
pub open spec fn text_extension(e: Seq<char>) -> bool {
    e == "txt"@
    || e == "md"@
    || e == "rs"@
    || e == "toml"@
    || e == "json"@
    || e == "yaml"@
    || e == "yml"@
    || e == "xml"@
    || e == "html"@
    || e == "htm"@
    || e == "css"@
    || e == "js"@
    || e == "ts"@
    || e == "tsx"@
    || e == "jsx"@
    || e == "py"@
    || e == "rb"@
    || e == "go"@
    || e == "java"@
    || e == "c"@
    || e == "cpp"@
    || e == "h"@
    || e == "hpp"@
    || e == "sh"@
    || e == "bash"@
    || e == "zsh"@
    || e == "fish"@
    || e == "sql"@
    || e == "graphql"@
    || e == "proto"@
    || e == "env"@
    || e == "gitignore"@
    || e == "dockerignore"@
    || e == "dockerfile"@
    || e == "makefile"@
    || e == "cmake"@
    || e == "lock"@
    || e == "cfg"@
    || e == "ini"@
    || e == "conf"@
    || e == "log"@
    || e == "csv"@
    || e == "tsv"@
    || e == "svg"@
    || e == "ron"@
    || e == "editorconfig"@
    || e == "prettierrc"@
    || e == "eslintrc"@
    || e == "babelrc"@
}

/// The names of extension-less files the explorer opens as text (compared lower-cased).
pub open spec fn text_file_name(n: Seq<char>) -> bool {
    n == "makefile"@
    || n == "dockerfile"@
    || n == "readme"@
    || n == "license"@
    || n == "changelog"@
    || n == "authors"@
    || n == "todo"@
    || n == ".gitignore"@
    || n == ".gitattributes"@
    || n == ".editorconfig"@
    || n == ".env"@
    || n == ".env.local"@
    || n == ".env.example"@
    || n == ".prettierrc"@
    || n == ".eslintrc"@
}

/// Whether the explorer opens the file at `path` of `size` bytes (when
/// known): not above 10 MiB, and with a text extension or, without an
/// extension, a text file name.
pub open spec fn opens_as_text(path: Seq<char>, size: Option<u64>) -> bool {
    if size matches Some(n) && n > 10485760 {
        false
    } else {
        match extension(path) {
            Some(e) => text_extension(lowercase(e)),
            None => text_file_name(
                match file_name(path) {
                    Some(n) => lowercase(n),
                    None => Seq::<char>::empty(),
                },
            ),
        }
    }
}

fn is_text_extension(v: &Vec<char>) -> (b: bool)
    ensures
        b == text_extension(v@),
{
    is_text(v, "txt")
    || is_text(v, "md")
    || is_text(v, "rs")
    || is_text(v, "toml")
    || is_text(v, "json")
    || is_text(v, "yaml")
    || is_text(v, "yml")
    || is_text(v, "xml")
    || is_text(v, "html")
    || is_text(v, "htm")
    || is_text(v, "css")
    || is_text(v, "js")
    || is_text(v, "ts")
    || is_text(v, "tsx")
    || is_text(v, "jsx")
    || is_text(v, "py")
    || is_text(v, "rb")
    || is_text(v, "go")
    || is_text(v, "java")
    || is_text(v, "c")
    || is_text(v, "cpp")
    || is_text(v, "h")
    || is_text(v, "hpp")
    || is_text(v, "sh")
    || is_text(v, "bash")
    || is_text(v, "zsh")
    || is_text(v, "fish")
    || is_text(v, "sql")
    || is_text(v, "graphql")
    || is_text(v, "proto")
    || is_text(v, "env")
    || is_text(v, "gitignore")
    || is_text(v, "dockerignore")
    || is_text(v, "dockerfile")
    || is_text(v, "makefile")
    || is_text(v, "cmake")
    || is_text(v, "lock")
    || is_text(v, "cfg")
    || is_text(v, "ini")
    || is_text(v, "conf")
    || is_text(v, "log")
    || is_text(v, "csv")
    || is_text(v, "tsv")
    || is_text(v, "svg")
    || is_text(v, "ron")
    || is_text(v, "editorconfig")
    || is_text(v, "prettierrc")
    || is_text(v, "eslintrc")
    || is_text(v, "babelrc")
}

fn is_text_file_name(v: &Vec<char>) -> (b: bool)
    ensures
        b == text_file_name(v@),
{
    is_text(v, "makefile")
    || is_text(v, "dockerfile")
    || is_text(v, "readme")
    || is_text(v, "license")
    || is_text(v, "changelog")
    || is_text(v, "authors")
    || is_text(v, "todo")
    || is_text(v, ".gitignore")
    || is_text(v, ".gitattributes")
    || is_text(v, ".editorconfig")
    || is_text(v, ".env")
    || is_text(v, ".env.local")
    || is_text(v, ".env.example")
    || is_text(v, ".prettierrc")
    || is_text(v, ".eslintrc")
}

/// Every extension of the explorer's text list opens as text: a file of
/// at most 10 MiB whose extension is one of them is opened in the editor
/// (the extension is ASCII and already lower case, so `is_text_file` tests
/// it as it is).
pub proof fn lemma_listed_extensions_open(e: Seq<char>)
    requires
        e == "txt"@
        || e == "md"@
        || e == "rs"@
        || e == "toml"@
        || e == "json"@
        || e == "yaml"@
        || e == "yml"@
        || e == "xml"@
        || e == "html"@
        || e == "htm"@
        || e == "css"@
        || e == "js"@
        || e == "ts"@
        || e == "tsx"@
        || e == "jsx"@
        || e == "py"@
        || e == "rb"@
        || e == "go"@
        || e == "java"@
        || e == "c"@
        || e == "cpp"@
        || e == "h"@
        || e == "hpp"@
        || e == "sh"@
        || e == "bash"@
        || e == "zsh"@
        || e == "fish"@
        || e == "sql"@
        || e == "graphql"@
        || e == "proto"@
        || e == "env"@
        || e == "gitignore"@
        || e == "dockerignore"@
        || e == "dockerfile"@
        || e == "makefile"@
        || e == "cmake"@
        || e == "lock"@
        || e == "cfg"@
        || e == "ini"@
        || e == "conf"@
        || e == "log"@
        || e == "csv"@
        || e == "tsv"@
        || e == "svg"@
        || e == "ron"@
        || e == "editorconfig"@
        || e == "prettierrc"@
        || e == "eslintrc"@
        || e == "babelrc"@,
    ensures
        vstd::utf8::is_ascii_chars(e),
        e.map_values(|c: char| ascii_lower(c)) == e,
        text_extension(e),
{
    reveal_strlit("txt");
    reveal_strlit("md");
    reveal_strlit("rs");
    reveal_strlit("toml");
    reveal_strlit("json");
    reveal_strlit("yaml");
    reveal_strlit("yml");
    reveal_strlit("xml");
    reveal_strlit("html");
    reveal_strlit("htm");
    reveal_strlit("css");
    reveal_strlit("js");
    reveal_strlit("ts");
    reveal_strlit("tsx");
    reveal_strlit("jsx");
    reveal_strlit("py");
    reveal_strlit("rb");
    reveal_strlit("go");
    reveal_strlit("java");
    reveal_strlit("c");
    reveal_strlit("cpp");
    reveal_strlit("h");
    reveal_strlit("hpp");
    reveal_strlit("sh");
    reveal_strlit("bash");
    reveal_strlit("zsh");
    reveal_strlit("fish");
    reveal_strlit("sql");
    reveal_strlit("graphql");
    reveal_strlit("proto");
    reveal_strlit("env");
    reveal_strlit("gitignore");
    reveal_strlit("dockerignore");
    reveal_strlit("dockerfile");
    reveal_strlit("makefile");
    reveal_strlit("cmake");
    reveal_strlit("lock");
    reveal_strlit("cfg");
    reveal_strlit("ini");
    reveal_strlit("conf");
    reveal_strlit("log");
    reveal_strlit("csv");
    reveal_strlit("tsv");
    reveal_strlit("svg");
    reveal_strlit("ron");
    reveal_strlit("editorconfig");
    reveal_strlit("prettierrc");
    reveal_strlit("eslintrc");
    reveal_strlit("babelrc");
    assert forall|i: int| 0 <= i < e.len() implies '\0' <= #[trigger] e[i] <= '\u{7f}' && !('A' <= e[i]
        && e[i] <= 'Z') by {
    }
    assert(e.map_values(|c: char| ascii_lower(c)) =~= e);
}

/// Every file name of the explorer's list of extension-less text files
/// opens as text: a file of at most 10 MiB with one of these names (in
/// lower case) is opened in the editor.
pub proof fn lemma_listed_names_open(n: Seq<char>)
    requires
        n == "makefile"@
        || n == "dockerfile"@
        || n == "readme"@
        || n == "license"@
        || n == "changelog"@
        || n == "authors"@
        || n == "todo"@
        || n == ".gitignore"@
        || n == ".gitattributes"@
        || n == ".editorconfig"@
        || n == ".env"@
        || n == ".env.local"@
        || n == ".env.example"@
        || n == ".prettierrc"@
        || n == ".eslintrc"@,
    ensures
        vstd::utf8::is_ascii_chars(n),
        n.map_values(|c: char| ascii_lower(c)) == n,
        text_file_name(n),
{
    reveal_strlit("makefile");
    reveal_strlit("dockerfile");
    reveal_strlit("readme");
    reveal_strlit("license");
    reveal_strlit("changelog");
    reveal_strlit("authors");
    reveal_strlit("todo");
    reveal_strlit(".gitignore");
    reveal_strlit(".gitattributes");
    reveal_strlit(".editorconfig");
    reveal_strlit(".env");
    reveal_strlit(".env.local");
    reveal_strlit(".env.example");
    reveal_strlit(".prettierrc");
    reveal_strlit(".eslintrc");
    assert forall|i: int| 0 <= i < n.len() implies '\0' <= #[trigger] n[i] <= '\u{7f}' && !('A' <= n[i]
        && n[i] <= 'Z') by {
    }
    assert(n.map_values(|c: char| ascii_lower(c)) =~= n);
}

/// Whether the explorer opens the file at `path` as text (see `opens_as_text`).
pub fn is_text_file(path: &str, size: Option<u64>) -> (b: bool)
    ensures
        b == opens_as_text(path@, size),
        !(size matches Some(n) && n > 10485760) && extension(path@) is Some
            && vstd::utf8::is_ascii_chars(extension(path@)->0) ==> b == text_extension(
            extension(path@)->0.map_values(|c: char| ascii_lower(c)),
        ),
        !(size matches Some(n) && n > 10485760) && extension(path@) is None && file_name(
            path@,
        ) is Some && vstd::utf8::is_ascii_chars(file_name(path@)->0) ==> b == text_file_name(
            file_name(path@)->0.map_values(|c: char| ascii_lower(c)),
        ),
{
    match size {
        Some(n) => {
            if n > 10485760 {
                return false;
            }
        },
        None => {},
    }
    match extension_of_path(path) {
        Some(e) => {
            let lower = to_lowercase(e.as_str());
            is_text_extension(&chars_of(lower.as_str()))
        },
        None => {
            let name = match file_name_of(path) {
                Some(n) => to_lowercase(n.as_str()),
                None => String::new(),
            };
            is_text_file_name(&chars_of(name.as_str()))
        },
    }
}

/// The code editor's language for a file extension (`plaintext` for none
/// or an unknown one).
pub open spec fn language_of_extension(e: Seq<char>) -> Seq<char> {
    if e == "rs"@ {
        "rust"@
    } else if e == "toml"@ {
        "toml"@
    } else if e == "json"@ {
        "json"@
    } else if e == "yaml"@ {
        "yaml"@
    } else if e == "yml"@ {
        "yaml"@
    } else if e == "xml"@ {
        "xml"@
    } else if e == "html"@ {
        "html"@
    } else if e == "htm"@ {
        "html"@
    } else if e == "css"@ {
        "css"@
    } else if e == "js"@ {
        "javascript"@
    } else if e == "jsx"@ {
        "javascript"@
    } else if e == "ts"@ {
        "typescript"@
    } else if e == "tsx"@ {
        "typescript"@
    } else if e == "py"@ {
        "python"@
    } else if e == "rb"@ {
        "ruby"@
    } else if e == "go"@ {
        "go"@
    } else if e == "java"@ {
        "java"@
    } else if e == "c"@ {
        "c"@
    } else if e == "h"@ {
        "c"@
    } else if e == "cpp"@ {
        "cpp"@
    } else if e == "hpp"@ {
        "cpp"@
    } else if e == "sh"@ {
        "shell"@
    } else if e == "bash"@ {
        "shell"@
    } else if e == "zsh"@ {
        "shell"@
    } else if e == "sql"@ {
        "sql"@
    } else if e == "md"@ {
        "markdown"@
    } else if e == "graphql"@ {
        "graphql"@
    } else if e == "dockerfile"@ {
        "dockerfile"@
    } else if e == "svg"@ {
        "xml"@
    } else if e == "ini"@ {
        "ini"@
    } else if e == "cfg"@ {
        "ini"@
    } else if e == "conf"@ {
        "ini"@
    } else if e == "csv"@ {
        "plaintext"@
    } else if e == "tsv"@ {
        "plaintext"@
    } else if e == "log"@ {
        "plaintext"@
    } else {
        "plaintext"@
    }
}

/// The code editor's language for the file at `path`, by its extension.
pub open spec fn language_of(path: Seq<char>) -> Seq<char> {
    match extension(path) {
        Some(e) => language_of_extension(e),
        None => "plaintext"@,
    }
}

fn language_for_extension(e: &str) -> (s: &'static str)
    ensures
        s@ == language_of_extension(e@),
{
    let v = chars_of(e);
    if is_text(&v, "rs") {
        "rust"
    } else if is_text(&v, "toml") {
        "toml"
    } else if is_text(&v, "json") {
        "json"
    } else if is_text(&v, "yaml") {
        "yaml"
    } else if is_text(&v, "yml") {
        "yaml"
    } else if is_text(&v, "xml") {
        "xml"
    } else if is_text(&v, "html") {
        "html"
    } else if is_text(&v, "htm") {
        "html"
    } else if is_text(&v, "css") {
        "css"
    } else if is_text(&v, "js") {
        "javascript"
    } else if is_text(&v, "jsx") {
        "javascript"
    } else if is_text(&v, "ts") {
        "typescript"
    } else if is_text(&v, "tsx") {
        "typescript"
    } else if is_text(&v, "py") {
        "python"
    } else if is_text(&v, "rb") {
        "ruby"
    } else if is_text(&v, "go") {
        "go"
    } else if is_text(&v, "java") {
        "java"
    } else if is_text(&v, "c") {
        "c"
    } else if is_text(&v, "h") {
        "c"
    } else if is_text(&v, "cpp") {
        "cpp"
    } else if is_text(&v, "hpp") {
        "cpp"
    } else if is_text(&v, "sh") {
        "shell"
    } else if is_text(&v, "bash") {
        "shell"
    } else if is_text(&v, "zsh") {
        "shell"
    } else if is_text(&v, "sql") {
        "sql"
    } else if is_text(&v, "md") {
        "markdown"
    } else if is_text(&v, "graphql") {
        "graphql"
    } else if is_text(&v, "dockerfile") {
        "dockerfile"
    } else if is_text(&v, "svg") {
        "xml"
    } else if is_text(&v, "ini") {
        "ini"
    } else if is_text(&v, "cfg") {
        "ini"
    } else if is_text(&v, "conf") {
        "ini"
    } else if is_text(&v, "csv") {
        "plaintext"
    } else if is_text(&v, "tsv") {
        "plaintext"
    } else if is_text(&v, "log") {
        "plaintext"
    } else {
        "plaintext"
    }
}

/// The code editor's language for the file at `path`.
pub fn language_for(path: &str) -> (s: &'static str)
    ensures
        s@ == language_of(path@),
{
    match extension_of_path(path) {
        Some(e) => language_for_extension(e.as_str()),
        None => "plaintext",
    }
}

/// `a` is not after `b` in lexicographic order of characters (the order of
/// `str`'s `Ord`, which compares UTF-8 bytes and so code points).
pub open spec fn text_le(a: Seq<char>, b: Seq<char>) -> bool
    decreases a.len(),
{
    if a.len() == 0 {
        true
    } else if b.len() == 0 {
        false
    } else if a[0] != b[0] {
        a[0] < b[0]
    } else {
        text_le(a.drop_first(), b.drop_first())
    }
}

/// An entry with its texts as character sequences.
pub struct DirEntryView {
    pub name: Seq<char>,
    pub path: Seq<char>,
    pub is_dir: bool,
}

impl View for DirEntry {
    type V = DirEntryView;

    open spec fn view(&self) -> DirEntryView {
        DirEntryView { name: self.name@, path: self.path@, is_dir: self.is_dir }
    }
}

/// Listing order: directories first, then by lower-cased name.
pub open spec fn entry_le(a: DirEntryView, b: DirEntryView) -> bool {
    (a.is_dir && !b.is_dir) || (a.is_dir == b.is_dir && text_le(lowercase(a.name), lowercase(b.name)))
}

/// `x` put into `s` after every entry that does not come after it.
pub open spec fn insert_entry(s: Seq<DirEntryView>, x: DirEntryView) -> Seq<DirEntryView>
    decreases s.len(),
{
    if s.len() == 0 {
        seq![x]
    } else if !entry_le(s.last(), x) {
        insert_entry(s.drop_last(), x).push(s.last())
    } else {
        s.push(x)
    }
}

/// `s` in listing order, equal entries kept in their order (stable sort).
pub open spec fn sort_entries(s: Seq<DirEntryView>) -> Seq<DirEntryView>
    decreases s.len(),
{
    if s.len() == 0 {
        seq![]
    } else {
        insert_entry(sort_entries(s.drop_last()), s.last())
    }
}

/// The views of a sequence of entries.
pub open spec fn entry_views(s: Seq<DirEntry>) -> Seq<DirEntryView> {
    s.map_values(|e: DirEntry| e@)
}

/// Whether `a` is not after `b` in character order.
fn text_le_exec(a: &Vec<char>, b: &Vec<char>) -> (r: bool)
    ensures
        r == text_le(a@, b@),
{
    let mut i: usize = 0;
    assert(a@.subrange(0, a@.len() as int) == a@);
    assert(b@.subrange(0, b@.len() as int) == b@);
    while i < a.len() && i < b.len() && a[i] == b[i]
        invariant
            i <= a@.len(),
            i <= b@.len(),
            text_le(a@, b@) == text_le(a@.subrange(i as int, a@.len() as int), b@.subrange(
                i as int,
                b@.len() as int,
            )),
        decreases a@.len() - i,
    {
        let ghost sa = a@.subrange(i as int, a@.len() as int);
        let ghost sb = b@.subrange(i as int, b@.len() as int);
        assert(sa.drop_first() == a@.subrange(i + 1, a@.len() as int));
        assert(sb.drop_first() == b@.subrange(i + 1, b@.len() as int));
        i += 1;
    }
    let ghost sa = a@.subrange(i as int, a@.len() as int);
    let ghost sb = b@.subrange(i as int, b@.len() as int);
    if i == a.len() {
        true
    } else if i == b.len() {
        false
    } else {
        assert(sa[0] == a@[i as int] && sb[0] == b@[i as int]);
        a[i] < b[i]
    }
}

proof fn lemma_insert_entry_at(s: Seq<DirEntryView>, x: DirEntryView, j: int)
    requires
        0 <= j <= s.len(),
        forall|k: int| j <= k < s.len() ==> !entry_le(#[trigger] s[k], x),
        j == 0 || entry_le(s[j - 1], x),
    ensures
        insert_entry(s, x) == s.insert(j, x),
    decreases s.len(),
{
    if s.len() == 0 {
        assert(s.insert(0, x) =~= seq![x]);
    } else if j == s.len() {
        assert(s.insert(j, x) =~= s.push(x));
    } else {
        assert(!entry_le(s[s.len() - 1], x));
        lemma_insert_entry_at(s.drop_last(), x, j);
        assert(s.drop_last().insert(j, x).push(s.last()) =~= s.insert(j, x));
    }
}

/// A copy of an entry.
fn copy_entry(e: &DirEntry) -> (r: DirEntry)
    ensures
        r@ == e@,
{
    DirEntry { name: owned(e.name.as_str()), path: owned(e.path.as_str()), is_dir: e.is_dir }
}

/// `a` comes no later than `b` in lexicographic order: `a` is a prefix of
/// `b`, or where they first differ `a` has the smaller character.
pub open spec fn lex_le(a: Seq<char>, b: Seq<char>) -> bool {
    ||| (a.len() <= b.len() && b.take(a.len() as int) == a)
    ||| exists|k: int|
        0 <= k < a.len() && k < b.len() && a.take(k) == b.take(k) && #[trigger] a[k] < b[k]
}

proof fn lemma_text_le_lex(a: Seq<char>, b: Seq<char>)
    requires
        text_le(a, b),
    ensures
        lex_le(a, b),
    decreases a.len(),
{
    if a.len() == 0 {
        assert(b.take(0) =~= a);
    } else if a[0] != b[0] {
        assert(a.take(0) =~= b.take(0));
        assert(a[0] < b[0]);
    } else {
        let a1 = a.drop_first();
        let b1 = b.drop_first();
        lemma_text_le_lex(a1, b1);
        if a1.len() <= b1.len() && b1.take(a1.len() as int) == a1 {
            assert(b.take(a.len() as int) =~= seq![b[0]] + b1.take(a1.len() as int));
            assert(a =~= seq![a[0]] + a1);
        } else {
            let k = choose|k: int|
                0 <= k < a1.len() && k < b1.len() && a1.take(k) == b1.take(k) && #[trigger] a1[k]
                    < b1[k];
            assert(a.take(k + 1) =~= seq![a[0]] + a1.take(k));
            assert(b.take(k + 1) =~= seq![b[0]] + b1.take(k));
            assert(a[k + 1] == a1[k] && b[k + 1] == b1[k]);
        }
    }
}

proof fn lemma_text_le_total(a: Seq<char>, b: Seq<char>)
    ensures
        text_le(a, b) || text_le(b, a),
    decreases a.len(),
{
    if a.len() > 0 && b.len() > 0 && a[0] == b[0] {
        lemma_text_le_total(a.drop_first(), b.drop_first());
    }
}

proof fn lemma_entry_le_total(a: DirEntryView, b: DirEntryView)
    ensures
        entry_le(a, b) || entry_le(b, a),
{
    lemma_text_le_total(lowercase(a.name), lowercase(b.name));
}

/// Each entry comes no later than the next one.
pub open spec fn entries_in_order(s: Seq<DirEntryView>) -> bool {
    forall|i: int, j: int| 0 <= i && j == i + 1 && j < s.len() ==> entry_le(#[trigger] s[i], #[trigger] s[j])
}

proof fn lemma_insert_entry_sorted(s: Seq<DirEntryView>, x: DirEntryView)
    requires
        entries_in_order(s),
    ensures
        entries_in_order(insert_entry(s, x)),
        insert_entry(s, x).to_multiset() == s.to_multiset().insert(x),
        insert_entry(s, x).len() == s.len() + 1,
        insert_entry(s, x).last() == (if s.len() == 0 || entry_le(s.last(), x) {
            x
        } else {
            s.last()
        }),
    decreases s.len(),
{
    broadcast use vstd::seq_lib::group_to_multiset_ensures;

    if s.len() == 0 {
        assert(seq![x] =~= Seq::<DirEntryView>::empty().push(x));
    } else {
        let init = s.drop_last();
        let last = s.last();
        assert(s =~= init.push(last));
        assert forall|i: int, j: int| 0 <= i && j == i + 1 && j < init.len() implies entry_le(
            #[trigger] init[i],
            #[trigger] init[j],
        ) by {
            assert(init[i] == s[i] && init[j] == s[j]);
        }
        if !entry_le(last, x) {
            lemma_insert_entry_sorted(init, x);
            let t = insert_entry(init, x);
            lemma_entry_le_total(last, x);
            if init.len() > 0 && !entry_le(init.last(), x) {
                assert(init.last() == s[s.len() - 2]);
                assert(entry_le(s[s.len() - 2], s[s.len() - 1]));
            }
            assert(entry_le(t.last(), last));
            assert forall|i: int, j: int| 0 <= i && j == i + 1 && j < t.push(last).len() implies entry_le(
                #[trigger] t.push(last)[i],
                #[trigger] t.push(last)[j],
            ) by {
                assert(t.push(last)[i] == t[i]);
                if j < t.len() {
                    assert(t.push(last)[j] == t[j]);
                } else {
                    assert(t[i] == t.last());
                }
            }
        } else {
            assert forall|i: int, j: int| 0 <= i && j == i + 1 && j < s.push(x).len() implies entry_le(
                #[trigger] s.push(x)[i],
                #[trigger] s.push(x)[j],
            ) by {
                assert(s.push(x)[i] == s[i]);
                if j < s.len() {
                    assert(s.push(x)[j] == s[j]);
                }
            }
        }
    }
}

proof fn lemma_sort_entries_sorted(s: Seq<DirEntryView>)
    ensures
        entries_in_order(sort_entries(s)),
        sort_entries(s).to_multiset() == s.to_multiset(),
    decreases s.len(),
{
    broadcast use vstd::seq_lib::group_to_multiset_ensures;

    if s.len() > 0 {
        lemma_sort_entries_sorted(s.drop_last());
        lemma_insert_entry_sorted(sort_entries(s.drop_last()), s.last());
        assert(s =~= s.drop_last().push(s.last()));
    } else {
        assert(s.to_multiset() =~= Seq::<DirEntryView>::empty().to_multiset());
    }
}

/// The explorer lists a directory as the same entries, reordered: every
/// directory before every file, and entries of one kind by their lower-cased
/// names in lexicographic order.
pub proof fn lemma_listing_order(s: Seq<DirEntryView>)
    ensures
        sort_entries(s).to_multiset() == s.to_multiset(),
        forall|i: int, j: int|
            0 <= i && j == i + 1 && j < sort_entries(s).len() ==> (#[trigger] sort_entries(s)[i].is_dir
                || !(#[trigger] sort_entries(s)[j]).is_dir),
        forall|i: int, j: int|
            0 <= i && j == i + 1 && j < sort_entries(s).len() && (#[trigger] sort_entries(s)[i]).is_dir
                == (#[trigger] sort_entries(s)[j]).is_dir ==> lex_le(
                lowercase(sort_entries(s)[i].name),
                lowercase(sort_entries(s)[j].name),
            ),
{
    lemma_sort_entries_sorted(s);
    let r = sort_entries(s);
    assert forall|i: int, j: int|
        0 <= i && j == i + 1 && j < r.len() && (#[trigger] r[i]).is_dir == (#[trigger] r[j]).is_dir
            implies lex_le(lowercase(r[i].name), lowercase(r[j].name)) by {
        assert(entry_le(r[i], r[j]));
        lemma_text_le_lex(lowercase(r[i].name), lowercase(r[j].name));
    }
    assert forall|i: int, j: int| 0 <= i && j == i + 1 && j < r.len() implies (#[trigger] r[i].is_dir
        || !(#[trigger] r[j]).is_dir) by {
        assert(entry_le(r[i], r[j]));
    }
}

/// A directory listing in the order the explorer shows it: directories
/// first, then by name ignoring case; entries that compare equal keep their
/// order.
pub fn sort_dir_entries(entries: &Vec<DirEntry>) -> (r: Vec<DirEntry>)
    ensures
        entry_views(r@) == sort_entries(entry_views(entries@)),
        entry_views(r@).to_multiset() == entry_views(entries@).to_multiset(),
        forall|i: int, j: int|
            0 <= i && j == i + 1 && j < r@.len() ==> (#[trigger] r@[i]).is_dir || !(
            #[trigger] r@[j]).is_dir,
        forall|i: int, j: int|
            0 <= i && j == i + 1 && j < r@.len() && (#[trigger] r@[i]).is_dir == (
            #[trigger] r@[j]).is_dir ==> lex_le(lowercase(r@[i].name@), lowercase(r@[j].name@)),
{
    let ghost all = entry_views(entries@);
    let mut r: Vec<DirEntry> = Vec::new();
    let mut keys: Vec<Vec<char>> = Vec::new();
    let mut i: usize = 0;
    while i < entries.len()
        invariant
            i <= entries@.len(),
            all == entry_views(entries@),
            entry_views(r@) == sort_entries(all.take(i as int)),
            keys@.len() == r@.len(),
            forall|k: int| 0 <= k < r@.len() ==> #[trigger] keys@[k]@ == lowercase(r@[k].name@),
        decreases entries@.len() - i,
    {
        let x = copy_entry(&entries[i]);
        assert(all.take(i + 1).drop_last() == all.take(i as int));
        assert(all.take(i + 1).last() == x@);
        let lower = to_lowercase(x.name.as_str());
        let xk = chars_of(lower.as_str());
        let ghost s = entry_views(r@);
        let mut j = r.len();
        while j > 0 && !((r[j - 1].is_dir && !x.is_dir) || (r[j - 1].is_dir == x.is_dir
            && text_le_exec(&keys[j - 1], &xk)))
            invariant
                j <= r@.len(),
                s == entry_views(r@),
                keys@.len() == r@.len(),
                forall|k: int| 0 <= k < r@.len() ==> #[trigger] keys@[k]@ == lowercase(r@[k].name@),
                xk@ == lowercase(x@.name),
                forall|k: int| j <= k < s.len() ==> !entry_le(#[trigger] s[k], x@),
            decreases j,
        {
            assert(s[j - 1] == r@[j - 1]@);
            assert(keys@[j - 1]@ == lowercase(r@[j - 1].name@));
            j -= 1;
        }
        proof {
            if j > 0 {
                assert(s[j - 1] == r@[j - 1]@);
                assert(keys@[j - 1]@ == lowercase(r@[j - 1].name@));
            }
            lemma_insert_entry_at(s, x@, j as int);
        }
        let ghost old_r = r@;
        let ghost old_keys = keys@;
        r.insert(j, x);
        keys.insert(j, xk);
        assert forall|k: int| 0 <= k < r@.len() implies #[trigger] keys@[k]@ == lowercase(
            r@[k].name@,
        ) by {
            if k < j {
                assert(keys@[k] == old_keys[k] && r@[k] == old_r[k]);
            } else if k > j {
                assert(keys@[k] == old_keys[k - 1] && r@[k] == old_r[k - 1]);
            }
        }
        assert(entry_views(r@) =~= s.insert(j as int, all[i as int]));
        let ghost c = all.take(i as int);
        assert(all.take(i + 1) == c.push(all[i as int]));
        assert(c.push(all[i as int]).drop_last() == c);
        assert(sort_entries(c.push(all[i as int])) == insert_entry(sort_entries(c), all[i as int]));
        i += 1;
    }
    assert(all.take(entries@.len() as int) == all);
    proof {
        lemma_listing_order(all);
        let v = entry_views(r@);
        assert forall|i: int, j: int| 0 <= i && j == i + 1 && j < r@.len() implies (#[trigger] r@[i]).is_dir
            || !(#[trigger] r@[j]).is_dir by {
            assert(v[i] == r@[i]@ && v[j] == r@[j]@);
            assert(v[i].is_dir || !v[j].is_dir);
        }
        assert forall|i: int, j: int|
            0 <= i && j == i + 1 && j < r@.len() && (#[trigger] r@[i]).is_dir == (
            #[trigger] r@[j]).is_dir implies lex_le(lowercase(r@[i].name@), lowercase(r@[j].name@)) by {
            assert(v[i] == r@[i]@ && v[j] == r@[j]@);
            assert(v[i].is_dir == v[j].is_dir);
        }
    }
    r
}

/// Whether the tree entry at `path` is the file of the active tab.
pub fn is_active_entry(tabs: &Vec<FileTab>, active: Option<usize>, path: &str) -> (b: bool)
    ensures
        b == exists|i: int|
            0 <= i < tabs@.len() && tabs@[i].path@ == path@ && active == Some(i as usize),
{
    match active {
        Some(a) => {
            if a < tabs.len() && tabs[a].path == owned(path) {
                true
            } else {
                assert forall|i: int|
                    0 <= i < tabs@.len() && tabs@[i].path@ == path@ implies active != Some(
                    i as usize,
                ) by {
                    if active == Some(i as usize) {
                        assert(i == a);
                    }
                }
                false
            }
        },
        None => false,
    }
}

} // verus!
