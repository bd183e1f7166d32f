//! The browser panel: addresses typed into it, its tabs and the list of
//! recent addresses.

use vstd::prelude::*;
use crate::storage::{texts, without};
use crate::text::{
    append, chars_of, lemma_trim_ends, lemma_trim_fixed, contains, contains_char, contains_text, first_of, find, has_prefix,
    index_of_char_from, occurs_at, owned, push_char, starts_with, string_of_range, trim, trim_bounds,
};

verus! {

/// `s` with every `a` replaced by `b`.
pub open spec fn replace_char(s: Seq<char>, a: char, b: char) -> Seq<char> {
    s.map_values(|c: char|
        if c == a {
            b
        } else {
            c
        })
}

/// The address the browser opens for what the user typed: the search page
/// for nothing; an `http://` or `https://` address as it is; text with a dot
/// and no space as an `https://` address; anything else as a search whose
/// spaces become `+`.  The input is trimmed first.
pub open spec fn normalized_url(input: Seq<char>) -> Seq<char> {
    let t = trim(input);
    if t.len() == 0 {
        "https://duckduckgo.com"@
    } else if has_prefix(t, "http://"@) || has_prefix(t, "https://"@) {
        t
    } else if t.contains('.') && !t.contains(' ') {
        "https://"@ + t
    } else {
        "https://duckduckgo.com/?q="@ + replace_char(t, ' ', '+')
    }
}

/// Turns what the user typed into an address to open.
pub fn normalize_url(input: &str) -> (r: String)
    ensures
        r@ == normalized_url(input@),
{
    let v = chars_of(input);
    let (a, b) = trim_bounds(&v, 0, v.len());
    assert(v@.subrange(0, v@.len() as int) == v@);
    let t = string_of_range(&v, a, b);
    let tv = chars_of(t.as_str());
    if tv.len() == 0 {
        return owned("https://duckduckgo.com");
    }
    if starts_with(&tv, &chars_of("http://")) || starts_with(&tv, &chars_of("https://")) {
        return t;
    }
    if contains_char(&tv, '.') && !contains_char(&tv, ' ') {
        let mut r = owned("https://");
        append(&mut r, t.as_str());
        return r;
    }
    let mut r = owned("https://duckduckgo.com/?q=");
    let ghost base = r@;
    let mut i: usize = 0;
    while i < tv.len()
        invariant
            i <= tv@.len(),
            r@ == base + replace_char(tv@.take(i as int), ' ', '+'),
        decreases tv@.len() - i,
    {
        let c = if tv[i] == ' ' {
            '+'
        } else {
            tv[i]
        };
        push_char(&mut r, c);
        assert(replace_char(tv@.take(i + 1), ' ', '+') =~= replace_char(tv@.take(i as int), ' ', '+').push(c));
        i += 1;
    }
    assert(tv@.take(tv@.len() as int) == tv@);
    r
}

/// The first position where `p` occurs in `s`.
pub open spec fn first_occurrence(s: Seq<char>, p: Seq<char>) -> int {
    choose|k: int| occurs_at(s, p, k) && forall|j: int| 0 <= j < k ==> !occurs_at(s, p, j)
}

/// The title of a browser window: the host part of the address (what
/// follows the first `//`, up to the next `/`), or `Browser`.
pub open spec fn url_title(url: Seq<char>) -> Seq<char> {
    if contains_text(url, "//"@) {
        let rest = url.subrange(first_occurrence(url, "//"@) + 2, url.len() as int);
        rest.take(first_of(rest, '/') as int)
    } else {
        "Browser"@
    }
}

/// The title of the browser window showing `url`.
pub fn url_to_title(url: &str) -> (r: String)
    ensures
        r@ == url_title(url@),
{
    let v = chars_of(url);
    let sep = chars_of("//");
    proof {
        reveal_strlit("//");
    }
    match find(&v, &sep) {
        Some(k) => {
            let ghost kk = first_occurrence(v@, "//"@);
            proof {
                assert(occurs_at(v@, "//"@, k as int));
                assert(contains_text(v@, "//"@));
                assert(occurs_at(v@, "//"@, kk) && forall|j: int|
                    0 <= j < kk ==> !occurs_at(v@, "//"@, j));
                if kk < k {
                } else if k < kk {
                }
                assert(kk == k);
            }
            assert(sep@.len() == 2);
            let n = v.len();
            assert(k + 2 <= n);
            let start = k + 2;
            let e = index_of_char_from(&v, '/', start);
            let ghost rest = v@.subrange(start as int, v@.len() as int);
            assert(rest.take(e - start) == v@.subrange(start as int, e as int));
            string_of_range(&v, start, e)
        },
        None => owned("Browser"),
    }
}

/// The list of recent addresses after opening `url`: `url` first, its
/// earlier occurrences removed, at most twenty kept.
pub open spec fn history_after(history: Seq<Seq<char>>, url: Seq<char>) -> Seq<Seq<char>> {
    let h = seq![url] + without(history, url);
    if h.len() > 20 {
        h.take(20)
    } else {
        h
    }
}

/// Records that `url` was opened.
pub fn push_history(history: Vec<String>, url: String) -> (r: Vec<String>)
    ensures
        texts(r@) == history_after(texts(history@), url@),
{
    let ghost all = texts(history@);
    let mut rest: Vec<String> = Vec::new();
    let mut i: usize = 0;
    while i < history.len()
        invariant
            i <= history@.len(),
            all == texts(history@),
            texts(rest@) == without(all.take(i as int), url@),
        decreases history@.len() - i,
    {
        assert(all.take(i + 1).drop_last() == all.take(i as int));
        assert(all.take(i + 1).last() == history@[i as int]@);
        if history[i] != url {
            let ghost before = rest@;
            rest.push(history[i].clone());
            assert(texts(rest@) == texts(before).push(history@[i as int]@));
        }
        i += 1;
    }
    assert(all.take(history@.len() as int) == all);
    let ghost r0 = texts(rest@);
    rest.insert(0, url);
    assert(texts(rest@) =~= seq![url@] + r0);
    if rest.len() > 20 {
        rest.truncate(20);
        assert(texts(rest@) =~= (seq![url@] + r0).take(20));
    }
    rest
}

/// After opening `url` it heads the recent list, appears there once, and the
/// list holds at most twenty addresses.
pub proof fn lemma_history_front(history: Seq<Seq<char>>, url: Seq<char>)
    ensures
        history_after(history, url).len() <= 20,
        history_after(history, url).len() > 0 && history_after(history, url)[0] == url,
        forall|k: int| 0 < k < history_after(history, url).len() ==> #[trigger] history_after(history, url)[k] != url,
{
    crate::storage::lemma_without_has_no(history, url);
    let h = seq![url] + without(history, url);
    assert forall|k: int| 0 < k < history_after(history, url).len() implies #[trigger] history_after(history, url)[k] != url by {
        assert(history_after(history, url)[k] == h[k]);
        assert(h[k] == without(history, url)[k - 1]);
        assert(without(history, url).contains(h[k]));
    }
}

/// Whatever was typed, the address opened is an `http://` or `https://`
/// address, and typing it again opens the same address.
pub proof fn lemma_normalize_idempotent(input: Seq<char>)
    ensures
        has_prefix(normalized_url(input), "http://"@) || has_prefix(normalized_url(input), "https://"@),
        normalized_url(normalized_url(input)) == normalized_url(input),
{
    reveal_strlit("https://duckduckgo.com");
    reveal_strlit("https://duckduckgo.com/?q=");
    reveal_strlit("https://");
    reveal_strlit("http://");
    let t = trim(input);
    let r = normalized_url(input);
    lemma_trim_ends(input);
    if t.len() == 0 {
        assert(r.subrange(0, 8) =~= "https://"@);
        lemma_trim_fixed(r);
    } else if has_prefix(t, "http://"@) || has_prefix(t, "https://"@) {
        lemma_trim_fixed(r);
    } else if t.contains('.') && !t.contains(' ') {
        assert(r.subrange(0, 8) =~= "https://"@);
        assert(r.last() == t.last());
        lemma_trim_fixed(r);
    } else {
        let base = "https://duckduckgo.com/?q="@;
        let q = replace_char(t, ' ', '+');
        assert(r == base + q);
        assert(r.subrange(0, 8) =~= "https://"@);
        assert(q.last() == t.last());
        assert(r.last() == q.last());
        lemma_trim_fixed(r);
    }
}

/// A page open in a tab of the browser panel.
#[derive(Debug, Clone)]
pub struct BrowserTab {
    pub url: String,
    pub title: String,
}

/// The tab shows `url` and is titled by its host.
pub open spec fn tab_shows(t: BrowserTab, url: Seq<char>) -> bool {
    t.url@ == url && t.title@ == url_title(url)
}

/// Whether `active` names one of `len` tabs.
pub open spec fn names_tab(active: Option<usize>, len: nat) -> bool {
    active matches Some(i) && i < len
}

/// The tab showing `url`.
fn tab_for(url: String) -> (t: BrowserTab)
    ensures
        tab_shows(t, url@),
{
    let title = url_to_title(url.as_str());
    BrowserTab { url, title }
}

/// The `+` button: a new tab on the start page (the address of empty
/// input), which becomes the active one.
pub fn open_tab(tabs: &mut Vec<BrowserTab>, active: &mut Option<usize>)
    ensures
        final(tabs)@.len() == old(tabs)@.len() + 1,
        final(tabs)@.drop_last() == old(tabs)@,
        tab_shows(final(tabs)@.last(), normalized_url(Seq::<char>::empty())),
        *final(active) == Some(old(tabs)@.len() as usize),
{
    let url = normalize_url("");
    proof {
        reveal_strlit("");
    }
    let n = tabs.len();
    tabs.push(tab_for(url));
    *active = Some(n);
}

/// Enter in the address bar: what was typed (see `normalized_url`) opens in
/// the active tab, or in a new active tab when no tab is active; blank input
/// does nothing.  Returns whether a page was opened.
pub fn navigate(tabs: &mut Vec<BrowserTab>, active: &mut Option<usize>, input: &str) -> (opened:
    bool)
    ensures
        opened == (trim(input@).len() > 0),
        trim(input@).len() == 0 ==> final(tabs)@ == old(tabs)@ && *final(active) == *old(active),
        trim(input@).len() > 0 && names_tab(*old(active), old(tabs)@.len()) ==> {
            let i = old(active)->0 as int;
            &&& final(tabs)@.len() == old(tabs)@.len()
            &&& tab_shows(final(tabs)@[i], normalized_url(input@))
            &&& forall|j: int| 0 <= j < old(tabs)@.len() && j != i ==> final(tabs)@[j] == old(tabs)@[j]
            &&& *final(active) == *old(active)
        },
        trim(input@).len() > 0 && !names_tab(*old(active), old(tabs)@.len()) ==> {
            &&& final(tabs)@.len() == old(tabs)@.len() + 1
            &&& final(tabs)@.drop_last() == old(tabs)@
            &&& tab_shows(final(tabs)@.last(), normalized_url(input@))
            &&& *final(active) == Some(old(tabs)@.len() as usize)
        },
{
    let v = chars_of(input);
    let (a, b) = trim_bounds(&v, 0, v.len());
    assert(v@.subrange(0, v@.len() as int) == v@);
    if a == b {
        return false;
    }
    let tab = tab_for(normalize_url(input));
    match *active {
        Some(i) => {
            if i < tabs.len() {
                tabs.set(i, tab);
                return true;
            }
        },
        None => {},
    }
    let n = tabs.len();
    tabs.push(tab);
    *active = Some(n);
    true
}

} // verus!
