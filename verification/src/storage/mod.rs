//! How items are laid out on disk and rearranged: data directory, file
//! names, titles of imported files, merges of updates and sibling orders.

pub mod backup;
pub mod db;
pub mod files;

use vstd::prelude::*;
use crate::models::{CreateItemRequest, Item, ItemType, ItemView, Timestamp, UpdateItemRequest};
use crate::paths::{file_stem, file_stem_of, join, join_path, parent_of, parent_path};
use crate::time::{day_text, utc_now, utc_text};
use crate::text::{
    alphanumeric, ascii_alnum, ascii_lower, append, chars_of, copy_opt, opt_text, first_of, has_prefix, index_of_char_from, is_alphanumeric,
    lemma_first_of_at, lowercase, owned, push_char, string_of_range, to_lowercase, trim,
    trim_bounds,
};

verus! {

/// Position for reorder operations.
#[derive(Debug, Clone, Copy, PartialEq, Eq, Structural)]
pub enum ReorderPos {
    Before,
    After,
    Into,
}

/// The data directory of a workspace: `<workspace>/mote-data`.
pub fn data_dir(workspace_path: &str) -> (r: String)
    ensures
        r@ == join_path(workspace_path@, "mote-data"@),
{
    join(workspace_path, "mote-data")
}

/// A character of a slug: letters and digits stay, anything else becomes `-`.
pub open spec fn slug_char(c: char) -> char {
    if alphanumeric(c) {
        c
    } else {
        '-'
    }
}

/// Runs of `-` in `s` collapsed to one and dropped at both ends.  `started`
/// says whether a word was already written, `pending` whether a `-` waits
/// to be written before the next word.
pub open spec fn collapse_dashes(s: Seq<char>, started: bool, pending: bool) -> Seq<char>
    decreases s.len(),
{
    if s.len() == 0 {
        seq![]
    } else if s[0] == '-' {
        collapse_dashes(s.drop_first(), started, started)
    } else {
        (if pending {
            seq!['-', s[0]]
        } else {
            seq![s[0]]
        }) + collapse_dashes(s.drop_first(), true, false)
    }
}

/// The slug of a title: lower-cased, every character that is not a letter or
/// a digit turned into `-`, dashes collapsed and trimmed.
pub open spec fn slug(s: Seq<char>) -> Seq<char> {
    collapse_dashes(lowercase(s).map_values(|c: char| slug_char(c)), false, false)
}

/// The slug character of an ASCII character: lower-cased when it is a
/// letter or a digit, `-` otherwise.
pub open spec fn ascii_slug_char(c: char) -> char {
    if ascii_alnum(c) {
        ascii_lower(c)
    } else {
        '-'
    }
}

/// Turns a title into a file-name-safe slug.  For an ASCII title the slug is
/// also stated without the Unicode names: letters lower-cased, digits kept,
/// every other character a `-`, dashes collapsed and trimmed.
pub fn slugify(s: &str) -> (r: String)
    ensures
        r@ == slug(s@),
        vstd::utf8::is_ascii_chars(s@) ==> r@ == collapse_dashes(
            s@.map_values(|c: char| ascii_slug_char(c)),
            false,
            false,
        ),
{
    let lower = to_lowercase(s);
    let v = chars_of(lower.as_str());
    let ghost m = v@.map_values(|c: char| slug_char(c));
    let mut out = String::new();
    let mut started = false;
    let mut pending = false;
    let mut i: usize = 0;
    assert(m.subrange(0, m.len() as int) == m);
    while i < v.len()
        invariant
            i <= v@.len(),
            v@ == lowercase(s@),
            m == v@.map_values(|c: char| slug_char(c)),
            out@ + collapse_dashes(m.subrange(i as int, m.len() as int), started, pending)
                == slug(s@),
            vstd::utf8::is_ascii_chars(s@) ==> v@ == s@.map_values(|c: char| ascii_lower(c)),
            forall|j: int|
                0 <= j < i ==> ((v@[j] as u32) < 128 ==> (alphanumeric(v@[j]) <==> ascii_alnum(
                    #[trigger] v@[j],
                ))),
        decreases v@.len() - i,
    {
        let ghost rest = m.subrange(i as int, m.len() as int);
        assert(rest.drop_first() == m.subrange(i + 1, m.len() as int));
        let c = if is_alphanumeric(v[i]) {
            v[i]
        } else {
            '-'
        };
        assert(c == rest[0]);
        if c == '-' {
            pending = started;
        } else {
            if pending {
                push_char(&mut out, '-');
            }
            push_char(&mut out, c);
            started = true;
            pending = false;
        }
        i += 1;
    }
    assert(m.subrange(i as int, m.len() as int) =~= seq![]);
    assert(out@ + seq![] == out@);
    proof {
        if vstd::utf8::is_ascii_chars(s@) {
            assert forall|j: int| 0 <= j < m.len() implies m[j] == s@.map_values(
                |c: char| ascii_slug_char(c),
            )[j] by {
                let c = s@[j];
                assert(v@[j] == ascii_lower(c));
                assert('\0' <= c <= '\u{7f}');
                assert((v@[j] as u32) < 128);
                assert(ascii_alnum(ascii_lower(c)) == ascii_alnum(c));
            }
            assert(m =~= s@.map_values(|c: char| ascii_slug_char(c)));
        }
    }
    out
}

/// The shape of collapsed text: no `-` at its end, no two `-` in a row, and a
/// leading `-` only when a word came before.
pub proof fn lemma_collapse_shape(s: Seq<char>, started: bool, pending: bool)
    requires
        pending ==> started,
    ensures
        ({
            let r = collapse_dashes(s, started, pending);
            &&& r.len() > 0 ==> r.last() != '-'
            &&& r.len() > 0 && r[0] == '-' ==> started
            &&& forall|i: int| 0 <= i < r.len() - 1 ==> !(#[trigger] r[i] == '-' && r[i + 1] == '-')
        }),
    decreases s.len(),
{
    if s.len() == 0 {
    } else if s[0] == '-' {
        lemma_collapse_shape(s.drop_first(), started, started);
    } else {
        lemma_collapse_shape(s.drop_first(), true, false);
        let head = if pending {
            seq!['-', s[0]]
        } else {
            seq![s[0]]
        };
        let tail = collapse_dashes(s.drop_first(), true, false);
        let r = head + tail;
        assert(r == collapse_dashes(s, started, pending));
        assert forall|i: int| 0 <= i < r.len() - 1 implies !(#[trigger] r[i] == '-' && r[i + 1] == '-') by {
            if i + 1 < head.len() {
            } else if i + 1 == head.len() {
                assert(r[i] == s[0]);
            } else {
                assert(r[i] == tail[i - head.len()]);
                assert(r[i + 1] == tail[i + 1 - head.len()]);
            }
        }
        if tail.len() > 0 {
            assert(r.last() == tail.last());
        } else {
            assert(r.last() == s[0]);
        }
    }
}

/// A slug never begins or ends with `-` and never holds two `-` in a row.
pub proof fn lemma_slug_shape(s: Seq<char>)
    ensures
        slug(s).len() > 0 ==> slug(s)[0] != '-' && slug(s).last() != '-',
        forall|i: int|
            0 <= i < slug(s).len() - 1 ==> !(#[trigger] slug(s)[i] == '-' && slug(s)[i + 1] == '-'),
{
    lemma_collapse_shape(lowercase(s).map_values(|c: char| slug_char(c)), false, false);
}

/// The title held by one line of markdown: the text of a `# ` heading,
/// trimmed, when it is not empty.
pub open spec fn heading_of(line: Seq<char>) -> Option<Seq<char>> {
    let t = trim(line);
    if has_prefix(t, "# "@) && trim(t.subrange(2, t.len() as int)).len() > 0 {
        Some(trim(t.subrange(2, t.len() as int)))
    } else {
        None
    }
}

/// The first heading among the lines of `s`.
pub open spec fn first_heading(s: Seq<char>) -> Option<Seq<char>>
    decreases s.len(),
{
    let k = first_of(s, '\n') as int;
    match heading_of(s.subrange(0, k)) {
        Some(h) => Some(h),
        None => if k < s.len() {
            first_heading(s.subrange(k + 1, s.len() as int))
        } else {
            None
        },
    }
}

/// The title of an imported markdown file: its first `# ` heading, else the
/// file name without extension, else `Untitled`.
pub open spec fn title_of(content: Seq<char>, rel_path: Seq<char>) -> Seq<char> {
    match first_heading(content) {
        Some(h) => h,
        None => match file_stem(rel_path) {
            Some(st) => st,
            None => "Untitled"@,
        },
    }
}

proof fn lemma_first_of_bounds(t: Seq<char>, c: char)
    ensures
        first_of(t, c) <= t.len(),
    decreases t.len(),
{
    if t.len() > 0 && t[0] != c {
        lemma_first_of_bounds(t.drop_first(), c);
    }
}

/// The heading of the line `v[lo..hi]`, if it is one.
fn heading_in(v: &Vec<char>, lo: usize, hi: usize) -> (r: Option<String>)
    requires
        lo <= hi <= v@.len(),
    ensures
        match heading_of(v@.subrange(lo as int, hi as int)) {
            Some(h) => r is Some && r->0@ == h,
            None => r is None,
        },
{
    let (a, b) = trim_bounds(v, lo, hi);
    let ghost t = v@.subrange(a as int, b as int);
    proof {
        reveal_strlit("# ");
    }
    if b - a >= 2 && v[a] == '#' && v[a + 1] == ' ' {
        assert(t.subrange(0, 2) =~= "# "@);
        let (c, d) = trim_bounds(v, a + 2, b);
        assert(t.subrange(2, t.len() as int) == v@.subrange(a + 2, b as int));
        if d > c {
            return Some(string_of_range(v, c, d));
        }
        return None;
    }
    proof {
        if has_prefix(t, "# "@) {
            assert(t.subrange(0, 2)[0] == t[0]);
            assert(t.subrange(0, 2)[1] == t[1]);
        }
    }
    None
}

/// Extracts a title from markdown content (its first `# ` heading) or from
/// the file name.
pub fn title_from_content(content: &str, rel_path: &str) -> (r: String)
    ensures
        r@ == title_of(content@, rel_path@),
{
    let v = chars_of(content);
    let mut start: usize = 0;
    assert(v@.subrange(0, v@.len() as int) == v@);
    loop
        invariant
            start <= v@.len(),
            v@ == content@,
            first_heading(v@) == first_heading(v@.subrange(start as int, v@.len() as int)),
        ensures
            first_heading(content@) is None,
        decreases v@.len() - start,
    {
        let ghost sub = v@.subrange(start as int, v@.len() as int);
        let k = index_of_char_from(&v, '\n', start);
        assert(sub.subrange(0, k - start) == v@.subrange(start as int, k as int));
        match heading_in(&v, start, k) {
            Some(h) => {
                return h;
            },
            None => {},
        }
        if k == v.len() {
            break;
        }
        assert(sub.subrange(k - start + 1, sub.len() as int) == v@.subrange(k + 1, v@.len() as int));
        start = k + 1;
    }
    match file_stem_of(rel_path) {
        Some(st) => st,
        None => owned("Untitled"),
    }
}

/// The texts of a sequence of strings.
pub open spec fn texts(v: Seq<String>) -> Seq<Seq<char>> {
    v.map_values(|s: String| s@)
}

/// `s` without any occurrence of `x`, the rest in order.
pub open spec fn without(s: Seq<Seq<char>>, x: Seq<char>) -> Seq<Seq<char>>
    decreases s.len(),
{
    if s.len() == 0 {
        seq![]
    } else if s.last() == x {
        without(s.drop_last(), x)
    } else {
        without(s.drop_last(), x).push(s.last())
    }
}

/// The position of the first `x` in `s`.
pub open spec fn position_of(s: Seq<Seq<char>>, x: Seq<char>) -> Option<int>
    decreases s.len(),
{
    if s.len() == 0 {
        None
    } else if s[0] == x {
        Some(0)
    } else {
        match position_of(s.drop_first(), x) {
            Some(k) => Some(k + 1),
            None => None,
        }
    }
}

/// The sibling order after moving `item` relative to `target`: `item` is
/// taken out, then put first (`Into`), or just before or just after the
/// first `target` (at the front, or second, when `target` is not there),
/// never past the end.
pub open spec fn reordered(
    sibs: Seq<Seq<char>>,
    item: Seq<char>,
    target: Seq<char>,
    pos: ReorderPos,
) -> Seq<Seq<char>> {
    let rest = without(sibs, item);
    match pos {
        ReorderPos::Into => seq![item] + rest,
        _ => {
            let tp = match position_of(rest, target) {
                Some(k) => k,
                None => 0,
            };
            let at = if pos == ReorderPos::Before {
                tp
            } else {
                tp + 1
            };
            let at = if at < rest.len() {
                at
            } else {
                rest.len() as int
            };
            rest.insert(at, item)
        },
    }
}

proof fn lemma_position_at(s: Seq<Seq<char>>, x: Seq<char>, k: int)
    requires
        0 <= k < s.len(),
        s[k] == x,
        forall|j: int| 0 <= j < k ==> s[j] != x,
    ensures
        position_of(s, x) == Some(k),
    decreases k,
{
    if k > 0 {
        lemma_position_at(s.drop_first(), x, k - 1);
    }
}

proof fn lemma_position_none(s: Seq<Seq<char>>, x: Seq<char>)
    requires
        forall|j: int| 0 <= j < s.len() ==> s[j] != x,
    ensures
        position_of(s, x) is None,
    decreases s.len(),
{
    if s.len() > 0 {
        lemma_position_none(s.drop_first(), x);
    }
}

/// The new order of a parent's children when `item_id` is dropped on
/// `target_id` at `pos`.
pub fn reordered_siblings(
    siblings: &Vec<String>,
    item_id: &str,
    target_id: &str,
    pos: ReorderPos,
) -> (r: Vec<String>)
    ensures
        texts(r@) == reordered(texts(siblings@), item_id@, target_id@, pos),
{
    let item = owned(item_id);
    let target = owned(target_id);
    let ghost all = texts(siblings@);
    let mut rest: Vec<String> = Vec::new();
    let mut i: usize = 0;
    while i < siblings.len()
        invariant
            i <= siblings@.len(),
            all == texts(siblings@),
            item@ == item_id@,
            texts(rest@) == without(all.take(i as int), item@),
        decreases siblings@.len() - i,
    {
        assert(all.take(i + 1).drop_last() == all.take(i as int));
        assert(all.take(i + 1).last() == siblings@[i as int]@);
        if siblings[i] != item {
            let ghost before = rest@;
            rest.push(siblings[i].clone());
            assert(texts(rest@) == texts(before).push(siblings@[i as int]@));
        }
        i += 1;
    }
    assert(all.take(siblings@.len() as int) == all);
    let ghost r0 = texts(rest@);
    match pos {
        ReorderPos::Into => {
            rest.insert(0, item);
            assert(texts(rest@) =~= seq![item_id@] + r0);
            rest
        },
        _ => {
            let mut j: usize = 0;
            let mut found = false;
            while j < rest.len()
                invariant_except_break
                    !found,
                invariant
                    j <= rest@.len(),
                    r0 == texts(rest@),
                    target@ == target_id@,
                    forall|q: int| 0 <= q < j ==> r0[q] != target_id@,
                ensures
                    found ==> j < rest@.len() && r0[j as int] == target_id@ && forall|q: int|
                        0 <= q < j ==> r0[q] != target_id@,
                    !found ==> forall|q: int| 0 <= q < rest@.len() ==> r0[q] != target_id@,
                    r0 == texts(rest@),
                decreases rest@.len() - j,
            {
                if rest[j] == target {
                    found = true;
                    assert(r0[j as int] == rest@[j as int]@);
                    break;
                }
                assert(r0[j as int] == rest@[j as int]@);
                j += 1;
            }
            proof {
                if found {
                    lemma_position_at(r0, target_id@, j as int);
                } else {
                    lemma_position_none(r0, target_id@);
                }
            }
            let tp = if found {
                j
            } else {
                0
            };
            let n = rest.len();
            let at = if pos == ReorderPos::Before {
                if tp < n {
                    tp
                } else {
                    n
                }
            } else {
                if tp < n && tp + 1 < n {
                    tp + 1
                } else {
                    n
                }
            };
            rest.insert(at, item);
            assert(texts(rest@) =~= r0.insert(at as int, item_id@));
            rest
        },
    }
}

proof fn lemma_without_concat(a: Seq<Seq<char>>, b: Seq<Seq<char>>, x: Seq<char>)
    ensures
        without(a + b, x) == without(a, x) + without(b, x),
    decreases b.len(),
{
    if b.len() == 0 {
        assert(a + b =~= a);
        assert(without(a, x) + seq![] =~= without(a, x));
    } else {
        lemma_without_concat(a, b.drop_last(), x);
        assert((a + b).drop_last() =~= a + b.drop_last());
        assert((a + b).last() == b.last());
        if b.last() != x {
            assert(without(a, x) + without(b.drop_last(), x).push(b.last()) =~= (without(a, x)
                + without(b.drop_last(), x)).push(b.last()));
        }
    }
}

proof fn lemma_without_free(s: Seq<Seq<char>>, x: Seq<char>)
    requires
        !s.contains(x),
    ensures
        without(s, x) == s,
    decreases s.len(),
{
    if s.len() > 0 {
        assert(!s.drop_last().contains(x)) by {
            if s.drop_last().contains(x) {
                let k = choose|k: int| 0 <= k < s.drop_last().len() && s.drop_last()[k] == x;
                assert(s[k] == x);
            }
        }
        lemma_without_free(s.drop_last(), x);
        assert(s.last() != x) by {
            assert(s[s.len() - 1] == s.last());
        }
        assert(s.drop_last().push(s.last()) =~= s);
    }
}

/// Removing `x` leaves no `x` and keeps every other element.
pub proof fn lemma_without_has_no(s: Seq<Seq<char>>, x: Seq<char>)
    ensures
        !without(s, x).contains(x),
        forall|y: Seq<char>| y != x && s.contains(y) ==> without(s, x).contains(y),
    decreases s.len(),
{
    if s.len() > 0 {
        lemma_without_has_no(s.drop_last(), x);
        let w = without(s.drop_last(), x);
        if s.last() != x {
            assert forall|k: int| 0 <= k < w.push(s.last()).len() implies w.push(s.last())[k]
                != x by {
                if k < w.len() {
                    assert(w.push(s.last())[k] == w[k]);
                    assert(w.contains(w[k]));
                }
            }
        }
        assert forall|y: Seq<char>| y != x && s.contains(y) implies without(s, x).contains(y) by {
            let k = choose|k: int| 0 <= k < s.len() && s[k] == y;
            if k < s.len() - 1 {
                assert(s.drop_last()[k] == y);
                assert(s.drop_last().contains(y));
                let m = choose|m: int| 0 <= m < w.len() && w[m] == y;
                if s.last() != x {
                    assert(w.push(s.last())[m] == y);
                }
            } else {
                assert(w.push(s.last())[w.len() as int] == y);
            }
        }
    }
}

proof fn lemma_position_some(s: Seq<Seq<char>>, x: Seq<char>)
    requires
        s.contains(x),
    ensures
        position_of(s, x) matches Some(k) && 0 <= k < s.len() && s[k] == x,
    decreases s.len(),
{
    if s[0] != x {
        let k = choose|k: int| 0 <= k < s.len() && s[k] == x;
        assert(s.drop_first()[k - 1] == x);
        lemma_position_some(s.drop_first(), x);
    }
}

/// Dragging an item moves only that item: the others keep their order, and
/// the item is there exactly once afterwards.
pub proof fn lemma_reorder_moves_only_item(
    sibs: Seq<Seq<char>>,
    item: Seq<char>,
    target: Seq<char>,
    pos: ReorderPos,
)
    ensures
        without(reordered(sibs, item, target, pos), item) == without(sibs, item),
        reordered(sibs, item, target, pos).len() == without(sibs, item).len() + 1,
        reordered(sibs, item, target, pos).contains(item),
{
    let rest = without(sibs, item);
    let r = reordered(sibs, item, target, pos);
    lemma_without_has_no(sibs, item);
    lemma_without_free(rest, item);
    assert(without(seq![item], item) =~= seq![]) by {
        let one = seq![item];
        assert(one.last() == item);
        assert(one.drop_last() =~= Seq::<Seq<char>>::empty());
        assert(without(Seq::<Seq<char>>::empty(), item) =~= Seq::<Seq<char>>::empty());
        assert(without(one, item) == without(one.drop_last(), item));
    }
    match pos {
        ReorderPos::Into => {
            lemma_without_concat(seq![item], rest, item);
            assert(seq![] + rest =~= rest);
            assert(r[0] == item);
        },
        _ => {
            let tp = match position_of(rest, target) {
                Some(k) => k,
                None => 0,
            };
            let at = if pos == ReorderPos::Before {
                tp
            } else {
                tp + 1
            };
            let at = if at < rest.len() {
                at
            } else {
                rest.len() as int
            };
            if position_of(rest, target) is Some {
                assert(rest.contains(target)) by {
                    lemma_position_at_bounds(rest, target);
                }
            }
            lemma_position_at_bounds(rest, target);
            assert(0 <= at <= rest.len());
            assert(r =~= rest.take(at) + seq![item] + rest.skip(at));
            lemma_without_concat(rest.take(at) + seq![item], rest.skip(at), item);
            lemma_without_concat(rest.take(at), seq![item], item);
            assert(!rest.take(at).contains(item)) by {
                if rest.take(at).contains(item) {
                    let k = choose|k: int| 0 <= k < at && rest.take(at)[k] == item;
                    assert(rest[k] == item);
                }
            }
            assert(!rest.skip(at).contains(item)) by {
                if rest.skip(at).contains(item) {
                    let k = choose|k: int| 0 <= k < rest.len() - at && rest.skip(at)[k] == item;
                    assert(rest[k + at] == item);
                }
            }
            lemma_without_free(rest.take(at), item);
            lemma_without_free(rest.skip(at), item);
            assert(rest.take(at) + seq![] + rest.skip(at) =~= rest);
            assert(r[at] == item);
        },
    }
}

proof fn lemma_position_at_bounds(s: Seq<Seq<char>>, x: Seq<char>)
    ensures
        position_of(s, x) matches Some(k) ==> 0 <= k < s.len() && s[k] == x,
    decreases s.len(),
{
    if s.len() > 0 && s[0] != x {
        lemma_position_at_bounds(s.drop_first(), x);
    }
}

/// Where a dragged item lands: first among the children of the target for
/// `Into`; just before the target for `Before` and just after it for
/// `After`, whenever the target is among the siblings.
pub proof fn lemma_reorder_places_item(
    sibs: Seq<Seq<char>>,
    item: Seq<char>,
    target: Seq<char>,
    pos: ReorderPos,
)
    ensures
        pos == ReorderPos::Into ==> reordered(sibs, item, target, pos)[0] == item,
        pos == ReorderPos::Before && target != item && sibs.contains(target) ==> exists|k: int|
            0 <= k < reordered(sibs, item, target, pos).len() - 1 && #[trigger] reordered(
                sibs,
                item,
                target,
                pos,
            )[k] == item && reordered(sibs, item, target, pos)[k + 1] == target,
        pos == ReorderPos::After && target != item && sibs.contains(target) ==> exists|k: int|
            0 <= k < reordered(sibs, item, target, pos).len() - 1 && #[trigger] reordered(
                sibs,
                item,
                target,
                pos,
            )[k] == target && reordered(sibs, item, target, pos)[k + 1] == item,
{
    let rest = without(sibs, item);
    let r = reordered(sibs, item, target, pos);
    if target != item && sibs.contains(target) && pos != ReorderPos::Into {
        lemma_without_has_no(sibs, item);
        assert(rest.contains(target));
        lemma_position_some(rest, target);
        let tp = position_of(rest, target)->0;
        if pos == ReorderPos::Before {
            assert(r =~= rest.insert(tp, item));
            assert(r[tp] == item);
            assert(r[tp + 1] == target);
        } else {
            if tp + 1 < rest.len() {
                assert(r =~= rest.insert(tp + 1, item));
            } else {
                assert(r =~= rest.insert(rest.len() as int, item));
            }
            assert(r[tp] == target);
            assert(r[tp + 1] == item);
        }
    }
}

/// The `sort_order` of the sibling at `index` once a parent's children are
/// renumbered after a reorder: 0, 100, 200, …
pub fn sibling_sort_order(index: usize) -> (r: i32)
    requires
        index * 100 <= i32::MAX,
    ensures
        r == index * 100,
{
    (index as i32) * 100
}

/// Whether an update changes what is written to disk (title or content).
pub fn has_content_change(req: &UpdateItemRequest) -> (b: bool)
    ensures
        b == (req.content is Some || req.title is Some),
{
    req.content.is_some() || req.title.is_some()
}

/// The item after an update: each field given in `req` replaces the item's,
/// the others stay, and the item is stamped as updated at `now`.
pub fn apply_update(item: Item, req: UpdateItemRequest, now: Timestamp) -> (r: Item)
    ensures
        r@.id == item@.id,
        r@.title == (match req.title {
            Some(t) => t@,
            None => item@.title,
        }),
        r@.item_type == item@.item_type,
        r@.parent_id == (match req.parent_id {
            Some(p) => Some(p@),
            None => item@.parent_id,
        }),
        r@.sort_order == (match req.sort_order {
            Some(o) => o,
            None => item@.sort_order,
        }),
        r@.content == (match req.content {
            Some(c) => Some(c@),
            None => item@.content,
        }),
        r@.status == (match req.status {
            Some(st) => Some(st),
            None => item@.status,
        }),
        r@.priority == (match req.priority {
            Some(p) => Some(p),
            None => item@.priority,
        }),
        r@.file_path == item@.file_path,
        r@.created_at == item@.created_at,
        r@.updated_at == now,
        r@.deleted == item@.deleted,
{
    let mut item = item;
    if let Some(title) = req.title {
        item.title = title;
    }
    if let Some(parent_id) = req.parent_id {
        item.parent_id = Some(parent_id);
    }
    if let Some(sort_order) = req.sort_order {
        item.sort_order = sort_order;
    }
    if let Some(status) = req.status {
        item.status = Some(status);
    }
    if let Some(priority) = req.priority {
        item.priority = Some(priority);
    }
    if let Some(content) = req.content {
        item.content = Some(content);
    }
    item.updated_at = now;
    item
}

/// The item recorded for a create request: what was asked for, at the top
/// of its parent (`sort_order` 0), not deleted, created and updated at `now`.
pub open spec fn created(
    id: Seq<char>,
    req: CreateItemRequest,
    file_path: Option<Seq<char>>,
    now: Timestamp,
) -> ItemView {
    ItemView {
        id,
        title: req.title@,
        item_type: req.item_type,
        parent_id: opt_text(req.parent_id),
        sort_order: 0,
        content: opt_text(req.content),
        status: req.status,
        priority: req.priority,
        file_path,
        created_at: now,
        updated_at: now,
        deleted: false,
    }
}

/// A newly created item (see `created`).
pub fn new_item(id: String, req: CreateItemRequest, file_path: Option<String>, now: Timestamp) -> (r:
    Item)
    ensures
        r@ == created(id@, req, opt_text(file_path), now),
{
    Item {
        id,
        title: req.title,
        item_type: req.item_type,
        parent_id: req.parent_id,
        sort_order: 0,
        content: req.content,
        status: req.status,
        priority: req.priority,
        file_path,
        created_at: now,
        updated_at: now,
        deleted: false,
    }
}

/// The first eight characters of an item id, used to keep file names unique.
pub fn short_id(id: &str) -> (r: String)
    requires
        id@.len() >= 8,
        vstd::utf8::is_ascii_chars(id@),
    ensures
        r@ == id@.subrange(0, 8),
{
    let v = chars_of(id);
    string_of_range(&v, 0, 8)
}

/// `<slug>-<short id>.md`.
pub open spec fn file_name_for(title: Seq<char>, short: Seq<char>) -> Seq<char> {
    slug(title) + "-"@ + short + ".md"@
}

/// Where the file of a new item goes, relative to the data directory:
/// a document goes beside its parent's file (under `docs/` when the parent
/// has none or there is no parent), a note under `notes/` with its date, a
/// project under `projects/`; tasks and folders have no file.
pub open spec fn planned_path(
    item_type: ItemType,
    title: Seq<char>,
    short: Seq<char>,
    date: Seq<char>,
    parent_file: Option<Seq<char>>,
) -> Option<Seq<char>> {
    match item_type {
        ItemType::Document => {
            let fname = file_name_for(title, short);
            match parent_file {
                Some(p) => Some(
                    join_path(
                        match parent_path(p) {
                            Some(d) => d,
                            None => "docs"@,
                        },
                        fname,
                    ),
                ),
                None => Some("docs/"@ + fname),
            }
        },
        ItemType::Note => Some("notes/"@ + date + "-"@ + slug(title) + "-"@ + short + ".md"@),
        ItemType::Project => Some("projects/"@ + file_name_for(title, short)),
        _ => None,
    }
}

/// `<slug of title>-<short>.md`.
fn file_name_string(title: &str, short: &str) -> (r: String)
    ensures
        r@ == file_name_for(title@, short@),
{
    let mut f = slugify(title);
    append(&mut f, "-");
    append(&mut f, short);
    append(&mut f, ".md");
    f
}

/// The relative file path of a new item (see `planned_path`).  `date` is
/// the creation day as `YYYY-MM-DD`; `parent_file` is the file of the
/// parent item when it has one.
pub fn planned_file_path(
    item_type: ItemType,
    title: &str,
    short: &str,
    date: &str,
    parent_file: Option<&str>,
) -> (r: Option<String>)
    ensures
        opt_text(r) == planned_path(
            item_type,
            title@,
            short@,
            date@,
            match parent_file {
                Some(p) => Some(p@),
                None => None,
            },
        ),
{
    match item_type {
        ItemType::Document => {
            let fname = file_name_string(title, short);
            match parent_file {
                Some(p) => {
                    let dir = match parent_of(p) {
                        Some(d) => d,
                        None => owned("docs"),
                    };
                    Some(join(dir.as_str(), fname.as_str()))
                },
                None => {
                    let mut r = owned("docs/");
                    append(&mut r, fname.as_str());
                    Some(r)
                },
            }
        },
        ItemType::Note => {
            let mut r = owned("notes/");
            append(&mut r, date);
            append(&mut r, "-");
            let sl = slugify(title);
            append(&mut r, sl.as_str());
            append(&mut r, "-");
            append(&mut r, short);
            append(&mut r, ".md");
            Some(r)
        },
        ItemType::Project => {
            let fname = file_name_string(title, short);
            let mut r = owned("projects/");
            append(&mut r, fname.as_str());
            Some(r)
        },
        _ => None,
    }
}

/// The item a create request becomes, given its id, the instant it is made
/// and the file of its parent (when it has one): its file is planned from
/// the title, the id's first eight characters and the day of that instant
/// (see `planned_path`); `None` when the instant has no calendar day.
pub open spec fn creation(
    req: CreateItemRequest,
    id: Seq<char>,
    now: Timestamp,
    parent_file: Option<Seq<char>>,
) -> Option<ItemView> {
    match utc_text(now.secs, now.nanos, "%Y-%m-%d"@) {
        Some(date) => Some(
            created(
                id,
                req,
                planned_path(req.item_type, req.title@, id.subrange(0, 8), date, parent_file),
                now,
            ),
        ),
        None => None,
    }
}

/// The item recorded for `req` (see `creation`).
pub fn item_for(req: CreateItemRequest, id: String, now: Timestamp, parent_file: Option<&str>) -> (r:
    Option<Item>)
    requires
        id@.len() >= 8,
        vstd::utf8::is_ascii_chars(id@),
    ensures
        match creation(
            req,
            id@,
            now,
            match parent_file {
                Some(p) => Some(p@),
                None => None,
            },
        ) {
            Some(v) => r is Some && r->0@ == v,
            None => r is None,
        },
{
    let date = match day_text(now) {
        Some(d) => d,
        None => {
            return None;
        },
    };
    let short = short_id(id.as_str());
    let file_path = planned_file_path(
        req.item_type,
        req.title.as_str(),
        short.as_str(),
        date.as_str(),
        parent_file,
    );
    Some(new_item(id, req, file_path, now))
}

/// Whether `c` is a lowercase hexadecimal digit.
pub open spec fn is_hex_lower(c: char) -> bool {
    ('0' <= c && c <= '9') || ('a' <= c && c <= 'f')
}

/// The hyphenated text of a UUID: 36 characters, hyphens at positions 8,
/// 13, 18 and 23, lowercase hexadecimal digits elsewhere.
pub open spec fn is_uuid_text(s: Seq<char>) -> bool {
    &&& s.len() == 36
    &&& forall|i: int|
        0 <= i < 36 ==> if i == 8 || i == 13 || i == 18 || i == 23 {
            #[trigger] s[i] == '-'
        } else {
            is_hex_lower(s[i])
        }
}

/// The hyphenated text of a version-4 (random) UUID of the RFC 4122
/// variant: the version digit (position 14) is `4`, the variant digit
/// (position 19) one of `8`, `9`, `a`, `b`.
pub open spec fn is_uuid_v4_text(s: Seq<char>) -> bool {
    &&& is_uuid_text(s)
    &&& s[14] == '4'
    &&& (s[19] == '8' || s[19] == '9' || s[19] == 'a' || s[19] == 'b')
}

/// `uuid::Uuid::new_v4` written out with `to_string`: a random UUID in its
/// hyphenated lowercase form, with the version and variant bits that
/// `new_v4` sets (see `is_uuid_v4_text`).  Which id comes out is left open.
#[verifier::external_body]
fn random_id() -> (r: String)
    ensures
        is_uuid_v4_text(r@),
{
    uuid::Uuid::new_v4().to_string()
}

/// A new item for `req`: a fresh random id, made at the current instant of
/// the clock (see `creation`).  Which id and which instant are left open;
/// the current instant always has a calendar day, so an item is always made.
pub fn prepare_item(req: CreateItemRequest, parent_file: Option<&str>) -> (r: Option<Item>)
    ensures
        r is Some,
        r matches Some(item) ==> is_uuid_v4_text(item@.id) && creation(
            req,
            item@.id,
            item@.created_at,
            match parent_file {
                Some(p) => Some(p@),
                None => None,
            },
        ) == Some(item@),
{
    let id = random_id();
    let ghost idv = id@;
    assert forall|i: int| 0 <= i < idv.len() implies '\0' <= #[trigger] idv[i] <= '\u{7f}' by {
        assert(i == 8 || i == 13 || i == 18 || i == 23 || is_hex_lower(idv[i]));
    }
    let now = utc_now();
    item_for(req, id, now, parent_file)
}

/// Whether some item of `tree` is backed by the file `p`.
pub open spec fn is_tracked(tree: Seq<Item>, p: Seq<char>) -> bool {
    exists|i: int| 0 <= i < tree.len() && #[trigger] tree[i]@.file_path == Some(p)
}

/// The files of `listing` that no item of `tree` is backed by, in order.
pub open spec fn untracked(listing: Seq<Seq<char>>, tree: Seq<Item>) -> Seq<Seq<char>>
    decreases listing.len(),
{
    if listing.len() == 0 {
        seq![]
    } else if is_tracked(tree, listing.last()) {
        untracked(listing.drop_last(), tree)
    } else {
        untracked(listing.drop_last(), tree).push(listing.last())
    }
}

/// The files a sync imports are exactly the listed files that no item is
/// backed by.
proof fn lemma_untracked_members(listing: Seq<Seq<char>>, tree: Seq<Item>)
    ensures
        forall|p: Seq<char>|
            untracked(listing, tree).contains(p) <==> listing.contains(p) && !is_tracked(tree, p),
    decreases listing.len(),
{
    if listing.len() > 0 {
        let init = listing.drop_last();
        lemma_untracked_members(init, tree);
        assert forall|p: Seq<char>| listing.contains(p) <==> init.contains(p) || p == listing.last() by {
            if listing.contains(p) {
                let k = choose|k: int| 0 <= k < listing.len() && listing[k] == p;
                if k < listing.len() - 1 {
                    assert(init[k] == p);
                }
            }
            if init.contains(p) {
                let k = choose|k: int| 0 <= k < init.len() && init[k] == p;
                assert(listing[k] == p);
            }
            if p == listing.last() {
                assert(listing[listing.len() - 1] == p);
            }
        }
        let rest = untracked(init, tree);
        assert forall|p: Seq<char>| rest.push(listing.last()).contains(p) <==> rest.contains(p) || p == listing.last() by {
            let q = rest.push(listing.last());
            if q.contains(p) {
                let k = choose|k: int| 0 <= k < q.len() && q[k] == p;
                if k < rest.len() {
                    assert(rest[k] == p);
                }
            }
            if rest.contains(p) {
                let k = choose|k: int| 0 <= k < rest.len() && rest[k] == p;
                assert(q[k] == p);
            }
            if p == listing.last() {
                assert(q[rest.len() as int] == p);
            }
        }
    }
}

/// A second sync imports nothing: once every file the first sync found is
/// backed by an item, and every file backed before still is, no listed file
/// is left untracked.
pub proof fn lemma_sync_idempotent(listing: Seq<Seq<char>>, tree: Seq<Item>, after: Seq<Item>)
    requires
        forall|p: Seq<char>| is_tracked(tree, p) ==> is_tracked(after, p),
        forall|p: Seq<char>| untracked(listing, tree).contains(p) ==> is_tracked(after, p),
    ensures
        untracked(listing, after) == Seq::<Seq<char>>::empty(),
{
    lemma_untracked_members(listing, tree);
    lemma_untracked_members(listing, after);
    let r = untracked(listing, after);
    if r.len() > 0 {
        let p = r[0];
        assert(r.contains(p));
        assert(listing.contains(p) && !is_tracked(after, p));
        if is_tracked(tree, p) {
            assert(is_tracked(after, p));
        } else {
            assert(untracked(listing, tree).contains(p));
            assert(is_tracked(after, p));
        }
    }
    assert(r =~= Seq::<Seq<char>>::empty());
}

/// Whether `p` is the file of some item of `tree`.
fn tracked_in(tree: &Vec<Item>, p: &String) -> (b: bool)
    ensures
        b == is_tracked(tree@, p@),
{
    let mut i: usize = 0;
    while i < tree.len()
        invariant
            i <= tree@.len(),
            forall|j: int| 0 <= j < i ==> #[trigger] tree@[j]@.file_path != Some(p@),
        decreases tree@.len() - i,
    {
        match &tree[i].file_path {
            Some(fp) => {
                if *fp == *p {
                    assert(tree@[i as int]@.file_path == Some(p@));
                    return true;
                }
            },
            None => {},
        }
        i += 1;
    }
    false
}

/// The markdown files found on disk that the workspace does not know yet.
pub fn untracked_files(tree: &Vec<Item>, listing: &Vec<String>) -> (r: Vec<String>)
    ensures
        texts(r@) == untracked(texts(listing@), tree@),
{
    let ghost all = texts(listing@);
    let mut r: Vec<String> = Vec::new();
    let mut i: usize = 0;
    while i < listing.len()
        invariant
            i <= listing@.len(),
            all == texts(listing@),
            texts(r@) == untracked(all.take(i as int), tree@),
        decreases listing@.len() - i,
    {
        assert(all.take(i + 1).drop_last() == all.take(i as int));
        assert(all.take(i + 1).last() == listing@[i as int]@);
        if !tracked_in(tree, &listing[i]) {
            let ghost before = r@;
            r.push(listing[i].clone());
            assert(texts(r@) == texts(before).push(listing@[i as int]@));
        }
        i += 1;
    }
    assert(all.take(listing@.len() as int) == all);
    r
}

} // verus!
