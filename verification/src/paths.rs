//! Workspace paths as `/`-separated text.
//!
//! A path's components are its root (when it starts with `/`) followed by
//! its segments: the pieces between separators, leaving out empty pieces
//! (repeated or trailing separators) and `.` pieces, except a `.` that
//! begins a relative path (the current directory, which `std::path` keeps).  Joining, parents, file
//! names and containment are all stated over these components.

use vstd::prelude::*;
use crate::text::{append, chars_of, owned, push_char, string_of_range};

verus! {

/// Whether `s` is an absolute path.
pub open spec fn is_abs(s: Seq<char>) -> bool {
    s.len() > 0 && s[0] == '/'
}

/// Number of characters before the first `/` of `s` (its length if none).
pub open spec fn first_slash(s: Seq<char>) -> nat
    decreases s.len(),
{
    if s.len() == 0 {
        0
    } else if s[0] == '/' {
        0
    } else {
        1 + first_slash(s.drop_first())
    }
}

/// A piece between separators, starting at position `start`, that counts
/// as a segment: not empty, and not `.` unless it begins the path.
pub open spec fn keep_segment(g: Seq<char>, start: int) -> bool {
    g.len() > 0 && (g != seq!['.'] || start == 0)
}

/// Positions `[a, b)` of the segments of `s` that start at or after `start`,
/// where `start` is `0` or just after a separator.
pub open spec fn seg_ranges_from(s: Seq<char>, start: int) -> Seq<(int, int)>
    decreases s.len() - start,
{
    if start < 0 || start > s.len() {
        seq![]
    } else {
        let k = start + first_slash(s.subrange(start, s.len() as int));
        let rest = if k < s.len() {
            seg_ranges_from(s, k + 1)
        } else {
            seq![]
        };
        if keep_segment(s.subrange(start, k), start) {
            seq![(start, k)] + rest
        } else {
            rest
        }
    }
}

/// Positions of the segments of `s`.
pub open spec fn seg_ranges(s: Seq<char>) -> Seq<(int, int)> {
    seg_ranges_from(s, 0)
}

/// The segments of `s`.
pub open spec fn segments(s: Seq<char>) -> Seq<Seq<char>> {
    seg_ranges(s).map_values(|p: (int, int)| s.subrange(p.0, p.1))
}

/// The components of `s`: `/` for the root of an absolute path, then its segments.
pub open spec fn components(s: Seq<char>) -> Seq<Seq<char>> {
    if is_abs(s) {
        seq![seq!['/']] + segments(s)
    } else {
        segments(s)
    }
}

/// `path` starts with the components of `root` (`Path::starts_with`).
pub open spec fn within(path: Seq<char>, root: Seq<char>) -> bool {
    let p = components(path);
    let r = components(root);
    r.len() <= p.len() && forall|i: int| 0 <= i < r.len() ==> p[i] == r[i]
}

/// `rel` joined onto `base` (`Path::join`): an absolute `rel` replaces
/// `base`; otherwise a separator is put between them when `base` is not
/// empty and does not already end with one.
pub open spec fn join_path(base: Seq<char>, rel: Seq<char>) -> Seq<char> {
    if is_abs(rel) || base.len() == 0 {
        rel
    } else if base.last() == '/' {
        base + rel
    } else {
        base + seq!['/'] + rel
    }
}

/// The path without its last segment (`Path::parent`); `None` for a path
/// with no segment.
pub open spec fn parent_path(s: Seq<char>) -> Option<Seq<char>> {
    let r = seg_ranges(s);
    if r.len() == 0 {
        None
    } else {
        let e = if r.len() >= 2 {
            r[r.len() - 2].1
        } else if is_abs(s) {
            1
        } else {
            0
        };
        Some(s.subrange(0, e))
    }
}

/// The last segment of `s` unless it is `.` or `..` (`Path::file_name`).
pub open spec fn file_name(s: Seq<char>) -> Option<Seq<char>> {
    let g = segments(s);
    if g.len() > 0 && g.last() != seq!['.', '.'] && g.last() != seq!['.'] {
        Some(g.last())
    } else {
        None
    }
}

/// Position of the last `.` in `name`, if any.
pub open spec fn last_dot(name: Seq<char>) -> Option<int>
    decreases name.len(),
{
    if name.len() == 0 {
        None
    } else if name.last() == '.' {
        Some(name.len() - 1)
    } else {
        last_dot(name.drop_last())
    }
}

/// A file name without its extension (`Path::file_stem` on a file name).
pub open spec fn stem_of(name: Seq<char>) -> Seq<char> {
    match last_dot(name) {
        Some(k) => if k > 0 {
            name.subrange(0, k)
        } else {
            name
        },
        None => name,
    }
}

/// The extension of a file name, if it has one (`Path::extension`).
pub open spec fn extension_of(name: Seq<char>) -> Option<Seq<char>> {
    match last_dot(name) {
        Some(k) => if k > 0 {
            Some(name.subrange(k + 1, name.len() as int))
        } else {
            None
        },
        None => None,
    }
}

/// `Path::file_stem`.
pub open spec fn file_stem(s: Seq<char>) -> Option<Seq<char>> {
    match file_name(s) {
        Some(n) => Some(stem_of(n)),
        None => None,
    }
}

/// `Path::extension`.
pub open spec fn extension(s: Seq<char>) -> Option<Seq<char>> {
    match file_name(s) {
        Some(n) => extension_of(n),
        None => None,
    }
}

proof fn lemma_first_slash_at(t: Seq<char>, k: int)
    requires
        0 <= k <= t.len(),
        forall|j: int| 0 <= j < k ==> t[j] != '/',
        k == t.len() || t[k] == '/',
    ensures
        first_slash(t) == k,
    decreases k,
{
    if k > 0 {
        lemma_first_slash_at(t.drop_first(), k - 1);
    }
}

/// The segment positions of `v`, in order.
pub fn segment_bounds(v: &Vec<char>) -> (r: Vec<(usize, usize)>)
    ensures
        r@.len() == seg_ranges(v@).len(),
        forall|i: int|
            0 <= i < r@.len() ==> r@[i].0 == seg_ranges(v@)[i].0 && r@[i].1 == seg_ranges(
                v@,
            )[i].1,
        forall|i: int| 0 <= i < r@.len() ==> (#[trigger] r@[i]).0 <= r@[i].1 <= v@.len(),
{
    let ghost s = v@;
    let mut r: Vec<(usize, usize)> = Vec::new();
    let mut start: usize = 0;
    let mut i: usize = 0;
    loop
        invariant
            s == v@,
            start <= i <= v@.len(),
            forall|j: int| start <= j < i ==> s[j] != '/',
            seg_ranges(s) == r@.map_values(|p: (usize, usize)| (p.0 as int, p.1 as int))
                + seg_ranges_from(s, start as int),
            forall|j: int| 0 <= j < r@.len() ==> (#[trigger] r@[j]).0 <= r@[j].1 <= v@.len(),
        decreases v@.len() - i,
    {
        if i == v.len() || v[i] == '/' {
            let ghost t = s.subrange(start as int, s.len() as int);
            proof {
                lemma_first_slash_at(t, i - start);
            }
            let ghost rest = if i < s.len() {
                seg_ranges_from(s, i + 1)
            } else {
                seq![]
            };
            let ghost old_r = r@;
            assert(s.subrange(start as int, i as int) == v@.subrange(start as int, i as int));
            let keep = i > start && !(i == start + 1 && v[start] == '.' && start > 0);
            assert(keep == keep_segment(s.subrange(start as int, i as int), start as int)) by {
                if i == start + 1 {
                    if v[start as int] == '.' {
                        assert(s.subrange(start as int, i as int) =~= seq!['.']);
                    } else {
                        assert(s.subrange(start as int, i as int)[0] != seq!['.'][0]);
                    }
                }
            }
            if keep {
                r.push((start, i));
                assert(r@.map_values(|p: (usize, usize)| (p.0 as int, p.1 as int)) =~= old_r.map_values(
                    |p: (usize, usize)| (p.0 as int, p.1 as int),
                ) + seq![(start as int, i as int)]);
            }
            if i == v.len() {
                assert(rest =~= seq![]);
                assert(r@.map_values(|p: (usize, usize)| (p.0 as int, p.1 as int)) + seq![]
                    =~= r@.map_values(|p: (usize, usize)| (p.0 as int, p.1 as int)));
                assert forall|j: int| 0 <= j < r@.len() implies r@[j].0 == seg_ranges(s)[j].0
                    && r@[j].1 == seg_ranges(s)[j].1 by {
                    assert(seg_ranges(s)[j] == r@.map_values(
                        |p: (usize, usize)| (p.0 as int, p.1 as int),
                    )[j]);
                }
                return r;
            }
            start = i + 1;
        }
        i += 1;
    }
}

/// Whether `s` is an absolute path.
pub fn is_absolute(v: &Vec<char>) -> (b: bool)
    ensures
        b == is_abs(v@),
{
    v.len() > 0 && v[0] == '/'
}

/// `rel` joined onto `base` (`Path::join`).
pub fn join(base: &str, rel: &str) -> (r: String)
    ensures
        r@ == join_path(base@, rel@),
{
    let b = chars_of(base);
    let rv = chars_of(rel);
    if is_absolute(&rv) || b.len() == 0 {
        return owned(rel);
    }
    let mut out = owned(base);
    if b[b.len() - 1] != '/' {
        push_char(&mut out, '/');
    }
    append(&mut out, rel);
    out
}

/// Whether the texts `v[a0..a1]` and `w[b0..b1]` are equal.
fn same_range(v: &Vec<char>, a0: usize, a1: usize, w: &Vec<char>, b0: usize, b1: usize) -> (b: bool)
    requires
        a0 <= a1 <= v@.len(),
        b0 <= b1 <= w@.len(),
    ensures
        b == (v@.subrange(a0 as int, a1 as int) == w@.subrange(b0 as int, b1 as int)),
{
    if a1 - a0 != b1 - b0 {
        assert(v@.subrange(a0 as int, a1 as int).len() != w@.subrange(b0 as int, b1 as int).len());
        return false;
    }
    let n = a1 - a0;
    let ghost sv = v@.subrange(a0 as int, a1 as int);
    let ghost sw = w@.subrange(b0 as int, b1 as int);
    let mut k: usize = 0;
    while k < n
        invariant
            k <= n,
            n == a1 - a0,
            n == b1 - b0,
            a1 <= v@.len(),
            b1 <= w@.len(),
            sv == v@.subrange(a0 as int, a1 as int),
            sw == w@.subrange(b0 as int, b1 as int),
            forall|j: int| 0 <= j < k ==> sv[j] == sw[j],
        decreases n - k,
    {
        assert(sv[k as int] == v@[a0 + k]);
        assert(sw[k as int] == w@[b0 + k]);
        if v[a0 + k] != w[b0 + k] {
            return false;
        }
        k += 1;
    }
    assert(v@.subrange(a0 as int, a1 as int) =~= w@.subrange(b0 as int, b1 as int));
    true
}

/// Whether `path` starts with the components of `root` (`Path::starts_with`).
pub fn path_within(path: &str, root: &str) -> (b: bool)
    ensures
        b == within(path@, root@),
{
    let p = chars_of(path);
    let q = chars_of(root);
    let pa = is_absolute(&p);
    let qa = is_absolute(&q);
    if pa != qa {
        if qa {
            // the root component of `root` is not a segment of `path`
            proof {
                lemma_components(path@);
                lemma_components(root@);
                if components(path@).len() > 0 {
                    lemma_segment_has_no_slash(path@, 0);
                    let rr = seg_ranges(path@)[0];
                    assert(components(path@)[0] == path@.subrange(rr.0, rr.1));
                    assert(components(path@)[0][0] == path@[rr.0]);
                    assert(components(path@)[0] != components(root@)[0]);
                }
            }
            return false;
        } else {
            // a relative `root` matches an absolute `path` only when it has no segment
            let rs = segment_bounds(&q);
            if rs.len() == 0 {
                proof {
                    lemma_components(root@);
                }
                return true;
            }
            proof {
                lemma_components(path@);
                lemma_components(root@);
                lemma_segment_has_no_slash(root@, 0);
                let rr = seg_ranges(root@)[0];
                assert(components(root@)[0] == root@.subrange(rr.0, rr.1));
                assert(components(root@)[0][0] == root@[rr.0]);
                assert(components(path@)[0] != components(root@)[0]);
            }
            return false;
        }
    }
    let ps = segment_bounds(&p);
    let qs = segment_bounds(&q);
    if qs.len() > ps.len() {
        return false;
    }
    let mut i: usize = 0;
    while i < qs.len()
        invariant
            p@ == path@,
            q@ == root@,
            pa == is_abs(p@),
            qa == is_abs(q@),
            pa == qa,
            i <= qs@.len() <= ps@.len(),
            ps@.len() == seg_ranges(p@).len(),
            qs@.len() == seg_ranges(q@).len(),
            forall|j: int|
                0 <= j < ps@.len() ==> ps@[j].0 == seg_ranges(p@)[j].0 && ps@[j].1 == seg_ranges(
                    p@,
                )[j].1,
            forall|j: int|
                0 <= j < qs@.len() ==> qs@[j].0 == seg_ranges(q@)[j].0 && qs@[j].1 == seg_ranges(
                    q@,
                )[j].1,
            forall|j: int| 0 <= j < ps@.len() ==> (#[trigger] ps@[j]).0 <= ps@[j].1 <= p@.len(),
            forall|j: int| 0 <= j < qs@.len() ==> (#[trigger] qs@[j]).0 <= qs@[j].1 <= q@.len(),
            forall|j: int| 0 <= j < i ==> segments(p@)[j] == segments(q@)[j],
        decreases qs@.len() - i,
    {
        let (a0, a1) = ps[i];
        let (b0, b1) = qs[i];
        proof {
            lemma_components(p@);
            lemma_components(q@);
        }
        if !same_range(&p, a0, a1, &q, b0, b1) {
            assert(segments(p@)[i as int] != segments(q@)[i as int]);
            proof {
                let off = if pa {
                    1int
                } else {
                    0int
                };
                assert(components(p@)[i + off] == segments(p@)[i as int]);
                assert(components(q@)[i + off] == segments(q@)[i as int]);
            }
            return false;
        }
        i += 1;
    }
    proof {
        lemma_components(p@);
        lemma_components(q@);
        if pa {
            assert forall|j: int| 0 <= j < components(q@).len() implies components(p@)[j]
                == components(q@)[j] by {
                if j > 0 {
                    assert(components(p@)[(j - 1) + 1] == segments(p@)[j - 1]);
                    assert(components(q@)[(j - 1) + 1] == segments(q@)[j - 1]);
                }
            }
        } else {
            assert forall|j: int| 0 <= j < components(q@).len() implies components(p@)[j]
                == components(q@)[j] by {
                assert(components(p@)[j + 0] == segments(p@)[j]);
                assert(components(q@)[j + 0] == segments(q@)[j]);
            }
        }
    }
    true
}


/// The path without its last segment (`Path::parent`).
pub fn parent_of(s: &str) -> (r: Option<String>)
    ensures
        match parent_path(s@) {
            Some(t) => r is Some && r->0@ == t,
            None => r is None,
        },
{
    let v = chars_of(s);
    let rs = segment_bounds(&v);
    let n = rs.len();
    if n == 0 {
        return None;
    }
    let e = if n >= 2 {
        rs[n - 2].1
    } else if is_absolute(&v) {
        1
    } else {
        0
    };
    proof {
        if n >= 2 {
            assert(rs@[n - 2].1 == seg_ranges(v@)[n - 2].1);
        } else if is_abs(v@) {
            assert(v@.len() >= 1);
        }
    }
    Some(string_of_range(&v, 0, e))
}

/// Position of the last `.` in `v[lo..hi]`, relative to `lo`.
fn last_dot_in(v: &Vec<char>, lo: usize, hi: usize) -> (r: Option<usize>)
    requires
        lo <= hi <= v@.len(),
    ensures
        match last_dot(v@.subrange(lo as int, hi as int)) {
            Some(k) => r is Some && r->0 as int == k,
            None => r is None,
        },
        r matches Some(k) ==> k < hi - lo,
{
    let ghost full = v@.subrange(lo as int, hi as int);
    proof {
        lemma_last_dot_bounds(full);
    }
    let mut j = hi;
    while j > lo
        invariant
            lo <= j <= hi <= v@.len(),
            full == v@.subrange(lo as int, hi as int),
            last_dot(full) == last_dot(v@.subrange(lo as int, j as int)),
        decreases j - lo,
    {
        let ghost t = v@.subrange(lo as int, j as int);
        assert(t.last() == v@[j - 1]);
        if v[j - 1] == '.' {
            proof {
                lemma_last_dot_bounds(full);
            }
            return Some(j - 1 - lo);
        }
        assert(t.drop_last() == v@.subrange(lo as int, j - 1));
        j -= 1;
    }
    None
}

/// The last segment of `s` unless it is `.` or `..` (`Path::file_name`).
pub fn file_name_of(s: &str) -> (r: Option<String>)
    ensures
        match file_name(s@) {
            Some(t) => r is Some && r->0@ == t,
            None => r is None,
        },
{
    let v = chars_of(s);
    let rs = segment_bounds(&v);
    let n = rs.len();
    proof {
        lemma_components(v@);
    }
    if n == 0 {
        return None;
    }
    let (a, b) = rs[n - 1];
    assert(segments(v@).last() == v@.subrange(a as int, b as int));
    if b - a == 2 && v[a] == '.' && v[a + 1] == '.' {
        assert(v@.subrange(a as int, b as int) =~= seq!['.', '.']);
        return None;
    }
    if b - a == 1 && v[a] == '.' {
        assert(v@.subrange(a as int, b as int) =~= seq!['.']);
        return None;
    }
    proof {
        if v@.subrange(a as int, b as int) == seq!['.', '.'] {
            assert(v@.subrange(a as int, b as int)[0] == v@[a as int]);
            assert(v@.subrange(a as int, b as int)[1] == v@[a + 1]);
        }
        if v@.subrange(a as int, b as int) == seq!['.'] {
            assert(v@.subrange(a as int, b as int)[0] == v@[a as int]);
        }
    }
    Some(string_of_range(&v, a, b))
}

/// A file name without its extension.
pub fn stem(name: &str) -> (r: String)
    ensures
        r@ == stem_of(name@),
{
    let v = chars_of(name);
    assert(v@.subrange(0, v@.len() as int) == v@);
    match last_dot_in(&v, 0, v.len()) {
        Some(k) => {
            if k > 0 {
                string_of_range(&v, 0, k)
            } else {
                owned(name)
            }
        },
        None => owned(name),
    }
}

/// The extension of a file name, if any.
pub fn extension_of_name(name: &str) -> (r: Option<String>)
    ensures
        match extension_of(name@) {
            Some(t) => r is Some && r->0@ == t,
            None => r is None,
        },
{
    let v = chars_of(name);
    assert(v@.subrange(0, v@.len() as int) == v@);
    match last_dot_in(&v, 0, v.len()) {
        Some(k) => {
            if k > 0 {
                Some(string_of_range(&v, k + 1, v.len()))
            } else {
                None
            }
        },
        None => None,
    }
}

/// `Path::file_stem`.
pub fn file_stem_of(s: &str) -> (r: Option<String>)
    ensures
        match file_stem(s@) {
            Some(t) => r is Some && r->0@ == t,
            None => r is None,
        },
{
    match file_name_of(s) {
        Some(n) => Some(stem(n.as_str())),
        None => None,
    }
}

/// `Path::extension`.
pub fn extension_of_path(s: &str) -> (r: Option<String>)
    ensures
        match extension(s@) {
            Some(t) => r is Some && r->0@ == t,
            None => r is None,
        },
{
    match file_name_of(s) {
        Some(n) => extension_of_name(n.as_str()),
        None => None,
    }
}

/// A last dot lies inside the name and is a dot.
pub proof fn lemma_last_dot_bounds(name: Seq<char>)
    ensures
        last_dot(name) matches Some(k) ==> 0 <= k < name.len() && name[k] == '.',
    decreases name.len(),
{
    if name.len() > 0 && name.last() != '.' {
        lemma_last_dot_bounds(name.drop_last());
    }
}

/// How components and segments relate to segment positions.
pub proof fn lemma_components(s: Seq<char>)
    ensures
        segments(s).len() == seg_ranges(s).len(),
        forall|i: int|
            0 <= i < seg_ranges(s).len() ==> #[trigger] segments(s)[i] == s.subrange(
                seg_ranges(s)[i].0,
                seg_ranges(s)[i].1,
            ),
        components(s).len() == (if is_abs(s) {
            1int
        } else {
            0int
        }) + segments(s).len(),
        is_abs(s) ==> components(s)[0] == seq!['/'],
        forall|i: int|
            0 <= i < segments(s).len() ==> components(s)[i + (if is_abs(s) {
                1int
            } else {
                0int
            })] == #[trigger] segments(s)[i],
{
}

/// No segment holds a separator.
pub proof fn lemma_segment_has_no_slash(s: Seq<char>, i: int)
    requires
        0 <= i < seg_ranges(s).len(),
    ensures
        0 <= seg_ranges(s)[i].0 < seg_ranges(s)[i].1 <= s.len(),
        forall|j: int| seg_ranges(s)[i].0 <= j < seg_ranges(s)[i].1 ==> s[j] != '/',
{
    lemma_ranges_from_no_slash(s, 0, i);
}

proof fn lemma_first_slash_bounds(t: Seq<char>)
    ensures
        first_slash(t) <= t.len(),
        forall|j: int| 0 <= j < first_slash(t) ==> t[j] != '/',
        first_slash(t) < t.len() ==> t[first_slash(t) as int] == '/',
    decreases t.len(),
{
    if t.len() > 0 && t[0] != '/' {
        lemma_first_slash_bounds(t.drop_first());
        assert forall|j: int| 0 <= j < first_slash(t) implies t[j] != '/' by {
            if j > 0 {
                assert(t[j] == t.drop_first()[j - 1]);
            }
        }
    }
}

proof fn lemma_ranges_from_no_slash(s: Seq<char>, start: int, i: int)
    requires
        0 <= i < seg_ranges_from(s, start).len(),
    ensures
        start <= seg_ranges_from(s, start)[i].0 < seg_ranges_from(s, start)[i].1 <= s.len(),
        forall|j: int|
            seg_ranges_from(s, start)[i].0 <= j < seg_ranges_from(s, start)[i].1 ==> s[j] != '/',
    decreases s.len() - start,
{
    let t = s.subrange(start, s.len() as int);
    lemma_first_slash_bounds(t);
    let k = start + first_slash(t);
    let rest = if k < s.len() {
        seg_ranges_from(s, k + 1)
    } else {
        seq![]
    };
    assert forall|j: int| start <= j < k implies s[j] != '/' by {
        assert(s[j] == t[j - start]);
    }
    if keep_segment(s.subrange(start, k), start) {
        if i > 0 {
            lemma_ranges_from_no_slash(s, k + 1, i - 1);
        }
    } else {
        lemma_ranges_from_no_slash(s, k + 1, i);
    }
}

proof fn lemma_ranges_split(a: Seq<char>, b: Seq<char>, start: int)
    requires
        0 <= start <= a.len(),
    ensures
        seg_ranges_from(a + seq!['/'] + b, start) == seg_ranges_from(a, start) + seg_ranges_from(
            a + seq!['/'] + b,
            a.len() + 1int,
        ),
    decreases a.len() - start,
{
    let u = a + seq!['/'] + b;
    let ta = a.subrange(start, a.len() as int);
    let tu = u.subrange(start, u.len() as int);
    lemma_first_slash_bounds(ta);
    let ka = start + first_slash(ta);
    assert forall|j: int| 0 <= j < first_slash(ta) implies tu[j] != '/' by {
        assert(tu[j] == ta[j]);
    }
    if ka < a.len() {
        assert(tu[first_slash(ta) as int] == ta[first_slash(ta) as int]);
        lemma_first_slash_at(tu, first_slash(ta) as int);
        assert(u.subrange(start, ka) == a.subrange(start, ka));
        lemma_ranges_split(a, b, ka + 1);
        let ra = seg_ranges_from(a, ka + 1);
        let rest = seg_ranges_from(u, a.len() + 1int);
        if keep_segment(a.subrange(start, ka), start) {
            assert(seq![(start, ka)] + (ra + rest) =~= (seq![(start, ka)] + ra) + rest);
        }
    } else {
        assert(tu[a.len() - start] == '/');
        lemma_first_slash_at(tu, a.len() - start);
        assert(u.subrange(start, a.len() as int) == a.subrange(start, a.len() as int));
        let rest = seg_ranges_from(u, a.len() + 1int);
        assert(seq![] + rest =~= rest);
        if keep_segment(a.subrange(start, a.len() as int), start) {
            assert(seq![(start, a.len() as int)] + seq![] =~= seq![(start, a.len() as int)]);
        }
    }
}

proof fn lemma_segments_prefix(a: Seq<char>, b: Seq<char>)
    ensures
        ({
            let u = a + seq!['/'] + b;
            &&& segments(a).len() <= segments(u).len()
            &&& forall|i: int| 0 <= i < segments(a).len() ==> segments(u)[i] == segments(a)[i]
        }),
{
    let u = a + seq!['/'] + b;
    lemma_ranges_split(a, b, 0);
    lemma_components(a);
    lemma_components(u);
    assert forall|i: int| 0 <= i < segments(a).len() implies segments(u)[i] == segments(a)[i] by {
        let r = seg_ranges(a)[i];
        assert(seg_ranges(u)[i] == r);
        lemma_segment_has_no_slash(a, i);
        assert(u.subrange(r.0, r.1) =~= a.subrange(r.0, r.1));
    }
}

/// A relative path joined onto a directory lies inside that directory: the
/// joined path starts with the directory's components.  (Whether it stays
/// inside on disk also depends on `..` and links, which the file manager
/// checks separately.)
pub proof fn lemma_join_within(base: Seq<char>, rel: Seq<char>)
    requires
        !is_abs(rel),
    ensures
        within(join_path(base, rel), base),
{
    let j = join_path(base, rel);
    lemma_components(base);
    lemma_components(j);
    if base.len() == 0 {
        assert(seg_ranges(base) =~= seq![]);
    } else if base.last() == '/' {
        let a = base.drop_last();
        assert(base =~= a + seq!['/'] + Seq::<char>::empty());
        assert(j =~= a + seq!['/'] + rel);
        lemma_segments_prefix(a, rel);
        lemma_ranges_split(a, Seq::<char>::empty(), 0);
        lemma_components(a);
        assert(seg_ranges_from(base, a.len() + 1int) =~= seq![]) by {
            assert(base.subrange(base.len() as int, base.len() as int) =~= Seq::<char>::empty());
        }
        assert(seg_ranges(base) =~= seg_ranges(a));
        assert forall|i: int| 0 <= i < segments(base).len() implies segments(base)[i]
            == segments(a)[i] by {
            let r = seg_ranges(a)[i];
            lemma_segment_has_no_slash(a, i);
            assert(base.subrange(r.0, r.1) =~= a.subrange(r.0, r.1));
        }
        assert(is_abs(j) == is_abs(base)) by {
            assert(j[0] == base[0]);
        }
    } else {
        assert(j =~= base + seq!['/'] + rel);
        lemma_segments_prefix(base, rel);
        assert(is_abs(j) == is_abs(base)) by {
            assert(j[0] == base[0]);
        }
    }
    let p = components(j);
    let r = components(base);
    if is_abs(base) {
        assert forall|i: int| 0 <= i < r.len() implies p[i] == r[i] by {
            if i > 0 {
                assert(p[(i - 1) + 1] == segments(j)[i - 1]);
                assert(r[(i - 1) + 1] == segments(base)[i - 1]);
            }
        }
    } else {
        assert forall|i: int| 0 <= i < r.len() implies p[i] == r[i] by {
            assert(p[i + 0] == segments(j)[i]);
            assert(r[i + 0] == segments(base)[i]);
        }
    }
}

} // verus!
