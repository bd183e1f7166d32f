//! Character-level string helpers with exact specifications.
//!
//! Text is reasoned about as `Seq<char>`, the view that vstd gives to `str`
//! and `String`.  The helpers here build strings and compare, search and trim
//! character sequences.

use vstd::prelude::*;

verus! {

/// Unicode `White_Space`: the characters that `char::is_whitespace`,
/// `str::trim` and `str::split_whitespace` treat as blank.
pub open spec fn is_ws(c: char) -> bool {
    ||| ('\u{9}' <= c && c <= '\u{d}')
    ||| c == ' '
    ||| c == '\u{85}'
    ||| c == '\u{a0}'
    ||| c == '\u{1680}'
    ||| ('\u{2000}' <= c && c <= '\u{200a}')
    ||| c == '\u{2028}'
    ||| c == '\u{2029}'
    ||| c == '\u{202f}'
    ||| c == '\u{205f}'
    ||| c == '\u{3000}'
}

/// `s` with its leading blanks removed.
pub open spec fn trim_start(s: Seq<char>) -> Seq<char>
    decreases s.len(),
{
    if s.len() > 0 && is_ws(s[0]) {
        trim_start(s.drop_first())
    } else {
        s
    }
}

/// `s` with its trailing blanks removed.
pub open spec fn trim_end(s: Seq<char>) -> Seq<char>
    decreases s.len(),
{
    if s.len() > 0 && is_ws(s.last()) {
        trim_end(s.drop_last())
    } else {
        s
    }
}

/// `s` with blanks removed at both ends, as `str::trim` does.
pub open spec fn trim(s: Seq<char>) -> Seq<char> {
    trim_end(trim_start(s))
}

/// `p` is a prefix of `s`.
pub open spec fn has_prefix(s: Seq<char>, p: Seq<char>) -> bool {
    p.len() <= s.len() && s.subrange(0, p.len() as int) == p
}

/// `p` is a suffix of `s`.
pub open spec fn has_suffix(s: Seq<char>, p: Seq<char>) -> bool {
    p.len() <= s.len() && s.subrange(s.len() - p.len(), s.len() as int) == p
}

/// `p` occurs in `s` at position `i`.
pub open spec fn occurs_at(s: Seq<char>, p: Seq<char>, i: int) -> bool {
    0 <= i && i + p.len() <= s.len() && s.subrange(i, i + p.len()) == p
}

/// `p` occurs somewhere in `s`.
pub open spec fn contains_text(s: Seq<char>, p: Seq<char>) -> bool {
    exists|i: int| occurs_at(s, p, i)
}

/// Whether `c` is one of the blanks of `is_ws`.
pub fn is_whitespace(c: char) -> (b: bool)
    ensures
        b == is_ws(c),
{
    ('\u{9}' <= c && c <= '\u{d}') || c == ' ' || c == '\u{85}' || c == '\u{a0}' || c
        == '\u{1680}' || ('\u{2000}' <= c && c <= '\u{200a}') || c == '\u{2028}' || c == '\u{2029}'
        || c == '\u{202f}' || c == '\u{205f}' || c == '\u{3000}'
}

/// The characters of `s`, in order.
pub fn chars_of(s: &str) -> (v: Vec<char>)
    ensures
        v@ == s@,
{
    let mut v: Vec<char> = Vec::new();
    for c in it: s.chars()
        invariant
            v@ == it.seq().take(it.index()),
            it.seq() == s@,
    {
        v.push(c);
    }
    v
}

/// Appends one character to a string (`String::push`).
#[verifier::external_body]
pub(crate) fn push_char(s: &mut String, c: char)
    ensures
        final(s)@ == old(s)@.push(c),
{
    s.push(c);
}

/// The string made of the characters `v[lo..hi]`.
pub fn string_of_range(v: &Vec<char>, lo: usize, hi: usize) -> (s: String)
    requires
        lo <= hi <= v@.len(),
    ensures
        s@ == v@.subrange(lo as int, hi as int),
{
    let mut s = String::new();
    let mut i = lo;
    while i < hi
        invariant
            lo <= i <= hi <= v@.len(),
            s@ == v@.subrange(lo as int, i as int),
        decreases hi - i,
    {
        push_char(&mut s, v[i]);
        assert(v@.subrange(lo as int, i + 1) == v@.subrange(lo as int, i as int).push(v@[i as int]));
        i += 1;
    }
    s
}

/// The string made of the characters of `v`.
pub fn string_of(v: &Vec<char>) -> (s: String)
    ensures
        s@ == v@,
{
    let s = string_of_range(v, 0, v.len());
    assert(v@.subrange(0, v@.len() as int) == v@);
    s
}

/// A copy of `s` as an owned string.
pub fn owned(s: &str) -> (r: String)
    ensures
        r@ == s@,
{
    let v = chars_of(s);
    string_of(&v)
}

/// Appends `t` to `s`.
pub fn append(s: &mut String, t: &str)
    ensures
        final(s)@ == old(s)@ + t@,
{
    let v = chars_of(t);
    let mut i: usize = 0;
    while i < v.len()
        invariant
            i <= v@.len(),
            v@ == t@,
            s@ == old(s)@ + v@.subrange(0, i as int),
        decreases v@.len() - i,
    {
        push_char(s, v[i]);
        assert(v@.subrange(0, i + 1) == v@.subrange(0, i as int).push(v@[i as int]));
        i += 1;
    }
    assert(v@.subrange(0, v@.len() as int) == v@);
}

/// Whether the characters of `s` and `t` are the same.
pub fn same_text(s: &Vec<char>, t: &Vec<char>) -> (b: bool)
    ensures
        b == (s@ == t@),
{
    if s.len() != t.len() {
        return false;
    }
    let mut i: usize = 0;
    while i < s.len()
        invariant
            i <= s@.len(),
            s@.len() == t@.len(),
            forall|j: int| 0 <= j < i ==> s@[j] == t@[j],
        decreases s@.len() - i,
    {
        if s[i] != t[i] {
            return false;
        }
        i += 1;
    }
    assert(s@ =~= t@);
    true
}

/// Number of characters of `s` before the first `c` (its length if none).
pub open spec fn first_of(s: Seq<char>, c: char) -> nat
    decreases s.len(),
{
    if s.len() == 0 {
        0
    } else if s[0] == c {
        0
    } else {
        1 + first_of(s.drop_first(), c)
    }
}

/// `first_of` is the position of the first `c`.
pub proof fn lemma_first_of_at(t: Seq<char>, c: char, k: int)
    requires
        0 <= k <= t.len(),
        forall|j: int| 0 <= j < k ==> t[j] != c,
        k == t.len() || t[k] == c,
    ensures
        first_of(t, c) == k,
    decreases k,
{
    if k > 0 {
        lemma_first_of_at(t.drop_first(), c, k - 1);
    }
}

/// The position of the first `c` at or after `from` in `v` (its length if none).
pub fn index_of_char_from(v: &Vec<char>, c: char, from: usize) -> (k: usize)
    requires
        from <= v@.len(),
    ensures
        from <= k <= v@.len(),
        k == from + first_of(v@.subrange(from as int, v@.len() as int), c),
        k < v@.len() ==> v@[k as int] == c,
{
    let mut k = from;
    while k < v.len() && v[k] != c
        invariant
            from <= k <= v@.len(),
            forall|j: int| from <= j < k ==> v@[j] != c,
        decreases v@.len() - k,
    {
        k += 1;
    }
    proof {
        let t = v@.subrange(from as int, v@.len() as int);
        assert forall|j: int| 0 <= j < k - from implies t[j] != c by {
            assert(t[j] == v@[from + j]);
        }
        lemma_first_of_at(t, c, k - from);
    }
    k
}

/// Unicode lower-casing of a text (`str::to_lowercase`).
pub uninterp spec fn lowercase(s: Seq<char>) -> Seq<char>;

/// Whether a character is a letter or a digit in Unicode (`char::is_alphanumeric`).
pub uninterp spec fn alphanumeric(c: char) -> bool;

/// The ASCII letters and digits.
pub open spec fn ascii_alnum(c: char) -> bool {
    ('0' <= c && c <= '9') || ('a' <= c && c <= 'z') || ('A' <= c && c <= 'Z')
}

/// An ASCII upper-case letter mapped to lower case; other characters unchanged.
pub open spec fn ascii_lower(c: char) -> char {
    if 'A' <= c && c <= 'Z' {
        ((c as u32) + 32) as char
    } else {
        c
    }
}

/// `str::to_lowercase`: lower-cases `s` by the Unicode case mapping.  Its
/// result is named `lowercase`; for a text made only of ASCII characters the
/// contract also states that each letter A-Z becomes a-z and every other
/// character stays.  Nothing more is stated for other characters.
#[verifier::external_body]
pub(crate) fn to_lowercase(s: &str) -> (r: String)
    ensures
        r@ == lowercase(s@),
        vstd::utf8::is_ascii_chars(s@) ==> r@ == s@.map_values(|c: char| ascii_lower(c)),
{
    s.to_lowercase()
}

/// `char::is_alphanumeric`: whether `c` is alphabetic or numeric in Unicode.
/// Its result is named `alphanumeric`; for an ASCII character the contract
/// states that exactly the digits and the letters A-Z, a-z qualify.
#[verifier::external_body]
pub(crate) fn is_alphanumeric(c: char) -> (b: bool)
    ensures
        b == alphanumeric(c),
        (c as u32) < 128 ==> (b <==> ascii_alnum(c)),
{
    c.is_alphanumeric()
}

/// Whether the characters of `v` spell `lit`.
pub fn is_text(v: &Vec<char>, lit: &str) -> (b: bool)
    ensures
        b == (v@ == lit@),
{
    let w = chars_of(lit);
    same_text(v, &w)
}

/// The text of an optional string.
pub open spec fn opt_text(o: Option<String>) -> Option<Seq<char>> {
    match o {
        Some(s) => Some(s@),
        None => None,
    }
}

/// A copy of an optional string.
pub fn copy_opt(o: &Option<String>) -> (r: Option<String>)
    ensures
        opt_text(r) == opt_text(*o),
{
    match o {
        Some(s) => Some(owned(s.as_str())),
        None => None,
    }
}

/// Whether `p` occurs in `s` at position `i`.
pub fn matches_at(s: &Vec<char>, p: &Vec<char>, i: usize) -> (b: bool)
    ensures
        b == occurs_at(s@, p@, i as int),
{
    if i > s.len() || p.len() > s.len() - i {
        return false;
    }
    let mut k: usize = 0;
    while k < p.len()
        invariant
            i + p@.len() <= s@.len(),
            s@.len() == s.len(),
            k <= p@.len(),
            forall|j: int| 0 <= j < k ==> s@[i + j] == p@[j],
        decreases p@.len() - k,
    {
        if s[i + k] != p[k] {
            assert(s@.subrange(i as int, i + p@.len())[k as int] != p@[k as int]);
            return false;
        }
        k += 1;
    }
    assert(s@.subrange(i as int, i + p@.len()) =~= p@);
    true
}

/// Whether `s` begins with `p`.
pub fn starts_with(s: &Vec<char>, p: &Vec<char>) -> (b: bool)
    ensures
        b == has_prefix(s@, p@),
{
    matches_at(s, p, 0)
}

/// Whether `s` ends with `p`.
pub fn ends_with(s: &Vec<char>, p: &Vec<char>) -> (b: bool)
    ensures
        b == has_suffix(s@, p@),
{
    if p.len() > s.len() {
        return false;
    }
    matches_at(s, p, s.len() - p.len())
}

/// The first position at or after `from` where `p` occurs in `s`, if any.
pub fn find_from(s: &Vec<char>, p: &Vec<char>, from: usize) -> (r: Option<usize>)
    ensures
        match r {
            Some(i) => from <= i && occurs_at(s@, p@, i as int) && forall|j: int|
                from <= j < i ==> !occurs_at(s@, p@, j),
            None => forall|j: int| from <= j ==> !occurs_at(s@, p@, j),
        },
{
    let mut i = from;
    while i <= s.len()
        invariant
            from <= i,
            forall|j: int| from <= j < i ==> !occurs_at(s@, p@, j),
        ensures
            forall|j: int| from <= j <= s@.len() ==> !occurs_at(s@, p@, j),
        decreases s@.len() + 1 - i,
    {
        if matches_at(s, p, i) {
            return Some(i);
        }
        if i == s.len() {
            break;
        }
        i += 1;
    }
    None
}

/// The first position where `p` occurs in `s`, if any.
pub fn find(s: &Vec<char>, p: &Vec<char>) -> (r: Option<usize>)
    ensures
        match r {
            Some(i) => occurs_at(s@, p@, i as int) && forall|j: int|
                0 <= j < i ==> !occurs_at(s@, p@, j),
            None => !contains_text(s@, p@),
        },
{
    find_from(s, p, 0)
}

/// Whether `p` occurs in `s`.
pub fn contains(s: &Vec<char>, p: &Vec<char>) -> (b: bool)
    ensures
        b == contains_text(s@, p@),
{
    find(s, p).is_some()
}

/// Whether the character `c` occurs in `s`.
pub fn contains_char(s: &Vec<char>, c: char) -> (b: bool)
    ensures
        b == s@.contains(c),
{
    let mut i: usize = 0;
    while i < s.len()
        invariant
            i <= s@.len(),
            forall|j: int| 0 <= j < i ==> s@[j] != c,
        decreases s@.len() - i,
    {
        if s[i] == c {
            return true;
        }
        i += 1;
    }
    false
}

/// Trimming at the front drops exactly the leading blanks.
pub proof fn lemma_trim_start_at(s: Seq<char>, i: int)
    requires
        0 <= i <= s.len(),
        forall|j: int| 0 <= j < i ==> is_ws(s[j]),
        i == s.len() || !is_ws(s[i]),
    ensures
        trim_start(s) == s.subrange(i, s.len() as int),
    decreases i,
{
    if i == 0 {
        assert(s.subrange(0, s.len() as int) == s);
    } else {
        let t = s.drop_first();
        lemma_trim_start_at(t, i - 1);
        assert(t.subrange(i - 1, t.len() as int) == s.subrange(i, s.len() as int));
    }
}

/// Trimming at the back drops exactly the trailing blanks.
pub proof fn lemma_trim_end_at(s: Seq<char>, k: int)
    requires
        0 <= k <= s.len(),
        forall|j: int| k <= j < s.len() ==> is_ws(s[j]),
        k == 0 || !is_ws(s[k - 1]),
    ensures
        trim_end(s) == s.subrange(0, k),
    decreases s.len() - k,
{
    if k == s.len() {
        assert(s.subrange(0, s.len() as int) == s);
    } else {
        let t = s.drop_last();
        lemma_trim_end_at(t, k);
        assert(t.subrange(0, k) == s.subrange(0, k));
    }
}

/// What `trim_start` leaves begins with a character that is not blank.
proof fn lemma_trim_start_head(s: Seq<char>)
    ensures
        trim_start(s).len() > 0 ==> !is_ws(trim_start(s)[0]),
    decreases s.len(),
{
    if s.len() > 0 && is_ws(s[0]) {
        lemma_trim_start_head(s.drop_first());
    }
}

/// What `trim_end` leaves is a prefix of `s` that ends with a character that
/// is not blank.
proof fn lemma_trim_end_shape(s: Seq<char>)
    ensures
        trim_end(s).len() <= s.len(),
        trim_end(s) == s.subrange(0, trim_end(s).len() as int),
        trim_end(s).len() > 0 ==> !is_ws(trim_end(s).last()),
    decreases s.len(),
{
    if s.len() > 0 && is_ws(s.last()) {
        let t = s.drop_last();
        lemma_trim_end_shape(t);
        assert(t.subrange(0, trim_end(t).len() as int) == s.subrange(0, trim_end(t).len() as int));
    } else {
        assert(s.subrange(0, s.len() as int) == s);
    }
}

/// Trimmed text that is not empty begins and ends with characters that are
/// not blank.
pub proof fn lemma_trim_ends(s: Seq<char>)
    ensures
        trim(s).len() > 0 ==> !is_ws(trim(s)[0]) && !is_ws(trim(s).last()),
{
    lemma_trim_start_head(s);
    lemma_trim_end_shape(trim_start(s));
    let t = trim_start(s);
    if trim(s).len() > 0 {
        assert(trim(s)[0] == t.subrange(0, trim(s).len() as int)[0]);
    }
}

/// Text that neither begins nor ends with a blank is its own trim.
pub proof fn lemma_trim_fixed(s: Seq<char>)
    requires
        s.len() > 0,
        !is_ws(s[0]),
        !is_ws(s.last()),
    ensures
        trim(s) == s,
{
    lemma_trim_start_at(s, 0);
    assert(s.subrange(0, s.len() as int) == s);
    lemma_trim_end_at(s, s.len() as int);
}

/// The bounds `[a, b)` of `trim(v[lo..hi])` inside `v`.
pub fn trim_bounds(v: &Vec<char>, lo: usize, hi: usize) -> (r: (usize, usize))
    requires
        lo <= hi <= v@.len(),
    ensures
        lo <= r.0 <= r.1 <= hi,
        v@.subrange(r.0 as int, r.1 as int) == trim(v@.subrange(lo as int, hi as int)),
{
    let ghost s = v@.subrange(lo as int, hi as int);
    let mut a = lo;
    while a < hi && is_whitespace(v[a])
        invariant
            lo <= a <= hi <= v@.len(),
            s == v@.subrange(lo as int, hi as int),
            forall|j: int| lo <= j < a ==> is_ws(v@[j]),
        decreases hi - a,
    {
        a += 1;
    }
    proof {
        lemma_trim_start_at(s, a - lo);
    }
    let ghost u = v@.subrange(a as int, hi as int);
    assert(trim_start(s) == u);
    let mut b = hi;
    while b > a && is_whitespace(v[b - 1])
        invariant
            a <= b <= hi,
            hi <= v@.len(),
            u == v@.subrange(a as int, hi as int),
            forall|j: int| b <= j < hi ==> is_ws(v@[j]),
        decreases b - a,
    {
        b -= 1;
    }
    proof {
        lemma_trim_end_at(u, b - a);
        assert(u.subrange(0, b - a) == v@.subrange(a as int, b as int));
    }
    (a, b)
}

/// `s` with blanks removed at both ends (`str::trim`).
pub fn trimmed(s: &str) -> (r: String)
    ensures
        r@ == trim(s@),
{
    let v = chars_of(s);
    let (a, b) = trim_bounds(&v, 0, v.len());
    assert(v@.subrange(0, v@.len() as int) == v@);
    string_of_range(&v, a, b)
}

} // verus!
