//! Character-sequence helpers shared by the rest of the library: string
//! conversion, Unicode white space and case mapping, trimming, substring
//! search, joining and decimal formatting.

use vstd::prelude::*;

verus! {

/// The characters of `s`, in order.
pub fn chars_of(s: &str) -> (v: Vec<char>)
    ensures
        v@ == s@,
{
    let mut v: Vec<char> = Vec::new();
    for c in it: s.chars()
        invariant
            v@ == it.seq().take(it.index() as int),
    {
        v.push(c);
    }
    assert(v@ =~= s@);
    v
}

/// Builds an owned string from a character sequence (collects the
/// characters with `FromIterator<&char> for String`).
#[verifier::external_body]
pub(crate) fn string_of(v: &[char]) -> (s: String)
    ensures
        s@ == v@,
{
    v.iter().collect::<String>()
}


/// Whether `c` has the Unicode `White_Space` property, as `char::is_whitespace`
/// reports it: the controls U+0009 to U+000D, the space, U+0085, U+00A0,
/// U+1680, U+2000 to U+200A, the line and paragraph separators U+2028 and
/// U+2029, U+202F, U+205F and U+3000.
pub open spec fn is_white_space(c: char) -> bool {
    ||| '\u{9}' <= c <= '\u{d}'
    ||| c == ' '
    ||| c == '\u{85}'
    ||| c == '\u{a0}'
    ||| c == '\u{1680}'
    ||| '\u{2000}' <= c <= '\u{200a}'
    ||| c == '\u{2028}'
    ||| c == '\u{2029}'
    ||| c == '\u{202f}'
    ||| c == '\u{205f}'
    ||| c == '\u{3000}'
}

/// Calls `char::is_whitespace`, which answers `is_white_space(c)`.
#[verifier::external_body]
pub(crate) fn char_is_whitespace(c: char) -> (r: bool)
    ensures
        r == is_white_space(c),
{
    c.is_whitespace()
}

/// The upper-case mapping of a whole string, as `str::to_uppercase` computes it.
pub uninterp spec fn upper_of(s: Seq<char>) -> Seq<char>;

/// Calls `str::to_uppercase`; its result is named `upper_of(s@)`.
#[verifier::external_body]
pub(crate) fn to_upper(s: &str) -> (r: String)
    ensures
        r@ == upper_of(s@),
{
    s.to_uppercase()
}

/// The lower-case mapping of a whole string, as `str::to_lowercase` computes it.
pub uninterp spec fn lower_of(s: Seq<char>) -> Seq<char>;

/// Calls `str::to_lowercase`; its result is named `lower_of(s@)`.
#[verifier::external_body]
pub(crate) fn to_lower(s: &str) -> (r: String)
    ensures
        r@ == lower_of(s@),
{
    s.to_lowercase()
}

/// First index at or after `i` whose character is not white space, or the
/// length when there is none.
pub open spec fn first_non_space(s: Seq<char>, i: int) -> int
    decreases s.len() - i,
{
    if i < 0 || i >= s.len() {
        s.len() as int
    } else if !is_white_space(s[i]) {
        i
    } else {
        first_non_space(s, i + 1)
    }
}

/// Largest end `k <= j` such that the character before `k` is not white
/// space, or 0.
pub open spec fn last_non_space_end(s: Seq<char>, j: int) -> int
    decreases j,
{
    if j <= 0 || j > s.len() {
        0
    } else if !is_white_space(s[j - 1]) {
        j
    } else {
        last_non_space_end(s, j - 1)
    }
}

/// `s` without leading and trailing white space.
pub open spec fn trimmed(s: Seq<char>) -> Seq<char> {
    let lo = first_non_space(s, 0);
    if lo >= s.len() {
        Seq::empty()
    } else {
        s.subrange(lo, last_non_space_end(s, s.len() as int))
    }
}

/// Whether `s` is empty or made of white space only.
pub open spec fn is_blank(s: Seq<char>) -> bool {
    forall|i: int| 0 <= i < s.len() ==> is_white_space(#[trigger] s[i])
}

proof fn lemma_first_non_space(s: Seq<char>, i: int)
    requires
        0 <= i <= s.len(),
    ensures
        i <= first_non_space(s, i) <= s.len(),
        first_non_space(s, i) < s.len() ==> !is_white_space(s[first_non_space(s, i)]),
        forall|k: int| i <= k < first_non_space(s, i) ==> is_white_space(#[trigger] s[k]),
    decreases s.len() - i,
{
    if i < s.len() && is_white_space(s[i]) {
        lemma_first_non_space(s, i + 1);
    }
}

proof fn lemma_last_non_space_end(s: Seq<char>, j: int, lo: int)
    requires
        0 <= lo < j <= s.len(),
        !is_white_space(s[lo]),
    ensures
        lo < last_non_space_end(s, j) <= j,
        forall|k: int| last_non_space_end(s, j) <= k < j ==> is_white_space(#[trigger] s[k]),
    decreases j,
{
    if is_white_space(s[j - 1]) {
        lemma_last_non_space_end(s, j - 1, lo);
    }
}

/// Blank text trims to nothing, and anything else keeps a character.
pub proof fn lemma_trimmed_empty_iff_blank(s: Seq<char>)
    ensures
        (trimmed(s).len() == 0) == is_blank(s),
{
    lemma_first_non_space(s, 0);
    let lo = first_non_space(s, 0);
    if lo < s.len() {
        lemma_last_non_space_end(s, s.len() as int, lo);
        assert(trimmed(s)[0] == s[lo]);
    }
}

/// The characters of `chars` without leading and trailing white space.
pub fn trim_chars(chars: &Vec<char>) -> (r: Vec<char>)
    ensures
        r@ == trimmed(chars@),
{
    let n = chars.len();
    let mut lo: usize = 0;
    while lo < n && char_is_whitespace(chars[lo])
        invariant
            lo <= n == chars@.len(),
            first_non_space(chars@, 0) == first_non_space(chars@, lo as int),
        decreases n - lo,
    {
        lo = lo + 1;
    }
    if lo >= n {
        return Vec::new();
    }
    proof {
        lemma_first_non_space(chars@, 0);
        assert(first_non_space(chars@, lo as int) == lo);
    }
    let mut hi: usize = n;
    while hi > lo && char_is_whitespace(chars[hi - 1])
        invariant
            lo < n == chars@.len(),
            lo < hi <= n,
            first_non_space(chars@, 0) == lo,
            !is_white_space(chars@[lo as int]),
            last_non_space_end(chars@, n as int) == last_non_space_end(chars@, hi as int),
        decreases hi,
    {
        hi = hi - 1;
    }
    assert(last_non_space_end(chars@, hi as int) == hi);
    let mut r: Vec<char> = Vec::new();
    let mut k: usize = lo;
    while k < hi
        invariant
            lo <= k <= hi <= n == chars@.len(),
            r@ == chars@.subrange(lo as int, k as int),
        decreases hi - k,
    {
        r.push(chars[k]);
        k = k + 1;
        assert(r@ =~= chars@.subrange(lo as int, k as int));
    }
    r
}

/// `s` without leading and trailing white space (`str::trim`).
pub fn trim(s: &str) -> (r: String)
    ensures
        r@ == trimmed(s@),
{
    let chars = chars_of(s);
    let t = trim_chars(&chars);
    string_of(t.as_slice())
}

/// Whether `s` is empty or white space only (`s.trim().is_empty()`).
pub fn is_blank_str(s: &str) -> (r: bool)
    ensures
        r == is_blank(s@),
{
    let chars = chars_of(s);
    let mut i: usize = 0;
    while i < chars.len()
        invariant
            i <= chars@.len(),
            chars@ == s@,
            forall|k: int| 0 <= k < i ==> is_white_space(#[trigger] chars@[k]),
        decreases chars.len() - i,
    {
        if !char_is_whitespace(chars[i]) {
            return false;
        }
        i = i + 1;
    }
    true
}

/// Whether `needle` occurs in `hay` starting at position `at`.
pub open spec fn occurs_at(hay: Seq<char>, needle: Seq<char>, at: int) -> bool {
    0 <= at && at + needle.len() <= hay.len() && hay.subrange(at, at + needle.len()) == needle
}

/// Whether `needle` occurs anywhere in `hay`.
pub open spec fn contains_seq(hay: Seq<char>, needle: Seq<char>) -> bool {
    exists|at: int| occurs_at(hay, needle, at)
}

/// The first position at which `needle` occurs in `hay`, if any.
pub open spec fn first_occurrence(hay: Seq<char>, needle: Seq<char>) -> Option<int> {
    if contains_seq(hay, needle) {
        Some(choose|at: int| occurs_at(hay, needle, at) && forall|k: int| 0 <= k < at ==> !occurs_at(hay, needle, k))
    } else {
        None
    }
}

fn matches_at(hay: &Vec<char>, needle: &Vec<char>, at: usize) -> (r: bool)
    requires
        at + needle@.len() <= hay@.len(),
    ensures
        r == occurs_at(hay@, needle@, at as int),
{
    let mut k: usize = 0;
    while k < needle.len()
        invariant
            at + needle@.len() <= hay@.len(),
            k <= needle@.len(),
            forall|m: int| 0 <= m < k ==> hay@[at + m] == needle@[m],
        decreases needle.len() - k,
    {
        assert(at + k < hay.len());
        if hay[at + k] != needle[k] {
            assert(hay@.subrange(at as int, at + needle@.len())[k as int] != needle@[k as int]);
            return false;
        }
        k = k + 1;
    }
    assert(hay@.subrange(at as int, at + needle@.len()) =~= needle@);
    true
}

/// The first position of `needle` in `hay` (`str::find` on characters).
pub fn find_chars(hay: &Vec<char>, needle: &Vec<char>) -> (r: Option<usize>)
    ensures
        r matches Some(at) ==> first_occurrence(hay@, needle@) == Some(at as int),
        r matches Some(at) ==> at + needle@.len() <= hay@.len(),
        r is None ==> first_occurrence(hay@, needle@) is None,
{
    if needle.len() > hay.len() {
        assert(!contains_seq(hay@, needle@));
        return None;
    }
    let last = hay.len() - needle.len();
    let mut at: usize = 0;
    loop
        invariant
            last == hay@.len() - needle@.len(),
            needle@.len() <= hay@.len(),
            at <= last,
            forall|k: int| 0 <= k < at ==> !occurs_at(hay@, needle@, k),
        decreases last - at,
    {
        if matches_at(hay, needle, at) {
            proof {
                let w = choose|x: int| occurs_at(hay@, needle@, x) && forall|k: int| 0 <= k < x ==> !occurs_at(hay@, needle@, k);
                assert(occurs_at(hay@, needle@, at as int) && forall|k: int| 0 <= k < at ==> !occurs_at(hay@, needle@, k));
                if w < at {
                } else if w > at {
                }
            }
            return Some(at);
        }
        if at == last {
            assert forall|k: int| #![trigger occurs_at(hay@, needle@, k)] !occurs_at(hay@, needle@, k) by {
                if 0 <= k < at {
                }
            }
            return None;
        }
        at = at + 1;
    }
}

/// Whether `needle` occurs in `hay` (`str::contains` on characters).
pub fn contains_chars(hay: &Vec<char>, needle: &Vec<char>) -> (r: bool)
    ensures
        r == contains_seq(hay@, needle@),
{
    let f = find_chars(hay, needle);
    f.is_some()
}

/// Decimal digits of `n` without leading zeros ("0" for zero).
pub open spec fn decimal(n: nat) -> Seq<char>
    decreases n,
{
    if n < 10 {
        seq![digit_char(n)]
    } else {
        decimal(n / 10).push(digit_char(n % 10))
    }
}

pub open spec fn digit_char(d: nat) -> char {
    if d == 0 { '0' }
    else if d == 1 { '1' }
    else if d == 2 { '2' }
    else if d == 3 { '3' }
    else if d == 4 { '4' }
    else if d == 5 { '5' }
    else if d == 6 { '6' }
    else if d == 7 { '7' }
    else if d == 8 { '8' }
    else { '9' }
}

fn digit(d: usize) -> (c: char)
    requires
        d < 10,
    ensures
        c == digit_char(d as nat),
{
    if d == 0 { '0' }
    else if d == 1 { '1' }
    else if d == 2 { '2' }
    else if d == 3 { '3' }
    else if d == 4 { '4' }
    else if d == 5 { '5' }
    else if d == 6 { '6' }
    else if d == 7 { '7' }
    else if d == 8 { '8' }
    else { '9' }
}

/// The decimal text of `n` (as `usize::to_string` writes it).
pub fn decimal_chars(n: usize) -> (r: Vec<char>)
    ensures
        r@ == decimal(n as nat),
    decreases n,
{
    if n < 10 {
        let mut r = Vec::new();
        r.push(digit(n));
        r
    } else {
        let mut r = decimal_chars(n / 10);
        r.push(digit(n % 10));
        r
    }
}

/// Appends the characters of `s` to `out`.
pub fn push_str(out: &mut Vec<char>, s: &str)
    ensures
        final(out)@ == old(out)@ + s@,
{
    let cs = chars_of(s);
    let mut i: usize = 0;
    while i < cs.len()
        invariant
            cs@ == s@,
            i <= cs@.len(),
            out@ == old(out)@ + cs@.subrange(0, i as int),
        decreases cs.len() - i,
    {
        out.push(cs[i]);
        i = i + 1;
        assert(out@ =~= old(out)@ + cs@.subrange(0, i as int));
    }
    assert(cs@.subrange(0, cs@.len() as int) =~= cs@);
}

/// Appends the characters of `v` to `out`.
pub fn push_chars(out: &mut Vec<char>, v: &Vec<char>)
    ensures
        final(out)@ == old(out)@ + v@,
{
    let mut i: usize = 0;
    while i < v.len()
        invariant
            i <= v@.len(),
            out@ == old(out)@ + v@.subrange(0, i as int),
        decreases v.len() - i,
    {
        out.push(v[i]);
        i = i + 1;
        assert(out@ =~= old(out)@ + v@.subrange(0, i as int));
    }
    assert(v@.subrange(0, v@.len() as int) =~= v@);
}


/// Whether two character sequences are equal.
pub fn chars_eq(a: &Vec<char>, b: &Vec<char>) -> (r: bool)
    ensures
        r == (a@ == b@),
{
    if a.len() != b.len() {
        return false;
    }
    let mut i: usize = 0;
    while i < a.len()
        invariant
            a@.len() == b@.len(),
            i <= a@.len(),
            forall|k: int| 0 <= k < i ==> a@[k] == b@[k],
        decreases a.len() - i,
    {
        if a[i] != b[i] {
            return false;
        }
        i = i + 1;
    }
    assert(a@ =~= b@);
    true
}

/// Whether two strings hold the same characters.
pub fn str_eq(a: &str, b: &str) -> (r: bool)
    ensures
        r == (a@ == b@),
{
    chars_eq(&chars_of(a), &chars_of(b))
}

/// Whether `prefix` is a prefix of `s`.
pub open spec fn has_prefix(s: Seq<char>, prefix: Seq<char>) -> bool {
    prefix.len() <= s.len() && s.take(prefix.len() as int) == prefix
}

/// Whether `s` starts with `prefix` (`str::starts_with`).
pub fn starts_with(s: &str, prefix: &str) -> (r: bool)
    ensures
        r == has_prefix(s@, prefix@),
{
    let a = chars_of(s);
    let p = chars_of(prefix);
    if p.len() > a.len() {
        return false;
    }
    let mut i: usize = 0;
    while i < p.len()
        invariant
            p@.len() <= a@.len(),
            i <= p@.len(),
            a@ == s@,
            p@ == prefix@,
            forall|k: int| 0 <= k < i ==> a@[k] == p@[k],
        decreases p.len() - i,
    {
        if a[i] != p[i] {
            assert(a@.take(p@.len() as int)[i as int] != p@[i as int]);
            return false;
        }
        i = i + 1;
    }
    assert(a@.take(p@.len() as int) =~= p@);
    true
}

/// Whether `suffix` is a suffix of `s`.
pub open spec fn has_suffix(s: Seq<char>, suffix: Seq<char>) -> bool {
    suffix.len() <= s.len() && s.skip(s.len() - suffix.len()) == suffix
}

/// Whether the characters `s` end with `suffix` (`str::ends_with`).
pub fn chars_end_with(a: &Vec<char>, suffix: &str) -> (r: bool)
    ensures
        r == has_suffix(a@, suffix@),
{
    let p = chars_of(suffix);
    if p.len() > a.len() {
        return false;
    }
    let n = a.len();
    let off = n - p.len();
    let mut i: usize = 0;
    while i < p.len()
        invariant
            n == a@.len(),
            p@.len() <= a@.len(),
            off == a@.len() - p@.len(),
            i <= p@.len(),
            p@ == suffix@,
            forall|k: int| 0 <= k < i ==> a@[off + k] == p@[k],
        decreases p.len() - i,
    {
        if a[off + i] != p[i] {
            assert(a@.skip(off as int)[i as int] != p@[i as int]);
            return false;
        }
        i = i + 1;
    }
    assert(a@.skip(off as int) =~= p@);
    true
}

/// Whether `s` ends with `suffix` (`str::ends_with`).
pub fn ends_with(s: &str, suffix: &str) -> (r: bool)
    ensures
        r == has_suffix(s@, suffix@),
{
    chars_end_with(&chars_of(s), suffix)
}

/// The number of bytes of `c` in UTF-8.
pub open spec fn utf8_width(c: char) -> nat {
    let v = c as u32;
    if v < 0x80 {
        1
    } else if v < 0x800 {
        2
    } else if v < 0x10000 {
        3
    } else {
        4
    }
}

/// The number of bytes of `s` in UTF-8.
pub open spec fn utf8_len(s: Seq<char>) -> nat
    decreases s.len(),
{
    if s.len() == 0 {
        0
    } else {
        utf8_len(s.drop_last()) + utf8_width(s.last())
    }
}

/// The number of bytes of `c` in UTF-8.
pub fn char_utf8_width(c: char) -> (r: u128)
    ensures
        r == utf8_width(c),
{
    let v = c as u32;
    if v < 0x80 {
        1
    } else if v < 0x800 {
        2
    } else if v < 0x10000 {
        3
    } else {
        4
    }
}

proof fn lemma_utf8_len_bound(s: Seq<char>)
    ensures
        utf8_len(s) <= 4 * s.len(),
    decreases s.len(),
{
    if s.len() > 0 {
        lemma_utf8_len_bound(s.drop_last());
    }
}

/// The number of UTF-8 bytes of the first `k` characters of `s`.
pub fn utf8_prefix_len(s: &Vec<char>, k: usize) -> (r: u128)
    requires
        k <= s@.len(),
    ensures
        r == utf8_len(s@.take(k as int)),
{
    let mut total: u128 = 0;
    let mut i: usize = 0;
    while i < k
        invariant
            k <= s@.len(),
            i <= k,
            total == utf8_len(s@.take(i as int)),
        decreases k - i,
    {
        proof {
            assert(s@.take(i + 1).drop_last() =~= s@.take(i as int));
            lemma_utf8_len_bound(s@.take(i as int));
        }
        total = total + char_utf8_width(s[i]);
        i = i + 1;
    }
    total
}

/// The number of leading characters of `s` that take up exactly `b`
/// bytes in UTF-8, when `b` falls between two characters.
pub open spec fn chars_in_bytes(s: Seq<char>, b: nat) -> Option<nat> {
    if exists|k: int| 0 <= k <= s.len() && utf8_len(s.take(k)) == b {
        Some(
            (choose|k: int|
                0 <= k <= s.len() && utf8_len(s.take(k)) == b && forall|j: int| 0 <= j < k ==> utf8_len(s.take(j)) != b) as nat,
        )
    } else {
        None
    }
}

/// The number of leading characters of `s` that take up exactly `b`
/// bytes, if any.
pub fn chars_for_bytes(s: &Vec<char>, b: u128) -> (r: Option<usize>)
    ensures
        r matches Some(k) ==> chars_in_bytes(s@, b as nat) == Some(k as nat),
        r matches Some(k) ==> k <= s@.len(),
        r is None ==> chars_in_bytes(s@, b as nat) is None,
{
    let mut total: u128 = 0;
    let mut i: usize = 0;
    loop
        invariant
            i <= s@.len(),
            total == utf8_len(s@.take(i as int)),
            forall|j: int| 0 <= j < i ==> utf8_len(s@.take(j)) != b,
        decreases s@.len() - i,
    {
        if total == b {
            proof {
                let w = choose|k: int|
                    0 <= k <= s@.len() && utf8_len(s@.take(k)) == b && forall|j: int| 0 <= j < k ==> utf8_len(s@.take(j)) != b;
                assert(0 <= i <= s@.len() && utf8_len(s@.take(i as int)) == b);
                if w < i {
                } else if w > i {
                }
            }
            return Some(i);
        }
        if i == s.len() {
            assert forall|k: int| 0 <= k <= s@.len() implies utf8_len(s@.take(k)) != b by {
                if k < i {
                }
            }
            return None;
        }
        proof {
            assert(s@.take(i + 1).drop_last() =~= s@.take(i as int));
            lemma_utf8_len_bound(s@.take(i as int));
        }
        total = total + char_utf8_width(s[i]);
        i = i + 1;
    }
}

/// The pieces joined with `sep` between neighbours (`[..].join(sep)`).
pub open spec fn join_with(parts: Seq<Seq<char>>, sep: Seq<char>) -> Seq<char>
    decreases parts.len(),
{
    if parts.len() == 0 {
        Seq::empty()
    } else if parts.len() == 1 {
        parts[0]
    } else {
        join_with(parts.drop_last(), sep) + sep + parts.last()
    }
}

/// The plain values of a list of character vectors.
pub open spec fn char_vecs_view(v: Seq<Vec<char>>) -> Seq<Seq<char>> {
    v.map_values(|x: Vec<char>| x@)
}

/// Joins the pieces with `sep` between neighbours.
pub fn join_chars(parts: &Vec<Vec<char>>, sep: &str) -> (r: Vec<char>)
    ensures
        r@ == join_with(char_vecs_view(parts@), sep@),
{
    let mut out: Vec<char> = Vec::new();
    let mut i: usize = 0;
    while i < parts.len()
        invariant
            i <= parts@.len(),
            out@ == join_with(char_vecs_view(parts@).take(i as int), sep@),
        decreases parts.len() - i,
    {
        proof {
            assert(char_vecs_view(parts@).take(i + 1).drop_last() =~= char_vecs_view(parts@).take(i as int));
        }
        if i > 0 {
            push_str(&mut out, sep);
        } else {
            assert(out@ =~= Seq::<char>::empty());
        }
        push_chars(&mut out, &parts[i]);
        i = i + 1;
    }
    assert(char_vecs_view(parts@).take(i as int) =~= char_vecs_view(parts@));
    out
}

} // verus!
