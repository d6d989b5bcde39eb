//! Character-level string model shared by every module: conversions between
//! `&str` and `Vec<char>`, whitespace, trimming, searching and splitting.
//!
//! Every string the library computes on is first turned into its character
//! sequence (`s@`); the spec functions here say what each operation does to
//! that sequence, the way `str`'s own methods are documented.

use vstd::prelude::*;

verus! {

/// Appending one character to a `String` extends its character sequence by it.
pub assume_specification[ String::push ](s: &mut String, ch: char)
    ensures
        final(s)@ == old(s)@.push(ch),
;

/// The characters of `s`, in order.
pub fn to_chars(s: &str) -> (r: Vec<char>)
    ensures
        r@ == s@,
{
    let mut out: Vec<char> = Vec::new();
    for c in it: s.chars()
        invariant
            out@ == it.seq().take(it.index() as int),
    {
        out.push(c);
    }
    out
}

/// A `String` holding exactly the characters of `cs`.
pub fn from_chars(cs: &[char]) -> (r: String)
    ensures
        r@ == cs@,
{
    let mut out = String::new();
    let mut i: usize = 0;
    while i < cs.len()
        invariant
            i <= cs.len(),
            out@ == cs@.take(i as int),
        decreases cs.len() - i,
    {
        out.push(cs[i]);
        i = i + 1;
        assert(cs@.take(i as int) == cs@.take((i - 1) as int).push(cs@[i - 1]));
    }
    assert(cs@.take(cs.len() as int) == cs@);
    out
}

/// `a` followed by `b`, as a new `String`.
pub fn concat_str(a: &str, b: &str) -> (r: String)
    ensures
        r@ == a@ + b@,
{
    let mut out = String::new();
    push_str(&mut out, a);
    push_str(&mut out, b);
    out
}

/// Append every character of `t` to `s`.
pub fn push_str(s: &mut String, t: &str)
    ensures
        final(s)@ == old(s)@ + t@,
{
    let cs = to_chars(t);
    let mut i: usize = 0;
    while i < cs.len()
        invariant
            i <= cs.len(),
            cs@ == t@,
            s@ == old(s)@ + t@.take(i as int),
        decreases cs.len() - i,
    {
        s.push(cs[i]);
        i = i + 1;
        assert(t@.take(i as int) == t@.take((i - 1) as int).push(t@[i - 1]));
    }
    assert(t@.take(cs.len() as int) == t@);
}

/// Append every character of `cs` to `s`.
pub fn push_chars(s: &mut String, cs: &[char])
    ensures
        final(s)@ == old(s)@ + cs@,
{
    let mut i: usize = 0;
    while i < cs.len()
        invariant
            i <= cs.len(),
            s@ == old(s)@ + cs@.take(i as int),
        decreases cs.len() - i,
    {
        s.push(cs[i]);
        i = i + 1;
        assert(cs@.take(i as int) == cs@.take((i - 1) as int).push(cs@[i - 1]));
    }
    assert(cs@.take(cs.len() as int) == cs@);
}

/// Character-wise equality of two strings.
pub fn str_eq(a: &str, b: &str) -> (r: bool)
    ensures
        r == (a@ == b@),
{
    let x = to_chars(a);
    let y = to_chars(b);
    chars_eq(&x, &y)
}

/// Equality of two character slices.
pub fn chars_eq(x: &[char], y: &[char]) -> (r: bool)
    ensures
        r == (x@ == y@),
{
    if x.len() != y.len() {
        return false;
    }
    let mut i: usize = 0;
    while i < x.len()
        invariant
            x.len() == y.len(),
            i <= x.len(),
            forall|k: int| 0 <= k < i ==> x@[k] == y@[k],
        decreases x.len() - i,
    {
        if x[i] != y[i] {
            return false;
        }
        i = i + 1;
    }
    assert(x@ =~= y@);
    true
}

/// Whether `s` has no characters.
pub fn str_is_empty(s: &str) -> (r: bool)
    ensures
        r == (s@.len() == 0),
{
    to_chars(s).len() == 0
}

/// A copy of a `String`.
pub fn copy_string(s: &String) -> (r: String)
    ensures
        r@ == s@,
{
    s.clone()
}

// ---------------------------------------------------------------- whitespace

/// Unicode `White_Space`, the property `char::is_whitespace` tests.
pub open spec fn is_ws(c: char) -> bool {
    ||| ('\u{9}' <= c && c <= '\u{d}')
    ||| c == ' '
    ||| c == '\u{85}'
    ||| c == '\u{a0}'
    ||| c == '\u{1680}'
    ||| ('\u{2000}' <= c && c <= '\u{200a}')
    ||| c == '\u{2028}'
    ||| c == '\u{2029}'
    ||| c == '\u{202f}'
    ||| c == '\u{205f}'
    ||| c == '\u{3000}'
}

/// Whether `c` is whitespace, as `char::is_whitespace` answers.
pub fn is_whitespace(c: char) -> (r: bool)
    ensures
        r == is_ws(c),
{
    ('\u{9}' <= c && c <= '\u{d}') || c == ' ' || c == '\u{85}' || c == '\u{a0}' || c == '\u{1680}'
        || ('\u{2000}' <= c && c <= '\u{200a}') || c == '\u{2028}' || c == '\u{2029}'
        || c == '\u{202f}' || c == '\u{205f}' || c == '\u{3000}'
}

/// Unicode general category `Cc`, the property `char::is_control` tests.
pub open spec fn is_ctrl(c: char) -> bool {
    c <= '\u{1f}' || ('\u{7f}' <= c && c <= '\u{9f}')
}

/// `s` without leading whitespace (`str::trim_start`).
pub open spec fn trim_start(s: Seq<char>) -> Seq<char>
    decreases s.len(),
{
    if s.len() > 0 && is_ws(s[0]) {
        trim_start(s.drop_first())
    } else {
        s
    }
}

/// `s` without trailing whitespace (`str::trim_end`).
pub open spec fn trim_end(s: Seq<char>) -> Seq<char>
    decreases s.len(),
{
    if s.len() > 0 && is_ws(s.last()) {
        trim_end(s.drop_last())
    } else {
        s
    }
}

/// `s` without leading or trailing whitespace (`str::trim`).
pub open spec fn trim(s: Seq<char>) -> Seq<char> {
    trim_end(trim_start(s))
}

/// `trim_start(s)` is the suffix of `s` from index `i`.
pub proof fn lemma_trim_start_at(s: Seq<char>, i: int)
    requires
        0 <= i <= s.len(),
        forall|k: int| 0 <= k < i ==> is_ws(#[trigger] s[k]),
        i == s.len() || !is_ws(s[i]),
    ensures
        trim_start(s) == s.subrange(i, s.len() as int),
    decreases i,
{
    if i > 0 {
        assert forall|k: int| 0 <= k < i - 1 implies is_ws(#[trigger] s.drop_first()[k]) by {
            assert(s.drop_first()[k] == s[k + 1]);
        }
        lemma_trim_start_at(s.drop_first(), i - 1);
        assert(s.drop_first().subrange(i - 1, s.len() - 1) =~= s.subrange(i, s.len() as int));
    } else {
        assert(s.subrange(0, s.len() as int) =~= s);
    }
}

/// `trim_end(s)` is the prefix of `s` up to index `j`.
pub proof fn lemma_trim_end_at(s: Seq<char>, j: int)
    requires
        0 <= j <= s.len(),
        forall|k: int| j <= k < s.len() ==> is_ws(#[trigger] s[k]),
        j == 0 || !is_ws(s[j - 1]),
    ensures
        trim_end(s) == s.subrange(0, j),
    decreases s.len() - j,
{
    if j < s.len() {
        assert forall|k: int| j <= k < s.len() - 1 implies is_ws(#[trigger] s.drop_last()[k]) by {
            assert(s.drop_last()[k] == s[k]);
        }
        lemma_trim_end_at(s.drop_last(), j);
        assert(s.drop_last().subrange(0, j) =~= s.subrange(0, j));
    } else {
        assert(s.subrange(0, j) =~= s);
    }
}

/// `trim_start` never adds characters, and leaves no leading whitespace.
pub proof fn lemma_trim_start_props(s: Seq<char>)
    ensures
        trim_start(s).len() <= s.len(),
        trim_start(s).len() > 0 ==> !is_ws(trim_start(s)[0]),
        trim_start(trim_start(s)) == trim_start(s),
    decreases s.len(),
{
    if s.len() > 0 && is_ws(s[0]) {
        lemma_trim_start_props(s.drop_first());
    }
}

/// `trim_end` never adds characters, and leaves no trailing whitespace.
pub proof fn lemma_trim_end_props(s: Seq<char>)
    ensures
        trim_end(s).len() <= s.len(),
        trim_end(s).len() > 0 ==> !is_ws(trim_end(s).last()),
        trim_end(trim_end(s)) == trim_end(s),
    decreases s.len(),
{
    if s.len() > 0 && is_ws(s.last()) {
        lemma_trim_end_props(s.drop_last());
    }
}

/// Index of the first non-whitespace character of `cs`, or its length.
fn first_non_ws(cs: &[char]) -> (i: usize)
    ensures
        i <= cs.len(),
        forall|k: int| 0 <= k < i ==> is_ws(#[trigger] cs@[k]),
        i == cs.len() || !is_ws(cs@[i as int]),
{
    let mut i: usize = 0;
    while i < cs.len() && is_whitespace(cs[i])
        invariant
            i <= cs.len(),
            forall|k: int| 0 <= k < i ==> is_ws(#[trigger] cs@[k]),
        decreases cs.len() - i,
    {
        i = i + 1;
    }
    i
}

/// One past the last non-whitespace character of `cs[..hi]`, or 0.
fn last_non_ws(cs: &[char], hi: usize) -> (j: usize)
    requires
        hi <= cs.len(),
    ensures
        j <= hi,
        forall|k: int| j <= k < hi ==> is_ws(#[trigger] cs@[k]),
        j == 0 || !is_ws(cs@[j - 1]),
{
    let mut j: usize = hi;
    while j > 0 && is_whitespace(cs[j - 1])
        invariant
            j <= hi,
            hi <= cs.len(),
            forall|k: int| j <= k < hi ==> is_ws(#[trigger] cs@[k]),
        decreases j,
    {
        j = j - 1;
    }
    j
}

/// The characters of `cs` without leading and trailing whitespace.
pub fn trim_chars(cs: &[char]) -> (r: Vec<char>)
    ensures
        r@ == trim(cs@),
{
    let i = first_non_ws(cs);
    let j = if i == cs.len() { i } else { last_non_ws(cs, cs.len()) };
    proof {
        lemma_trim_start_at(cs@, i as int);
        let t = cs@.subrange(i as int, cs@.len() as int);
        if i == cs.len() {
            assert(t.len() == 0);
            lemma_trim_end_at(t, 0);
        } else {
            assert(j > i);
            assert forall|k: int| j - i <= k < t.len() implies is_ws(#[trigger] t[k]) by {
                assert(t[k] == cs@[k + i]);
            }
            assert(t[j - i - 1] == cs@[j - 1]);
            lemma_trim_end_at(t, j - i);
        }
    }
    let mut out: Vec<char> = Vec::new();
    let mut k: usize = i;
    while k < j
        invariant
            i <= k <= j,
            j <= cs.len(),
            out@ == cs@.subrange(i as int, k as int),
        decreases j - k,
    {
        out.push(cs[k]);
        k = k + 1;
        assert(cs@.subrange(i as int, k as int) == cs@.subrange(i as int, k - 1).push(cs@[k - 1]));
    }
    assert(out@ == cs@.subrange(i as int, cs@.len() as int).subrange(0, j - i));
    out
}

/// The characters of `cs` without leading whitespace.
pub fn trim_start_chars(cs: &[char]) -> (r: Vec<char>)
    ensures
        r@ == trim_start(cs@),
{
    let i = first_non_ws(cs);
    proof {
        lemma_trim_start_at(cs@, i as int);
    }
    slice_chars(cs, i, cs.len())
}

/// `s` without trailing whitespace.
pub fn trim_end_str(s: &str) -> (r: String)
    ensures
        r@ == trim_end(s@),
{
    let cs = to_chars(s);
    let j = last_non_ws(&cs, cs.len());
    proof {
        lemma_trim_end_at(cs@, j as int);
    }
    let r = slice_chars(&cs, 0, j);
    from_chars(&r)
}

/// `s` without leading and trailing whitespace.
pub fn trim_str(s: &str) -> (r: String)
    ensures
        r@ == trim(s@),
{
    let cs = to_chars(s);
    let t = trim_chars(&cs);
    from_chars(&t)
}


// ------------------------------------------------------------------ ascii case

/// The ASCII lowercase of one character (`char::to_ascii_lowercase`).
pub open spec fn ascii_lower_char(c: char) -> char {
    if 'A' <= c && c <= 'Z' {
        ((c as u32) + 32) as char
    } else {
        c
    }
}

/// Character-wise ASCII lowercase of a sequence.
pub open spec fn ascii_lower(s: Seq<char>) -> Seq<char> {
    s.map_values(|c: char| ascii_lower_char(c))
}

/// Every character of `s` is ASCII.
pub open spec fn all_ascii(s: Seq<char>) -> bool {
    forall|i: int| 0 <= i < s.len() ==> ((#[trigger] s[i]) as u32) <= 0x7f
}

/// `trim_end(s)` is a prefix of `s`.
pub proof fn lemma_trim_end_prefix(s: Seq<char>)
    ensures
        trim_end(s) == s.take(trim_end(s).len() as int),
        trim_end(s).len() <= s.len(),
    decreases s.len(),
{
    if s.len() > 0 && is_ws(s.last()) {
        lemma_trim_end_prefix(s.drop_last());
        assert(s.drop_last().take(trim_end(s).len() as int) =~= s.take(trim_end(s).len() as int));
    } else {
        assert(s.take(s.len() as int) =~= s);
    }
}

/// Text with neither leading nor trailing whitespace trims to itself.
pub proof fn lemma_trim_settled(s: Seq<char>)
    requires
        s.len() > 0 ==> !is_ws(s[0]) && !is_ws(s.last()),
    ensures
        trim(s) == s,
{
}

/// Trimmed text trims to itself, and has no whitespace at either end.
pub proof fn lemma_trim_trim(s: Seq<char>)
    ensures
        trim(trim(s)) == trim(s),
        trim(s).len() > 0 ==> !is_ws(trim(s)[0]) && !is_ws(trim(s).last()),
{
    let u = trim_start(s);
    lemma_trim_start_props(s);
    lemma_trim_end_props(u);
    lemma_trim_end_prefix(u);
    let v = trim_end(u);
    if v.len() > 0 {
        assert(v[0] == u[0]);
    }
    lemma_trim_settled(v);
}

/// ASCII lowercase keeps text ASCII, is settled on its own result, and
/// leaves whitespace where it was.
pub proof fn lemma_ascii_lower_props(s: Seq<char>)
    requires
        all_ascii(s),
    ensures
        all_ascii(ascii_lower(s)),
        ascii_lower(ascii_lower(s)) == ascii_lower(s),
        ascii_lower(s).len() == s.len(),
        forall|i: int| 0 <= i < s.len() ==> (is_ws(#[trigger] ascii_lower(s)[i]) <==> is_ws(s[i])),
{
    let l = ascii_lower(s);
    assert forall|i: int| 0 <= i < s.len() implies ((#[trigger] l[i]) as u32) <= 0x7f && ascii_lower_char(l[i]) == l[i]
        && (is_ws(l[i]) <==> is_ws(s[i])) by {
        let c = s[i];
        assert((c as u32) <= 0x7f);
        if 'A' <= c && c <= 'Z' {
            assert(l[i] == ((c as u32) + 32) as char);
            assert('a' <= l[i] && l[i] <= 'z');
        }
    }
    assert(ascii_lower(l) =~= l);
}

/// Lowercasing trimmed ASCII text is settled: trimming and lowercasing the
/// result again changes nothing.
pub proof fn lemma_lower_trim_settled(s: Seq<char>)
    requires
        all_ascii(trim(s)),
    ensures
        all_ascii(to_lowercase(trim(s))),
        to_lowercase(trim(to_lowercase(trim(s)))) == to_lowercase(trim(s)),
{
    let t = trim(s);
    lemma_trim_trim(s);
    lemma_ascii_lower_props(t);
    let m = ascii_lower(t);
    assert(to_lowercase(t) == m);
    if m.len() > 0 {
        assert(is_ws(m[0]) <==> is_ws(t[0]));
        assert(is_ws(m[m.len() - 1]) <==> is_ws(t[t.len() - 1]));
    }
    lemma_trim_settled(m);
    assert(to_lowercase(m) == ascii_lower(m));
}

/// What `str::to_lowercase` returns: the Unicode lowercase mapping of each
/// character, concatenated.
pub uninterp spec fn lowercase(s: Seq<char>) -> Seq<char>;

/// `str::to_lowercase` as far as it is stated here: ASCII text maps to its
/// ASCII lowercase, and other text to the Unicode mapping [`lowercase`].
pub open spec fn to_lowercase(s: Seq<char>) -> Seq<char> {
    if all_ascii(s) {
        ascii_lower(s)
    } else {
        lowercase(s)
    }
}

/// `str::to_lowercase`. The contract names the result by its argument, and
/// states the one fact the Unicode tables give for ASCII text: each ASCII
/// character maps to its ASCII lowercase. Nothing is stated of the mapping of
/// other characters.
#[verifier::external_body]
pub fn to_lower(s: &str) -> (r: String)
    ensures
        r@ == lowercase(s@),
        r@ == to_lowercase(s@),
{
    s.to_lowercase()
}

/// The ASCII uppercase of one character (`char::to_ascii_uppercase`).
pub open spec fn ascii_upper_char(c: char) -> char {
    if 'a' <= c && c <= 'z' {
        ((c as u32) - 32) as char
    } else {
        c
    }
}

/// What `str::to_uppercase` returns: the Unicode uppercase mapping of each
/// character, concatenated.
pub uninterp spec fn uppercase(s: Seq<char>) -> Seq<char>;

/// `str::to_uppercase` as far as it is stated here: ASCII text maps to its
/// ASCII uppercase, and other text to the Unicode mapping [`uppercase`].
pub open spec fn to_uppercase(s: Seq<char>) -> Seq<char> {
    if all_ascii(s) {
        s.map_values(|c: char| ascii_upper_char(c))
    } else {
        uppercase(s)
    }
}

/// `str::to_uppercase`. The contract names the result by its argument, and
/// states the one fact the Unicode tables give for ASCII text: each ASCII
/// character maps to its ASCII uppercase. Nothing is stated of the mapping of
/// other characters.
#[verifier::external_body]
pub fn to_upper(s: &str) -> (r: String)
    ensures
        r@ == uppercase(s@),
        r@ == to_uppercase(s@),
{
    s.to_uppercase()
}

/// The ASCII lowercase of `c`.
pub fn lower_ascii_char(c: char) -> (r: char)
    ensures
        r == ascii_lower_char(c),
{
    if 'A' <= c && c <= 'Z' {
        proof {
            assert((c as u32) + 32 <= 0x7f);
        }
        ((c as u32) + 32) as u8 as char
    } else {
        c
    }
}

/// Case-insensitive ASCII equality (`str::eq_ignore_ascii_case`).
pub open spec fn eq_ignore_ascii_case(a: Seq<char>, b: Seq<char>) -> bool {
    a.len() == b.len() && forall|i: int|
        0 <= i < a.len() ==> ascii_lower_char(#[trigger] a[i]) == ascii_lower_char(b[i])
}

/// Whether `a` and `b` match ignoring ASCII case.
pub fn eq_ignore_case(a: &[char], b: &[char]) -> (r: bool)
    ensures
        r == eq_ignore_ascii_case(a@, b@),
{
    if a.len() != b.len() {
        return false;
    }
    let mut i: usize = 0;
    while i < a.len()
        invariant
            a.len() == b.len(),
            i <= a.len(),
            forall|k: int| 0 <= k < i ==> ascii_lower_char(#[trigger] a@[k]) == ascii_lower_char(b@[k]),
        decreases a.len() - i,
    {
        if lower_ascii_char(a[i]) != lower_ascii_char(b[i]) {
            return false;
        }
        i = i + 1;
    }
    true
}

/// An ASCII digit `0`–`9` (`char::is_ascii_digit`).
pub open spec fn is_digit(c: char) -> bool {
    '0' <= c && c <= '9'
}

/// An ASCII letter or digit (`char::is_ascii_alphanumeric`).
pub open spec fn is_alnum(c: char) -> bool {
    is_digit(c) || ('a' <= c && c <= 'z') || ('A' <= c && c <= 'Z')
}

// ------------------------------------------------------------ prefix / search

/// `s` starts with `p`.
pub open spec fn has_prefix(s: Seq<char>, p: Seq<char>) -> bool {
    p.len() <= s.len() && s.subrange(0, p.len() as int) == p
}

/// `s` ends with `p`.
pub open spec fn has_suffix(s: Seq<char>, p: Seq<char>) -> bool {
    p.len() <= s.len() && s.subrange(s.len() - p.len(), s.len() as int) == p
}

/// `needle` occurs in `hay` starting at index `i`.
pub open spec fn occurs_at(hay: Seq<char>, needle: Seq<char>, i: int) -> bool {
    0 <= i && i + needle.len() <= hay.len() && hay.subrange(i, i + needle.len()) == needle
}

/// The first index at or after `i` where `needle` occurs in `hay`.
pub open spec fn find_from(hay: Seq<char>, needle: Seq<char>, i: int) -> Option<int>
    decreases hay.len() + 1 - i,
{
    if i < 0 || i + needle.len() > hay.len() {
        None
    } else if occurs_at(hay, needle, i) {
        Some(i)
    } else {
        find_from(hay, needle, i + 1)
    }
}

/// The first index where `needle` occurs in `hay` (`str::find`).
pub open spec fn find(hay: Seq<char>, needle: Seq<char>) -> Option<int> {
    find_from(hay, needle, 0)
}

/// `find_from` returns the first occurrence at or after `i`.
pub proof fn lemma_find_from(hay: Seq<char>, needle: Seq<char>, i: int)
    requires
        0 <= i,
    ensures
        find_from(hay, needle, i) matches Some(k) ==> i <= k && occurs_at(hay, needle, k)
            && forall|m: int| i <= m < k ==> !occurs_at(hay, needle, m),
        find_from(hay, needle, i) is None ==> forall|m: int| i <= m ==> !occurs_at(hay, needle, m),
    decreases hay.len() + 1 - i,
{
    if i + needle.len() > hay.len() {
    } else if occurs_at(hay, needle, i) {
    } else {
        lemma_find_from(hay, needle, i + 1);
    }
}

/// Does `needle` occur at `hay[i..]`?
pub fn matches_at(hay: &[char], needle: &[char], i: usize) -> (r: bool)
    ensures
        r == occurs_at(hay@, needle@, i as int),
{
    if i > hay.len() || needle.len() > hay.len() - i {
        return false;
    }
    let mut k: usize = 0;
    while k < needle.len()
        invariant
            k <= needle.len(),
            i + needle.len() <= hay.len(),
            forall|m: int| 0 <= m < k ==> hay@[i + m] == needle@[m],
        decreases needle.len() - k,
    {
        if hay[i + k] != needle[k] {
            assert(hay@.subrange(i as int, i + needle.len())[k as int] != needle@[k as int]);
            return false;
        }
        k = k + 1;
    }
    assert(hay@.subrange(i as int, i + needle.len()) =~= needle@);
    true
}

/// First occurrence of `needle` in `hay` at or after `from`.
pub fn find_chars_from(hay: &[char], needle: &[char], from: usize) -> (r: Option<usize>)
    ensures
        r matches Some(k) ==> find_from(hay@, needle@, from as int) == Some(k as int),
        r is None ==> find_from(hay@, needle@, from as int) is None,
{
    proof {
        lemma_find_from(hay@, needle@, from as int);
    }
    if from > hay.len() || needle.len() > hay.len() - from {
        return None;
    }
    let mut i: usize = from;
    let last = hay.len() - needle.len();
    while i <= last
        invariant
            from <= i,
            last == hay.len() - needle.len(),
            find_from(hay@, needle@, from as int) == find_from(hay@, needle@, i as int),
        decreases hay.len() + 1 - i,
    {
        if matches_at(hay, needle, i) {
            return Some(i);
        }
        if i == last {
            assert(find_from(hay@, needle@, i + 1) is None);
            return None;
        }
        i = i + 1;
    }
    None
}

/// First occurrence of `needle` in `hay` (`str::find`).
pub fn find_chars(hay: &[char], needle: &[char]) -> (r: Option<usize>)
    ensures
        r matches Some(k) ==> find(hay@, needle@) == Some(k as int),
        r is None ==> find(hay@, needle@) is None,
{
    find_chars_from(hay, needle, 0)
}

/// Whether `needle` occurs anywhere in `hay`.
pub open spec fn contains_seq(hay: Seq<char>, needle: Seq<char>) -> bool {
    find(hay, needle) is Some
}

/// Whether `needle` occurs in `hay` (`str::contains`).
pub fn contains_chars(hay: &[char], needle: &[char]) -> (r: bool)
    ensures
        r == contains_seq(hay@, needle@),
{
    find_chars(hay, needle).is_some()
}

/// Whether the string `hay` contains the string `needle`.
pub fn str_contains(hay: &str, needle: &str) -> (r: bool)
    ensures
        r == contains_seq(hay@, needle@),
{
    let h = to_chars(hay);
    let n = to_chars(needle);
    contains_chars(&h, &n)
}

/// Whether `s` starts with `p` (`str::starts_with`).
pub fn starts_with_chars(s: &[char], p: &[char]) -> (r: bool)
    ensures
        r == has_prefix(s@, p@),
{
    let r = matches_at(s, p, 0);
    proof {
        if r {
            assert(s@.subrange(0, p@.len() as int) == p@);
        }
    }
    r
}

/// Whether `s` ends with `p` (`str::ends_with`).
pub fn ends_with_chars(s: &[char], p: &[char]) -> (r: bool)
    ensures
        r == has_suffix(s@, p@),
{
    if p.len() > s.len() {
        return false;
    }
    matches_at(s, p, s.len() - p.len())
}

/// Whether the string `s` starts with `p`.
pub fn str_starts_with(s: &str, p: &str) -> (r: bool)
    ensures
        r == has_prefix(s@, p@),
{
    let a = to_chars(s);
    let b = to_chars(p);
    starts_with_chars(&a, &b)
}

/// Whether the string `s` ends with `p`.
pub fn str_ends_with(s: &str, p: &str) -> (r: bool)
    ensures
        r == has_suffix(s@, p@),
{
    let a = to_chars(s);
    let b = to_chars(p);
    ends_with_chars(&a, &b)
}

/// `cs[lo..hi]` as a new vector.
pub fn slice_chars(cs: &[char], lo: usize, hi: usize) -> (r: Vec<char>)
    requires
        lo <= hi <= cs.len(),
    ensures
        r@ == cs@.subrange(lo as int, hi as int),
{
    let mut out: Vec<char> = Vec::new();
    let mut k: usize = lo;
    while k < hi
        invariant
            lo <= k <= hi,
            hi <= cs.len(),
            out@ == cs@.subrange(lo as int, k as int),
        decreases hi - k,
    {
        out.push(cs[k]);
        k = k + 1;
        assert(cs@.subrange(lo as int, k as int) == cs@.subrange(lo as int, k - 1).push(cs@[k - 1]));
    }
    out
}

/// `a` followed by `b`.
pub fn concat_chars(a: &[char], b: &[char]) -> (r: Vec<char>)
    ensures
        r@ == a@ + b@,
{
    let mut out: Vec<char> = Vec::new();
    let mut k: usize = 0;
    while k < a.len()
        invariant
            k <= a.len(),
            out@ == a@.take(k as int),
        decreases a.len() - k,
    {
        out.push(a[k]);
        k = k + 1;
        assert(a@.take(k as int) == a@.take(k - 1).push(a@[k - 1]));
    }
    assert(a@.take(a.len() as int) == a@);
    let mut k: usize = 0;
    while k < b.len()
        invariant
            k <= b.len(),
            out@ == a@ + b@.take(k as int),
        decreases b.len() - k,
    {
        out.push(b[k]);
        k = k + 1;
        assert(b@.take(k as int) == b@.take(k - 1).push(b@[k - 1]));
    }
    assert(b@.take(b.len() as int) == b@);
    out
}

// ---------------------------------------------------------------- splitting

/// The pieces of `s` between occurrences of the separator `c`
/// (`str::split(c)`): always at least one piece.
pub open spec fn split_on(s: Seq<char>, c: char) -> Seq<Seq<char>>
    decreases s.len(),
{
    if s.len() == 0 {
        seq![Seq::<char>::empty()]
    } else {
        let rest = split_on(s.drop_first(), c);
        if s[0] == c {
            seq![Seq::<char>::empty()] + rest
        } else {
            rest.update(0, seq![s[0]] + rest[0])
        }
    }
}

/// `split_on` always yields at least one piece.
pub proof fn lemma_split_on_nonempty(s: Seq<char>, c: char)
    ensures
        split_on(s, c).len() >= 1,
    decreases s.len(),
{
    if s.len() > 0 {
        lemma_split_on_nonempty(s.drop_first(), c);
    }
}

/// Splitting at the first separator: the pieces of `s` are its part before the
/// first `c`, then the pieces of the rest.
pub proof fn lemma_split_on_first(s: Seq<char>, c: char, i: int)
    requires
        0 <= i <= s.len(),
        forall|k: int| 0 <= k < i ==> s[k] != c,
        i == s.len() || s[i] == c,
    ensures
        i == s.len() ==> split_on(s, c) == seq![s],
        i < s.len() ==> split_on(s, c) == seq![s.subrange(0, i)] + split_on(
            s.subrange(i + 1, s.len() as int),
            c,
        ),
    decreases i,
{
    if i == 0 {
        if s.len() == 0 {
            assert(s =~= Seq::<char>::empty());
        } else {
            assert(s.subrange(0, 0) =~= Seq::<char>::empty());
            assert(s.subrange(1, s.len() as int) =~= s.drop_first());
        }
    } else {
        let t = s.drop_first();
        lemma_split_on_first(t, c, i - 1);
        lemma_split_on_nonempty(t, c);
        if i == s.len() {
            assert(seq![s[0]] + t =~= s);
            assert(split_on(t, c) == seq![t]);
            assert(s[0] != c);
            assert(split_on(s, c) == split_on(t, c).update(0, seq![s[0]] + split_on(t, c)[0]));
            assert(split_on(s, c) =~= seq![s]);
        } else {
            assert(seq![s[0]] + t.subrange(0, i - 1) =~= s.subrange(0, i));
            assert(t.subrange(i, t.len() as int) =~= s.subrange(i + 1, s.len() as int));
        }
    }
}

/// Index of the first `c` in `cs` at or after `from`, or `cs.len()`.
pub fn index_of_char_from(cs: &[char], c: char, from: usize) -> (i: usize)
    requires
        from <= cs.len(),
    ensures
        from <= i <= cs.len(),
        forall|k: int| from <= k < i ==> cs@[k] != c,
        i == cs.len() || cs@[i as int] == c,
{
    let mut i: usize = from;
    while i < cs.len() && cs[i] != c
        invariant
            from <= i <= cs.len(),
            forall|k: int| from <= k < i ==> cs@[k] != c,
        decreases cs.len() - i,
    {
        i = i + 1;
    }
    i
}

/// The pieces of `cs` between occurrences of `c`.
pub fn split_char(cs: &[char], c: char) -> (r: Vec<Vec<char>>)
    ensures
        r@.len() == split_on(cs@, c).len(),
        forall|k: int| 0 <= k < r@.len() ==> (#[trigger] r@[k])@ == split_on(cs@, c)[k],
{
    let mut out: Vec<Vec<char>> = Vec::new();
    let mut start: usize = 0;
    assert(cs@.subrange(0, cs@.len() as int) =~= cs@);
    assert(out@.map_values(|v: Vec<char>| v@) =~= Seq::<Seq<char>>::empty());
    loop
        invariant
            start <= cs.len(),
            split_on(cs@, c) == out@.map_values(|v: Vec<char>| v@) + split_on(
                cs@.subrange(start as int, cs@.len() as int),
                c,
            ),
        decreases cs.len() - start,
    {
        let i = index_of_char_from(cs, c, start);
        let piece = slice_chars(cs, start, i);
        let ghost rest = cs@.subrange(start as int, cs@.len() as int);
        proof {
            assert forall|k: int| 0 <= k < i - start implies rest[k] != c by {
                assert(rest[k] == cs@[k + start]);
            }
            lemma_split_on_first(rest, c, i - start);
            assert(rest.subrange(0, i - start) =~= piece@);
        }
        let ghost before = out@.map_values(|v: Vec<char>| v@);
        out.push(piece);
        assert(out@.map_values(|v: Vec<char>| v@) =~= before.push(piece@));
        if i == cs.len() {
            assert(split_on(cs@, c) =~= out@.map_values(|v: Vec<char>| v@));
            return out;
        }
        proof {
            assert(rest.subrange(i - start + 1, rest.len() as int) =~= cs@.subrange(
                i + 1,
                cs@.len() as int,
            ));
            assert(before.push(piece@) + split_on(cs@.subrange(i + 1, cs@.len() as int), c)
                =~= before + (seq![piece@] + split_on(cs@.subrange(i + 1, cs@.len() as int), c)));
        }
        start = i + 1;
    }
}


// -------------------------------------------------------------- utf-8 length

/// Bytes `c` takes in UTF-8.
pub open spec fn char_width(c: char) -> nat {
    if (c as u32) <= 0x7f {
        1
    } else if (c as u32) <= 0x7ff {
        2
    } else if (c as u32) <= 0xffff {
        3
    } else {
        4
    }
}

/// Bytes `s` takes in UTF-8 — what `str::len` returns.
pub open spec fn utf8_len(s: Seq<char>) -> nat
    decreases s.len(),
{
    if s.len() == 0 {
        0
    } else {
        char_width(s[0]) + utf8_len(s.drop_first())
    }
}

/// The UTF-8 encoding of `s` is `utf8_len(s)` bytes long.
pub proof fn lemma_encode_len(s: Seq<char>)
    ensures
        vstd::utf8::encode_utf8(s).len() == utf8_len(s),
    decreases s.len(),
{
    if s.len() > 0 {
        lemma_encode_len(s.drop_first());
        let c = s[0];
        vstd::utf8::char_is_scalar(c);
        let v = c as u32;
        assert(vstd::utf8::encode_scalar(v).len() == char_width(c));
    }
}

/// Byte lengths add up over concatenation.
pub proof fn lemma_utf8_len_concat(a: Seq<char>, b: Seq<char>)
    ensures
        utf8_len(a + b) == utf8_len(a) + utf8_len(b),
    decreases a.len(),
{
    if a.len() > 0 {
        assert((a + b).drop_first() =~= a.drop_first() + b);
        lemma_utf8_len_concat(a.drop_first(), b);
    } else {
        assert(a + b =~= b);
    }
}

/// An ASCII sequence takes one byte per character.
pub proof fn lemma_utf8_len_ascii(s: Seq<char>)
    requires
        all_ascii(s),
    ensures
        utf8_len(s) == s.len(),
    decreases s.len(),
{
    if s.len() > 0 {
        assert(all_ascii(s.drop_first())) by {
            assert forall|i: int| 0 <= i < s.drop_first().len() implies ((#[trigger] s.drop_first()[i])
                as u32) <= 0x7f by {
                assert(s.drop_first()[i] == s[i + 1]);
            }
        }
        lemma_utf8_len_ascii(s.drop_first());
    }
}

/// Bytes `c` takes in UTF-8.
pub fn char_width_of(c: char) -> (w: usize)
    ensures
        w == char_width(c),
{
    let v = c as u32;
    if v <= 0x7f {
        1
    } else if v <= 0x7ff {
        2
    } else if v <= 0xffff {
        3
    } else {
        4
    }
}

/// Whether `cs` takes more than `limit` bytes in UTF-8.
pub fn utf8_len_exceeds(cs: &[char], limit: usize) -> (r: bool)
    ensures
        r == (utf8_len(cs@) > limit),
{
    let mut used: usize = 0;
    let mut i: usize = 0;
    assert(cs@.skip(0) =~= cs@);
    while i < cs.len()
        invariant
            i <= cs.len(),
            used <= limit,
            utf8_len(cs@) == used + utf8_len(cs@.skip(i as int)),
        decreases cs.len() - i,
    {
        let w = char_width_of(cs[i]);
        proof {
            let t = cs@.skip(i as int);
            assert(t[0] == cs@[i as int]);
            assert(t.drop_first() =~= cs@.skip(i + 1));
        }
        if w > limit - used {
            return true;
        }
        used = used + w;
        i = i + 1;
    }
    assert(cs@.skip(i as int).len() == 0);
    false
}

/// The longest prefix of `s` that fits in `budget` bytes of UTF-8 — where
/// `str` truncation lands when it backs off to a character boundary.
pub open spec fn fit_prefix(s: Seq<char>, budget: int) -> Seq<char>
    decreases s.len(),
{
    if s.len() == 0 || char_width(s[0]) > budget {
        Seq::empty()
    } else {
        seq![s[0]] + fit_prefix(s.drop_first(), budget - char_width(s[0]))
    }
}

/// `fit_prefix` fits its budget and is a prefix.
pub proof fn lemma_fit_prefix(s: Seq<char>, budget: int)
    ensures
        budget >= 0 ==> utf8_len(fit_prefix(s, budget)) <= budget,
        fit_prefix(s, budget).len() <= s.len(),
        fit_prefix(s, budget) == s.take(fit_prefix(s, budget).len() as int),
    decreases s.len(),
{
    if s.len() == 0 || char_width(s[0]) > budget {
        assert(s.take(0) =~= Seq::<char>::empty());
    } else {
        let rest = fit_prefix(s.drop_first(), budget - char_width(s[0]));
        lemma_fit_prefix(s.drop_first(), budget - char_width(s[0]));
        assert((seq![s[0]] + rest).drop_first() =~= rest);
        assert(seq![s[0]] + rest =~= s.take(rest.len() as int + 1));
    }
}

/// The characters of `cs` that fit in `budget` bytes, as a new vector.
pub fn fit_prefix_chars(cs: &[char], budget: usize) -> (r: Vec<char>)
    ensures
        r@ == fit_prefix(cs@, budget as int),
{
    let mut out: Vec<char> = Vec::new();
    let mut used: usize = 0;
    let mut i: usize = 0;
    assert(cs@.skip(0) =~= cs@);
    assert(out@ + fit_prefix(cs@, budget as int) =~= fit_prefix(cs@, budget as int));
    while i < cs.len() && char_width_of(cs[i]) <= budget - used
        invariant
            i <= cs.len(),
            used <= budget,
            out@ == cs@.take(i as int),
            fit_prefix(cs@, budget as int) == out@ + fit_prefix(
                cs@.skip(i as int),
                budget - used,
            ),
        decreases cs.len() - i,
    {
        let w = char_width_of(cs[i]);
        proof {
            let t = cs@.skip(i as int);
            assert(t[0] == cs@[i as int]);
            assert(t.drop_first() =~= cs@.skip(i + 1));
            assert(fit_prefix(t, budget - used) == seq![cs@[i as int]] + fit_prefix(
                cs@.skip(i + 1),
                budget - used - w,
            ));
            assert(cs@.take(i + 1) =~= out@.push(cs@[i as int]));
        }
        out.push(cs[i]);
        used = used + w;
        i = i + 1;
    }
    proof {
        let t = cs@.skip(i as int);
        if i < cs.len() {
            assert(t[0] == cs@[i as int]);
        } else {
            assert(t.len() == 0);
        }
        assert(fit_prefix(t, budget - used) =~= Seq::<char>::empty());
        assert(out@ + Seq::<char>::empty() =~= out@);
    }
    out
}


// -------------------------------------------------------------------- lines

/// A line without the `\r` of a `\r\n` ending.
pub open spec fn strip_cr(l: Seq<char>) -> Seq<char> {
    if l.len() > 0 && l.last() == '\r' {
        l.drop_last()
    } else {
        l
    }
}

/// The lines of `s` as `str::lines` yields them: split at `\n`, with the `\r`
/// of a `\r\n` ending removed, and no empty line after a final `\n`.
pub open spec fn lines(s: Seq<char>) -> Seq<Seq<char>> {
    let parts = split_on(s, '\n');
    let n: int = if s.len() == 0 || s.last() == '\n' {
        parts.len() - 1
    } else {
        parts.len() as int
    };
    Seq::new(
        n as nat,
        |i: int|
            if i < parts.len() - 1 {
                strip_cr(parts[i])
            } else {
                parts[i]
            },
    )
}

/// `split_on` of a sequence ending in the separator ends with an empty piece.
pub proof fn lemma_split_on_last(s: Seq<char>, c: char)
    ensures
        split_on(s, c).len() >= 1,
        (s.len() == 0 || s.last() == c) <==> split_on(s, c).last().len() == 0,
        (s.len() > 0 && s.last() == c) ==> split_on(s, c).len() >= 2,
    decreases s.len(),
{
    lemma_split_on_nonempty(s, c);
    if s.len() > 0 {
        let t = s.drop_first();
        lemma_split_on_last(t, c);
        let rest = split_on(t, c);
        if s.len() == 1 {
            assert(t.len() == 0);
        } else {
            assert(t.last() == s.last());
        }
        if s[0] == c {
            assert(split_on(s, c).last() == rest.last());
        } else if rest.len() > 1 {
            assert(split_on(s, c).last() == rest.last());
        } else {
            assert(split_on(s, c).last() == seq![s[0]] + rest[0]);
        }
    }
}

/// The lines of `cs`.
pub fn lines_of(cs: &[char]) -> (r: Vec<Vec<char>>)
    ensures
        r@.len() == lines(cs@).len(),
        forall|k: int| 0 <= k < r@.len() ==> (#[trigger] r@[k])@ == lines(cs@)[k],
{
    let parts = split_char(cs, '\n');
    proof {
        lemma_split_on_last(cs@, '\n');
    }
    let ends_nl = cs.len() == 0 || cs[cs.len() - 1] == '\n';
    let n = if ends_nl { parts.len() - 1 } else { parts.len() };
    let mut out: Vec<Vec<char>> = Vec::new();
    let mut i: usize = 0;
    while i < n
        invariant
            n <= parts@.len(),
            parts@.len() == split_on(cs@, '\n').len(),
            forall|k: int| 0 <= k < parts@.len() ==> (#[trigger] parts@[k])@ == split_on(cs@, '\n')[k],
            n == lines(cs@).len(),
            i <= n,
            out@.len() == i,
            forall|k: int| 0 <= k < i ==> (#[trigger] out@[k])@ == lines(cs@)[k],
        decreases n - i,
    {
        let p = &parts[i];
        let line = if i + 1 < parts.len() && p.len() > 0 && p[p.len() - 1] == '\r' {
            slice_chars(p, 0, p.len() - 1)
        } else {
            slice_chars(p, 0, p.len())
        };
        proof {
            assert(p@.subrange(0, p@.len() as int) =~= p@);
            assert(p@.subrange(0, p@.len() - 1) =~= p@.drop_last());
        }
        out.push(line);
        i = i + 1;
    }
    out
}

// ---------------------------------------------------------------- numbers

/// The ASCII digit for `d < 10`.
pub open spec fn digit_char(d: nat) -> char {
    (('0' as u32) + d) as char
}

/// The decimal digits of `n`, as `{n}` formats it.
pub open spec fn dec(n: nat) -> Seq<char>
    decreases n,
{
    if n < 10 {
        seq![digit_char(n)]
    } else {
        dec(n / 10).push(digit_char(n % 10))
    }
}

/// `n` in decimal.
pub fn dec_chars(n: u64) -> (r: Vec<char>)
    ensures
        r@ == dec(n as nat),
    decreases n,
{
    if n < 10 {
        let c = ((n as u8) + 48u8) as char;
        proof {
            assert(c == digit_char(n as nat));
        }
        let mut v: Vec<char> = Vec::new();
        v.push(c);
        v
    } else {
        let mut v = dec_chars(n / 10);
        let d = n % 10;
        let c = ((d as u8) + 48u8) as char;
        proof {
            assert(c == digit_char((n % 10) as nat));
        }
        v.push(c);
        v
    }
}

/// `n` in decimal, as a `String`.
pub fn dec_string(n: u64) -> (r: String)
    ensures
        r@ == dec(n as nat),
{
    let v = dec_chars(n);
    from_chars(&v)
}

/// The lowercase hex digit for `d < 16`.
pub open spec fn hex_digit(d: nat) -> char {
    if d < 10 {
        (('0' as u32) + d) as char
    } else {
        (('a' as u32) + d - 10) as char
    }
}

/// `h` as eight zero-padded lowercase hex digits (`{h:08x}`).
pub open spec fn hex8(h: u32) -> Seq<char> {
    Seq::new(8, |i: int| hex_digit(((h as nat) / pow16((7 - i) as nat)) % 16))
}

/// `16^e`.
pub open spec fn pow16(e: nat) -> nat
    decreases e,
{
    if e == 0 {
        1
    } else {
        16 * pow16((e - 1) as nat)
    }
}

/// `h` as eight zero-padded lowercase hex digits.
pub fn hex8_chars(h: u32) -> (r: Vec<char>)
    ensures
        r@ == hex8(h),
{
    let mut out: Vec<char> = Vec::new();
    let mut i: usize = 0;
    let mut div: u32 = 0x1000_0000;
    assert(pow16(7) == 0x1000_0000) by {
        reveal_with_fuel(pow16, 8);
    }
    while i < 8
        invariant
            i <= 8,
            div >= 1,
            div as nat == pow16((7 - i) as nat) || i == 8,
            out@.len() == i,
            forall|k: int| 0 <= k < i ==> out@[k] == hex8(h)[k],
        decreases 8 - i,
    {
        let d = (h / div) % 16;
        let c = if d < 10 { ((d as u8) + 48u8) as char } else { ((d as u8) + 87u8) as char };
        proof {
            assert(c == hex_digit(d as nat));
            assert(hex8(h)[i as int] == hex_digit(((h as nat) / pow16((7 - i) as nat)) % 16));
        }
        out.push(c);
        if i < 7 {
            proof {
                assert(pow16((7 - i) as nat) == 16 * pow16((7 - (i + 1)) as nat));
            }
            div = div / 16;
        }
        i = i + 1;
    }
    assert(out@ =~= hex8(h));
    out
}


// ------------------------------------------------------------------- ordering

/// Lexicographic order on character sequences by code point — the order
/// `String`'s `Ord` gives, since UTF-8 preserves code point order byte-wise.
pub open spec fn lex_lt(a: Seq<char>, b: Seq<char>) -> bool
    decreases a.len(),
{
    if a.len() == 0 {
        b.len() > 0
    } else if b.len() == 0 {
        false
    } else if (a[0] as u32) < (b[0] as u32) {
        true
    } else if a[0] == b[0] {
        lex_lt(a.drop_first(), b.drop_first())
    } else {
        false
    }
}

/// `lex_lt` is irreflexive.
pub proof fn lemma_lex_irrefl(a: Seq<char>)
    ensures
        !lex_lt(a, a),
    decreases a.len(),
{
    if a.len() > 0 {
        lemma_lex_irrefl(a.drop_first());
    }
}

/// `lex_lt` is transitive.
pub proof fn lemma_lex_trans(a: Seq<char>, b: Seq<char>, c: Seq<char>)
    requires
        lex_lt(a, b),
        lex_lt(b, c),
    ensures
        lex_lt(a, c),
    decreases a.len(),
{
    if a.len() > 0 && b.len() > 0 && c.len() > 0 {
        if a[0] == b[0] && b[0] == c[0] {
            lemma_lex_trans(a.drop_first(), b.drop_first(), c.drop_first());
        }
    }
}

/// `lex_lt` is total on distinct sequences.
pub proof fn lemma_lex_total(a: Seq<char>, b: Seq<char>)
    requires
        a != b,
    ensures
        lex_lt(a, b) || lex_lt(b, a),
    decreases a.len(),
{
    if a.len() == 0 {
        assert(b.len() > 0) by {
            if b.len() == 0 {
                assert(a =~= b);
            }
        }
    } else if b.len() == 0 {
    } else if a[0] == b[0] {
        if a.drop_first() == b.drop_first() {
            assert(a =~= seq![a[0]] + a.drop_first());
            assert(b =~= seq![b[0]] + b.drop_first());
        }
        lemma_lex_total(a.drop_first(), b.drop_first());
    } else {
        vstd::utf8::char_u32_cast(a[0], a[0] as u32);
        vstd::utf8::char_u32_cast(b[0], b[0] as u32);
    }
}

/// Whether `a` sorts before `b`.
pub fn lex_less(a: &[char], b: &[char]) -> (r: bool)
    ensures
        r == lex_lt(a@, b@),
{
    let mut i: usize = 0;
    assert(a@.skip(0) =~= a@);
    assert(b@.skip(0) =~= b@);
    while i < a.len() && i < b.len() && a[i] == b[i]
        invariant
            i <= a.len(),
            i <= b.len(),
            lex_lt(a@, b@) == lex_lt(a@.skip(i as int), b@.skip(i as int)),
        decreases a.len() - i,
    {
        proof {
            assert(a@.skip(i as int).drop_first() =~= a@.skip(i + 1));
            assert(b@.skip(i as int).drop_first() =~= b@.skip(i + 1));
        }
        i = i + 1;
    }
    proof {
        if i < a.len() {
            assert(a@.skip(i as int)[0] == a@[i as int]);
        }
        if i < b.len() {
            assert(b@.skip(i as int)[0] == b@[i as int]);
        }
    }
    if i == a.len() {
        i < b.len()
    } else if i == b.len() {
        false
    } else {
        (a[i] as u32) < (b[i] as u32)
    }
}

/// Strictly increasing under `lex_lt`: sorted, with no duplicates.
pub open spec fn sorted_unique(v: Seq<Seq<char>>) -> bool {
    forall|i: int, j: int| 0 <= i < j < v.len() ==> lex_lt(#[trigger] v[i], #[trigger] v[j])
}

/// The character sequences of a vector of character vectors.
pub open spec fn views(v: Seq<Vec<char>>) -> Seq<Seq<char>> {
    v.map_values(|e: Vec<char>| e@)
}

/// Insert `x` into the sorted, duplicate-free `v`, unless it is already there.
pub fn insert_sorted(v: &mut Vec<Vec<char>>, x: Vec<char>)
    requires
        sorted_unique(views(old(v)@)),
    ensures
        sorted_unique(views(final(v)@)),
        forall|s: Seq<char>|
            #[trigger] views(final(v)@).contains(s) <==> (views(old(v)@).contains(s) || s == x@),
{
    let ghost m0 = views(v@);
    let mut p: usize = 0;
    while p < v.len() && lex_less(&v[p], &x)
        invariant
            p <= v.len(),
            views(v@) == m0,
            forall|k: int| 0 <= k < p ==> lex_lt(#[trigger] m0[k], x@),
        decreases v.len() - p,
    {
        p = p + 1;
    }
    if p < v.len() && chars_eq(&v[p], &x) {
        proof {
            assert(m0[p as int] == x@);
            assert(m0.contains(x@));
        }
        return;
    }
    proof {
        if p < v.len() {
            assert(m0[p as int] == v@[p as int]@);
            lemma_lex_total(m0[p as int], x@);
            assert forall|k: int| p <= k < m0.len() implies lex_lt(x@, #[trigger] m0[k]) by {
                if k > p {
                    lemma_lex_trans(x@, m0[p as int], m0[k]);
                }
            }
        }
    }
    let ghost xv = x@;
    v.insert(p, x);
    proof {
        let m1 = views(v@);
        assert(m1 =~= m0.insert(p as int, xv));
        assert forall|i: int, j: int| 0 <= i < j < m1.len() implies lex_lt(
            #[trigger] m1[i],
            #[trigger] m1[j],
        ) by {
            if j < p {
            } else if i < p && j == p {
            } else if i < p {
                lemma_lex_trans(m0[i], xv, m0[j - 1]);
            } else if i == p {
            } else {
            }
        }
        assert forall|s: Seq<char>| #[trigger] m1.contains(s) <==> (m0.contains(s) || s == xv) by {
            if m1.contains(s) {
                let k = choose|k: int| 0 <= k < m1.len() && m1[k] == s;
                if k < p {
                    assert(m0[k] == s);
                } else if k > p {
                    assert(m0[k - 1] == s);
                }
            }
            if m0.contains(s) {
                let k = choose|k: int| 0 <= k < m0.len() && m0[k] == s;
                if k < p {
                    assert(m1[k] == s);
                } else {
                    assert(m1[k + 1] == s);
                }
            }
            if s == xv {
                assert(m1[p as int] == s);
            }
        }
    }
}


/// The character sequences of a sequence of strings.
pub open spec fn str_views(v: Seq<String>) -> Seq<Seq<char>> {
    v.map_values(|e: String| e@)
}

/// Strings holding the character vectors of `v`, in order.
pub fn strings_of(v: &Vec<Vec<char>>) -> (r: Vec<String>)
    ensures
        str_views(r@) == views(v@),
{
    let mut out: Vec<String> = Vec::new();
    let mut i: usize = 0;
    while i < v.len()
        invariant
            i <= v.len(),
            str_views(out@) == views(v@).take(i as int),
        decreases v.len() - i,
    {
        let s = from_chars(&v[i]);
        let ghost before = str_views(out@);
        out.push(s);
        assert(str_views(out@) =~= before.push(v@[i as int]@));
        i = i + 1;
        assert(str_views(out@) =~= views(v@).take(i as int));
    }
    assert(views(v@).take(v.len() as int) =~= views(v@));
    out
}


/// Two duplicate-free sorted sequences with the same elements are equal.
pub proof fn lemma_sorted_unique_eq(a: Seq<Seq<char>>, b: Seq<Seq<char>>)
    requires
        sorted_unique(a),
        sorted_unique(b),
        forall|s: Seq<char>| a.contains(s) <==> b.contains(s),
    ensures
        a == b,
    decreases a.len(),
{
    if a.len() == 0 {
        if b.len() > 0 {
            assert(b.contains(b[0]));
        }
        assert(a =~= b);
    } else if b.len() == 0 {
        assert(a.contains(a[0]));
    } else {
        // Both start with the least element.
        assert(a.contains(a[0]));
        let j = choose|j: int| 0 <= j < b.len() && b[j] == a[0];
        assert(b.contains(b[0]));
        let i = choose|i: int| 0 <= i < a.len() && a[i] == b[0];
        if j > 0 {
            if i > 0 {
                assert(lex_lt(a[0], a[i]));
                assert(lex_lt(b[0], b[j]));
                lemma_lex_trans(a[0], b[0], a[0]);
                lemma_lex_irrefl(a[0]);
            } else {
                assert(lex_lt(b[0], b[j]));
                lemma_lex_irrefl(b[0]);
            }
        }
        assert(a[0] == b[0]);
        let a1 = a.drop_first();
        let b1 = b.drop_first();
        assert forall|s: Seq<char>| a1.contains(s) <==> b1.contains(s) by {
            if a1.contains(s) {
                let k = choose|k: int| 0 <= k < a1.len() && a1[k] == s;
                assert(lex_lt(a[0], a[k + 1]));
                assert(b.contains(s));
                let m = choose|m: int| 0 <= m < b.len() && b[m] == s;
                if m == 0 {
                    lemma_lex_irrefl(s);
                }
                assert(b1[m - 1] == s);
            }
            if b1.contains(s) {
                let k = choose|k: int| 0 <= k < b1.len() && b1[k] == s;
                assert(lex_lt(b[0], b[k + 1]));
                assert(a.contains(s));
                let m = choose|m: int| 0 <= m < a.len() && a[m] == s;
                if m == 0 {
                    lemma_lex_irrefl(s);
                }
                assert(a1[m - 1] == s);
            }
        }
        assert(sorted_unique(a1)) by {
            assert forall|x: int, y: int| 0 <= x < y < a1.len() implies lex_lt(
                #[trigger] a1[x],
                #[trigger] a1[y],
            ) by {
                assert(a1[x] == a[x + 1] && a1[y] == a[y + 1]);
            }
        }
        assert(sorted_unique(b1)) by {
            assert forall|x: int, y: int| 0 <= x < y < b1.len() implies lex_lt(
                #[trigger] b1[x],
                #[trigger] b1[y],
            ) by {
                assert(b1[x] == b[x + 1] && b1[y] == b[y + 1]);
            }
        }
        lemma_sorted_unique_eq(a1, b1);
        assert(a =~= seq![a[0]] + a1);
        assert(b =~= seq![b[0]] + b1);
    }
}

/// `parts` joined with `sep` between consecutive pieces (`[..].join(sep)`).
pub open spec fn join(parts: Seq<Seq<char>>, sep: Seq<char>) -> Seq<char>
    decreases parts.len(),
{
    if parts.len() == 0 {
        Seq::empty()
    } else if parts.len() == 1 {
        parts[0]
    } else {
        parts[0] + sep + join(parts.drop_first(), sep)
    }
}

/// Joining one more piece appends the separator and the piece.
pub proof fn lemma_join_push(parts: Seq<Seq<char>>, sep: Seq<char>, x: Seq<char>)
    requires
        parts.len() > 0,
    ensures
        join(parts.push(x), sep) == join(parts, sep) + sep + x,
    decreases parts.len(),
{
    if parts.len() == 1 {
        assert(parts.push(x).drop_first() =~= seq![x]);
        assert(join(seq![x], sep) == x);
        assert(parts.push(x)[0] == parts[0]);
        assert(join(parts.push(x), sep) == parts[0] + sep + x);
    } else {
        assert(parts.push(x).drop_first() =~= parts.drop_first().push(x));
        lemma_join_push(parts.drop_first(), sep, x);
        let jr = join(parts.drop_first(), sep);
        assert(join(parts.push(x), sep) == parts[0] + sep + (jr + sep + x));
        assert(parts[0] + sep + (jr + sep + x) =~= (parts[0] + sep + jr) + sep + x);
    }
}

/// `parts` joined with `sep`.
pub fn join_chars(parts: &Vec<Vec<char>>, sep: &[char]) -> (r: Vec<char>)
    ensures
        r@ == join(views(parts@), sep@),
{
    if parts.len() == 0 {
        return Vec::new();
    }
    let mut out = slice_chars(&parts[0], 0, parts[0].len());
    assert(parts[0]@.subrange(0, parts[0]@.len() as int) =~= parts[0]@);
    assert(views(parts@).take(1) =~= seq![parts@[0]@]);
    let mut i: usize = 1;
    while i < parts.len()
        invariant
            1 <= i <= parts.len(),
            out@ == join(views(parts@).take(i as int), sep@),
        decreases parts.len() - i,
    {
        let a = concat_chars(&out, sep);
        out = concat_chars(&a, &parts[i]);
        proof {
            lemma_join_push(views(parts@).take(i as int), sep@, parts@[i as int]@);
            assert(views(parts@).take(i as int).push(parts@[i as int]@) =~= views(parts@).take(
                i + 1,
            ));
        }
        i = i + 1;
    }
    assert(views(parts@).take(parts.len() as int) =~= views(parts@));
    out
}

/// Whether `name` is among `present`.
pub fn has_string(present: &[String], name: &str) -> (r: bool)
    ensures
        r == str_views(present@).contains(name@),
{
    let mut i: usize = 0;
    while i < present.len()
        invariant
            i <= present.len(),
            forall|k: int| 0 <= k < i ==> present@[k]@ != name@,
        decreases present.len() - i,
    {
        if str_eq(present[i].as_str(), name) {
            assert(str_views(present@)[i as int] == name@);
            return true;
        }
        i = i + 1;
    }
    proof {
        if str_views(present@).contains(name@) {
            let k = choose|k: int| 0 <= k < present@.len() && str_views(present@)[k] == name@;
            assert(present@[k]@ == name@);
        }
    }
    false
}

/// `parts` joined with `sep`, as a `String`.
pub fn join_strings(parts: &Vec<String>, sep: &str) -> (r: String)
    ensures
        r@ == join(str_views(parts@), sep@),
{
    let mut vs: Vec<Vec<char>> = Vec::new();
    let mut i: usize = 0;
    while i < parts.len()
        invariant
            i <= parts.len(),
            views(vs@) == str_views(parts@).take(i as int),
        decreases parts.len() - i,
    {
        let ghost before = views(vs@);
        vs.push(to_chars(parts[i].as_str()));
        assert(views(vs@) =~= before.push(parts@[i as int]@));
        i = i + 1;
        assert(views(vs@) =~= str_views(parts@).take(i as int));
    }
    assert(str_views(parts@).take(parts.len() as int) =~= str_views(parts@));
    from_chars(&join_chars(&vs, &to_chars(sep)))
}

/// Splitting a join recovers the pieces when none holds the separator.
pub proof fn lemma_split_join(parts: Seq<Seq<char>>, c: char)
    requires
        parts.len() > 0,
        forall|i: int, k: int| 0 <= i < parts.len() && 0 <= k < parts[i].len() ==> #[trigger] parts[i][k] != c,
    ensures
        split_on(join(parts, seq![c]), c) == parts,
    decreases parts.len(),
{
    let p0 = parts[0];
    if parts.len() == 1 {
        lemma_split_on_first(p0, c, p0.len() as int);
        assert(parts =~= seq![p0]);
    } else {
        let rest = parts.drop_first();
        let j = join(parts, seq![c]);
        let jr = join(rest, seq![c]);
        assert(j == p0 + seq![c] + jr);
        assert forall|k: int| 0 <= k < p0.len() implies j[k] != c by {
            assert(j[k] == p0[k]);
            assert(parts[0][k] != c);
        }
        lemma_split_on_first(j, c, p0.len() as int);
        assert(j.subrange(0, p0.len() as int) =~= p0);
        assert(j.subrange(p0.len() as int + 1, j.len() as int) =~= jr);
        assert forall|i: int, k: int| 0 <= i < rest.len() && 0 <= k < rest[i].len() implies #[trigger] rest[i][k] != c by {
            assert(rest[i] == parts[i + 1]);
        }
        lemma_split_join(rest, c);
        assert(parts =~= seq![p0] + rest);
    }
}


/// `x` inserted into the sorted sequence `l`, unless already present.
pub open spec fn insert_spec(l: Seq<Seq<char>>, x: Seq<char>) -> Seq<Seq<char>>
    decreases l.len(),
{
    if l.len() == 0 {
        seq![x]
    } else if x == l[0] {
        l
    } else if lex_lt(x, l[0]) {
        seq![x] + l
    } else {
        seq![l[0]] + insert_spec(l.drop_first(), x)
    }
}

/// The elements of `ps`, sorted and without duplicates.
pub open spec fn sort_unique(ps: Seq<Seq<char>>) -> Seq<Seq<char>>
    decreases ps.len(),
{
    if ps.len() == 0 {
        Seq::empty()
    } else {
        insert_spec(sort_unique(ps.drop_last()), ps.last())
    }
}

/// Inserting keeps a sequence sorted and adds exactly `x`.
pub proof fn lemma_insert_spec(l: Seq<Seq<char>>, x: Seq<char>)
    requires
        sorted_unique(l),
    ensures
        sorted_unique(insert_spec(l, x)),
        forall|s: Seq<char>| #[trigger] insert_spec(l, x).contains(s) <==> (l.contains(s) || s == x),
        insert_spec(l, x).len() > 0 ==> (insert_spec(l, x)[0] == x || (l.len() > 0 && insert_spec(l, x)[0] == l[0])),
    decreases l.len(),
{
    let r = insert_spec(l, x);
    if l.len() == 0 {
        assert forall|s: Seq<char>| #[trigger] r.contains(s) <==> (l.contains(s) || s == x) by {
            if r.contains(s) {
                assert(r[0] == s);
            }
            if s == x {
                assert(r[0] == s);
            }
        }
    } else if x == l[0] {
        assert forall|s: Seq<char>| #[trigger] r.contains(s) <==> (l.contains(s) || s == x) by {
            if s == x {
                assert(l[0] == s);
            }
        }
    } else if lex_lt(x, l[0]) {
        assert forall|i: int, j: int| 0 <= i < j < r.len() implies lex_lt(#[trigger] r[i], #[trigger] r[j]) by {
            if i == 0 {
                if j > 1 {
                    lemma_lex_trans(x, l[0], l[j - 1]);
                }
            } else {
                assert(r[i] == l[i - 1] && r[j] == l[j - 1]);
            }
        }
        assert forall|s: Seq<char>| #[trigger] r.contains(s) <==> (l.contains(s) || s == x) by {
            if r.contains(s) {
                let k = choose|k: int| 0 <= k < r.len() && r[k] == s;
                if k > 0 {
                    assert(l[k - 1] == s);
                }
            }
            if l.contains(s) {
                let k = choose|k: int| 0 <= k < l.len() && l[k] == s;
                assert(r[k + 1] == s);
            }
            if s == x {
                assert(r[0] == s);
            }
        }
    } else {
        let t = l.drop_first();
        assert(sorted_unique(t)) by {
            assert forall|i: int, j: int| 0 <= i < j < t.len() implies lex_lt(#[trigger] t[i], #[trigger] t[j]) by {
                assert(t[i] == l[i + 1] && t[j] == l[j + 1]);
            }
        }
        lemma_insert_spec(t, x);
        let it = insert_spec(t, x);
        lemma_lex_total(x, l[0]);
        assert(lex_lt(l[0], x));
        assert forall|i: int, j: int| 0 <= i < j < r.len() implies lex_lt(#[trigger] r[i], #[trigger] r[j]) by {
            if i == 0 {
                assert(it.contains(r[j]));
                if r[j] == x {
                } else {
                    assert(t.contains(r[j]));
                    let k = choose|k: int| 0 <= k < t.len() && t[k] == r[j];
                    assert(l[k + 1] == r[j]);
                }
            } else {
                assert(r[i] == it[i - 1] && r[j] == it[j - 1]);
            }
        }
        assert forall|s: Seq<char>| #[trigger] r.contains(s) <==> (l.contains(s) || s == x) by {
            if r.contains(s) {
                let k = choose|k: int| 0 <= k < r.len() && r[k] == s;
                if k > 0 {
                    assert(it[k - 1] == s);
                    assert(it.contains(s));
                    if t.contains(s) {
                        let m = choose|m: int| 0 <= m < t.len() && t[m] == s;
                        assert(l[m + 1] == s);
                    }
                } else {
                    assert(l[0] == s);
                }
            }
            if l.contains(s) {
                let k = choose|k: int| 0 <= k < l.len() && l[k] == s;
                if k == 0 {
                    assert(r[0] == s);
                } else {
                    assert(t[k - 1] == s);
                    assert(it.contains(s));
                    let m = choose|m: int| 0 <= m < it.len() && it[m] == s;
                    assert(r[m + 1] == s);
                }
            }
            if s == x {
                assert(it.contains(s));
                let m = choose|m: int| 0 <= m < it.len() && it[m] == s;
                assert(r[m + 1] == s);
            }
        }
    }
}

/// `sort_unique(ps)` is sorted, duplicate-free, and holds exactly the
/// elements of `ps`.
pub proof fn lemma_sort_unique(ps: Seq<Seq<char>>)
    ensures
        sorted_unique(sort_unique(ps)),
        forall|s: Seq<char>| #[trigger] sort_unique(ps).contains(s) <==> ps.contains(s),
    decreases ps.len(),
{
    if ps.len() > 0 {
        let init = ps.drop_last();
        lemma_sort_unique(init);
        lemma_insert_spec(sort_unique(init), ps.last());
        assert forall|s: Seq<char>| #[trigger] sort_unique(ps).contains(s) <==> ps.contains(s) by {
            if ps.contains(s) {
                let k = choose|k: int| 0 <= k < ps.len() && ps[k] == s;
                if k < ps.len() - 1 {
                    assert(init[k] == s);
                    assert(init.contains(s));
                }
            }
            if init.contains(s) {
                let k = choose|k: int| 0 <= k < init.len() && init[k] == s;
                assert(ps[k] == s);
            }
        }
    }
}


// ------------------------------------------------------------ number parsing

/// Every character of `s` is an ASCII digit.
pub open spec fn all_digits(s: Seq<char>) -> bool {
    forall|i: int| 0 <= i < s.len() ==> is_digit(#[trigger] s[i])
}

/// The value of the decimal digits `s`.
pub open spec fn digits_value(s: Seq<char>) -> nat
    decreases s.len(),
{
    if s.len() == 0 {
        0
    } else {
        digits_value(s.drop_last()) * 10 + ((s.last() as u32) - ('0' as u32)) as nat
    }
}

/// What `str::parse` gives for an unsigned integer type whose largest value is
/// `max`: an optional leading `+`, then one or more ASCII digits whose value
/// fits.
pub open spec fn parse_uint(s: Seq<char>, max: nat) -> Option<nat> {
    let d = if s.len() > 0 && s[0] == '+' {
        s.drop_first()
    } else {
        s
    };
    if d.len() > 0 && all_digits(d) && digits_value(d) <= max {
        Some(digits_value(d))
    } else {
        None
    }
}

/// A longer run of digits never has a smaller value than its prefix.
pub proof fn lemma_digits_value_prefix(s: Seq<char>, i: int)
    requires
        0 <= i <= s.len(),
        all_digits(s),
    ensures
        digits_value(s.take(i)) <= digits_value(s),
    decreases s.len() - i,
{
    if i < s.len() {
        lemma_digits_value_prefix(s, i + 1);
        let t = s.take(i + 1);
        assert(t.drop_last() =~= s.take(i));
        assert(t.last() == s[i]);
        assert(is_digit(s[i]));
        assert(digits_value(t) == digits_value(s.take(i)) * 10 + ((s[i] as u32) - ('0' as u32)) as nat);
    } else {
        assert(s.take(i) =~= s);
    }
}

/// Parse `s` as an unsigned integer no larger than `max`, the way `str::parse`
/// does for the unsigned integer type whose largest value is `max`.
pub fn parse_uint_chars(s: &[char], max: u64) -> (r: Option<u64>)
    ensures
        r matches Some(n) ==> parse_uint(s@, max as nat) == Some(n as nat),
        r is None ==> parse_uint(s@, max as nat) is None,
{
    let start: usize = if s.len() > 0 && s[0] == '+' { 1 } else { 0 };
    let ghost d = if s@.len() > 0 && s@[0] == '+' { s@.drop_first() } else { s@ };
    assert(d =~= s@.subrange(start as int, s@.len() as int));
    if start >= s.len() {
        return None;
    }
    let mut v: u64 = 0;
    let mut i: usize = start;
    while i < s.len()
        invariant
            start <= i <= s.len(),
            d =~= s@.subrange(start as int, s@.len() as int),
            d == (if s@.len() > 0 && s@[0] == '+' { s@.drop_first() } else { s@ }),
            all_digits(d.take(i - start)),
            v as nat == digits_value(d.take(i - start)),
            v <= max,
        decreases s.len() - i,
    {
        let c = s[i];
        if c < '0' || c > '9' {
            proof {
                assert(d[i - start] == s@[i as int]);
                assert(!is_digit(d[i - start]));
                assert(!all_digits(d));
            }
            return None;
        }
        let digit: u64 = ((c as u32) - 48) as u64;
        let ghost t = d.take(i - start + 1);
        proof {
            assert(t.drop_last() =~= d.take(i - start));
            assert(t.last() == c);
            assert(digits_value(t) == digits_value(d.take(i - start)) * 10 + digit);
            assert forall|k: int| 0 <= k < t.len() implies is_digit(#[trigger] t[k]) by {
                if k < t.len() - 1 {
                    assert(t[k] == d.take(i - start)[k]);
                }
            }
        }
        if digit > max || v > (max - digit) / 10 {
            proof {
                assert(v * 10 + digit > max) by (nonlinear_arith)
                    requires
                        digit > max || v > (max - digit) / 10,
                ;
                if all_digits(d) {
                    lemma_digits_value_prefix(d, i - start + 1);
                }
            }
            return None;
        }
        proof {
            assert(v * 10 + digit <= max) by (nonlinear_arith)
                requires
                    v <= (max - digit) / 10,
                    digit <= max,
            ;
        }
        v = v * 10 + digit;
        i = i + 1;
    }
    assert(d.take(i - start) =~= d);
    Some(v)
}

/// Copies of `v`'s strings.
pub fn copy_strings(v: &[String]) -> (r: Vec<String>)
    ensures
        str_views(r@) == str_views(v@),
{
    let mut out: Vec<String> = Vec::new();
    let mut i: usize = 0;
    while i < v.len()
        invariant
            i <= v.len(),
            str_views(out@) == str_views(v@).take(i as int),
        decreases v.len() - i,
    {
        let ghost before = str_views(out@);
        out.push(copy_string(&v[i]));
        assert(str_views(out@) =~= before.push(v@[i as int]@));
        i = i + 1;
        assert(str_views(out@) =~= str_views(v@).take(i as int));
    }
    assert(str_views(v@).take(v.len() as int) =~= str_views(v@));
    out
}

/// The first index at or after `i` that holds an ASCII digit, or the length.
pub open spec fn skip_non_digits(s: Seq<char>, i: int) -> int
    decreases s.len() - i,
{
    if i < 0 || i >= s.len() || is_digit(s[i]) {
        i
    } else {
        skip_non_digits(s, i + 1)
    }
}

/// The first index at or after `i` that does not hold an ASCII digit, or the
/// length.
pub open spec fn skip_digits(s: Seq<char>, i: int) -> int
    decreases s.len() - i,
{
    if i < 0 || i >= s.len() || !is_digit(s[i]) {
        i
    } else {
        skip_digits(s, i + 1)
    }
}

/// The bounds of the two scans, and what the digit scan passes over.
pub proof fn lemma_skip_bounds(s: Seq<char>, i: int)
    requires
        0 <= i <= s.len(),
    ensures
        i <= skip_non_digits(s, i) <= s.len(),
        i <= skip_digits(s, i) <= s.len(),
        forall|k: int| i <= k < skip_digits(s, i) ==> is_digit(#[trigger] s[k]),
    decreases s.len() - i,
{
    if i < s.len() {
        lemma_skip_bounds(s, i + 1);
    }
}

/// `skip_non_digits` on a character slice.
pub fn skip_non_digits_from(cs: &[char], i: usize) -> (r: usize)
    requires
        i <= cs.len(),
    ensures
        r as int == skip_non_digits(cs@, i as int),
        i <= r <= cs.len(),
{
    let mut j: usize = i;
    while j < cs.len() && !(cs[j] >= '0' && cs[j] <= '9')
        invariant
            i <= j <= cs.len(),
            skip_non_digits(cs@, i as int) == skip_non_digits(cs@, j as int),
        decreases cs.len() - j,
    {
        j = j + 1;
    }
    j
}

/// `skip_digits` on a character slice.
pub fn skip_digits_from(cs: &[char], i: usize) -> (r: usize)
    requires
        i <= cs.len(),
    ensures
        r as int == skip_digits(cs@, i as int),
        i <= r <= cs.len(),
{
    let mut j: usize = i;
    while j < cs.len() && cs[j] >= '0' && cs[j] <= '9'
        invariant
            i <= j <= cs.len(),
            skip_digits(cs@, i as int) == skip_digits(cs@, j as int),
        decreases cs.len() - j,
    {
        j = j + 1;
    }
    j
}


// ------------------------------------------------------- repeated stripping

/// `s` with every leading copy of `p` removed (`str::trim_start_matches`).
pub open spec fn trim_start_matches(s: Seq<char>, p: Seq<char>) -> Seq<char>
    decreases s.len(),
{
    if p.len() > 0 && has_prefix(s, p) {
        trim_start_matches(s.skip(p.len() as int), p)
    } else {
        s
    }
}

/// `s` with every trailing copy of `p` removed (`str::trim_end_matches`).
pub open spec fn trim_end_matches(s: Seq<char>, p: Seq<char>) -> Seq<char>
    decreases s.len(),
{
    if p.len() > 0 && has_suffix(s, p) {
        trim_end_matches(s.take(s.len() - p.len()), p)
    } else {
        s
    }
}

/// Strip every leading copy of `p` from `s`.
pub fn trim_start_matches_chars(s: &[char], p: &[char]) -> (r: Vec<char>)
    ensures
        r@ == trim_start_matches(s@, p@),
{
    let mut i: usize = 0;
    if p.len() == 0 {
        return slice_chars(s, 0, s.len());
    }
    assert(s@.skip(0) =~= s@);
    while p.len() <= s.len() - i && matches_at(s, p, i)
        invariant
            i <= s.len(),
            p@.len() > 0,
            trim_start_matches(s@, p@) == trim_start_matches(s@.skip(i as int), p@),
        decreases s.len() - i,
    {
        proof {
            let t = s@.skip(i as int);
            assert(t.subrange(0, p@.len() as int) =~= s@.subrange(i as int, i + p@.len()));
            assert(t.skip(p@.len() as int) =~= s@.skip(i + p@.len()));
        }
        i = i + p.len();
    }
    proof {
        let t = s@.skip(i as int);
        if p@.len() <= t.len() && has_prefix(t, p@) {
            assert(t.subrange(0, p@.len() as int) =~= s@.subrange(i as int, i + p@.len()));
        }
    }
    let r = slice_chars(s, i, s.len());
    assert(r@ =~= s@.skip(i as int));
    r
}

/// Strip every trailing copy of `p` from `s`.
pub fn trim_end_matches_chars(s: &[char], p: &[char]) -> (r: Vec<char>)
    ensures
        r@ == trim_end_matches(s@, p@),
{
    let mut j: usize = s.len();
    assert(s@.take(j as int) =~= s@);
    if p.len() == 0 {
        return slice_chars(s, 0, j);
    }
    while j >= p.len() && matches_at(s, p, j - p.len())
        invariant
            j <= s.len(),
            p@.len() > 0,
            trim_end_matches(s@, p@) == trim_end_matches(s@.take(j as int), p@),
        decreases j,
    {
        proof {
            let t = s@.take(j as int);
            assert(t.subrange(t.len() - p@.len(), t.len() as int) =~= s@.subrange(j - p@.len(), j as int));
            assert(t.take(t.len() - p@.len()) =~= s@.take(j - p@.len()));
        }
        j = j - p.len();
    }
    proof {
        let t = s@.take(j as int);
        if p@.len() <= t.len() && has_suffix(t, p@) {
            assert(t.subrange(t.len() - p@.len(), t.len() as int) =~= s@.subrange(j - p@.len(), j as int));
        }
    }
    slice_chars(s, 0, j)
}

/// The index where the last occurrence of `needle` in `hay` starts.
pub open spec fn rfind(hay: Seq<char>, needle: Seq<char>) -> Option<int>
    decreases hay.len(),
{
    if has_suffix(hay, needle) {
        Some(hay.len() - needle.len())
    } else if hay.len() == 0 {
        None
    } else {
        rfind(hay.drop_last(), needle)
    }
}

/// Bounds of `rfind`.
pub proof fn lemma_rfind(hay: Seq<char>, needle: Seq<char>)
    ensures
        rfind(hay, needle) matches Some(k) ==> 0 <= k && k + needle.len() <= hay.len(),
        hay.len() < needle.len() ==> rfind(hay, needle) is None,
    decreases hay.len(),
{
    if !has_suffix(hay, needle) && hay.len() > 0 {
        lemma_rfind(hay.drop_last(), needle);
    }
}

/// The last occurrence of `needle` in `hay`.
pub fn rfind_chars(hay: &[char], needle: &[char]) -> (r: Option<usize>)
    ensures
        r matches Some(k) ==> rfind(hay@, needle@) == Some(k as int) && k + needle@.len() <= hay@.len(),
        r is None ==> rfind(hay@, needle@) is None,
{
    let mut j: usize = hay.len();
    assert(hay@.take(j as int) =~= hay@);
    while j >= needle.len()
        invariant
            j <= hay.len(),
            rfind(hay@, needle@) == rfind(hay@.take(j as int), needle@),
        decreases j,
    {
        let t = Ghost(hay@.take(j as int));
        if matches_at(hay, needle, j - needle.len()) {
            assert(t@.subrange(t@.len() - needle@.len(), t@.len() as int) =~= hay@.subrange(
                j - needle@.len(),
                j as int,
            ));
            return Some(j - needle.len());
        }
        proof {
            if has_suffix(t@, needle@) {
                assert(t@.subrange(t@.len() - needle@.len(), t@.len() as int) =~= hay@.subrange(
                    j - needle@.len(),
                    j as int,
                ));
            }
        }
        if j == 0 {
            assert(t@.len() == 0);
            return None;
        }
        assert(t@.drop_last() =~= hay@.take(j - 1));
        j = j - 1;
    }
    proof {
        lemma_rfind(hay@.take(j as int), needle@);
    }
    None
}

// ---------------------------------------------------------------- replacing

/// `s` with every non-overlapping occurrence of `pat`, scanned from the
/// left, replaced by `rep` (`str::replace`, for a non-empty `pat`).
pub open spec fn replace_all(s: Seq<char>, pat: Seq<char>, rep: Seq<char>) -> Seq<char>
    decreases s.len(),
{
    if s.len() == 0 || pat.len() == 0 {
        s
    } else if has_prefix(s, pat) {
        rep + replace_all(s.skip(pat.len() as int), pat, rep)
    } else {
        seq![s[0]] + replace_all(s.drop_first(), pat, rep)
    }
}

/// `s` with every occurrence of `pat` replaced by `rep`.
pub fn replace_str(s: &str, pat: &str, rep: &str) -> (r: String)
    ensures
        r@ == replace_all(s@, pat@, rep@),
{
    let cs = to_chars(s);
    let p = to_chars(pat);
    let mut out = String::new();
    if p.len() == 0 {
        return from_chars(&cs);
    }
    let mut i: usize = 0;
    assert(cs@.skip(0) =~= cs@);
    while i < cs.len()
        invariant
            i <= cs.len(),
            cs@ == s@,
            p@ == pat@,
            p@.len() > 0,
            replace_all(s@, pat@, rep@) == out@ + replace_all(cs@.skip(i as int), pat@, rep@),
        decreases cs.len() - i,
    {
        let ghost t = cs@.skip(i as int);
        if matches_at(&cs, &p, i) {
            proof {
                assert(t.subrange(0, p@.len() as int) =~= cs@.subrange(i as int, i + p@.len()));
                assert(t.skip(p@.len() as int) =~= cs@.skip(i + p@.len()));
                assert(out@ + (rep@ + replace_all(cs@.skip(i + p@.len()), pat@, rep@)) =~= (out@
                    + rep@) + replace_all(cs@.skip(i + p@.len()), pat@, rep@));
            }
            push_str(&mut out, rep);
            i = i + p.len();
        } else {
            proof {
                if p@.len() <= t.len() && has_prefix(t, p@) {
                    assert(t.subrange(0, p@.len() as int) =~= cs@.subrange(i as int, i + p@.len()));
                }
                assert(t.drop_first() =~= cs@.skip(i + 1));
                assert(t[0] == cs@[i as int]);
                assert(out@ + (seq![cs@[i as int]] + replace_all(cs@.skip(i + 1), pat@, rep@))
                    =~= out@.push(cs@[i as int]) + replace_all(cs@.skip(i + 1), pat@, rep@));
            }
            out.push(cs[i]);
            i = i + 1;
        }
    }
    assert(cs@.skip(i as int) =~= Seq::<char>::empty());
    assert(out@ + Seq::<char>::empty() =~= out@);
    out
}

// ------------------------------------------------------ char sets and words

/// `s` with every trailing character that is in `set` removed
/// (`str::trim_end_matches` with a set of characters).
pub open spec fn trim_end_any(s: Seq<char>, set: Seq<char>) -> Seq<char>
    decreases s.len(),
{
    if s.len() > 0 && set.contains(s.last()) {
        trim_end_any(s.drop_last(), set)
    } else {
        s
    }
}

/// Strip every trailing character of `cs` that is in `set`.
pub fn trim_end_any_chars(cs: &[char], set: &[char]) -> (r: Vec<char>)
    ensures
        r@ == trim_end_any(cs@, set@),
{
    let mut j: usize = cs.len();
    assert(cs@.take(j as int) =~= cs@);
    loop
        invariant
            j <= cs.len(),
            trim_end_any(cs@, set@) == trim_end_any(cs@.take(j as int), set@),
        ensures
            j <= cs.len(),
            trim_end_any(cs@, set@) == cs@.take(j as int),
        decreases j,
    {
        if j == 0 {
            assert(cs@.take(0) =~= Seq::<char>::empty());
            break;
        }
        let c = cs[j - 1];
        let mut found = false;
        let mut k: usize = 0;
        while k < set.len()
            invariant
                k <= set.len(),
                found <==> exists|m: int| 0 <= m < k && set@[m] == c,
            decreases set.len() - k,
        {
            if set[k] == c {
                found = true;
            }
            k = k + 1;
        }
        let ghost t = cs@.take(j as int);
        assert(t.last() == c);
        if !found {
            assert(!set@.contains(c));
            break;
        }
        assert(t.drop_last() =~= cs@.take(j - 1));
        j = j - 1;
    }
    let r = slice_chars(cs, 0, j);
    assert(r@ =~= cs@.take(j as int));
    r
}

/// `s` with every leading character that is in `set` removed.
pub open spec fn trim_start_any(s: Seq<char>, set: Seq<char>) -> Seq<char>
    decreases s.len(),
{
    if s.len() > 0 && set.contains(s[0]) {
        trim_start_any(s.drop_first(), set)
    } else {
        s
    }
}

/// Strip every leading character of `cs` that is in `set`.
pub fn trim_start_any_chars(cs: &[char], set: &[char]) -> (r: Vec<char>)
    ensures
        r@ == trim_start_any(cs@, set@),
{
    let mut i: usize = 0;
    assert(cs@.skip(0) =~= cs@);
    loop
        invariant
            i <= cs.len(),
            trim_start_any(cs@, set@) == trim_start_any(cs@.skip(i as int), set@),
        ensures
            i <= cs.len(),
            trim_start_any(cs@, set@) == cs@.skip(i as int),
        decreases cs.len() - i,
    {
        if i == cs.len() {
            assert(cs@.skip(i as int) =~= Seq::<char>::empty());
            break;
        }
        let c = cs[i];
        let mut found = false;
        let mut k: usize = 0;
        while k < set.len()
            invariant
                k <= set.len(),
                found <==> exists|m: int| 0 <= m < k && set@[m] == c,
            decreases set.len() - k,
        {
            if set[k] == c {
                found = true;
            }
            k = k + 1;
        }
        let ghost t = cs@.skip(i as int);
        assert(t[0] == c);
        if !found {
            assert(!set@.contains(c));
            break;
        }
        assert(t.drop_first() =~= cs@.skip(i + 1));
        i = i + 1;
    }
    let r = slice_chars(cs, i, cs.len());
    assert(r@ =~= cs@.skip(i as int));
    r
}

/// Reading `s` left to right: the whitespace-separated words finished so far,
/// and the word in progress.
pub open spec fn word_scan(s: Seq<char>) -> (Seq<Seq<char>>, Seq<char>)
    decreases s.len(),
{
    if s.len() == 0 {
        (Seq::empty(), Seq::empty())
    } else {
        let (ws, cur) = word_scan(s.drop_last());
        if is_ws(s.last()) {
            if cur.len() > 0 {
                (ws.push(cur), Seq::empty())
            } else {
                (ws, cur)
            }
        } else {
            (ws, cur.push(s.last()))
        }
    }
}

/// The words of `s`: its maximal runs of non-whitespace
/// (`str::split_whitespace`).
pub open spec fn words(s: Seq<char>) -> Seq<Seq<char>> {
    let (ws, cur) = word_scan(s);
    if cur.len() > 0 {
        ws.push(cur)
    } else {
        ws
    }
}

/// The words of `cs` (see [`words`]).
pub fn words_of(cs: &[char]) -> (r: Vec<Vec<char>>)
    ensures
        views(r@) == words(cs@),
{
    let mut out: Vec<Vec<char>> = Vec::new();
    let mut cur: Vec<char> = Vec::new();
    let mut i: usize = 0;
    assert(cs@.take(0) =~= Seq::<char>::empty());
    assert(views(out@) =~= Seq::<Seq<char>>::empty());
    while i < cs.len()
        invariant
            i <= cs.len(),
            word_scan(cs@.take(i as int)) == (views(out@), cur@),
        decreases cs.len() - i,
    {
        assert(cs@.take(i + 1).drop_last() =~= cs@.take(i as int));
        assert(cs@.take(i + 1).last() == cs@[i as int]);
        let c = cs[i];
        if is_whitespace(c) {
            if cur.len() > 0 {
                let ghost before = views(out@);
                let w = cur;
                let ghost wv = w@;
                out.push(w);
                assert(views(out@) =~= before.push(wv));
                cur = Vec::new();
                assert(cur@ =~= Seq::<char>::empty());
            }
        } else {
            cur.push(c);
        }
        i = i + 1;
    }
    assert(cs@.take(cs.len() as int) =~= cs@);
    if cur.len() > 0 {
        let ghost before = views(out@);
        let ghost wv = cur@;
        out.push(cur);
        assert(views(out@) =~= before.push(wv));
    }
    out
}

} // verus!
