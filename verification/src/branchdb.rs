//! Branch-aware databases: the naming scheme and the two small readers.
//!
//! A site with a database configured gets one database per git branch. The
//! base name always holds the checked-out branch's data; every other branch's
//! data is parked in a database named `<base>@<branch>`, kept within
//! Postgres's 63-byte identifier limit.

use vstd::prelude::*;

use crate::text::{
    all_ascii, fit_prefix, fit_prefix_chars, from_chars, has_prefix, hex8, hex8_chars, hex_digit,
    is_ctrl, lemma_fit_prefix, lemma_utf8_len_ascii, lemma_utf8_len_concat, pow16, push_chars,
    push_str, slice_chars, starts_with_chars, to_chars, trim, trim_chars, utf8_len,
    ends_with_chars, has_suffix, lines, lines_of, trim_start, trim_start_chars,
    utf8_len_exceeds,
};

verus! {

/// Postgres's identifier limit, in bytes.
pub const MAX_IDENT: usize = 63;

/// `<base>@<branch>` before any truncation.
pub open spec fn full_name(base: Seq<char>, branch: Seq<char>) -> Seq<char> {
    base + seq!['@'] + branch
}

/// FNV-1a (32-bit) of `bytes`.
pub open spec fn fnv1a_spec(bytes: Seq<u8>) -> u32
    decreases bytes.len(),
{
    if bytes.len() == 0 {
        0x811c_9dc5u32
    } else {
        vstd::wrapping::u32_specs::wrapping_mul(
            fnv1a_spec(bytes.drop_last()) ^ (bytes.last() as u32),
            0x0100_0193u32,
        )
    }
}

/// The parked database name for `branch` of `base`: the full name when it
/// fits in 63 bytes, else its longest prefix that fits in 54 bytes followed by
/// `-` and the FNV-1a hash of the full name's UTF-8 bytes in eight hex digits.
pub open spec fn parked_name(base: Seq<char>, branch: Seq<char>) -> Seq<char> {
    let full = full_name(base, branch);
    if utf8_len(full) <= 63 {
        full
    } else {
        fit_prefix(full, 54) + seq!['-'] + hex8(fnv1a_spec(vstd::utf8::encode_utf8(full)))
    }
}

/// The branch a parked name belongs to, given the base.
pub open spec fn branch_of(base: Seq<char>, db: Seq<char>) -> Option<Seq<char>> {
    let p = base + seq!['@'];
    if has_prefix(db, p) {
        Some(db.skip(p.len() as int))
    } else {
        None
    }
}

/// A name that is safe inside a quoted Postgres identifier or string literal.
pub open spec fn is_safe_identifier(name: Seq<char>) -> bool {
    &&& name.len() > 0
    &&& utf8_len(name) <= 63
    &&& forall|i: int|
        0 <= i < name.len() ==> {
            let c = #[trigger] name[i];
            c != '"' && c != '\'' && c != '\\' && !is_ctrl(c)
        }
}

/// FNV-1a of `bytes`. Stable across builds, unlike the std hasher.
pub fn fnv1a(bytes: &[u8]) -> (h: u32)
    ensures
        h == fnv1a_spec(bytes@),
{
    let mut hash: u32 = 0x811c_9dc5;
    let mut i: usize = 0;
    assert(bytes@.take(0) =~= Seq::<u8>::empty());
    while i < bytes.len()
        invariant
            i <= bytes.len(),
            hash == fnv1a_spec(bytes@.take(i as int)),
        decreases bytes.len() - i,
    {
        hash = hash ^ (bytes[i] as u32);
        hash = hash.wrapping_mul(0x0100_0193);
        proof {
            assert(bytes@.take(i + 1).drop_last() =~= bytes@.take(i as int));
        }
        i = i + 1;
    }
    assert(bytes@.take(bytes.len() as int) =~= bytes@);
    hash
}

/// The parked database name for a branch: `<base>@<branch>`, within 63 bytes.
///
/// When the full name doesn't fit it is truncated on a character boundary and
/// suffixed with a stable hash of the full name, so long branch names stay
/// distinct and the same branch always maps to the same database.
pub fn branch_db_name(base: &str, branch: &str) -> (r: String)
    ensures
        r@ == parked_name(base@, branch@),
        utf8_len(r@) <= 63,
{
    let mut full = String::new();
    push_str(&mut full, base);
    full.push('@');
    push_str(&mut full, branch);
    assert(full@ =~= full_name(base@, branch@));
    let cs = to_chars(full.as_str());
    if !utf8_len_exceeds(&cs, MAX_IDENT) {
        return full;
    }
    let hash = fnv1a(full.as_str().as_bytes());
    let head = fit_prefix_chars(&cs, 54);
    let hex = hex8_chars(hash);
    let mut out = from_chars(&head);
    out.push('-');
    push_chars(&mut out, &hex);
    proof {
        lemma_fit_prefix(cs@, 54);
        let tag = seq!['-'] + hex8(hash);
        assert(all_ascii(tag)) by {
            assert forall|i: int| 0 <= i < tag.len() implies ((#[trigger] tag[i]) as u32) <= 0x7f by {
                if i > 0 {
                    let d = ((hash as nat) / pow16((7 - (i - 1)) as nat)) % 16;
                    assert(tag[i] == hex_digit(d));
                }
            }
        }
        lemma_utf8_len_ascii(tag);
        assert(out@ =~= head@ + tag);
        lemma_utf8_len_concat(head@, tag);
    }
    out
}

/// A branch's name back out of a parked database name, given the base.
pub fn branch_of_db(base: &str, db: &str) -> (r: Option<String>)
    ensures
        r matches Some(b) ==> branch_of(base@, db@) == Some(b@),
        r is None ==> branch_of(base@, db@) is None,
{
    let mut prefix = to_chars(base);
    prefix.push('@');
    let d = to_chars(db);
    assert(prefix@ =~= base@ + seq!['@']);
    if starts_with_chars(&d, &prefix) {
        let rest = slice_chars(&d, prefix.len(), d.len());
        Some(from_chars(&rest))
    } else {
        None
    }
}

/// Guard a name that will be interpolated into quoted Postgres identifiers and
/// string literals: non-empty, at most 63 bytes, no quote characters, no
/// backslash, no control characters.
pub fn safe_identifier(name: &str) -> (r: bool)
    ensures
        r == is_safe_identifier(name@),
{
    let cs = to_chars(name);
    if cs.len() == 0 || utf8_len_exceeds(&cs, MAX_IDENT) {
        return false;
    }
    let mut i: usize = 0;
    while i < cs.len()
        invariant
            i <= cs.len(),
            cs@ == name@,
            forall|k: int|
                0 <= k < i ==> {
                    let c = #[trigger] cs@[k];
                    c != '"' && c != '\'' && c != '\\' && !is_ctrl(c)
                },
        decreases cs.len() - i,
    {
        let c = cs[i];
        if c == '"' || c == '\'' || c == '\\' || c <= '\u{1f}' || ('\u{7f}' <= c && c <= '\u{9f}') {
            return false;
        }
        i = i + 1;
    }
    true
}

/// The branch named by the text of `.git/HEAD`: what follows
/// `ref: refs/heads/` after trimming. A detached head (a bare hash) or an
/// empty name is `None`.
pub open spec fn head_branch(head: Seq<char>) -> Option<Seq<char>> {
    let t = trim(head);
    let p = "ref: refs/heads/"@;
    if has_prefix(t, p) && t.len() > p.len() {
        Some(t.skip(p.len() as int))
    } else {
        None
    }
}

/// The checked-out branch, from the contents of `.git/HEAD`.
pub fn branch_from_head(head: &str) -> (r: Option<String>)
    ensures
        r matches Some(b) ==> head_branch(head@) == Some(b@),
        r is None ==> head_branch(head@) is None,
{
    let cs = to_chars(head);
    let t = trim_chars(&cs);
    let p = to_chars("ref: refs/heads/");
    if starts_with_chars(&t, &p) && t.len() > p.len() {
        let rest = slice_chars(&t, p.len(), t.len());
        Some(from_chars(&rest))
    } else {
        None
    }
}


/// A value with one pair of matching surrounding quotes (`"…"` or `'…'`)
/// removed.
pub open spec fn unquote(v: Seq<char>) -> Seq<char> {
    if has_prefix(v, seq!['"']) && has_suffix(v.skip(1), seq!['"']) {
        v.skip(1).drop_last()
    } else if has_prefix(v, seq!['\'']) && has_suffix(v.skip(1), seq!['\'']) {
        v.skip(1).drop_last()
    } else {
        v
    }
}

/// The `DB_DATABASE` value one `.env` line sets, if it sets one: the line
/// trimmed, not a `#` comment, `DB_DATABASE`, optional blanks, `=`, then the
/// trimmed and unquoted value, when not empty.
pub open spec fn env_line_database(line: Seq<char>) -> Option<Seq<char>> {
    let l = trim(line);
    let key = "DB_DATABASE"@;
    if has_prefix(l, seq!['#']) || !has_prefix(l, key) {
        None
    } else {
        let rest = trim_start(l.skip(key.len() as int));
        if !has_prefix(rest, seq!['=']) {
            None
        } else {
            let v = unquote(trim(rest.skip(1)));
            if v.len() == 0 {
                None
            } else {
                Some(v)
            }
        }
    }
}

/// The first line of `.env` text, from line `i` on, that sets a database.
pub open spec fn env_database_from(ls: Seq<Seq<char>>, i: int) -> Option<Seq<char>>
    decreases ls.len() - i,
{
    if i < 0 || i >= ls.len() {
        None
    } else if env_line_database(ls[i]) is Some {
        env_line_database(ls[i])
    } else {
        env_database_from(ls, i + 1)
    }
}

/// A project's database name from its `.env` text: the first non-comment
/// `DB_DATABASE` line with a non-empty value.
pub open spec fn env_database_of(text: Seq<char>) -> Option<Seq<char>> {
    env_database_from(lines(text), 0)
}

fn line_database(line: &[char]) -> (r: Option<Vec<char>>)
    ensures
        r matches Some(v) ==> env_line_database(line@) == Some(v@),
        r is None ==> env_line_database(line@) is None,
{
    let l = trim_chars(line);
    let hash = ['#'];
    let key = to_chars("DB_DATABASE");
    assert(hash@ =~= seq!['#']);
    if starts_with_chars(&l, &hash) || !starts_with_chars(&l, &key) {
        return None;
    }
    let after = slice_chars(&l, key.len(), l.len());
    assert(after@ =~= l@.skip(key@.len() as int));
    let rest = trim_start_chars(&after);
    let eq = ['='];
    assert(eq@ =~= seq!['=']);
    if !starts_with_chars(&rest, &eq) {
        return None;
    }
    let tail = slice_chars(&rest, 1, rest.len());
    assert(tail@ =~= rest@.skip(1));
    let v = trim_chars(&tail);
    let dq = ['"'];
    let sq = ['\''];
    assert(dq@ =~= seq!['"']);
    assert(sq@ =~= seq!['\'']);
    let inner = if v.len() > 0 {
        slice_chars(&v, 1, v.len())
    } else {
        Vec::new()
    };
    assert(v@.len() > 0 ==> inner@ =~= v@.skip(1));
    let u = if starts_with_chars(&v, &dq) && ends_with_chars(&inner, &dq) {
        slice_chars(&inner, 0, inner.len() - 1)
    } else if starts_with_chars(&v, &sq) && ends_with_chars(&inner, &sq) {
        slice_chars(&inner, 0, inner.len() - 1)
    } else {
        slice_chars(&v, 0, v.len())
    };
    assert(inner@.len() > 0 ==> inner@.subrange(0, inner@.len() - 1) =~= inner@.drop_last());
    assert(v@.subrange(0, v@.len() as int) =~= v@);
    if u.len() == 0 {
        None
    } else {
        Some(u)
    }
}

/// A project's database name from the text of its `.env`
/// (`DB_DATABASE=...`): the first non-comment line with the key and a
/// non-empty value wins; surrounding single or double quotes are stripped.
pub fn database_from_env(text: &str) -> (r: Option<String>)
    ensures
        r matches Some(v) ==> env_database_of(text@) == Some(v@),
        r is None ==> env_database_of(text@) is None,
{
    let cs = to_chars(text);
    let ls = lines_of(&cs);
    let ghost lv = lines(text@);
    let mut i: usize = 0;
    while i < ls.len()
        invariant
            i <= ls.len(),
            cs@ == text@,
            lv == lines(text@),
            ls@.len() == lv.len(),
            forall|k: int| 0 <= k < ls@.len() ==> (#[trigger] ls@[k])@ == lv[k],
            env_database_from(lv, 0) == env_database_from(lv, i as int),
        decreases ls.len() - i,
    {
        if let Some(v) = line_database(&ls[i]) {
            return Some(from_chars(&v));
        }
        i = i + 1;
    }
    None
}

/// The parked name of a branch, when it fits untruncated, gives the branch
/// back: `branch_of_db(base, branch_db_name(base, branch))` is `branch`.
pub proof fn lemma_branch_round_trip(base: Seq<char>, branch: Seq<char>)
    requires
        utf8_len(full_name(base, branch)) <= 63,
    ensures
        branch_of(base, parked_name(base, branch)) == Some(branch),
{
    let full = full_name(base, branch);
    let p = base + seq!['@'];
    assert(full.subrange(0, p.len() as int) =~= p);
    assert(full.skip(p.len() as int) =~= branch);
}
} // verus!
