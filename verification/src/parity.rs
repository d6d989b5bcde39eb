//! The pure parts of `dpl parity`: comparing git remotes across URL forms,
//! reading PHP versions and Composer constraints, and reading the key names of
//! a dotenv file.

use vstd::prelude::*;

use crate::checks::{
    checks_view, fixed, hinted, plain, push_check, status_count, used_categories, CheckView, Checks, Report,
    Status,
};
use crate::config::{Link, LocalConfig};
use crate::paths::path_join;
use crate::sites::{file_name, file_name_of, opt_view};
use crate::ipc::SiteInfo;
use crate::node::opt_str;
use crate::json::{cell_of, cell_text, first_field, get, get_key, member, rows, rows_of, Json};
use crate::text::{
    from_chars, insert_sorted, is_digit, lemma_rfind, lines, lines_of, parse_uint,
    parse_uint_chars, rfind, rfind_chars, skip_digits, skip_digits_from, skip_non_digits,
    skip_non_digits_from, slice_chars, sorted_unique, split_char, split_on, str_views,
    strings_of, to_chars, to_lower, to_lowercase, trim, trim_chars, trim_end_matches,
    trim_end_matches_chars, trim_start_matches, trim_start_matches_chars, views,
    chars_eq, find, lemma_find_from, find_chars, index_of_char_from, lemma_split_on_first,
    starts_with_chars, has_prefix, str_eq, str_is_empty, push_str, has_string, dec, dec_string, join, join_strings,
};

verus! {

// ------------------------------------------------------------------ git URLs

/// What follows the last occurrence of `p` in `s`; all of `s` when `p` does
/// not occur.
pub open spec fn after_last(s: Seq<char>, p: Seq<char>) -> Seq<char> {
    match rfind(s, p) {
        Some(k) => s.skip(k + p.len()),
        None => s,
    }
}

/// The comparable form of a git remote: trimmed, trailing `/`s and `.git`s
/// dropped, the scheme (through the last `://`) and any user (through the last
/// `@`) removed, `:` turned into `/` (so the SSH form reads like a path), and
/// lowercased.
pub open spec fn repo_key(url: Seq<char>) -> Seq<char> {
    let u = trim_end_matches(trim_end_matches(trim(url), seq!['/']), ".git"@);
    let u = after_last(u, "://"@);
    let u = after_last(u, seq!['@']);
    to_lowercase(u.map_values(|c: char| if c == ':' { '/' } else { c }))
}

/// What follows the last occurrence of `p` in `cs`.
fn after_last_chars(cs: &[char], p: &[char]) -> (r: Vec<char>)
    ensures
        r@ == after_last(cs@, p@),
{
    let n = cs.len();
    match rfind_chars(cs, p) {
        Some(k) => {
            let r = slice_chars(cs, k + p.len(), n);
            assert(r@ =~= cs@.skip(k + p@.len()));
            r
        },
        None => {
            let r = slice_chars(cs, 0, n);
            assert(r@ =~= cs@);
            r
        },
    }
}

/// The comparable form of a git remote (see [`repo_key`]).
pub fn normalize_repo(url: &str) -> (r: String)
    ensures
        r@ == repo_key(url@),
{
    let cs = to_chars(url);
    let t = trim_chars(&cs);
    let slash = ['/'];
    assert(slash@ =~= seq!['/']);
    let a = trim_end_matches_chars(&t, &slash);
    let git = to_chars(".git");
    let b = trim_end_matches_chars(&a, &git);
    let scheme = to_chars("://");
    let c = after_last_chars(&b, &scheme);
    let at = ['@'];
    assert(at@ =~= seq!['@']);
    let d = after_last_chars(&c, &at);
    let mut e: Vec<char> = Vec::new();
    let mut i: usize = 0;
    while i < d.len()
        invariant
            i <= d.len(),
            e@ == d@.take(i as int).map_values(|c: char| if c == ':' { '/' } else { c }),
        decreases d.len() - i,
    {
        e.push(if d[i] == ':' { '/' } else { d[i] });
        i = i + 1;
        assert(d@.take(i as int).map_values(|c: char| if c == ':' { '/' } else { c })
            =~= d@.take(i - 1).map_values(|c: char| if c == ':' { '/' } else { c }).push(
            if d@[i - 1] == ':' { '/' } else { d@[i - 1] },
        ));
    }
    assert(d@.take(d.len() as int) =~= d@);
    let es = from_chars(&e);
    to_lower(es.as_str())
}

/// Do two git URLs name the same repo? Ignores scheme, `.git`, and SSH form.
pub fn same_repo(a: &str, b: &str) -> (r: bool)
    ensures
        r == (repo_key(a@) == repo_key(b@)),
{
    let x = normalize_repo(a);
    let y = normalize_repo(b);
    crate::text::str_eq(x.as_str(), y.as_str())
}

// ------------------------------------------------------------------ versions

/// `(major, minor)` of a PHP version string: trimmed, leading `php`s
/// removed, trimmed again; the part before the first `.` is the major (which
/// must parse as a `u32`); the leading digits of the part after it, when they
/// parse, the minor, else 0.
pub open spec fn php_version_of(text: Seq<char>) -> Option<(u32, u32)> {
    let t = trim(trim_start_matches(trim(text), "php"@));
    let ps = split_on(t, '.');
    match parse_uint(ps[0], 0xffff_ffff) {
        None => None,
        Some(major) => {
            let minor: nat = if ps.len() > 1 {
                match parse_uint(ps[1].take(skip_digits(ps[1], 0)), 0xffff_ffff) {
                    Some(m) => m,
                    None => 0,
                }
            } else {
                0
            };
            Some((major as u32, minor as u32))
        },
    }
}

/// `(major, minor)` of a version string (`"php8.2"` → `(8, 2)`).
pub fn version(text: &str) -> (r: Option<(u32, u32)>)
    ensures
        r == php_version_of(text@),
{
    let cs = to_chars(text);
    let t0 = trim_chars(&cs);
    let php = to_chars("php");
    let t1 = trim_start_matches_chars(&t0, &php);
    let t = trim_chars(&t1);
    let ps = split_char(&t, '.');
    proof {
        crate::text::lemma_split_on_nonempty(t@, '.');
    }
    let major = match parse_uint_chars(&ps[0], 0xffff_ffff) {
        Some(m) => m,
        None => return None,
    };
    let mut minor: u64 = 0;
    if ps.len() > 1 {
        let p1 = &ps[1];
        let k = skip_digits_from(p1, 0);
        let run = slice_chars(p1, 0, k);
        assert(run@ =~= p1@.take(k as int));
        if let Some(m) = parse_uint_chars(&run, 0xffff_ffff) {
            minor = m;
        }
    }
    Some((major as u32, minor as u32))
}

/// The first index at or after `i` that holds neither a digit nor a `.`.
pub open spec fn skip_version_chars(s: Seq<char>, i: int) -> int
    decreases s.len() - i,
{
    if i < 0 || i >= s.len() || !(is_digit(s[i]) || s[i] == '.') {
        i
    } else {
        skip_version_chars(s, i + 1)
    }
}

/// The minimum `(major, minor)` a Composer constraint accepts: the version
/// read from its first run of digits and dots (`^8.2` → 8.2).
pub open spec fn constraint_min(c: Seq<char>) -> Option<(u32, u32)> {
    let i = skip_non_digits(c, 0);
    php_version_of(c.subrange(i, skip_version_chars(c, i)))
}

/// The minimum `(major, minor)` a Composer constraint accepts (`^8.2` → 8.2).
pub fn min_version(constraint: &str) -> (r: Option<(u32, u32)>)
    ensures
        r == constraint_min(constraint@),
{
    let cs = to_chars(constraint);
    let i = skip_non_digits_from(&cs, 0);
    let mut j: usize = i;
    while j < cs.len() && ((cs[j] >= '0' && cs[j] <= '9') || cs[j] == '.')
        invariant
            i <= j <= cs.len(),
            skip_version_chars(cs@, i as int) == skip_version_chars(cs@, j as int),
        decreases cs.len() - j,
    {
        j = j + 1;
    }
    let run = slice_chars(&cs, i, j);
    let s = from_chars(&run);
    version(s.as_str())
}

// ------------------------------------------------------------ dotenv keys

/// The key a dotenv line names, if any: the line trimmed, not blank, not a
/// `#` comment, with a `=`; the key is the part before the first `=`, trimmed,
/// leading `export `s removed, trimmed again, when not empty.
pub open spec fn env_line_key(line: Seq<char>) -> Option<Seq<char>> {
    let l = trim(line);
    if l.len() == 0 || has_prefix(l, seq!['#']) {
        None
    } else {
        match find(l, seq!['=']) {
            None => None,
            Some(e) => {
                let k = trim(trim_start_matches(trim(l.take(e)), "export "@));
                if k.len() == 0 {
                    None
                } else {
                    Some(k)
                }
            },
        }
    }
}

/// Whether some line of `text` names the key `k`.
pub open spec fn env_has_key(text: Seq<char>, k: Seq<char>) -> bool {
    exists|i: int| 0 <= i < lines(text).len() && env_line_key(#[trigger] lines(text)[i]) == Some(k)
}

fn line_key(line: &[char]) -> (r: Option<Vec<char>>)
    ensures
        r matches Some(k) ==> env_line_key(line@) == Some(k@),
        r is None ==> env_line_key(line@) is None,
{
    let l = trim_chars(line);
    let hash = ['#'];
    assert(hash@ =~= seq!['#']);
    if l.len() == 0 || starts_with_chars(&l, &hash) {
        return None;
    }
    let eq = ['='];
    assert(eq@ =~= seq!['=']);
    proof {
        lemma_find_from(l@, eq@, 0);
    }
    let e = match find_chars(&l, &eq) {
        Some(e) => e,
        None => return None,
    };
    let before = slice_chars(&l, 0, e);
    assert(before@ =~= l@.take(e as int));
    let b = trim_chars(&before);
    let export = to_chars("export ");
    let c = trim_start_matches_chars(&b, &export);
    let k = trim_chars(&c);
    if k.len() == 0 {
        None
    } else {
        Some(k)
    }
}

/// The key names a dotenv file's text sets, sorted and without duplicates.
/// Values are parsed past, never retained.
pub fn env_file_keys(text: &str) -> (r: Vec<String>)
    ensures
        sorted_unique(str_views(r@)),
        forall|k: Seq<char>| #[trigger] str_views(r@).contains(k) <==> env_has_key(text@, k),
{
    let cs = to_chars(text);
    let ls = lines_of(&cs);
    let ghost lv = lines(text@);
    let mut acc: Vec<Vec<char>> = Vec::new();
    let mut i: usize = 0;
    while i < ls.len()
        invariant
            i <= ls.len(),
            lv == lines(text@),
            ls@.len() == lv.len(),
            forall|q: int| 0 <= q < ls@.len() ==> (#[trigger] ls@[q])@ == lv[q],
            sorted_unique(views(acc@)),
            forall|k: Seq<char>|
                #[trigger] views(acc@).contains(k) <==> exists|q: int|
                    0 <= q < i && env_line_key(#[trigger] lv[q]) == Some(k),
        decreases ls.len() - i,
    {
        let ghost before = views(acc@);
        if let Some(k) = line_key(&ls[i]) {
            insert_sorted(&mut acc, k);
        }
        proof {
            assert forall|k: Seq<char>| #[trigger] views(acc@).contains(k) <==> exists|q: int|
                0 <= q < i + 1 && env_line_key(#[trigger] lv[q]) == Some(k) by {
                if exists|q: int| 0 <= q < i + 1 && env_line_key(#[trigger] lv[q]) == Some(k) {
                    let q = choose|q: int| 0 <= q < i + 1 && env_line_key(#[trigger] lv[q]) == Some(k);
                    if q < i {
                        assert(before.contains(k));
                    }
                }
                if views(acc@).contains(k) && !before.contains(k) {
                    assert(env_line_key(lv[i as int]) == Some(k));
                }
            }
        }
        i = i + 1;
    }
    strings_of(&acc)
}


// ------------------------------------------------------------------ payloads

/// The cell under the first present of two names.
fn cell_in(v: &Json, a: &str, b: &str) -> (r: String)
    ensures
        r@ == cell_text(first_field(*v, seq![a@, b@])),
{
    let names: [&str; 2] = [a, b];
    let r = cell_of(v, &names);
    assert(names@.map_values(|n: &str| n@) =~= seq![a@, b@]);
    r
}

/// The cell under one name.
fn cell_at(v: &Json, a: &str) -> (r: String)
    ensures
        r@ == cell_text(first_field(*v, seq![a@])),
{
    let names: [&str; 1] = [a];
    let r = cell_of(v, &names);
    assert(names@.map_values(|n: &str| n@) =~= seq![a@]);
    r
}

/// Whether `v` is a bare `{KEY: value}` map: an object with no `key` member.
pub open spec fn is_bare_map(v: Json) -> bool {
    match v {
        Json::Object(ms, _) => member(ms@, "key"@) is None,
        _ => false,
    }
}

/// Whether the object `v` has a member named `k`.
pub open spec fn has_member(v: Json, k: Seq<char>) -> bool {
    match v {
        Json::Object(ms, _) => exists|i: int| 0 <= i < ms@.len() && (#[trigger] ms@[i]).0@ == k,
        _ => false,
    }
}

/// The key an env row names: its `key` cell, else its `name` cell.
pub open spec fn row_key(row: Json) -> Seq<char> {
    cell_text(first_field(row, seq!["key"@, "name"@]))
}

/// Whether dply's env payload names the key `k`: a bare map by a member
/// name; anything else, read as rows, by a row's non-empty key.
pub open spec fn env_payload_has(v: Json, k: Seq<char>) -> bool {
    if is_bare_map(v) {
        has_member(v, k)
    } else {
        k.len() > 0 && exists|i: int| 0 <= i < rows_of(v).len() && row_key(#[trigger] rows_of(v)[i]) == k
    }
}

/// Key names from dply's env payload (`[{key, value, scope}]` or a map),
/// sorted and without duplicates. Values are never read.
pub fn remote_env_keys(value: &Json) -> (r: Vec<String>)
    ensures
        sorted_unique(str_views(r@)),
        forall|k: Seq<char>| #[trigger] str_views(r@).contains(k) <==> env_payload_has(*value, k),
{
    let mut acc: Vec<Vec<char>> = Vec::new();
    if let Json::Object(ms, _) = value {
        if get(value, "key").is_none() {
            let mut i: usize = 0;
            while i < ms.len()
                invariant
                    i <= ms.len(),
                    *value == Json::Object(*ms, value->Object_1),
                    sorted_unique(views(acc@)),
                    forall|k: Seq<char>|
                        #[trigger] views(acc@).contains(k) <==> exists|q: int|
                            0 <= q < i && (#[trigger] ms@[q]).0@ == k,
                decreases ms.len() - i,
            {
                let ghost before = views(acc@);
                insert_sorted(&mut acc, to_chars(ms[i].0.as_str()));
                proof {
                    assert forall|k: Seq<char>| #[trigger] views(acc@).contains(k) <==> exists|q: int|
                        0 <= q < i + 1 && (#[trigger] ms@[q]).0@ == k by {
                        if exists|q: int| 0 <= q < i + 1 && (#[trigger] ms@[q]).0@ == k {
                            let q = choose|q: int| 0 <= q < i + 1 && (#[trigger] ms@[q]).0@ == k;
                            if q < i {
                                assert(before.contains(k));
                            }
                        }
                        if views(acc@).contains(k) && !before.contains(k) {
                            assert(ms@[i as int].0@ == k);
                        }
                    }
                }
                i = i + 1;
            }
            return strings_of(&acc);
        }
    }
    let rs = rows(value);
    let ghost rv = rows_of(*value);
    let mut i: usize = 0;
    while i < rs.len()
        invariant
            i <= rs.len(),
            rv == rows_of(*value),
            rs@.len() == rv.len(),
            forall|q: int| 0 <= q < rs@.len() ==> *(#[trigger] rs@[q]) == rv[q],
            sorted_unique(views(acc@)),
            forall|k: Seq<char>|
                #[trigger] views(acc@).contains(k) <==> (k.len() > 0 && exists|q: int|
                    0 <= q < i && row_key(#[trigger] rv[q]) == k),
        decreases rs.len() - i,
    {
        let ghost before = views(acc@);
        let k = cell_in(rs[i], "key", "name");
        assert(k@ == row_key(rv[i as int]));
        if !str_is_empty(k.as_str()) {
            insert_sorted(&mut acc, to_chars(k.as_str()));
        }
        proof {
            assert forall|kk: Seq<char>| #[trigger] views(acc@).contains(kk) <==> (kk.len() > 0 && exists|q: int|
                0 <= q < i + 1 && row_key(#[trigger] rv[q]) == kk) by {
                if kk.len() > 0 && exists|q: int| 0 <= q < i + 1 && row_key(#[trigger] rv[q]) == kk {
                    let q = choose|q: int| 0 <= q < i + 1 && row_key(#[trigger] rv[q]) == kk;
                    if q < i {
                        assert(before.contains(kk));
                    }
                }
                if views(acc@).contains(kk) && !before.contains(kk) {
                    assert(row_key(rv[i as int]) == kk);
                }
            }
        }
        i = i + 1;
    }
    assert(!is_bare_map(*value));
    strings_of(&acc)
}

// ---------------------------------------------------------------- extensions

/// The module a line of `php -m` names: the line trimmed and lowercased,
/// unless blank or a `[section]` heading.
pub open spec fn module_line(line: Seq<char>) -> Option<Seq<char>> {
    let l = to_lowercase(trim(line));
    if l.len() == 0 || has_prefix(l, seq!['[']) {
        None
    } else {
        Some(l)
    }
}

/// Whether the output of `php -m` lists the module `m`.
pub open spec fn lists_module(text: Seq<char>, m: Seq<char>) -> bool {
    exists|i: int| 0 <= i < lines(text).len() && module_line(#[trigger] lines(text)[i]) == Some(m)
}

/// The extensions a PHP loads, lowercased, from the output of its `php -m`:
/// sorted and without duplicates.
pub fn loaded_extensions(output: &str) -> (r: Vec<String>)
    ensures
        sorted_unique(str_views(r@)),
        forall|m: Seq<char>| #[trigger] str_views(r@).contains(m) <==> lists_module(output@, m),
{
    let cs = to_chars(output);
    let ls = lines_of(&cs);
    let ghost lv = lines(output@);
    let mut acc: Vec<Vec<char>> = Vec::new();
    let mut i: usize = 0;
    while i < ls.len()
        invariant
            i <= ls.len(),
            lv == lines(output@),
            ls@.len() == lv.len(),
            forall|q: int| 0 <= q < ls@.len() ==> (#[trigger] ls@[q])@ == lv[q],
            sorted_unique(views(acc@)),
            forall|m: Seq<char>|
                #[trigger] views(acc@).contains(m) <==> exists|q: int|
                    0 <= q < i && module_line(#[trigger] lv[q]) == Some(m),
        decreases ls.len() - i,
    {
        let ghost before = views(acc@);
        let t = from_chars(&trim_chars(&ls[i]));
        let l = to_chars(to_lower(t.as_str()).as_str());
        let bracket = ['['];
        assert(bracket@ =~= seq!['[']);
        let keep = l.len() > 0 && !starts_with_chars(&l, &bracket);
        assert(keep ==> module_line(lv[i as int]) == Some(l@));
        assert(!keep ==> module_line(lv[i as int]) is None);
        if keep {
            insert_sorted(&mut acc, l);
        }
        proof {
            assert forall|m: Seq<char>| #[trigger] views(acc@).contains(m) <==> exists|q: int|
                0 <= q < i + 1 && module_line(#[trigger] lv[q]) == Some(m) by {
                if exists|q: int| 0 <= q < i + 1 && module_line(#[trigger] lv[q]) == Some(m) {
                    let q = choose|q: int| 0 <= q < i + 1 && module_line(#[trigger] lv[q]) == Some(m);
                    if q < i {
                        assert(before.contains(m));
                    }
                }
                if views(acc@).contains(m) && !before.contains(m) {
                    assert(module_line(lv[i as int]) == Some(m));
                }
            }
        }
        i = i + 1;
    }
    strings_of(&acc)
}

/// composer.json's `require` members, when `require` is an object.
pub open spec fn require_of(composer: Option<Json>) -> Option<Seq<(String, Json)>> {
    match composer {
        Some(c) => match get_key(c, "require"@) {
            Some(Json::Object(ms, _)) => Some(ms@),
            _ => None,
        },
        None => None,
    }
}

/// The extensions `ext-*` requirements name, lowercased, in member order.
pub open spec fn ext_names(ms: Seq<(String, Json)>) -> Seq<Seq<char>>
    decreases ms.len(),
{
    if ms.len() == 0 {
        Seq::empty()
    } else {
        let rest = ext_names(ms.drop_last());
        let k = ms.last().0@;
        if has_prefix(k, "ext-"@) {
            rest.push(to_lowercase(k.skip(4)))
        } else {
            rest
        }
    }
}

/// The extensions a composer.json requires (`ext-*` keys of `require`),
/// lowercased, in order; none when there is no `require` object.
pub fn required_extensions(composer: Option<&Json>) -> (r: Vec<String>)
    ensures
        str_views(r@) == match require_of(
            match composer {
                Some(c) => Some(*c),
                None => None,
            },
        ) {
            Some(ms) => ext_names(ms),
            None => Seq::empty(),
        },
{
    let mut out: Vec<String> = Vec::new();
    let c = match composer {
        Some(c) => c,
        None => return out,
    };
    let req = match get(c, "require") {
        Some(r) => r,
        None => return out,
    };
    let ms = match req {
        Json::Object(ms, _) => ms,
        _ => return out,
    };
    let prefix = to_chars("ext-");
    proof {
        reveal_strlit("ext-");
    }
    let mut i: usize = 0;
    while i < ms.len()
        invariant
            i <= ms.len(),
            prefix@ == "ext-"@,
            prefix@.len() == 4,
            str_views(out@) == ext_names(ms@.take(i as int)),
        decreases ms.len() - i,
    {
        let k = to_chars(ms[i].0.as_str());
        assert(ms@.take(i + 1).drop_last() =~= ms@.take(i as int));
        assert(ms@.take(i + 1).last() == ms@[i as int]);
        if starts_with_chars(&k, &prefix) {
            let rest = slice_chars(&k, 4, k.len());
            assert(rest@ =~= k@.skip(4));
            let low = to_lower(from_chars(&rest).as_str());
            let ghost before = str_views(out@);
            out.push(low);
            assert(str_views(out@) =~= before.push(low@));
        }
        i = i + 1;
    }
    assert(ms@.take(ms.len() as int) =~= ms@);
    out
}

// ------------------------------------------------------------------ paths

/// The last component of a path (`/home/dply/app/public` → `public`); the
/// whole path when it has no file name (it ends in `..`, or is the root).
pub open spec fn leaf_of(path: Seq<char>) -> Seq<char> {
    match file_name(path) {
        Some(c) => c,
        None => path,
    }
}

/// The last component of a path (see [`leaf_of`]).
pub fn leaf(path: &str) -> (r: String)
    ensures
        r@ == leaf_of(path@),
{
    match file_name_of(path) {
        Some(c) => c,
        None => String::from_str(path),
    }
}

/// The docroot the daemon reports for the first site named `name`, when it
/// reports one.
pub open spec fn site_docroot(ss: Seq<SiteInfo>, name: Seq<char>) -> Option<Seq<char>>
    decreases ss.len(),
{
    if ss.len() == 0 {
        None
    } else if ss[0].name@ == name {
        if ss[0].docroot@.len() > 0 {
            Some(ss[0].docroot@)
        } else {
            None
        }
    } else {
        site_docroot(ss.drop_first(), name)
    }
}

/// The docroot the daemon reports for the site `name` (see [`site_docroot`]).
pub fn daemon_docroot(sites: &[SiteInfo], name: &str) -> (r: Option<String>)
    ensures
        match r {
            Some(d) => site_docroot(sites@, name@) == Some(d@),
            None => site_docroot(sites@, name@) is None,
        },
{
    let mut i: usize = 0;
    assert(sites@.skip(0) =~= sites@);
    while i < sites.len()
        invariant
            i <= sites.len(),
            site_docroot(sites@, name@) == site_docroot(sites@.skip(i as int), name@),
        decreases sites.len() - i,
    {
        assert(sites@.skip(i as int)[0] == sites@[i as int]);
        assert(sites@.skip(i as int).drop_first() =~= sites@.skip(i + 1));
        if str_eq(sites[i].name.as_str(), name) {
            if !str_is_empty(sites[i].docroot.as_str()) {
                return Some(String::from_str(sites[i].docroot.as_str()));
            } else {
                return None;
            }
        }
        i = i + 1;
    }
    assert(sites@.skip(i as int) =~= Seq::<SiteInfo>::empty());
    None
}


// ------------------------------------------------------------------ project

/// The remote site's identity: its name, type, and status.
pub open spec fn remote_check(remote_name: Seq<char>, remote: Json) -> CheckView {
    plain(
        "parity.remote"@,
        "Project"@,
        "Remote site"@,
        Status::Info,
        remote_name + " ("@ + cell_text(first_field(remote, seq!["type"@, "runtime"@])) + ") \u{2014} "@
            + cell_text(first_field(remote, seq!["status"@])),
    )
}

/// Whether the repository the server pulls from is the one the local project
/// is a checkout of (`origin` is its `origin` remote, `None` when it is not a
/// git checkout).
pub open spec fn repo_check(remote: Json, origin: Option<Seq<char>>) -> CheckView {
    let repo = cell_text(first_field(remote, seq!["git_repository_url"@, "source.repo"@]));
    match origin {
        Some(o) => if repo.len() > 0 {
            if repo_key(o) == repo_key(repo) {
                plain("parity.repo"@, "Project"@, "Repository"@, Status::Pass, repo)
            } else {
                hinted(
                    plain("parity.repo"@, "Project"@, "Repository"@, Status::Fail, "local "@ + o + " \u{2192} remote "@ + repo),
                    "This local project isn't the repo that site deploys from \u{2014} you're comparing two different apps. Pass --remote to pick the right dply site."@,
                )
            }
        } else {
            plain("parity.repo"@, "Project"@, "Repository"@, Status::Info, "local "@ + o + "; remote doesn't report one"@)
        },
        None => plain("parity.repo"@, "Project"@, "Repository"@, Status::Info, "local project isn't a git checkout"@),
    }
}

/// The local branch against the deploy branch; nothing when the local branch
/// is unknown.
pub open spec fn branch_checks(remote: Json, branch: Option<Seq<char>>) -> Seq<CheckView> {
    let rb = cell_text(first_field(remote, seq!["git_branch"@, "source.branch"@]));
    match branch {
        Some(b) => if rb.len() > 0 {
            if b == rb {
                seq![plain("parity.branch"@, "Project"@, "Branch"@, Status::Pass, "both on "@ + b)]
            } else {
                seq![hinted(
                    plain("parity.branch"@, "Project"@, "Branch"@, Status::Warn, "local on "@ + b + ", deploys from "@ + rb),
                    "Work you do here won't ship until it lands on the deploy branch."@,
                )]
            }
        } else {
            seq![plain("parity.branch"@, "Project"@, "Branch"@, Status::Info, "local on "@ + b)]
        },
        None => Seq::empty(),
    }
}

/// The directory each side serves, compared by last component; nothing when
/// the remote reports no document root.
pub open spec fn docroot_checks(remote: Json, local_docroot: Seq<char>) -> Seq<CheckView> {
    let root = cell_text(first_field(remote, seq!["document_root"@]));
    if root.len() > 0 {
        let l = leaf_of(local_docroot);
        let r = leaf_of(root);
        if l == r {
            seq![plain("parity.docroot"@, "Project"@, "Document root"@, Status::Pass, "both serve "@ + l + "/"@)]
        } else {
            seq![hinted(
                plain("parity.docroot"@, "Project"@, "Document root"@, Status::Warn, "local "@ + l + "/, remote "@ + r + "/"@),
                "The server serves a different directory than you do locally, so routing and asset paths can differ."@,
            )]
        }
    } else {
        Seq::empty()
    }
}

/// When the remote last deployed, if it says.
pub open spec fn deploy_checks(remote: Json) -> Seq<CheckView> {
    let deployed = cell_text(first_field(remote, seq!["last_deploy_at"@]));
    if deployed.len() > 0 {
        seq![plain("parity.last_deploy"@, "Project"@, "Last deploy"@, Status::Info, deployed)]
    } else {
        Seq::empty()
    }
}

/// The Project checks: the remote site, the repository, the branch, the
/// document root, and the last deploy.
pub open spec fn project_checks(
    remote_name: Seq<char>,
    remote: Json,
    origin: Option<Seq<char>>,
    branch: Option<Seq<char>>,
    local_docroot: Seq<char>,
) -> Seq<CheckView> {
    seq![remote_check(remote_name, remote), repo_check(remote, origin)] + branch_checks(remote, branch)
        + docroot_checks(remote, local_docroot) + deploy_checks(remote)
}

fn add_repo_check(c: &mut Checks, remote: &Json, origin: Option<&str>)
    ensures
        checks_view(final(c).0@) == checks_view(old(c).0@).push(repo_check(*remote, opt_str(origin))),
{
    let cat = "Project";
    let repo = cell_in(remote, "git_repository_url", "source.repo");
    match origin {
        Some(o) => {
            if !str_is_empty(repo.as_str()) {
                if same_repo(o, repo.as_str()) {
                    push_check(c, "parity.repo", cat, "Repository", Status::Pass, repo, None, None);
                } else {
                    let mut d = String::from_str("local ");
                    push_str(&mut d, o);
                    push_str(&mut d, " \u{2192} remote ");
                    push_str(&mut d, repo.as_str());
                    push_check(
                        c,
                        "parity.repo",
                        cat,
                        "Repository",
                        Status::Fail,
                        d,
                        Some("This local project isn't the repo that site deploys from \u{2014} you're comparing two different apps. Pass --remote to pick the right dply site."),
                        None,
                    );
                }
            } else {
                let mut d = String::from_str("local ");
                push_str(&mut d, o);
                push_str(&mut d, "; remote doesn't report one");
                push_check(c, "parity.repo", cat, "Repository", Status::Info, d, None, None);
            }
        },
        None => {
            push_check(c, "parity.repo", cat, "Repository", Status::Info, String::from_str("local project isn't a git checkout"), None, None);
        },
    }
}

fn add_branch_checks(c: &mut Checks, remote: &Json, branch: Option<&str>)
    ensures
        checks_view(final(c).0@) == checks_view(old(c).0@) + branch_checks(*remote, opt_str(branch)),
{
    let ghost start = checks_view(c.0@);
    let cat = "Project";
    let rb = cell_in(remote, "git_branch", "source.branch");
    match branch {
        Some(b) => {
            if !str_is_empty(rb.as_str()) {
                if str_eq(b, rb.as_str()) {
                    let mut d = String::from_str("both on ");
                    push_str(&mut d, b);
                    push_check(c, "parity.branch", cat, "Branch", Status::Pass, d, None, None);
                } else {
                    let mut d = String::from_str("local on ");
                    push_str(&mut d, b);
                    push_str(&mut d, ", deploys from ");
                    push_str(&mut d, rb.as_str());
                    push_check(
                        c,
                        "parity.branch",
                        cat,
                        "Branch",
                        Status::Warn,
                        d,
                        Some("Work you do here won't ship until it lands on the deploy branch."),
                        None,
                    );
                }
            } else {
                let mut d = String::from_str("local on ");
                push_str(&mut d, b);
                push_check(c, "parity.branch", cat, "Branch", Status::Info, d, None, None);
            }
        },
        None => {},
    }
    assert(checks_view(c.0@) =~= start + branch_checks(*remote, opt_str(branch)));
}

fn add_docroot_checks(c: &mut Checks, remote: &Json, local_docroot: &str)
    ensures
        checks_view(final(c).0@) == checks_view(old(c).0@) + docroot_checks(*remote, local_docroot@),
{
    let ghost start = checks_view(c.0@);
    let cat = "Project";
    let root = cell_at(remote, "document_root");
    if !str_is_empty(root.as_str()) {
        let l = leaf(local_docroot);
        let r = leaf(root.as_str());
        if str_eq(l.as_str(), r.as_str()) {
            let mut d = String::from_str("both serve ");
            push_str(&mut d, l.as_str());
            push_str(&mut d, "/");
            push_check(c, "parity.docroot", cat, "Document root", Status::Pass, d, None, None);
        } else {
            let mut d = String::from_str("local ");
            push_str(&mut d, l.as_str());
            push_str(&mut d, "/, remote ");
            push_str(&mut d, r.as_str());
            push_str(&mut d, "/");
            push_check(
                c,
                "parity.docroot",
                cat,
                "Document root",
                Status::Warn,
                d,
                Some("The server serves a different directory than you do locally, so routing and asset paths can differ."),
                None,
            );
        }
    }
    assert(checks_view(c.0@) =~= start + docroot_checks(*remote, local_docroot@));
}

/// Add the Project checks (see [`project_checks`]). `origin` and `branch` are
/// what git reports for the local project.
pub fn check_project(
    c: &mut Checks,
    remote_name: &str,
    remote: &Json,
    origin: Option<&str>,
    branch: Option<&str>,
    local_docroot: &str,
)
    ensures
        checks_view(final(c).0@) == checks_view(old(c).0@) + project_checks(
            remote_name@,
            *remote,
            opt_str(origin),
            opt_str(branch),
            local_docroot@,
        ),
{
    let ghost start = checks_view(c.0@);
    let mut d = String::from_str(remote_name);
    push_str(&mut d, " (");
    push_str(&mut d, cell_in(remote, "type", "runtime").as_str());
    push_str(&mut d, ") \u{2014} ");
    push_str(&mut d, cell_at(remote, "status").as_str());
    push_check(c, "parity.remote", "Project", "Remote site", Status::Info, d, None, None);
    add_repo_check(c, remote, origin);
    let ghost two = checks_view(c.0@);
    assert(two =~= start + seq![remote_check(remote_name@, *remote), repo_check(*remote, opt_str(origin))]);
    add_branch_checks(c, remote, branch);
    add_docroot_checks(c, remote, local_docroot);
    let ghost before = checks_view(c.0@);
    let deployed = cell_at(remote, "last_deploy_at");
    if !str_is_empty(deployed.as_str()) {
        push_check(c, "parity.last_deploy", "Project", "Last deploy", Status::Info, deployed, None, None);
    }
    assert(checks_view(c.0@) =~= before + deploy_checks(*remote));
    assert(checks_view(c.0@) =~= start + project_checks(
        remote_name@,
        *remote,
        opt_str(origin),
        opt_str(branch),
        local_docroot@,
    ));
}


// ---------------------------------------------------------------------- PHP

/// `Some(s)` unless `s` is empty.
pub open spec fn non_empty(s: Seq<char>) -> Option<Seq<char>> {
    if s.len() > 0 {
        Some(s)
    } else {
        None
    }
}

/// The PHP version the remote reports, if any.
pub open spec fn remote_php_of(remote: Json) -> Option<Seq<char>> {
    non_empty(cell_text(first_field(remote, seq!["runtime_version"@, "php_version"@])))
}

/// The local PHP version against the remote's.
pub open spec fn php_version_checks(name: Seq<char>, local: Option<Seq<char>>, remote: Option<Seq<char>>) -> Seq<CheckView> {
    match (local, remote) {
        (Some(l), Some(r)) => if php_version_of(l) == php_version_of(r) {
            seq![plain("parity.php_version"@, "PHP"@, "PHP version"@, Status::Pass, "both "@ + r)]
        } else {
            seq![fixed(
                hinted(
                    plain("parity.php_version"@, "PHP"@, "PHP version"@, Status::Fail, "local "@ + l + ", remote "@ + r),
                    "You're developing on a different PHP than you ship on \u{2014} syntax and behaviour differences surface only after deploy."@,
                ),
                "Match the remote locally"@,
                "dpl use "@ + r + " "@ + name,
            )]
        },
        (Some(l), None) => seq![hinted(
            plain("parity.php_version"@, "PHP"@, "PHP version"@, Status::Info, "local "@ + l + "; the remote doesn't report its version"@),
            "dply returned no runtime_version for this site, so the versions can't be compared automatically."@,
        )],
        (None, Some(r)) => seq![plain("parity.php_version"@, "PHP"@, "PHP version"@, Status::Warn, "remote "@ + r + "; no local PHP resolved"@)],
        (None, None) => Seq::empty(),
    }
}

/// `a` is at least `b`, comparing `(major, minor)` in order.
pub open spec fn version_at_least(a: (u32, u32), b: (u32, u32)) -> bool {
    a.0 > b.0 || (a.0 == b.0 && a.1 >= b.1)
}

/// The verdict on the PHP `have` against a composer constraint, when both
/// read as versions.
pub open spec fn judge(label: Seq<char>, have: Option<Seq<char>>, constraint: Seq<char>) -> Option<(Status, Seq<char>)> {
    match have {
        None => None,
        Some(h) => match (php_version_of(h), constraint_min(constraint)) {
            (Some(hv), Some(need)) => Some(
                if version_at_least(hv, need) {
                    (Status::Pass, label + " "@ + h + " satisfies "@ + constraint)
                } else {
                    (Status::Fail, label + " "@ + h + " is below the required "@ + constraint)
                },
            ),
            _ => None,
        },
    }
}

/// composer.json's PHP constraint against the remote PHP, else the local one.
pub open spec fn composer_php_checks(require: Seq<(String, Json)>, local: Option<Seq<char>>, remote: Option<Seq<char>>) -> Seq<CheckView> {
    match member(require, "php"@) {
        Some(Json::Str(cs)) => {
            let verdict = match judge("remote"@, remote, cs@) {
                Some(v) => Some(v),
                None => judge("local"@, local, cs@),
            };
            match verdict {
                Some((st, d)) => {
                    let v = plain("parity.composer_php"@, "PHP"@, "composer.json php"@, st, d);
                    seq![if st == Status::Fail {
                        hinted(v, "The environment can't run this project's own declared minimum \u{2014} Composer will refuse, or the app will fatal."@)
                    } else {
                        v
                    }]
                },
                None => Seq::empty(),
            }
        },
        _ => Seq::empty(),
    }
}

/// The members of `xs` that `ys` does not contain, in order.
pub open spec fn absent(xs: Seq<Seq<char>>, ys: Seq<Seq<char>>) -> Seq<Seq<char>>
    decreases xs.len(),
{
    if xs.len() == 0 {
        Seq::empty()
    } else if ys.contains(xs.last()) {
        absent(xs.drop_last(), ys)
    } else {
        absent(xs.drop_last(), ys).push(xs.last())
    }
}

/// The required extensions against those the local PHP loads; nothing when
/// none is required.
pub open spec fn extension_checks(local: Option<Seq<char>>, required: Seq<Seq<char>>, loaded: Seq<Seq<char>>) -> Seq<CheckView> {
    if required.len() == 0 {
        Seq::empty()
    } else {
        let missing = absent(required, loaded);
        if missing.len() == 0 {
            seq![hinted(
                plain(
                    "parity.extensions"@,
                    "PHP"@,
                    "Required extensions"@,
                    Status::Pass,
                    "all "@ + dec(required.len()) + " loaded locally: "@ + join(required, ", "@),
                ),
                "dply doesn't expose the server's module list, so this confirms the local side only."@,
            )]
        } else {
            let v = hinted(
                plain("parity.extensions"@, "PHP"@, "Required extensions"@, Status::Fail, "not loaded locally: "@ + join(missing, ", "@)),
                "composer.json requires these, so the app can fatal locally even though it runs on the server."@,
            );
            seq![match local {
                Some(p) => fixed(v, "Install the first one"@, "dpl php ext-install "@ + p + " "@ + missing[0]),
                None => v,
            }]
        }
    }
}

/// The PHP checks: the version on each side, then, when composer.json has a
/// `require` object, its PHP constraint and its required extensions.
pub open spec fn php_checks(
    name: Seq<char>,
    local: Option<Seq<char>>,
    remote: Json,
    composer: Option<Json>,
    loaded: Seq<Seq<char>>,
) -> Seq<CheckView> {
    let rp = remote_php_of(remote);
    php_version_checks(name, local, rp) + match require_of(composer) {
        None => Seq::empty(),
        Some(ms) => composer_php_checks(ms, local, rp) + extension_checks(local, ext_names(ms), loaded),
    }
}

fn same_version(a: Option<(u32, u32)>, b: Option<(u32, u32)>) -> (r: bool)
    ensures
        r == (a == b),
{
    match (a, b) {
        (Some(x), Some(y)) => x.0 == y.0 && x.1 == y.1,
        (None, None) => true,
        _ => false,
    }
}

fn add_php_version_checks(c: &mut Checks, name: &str, local: Option<&str>, remote: Option<&str>)
    ensures
        checks_view(final(c).0@) == checks_view(old(c).0@) + php_version_checks(name@, opt_str(local), opt_str(remote)),
{
    let ghost start = checks_view(c.0@);
    let cat = "PHP";
    match (local, remote) {
        (Some(l), Some(r)) => {
            if same_version(version(l), version(r)) {
                let mut d = String::from_str("both ");
                push_str(&mut d, r);
                push_check(c, "parity.php_version", cat, "PHP version", Status::Pass, d, None, None);
            } else {
                let mut d = String::from_str("local ");
                push_str(&mut d, l);
                push_str(&mut d, ", remote ");
                push_str(&mut d, r);
                let mut cmd = String::from_str("dpl use ");
                push_str(&mut cmd, r);
                push_str(&mut cmd, " ");
                push_str(&mut cmd, name);
                push_check(
                    c,
                    "parity.php_version",
                    cat,
                    "PHP version",
                    Status::Fail,
                    d,
                    Some("You're developing on a different PHP than you ship on \u{2014} syntax and behaviour differences surface only after deploy."),
                    Some(("Match the remote locally", cmd.as_str())),
                );
            }
        },
        (Some(l), None) => {
            let mut d = String::from_str("local ");
            push_str(&mut d, l);
            push_str(&mut d, "; the remote doesn't report its version");
            push_check(
                c,
                "parity.php_version",
                cat,
                "PHP version",
                Status::Info,
                d,
                Some("dply returned no runtime_version for this site, so the versions can't be compared automatically."),
                None,
            );
        },
        (None, Some(r)) => {
            let mut d = String::from_str("remote ");
            push_str(&mut d, r);
            push_str(&mut d, "; no local PHP resolved");
            push_check(c, "parity.php_version", cat, "PHP version", Status::Warn, d, None, None);
        },
        (None, None) => {},
    }
    assert(checks_view(c.0@) =~= start + php_version_checks(name@, opt_str(local), opt_str(remote)));
}

fn judge_exec(label: &str, have: Option<&str>, constraint: &str) -> (r: Option<(bool, String)>)
    ensures
        match r {
            Some((pass, d)) => judge(label@, opt_str(have), constraint@) == Some(
                (if pass { Status::Pass } else { Status::Fail }, d@),
            ),
            None => judge(label@, opt_str(have), constraint@) is None,
        },
{
    let h = match have {
        Some(h) => h,
        None => return None,
    };
    let hv = match version(h) {
        Some(v) => v,
        None => return None,
    };
    let need = match min_version(constraint) {
        Some(v) => v,
        None => return None,
    };
    let pass = hv.0 > need.0 || (hv.0 == need.0 && hv.1 >= need.1);
    let mut d = String::from_str(label);
    push_str(&mut d, " ");
    push_str(&mut d, h);
    if pass {
        push_str(&mut d, " satisfies ");
    } else {
        push_str(&mut d, " is below the required ");
    }
    push_str(&mut d, constraint);
    Some((pass, d))
}

/// An object's members; none for anything else.
pub open spec fn members_of(v: Json) -> Seq<(String, Json)> {
    match v {
        Json::Object(ms, _) => ms@,
        _ => Seq::empty(),
    }
}

fn add_composer_php_checks(c: &mut Checks, require: &Json, local: Option<&str>, remote: Option<&str>)
    requires
        require is Object,
    ensures
        checks_view(final(c).0@) == checks_view(old(c).0@) + composer_php_checks(members_of(*require), opt_str(local), opt_str(remote)),
{
    let ghost start = checks_view(c.0@);
    let ghost ms = members_of(*require);
    let cs = match get(require, "php") {
        Some(Json::Str(cs)) => cs,
        _ => {
            assert(checks_view(c.0@) =~= start + composer_php_checks(ms, opt_str(local), opt_str(remote)));
            return;
        },
    };
    let verdict = match judge_exec("remote", remote, cs.as_str()) {
        Some(v) => Some(v),
        None => judge_exec("local", local, cs.as_str()),
    };
    match verdict {
        Some((pass, d)) => {
            if pass {
                push_check(c, "parity.composer_php", "PHP", "composer.json php", Status::Pass, d, None, None);
            } else {
                push_check(
                    c,
                    "parity.composer_php",
                    "PHP",
                    "composer.json php",
                    Status::Fail,
                    d,
                    Some("The environment can't run this project's own declared minimum \u{2014} Composer will refuse, or the app will fatal."),
                    None,
                );
            }
        },
        None => {},
    }
    assert(checks_view(c.0@) =~= start + composer_php_checks(ms, opt_str(local), opt_str(remote)));
}


fn add_extension_checks(c: &mut Checks, local: Option<&str>, required: &Vec<String>, loaded: &[String])
    ensures
        checks_view(final(c).0@) == checks_view(old(c).0@) + extension_checks(
            opt_str(local),
            str_views(required@),
            str_views(loaded@),
        ),
{
    let ghost start = checks_view(c.0@);
    let ghost rv = str_views(required@);
    let ghost lv = str_views(loaded@);
    if required.len() == 0 {
        assert(checks_view(c.0@) =~= start + extension_checks(opt_str(local), rv, lv));
        return;
    }
    let missing = absent_strings(required, loaded);
    if missing.len() == 0 {
        let mut d = String::from_str("all ");
        push_str(&mut d, dec_string(required.len() as u64).as_str());
        push_str(&mut d, " loaded locally: ");
        push_str(&mut d, join_strings(required, ", ").as_str());
        push_check(
            c,
            "parity.extensions",
            "PHP",
            "Required extensions",
            Status::Pass,
            d,
            Some("dply doesn't expose the server's module list, so this confirms the local side only."),
            None,
        );
    } else {
        let mut d = String::from_str("not loaded locally: ");
        push_str(&mut d, join_strings(&missing, ", ").as_str());
        let hint = "composer.json requires these, so the app can fatal locally even though it runs on the server.";
        match local {
            Some(p) => {
                let mut cmd = String::from_str("dpl php ext-install ");
                push_str(&mut cmd, p);
                push_str(&mut cmd, " ");
                push_str(&mut cmd, missing[0].as_str());
                push_check(
                    c,
                    "parity.extensions",
                    "PHP",
                    "Required extensions",
                    Status::Fail,
                    d,
                    Some(hint),
                    Some(("Install the first one", cmd.as_str())),
                );
            },
            None => {
                push_check(c, "parity.extensions", "PHP", "Required extensions", Status::Fail, d, Some(hint), None);
            },
        }
    }
    assert(checks_view(c.0@) =~= start + extension_checks(opt_str(local), rv, lv));
}

/// The members of `xs` that `ys` does not hold, in order (see [`absent`]).
pub fn absent_strings(xs: &Vec<String>, ys: &[String]) -> (r: Vec<String>)
    ensures
        str_views(r@) == absent(str_views(xs@), str_views(ys@)),
{
    let ghost xv = str_views(xs@);
    let ghost yv = str_views(ys@);
    let mut out: Vec<String> = Vec::new();
    let mut i: usize = 0;
    while i < xs.len()
        invariant
            i <= xs.len(),
            xv == str_views(xs@),
            yv == str_views(ys@),
            str_views(out@) == absent(xv.take(i as int), yv),
        decreases xs.len() - i,
    {
        assert(xv.take(i + 1).drop_last() =~= xv.take(i as int));
        assert(xv.take(i + 1).last() == xs@[i as int]@);
        if !has_string(ys, xs[i].as_str()) {
            let ghost before = str_views(out@);
            out.push(String::from_str(xs[i].as_str()));
            assert(str_views(out@) =~= before.push(xs@[i as int]@));
        }
        i = i + 1;
    }
    assert(xv.take(xs.len() as int) =~= xv);
    out
}

/// Add the PHP checks (see [`php_checks`]). `local` is the PHP the site is
/// served with, `composer` the project's composer.json when it parses, and
/// `loaded` the extensions the local PHP loads.
pub fn check_php(
    c: &mut Checks,
    name: &str,
    local: Option<&str>,
    remote: &Json,
    composer: Option<&Json>,
    loaded: &[String],
)
    ensures
        checks_view(final(c).0@) == checks_view(old(c).0@) + php_checks(
            name@,
            opt_str(local),
            *remote,
            match composer {
                Some(j) => Some(*j),
                None => None,
            },
            str_views(loaded@),
        ),
{
    let ghost start = checks_view(c.0@);
    let ghost cj = match composer {
        Some(j) => Some(*j),
        None => None,
    };
    let rp = cell_in(remote, "runtime_version", "php_version");
    let remote_php: Option<&str> = if str_is_empty(rp.as_str()) {
        None
    } else {
        Some(rp.as_str())
    };
    assert(opt_str(remote_php) == remote_php_of(*remote));
    add_php_version_checks(c, name, local, remote_php);
    let ghost mid = checks_view(c.0@);
    let req = match composer {
        Some(j) => match get(j, "require") {
            Some(r) => match r {
                Json::Object(..) => r,
                _ => {
                    assert(checks_view(c.0@) =~= start + php_checks(name@, opt_str(local), *remote, cj, str_views(loaded@)));
                    return;
                },
            },
            None => {
                assert(checks_view(c.0@) =~= start + php_checks(name@, opt_str(local), *remote, cj, str_views(loaded@)));
                return;
            },
        },
        None => {
            assert(checks_view(c.0@) =~= start + php_checks(name@, opt_str(local), *remote, cj, str_views(loaded@)));
            return;
        },
    };
    assert(require_of(cj) == Some(members_of(*req)));
    add_composer_php_checks(c, req, local, remote_php);
    let required = required_extensions(composer);
    add_extension_checks(c, local, &required, loaded);
    assert(checks_view(c.0@) =~= start + php_checks(name@, opt_str(local), *remote, cj, str_views(loaded@)));
}


// ------------------------------------------------------------- environment

/// The Environment checks, over key names only: `local` the keys of the
/// local `.env` in `dir`, `remote` the remote's keys or why they could not be
/// read.
pub open spec fn env_checks(
    remote_name: Seq<char>,
    dir: Seq<char>,
    local: Seq<Seq<char>>,
    remote: Result<Seq<Seq<char>>, Seq<char>>,
) -> Seq<CheckView> {
    match remote {
        Err(e) => seq![plain("parity.env"@, "Environment"@, "Environment"@, Status::Info, "couldn't read the remote env: "@ + e)],
        Ok(rk) => if local.len() == 0 {
            seq![plain("parity.env"@, "Environment"@, "Local .env"@, Status::Info, "no .env in "@ + dir)]
        } else {
            let counted = plain(
                "parity.env"@,
                "Environment"@,
                "Keys compared"@,
                Status::Info,
                dec(local.len()) + " local, "@ + dec(rk.len()) + " remote (names only \u{2014} no values are read)"@,
            );
            let missing = absent(local, rk);
            let missing_check = if missing.len() == 0 {
                plain("parity.env_missing"@, "Environment"@, "Missing on the remote"@, Status::Pass, "none \u{2014} every local key exists remotely"@)
            } else {
                fixed(
                    hinted(
                        plain("parity.env_missing"@, "Environment"@, "Missing on the remote"@, Status::Fail, join(missing, ", "@)),
                        "Your app reads these locally; on the server they resolve to null. Anything gated on them silently changes behaviour."@,
                    ),
                    "Copy the set command"@,
                    "dpl dply site:env "@ + remote_name + " --set "@ + missing[0] + "=<value>"@,
                )
            };
            let extra = absent(rk, local);
            seq![counted, missing_check] + if extra.len() == 0 {
                Seq::empty()
            } else {
                seq![hinted(
                    plain("parity.env_extra"@, "Environment"@, "Only on the remote"@, Status::Warn, join(extra, ", "@)),
                    "Code paths driven by these keys never run on your machine. Add them to .env (any value) to exercise them."@,
                )]
            }
        },
    }
}

/// Add the Environment checks (see [`env_checks`]). Values are never read:
/// both sides are key names.
pub fn check_env(c: &mut Checks, remote_name: &str, dir: &str, local: &Vec<String>, remote: &Result<Vec<String>, String>)
    ensures
        checks_view(final(c).0@) == checks_view(old(c).0@) + env_checks(
            remote_name@,
            dir@,
            str_views(local@),
            match remote {
                Ok(k) => Ok(str_views(k@)),
                Err(e) => Err(e@),
            },
        ),
{
    let ghost start = checks_view(c.0@);
    let ghost rv = match remote {
        Ok(k) => Ok(str_views(k@)),
        Err(e) => Err(e@),
    };
    let cat = "Environment";
    let rk = match remote {
        Err(e) => {
            let mut d = String::from_str("couldn't read the remote env: ");
            push_str(&mut d, e.as_str());
            push_check(c, "parity.env", cat, "Environment", Status::Info, d, None, None);
            assert(checks_view(c.0@) =~= start + env_checks(remote_name@, dir@, str_views(local@), rv));
            return;
        },
        Ok(k) => k,
    };
    if local.len() == 0 {
        let mut d = String::from_str("no .env in ");
        push_str(&mut d, dir);
        push_check(c, "parity.env", cat, "Local .env", Status::Info, d, None, None);
        assert(checks_view(c.0@) =~= start + env_checks(remote_name@, dir@, str_views(local@), rv));
        return;
    }
    let mut d = dec_string(local.len() as u64);
    push_str(&mut d, " local, ");
    push_str(&mut d, dec_string(rk.len() as u64).as_str());
    push_str(&mut d, " remote (names only \u{2014} no values are read)");
    push_check(c, "parity.env", cat, "Keys compared", Status::Info, d, None, None);
    let missing = absent_strings(local, rk.as_slice());
    if missing.len() == 0 {
        push_check(
            c,
            "parity.env_missing",
            cat,
            "Missing on the remote",
            Status::Pass,
            String::from_str("none \u{2014} every local key exists remotely"),
            None,
            None,
        );
    } else {
        let mut cmd = String::from_str("dpl dply site:env ");
        push_str(&mut cmd, remote_name);
        push_str(&mut cmd, " --set ");
        push_str(&mut cmd, missing[0].as_str());
        push_str(&mut cmd, "=<value>");
        push_check(
            c,
            "parity.env_missing",
            cat,
            "Missing on the remote",
            Status::Fail,
            join_strings(&missing, ", "),
            Some("Your app reads these locally; on the server they resolve to null. Anything gated on them silently changes behaviour."),
            Some(("Copy the set command", cmd.as_str())),
        );
    }
    let ghost two = checks_view(c.0@);
    let extra = absent_strings(rk, local.as_slice());
    if extra.len() > 0 {
        push_check(
            c,
            "parity.env_extra",
            cat,
            "Only on the remote",
            Status::Warn,
            join_strings(&extra, ", "),
            Some("Code paths driven by these keys never run on your machine. Add them to .env (any value) to exercise them."),
            None,
        );
    }
    assert(checks_view(c.0@) =~= start + env_checks(remote_name@, dir@, str_views(local@), rv));
}

// ---------------------------------------------------------------- services

/// The non-empty `name` (else `database`) cells of database rows, in order.
pub open spec fn database_names(rows: Seq<Json>) -> Seq<Seq<char>>
    decreases rows.len(),
{
    if rows.len() == 0 {
        Seq::empty()
    } else {
        let rest = database_names(rows.drop_last());
        let n = cell_text(first_field(rows.last(), seq!["name"@, "database"@]));
        if n.len() > 0 {
            rest.push(n)
        } else {
            rest
        }
    }
}

/// The Services check: the databases attached to the remote, when it lists
/// any (`databases` is `None` when they could not be read).
pub open spec fn database_checks(databases: Option<Json>) -> Seq<CheckView> {
    match databases {
        None => Seq::empty(),
        Some(v) => {
            let rs = rows_of(v);
            if rs.len() == 0 {
                Seq::empty()
            } else {
                let names = database_names(rs);
                seq![hinted(
                    plain(
                        "parity.databases"@,
                        "Services"@,
                        "Remote databases"@,
                        Status::Info,
                        if names.len() == 0 {
                            dec(rs.len()) + " attached"@
                        } else {
                            join(names, ", "@)
                        },
                    ),
                    "Compare against your local Services panel \u{2014} a database the app expects but you don't run locally hides migration bugs."@,
                )]
            }
        },
    }
}

/// Add the Services check (see [`database_checks`]).
pub fn check_services(c: &mut Checks, databases: Option<&Json>)
    ensures
        checks_view(final(c).0@) == checks_view(old(c).0@) + database_checks(
            match databases {
                Some(j) => Some(*j),
                None => None,
            },
        ),
{
    let ghost start = checks_view(c.0@);
    let ghost dj = match databases {
        Some(j) => Some(*j),
        None => None,
    };
    let v = match databases {
        Some(v) => v,
        None => {
            assert(checks_view(c.0@) =~= start + database_checks(dj));
            return;
        },
    };
    let rs = rows(v);
    let ghost rv = rows_of(*v);
    if rs.len() == 0 {
        assert(checks_view(c.0@) =~= start + database_checks(dj));
        return;
    }
    let mut names: Vec<String> = Vec::new();
    let mut i: usize = 0;
    while i < rs.len()
        invariant
            i <= rs.len(),
            rv == rows_of(*v),
            rs@.len() == rv.len(),
            forall|q: int| 0 <= q < rs@.len() ==> *(#[trigger] rs@[q]) == rv[q],
            str_views(names@) == database_names(rv.take(i as int)),
        decreases rs.len() - i,
    {
        assert(rv.take(i + 1).drop_last() =~= rv.take(i as int));
        assert(rv.take(i + 1).last() == rv[i as int]);
        let n = cell_in(rs[i], "name", "database");
        if !str_is_empty(n.as_str()) {
            let ghost before = str_views(names@);
            names.push(n);
            assert(str_views(names@) =~= before.push(names@.last()@));
        }
        i = i + 1;
    }
    assert(rv.take(rs.len() as int) =~= rv);
    let d = if names.len() == 0 {
        let mut d = dec_string(rs.len() as u64);
        push_str(&mut d, " attached");
        d
    } else {
        join_strings(&names, ", ")
    };
    push_check(
        c,
        "parity.databases",
        "Services",
        "Remote databases",
        Status::Info,
        d,
        Some("Compare against your local Services panel \u{2014} a database the app expects but you don't run locally hides migration bugs."),
        None,
    );
    assert(checks_view(c.0@) =~= start + database_checks(dj));
}


// ------------------------------------------------------------- local site

/// A linked local site: where it lives, what it serves, and what PHP it is
/// served with.
#[derive(Debug, Clone)]
pub struct LocalSite {
    pub name: String,
    pub path: String,
    pub docroot: String,
    pub php: Option<String>,
}

/// The link named `name`: the first with that key.
pub open spec fn link_named(links: Seq<(String, Link)>, name: Seq<char>) -> Option<Link>
    decreases links.len(),
{
    if links.len() == 0 {
        None
    } else if links[0].0@ == name {
        Some(links[0].1)
    } else {
        link_named(links.drop_first(), name)
    }
}

/// The name of the first link whose project is at `path`.
pub open spec fn link_at(links: Seq<(String, Link)>, path: Seq<char>) -> Option<Seq<char>>
    decreases links.len(),
{
    if links.len() == 0 {
        None
    } else if links[0].1.path@ == path {
        Some(links[0].0@)
    } else {
        link_at(links.drop_first(), path)
    }
}

/// The site parity compares: `site` lowercased when given, else the linked
/// site whose project is the current directory `cwd`.
pub open spec fn parity_name_of(links: Seq<(String, Link)>, site: Option<Seq<char>>, cwd: Seq<char>) -> Result<Seq<char>, Seq<char>> {
    match site {
        Some(n) => Ok(to_lowercase(n)),
        None => match link_at(links, cwd) {
            Some(n) => Ok(n),
            None => Err(cwd + " isn't a linked site \u{2014} pass a site name, e.g. `dpl parity my-app`"@),
        },
    }
}

/// The site parity compares (see [`parity_name_of`]); the error says why
/// there is none.
pub fn parity_name(config: &LocalConfig, site: Option<&str>, cwd: &str) -> (r: Result<String, String>)
    ensures
        match r {
            Ok(n) => parity_name_of(config.links@, opt_str(site), cwd@) == Ok::<Seq<char>, Seq<char>>(n@),
            Err(e) => parity_name_of(config.links@, opt_str(site), cwd@) == Err::<Seq<char>, Seq<char>>(e@),
        },
{
    if let Some(n) = site {
        return Ok(to_lower(n));
    }
    let links = &config.links;
    let mut i: usize = 0;
    assert(links@.skip(0) =~= links@);
    while i < links.len()
        invariant
            i <= links.len(),
            links@ == config.links@,
            site is None,
            link_at(links@, cwd@) == link_at(links@.skip(i as int), cwd@),
        decreases links.len() - i,
    {
        assert(links@.skip(i as int)[0] == links@[i as int]);
        assert(links@.skip(i as int).drop_first() =~= links@.skip(i + 1));
        if str_eq(links[i].1.path.as_str(), cwd) {
            return Ok(String::from_str(links[i].0.as_str()));
        }
        i = i + 1;
    }
    assert(links@.skip(i as int) =~= Seq::<(String, Link)>::empty());
    let mut e = String::from_str(cwd);
    push_str(&mut e, " isn't a linked site \u{2014} pass a site name, e.g. `dpl parity my-app`");
    Err(e)
}

/// The link named `name`; the error says there is none.
pub fn link_of<'a>(config: &'a LocalConfig, name: &str) -> (r: Result<&'a Link, String>)
    ensures
        match r {
            Ok(l) => link_named(config.links@, name@) == Some(*l),
            Err(e) => link_named(config.links@, name@) is None
                && e@ == "no linked site named `"@ + name@ + "` (parity compares linked projects)"@,
        },
{
    let links = &config.links;
    let mut i: usize = 0;
    assert(links@.skip(0) =~= links@);
    while i < links.len()
        invariant
            i <= links.len(),
            links@ == config.links@,
            link_named(links@, name@) == link_named(links@.skip(i as int), name@),
        decreases links.len() - i,
    {
        assert(links@.skip(i as int)[0] == links@[i as int]);
        assert(links@.skip(i as int).drop_first() =~= links@.skip(i + 1));
        if str_eq(links[i].0.as_str(), name) {
            return Ok(&links[i].1);
        }
        i = i + 1;
    }
    assert(links@.skip(i as int) =~= Seq::<(String, Link)>::empty());
    let mut e = String::from_str("no linked site named `");
    push_str(&mut e, name);
    push_str(&mut e, "` (parity compares linked projects)");
    Err(e)
}

/// Where a project's conventional `public` directory would be.
pub fn public_dir(project: &str) -> (r: String)
    ensures
        r@ == path_join(project@, "public"@),
{
    crate::paths::join(project, "public")
}

/// The linked site `name` as parity compares it: the docroot the daemon
/// reports, else the project's `public` directory when it is one, else the
/// project itself; the site's own PHP, else the default.
pub fn local_site(name: &str, link: &Link, daemon_docroot: Option<String>, public_is_dir: bool, default_php: Option<String>) -> (r: LocalSite)
    ensures
        r.name@ == name@,
        r.path@ == link.path@,
        r.docroot@ == match daemon_docroot {
            Some(d) => d@,
            None => if public_is_dir {
                path_join(link.path@, "public"@)
            } else {
                link.path@
            },
        },
        opt_view(r.php) == match link.php {
            Some(p) => Some(p@),
            None => opt_view(default_php),
        },
{
    let docroot = match daemon_docroot {
        Some(d) => d,
        None => if public_is_dir {
            public_dir(link.path.as_str())
        } else {
            String::from_str(link.path.as_str())
        },
    };
    let php = match &link.php {
        Some(p) => Some(String::from_str(p.as_str())),
        None => default_php,
    };
    LocalSite { name: String::from_str(name), path: String::from_str(link.path.as_str()), docroot, php }
}

// ------------------------------------------------------------------ report

/// The report's categories, in display order.
pub open spec fn parity_categories() -> Seq<Seq<char>> {
    seq!["Project"@, "PHP"@, "Environment"@, "Services"@]
}

/// The line under the report's title: the local site and the remote it is
/// compared with.
pub open spec fn parity_subtitle(local_name: Seq<char>, remote_name: Seq<char>, remote: Json) -> Seq<char> {
    "local "@ + local_name + ".test  \u{2194}  dply "@ + remote_name + " on "@
        + cell_text(first_field(remote, seq!["server_name"@, "server_id"@]))
}

/// Every parity check, in order.
pub open spec fn parity_checks(
    local: LocalSite,
    remote_name: Seq<char>,
    remote: Json,
    origin: Option<Seq<char>>,
    branch: Option<Seq<char>>,
    composer: Option<Json>,
    loaded: Seq<Seq<char>>,
    local_keys: Seq<Seq<char>>,
    remote_keys: Result<Seq<Seq<char>>, Seq<char>>,
    databases: Option<Json>,
) -> Seq<CheckView> {
    project_checks(remote_name, remote, origin, branch, local.docroot@)
        + php_checks(local.name@, opt_view(local.php), remote, composer, loaded)
        + env_checks(remote_name, local.path@, local_keys, remote_keys)
        + database_checks(databases)
}

/// Compare the local site with its dply counterpart `remote` (named
/// `remote_name`), given what the local side reports: git's `origin` and
/// branch, composer.json, the extensions PHP loads, and the `.env` key names;
/// and what dply reports: the remote's env key names (or why they could not
/// be read) and its databases (`None` when they could not be read).
pub fn build(
    local: &LocalSite,
    remote_name: &str,
    remote: &Json,
    origin: Option<&str>,
    branch: Option<&str>,
    composer: Option<&Json>,
    loaded: &[String],
    local_keys: &Vec<String>,
    remote_keys: &Result<Vec<String>, String>,
    databases: Option<&Json>,
) -> (r: Report)
    ensures
        r.title@ == "dpl parity "@ + local.name@,
        opt_view(r.subtitle) == Some(parity_subtitle(local.name@, remote_name@, *remote)),
        checks_view(r.checks@) == parity_checks(
            *local,
            remote_name@,
            *remote,
            opt_str(origin),
            opt_str(branch),
            match composer {
                Some(j) => Some(*j),
                None => None,
            },
            str_views(loaded@),
            str_views(local_keys@),
            match remote_keys {
                Ok(k) => Ok(str_views(k@)),
                Err(e) => Err(e@),
            },
            match databases {
                Some(j) => Some(*j),
                None => None,
            },
        ),
        r.summary.fail == status_count(r.checks@, Status::Fail),
        r.ok == (r.summary.fail == 0),
        str_views(r.categories@) == used_categories(parity_categories(), r.checks@),
{
    let mut c = Checks(Vec::new());
    assert(checks_view(c.0@) =~= Seq::<CheckView>::empty());
    check_project(&mut c, remote_name, remote, origin, branch, local.docroot.as_str());
    let local_php: Option<&str> = match &local.php {
        Some(p) => Some(p.as_str()),
        None => None,
    };
    check_php(&mut c, local.name.as_str(), local_php, remote, composer, loaded);
    check_env(&mut c, remote_name, local.path.as_str(), local_keys, remote_keys);
    check_services(&mut c, databases);
    let mut subtitle = String::from_str("local ");
    push_str(&mut subtitle, local.name.as_str());
    push_str(&mut subtitle, ".test  \u{2194}  dply ");
    push_str(&mut subtitle, remote_name);
    push_str(&mut subtitle, " on ");
    push_str(&mut subtitle, cell_in(remote, "server_name", "server_id").as_str());
    let mut title = String::from_str("dpl parity ");
    push_str(&mut title, local.name.as_str());
    let categories: [&str; 4] = ["Project", "PHP", "Environment", "Services"];
    assert(categories@.map_values(|x: &str| x@) =~= parity_categories());
    let r = Report::new(title.as_str(), Some(subtitle), &categories, c.0);
    assert(checks_view(r.checks@) =~= parity_checks(
        *local,
        remote_name@,
        *remote,
        opt_str(origin),
        opt_str(branch),
        match composer {
            Some(j) => Some(*j),
            None => None,
        },
        str_views(loaded@),
        str_views(local_keys@),
        match remote_keys {
            Ok(k) => Ok(str_views(k@)),
            Err(e) => Err(e@),
        },
        match databases {
            Some(j) => Some(*j),
            None => None,
        },
    ));
    r
}

} // verus!
