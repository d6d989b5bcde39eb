//! PHP versions: which lines can be installed, what state each is in, and
//! which binary a pinned version maps to.
//!
//! Probing the disk and running `php` are the caller's part; the functions
//! here take what was found.

use vstd::prelude::*;

use crate::sites::opt_view;
use crate::paths::{join, path_join};
use crate::text::{
    contains_chars, find, find_chars, has_prefix, occurs_at, lemma_find_from, lines, lines_of, slice_chars,
    lemma_lex_total, lemma_lex_trans, lex_less, lex_lt,
    contains_seq, copy_string, push_str, str_contains, str_eq, str_views, trim, trim_str,
};

verus! {

/// A discovered PHP install.
#[derive(Debug, Clone)]
pub struct PhpVersion {
    /// `major.minor`, e.g. `"8.3"`.
    pub version: String,
    /// Absolute path to the `php` binary.
    pub binary: String,
    /// Where it was found (`homebrew`, `path`).
    pub source: String,
}

/// Every PHP line installable via Homebrew, newest first.
pub open spec fn known_versions() -> Seq<Seq<char>> {
    seq!["8.5"@, "8.4"@, "8.3"@, "8.2"@, "8.1"@, "8.0"@, "7.4"@, "7.3"@, "7.2"@, "7.1"@, "7.0"@, "5.6"@]
}

fn known_version(i: usize) -> (r: &'static str)
    requires
        i < 12,
    ensures
        r@ == known_versions()[i as int],
{
    match i {
        0 => "8.5",
        1 => "8.4",
        2 => "8.3",
        3 => "8.2",
        4 => "8.1",
        5 => "8.0",
        6 => "7.4",
        7 => "7.3",
        8 => "7.2",
        9 => "7.1",
        10 => "7.0",
        _ => "5.6",
    }
}

/// What probing the disk found for one PHP line.
#[derive(Debug, Clone)]
pub struct KegProbe {
    /// A keg exists (its Cellar directory, or the unversioned `php` keg at
    /// this version).
    pub keg: bool,
    /// A runnable `php` binary exists at this line's `opt` path.
    pub binary: bool,
    /// That binary reports extensions it fails to load at startup.
    pub load_errors: bool,
    /// The full installed version (e.g. `"8.5.8"`), when known.
    pub installed_version: Option<String>,
}

/// A PHP line's install status, for the version manager.
#[derive(Debug, Clone)]
pub struct CatalogEntry {
    /// `major.minor`, e.g. `"8.3"`.
    pub version: String,
    /// Homebrew formula, e.g. `"php@8.3"`.
    pub formula: String,
    /// A keg exists on disk (installed, though possibly broken).
    pub installed: bool,
    /// Installed but missing its binary, or failing to load an extension.
    pub broken: bool,
    /// This is the active default version.
    pub active: bool,
    /// Full installed version, when a keg is present.
    pub installed_version: Option<String>,
}

/// Whether a catalog entry says what the probe for line `v` found: its
/// formula, installed when a keg exists, broken when installed without a
/// working binary or with extension load errors, active when it is the
/// default version.
pub open spec fn entry_for(e: CatalogEntry, v: Seq<char>, p: KegProbe, default: Option<Seq<char>>) -> bool {
    &&& e.version@ == v
    &&& e.formula@ == "php@"@ + v
    &&& e.installed == p.keg
    &&& e.broken == (p.keg && (!p.binary || p.load_errors))
    &&& e.active == (default == Some(v))
    &&& opt_view(e.installed_version) == (if p.keg { opt_view(p.installed_version) } else { None })
}

/// The full catalog of installable PHP lines with their status: one entry
/// per known line, newest first, from the probe of that line and the default
/// version.
pub fn catalog(probes: &[KegProbe], default: Option<&str>) -> (r: Vec<CatalogEntry>)
    requires
        probes@.len() == known_versions().len(),
    ensures
        r@.len() == known_versions().len(),
        forall|i: int|
            0 <= i < r@.len() ==> entry_for(
                #[trigger] r@[i],
                known_versions()[i],
                probes@[i],
                crate::node::opt_str(default),
            ),
{
    let mut out: Vec<CatalogEntry> = Vec::new();
    let mut i: usize = 0;
    while i < 12
        invariant
            i <= 12,
            probes@.len() == 12,
            out@.len() == i,
            forall|k: int|
                0 <= k < i ==> entry_for(
                    #[trigger] out@[k],
                    known_versions()[k],
                    probes@[k],
                    crate::node::opt_str(default),
                ),
        decreases 12 - i,
    {
        let v = known_version(i);
        let p = &probes[i];
        let mut formula = String::from_str("php@");
        push_str(&mut formula, v);
        let active = match default {
            Some(d) => str_eq(d, v),
            None => false,
        };
        let installed_version = if p.keg {
            match &p.installed_version {
                Some(s) => Some(copy_string(s)),
                None => None,
            }
        } else {
            None
        };
        out.push(
            CatalogEntry {
                version: String::from_str(v),
                formula,
                installed: p.keg,
                broken: p.keg && (!p.binary || p.load_errors),
                active,
                installed_version,
            },
        );
        i = i + 1;
    }
    out
}

/// The binary of the first detected install of `version`.
pub open spec fn resolved_binary(detected: Seq<PhpVersion>, version: Seq<char>) -> Option<Seq<char>>
    decreases detected.len(),
{
    if detected.len() == 0 {
        None
    } else if detected[0].version@ == version {
        Some(detected[0].binary@)
    } else {
        resolved_binary(detected.drop_first(), version)
    }
}

/// Resolve a pinned `major.minor` version to the binary of the first
/// detected install of it, or `None` if absent.
pub fn resolve(version: &str, detected: &[PhpVersion]) -> (r: Option<String>)
    ensures
        opt_view(r) == resolved_binary(detected@, version@),
{
    let mut i: usize = 0;
    assert(detected@.skip(0) =~= detected@);
    while i < detected.len()
        invariant
            i <= detected.len(),
            resolved_binary(detected@, version@) == resolved_binary(detected@.skip(i as int), version@),
        decreases detected.len() - i,
    {
        proof {
            assert(detected@.skip(i as int)[0] == detected@[i as int]);
            assert(detected@.skip(i as int).drop_first() =~= detected@.skip(i + 1));
        }
        if str_eq(detected[i].version.as_str(), version) {
            return Some(copy_string(&detected[i].binary));
        }
        i = i + 1;
    }
    None
}

/// The default `php`: what `which php` found, else plain `php`.
pub fn default_binary(which_php: Option<&str>) -> (r: String)
    ensures
        r@ == match which_php {
            Some(p) => p@,
            None => "php"@,
        },
{
    match which_php {
        Some(p) => String::from_str(p),
        None => String::from_str("php"),
    }
}

/// The `major.minor` a php binary printed: its trimmed output, when that is
/// not empty and has a `.`; `None` when the binary could not be run.
pub open spec fn version_printed(output: Option<Seq<char>>) -> Option<Seq<char>> {
    match output {
        Some(o) => if trim(o).len() > 0 && contains_seq(trim(o), seq!['.']) {
            Some(trim(o))
        } else {
            None
        },
        None => None,
    }
}

/// `major.minor` of the default `php`, from what it printed when asked
/// (`None` when it could not be run or failed).
pub fn default_version(output: Option<&str>) -> (r: Option<String>)
    ensures
        opt_view(r) == version_printed(crate::node::opt_str(output)),
{
    match output {
        Some(o) => {
            let t = trim_str(o);
            let has_dot = str_contains(t.as_str(), ".");
            proof {
                reveal_strlit(".");
                assert("."@ =~= seq!['.']);
            }
            if !crate::text::str_is_empty(t.as_str()) && has_dot {
                Some(t)
            } else {
                None
            }
        },
        None => None,
    }
}


// ------------------------------------------------------------------ detect

/// Whether a candidate install (binary, source, reported version) reported
/// the version `v`.
pub open spec fn reports(f: (String, String, Option<String>), v: Seq<char>) -> bool {
    match f.2 {
        Some(w) => w@ == v,
        None => false,
    }
}

/// Whether `pv` is the first of the candidates `fs` to report its version.
pub open spec fn first_found(fs: Seq<(String, String, Option<String>)>, pv: PhpVersion) -> bool {
    exists|q: int|
        0 <= q < fs.len() && #[trigger] reports(fs[q], pv.version@) && fs[q].0@ == pv.binary@ && fs[q].1@
            == pv.source@ && forall|q2: int| 0 <= q2 < q ==> !#[trigger] reports(fs[q2], pv.version@)
}

/// Whether some install in `out` has version `v`.
fn has_version(out: &Vec<PhpVersion>, v: &str) -> (r: bool)
    ensures
        r == exists|k: int| 0 <= k < out@.len() && (#[trigger] out@[k]).version@ == v@,
{
    let mut k: usize = 0;
    while k < out.len()
        invariant
            k <= out.len(),
            forall|j: int| 0 <= j < k ==> (#[trigger] out@[j]).version@ != v@,
        decreases out.len() - k,
    {
        if str_eq(out[k].version.as_str(), v) {
            return true;
        }
        k = k + 1;
    }
    false
}

/// The installs found, de-duplicated by version (the first candidate to
/// report a version wins, so Homebrew's beat a bare `PATH` entry when they
/// come first) and sorted newest-first. `found` holds each candidate binary
/// in scan order, where it was found, and the version it reported (`None`
/// when it could not be asked).
pub fn detect(found: &[(String, String, Option<String>)]) -> (r: Vec<PhpVersion>)
    ensures
        forall|a: int, b: int| 0 <= a < b < r@.len() ==> lex_lt(#[trigger] r@[b].version@, #[trigger] r@[a].version@),
        forall|k: int| 0 <= k < r@.len() ==> first_found(found@, #[trigger] r@[k]),
        forall|q: int, v: Seq<char>|
            0 <= q < found@.len() && #[trigger] reports(found@[q], v) ==> exists|k: int|
                0 <= k < r@.len() && (#[trigger] r@[k]).version@ == v,
{
    let mut out: Vec<PhpVersion> = Vec::new();
    let mut i: usize = 0;
    while i < found.len()
        invariant
            i <= found.len(),
            forall|a: int, b: int| 0 <= a < b < out@.len() ==> lex_lt(#[trigger] out@[b].version@, #[trigger] out@[a].version@),
            forall|k: int| 0 <= k < out@.len() ==> first_found(found@.take(i as int), #[trigger] out@[k]),
            forall|q: int, v: Seq<char>|
                0 <= q < i && #[trigger] reports(found@[q], v) ==> exists|k: int|
                    0 <= k < out@.len() && (#[trigger] out@[k]).version@ == v,
        decreases found.len() - i,
    {
        let ghost fs0 = found@.take(i as int);
        let ghost fs1 = found@.take(i + 1);
        assert(fs1.take(i as int) =~= fs0);
        proof {
            assert forall|k: int| 0 <= k < out@.len() implies first_found(fs1, #[trigger] out@[k]) by {
                let pv = out@[k];
                let q = choose|q: int|
                    0 <= q < fs0.len() && #[trigger] reports(fs0[q], pv.version@) && fs0[q].0@ == pv.binary@
                        && fs0[q].1@ == pv.source@ && forall|q2: int| 0 <= q2 < q ==> !#[trigger] reports(fs0[q2], pv.version@);
                assert(fs1[q] == fs0[q]);
                assert forall|q2: int| 0 <= q2 < q implies !#[trigger] reports(fs1[q2], pv.version@) by {
                    assert(fs1[q2] == fs0[q2]);
                }
            }
        }
        match &found[i].2 {
            None => {},
            Some(v) => {
                if !has_version(&out, v.as_str()) {
                    let vc = crate::text::to_chars(v.as_str());
                    let ghost o0 = out@;
                    let mut p: usize = 0;
                    while p < out.len() && lex_less(&vc, &crate::text::to_chars(out[p].version.as_str()))
                        invariant
                            p <= out.len(),
                            out@ == o0,
                            forall|k: int| 0 <= k < p ==> lex_lt(vc@, #[trigger] o0[k].version@),
                        decreases out.len() - p,
                    {
                        p = p + 1;
                    }
                    proof {
                        if p < out.len() {
                            assert(o0[p as int].version@ != v@);
                            lemma_lex_total(o0[p as int].version@, v@);
                            assert forall|k: int| p <= k < o0.len() implies lex_lt(#[trigger] o0[k].version@, v@) by {
                                if k > p {
                                    lemma_lex_trans(o0[k].version@, o0[p as int].version@, v@);
                                }
                            }
                        }
                    }
                    let pv = PhpVersion {
                        version: copy_string(v),
                        binary: copy_string(&found[i].0),
                        source: copy_string(&found[i].1),
                    };
                    out.insert(p, pv);
                    proof {
                        let o1 = out@;
                        assert(o1 =~= o0.insert(p as int, pv));
                        assert forall|a: int, b: int| 0 <= a < b < o1.len() implies lex_lt(
                            #[trigger] o1[b].version@,
                            #[trigger] o1[a].version@,
                        ) by {
                            if b < p {
                            } else if a < p && b == p {
                            } else if a < p {
                                lemma_lex_trans(o0[b - 1].version@, v@, o0[a].version@);
                            } else if a == p {
                            } else {
                            }
                        }
                        assert forall|k: int| 0 <= k < o1.len() implies first_found(fs1, #[trigger] o1[k]) by {
                            if k < p {
                                assert(o1[k] == o0[k]);
                            } else if k > p {
                                assert(o1[k] == o0[k - 1]);
                            } else {
                                assert(reports(fs1[i as int], pv.version@));
                                assert forall|q2: int| 0 <= q2 < i implies !#[trigger] reports(fs1[q2], pv.version@) by {
                                    assert(fs1[q2] == found@[q2]);
                                    if reports(found@[q2], v@) {
                                        let kk = choose|kk: int| 0 <= kk < o0.len() && (#[trigger] o0[kk]).version@ == v@;
                                        assert(o0[kk].version@ == v@);
                                    }
                                }
                            }
                        }
                        assert forall|q: int, w: Seq<char>|
                            0 <= q < i + 1 && #[trigger] reports(found@[q], w) implies exists|k: int|
                                0 <= k < o1.len() && (#[trigger] o1[k]).version@ == w by {
                            if q < i {
                                let kk = choose|kk: int| 0 <= kk < o0.len() && (#[trigger] o0[kk]).version@ == w;
                                if kk < p {
                                    assert(o1[kk] == o0[kk]);
                                } else {
                                    assert(o1[kk + 1] == o0[kk]);
                                }
                            } else {
                                assert(o1[p as int].version@ == w);
                            }
                        }
                    }
                }
            },
        }
        i = i + 1;
    }
    assert(found@.take(found.len() as int) =~= found@);
    out
}


/// Whether an entry of Homebrew's `opt` directory is a PHP formula: `php`
/// itself or a versioned `php@…`.
pub fn is_php_formula(name: &str) -> (r: bool)
    ensures
        r == (name@ == "php"@ || has_prefix(name@, "php@"@)),
{
    str_eq(name, "php") || crate::text::str_starts_with(name, "php@")
}

/// The names looked up on `PATH`, in order.
pub open spec fn path_candidates() -> Seq<Seq<char>> {
    seq!["php"@, "php8"@, "php8.4"@, "php8.3"@, "php8.2"@, "php8.1"@, "php8.0"@]
}

/// The names looked up on `PATH`, in order (see [`path_candidates`]).
pub fn path_candidate_names() -> (r: Vec<&'static str>)
    ensures
        r@.map_values(|n: &str| n@) == path_candidates(),
{
    let mut v: Vec<&'static str> = Vec::new();
    v.push("php");
    v.push("php8");
    v.push("php8.4");
    v.push("php8.3");
    v.push("php8.2");
    v.push("php8.1");
    v.push("php8.0");
    assert(v@.map_values(|n: &str| n@) =~= path_candidates());
    v
}

/// A binary's `major.minor`, from what it printed when asked (`None` when
/// it could not be run or failed; see [`version_printed`]).
pub fn version_of(output: Option<&str>) -> (r: Option<String>)
    ensures
        opt_view(r) == version_printed(crate::node::opt_str(output)),
{
    default_version(output)
}

// ------------------------------------------------------------ startup errors

/// The library a startup warning line names: the text between its first two
/// `'`s, when the line is an "Unable to load dynamic library" warning.
pub open spec fn load_error_path(line: Seq<char>) -> Option<Seq<char>> {
    if contains_seq(line, "Unable to load dynamic library"@) {
        match find(line, seq!['\'']) {
            Some(s) => match find(line.skip(s + 1), seq!['\'']) {
                Some(e) => Some(line.skip(s + 1).take(e)),
                None => None,
            },
            None => None,
        }
    } else {
        None
    }
}

/// The libraries named by the warnings among `ls`, in order.
pub open spec fn load_error_paths(ls: Seq<Seq<char>>) -> Seq<Seq<char>>
    decreases ls.len(),
{
    if ls.len() == 0 {
        Seq::empty()
    } else {
        match load_error_path(ls.last()) {
            Some(p) => load_error_paths(ls.drop_last()).push(p),
            None => load_error_paths(ls.drop_last()),
        }
    }
}

/// Missing shared libraries a php binary failed to load at startup, from
/// what it wrote to stderr: the paths inside "Unable to load dynamic library
/// '…'" warnings, in order. Empty when the version starts cleanly.
pub fn startup_load_errors(stderr: &str) -> (r: Vec<String>)
    ensures
        str_views(r@) == load_error_paths(lines(stderr@)),
{
    let cs = crate::text::to_chars(stderr);
    let ls = lines_of(&cs);
    let ghost lv = lines(stderr@);
    let marker = crate::text::to_chars("Unable to load dynamic library");
    let quote = ['\''];
    assert(quote@ =~= seq!['\'']);
    let mut out: Vec<String> = Vec::new();
    let mut i: usize = 0;
    while i < ls.len()
        invariant
            i <= ls.len(),
            lv == lines(stderr@),
            ls@.len() == lv.len(),
            forall|q: int| 0 <= q < ls@.len() ==> (#[trigger] ls@[q])@ == lv[q],
            marker@ == "Unable to load dynamic library"@,
            quote@ == seq!['\''],
            str_views(out@) == load_error_paths(lv.take(i as int)),
        decreases ls.len() - i,
    {
        let l = &ls[i];
        assert(lv.take(i + 1).drop_last() =~= lv.take(i as int));
        assert(lv.take(i + 1).last() == l@);
        if contains_chars(l, &marker) {
            proof {
                lemma_find_from(l@, quote@, 0);
            }
            if let Some(s) = find_chars(l, &quote) {
                assert(occurs_at(l@, quote@, s as int));
                let n = l.len();
                assert(s < n);
                let rest = slice_chars(l, s + 1, n);
                assert(rest@ =~= l@.skip(s + 1));
                proof {
                    lemma_find_from(rest@, quote@, 0);
                }
                if let Some(e) = find_chars(&rest, &quote) {
                    let path = slice_chars(&rest, 0, e);
                    assert(path@ =~= rest@.take(e as int));
                    let ghost before = str_views(out@);
                    out.push(crate::text::from_chars(&path));
                    assert(str_views(out@) =~= before.push(path@));
                }
            }
        }
        i = i + 1;
    }
    assert(lv.take(ls.len() as int) =~= lv);
    out
}

// ------------------------------------------------------------------- kegs

/// What `char::is_numeric` returns: whether the character has a Unicode
/// numeric general category.
pub uninterp spec fn numeric_char(c: char) -> bool;

/// `char::is_numeric`. The result is named by the argument; the one fact
/// stated is the ASCII case, where only the decimal digits are numeric.
/// Nothing is stated of other characters.
#[verifier::external_body]
fn is_numeric(c: char) -> (r: bool)
    ensures
        r == numeric_char(c),
        (c as u32) < 0x80 ==> (r <==> ('0' <= c && c <= '9')),
{
    c.is_numeric()
}

/// Whether a keg directory name starts with a numeric character (a version).
pub open spec fn numeric_start(n: Seq<char>) -> bool {
    n.len() > 0 && numeric_char(n[0])
}

/// The greatest (by `String` order) of the names that start with a numeric
/// character.
pub open spec fn newest(ns: Seq<Seq<char>>) -> Option<Seq<char>>
    decreases ns.len(),
{
    if ns.len() == 0 {
        None
    } else {
        let rest = newest(ns.drop_last());
        let n = ns.last();
        if !numeric_start(n) {
            rest
        } else {
            match rest {
                Some(m) => if lex_lt(n, m) {
                    Some(m)
                } else {
                    Some(n)
                },
                None => Some(n),
            }
        }
    }
}

fn newest_of(names: &[String]) -> (r: Option<String>)
    ensures
        opt_view(r) == newest(str_views(names@)),
{
    let ghost nv = str_views(names@);
    let mut best: Option<String> = None;
    let mut i: usize = 0;
    while i < names.len()
        invariant
            i <= names.len(),
            nv == str_views(names@),
            opt_view(best) == newest(nv.take(i as int)),
        decreases names.len() - i,
    {
        let n = crate::text::to_chars(names[i].as_str());
        assert(nv.take(i + 1).drop_last() =~= nv.take(i as int));
        assert(nv.take(i + 1).last() == n@);
        if n.len() > 0 && is_numeric(n[0]) {
            best = match best {
                Some(m) => {
                    if lex_less(&n, &crate::text::to_chars(m.as_str())) {
                        Some(m)
                    } else {
                        Some(copy_string(&names[i]))
                    }
                },
                None => Some(copy_string(&names[i])),
            };
        }
        i = i + 1;
    }
    assert(nv.take(names.len() as int) =~= nv);
    best
}

/// Whether some name starts with `version` and a `.`.
pub open spec fn names_version(ns: Seq<Seq<char>>, version: Seq<char>) -> bool {
    exists|i: int| 0 <= i < ns.len() && has_prefix(#[trigger] ns[i], version + "."@)
}

/// Whether the unversioned `php` keg is at `version`: one of its Cellar
/// entries (`names`) starts with `version` and a `.`.
pub fn cellar_php_is(names: &[String], version: &str) -> (r: bool)
    ensures
        r == names_version(str_views(names@), version@),
{
    let mut prefix = String::from_str(version);
    crate::text::push_str(&mut prefix, ".");
    let mut i: usize = 0;
    while i < names.len()
        invariant
            i <= names.len(),
            prefix@ == version@ + "."@,
            forall|k: int| 0 <= k < i ==> !has_prefix(#[trigger] str_views(names@)[k], version@ + "."@),
        decreases names.len() - i,
    {
        if crate::text::str_starts_with(names[i].as_str(), prefix.as_str()) {
            assert(has_prefix(str_views(names@)[i as int], version@ + "."@));
            return true;
        }
        i = i + 1;
    }
    false
}

/// The full installed version for a `major.minor` line, from the Cellar
/// entries of its `php@X.Y` keg, else of the unversioned `php` keg when that
/// is at this line.
pub open spec fn keg_version(versioned: Seq<Seq<char>>, unversioned: Seq<Seq<char>>, version: Seq<char>) -> Option<Seq<char>> {
    match newest(versioned) {
        Some(v) => Some(v),
        None => match newest(unversioned) {
            Some(v) => if has_prefix(v, version + "."@) {
                Some(v)
            } else {
                None
            },
            None => None,
        },
    }
}

/// The full installed version for `version` (see [`keg_version`]); each
/// list holds a Cellar keg's entries, empty when it can't be read.
pub fn cellar_keg_version(versioned: &[String], unversioned: &[String], version: &str) -> (r: Option<String>)
    ensures
        opt_view(r) == keg_version(str_views(versioned@), str_views(unversioned@), version@),
{
    if let Some(v) = newest_of(versioned) {
        return Some(v);
    }
    match newest_of(unversioned) {
        Some(v) => {
            let mut prefix = String::from_str(version);
            crate::text::push_str(&mut prefix, ".");
            if crate::text::str_starts_with(v.as_str(), prefix.as_str()) {
                Some(v)
            } else {
                None
            }
        },
        None => None,
    }
}

/// The `php` binary to run for a PHP line under a Homebrew `prefix`: its own
/// `opt/php@X.Y` binary when that is a file, else the unversioned
/// `opt/php` binary when the unversioned keg is at this line and that is a
/// file.
pub fn keg_binary(prefix: &str, version: &str, versioned_bin: bool, unversioned_bin: bool, unversioned: &[String]) -> (r: Option<String>)
    ensures
        opt_view(r) == if versioned_bin {
            Some(path_join(path_join(path_join(prefix@, "opt"@), "php@"@ + version@), "bin/php"@))
        } else if names_version(str_views(unversioned@), version@) && unversioned_bin {
            Some(path_join(prefix@, "opt/php/bin/php"@))
        } else {
            None
        },
{
    if versioned_bin {
        let mut formula = String::from_str("php@");
        crate::text::push_str(&mut formula, version);
        let opt = join(prefix, "opt");
        let dir = join(opt.as_str(), formula.as_str());
        return Some(join(dir.as_str(), "bin/php"));
    }
    if cellar_php_is(unversioned, version) && unversioned_bin {
        Some(join(prefix, "opt/php/bin/php"))
    } else {
        None
    }
}

/// What the probe of one PHP line found: a keg when its Cellar directory
/// exists or the unversioned keg is at this line; its full version from the
/// kegs' entries when there is a keg; `binary` and `load_errors` as the
/// caller found them for [`keg_binary`].
pub fn keg_probe(
    version: &str,
    cellar_dir: bool,
    versioned: &[String],
    unversioned: &[String],
    binary: bool,
    load_errors: bool,
) -> (r: KegProbe)
    ensures
        r.keg == (cellar_dir || names_version(str_views(unversioned@), version@)),
        r.binary == binary,
        r.load_errors == load_errors,
        opt_view(r.installed_version) == if r.keg {
            keg_version(str_views(versioned@), str_views(unversioned@), version@)
        } else {
            None
        },
{
    let keg = cellar_dir || cellar_php_is(unversioned, version);
    let installed_version = if keg {
        cellar_keg_version(versioned, unversioned, version)
    } else {
        None
    };
    KegProbe { keg, binary, load_errors, installed_version }
}


// ------------------------------------------------------------------ Homebrew

/// Common Homebrew prefixes (Apple silicon, Intel) and a Linuxbrew default.
pub open spec fn brew_prefixes() -> Seq<Seq<char>> {
    seq!["/opt/homebrew"@, "/usr/local"@, "/home/linuxbrew/.linuxbrew"@]
}

/// The Homebrew prefixes, in the order they are tried (see
/// [`brew_prefixes`]).
pub fn brew_prefix_list() -> (r: Vec<&'static str>)
    ensures
        r@.map_values(|p: &str| p@) == brew_prefixes(),
{
    let mut v: Vec<&'static str> = Vec::new();
    v.push("/opt/homebrew");
    v.push("/usr/local");
    v.push("/home/linuxbrew/.linuxbrew");
    assert(v@.map_values(|p: &str| p@) =~= brew_prefixes());
    v
}

/// Where an extension keg's shared object lives for a PHP line, relative to
/// a Homebrew prefix (`opt/xdebug@8.3/xdebug.so`).
pub open spec fn keg_so(ext: Seq<char>, version: Seq<char>) -> Seq<char> {
    "opt/"@ + ext + "@"@ + version + "/"@ + ext + ".so"@
}

/// The places an extension keg's shared object can be for a PHP line, one
/// under each Homebrew prefix, in order.
pub fn keg_so_paths(ext: &str, version: &str) -> (r: Vec<String>)
    ensures
        str_views(r@) == brew_prefixes().map_values(|p: Seq<char>| path_join(p, keg_so(ext@, version@))),
{
    let mut rel = String::from_str("opt/");
    push_str(&mut rel, ext);
    push_str(&mut rel, "@");
    push_str(&mut rel, version);
    push_str(&mut rel, "/");
    push_str(&mut rel, ext);
    push_str(&mut rel, ".so");
    let ps = brew_prefix_list();
    let ghost pv = ps@.map_values(|p: &str| p@);
    let mut out: Vec<String> = Vec::new();
    let mut i: usize = 0;
    while i < ps.len()
        invariant
            i <= ps.len(),
            pv == ps@.map_values(|p: &str| p@),
            pv == brew_prefixes(),
            rel@ == keg_so(ext@, version@),
            str_views(out@) == pv.take(i as int).map_values(|p: Seq<char>| path_join(p, keg_so(ext@, version@))),
        decreases ps.len() - i,
    {
        let ghost before = str_views(out@);
        let j = join(ps[i], rel.as_str());
        let ghost jv = j@;
        out.push(j);
        assert(pv[i as int] == ps@[i as int]@);
        assert(jv == path_join(pv[i as int], keg_so(ext@, version@)));
        assert(str_views(out@) =~= before.push(jv));
        assert(pv.take(i + 1) =~= pv.take(i as int).push(pv[i as int]));
        assert(str_views(out@) =~= pv.take(i + 1).map_values(|p: Seq<char>| path_join(p, keg_so(ext@, version@))));
        i = i + 1;
    }
    assert(pv.take(ps.len() as int) =~= pv);
    out
}


/// An installed line is broken exactly when its binary is missing or it
/// reports extensions it fails to load at startup; a line that is not
/// installed is never broken.
pub proof fn lemma_broken_lines(e: CatalogEntry, v: Seq<char>, p: KegProbe, default: Option<Seq<char>>)
    requires
        entry_for(e, v, p, default),
    ensures
        p.keg && p.load_errors ==> e.broken,
        p.keg && !p.binary ==> e.broken,
        p.keg && p.binary && !p.load_errors ==> !e.broken,
        !p.keg ==> !e.broken && !e.installed,
{
}

/// A catalog line is installed exactly when its keg exists, active exactly
/// when it is the default version, and names its own formula.
pub proof fn lemma_catalog_line(e: CatalogEntry, v: Seq<char>, p: KegProbe, default: Option<Seq<char>>)
    requires
        entry_for(e, v, p, default),
    ensures
        e.installed == p.keg,
        e.active <==> default == Some(v),
        e.formula@ == "php@"@ + v,
        e.installed ==> opt_view(e.installed_version) == opt_view(p.installed_version),
        !e.installed ==> e.installed_version is None,
{
}
} // verus!
