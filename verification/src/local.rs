//! The decisions behind local site and PHP management: version spellings,
//! database connection strings, what `php --ini` reports, which conf.d
//! entries load a missing extension, and the headers a mail listing shows.
//! Running `php`, `brew` and reading files is the caller's part.

use vstd::prelude::*;

use crate::paths::{join, path_join};
use crate::text::{
    all_digits, contains_seq, dec, find, find_chars, from_chars, has_prefix, has_suffix, is_digit, lines,
    lines_of, push_str, slice_chars, split_char, split_on, str_views, to_chars, to_lower, to_lowercase, trim,
    trim_chars, trim_end_any, trim_end_any_chars, trim_end_matches, trim_start, trim_start_any,
    trim_start_any_chars, trim_start_matches, trim_start_matches_chars, trim_end_matches_chars, views,
};

verus! {

// ------------------------------------------------------------- php versions

/// The pieces of `ps` that are not empty, in order.
pub open spec fn nonempty(ps: Seq<Seq<char>>) -> Seq<Seq<char>>
    decreases ps.len(),
{
    if ps.len() == 0 {
        Seq::empty()
    } else {
        let rest = nonempty(ps.drop_last());
        if ps.last().len() > 0 {
            rest.push(ps.last())
        } else {
            rest
        }
    }
}

/// The dot-separated numbers of a PHP version spelling (`8.3`, `php@8.3`,
/// `php8.3.2`): trimmed, a leading `php@` and `php` removed, empty pieces
/// dropped.
pub open spec fn version_parts(input: Seq<char>) -> Seq<Seq<char>> {
    let s = trim_start_matches(trim_start_matches(trim(input), "php@"@), "php"@);
    nonempty(split_on(s, '.'))
}

/// A PHP version spelling brought down to its `major.minor` line, or the
/// message for a spelling with fewer than two parts.
pub open spec fn php_line(input: Seq<char>) -> Result<Seq<char>, Seq<char>> {
    let parts = version_parts(input);
    if parts.len() < 2 {
        Err("expected a PHP version like 8.3 (got `"@ + input + "`)"@)
    } else {
        Ok(parts[0] + "."@ + parts[1])
    }
}

/// Normalize `8.3`, `php@8.3`, or `8.3.2` down to a `major.minor` line.
pub fn normalize_php_version(input: &str) -> (r: Result<String, String>)
    ensures
        match r {
            Ok(v) => php_line(input@) == Ok::<Seq<char>, Seq<char>>(v@),
            Err(e) => php_line(input@) == Err::<Seq<char>, Seq<char>>(e@),
        },
{
    let t = trim_chars(&to_chars(input));
    let a = trim_start_matches_chars(&t, &to_chars("php@"));
    let s = trim_start_matches_chars(&a, &to_chars("php"));
    let pieces = split_char(&s, '.');
    let ghost pv = views(pieces@);
    assert(pv =~= split_on(s@, '.'));
    assert(s@ == trim_start_matches(trim_start_matches(trim(input@), "php@"@), "php"@));
    let mut parts: Vec<Vec<char>> = Vec::new();
    let mut i: usize = 0;
    assert(pv.take(0) =~= Seq::<Seq<char>>::empty());
    assert(views(parts@) =~= Seq::<Seq<char>>::empty());
    while i < pieces.len()
        invariant
            i <= pieces.len(),
            pv == views(pieces@),
            views(parts@) == nonempty(pv.take(i as int)),
        decreases pieces.len() - i,
    {
        assert(pv.take(i + 1).drop_last() =~= pv.take(i as int));
        assert(pv.take(i + 1).last() == pieces@[i as int]@);
        if pieces[i].len() > 0 {
            let ghost before = views(parts@);
            let piece = slice_chars(&pieces[i], 0, pieces[i].len());
            assert(piece@ =~= pieces@[i as int]@);
            parts.push(piece);
            assert(views(parts@) =~= before.push(pieces@[i as int]@));
        }
        i = i + 1;
    }
    assert(pv.take(pieces.len() as int) =~= pv);
    assert(views(parts@) == version_parts(input@));
    if parts.len() < 2 {
        let mut e = String::from_str("expected a PHP version like 8.3 (got `");
        push_str(&mut e, input);
        push_str(&mut e, "`)");
        return Err(e);
    }
    assert(views(parts@)[0] == parts@[0]@);
    assert(views(parts@)[1] == parts@[1]@);
    let mut v = from_chars(&parts[0]);
    push_str(&mut v, ".");
    push_str(&mut v, from_chars(&parts[1]).as_str());
    Ok(v)
}

// ---------------------------------------------------------------- databases

/// The user a database engine's local instance is reached as.
pub open spec fn engine_user(engine: Seq<char>) -> Seq<char> {
    if engine == "postgres"@ {
        "postgres"@
    } else if engine == "mysql"@ || engine == "mariadb"@ {
        "root"@
    } else {
        "-"@
    }
}

/// The user a database engine's local instance is reached as (see
/// [`engine_user`]).
pub fn default_user(engine: &str) -> (r: &'static str)
    ensures
        r@ == engine_user(engine@),
{
    if crate::text::str_eq(engine, "postgres") {
        "postgres"
    } else if crate::text::str_eq(engine, "mysql") || crate::text::str_eq(engine, "mariadb") {
        "root"
    } else {
        "-"
    }
}

/// The connection URL and the client command for an engine on a port.
pub open spec fn engine_connection(engine: Seq<char>, port: u16) -> (Seq<char>, Seq<char>) {
    let p = dec(port as nat);
    if engine == "postgres"@ {
        ("postgresql://postgres@127.0.0.1:"@ + p + "/postgres"@, "psql -h 127.0.0.1 -p "@ + p + " -U postgres"@)
    } else if engine == "mysql"@ || engine == "mariadb"@ {
        ("mysql://root@127.0.0.1:"@ + p, "mysql -h 127.0.0.1 -P "@ + p + " -u root"@)
    } else if engine == "redis"@ {
        ("redis://127.0.0.1:"@ + p, "redis-cli -p "@ + p)
    } else {
        ("127.0.0.1:"@ + p, Seq::empty())
    }
}

fn concat2(a: &str, b: &str) -> (r: String)
    ensures
        r@ == a@ + b@,
{
    let mut s = String::from_str(a);
    push_str(&mut s, b);
    s
}

fn concat3(a: &str, b: &str, c: &str) -> (r: String)
    ensures
        r@ == a@ + b@ + c@,
{
    let mut s = String::from_str(a);
    push_str(&mut s, b);
    push_str(&mut s, c);
    s
}

/// The connection URL and client command for an engine on a port (see
/// [`engine_connection`]).
pub fn connection_strings(engine: &str, port: u16) -> (r: (String, String))
    ensures
        (r.0@, r.1@) == engine_connection(engine@, port),
{
    let p = crate::text::dec_string(port as u64);
    if crate::text::str_eq(engine, "postgres") {
        (concat3("postgresql://postgres@127.0.0.1:", p.as_str(), "/postgres"), concat3("psql -h 127.0.0.1 -p ", p.as_str(), " -U postgres"))
    } else if crate::text::str_eq(engine, "mysql") || crate::text::str_eq(engine, "mariadb") {
        (concat2("mysql://root@127.0.0.1:", p.as_str()), concat3("mysql -h 127.0.0.1 -P ", p.as_str(), " -u root"))
    } else if crate::text::str_eq(engine, "redis") {
        (concat2("redis://127.0.0.1:", p.as_str()), concat2("redis-cli -p ", p.as_str()))
    } else {
        let r = (concat2("127.0.0.1:", p.as_str()), String::new());
        assert(r.1@ =~= Seq::<char>::empty());
        r
    }
}

// -------------------------------------------------------------------- sites

/// A site's URL in a browser: with the proxy's port unless the site is on
/// HTTPS or the proxy is on port 80.
pub open spec fn browser_url_of(url: Seq<char>, secure: bool, http_port: u16) -> Seq<char> {
    if secure || http_port == 80 {
        url
    } else {
        url + ":"@ + dec(http_port as nat)
    }
}

/// A site's URL in a browser (see [`browser_url_of`]).
pub fn browser_url(site: &crate::ipc::SiteInfo, http_port: u16) -> (r: String)
    ensures
        r@ == browser_url_of(site.url@, site.secure, http_port),
{
    if site.secure || http_port == 80 {
        String::from_str(site.url.as_str())
    } else {
        concat3(site.url.as_str(), ":", crate::text::dec_string(http_port as u64).as_str())
    }
}


// ------------------------------------------------------------- php --ini

/// The first of `ls` that contains `needle`.
pub open spec fn first_containing(ls: Seq<Seq<char>>, needle: Seq<char>) -> Option<Seq<char>>
    decreases ls.len(),
{
    if ls.len() == 0 {
        None
    } else if contains_seq(ls[0], needle) {
        Some(ls[0])
    } else {
        first_containing(ls.drop_first(), needle)
    }
}

/// What follows the first `sep` in `l` (the second half of
/// `str::split_once`).
pub open spec fn after_first(l: Seq<char>, sep: Seq<char>) -> Option<Seq<char>> {
    match find(l, sep) {
        Some(k) => Some(l.skip(k + sep.len())),
        None => None,
    }
}

/// The path on the `Scan for additional .ini files` line of `php --ini`
/// output, untrimmed: what follows the first `: ` of the first line that
/// mentions it.
pub open spec fn ini_scan_path(ini: Seq<char>) -> Option<Seq<char>> {
    match first_containing(lines(ini), "Scan for additional"@) {
        Some(l) => after_first(l, ": "@),
        None => None,
    }
}

/// A version's conf.d directory as `php --ini` reports it: trimmed, quotes
/// removed.
pub open spec fn conf_dir_in(ini: Seq<char>) -> Option<Seq<char>> {
    match ini_scan_path(ini) {
        Some(p) => Some(trim_end_any(trim_start_any(trim(p), seq!['"']), seq!['"'])),
        None => None,
    }
}

/// The directory of additional .ini files `php --ini` reports, trimmed;
/// `None` when the line is missing or names nothing.
pub open spec fn scan_dir_in(ini: Seq<char>) -> Option<Seq<char>> {
    match ini_scan_path(ini) {
        Some(p) => if trim(p).len() > 0 {
            Some(trim(p))
        } else {
            None
        },
        None => None,
    }
}

fn ini_scan_path_of(ini: &str) -> (r: Option<Vec<char>>)
    ensures
        match r {
            Some(p) => ini_scan_path(ini@) == Some(p@),
            None => ini_scan_path(ini@) is None,
        },
{
    let ls = lines_of(&to_chars(ini));
    let ghost lv = lines(ini@);
    let needle = to_chars("Scan for additional");
    let mut i: usize = 0;
    assert(lv.skip(0) =~= lv);
    while i < ls.len()
        invariant
            i <= ls.len(),
            lv == lines(ini@),
            ls@.len() == lv.len(),
            forall|k: int| 0 <= k < ls@.len() ==> (#[trigger] ls@[k])@ == lv[k],
            needle@ == "Scan for additional"@,
            first_containing(lv, "Scan for additional"@) == first_containing(lv.skip(i as int), "Scan for additional"@),
        decreases ls.len() - i,
    {
        assert(lv.skip(i as int)[0] == lv[i as int]);
        assert(lv.skip(i as int).drop_first() =~= lv.skip(i + 1));
        if crate::text::contains_chars(&ls[i], &needle) {
            let sep = to_chars(": ");
            let found = find_chars(&ls[i], &sep);
            proof {
                crate::text::lemma_find_from(ls@[i as int]@, sep@, 0);
            }
            return match found {
                Some(k) => {
                    assert(find(ls@[i as int]@, sep@) == Some(k as int));
                    assert(crate::text::occurs_at(ls@[i as int]@, sep@, k as int));
                    let n = ls[i].len();
                    assert(k + sep@.len() <= n);
                    let rest = slice_chars(&ls[i], k + sep.len(), n);
                    assert(rest@ =~= lv[i as int].skip(k + sep@.len()));
                    Some(rest)
                },
                None => None,
            };
        }
        i = i + 1;
    }
    assert(lv.skip(i as int) =~= Seq::<Seq<char>>::empty());
    None
}

/// A version's conf.d directory from `php --ini` output (see
/// [`conf_dir_in`]).
pub fn conf_dir_from_ini(ini: &str) -> (r: Option<String>)
    ensures
        crate::sites::opt_view(r) == conf_dir_in(ini@),
{
    match ini_scan_path_of(ini) {
        Some(p) => {
            let q: [char; 1] = ['"'];
            assert(q@ =~= seq!['"']);
            let t = trim_chars(&p);
            let a = trim_start_any_chars(&t, &q);
            Some(from_chars(&trim_end_any_chars(&a, &q)))
        },
        None => None,
    }
}

/// The directory of additional .ini files from `php --ini` output (see
/// [`scan_dir_in`]).
pub fn scan_dir_from_ini(ini: &str) -> (r: Option<String>)
    ensures
        crate::sites::opt_view(r) == scan_dir_in(ini@),
{
    match ini_scan_path_of(ini) {
        Some(p) => {
            let t = trim_chars(&p);
            if t.len() > 0 {
                Some(from_chars(&t))
            } else {
                None
            }
        },
        None => None,
    }
}

// ------------------------------------------------------ extension names

/// The extension a conf.d file name enables (`20-intl.ini` is `intl`,
/// `ext-redis.ini.disabled` too): only for names starting with a digit;
/// `.disabled` and `.ini` endings and a numeric `NN-` prefix removed;
/// lowercased.
pub open spec fn ext_name(f: Seq<char>) -> Option<Seq<char>> {
    if !(f.len() > 0 && is_digit(f[0])) {
        None
    } else {
        let base = trim_end_matches(trim_end_matches(f, ".disabled"@), ".ini"@);
        let name = match find(base, seq!['-']) {
            Some(k) => if all_digits(base.take(k)) {
                base.skip(k + 1)
            } else {
                base
            },
            None => base,
        };
        Some(to_lowercase(name))
    }
}

/// The extension a conf.d file name enables (see [`ext_name`]).
pub fn ext_name_of(file: &str) -> (r: Option<String>)
    ensures
        crate::sites::opt_view(r) == ext_name(file@),
{
    let f = to_chars(file);
    if !(f.len() > 0 && '0' <= f[0] && f[0] <= '9') {
        return None;
    }
    let a = trim_end_matches_chars(&f, &to_chars(".disabled"));
    let base = trim_end_matches_chars(&a, &to_chars(".ini"));
    let dash: [char; 1] = ['-'];
    assert(dash@ =~= seq!['-']);
    let found = find_chars(&base, &dash);
    proof {
        crate::text::lemma_find_from(base@, dash@, 0);
    }
    let name = match found {
        Some(k) => {
            let n = base.len();
            assert(k + 1 <= n);
            let num = slice_chars(&base, 0, k);
            let mut digits = true;
            let mut j: usize = 0;
            while j < num.len()
                invariant
                    j <= num.len(),
                    digits <==> forall|m: int| 0 <= m < j ==> is_digit(#[trigger] num@[m]),
                decreases num.len() - j,
            {
                if !('0' <= num[j] && num[j] <= '9') {
                    digits = false;
                }
                j = j + 1;
            }
            assert(num@ =~= base@.take(k as int));
            if digits {
                let rest = slice_chars(&base, k + 1, n);
                assert(rest@ =~= base@.skip(k + 1));
                rest
            } else {
                base
            }
        },
        None => base,
    };
    Some(to_lower(from_chars(&name).as_str()))
}

/// `s` without the prefix `p`, when it has it.
pub open spec fn without_prefix(s: Seq<char>, p: Seq<char>) -> Option<Seq<char>> {
    if has_prefix(s, p) {
        Some(s.skip(p.len() as int))
    } else {
        None
    }
}

/// `s` without the suffix `p`, when it has it.
pub open spec fn without_suffix(s: Seq<char>, p: Seq<char>) -> Option<Seq<char>> {
    if has_suffix(s, p) {
        Some(s.take(s.len() - p.len()))
    } else {
        None
    }
}

/// The extension names in `brew search` output lines for the extensions
/// tap, for one version suffix (`@8.3`), in order.
pub open spec fn tap_names(ls: Seq<Seq<char>>, suffix: Seq<char>) -> Seq<Seq<char>>
    decreases ls.len(),
{
    if ls.len() == 0 {
        Seq::empty()
    } else {
        let rest = tap_names(ls.drop_last(), suffix);
        match without_prefix(trim(ls.last()), "shivammathur/extensions/"@) {
            Some(a) => match without_suffix(a, suffix) {
                Some(n) => rest.push(n),
                None => rest,
            },
            None => rest,
        }
    }
}

/// Every extension the `shivammathur/extensions` tap offers for a PHP
/// version, from `brew search` output: sorted, each once.
pub open spec fn tap_extensions(search: Seq<char>, version: Seq<char>) -> Seq<Seq<char>> {
    crate::text::sort_unique(tap_names(lines(search), "@"@ + version))
}

/// Every extension the tap offers for a version (see [`tap_extensions`]).
pub fn brew_ext_names(search: &str, version: &str) -> (r: Vec<String>)
    ensures
        str_views(r@) == tap_extensions(search@, version@),
{
    let ls = lines_of(&to_chars(search));
    let ghost lv = lines(search@);
    let mut sfx = String::from_str("@");
    push_str(&mut sfx, version);
    let suffix = to_chars(sfx.as_str());
    let prefix = to_chars("shivammathur/extensions/");
    let mut names: Vec<Vec<char>> = Vec::new();
    let mut i: usize = 0;
    assert(lv.take(0) =~= Seq::<Seq<char>>::empty());
    proof {
        crate::text::lemma_sort_unique(Seq::<Seq<char>>::empty());
        assert(views(names@) =~= Seq::<Seq<char>>::empty());
        crate::text::lemma_sorted_unique_eq(views(names@), crate::text::sort_unique(tap_names(lv.take(0), suffix@)));
    }
    while i < ls.len()
        invariant
            i <= ls.len(),
            lv == lines(search@),
            ls@.len() == lv.len(),
            forall|k: int| 0 <= k < ls@.len() ==> (#[trigger] ls@[k])@ == lv[k],
            suffix@ == "@"@ + version@,
            prefix@ == "shivammathur/extensions/"@,
            views(names@) == crate::text::sort_unique(tap_names(lv.take(i as int), suffix@)),
        decreases ls.len() - i,
    {
        let ghost before = lv.take(i as int);
        assert(lv.take(i + 1).drop_last() =~= before);
        assert(lv.take(i + 1).last() == lv[i as int]);
        let t = trim_chars(&ls[i]);
        if crate::text::starts_with_chars(&t, &prefix) {
            let a = slice_chars(&t, prefix.len(), t.len());
            assert(a@ =~= t@.skip(prefix@.len() as int));
            if crate::text::ends_with_chars(&a, &suffix) {
                let n = slice_chars(&a, 0, a.len() - suffix.len());
                assert(n@ =~= a@.take(a@.len() - suffix@.len()));
                let ghost old_names = views(names@);
                let ghost nv = n@;
                proof {
                    crate::text::lemma_sort_unique(tap_names(before, suffix@));
                }
                crate::text::insert_sorted(&mut names, n);
                proof {
                    let full = tap_names(lv.take(i + 1), suffix@);
                    assert(full == tap_names(before, suffix@).push(nv));
                    crate::text::lemma_sort_unique(full);
                    assert forall|x: Seq<char>| views(names@).contains(x) <==> crate::text::sort_unique(full).contains(x) by {
                        if full.contains(x) && x != nv {
                            let k = choose|k: int| 0 <= k < full.len() && full[k] == x;
                            assert(tap_names(before, suffix@)[k] == x);
                        }
                        if tap_names(before, suffix@).contains(x) {
                            let k = choose|k: int| 0 <= k < tap_names(before, suffix@).len() && tap_names(before, suffix@)[k] == x;
                            assert(full[k] == x);
                        }
                        if x == nv {
                            assert(full[full.len() - 1] == x);
                        }
                    }
                    crate::text::lemma_sorted_unique_eq(views(names@), crate::text::sort_unique(full));
                }
            }
        }
        i = i + 1;
    }
    assert(lv.take(ls.len() as int) =~= lv);
    crate::text::strings_of(&names)
}


// --------------------------------------------------- broken extensions

/// The library an extension directive names, from a line with leading
/// whitespace removed: the value after `zend_extension=` or `extension=`, up
/// to a `;` comment, trimmed, quotes removed. `None` for comments, other
/// lines, and empty values.
pub open spec fn directive_value(t: Seq<char>) -> Option<Seq<char>> {
    if has_prefix(t, seq![';']) || has_prefix(t, seq!['#']) {
        None
    } else {
        let rest = if has_prefix(t, "zend_extension="@) {
            Some(t.skip(15))
        } else if has_prefix(t, "extension="@) {
            Some(t.skip(10))
        } else {
            None
        };
        match rest {
            Some(r) => {
                let before = match find(r, seq![';']) {
                    Some(k) => r.take(k),
                    None => r,
                };
                let v = trim_end_any(trim_start_any(trim(before), seq!['"']), seq!['"']);
                if v.len() > 0 {
                    Some(v)
                } else {
                    None
                }
            },
            None => None,
        }
    }
}

/// Where the library of a directive lives: the value itself when it holds a
/// `/`, else the value (with `.so` added when it lacks it) in the extension
/// directory, when one is known.
pub open spec fn library_path(val: Seq<char>, ext_dir: Option<Seq<char>>) -> Seq<char> {
    if contains_seq(val, seq!['/']) {
        val
    } else {
        let name = if has_suffix(val, ".so"@) {
            val
        } else {
            val + ".so"@
        };
        match ext_dir {
            Some(d) => path_join(d, name),
            None => name,
        }
    }
}

/// The value and library path of an ini line's extension directive.
pub open spec fn ext_target(line: Seq<char>, ext_dir: Option<Seq<char>>) -> Option<(Seq<char>, Seq<char>)> {
    match directive_value(trim_start(line)) {
        Some(v) => Some((v, library_path(v, ext_dir))),
        None => None,
    }
}

/// The library paths an ini file's lines load, in order.
pub open spec fn ext_targets(ls: Seq<Seq<char>>, ext_dir: Option<Seq<char>>) -> Seq<Seq<char>>
    decreases ls.len(),
{
    if ls.len() == 0 {
        Seq::empty()
    } else {
        let rest = ext_targets(ls.drop_last(), ext_dir);
        match ext_target(ls.last(), ext_dir) {
            Some((_, so)) => rest.push(so),
            None => rest,
        }
    }
}

/// An ini line, commented out when it loads a library that is not among
/// `present`.
pub open spec fn kept_line(line: Seq<char>, ext_dir: Option<Seq<char>>, present: Seq<Seq<char>>) -> Seq<char> {
    match ext_target(line, ext_dir) {
        Some((_, so)) => if present.contains(so) {
            line
        } else {
            "; disabled by dpl (missing "@ + so + "): "@ + line
        },
        None => line,
    }
}

/// The values of the directives among `ls` whose library is missing.
pub open spec fn missing_values(ls: Seq<Seq<char>>, ext_dir: Option<Seq<char>>, present: Seq<Seq<char>>) -> Seq<Seq<char>>
    decreases ls.len(),
{
    if ls.len() == 0 {
        Seq::empty()
    } else {
        let rest = missing_values(ls.drop_last(), ext_dir, present);
        match ext_target(ls.last(), ext_dir) {
            Some((v, so)) => if present.contains(so) {
                rest
            } else {
                rest.push(v)
            },
            None => rest,
        }
    }
}

/// An ini file with every directive whose library is missing commented out:
/// `None` when nothing changes, else the new text (its lines joined with
/// `\n`, and a final `\n` when the file had one) and, per disabled line,
/// `<file> → <value>`.
pub open spec fn repaired_ini(
    file: Seq<char>,
    content: Seq<char>,
    ext_dir: Option<Seq<char>>,
    present: Seq<Seq<char>>,
) -> (Option<Seq<char>>, Seq<Seq<char>>) {
    let ls = lines(content);
    let missing = missing_values(ls, ext_dir, present);
    let text = crate::text::join(Seq::new(ls.len(), |i: int| kept_line(ls[i], ext_dir, present)), "\n"@) + if has_suffix(
        content,
        "\n"@,
    ) {
        "\n"@
    } else {
        Seq::empty()
    };
    (
        if missing.len() > 0 {
            Some(text)
        } else {
            None
        },
        missing.map_values(|v: Seq<char>| file + " \u{2192} "@ + v),
    )
}

fn ext_target_of(line: &[char], ext_dir: Option<&str>) -> (r: Option<(Vec<char>, String)>)
    ensures
        match r {
            Some((v, so)) => ext_target(line@, crate::node::opt_str(ext_dir)) == Some((v@, so@)),
            None => ext_target(line@, crate::node::opt_str(ext_dir)) is None,
        },
{
    let t = crate::text::trim_start_chars(line);
    if t.len() > 0 && (t[0] == ';' || t[0] == '#') {
        proof {
            assert(t@.subrange(0, 1) =~= seq![t@[0]]);
        }
        return None;
    }
    proof {
        if has_prefix(t@, seq![';']) || has_prefix(t@, seq!['#']) {
            assert(t@.subrange(0, 1)[0] == t@[0]);
        }
    }
    let zend = to_chars("zend_extension=");
    let plain = to_chars("extension=");
    let rest = if crate::text::starts_with_chars(&t, &zend) {
        slice_chars(&t, zend.len(), t.len())
    } else if crate::text::starts_with_chars(&t, &plain) {
        slice_chars(&t, plain.len(), t.len())
    } else {
        return None;
    };
    proof {
        reveal_strlit("zend_extension=");
        reveal_strlit("extension=");
    }
    let semi: [char; 1] = [';'];
    assert(semi@ =~= seq![';']);
    let found = find_chars(&rest, &semi);
    proof {
        crate::text::lemma_find_from(rest@, semi@, 0);
    }
    let before = match found {
        Some(k) => slice_chars(&rest, 0, k),
        None => slice_chars(&rest, 0, rest.len()),
    };
    assert(before@ =~= match find(rest@, seq![';']) {
        Some(k) => rest@.take(k),
        None => rest@,
    });
    let q: [char; 1] = ['"'];
    assert(q@ =~= seq!['"']);
    let b = trim_chars(&before);
    let a = trim_start_any_chars(&b, &q);
    let v = trim_end_any_chars(&a, &q);
    if v.len() == 0 {
        return None;
    }
    let vs = from_chars(&v);
    let slash: [char; 1] = ['/'];
    assert(slash@ =~= seq!['/']);
    let so = if crate::text::contains_chars(&v, &slash) {
        from_chars(&v)
    } else {
        let name = if crate::text::ends_with_chars(&v, &to_chars(".so")) {
            from_chars(&v)
        } else {
            let mut n = from_chars(&v);
            push_str(&mut n, ".so");
            n
        };
        match ext_dir {
            Some(d) => join(d, name.as_str()),
            None => name,
        }
    };
    Some((v, so))
}

/// The library paths an ini file loads (see [`ext_targets`]), so the caller
/// can tell which exist.
pub fn extension_targets(content: &str, ext_dir: Option<&str>) -> (r: Vec<String>)
    ensures
        str_views(r@) == ext_targets(lines(content@), crate::node::opt_str(ext_dir)),
{
    let ls = lines_of(&to_chars(content));
    let ghost lv = lines(content@);
    let mut out: Vec<String> = Vec::new();
    let mut i: usize = 0;
    assert(lv.take(0) =~= Seq::<Seq<char>>::empty());
    assert(str_views(out@) =~= Seq::<Seq<char>>::empty());
    while i < ls.len()
        invariant
            i <= ls.len(),
            lv == lines(content@),
            ls@.len() == lv.len(),
            forall|k: int| 0 <= k < ls@.len() ==> (#[trigger] ls@[k])@ == lv[k],
            str_views(out@) == ext_targets(lv.take(i as int), crate::node::opt_str(ext_dir)),
        decreases ls.len() - i,
    {
        assert(lv.take(i + 1).drop_last() =~= lv.take(i as int));
        assert(lv.take(i + 1).last() == lv[i as int]);
        match ext_target_of(&ls[i], ext_dir) {
            Some((_, so)) => {
                let ghost before = str_views(out@);
                let ghost sv = so@;
                out.push(so);
                assert(str_views(out@) =~= before.push(sv));
            },
            None => {},
        }
        i = i + 1;
    }
    assert(lv.take(ls.len() as int) =~= lv);
    out
}

/// Comment out every extension directive of an ini file whose library is
/// missing (see [`repaired_ini`]); `present` lists the library paths that
/// exist.
pub fn repair_ini(file: &str, content: &str, ext_dir: Option<&str>, present: &[String]) -> (r: (Option<String>, Vec<String>))
    ensures
        (crate::sites::opt_view(r.0), str_views(r.1@)) == repaired_ini(
            file@,
            content@,
            crate::node::opt_str(ext_dir),
            str_views(present@),
        ),
{
    let ls = lines_of(&to_chars(content));
    let ghost lv = lines(content@);
    let ghost ed = crate::node::opt_str(ext_dir);
    let ghost pv = str_views(present@);
    let ghost kept = Seq::new(lv.len(), |k: int| kept_line(lv[k], ed, pv));
    let mut rebuilt: Vec<Vec<char>> = Vec::new();
    let mut disabled: Vec<String> = Vec::new();
    let mut changed = false;
    let mut i: usize = 0;
    assert(lv.take(0) =~= Seq::<Seq<char>>::empty());
    assert(views(rebuilt@) =~= Seq::<Seq<char>>::empty());
    assert(str_views(disabled@) =~= Seq::<Seq<char>>::empty());
    while i < ls.len()
        invariant
            i <= ls.len(),
            lv == lines(content@),
            ed == crate::node::opt_str(ext_dir),
            pv == str_views(present@),
            kept == Seq::new(lv.len(), |k: int| kept_line(lv[k], ed, pv)),
            ls@.len() == lv.len(),
            forall|k: int| 0 <= k < ls@.len() ==> (#[trigger] ls@[k])@ == lv[k],
            views(rebuilt@) == kept.take(i as int),
            str_views(disabled@) == missing_values(lv.take(i as int), ed, pv).map_values(|v: Seq<char>| file@ + " \u{2192} "@ + v),
            changed == (missing_values(lv.take(i as int), ed, pv).len() > 0),
        decreases ls.len() - i,
    {
        let ghost before = lv.take(i as int);
        assert(lv.take(i + 1).drop_last() =~= before);
        assert(lv.take(i + 1).last() == lv[i as int]);
        let ghost r0 = views(rebuilt@);
        let ghost d0 = str_views(disabled@);
        let line = &ls[i];
        let kept_now = match ext_target_of(line, ext_dir) {
            Some((v, so)) => {
                if crate::sites::has_file(present, so.as_str()) {
                    slice_chars(line, 0, line.len())
                } else {
                    changed = true;
                    let mut d = String::from_str(file);
                    push_str(&mut d, " \u{2192} ");
                    push_str(&mut d, from_chars(&v).as_str());
                    let ghost dv = d@;
                    disabled.push(d);
                    assert(str_views(disabled@) =~= d0.push(dv));
                    let mut out = String::from_str("; disabled by dpl (missing ");
                    push_str(&mut out, so.as_str());
                    push_str(&mut out, "): ");
                    push_str(&mut out, from_chars(line).as_str());
                    to_chars(out.as_str())
                }
            },
            None => slice_chars(line, 0, line.len()),
        };
        assert(line@.subrange(0, line@.len() as int) =~= line@);
        assert(kept_now@ == kept[i as int]);
        rebuilt.push(kept_now);
        assert(views(rebuilt@) =~= r0.push(kept[i as int]));
        assert(kept.take(i + 1) =~= kept.take(i as int).push(kept[i as int]));
        assert(missing_values(lv.take(i + 1), ed, pv).map_values(|v: Seq<char>| file@ + " \u{2192} "@ + v) =~= str_views(disabled@));
        i = i + 1;
    }
    assert(lv.take(ls.len() as int) =~= lv);
    assert(kept.take(ls.len() as int) =~= kept);
    let text = if changed {
        let mut t = from_chars(&crate::text::join_chars(&rebuilt, &to_chars("\n")));
        if crate::text::str_ends_with(content, "\n") {
            push_str(&mut t, "\n");
        } else {
            assert(t@ =~= t@ + Seq::<char>::empty());
        }
        Some(t)
    } else {
        None
    };
    (text, disabled)
}

// -------------------------------------------------------------- mail list

/// The value of a header line: what follows its first `:`, trimmed; empty
/// when it has none.
pub open spec fn header_line_value(line: Seq<char>) -> Seq<char> {
    match find(line, seq![':']) {
        Some(k) => trim(line.skip(k + 1)),
        None => Seq::empty(),
    }
}

/// Reading header lines up to the first empty one: the first `From:` (or
/// `X-Envelope-From:`), `To:` (or `X-Envelope-To:`) and `Subject:` values,
/// matched in any case; a later line fills a field only while it is empty.
pub open spec fn list_headers(ls: Seq<Seq<char>>, got: (Seq<char>, Seq<char>, Seq<char>)) -> (Seq<char>, Seq<char>, Seq<char>)
    decreases ls.len(),
{
    if ls.len() == 0 || ls[0].len() == 0 {
        got
    } else {
        let line = ls[0];
        let lower = to_lowercase(line);
        let (f, t, s) = got;
        let next = if f.len() == 0 && (has_prefix(lower, "from:"@) || has_prefix(lower, "x-envelope-from:"@)) {
            (header_line_value(line), t, s)
        } else if t.len() == 0 && (has_prefix(lower, "to:"@) || has_prefix(lower, "x-envelope-to:"@)) {
            (f, header_line_value(line), s)
        } else if s.len() == 0 && has_prefix(lower, "subject:"@) {
            (f, t, header_line_value(line))
        } else {
            got
        };
        list_headers(ls.drop_first(), next)
    }
}

fn starts(s: &[char], p: &str) -> (r: bool)
    ensures
        r == has_prefix(s@, p@),
{
    crate::text::starts_with_chars(s, &to_chars(p))
}

fn header_value_of(line: &[char]) -> (r: String)
    ensures
        r@ == header_line_value(line@),
{
    let colon: [char; 1] = [':'];
    assert(colon@ =~= seq![':']);
    let found = find_chars(line, &colon);
    proof {
        crate::text::lemma_find_from(line@, colon@, 0);
    }
    match found {
        Some(k) => {
            let n = line.len();
            assert(k + 1 <= n);
            let rest = slice_chars(line, k + 1, n);
            assert(rest@ =~= line@.skip(k + 1));
            from_chars(&trim_chars(&rest))
        },
        None => String::new(),
    }
}

/// The `From`, `To` and `Subject` a mail listing shows, from the text of an
/// `.eml` (see [`list_headers`]).
pub fn mail_headers(content: &str) -> (r: (String, String, String))
    ensures
        (r.0@, r.1@, r.2@) == list_headers(lines(content@), (Seq::empty(), Seq::empty(), Seq::empty())),
{
    let ls = lines_of(&to_chars(content));
    let ghost lv = lines(content@);
    let mut from = String::new();
    let mut to = String::new();
    let mut subject = String::new();
    let mut i: usize = 0;
    assert(lv.skip(0) =~= lv);
    while i < ls.len()
        invariant
            i <= ls.len(),
            lv == lines(content@),
            ls@.len() == lv.len(),
            forall|k: int| 0 <= k < ls@.len() ==> (#[trigger] ls@[k])@ == lv[k],
            list_headers(lv, (Seq::empty(), Seq::empty(), Seq::empty())) == list_headers(lv.skip(i as int), (from@, to@, subject@)),
        ensures
            list_headers(lv, (Seq::empty(), Seq::empty(), Seq::empty())) == (from@, to@, subject@),
        decreases ls.len() - i,
    {
        assert(lv.skip(i as int)[0] == lv[i as int]);
        assert(lv.skip(i as int).drop_first() =~= lv.skip(i + 1));
        let line = &ls[i];
        if line.len() == 0 {
            break;
        }
        let lower = to_chars(to_lower(from_chars(line).as_str()).as_str());
        if crate::text::str_is_empty(from.as_str()) && (starts(&lower, "from:") || starts(&lower, "x-envelope-from:")) {
            from = header_value_of(line);
        } else if crate::text::str_is_empty(to.as_str()) && (starts(&lower, "to:") || starts(&lower, "x-envelope-to:")) {
            to = header_value_of(line);
        } else if crate::text::str_is_empty(subject.as_str()) && starts(&lower, "subject:") {
            subject = header_value_of(line);
        }
        i = i + 1;
        proof {
            if i == ls.len() {
                assert(lv.skip(i as int) =~= Seq::<Seq<char>>::empty());
            }
        }
    }
    (from, to, subject)
}


// ------------------------------------------------------------------ naming

/// The site a command acts on: the given name lowercased, else the current
/// directory's name lowercased.
pub open spec fn site_name_of(arg: Option<Seq<char>>, cwd: Seq<char>) -> Result<Seq<char>, Seq<char>> {
    match arg {
        Some(n) => Ok(to_lowercase(n)),
        None => match crate::sites::file_name(cwd) {
            Some(f) => Ok(to_lowercase(f)),
            None => Err("could not derive a site name from the current directory"@),
        },
    }
}

/// The site a command acts on (see [`site_name_of`]).
pub fn site_name(arg: Option<&str>, cwd: &str) -> (r: Result<String, String>)
    ensures
        match r {
            Ok(n) => site_name_of(crate::node::opt_str(arg), cwd@) == Ok::<Seq<char>, Seq<char>>(n@),
            Err(e) => site_name_of(crate::node::opt_str(arg), cwd@) == Err::<Seq<char>, Seq<char>>(e@),
        },
{
    match arg {
        Some(n) => Ok(to_lower(n)),
        None => match crate::sites::file_name_of(cwd) {
            Some(f) => Ok(to_lower(f.as_str())),
            None => Err(String::from_str("could not derive a site name from the current directory")),
        },
    }
}

// --------------------------------------------------------------- site table

/// The longest of the names' UTF-8 lengths, at least `floor` (what the
/// listing's column widths are measured in).
pub open spec fn widest_bytes(names: Seq<Seq<char>>, floor: nat) -> nat
    decreases names.len(),
{
    if names.len() == 0 {
        floor
    } else {
        let w = widest_bytes(names.drop_last(), floor);
        let n = vstd::utf8::encode_utf8(names.last()).len();
        if n > w {
            n
        } else {
            w
        }
    }
}

/// The port suffix a site URL needs: none on port 80.
pub open spec fn port_note(http_port: u16) -> Seq<char> {
    if http_port == 80 {
        Seq::empty()
    } else {
        ":"@ + dec(http_port as nat)
    }
}

/// The names of the sites.
pub open spec fn site_names(ss: Seq<crate::ipc::SiteInfo>) -> Seq<Seq<char>> {
    ss.map_values(|s: crate::ipc::SiteInfo| s.name@)
}

/// The hosts of the sites, each with the port suffix.
pub open spec fn site_urls(ss: Seq<crate::ipc::SiteInfo>, http_port: u16) -> Seq<Seq<char>> {
    ss.map_values(|s: crate::ipc::SiteInfo| s.host@ + port_note(http_port))
}

/// One site's row of the listing.
pub open spec fn site_row(s: crate::ipc::SiteInfo, http_port: u16, name_w: nat, url_w: nat) -> Seq<char> {
    crate::output::pad_right(s.name@, name_w) + "  "@ + crate::output::pad_right(s.host@ + port_note(http_port), url_w)
        + "  "@ + crate::output::pad_right(s.source@, 7) + "  "@ + crate::output::pad_right(
        if s.serving {
            "yes"@
        } else {
            "no"@
        },
        6,
    ) + "  "@ + s.path@
}

/// The `dpl sites` listing: a note when there are none; else the TLD and
/// port, a blank line, a header, and a row per site, with the name and URL
/// columns as wide as their longest entry (in bytes).
pub open spec fn sites_listing(ss: Seq<crate::ipc::SiteInfo>, http_port: u16, tld: Seq<char>) -> Seq<Seq<char>> {
    if ss.len() == 0 {
        seq!["No local sites yet. Park a folder (`dpl park ~/Sites`) or link a project (`dpl link .`)."@]
    } else {
        let name_w = widest_bytes(site_names(ss), 4);
        let url_w = widest_bytes(site_urls(ss, http_port), 3);
        seq![
            "Serving ."@ + tld + " sites on port "@ + dec(http_port as nat),
            Seq::empty(),
            crate::output::pad_right("NAME"@, name_w) + "  "@ + crate::output::pad_right("URL"@, url_w) + "  "@
                + crate::output::pad_right("SOURCE"@, 7) + "  "@ + crate::output::pad_right("SERVING"@, 6) + "  PATH"@
        ] + ss.map_values(|s: crate::ipc::SiteInfo| site_row(s, http_port, name_w, url_w))
    }
}

fn widest_of(names: &Vec<String>, floor: usize) -> (r: usize)
    ensures
        r as nat == widest_bytes(str_views(names@), floor as nat),
{
    let ghost nv = str_views(names@);
    let mut w = floor;
    let mut i: usize = 0;
    while i < names.len()
        invariant
            i <= names.len(),
            nv == str_views(names@),
            w as nat == widest_bytes(nv.take(i as int), floor as nat),
        decreases names.len() - i,
    {
        assert(nv.take(i + 1).drop_last() =~= nv.take(i as int));
        assert(nv.take(i + 1).last() == names@[i as int]@);
        let n = names[i].as_str().as_bytes().len();
        if n > w {
            w = n;
        }
        i = i + 1;
    }
    assert(nv.take(names.len() as int) =~= nv);
    w
}

/// The `dpl sites` listing (see [`sites_listing`]).
pub fn render_sites(sites: &[crate::ipc::SiteInfo], http_port: u16, tld: &str) -> (r: Vec<String>)
    ensures
        str_views(r@) == sites_listing(sites@, http_port, tld@),
{
    let mut out: Vec<String> = Vec::new();
    if sites.len() == 0 {
        out.push(String::from_str("No local sites yet. Park a folder (`dpl park ~/Sites`) or link a project (`dpl link .`)."));
        assert(str_views(out@) =~= sites_listing(sites@, http_port, tld@));
        return out;
    }
    let note = if http_port == 80 {
        String::new()
    } else {
        concat2(":", crate::text::dec_string(http_port as u64).as_str())
    };
    assert(note@ == port_note(http_port));
    let mut names: Vec<String> = Vec::new();
    let mut urls: Vec<String> = Vec::new();
    let mut i: usize = 0;
    while i < sites.len()
        invariant
            i <= sites.len(),
            note@ == port_note(http_port),
            str_views(names@) == site_names(sites@.take(i as int)),
            str_views(urls@) == site_urls(sites@.take(i as int), http_port),
        decreases sites.len() - i,
    {
        let ghost nb = str_views(names@);
        let ghost ub = str_views(urls@);
        let nm = String::from_str(sites[i].name.as_str());
        let ghost nmv = nm@;
        names.push(nm);
        let u = concat2(sites[i].host.as_str(), note.as_str());
        let ghost uv = u@;
        urls.push(u);
        assert(sites@.take(i + 1) =~= sites@.take(i as int).push(sites@[i as int]));
        assert(str_views(names@) =~= nb.push(nmv));
        assert(str_views(urls@) =~= ub.push(uv));
        assert(str_views(names@) =~= site_names(sites@.take(i + 1)));
        assert(str_views(urls@) =~= site_urls(sites@.take(i + 1), http_port));
        i = i + 1;
    }
    assert(sites@.take(sites.len() as int) =~= sites@);
    let name_w = widest_of(&names, 4);
    let url_w = widest_of(&urls, 3);
    let mut head = String::from_str("Serving .");
    push_str(&mut head, tld);
    push_str(&mut head, " sites on port ");
    push_str(&mut head, crate::text::dec_string(http_port as u64).as_str());
    out.push(head);
    out.push(String::new());
    let mut h = crate::output::pad_to("NAME", name_w);
    push_str(&mut h, "  ");
    push_str(&mut h, crate::output::pad_to("URL", url_w).as_str());
    push_str(&mut h, "  ");
    push_str(&mut h, crate::output::pad_to("SOURCE", 7).as_str());
    push_str(&mut h, "  ");
    push_str(&mut h, crate::output::pad_to("SERVING", 6).as_str());
    push_str(&mut h, "  PATH");
    out.push(h);
    let ghost top = str_views(out@);
    let mut k: usize = 0;
    while k < sites.len()
        invariant
            k <= sites.len(),
            note@ == port_note(http_port),
            str_views(out@) == top + sites@.take(k as int).map_values(
                |s: crate::ipc::SiteInfo| site_row(s, http_port, name_w as nat, url_w as nat),
            ),
        decreases sites.len() - k,
    {
        let s = &sites[k];
        let mut row = crate::output::pad_to(s.name.as_str(), name_w);
        push_str(&mut row, "  ");
        push_str(&mut row, crate::output::pad_to(concat2(s.host.as_str(), note.as_str()).as_str(), url_w).as_str());
        push_str(&mut row, "  ");
        push_str(&mut row, crate::output::pad_to(s.source.as_str(), 7).as_str());
        push_str(&mut row, "  ");
        push_str(&mut row, crate::output::pad_to(if s.serving { "yes" } else { "no" }, 6).as_str());
        push_str(&mut row, "  ");
        push_str(&mut row, s.path.as_str());
        assert(row@ =~= site_row(sites@[k as int], http_port, name_w as nat, url_w as nat));
        let ghost before = str_views(out@);
        let ghost rv = row@;
        out.push(row);
        assert(str_views(out@) =~= before.push(rv));
        assert(sites@.take(k + 1) =~= sites@.take(k as int).push(sites@[k as int]));
        assert(str_views(out@) =~= top + sites@.take(k + 1).map_values(
            |s: crate::ipc::SiteInfo| site_row(s, http_port, name_w as nat, url_w as nat),
        ));
        k = k + 1;
    }
    assert(str_views(out@) =~= sites_listing(sites@, http_port, tld@));
    out
}

// ------------------------------------------------------------------ proxies

/// The reverse proxies among the sites: those whose source is `proxy`.
pub open spec fn proxy_sites(ss: Seq<crate::ipc::SiteInfo>) -> Seq<crate::ipc::SiteInfo>
    decreases ss.len(),
{
    if ss.len() == 0 {
        Seq::empty()
    } else if ss.last().source@ == "proxy"@ {
        proxy_sites(ss.drop_last()).push(ss.last())
    } else {
        proxy_sites(ss.drop_last())
    }
}

/// The `dpl proxies` listing: each proxy's host, padded to the longest
/// (in bytes, at least four), an arrow, and its target; a hint when there
/// are none.
pub open spec fn proxies_listing(ss: Seq<crate::ipc::SiteInfo>) -> Seq<Seq<char>> {
    let ps = proxy_sites(ss);
    if ps.len() == 0 {
        seq!["No proxies. Add one: `dpl proxy blog http://localhost:3000`."@]
    } else {
        let w = widest_bytes(ps.map_values(|s: crate::ipc::SiteInfo| s.host@), 0);
        ps.map_values(|s: crate::ipc::SiteInfo| crate::output::pad_right(s.host@, w) + "  \u{2192}  "@ + s.path@)
    }
}

/// The `dpl proxies` listing (see [`proxies_listing`]).
pub fn render_proxies(sites: &[crate::ipc::SiteInfo]) -> (r: Vec<String>)
    ensures
        str_views(r@) == proxies_listing(sites@),
{
    let mut ps: Vec<&crate::ipc::SiteInfo> = Vec::new();
    let mut hosts: Vec<String> = Vec::new();
    let mut i: usize = 0;
    while i < sites.len()
        invariant
            i <= sites.len(),
            ps@.len() == proxy_sites(sites@.take(i as int)).len(),
            forall|q: int| 0 <= q < ps@.len() ==> *(#[trigger] ps@[q]) == proxy_sites(sites@.take(i as int))[q],
            str_views(hosts@) == proxy_sites(sites@.take(i as int)).map_values(|s: crate::ipc::SiteInfo| s.host@),
        decreases sites.len() - i,
    {
        assert(sites@.take(i + 1).drop_last() =~= sites@.take(i as int));
        assert(sites@.take(i + 1).last() == sites@[i as int]);
        if crate::text::str_eq(sites[i].source.as_str(), "proxy") {
            let ghost hb = str_views(hosts@);
            ps.push(&sites[i]);
            let h = String::from_str(sites[i].host.as_str());
            let ghost hv = h@;
            hosts.push(h);
            assert(str_views(hosts@) =~= hb.push(hv));
            assert(str_views(hosts@) =~= proxy_sites(sites@.take(i + 1)).map_values(|s: crate::ipc::SiteInfo| s.host@));
        }
        i = i + 1;
    }
    assert(sites@.take(sites.len() as int) =~= sites@);
    let ghost pv = proxy_sites(sites@);
    let mut out: Vec<String> = Vec::new();
    if ps.len() == 0 {
        out.push(String::from_str("No proxies. Add one: `dpl proxy blog http://localhost:3000`."));
        assert(str_views(out@) =~= proxies_listing(sites@));
        return out;
    }
    let w = widest_of(&hosts, 0);
    let mut k: usize = 0;
    while k < ps.len()
        invariant
            k <= ps.len(),
            pv == proxy_sites(sites@),
            ps@.len() == pv.len(),
            forall|q: int| 0 <= q < ps@.len() ==> *(#[trigger] ps@[q]) == pv[q],
            str_views(out@) == pv.take(k as int).map_values(
                |s: crate::ipc::SiteInfo| crate::output::pad_right(s.host@, w as nat) + "  \u{2192}  "@ + s.path@,
            ),
        decreases ps.len() - k,
    {
        let mut l = crate::output::pad_to(ps[k].host.as_str(), w);
        push_str(&mut l, "  \u{2192}  ");
        push_str(&mut l, ps[k].path.as_str());
        let ghost before = str_views(out@);
        let ghost lv = l@;
        out.push(l);
        assert(str_views(out@) =~= before.push(lv));
        assert(pv.take(k + 1) =~= pv.take(k as int).push(pv[k as int]));
        assert(str_views(out@) =~= pv.take(k + 1).map_values(
            |s: crate::ipc::SiteInfo| crate::output::pad_right(s.host@, w as nat) + "  \u{2192}  "@ + s.path@,
        ));
        k = k + 1;
    }
    assert(pv.take(ps.len() as int) =~= pv);
    out
}


// ------------------------------------------------------------- extensions

/// The extensions present in a conf.d (enabled or disabled), from its file
/// names, sorted and without duplicates.
pub fn installed_ext_names(files: &[String]) -> (r: Vec<String>)
    ensures
        crate::text::sorted_unique(str_views(r@)),
        forall|n: Seq<char>|
            #[trigger] str_views(r@).contains(n) <==> exists|k: int|
                0 <= k < files@.len() && ext_name(#[trigger] files@[k]@) == Some(n),
{
    let mut acc: Vec<Vec<char>> = Vec::new();
    let mut i: usize = 0;
    while i < files.len()
        invariant
            i <= files.len(),
            crate::text::sorted_unique(views(acc@)),
            forall|n: Seq<char>|
                #[trigger] views(acc@).contains(n) <==> exists|k: int|
                    0 <= k < i && ext_name(#[trigger] files@[k]@) == Some(n),
        decreases files.len() - i,
    {
        let ghost before = views(acc@);
        if let Some(n) = ext_name_of(files[i].as_str()) {
            crate::text::insert_sorted(&mut acc, to_chars(n.as_str()));
        }
        proof {
            assert forall|n: Seq<char>| #[trigger] views(acc@).contains(n) <==> exists|k: int|
                0 <= k < i + 1 && ext_name(#[trigger] files@[k]@) == Some(n) by {
                if exists|k: int| 0 <= k < i + 1 && ext_name(#[trigger] files@[k]@) == Some(n) {
                    let k = choose|k: int| 0 <= k < i + 1 && ext_name(#[trigger] files@[k]@) == Some(n);
                    if k < i {
                        assert(before.contains(n));
                    }
                }
                if views(acc@).contains(n) && !before.contains(n) {
                    assert(ext_name(files@[i as int]@) == Some(n));
                }
            }
        }
        i = i + 1;
    }
    crate::text::strings_of(&acc)
}

/// The catalog entries whose lowercased name is not installed, in order.
pub open spec fn not_installed(catalog: Seq<Seq<char>>, installed: Seq<Seq<char>>) -> Seq<Seq<char>>
    decreases catalog.len(),
{
    if catalog.len() == 0 {
        Seq::empty()
    } else if installed.contains(to_lowercase(catalog.last())) {
        not_installed(catalog.drop_last(), installed)
    } else {
        not_installed(catalog.drop_last(), installed).push(catalog.last())
    }
}

/// The extensions installable for a version that aren't already present
/// (see [`not_installed`]).
pub fn available_extensions(catalog: &[String], installed: &[String]) -> (r: Vec<String>)
    ensures
        str_views(r@) == not_installed(str_views(catalog@), str_views(installed@)),
{
    let ghost cv = str_views(catalog@);
    let mut out: Vec<String> = Vec::new();
    let mut i: usize = 0;
    while i < catalog.len()
        invariant
            i <= catalog.len(),
            cv == str_views(catalog@),
            str_views(out@) == not_installed(cv.take(i as int), str_views(installed@)),
        decreases catalog.len() - i,
    {
        assert(cv.take(i + 1).drop_last() =~= cv.take(i as int));
        assert(cv.take(i + 1).last() == catalog@[i as int]@);
        let low = to_lower(catalog[i].as_str());
        if !crate::text::has_string(installed, low.as_str()) {
            let ghost before = str_views(out@);
            out.push(String::from_str(catalog[i].as_str()));
            assert(str_views(out@) =~= before.push(catalog@[i as int]@));
        }
        i = i + 1;
    }
    assert(cv.take(catalog.len() as int) =~= cv);
    out
}

/// A name an extension formula can have: not empty, ASCII letters, digits,
/// `_` and `-` only.
pub open spec fn valid_ext(name: Seq<char>) -> bool {
    name.len() > 0 && forall|i: int|
        0 <= i < name.len() ==> crate::text::is_alnum(#[trigger] name[i]) || name[i] == '_' || name[i] == '-'
}

/// Whether `name` can be an extension formula (see [`valid_ext`]).
pub fn valid_ext_name(name: &str) -> (r: bool)
    ensures
        r == valid_ext(name@),
{
    let cs = to_chars(name);
    if cs.len() == 0 {
        return false;
    }
    let mut i: usize = 0;
    while i < cs.len()
        invariant
            i <= cs.len(),
            cs@ == name@,
            forall|k: int| 0 <= k < i ==> crate::text::is_alnum(#[trigger] cs@[k]) || cs@[k] == '_' || cs@[k] == '-',
        decreases cs.len() - i,
    {
        let c = cs[i];
        let ok = ('a' <= c && c <= 'z') || ('A' <= c && c <= 'Z') || ('0' <= c && c <= '9') || c == '_' || c == '-';
        if !ok {
            assert(!(crate::text::is_alnum(name@[i as int]) || name@[i as int] == '_' || name@[i as int] == '-'));
            return false;
        }
        i = i + 1;
    }
    true
}

// ------------------------------------------------------------------ services

/// What `dpl service install` runs for an `engine[@version]` spec: the
/// Homebrew formula, the tap that provides it (if any), and the engine name
/// to create instances with; an error for an engine it doesn't know.
pub open spec fn install_plan(spec: Seq<char>) -> Result<(Seq<char>, Option<Seq<char>>, Seq<char>), Seq<char>> {
    let (engine, version): (Seq<char>, Option<Seq<char>>) = match find(spec, seq!['@']) {
        Some(k) => (to_lowercase(spec.take(k)), Some(spec.skip(k + 1))),
        None => (to_lowercase(spec), None),
    };
    let versioned = |base: Seq<char>| match version {
        Some(v) => base + "@"@ + v,
        None => base,
    };
    if engine == "postgres"@ || engine == "postgresql"@ || engine == "pg"@ {
        Ok((
            "postgresql@"@ + match version {
                Some(v) => v,
                None => "17"@,
            },
            None,
            "postgres"@,
        ))
    } else if engine == "mysql"@ || engine == "mariadb"@ || engine == "redis"@ {
        Ok((versioned(engine), None, engine))
    } else if engine == "meilisearch"@ || engine == "meili"@ {
        Ok(("meilisearch"@, None, engine))
    } else if engine == "mongodb"@ || engine == "mongo"@ {
        Ok(("mongodb-community"@, Some("mongodb/brew"@), engine))
    } else if engine == "minio"@ || engine == "s3"@ || engine == "rustfs"@ {
        Ok(("minio"@, None, engine))
    } else if engine == "stripe-mock"@ || engine == "stripemock"@ || engine == "stripe"@ {
        Ok(("stripe-mock"@, Some("stripe/stripe-mock"@), engine))
    } else {
        Err(
            "unknown service `"@ + engine
                + "` (postgres|mysql|mariadb|redis|meilisearch|mongodb|minio|stripe-mock)"@,
        )
    }
}

/// What `dpl service install` runs (see [`install_plan`]).
pub fn service_install_plan(spec: &str) -> (r: Result<(String, Option<String>, String), String>)
    ensures
        match r {
            Ok((f, t, e)) => install_plan(spec@) == Ok::<(Seq<char>, Option<Seq<char>>, Seq<char>), Seq<char>>(
                (f@, crate::sites::opt_view(t), e@),
            ),
            Err(m) => install_plan(spec@) == Err::<(Seq<char>, Option<Seq<char>>, Seq<char>), Seq<char>>(m@),
        },
{
    let cs = to_chars(spec);
    let at: [char; 1] = ['@'];
    assert(at@ =~= seq!['@']);
    proof {
        crate::text::lemma_find_from(cs@, at@, 0);
    }
    let (engine, version) = match find_chars(&cs, &at) {
        Some(k) => {
            let n = cs.len();
            assert(k + 1 <= n);
            let e = slice_chars(&cs, 0, k);
            let v = slice_chars(&cs, k + 1, n);
            assert(e@ =~= cs@.take(k as int));
            assert(v@ =~= cs@.skip(k + 1));
            (to_lower(from_chars(&e).as_str()), Some(from_chars(&v)))
        },
        None => (to_lower(spec), None),
    };
    let e = engine.as_str();
    let versioned = |base: &str| -> (r: String)
        ensures
            r@ == match version {
                Some(v) => base@ + "@"@ + v@,
                None => base@,
            },
        {
            match &version {
                Some(v) => concat3(base, "@", v.as_str()),
                None => String::from_str(base),
            }
        };
    let ghost plan = install_plan(spec@);
    if eq(e, "postgres") || eq(e, "postgresql") || eq(e, "pg") {
        let f = match &version {
            Some(v) => concat2("postgresql@", v.as_str()),
            None => String::from_str("postgresql@17"),
        };
        proof {
            reveal_strlit("postgresql@17");
            reveal_strlit("postgresql@");
            reveal_strlit("17");
            assert("postgresql@17"@ =~= "postgresql@"@ + "17"@);
        }
        return Ok((f, None, String::from_str("postgres")));
    }
    if eq(e, "mysql") || eq(e, "mariadb") || eq(e, "redis") {
        return Ok((versioned(e), None, String::from_str(e)));
    }
    if eq(e, "meilisearch") || eq(e, "meili") {
        return Ok((String::from_str("meilisearch"), None, String::from_str(e)));
    }
    if eq(e, "mongodb") || eq(e, "mongo") {
        return Ok((String::from_str("mongodb-community"), Some(String::from_str("mongodb/brew")), String::from_str(e)));
    }
    if eq(e, "minio") || eq(e, "s3") || eq(e, "rustfs") {
        return Ok((String::from_str("minio"), None, String::from_str(e)));
    }
    if eq(e, "stripe-mock") || eq(e, "stripemock") || eq(e, "stripe") {
        return Ok((String::from_str("stripe-mock"), Some(String::from_str("stripe/stripe-mock")), String::from_str(e)));
    }
    Err(concat3("unknown service `", e, "` (postgres|mysql|mariadb|redis|meilisearch|mongodb|minio|stripe-mock)"))
}

fn eq(a: &str, b: &str) -> (r: bool)
    ensures
        r == (a@ == b@),
{
    crate::text::str_eq(a, b)
}

/// The header of the services listing.
pub open spec fn services_header() -> Seq<char> {
    crate::output::pad_right("NAME"@, 14) + "  "@ + crate::output::pad_right("ENGINE"@, 9) + "  "@
        + crate::output::pad_right("VERSION"@, 8) + "  "@ + crate::output::pad_right("PORT"@, 6) + "  STATE"@
}

/// A service's state as the listing shows it.
pub open spec fn service_state_text(s: crate::ipc::ServiceInfo) -> Seq<char> {
    if s.external {
        "running (external)"@
    } else if s.running {
        "running"@
    } else {
        "stopped"@
    }
}

/// One service's row of the listing.
pub open spec fn service_line(s: crate::ipc::ServiceInfo) -> Seq<char> {
    crate::output::pad_right(s.name@, 14) + "  "@ + crate::output::pad_right(s.engine@, 9) + "  "@
        + crate::output::pad_right(
        if s.version@.len() == 0 {
            "-"@
        } else {
            s.version@
        },
        8,
    ) + "  "@ + crate::output::pad_right(dec(s.port as nat), 6) + "  "@ + service_state_text(s)
}

/// The header of the services listing (see [`services_header`]).
pub fn services_heading() -> (r: String)
    ensures
        r@ == services_header(),
{
    let mut l = crate::output::pad_to("NAME", 14);
    push_str(&mut l, "  ");
    push_str(&mut l, crate::output::pad_to("ENGINE", 9).as_str());
    push_str(&mut l, "  ");
    push_str(&mut l, crate::output::pad_to("VERSION", 8).as_str());
    push_str(&mut l, "  ");
    push_str(&mut l, crate::output::pad_to("PORT", 6).as_str());
    push_str(&mut l, "  STATE");
    l
}

/// One service's row of the listing (see [`service_line`]).
pub fn service_row(s: &crate::ipc::ServiceInfo) -> (r: String)
    ensures
        r@ == service_line(*s),
{
    let mut l = crate::output::pad_to(s.name.as_str(), 14);
    push_str(&mut l, "  ");
    push_str(&mut l, crate::output::pad_to(s.engine.as_str(), 9).as_str());
    push_str(&mut l, "  ");
    let v: &str = if crate::text::str_is_empty(s.version.as_str()) {
        "-"
    } else {
        s.version.as_str()
    };
    push_str(&mut l, crate::output::pad_to(v, 8).as_str());
    push_str(&mut l, "  ");
    push_str(&mut l, crate::output::pad_to(crate::text::dec_string(s.port as u64).as_str(), 6).as_str());
    push_str(&mut l, "  ");
    push_str(
        &mut l,
        if s.external {
            "running (external)"
        } else if s.running {
            "running"
        } else {
            "stopped"
        },
    );
    l
}

/// How to reach a service: its name and engine (and version), then host,
/// port, user, password, URL and a client command.
pub open spec fn service_details(s: crate::ipc::ServiceInfo) -> Seq<Seq<char>> {
    let (url, cmd) = engine_connection(s.engine@, s.port);
    seq![
        s.name@ + "  ("@ + s.engine@ + (if s.version@.len() == 0 {
            Seq::empty()
        } else {
            " "@ + s.version@
        }) + ")"@,
        "  host      127.0.0.1"@,
        "  port      "@ + dec(s.port as nat),
        "  user      "@ + engine_user(s.engine@),
        "  password  (none)"@,
        "  url       "@ + url,
        "  connect   "@ + cmd
    ]
}

/// How to reach the service named `target` (see [`service_details`]); the
/// error says there is none.
pub fn service_info(services: &[crate::ipc::ServiceInfo], target: &str) -> (r: Result<Vec<String>, String>)
    ensures
        match r {
            Ok(ls) => exists|k: int|
                0 <= k < services@.len() && (#[trigger] services@[k]).name@ == target@ && (forall|j: int|
                    0 <= j < k ==> services@[j].name@ != target@) && str_views(ls@) == service_details(services@[k]),
            Err(e) => (forall|k: int| 0 <= k < services@.len() ==> (#[trigger] services@[k]).name@ != target@)
                && e@ == "no service named `"@ + target@ + "`"@,
        },
{
    let mut i: usize = 0;
    while i < services.len()
        invariant
            i <= services.len(),
            forall|j: int| 0 <= j < i ==> (#[trigger] services@[j]).name@ != target@,
        decreases services.len() - i,
    {
        if crate::text::str_eq(services[i].name.as_str(), target) {
            let s = &services[i];
            let (url, cmd) = connection_strings(s.engine.as_str(), s.port);
            let ghost d = service_details(services@[i as int]);
            let mut head = concat3(s.name.as_str(), "  (", s.engine.as_str());
            if !crate::text::str_is_empty(s.version.as_str()) {
                push_str(&mut head, " ");
                push_str(&mut head, s.version.as_str());
            }
            push_str(&mut head, ")");
            assert(head@ =~= d[0]);
            let l1 = String::from_str("  host      127.0.0.1");
            let l2 = concat2("  port      ", crate::text::dec_string(s.port as u64).as_str());
            let l3 = concat2("  user      ", default_user(s.engine.as_str()));
            let l4 = String::from_str("  password  (none)");
            let l5 = concat2("  url       ", url.as_str());
            let l6 = concat2("  connect   ", cmd.as_str());
            let ghost vs = seq![head@, l1@, l2@, l3@, l4@, l5@, l6@];
            assert(vs =~= d);
            let mut out: Vec<String> = Vec::new();
            out.push(head);
            out.push(l1);
            out.push(l2);
            out.push(l3);
            out.push(l4);
            out.push(l5);
            out.push(l6);
            assert(str_views(out@) =~= vs);
            return Ok(out);
        }
        i = i + 1;
    }
    Err(concat3("no service named `", target, "`"))
}

/// The TLDs as `dpl tld` lists them: each with its dot, the first marked
/// primary.
pub open spec fn tld_listing(tlds: Seq<Seq<char>>) -> Seq<Seq<char>> {
    Seq::new(tlds.len(), |i: int| "."@ + tlds[i] + if i == 0 { "  (primary)"@ } else { Seq::empty() })
}

/// The TLDs as `dpl tld` lists them (see [`tld_listing`]).
pub fn tld_lines(tlds: &[String]) -> (r: Vec<String>)
    ensures
        str_views(r@) == tld_listing(str_views(tlds@)),
{
    let mut out: Vec<String> = Vec::new();
    let mut i: usize = 0;
    while i < tlds.len()
        invariant
            i <= tlds.len(),
            out@.len() == i,
            forall|k: int| 0 <= k < i ==> (#[trigger] out@[k])@ == tld_listing(str_views(tlds@))[k],
        decreases tlds.len() - i,
    {
        let mut l = concat2(".", tlds[i].as_str());
        if i == 0 {
            push_str(&mut l, "  (primary)");
        }
        out.push(l);
        i = i + 1;
    }
    assert(str_views(out@) =~= tld_listing(str_views(tlds@)));
    out
}

/// The Octane server a site switches to: the name lowercased when it is
/// Swoole, RoadRunner or FrankenPHP.
pub open spec fn octane_server_of(server: Seq<char>) -> Result<Seq<char>, Seq<char>> {
    let s = to_lowercase(server);
    if s == "swoole"@ || s == "roadrunner"@ || s == "frankenphp"@ {
        Ok(s)
    } else {
        Err("unknown server `"@ + s + "` (swoole | roadrunner | frankenphp)"@)
    }
}

/// The Octane server a site switches to (see [`octane_server_of`]).
pub fn octane_server(server: &str) -> (r: Result<String, String>)
    ensures
        match r {
            Ok(s) => octane_server_of(server@) == Ok::<Seq<char>, Seq<char>>(s@),
            Err(e) => octane_server_of(server@) == Err::<Seq<char>, Seq<char>>(e@),
        },
{
    let s = to_lower(server);
    if eq(s.as_str(), "swoole") || eq(s.as_str(), "roadrunner") || eq(s.as_str(), "frankenphp") {
        Ok(s)
    } else {
        Err(concat3("unknown server `", s.as_str(), "` (swoole | roadrunner | frankenphp)"))
    }
}

/// The server a plaintext HTTP probe of port 80 names: the first `Server:`
/// header (matched without ASCII case), its value up to the first `/` or
/// space, lowercased; `another server` when that is empty, `another web
/// server` when no header names one.
pub open spec fn server_in(ls: Seq<Seq<char>>) -> Seq<char>
    decreases ls.len(),
{
    if ls.len() == 0 {
        "another web server"@
    } else {
        let l = crate::text::ascii_lower(ls[0]);
        if has_prefix(l, "server:"@) {
            let name = trim(l.skip(7));
            let short = name.take(first_stop(name));
            if short.len() == 0 {
                "another server"@
            } else {
                short
            }
        } else {
            server_in(ls.drop_first())
        }
    }
}

/// The position of the first `/` or space in `s`, else its length.
pub open spec fn first_stop(s: Seq<char>) -> int
    decreases s.len(),
{
    if s.len() == 0 {
        0
    } else if s[0] == '/' || s[0] == ' ' {
        0
    } else {
        1 + first_stop(s.drop_first())
    }
}

fn first_stop_of(cs: &[char]) -> (r: usize)
    ensures
        r as int == first_stop(cs@),
        r <= cs.len(),
{
    let mut i: usize = 0;
    assert(cs@.skip(0) =~= cs@);
    while i < cs.len() && cs[i] != '/' && cs[i] != ' '
        invariant
            i <= cs.len(),
            first_stop(cs@) == i + first_stop(cs@.skip(i as int)),
        decreases cs.len() - i,
    {
        assert(cs@.skip(i as int).drop_first() =~= cs@.skip(i + 1));
        i = i + 1;
    }
    if i < cs.len() {
        assert(cs@.skip(i as int)[0] == cs@[i as int]);
    } else {
        assert(cs@.skip(i as int) =~= Seq::<char>::empty());
    }
    i
}

/// The server a plaintext HTTP probe of port 80 names, from the response
/// text (see [`server_in`]).
pub fn server_header(response: &str) -> (r: String)
    ensures
        r@ == server_in(lines(response@)),
{
    let ls = lines_of(&to_chars(response));
    let ghost lv = lines(response@);
    let mut i: usize = 0;
    assert(lv.skip(0) =~= lv);
    while i < ls.len()
        invariant
            i <= ls.len(),
            lv == lines(response@),
            ls@.len() == lv.len(),
            forall|q: int| 0 <= q < ls@.len() ==> (#[trigger] ls@[q])@ == lv[q],
            server_in(lv) == server_in(lv.skip(i as int)),
        decreases ls.len() - i,
    {
        assert(lv.skip(i as int)[0] == lv[i as int]);
        assert(lv.skip(i as int).drop_first() =~= lv.skip(i + 1));
        let mut low: Vec<char> = Vec::new();
        let l = &ls[i];
        let mut j: usize = 0;
        while j < l.len()
            invariant
                j <= l.len(),
                low@ == crate::text::ascii_lower(l@.take(j as int)),
            decreases l.len() - j,
        {
            low.push(crate::text::lower_ascii_char(l[j]));
            j = j + 1;
            assert(low@ =~= crate::text::ascii_lower(l@.take(j as int)));
        }
        assert(l@.take(l.len() as int) =~= l@);
        let key = to_chars("server:");
        if crate::text::starts_with_chars(&low, &key) {
            proof {
                reveal_strlit("server:");
            }
            let rest = slice_chars(&low, 7, low.len());
            assert(rest@ =~= low@.skip(7));
            let name = trim_chars(&rest);
            let k = first_stop_of(&name);
            let short = slice_chars(&name, 0, k);
            assert(short@ =~= name@.take(k as int));
            if short.len() == 0 {
                return String::from_str("another server");
            }
            return from_chars(&short);
        }
        i = i + 1;
    }
    assert(lv.skip(i as int) =~= Seq::<Seq<char>>::empty());
    String::from_str("another web server")
}

// ---------------------------------------------------------------- PHP lists

/// The header of `dpl php list`.
pub open spec fn php_list_header() -> Seq<char> {
    crate::output::pad_right("VERSION"@, 8) + "  "@ + crate::output::pad_right("SOURCE"@, 10) + "  "@
        + crate::output::pad_right("DEFAULT"@, 8) + "  BINARY"@
}

/// One install's row of `dpl php list`, marked when it is the default.
pub open spec fn php_list_line(v: crate::php::PhpVersion, default: Option<Seq<char>>) -> Seq<char> {
    crate::output::pad_right(v.version@, 8) + "  "@ + crate::output::pad_right(v.source@, 10) + "  "@
        + crate::output::pad_right(
        if default == Some(v.version@) {
            "\u{2713}"@
        } else {
            Seq::empty()
        },
        8,
    ) + "  "@ + v.binary@
}

/// The header of `dpl php list` (see [`php_list_header`]).
pub fn php_list_heading() -> (r: String)
    ensures
        r@ == php_list_header(),
{
    let mut l = crate::output::pad_to("VERSION", 8);
    push_str(&mut l, "  ");
    push_str(&mut l, crate::output::pad_to("SOURCE", 10).as_str());
    push_str(&mut l, "  ");
    push_str(&mut l, crate::output::pad_to("DEFAULT", 8).as_str());
    push_str(&mut l, "  BINARY");
    l
}

/// One install's row of `dpl php list` (see [`php_list_line`]).
pub fn php_list_row(v: &crate::php::PhpVersion, default: Option<&str>) -> (r: String)
    ensures
        r@ == php_list_line(*v, crate::node::opt_str(default)),
{
    let is_default = match default {
        Some(d) => crate::text::str_eq(d, v.version.as_str()),
        None => false,
    };
    let mut l = crate::output::pad_to(v.version.as_str(), 8);
    push_str(&mut l, "  ");
    push_str(&mut l, crate::output::pad_to(v.source.as_str(), 10).as_str());
    push_str(&mut l, "  ");
    push_str(&mut l, crate::output::pad_to(if is_default { "\u{2713}" } else { "" }, 8).as_str());
    proof {
        reveal_strlit("");
    }
    push_str(&mut l, "  ");
    push_str(&mut l, v.binary.as_str());
    l
}

/// A PHP line's status in `dpl php available`: active, else broken, else
/// installed, else not installed.
pub open spec fn catalog_status(e: crate::php::CatalogEntry) -> Seq<char> {
    if e.active {
        "active"@
    } else if e.broken {
        "broken"@
    } else if e.installed {
        "installed"@
    } else {
        "not installed"@
    }
}

/// One line's row of `dpl php available`: version, formula, status.
pub fn catalog_row(e: &crate::php::CatalogEntry) -> (r: String)
    ensures
        r@ == crate::output::pad_right(e.version@, 8) + "  "@ + crate::output::pad_right(e.formula@, 10) + "  "@
            + catalog_status(*e),
{
    let mut l = crate::output::pad_to(e.version.as_str(), 8);
    push_str(&mut l, "  ");
    push_str(&mut l, crate::output::pad_to(e.formula.as_str(), 10).as_str());
    push_str(&mut l, "  ");
    push_str(
        &mut l,
        if e.active {
            "active"
        } else if e.broken {
            "broken"
        } else if e.installed {
            "installed"
        } else {
            "not installed"
        },
    );
    l
}


/// What `dpl octane watch <site> [on|off]` asks for, by its word in any
/// case: `on`, `true` or `yes` turn reload-on-save on; `off`, `false` or
/// `no` turn it off; no word shows the setting; anything else is refused.
pub open spec fn watch_choice(state: Option<Seq<char>>) -> Option<Result<bool, Seq<char>>> {
    match state {
        None => None,
        Some(w) => {
            let l = to_lowercase(w);
            if l == "on"@ || l == "true"@ || l == "yes"@ {
                Some(Ok(true))
            } else if l == "off"@ || l == "false"@ || l == "no"@ {
                Some(Ok(false))
            } else {
                Some(Err("say `on` or `off`, not `"@ + l + "`."@))
            }
        },
    }
}

/// Read the word `dpl octane watch` is given (see [`watch_choice`]).
pub fn watch_word(state: Option<&str>) -> (r: Option<Result<bool, String>>)
    ensures
        match r {
            None => watch_choice(crate::node::opt_str(state)) is None,
            Some(Ok(b)) => watch_choice(crate::node::opt_str(state)) == Some(Ok::<bool, Seq<char>>(b)),
            Some(Err(m)) => watch_choice(crate::node::opt_str(state)) == Some(Err::<bool, Seq<char>>(m@)),
        },
{
    match state {
        None => None,
        Some(w) => {
            let l = crate::text::to_lower(w);
            let s = l.as_str();
            if crate::text::str_eq(s, "on") || crate::text::str_eq(s, "true") || crate::text::str_eq(s, "yes") {
                Some(Ok(true))
            } else if crate::text::str_eq(s, "off") || crate::text::str_eq(s, "false") || crate::text::str_eq(s, "no") {
                Some(Ok(false))
            } else {
                let mut m = String::from_str("say `on` or `off`, not `");
                push_str(&mut m, s);
                push_str(&mut m, "`.");
                Some(Err(m))
            }
        },
    }
}
} // verus!
