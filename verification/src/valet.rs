//! Importing sites from a Laravel Valet install: what its config says, which
//! parked directories and linked sites carry over, and the selection an import
//! or a removal sends to the daemon.
//!
//! Reading Valet's files and resolving its symlinks is the caller's part.

use vstd::prelude::*;

use crate::json::{get, get_key, Json};
use crate::text::{copy_string, lex_less, lex_lt, push_str, str_eq, str_views, to_chars};

verus! {

/// A `valet link`ed site: an explicit name pointing at a project directory.
#[derive(Debug, Clone)]
pub struct ValetLink {
    pub name: String,
    pub path: String,
    /// Whether the target directory still exists.
    pub exists: bool,
}

/// A snapshot of what Valet has configured.
#[derive(Debug, Clone)]
pub struct ValetInfo {
    pub installed: bool,
    pub tld: String,
    /// Parked directories (each subfolder becomes a site), excluding Valet's
    /// own `Sites` link directory.
    pub parked: Vec<String>,
    /// Individually linked projects, by name.
    pub linked: Vec<ValetLink>,
}

/// The strings among JSON values, in order.
pub open spec fn strings_in(vs: Seq<Json>) -> Seq<Seq<char>>
    decreases vs.len(),
{
    if vs.len() == 0 {
        Seq::empty()
    } else {
        match vs.last() {
            Json::Str(s) => strings_in(vs.drop_last()).push(s@),
            _ => strings_in(vs.drop_last()),
        }
    }
}

/// The strings in the array under `key`; none when `key` holds no array.
pub open spec fn string_array(v: Json, key: Seq<char>) -> Seq<Seq<char>> {
    match get_key(v, key) {
        Some(Json::Array(items, _)) => strings_in(items@),
        _ => Seq::empty(),
    }
}

fn string_array_of(v: &Json, key: &str) -> (r: Vec<String>)
    ensures
        str_views(r@) == string_array(*v, key@),
{
    let mut out: Vec<String> = Vec::new();
    match get(v, key) {
        Some(Json::Array(items, _)) => {
            let mut i: usize = 0;
            while i < items.len()
                invariant
                    i <= items.len(),
                    str_views(out@) == strings_in(items@.take(i as int)),
                decreases items.len() - i,
            {
                assert(items@.take(i + 1).drop_last() =~= items@.take(i as int));
                assert(items@.take(i + 1).last() == items@[i as int]);
                if let Json::Str(s) = &items[i] {
                    let ghost before = str_views(out@);
                    out.push(copy_string(s));
                    assert(str_views(out@) =~= before.push(s@));
                }
                i = i + 1;
            }
            assert(items@.take(items.len() as int) =~= items@);
        },
        _ => {},
    }
    out
}

/// Valet's TLD and parked paths from its `config.json` (`None` when it
/// can't be read or parsed): the `tld` string, else `test`; the strings of
/// the `paths` array.
pub open spec fn valet_config(cfg: Option<Json>) -> (Seq<char>, Seq<Seq<char>>) {
    match cfg {
        Some(c) => (
            match get_key(c, "tld"@) {
                Some(Json::Str(t)) => t@,
                _ => "test"@,
            },
            string_array(c, "paths"@),
        ),
        None => ("test"@, Seq::empty()),
    }
}

/// Valet's TLD and parked paths (see [`valet_config`]).
pub fn valet_settings(cfg: Option<&Json>) -> (r: (String, Vec<String>))
    ensures
        (r.0@, str_views(r.1@)) == valet_config(
            match cfg {
                Some(c) => Some(*c),
                None => None,
            },
        ),
{
    match cfg {
        Some(c) => {
            let tld = match get(c, "tld") {
                Some(Json::Str(t)) => copy_string(t),
                _ => String::from_str("test"),
            };
            (tld, string_array_of(c, "paths"))
        },
        None => (String::from_str("test"), Vec::new()),
    }
}

/// The parked directories that carry over: the configured paths that are
/// directories (`dirs`), other than Valet's own `Sites` directory.
pub open spec fn parked_of(paths: Seq<Seq<char>>, sites_dir: Seq<char>, dirs: Seq<Seq<char>>) -> Seq<Seq<char>>
    decreases paths.len(),
{
    if paths.len() == 0 {
        Seq::empty()
    } else {
        let rest = parked_of(paths.drop_last(), sites_dir, dirs);
        let p = paths.last();
        if p != sites_dir && dirs.contains(p) {
            rest.push(p)
        } else {
            rest
        }
    }
}

/// The parked directories that carry over (see [`parked_of`]).
pub fn parked_dirs(paths: &[String], sites_dir: &str, dirs: &[String]) -> (r: Vec<String>)
    ensures
        str_views(r@) == parked_of(str_views(paths@), sites_dir@, str_views(dirs@)),
{
    let ghost pv = str_views(paths@);
    let mut out: Vec<String> = Vec::new();
    let mut i: usize = 0;
    while i < paths.len()
        invariant
            i <= paths.len(),
            pv == str_views(paths@),
            str_views(out@) == parked_of(pv.take(i as int), sites_dir@, str_views(dirs@)),
        decreases paths.len() - i,
    {
        assert(pv.take(i + 1).drop_last() =~= pv.take(i as int));
        assert(pv.take(i + 1).last() == paths@[i as int]@);
        if !str_eq(paths[i].as_str(), sites_dir) && crate::text::has_string(dirs, paths[i].as_str()) {
            let ghost before = str_views(out@);
            out.push(copy_string(&paths[i]));
            assert(str_views(out@) =~= before.push(paths@[i as int]@));
        }
        i = i + 1;
    }
    assert(pv.take(paths.len() as int) =~= pv);
    out
}

/// Where a Valet link points: its resolved target, else the link's own
/// target, else nothing.
pub fn link_target(resolved: Option<String>, target: Option<String>) -> (r: String)
    ensures
        r@ == match resolved {
            Some(p) => p@,
            None => match target {
                Some(t) => t@,
                None => Seq::empty(),
            },
        },
{
    match resolved {
        Some(p) => p,
        None => match target {
            Some(t) => t,
            None => String::new(),
        },
    }
}

/// Links ordered by name.
pub open spec fn by_name(ls: Seq<ValetLink>) -> bool {
    forall|a: int, b: int| 0 <= a < b < ls.len() ==> !lex_lt(#[trigger] ls[b].name@, #[trigger] ls[a].name@)
}

/// The links sorted by name (`sort_by` on the names): the same links, each
/// name no greater than the next.
pub fn sort_links(links: Vec<ValetLink>) -> (r: Vec<ValetLink>)
    ensures
        by_name(r@),
        r@.to_multiset() == links@.to_multiset(),
{
    let mut out: Vec<ValetLink> = Vec::new();
    let mut rest = links;
    let ghost all = rest@;
    proof {
        vstd::seq_lib::to_multiset_len(out@);
        vstd::multiset::lemma_multiset_empty_len(out@.to_multiset());
        assert(out@.to_multiset() =~= vstd::multiset::Multiset::<ValetLink>::empty());
        assert(out@.to_multiset().add(rest@.to_multiset()) =~= all.to_multiset());
    }
    while rest.len() > 0
        invariant
            by_name(out@),
            out@.to_multiset().add(rest@.to_multiset()) == all.to_multiset(),
        decreases rest.len(),
    {
        let ghost r0 = rest@;
        let x = rest.pop().unwrap();
        proof {
            assert(r0 =~= rest@.push(x));
            vstd::seq_lib::to_multiset_build(rest@, x);
        }
        let ghost o0 = out@;
        let xn = to_chars(x.name.as_str());
        let mut p: usize = 0;
        while p < out.len() && lex_less(&to_chars(out[p].name.as_str()), &xn)
            invariant
                p <= out.len(),
                out@ == o0,
                forall|k: int| 0 <= k < p ==> lex_lt(#[trigger] o0[k].name@, xn@),
            decreases out.len() - p,
        {
            p = p + 1;
        }
        proof {
            if p < out.len() {
                assert forall|k: int| p <= k < o0.len() implies !lex_lt(#[trigger] o0[k].name@, xn@) by {
                    if k > p && lex_lt(o0[k].name@, xn@) {
                        assert(!lex_lt(o0[k].name@, o0[p as int].name@));
                        if o0[k].name@ != o0[p as int].name@ {
                            crate::text::lemma_lex_total(o0[k].name@, o0[p as int].name@);
                            crate::text::lemma_lex_trans(o0[p as int].name@, o0[k].name@, xn@);
                        }
                    }
                }
            }
        }
        let ghost xv = x;
        out.insert(p, x);
        proof {
            let o1 = out@;
            assert(o1 =~= o0.insert(p as int, xv));
            vstd::seq_lib::to_multiset_insert(o0, p as int, xv);
            assert forall|a: int, b: int| 0 <= a < b < o1.len() implies !lex_lt(
                #[trigger] o1[b].name@,
                #[trigger] o1[a].name@,
            ) by {
                if b < p {
                } else if a < p && b == p {
                    assert(lex_lt(o0[a].name@, xn@));
                    if lex_lt(xn@, o0[a].name@) {
                        crate::text::lemma_lex_trans(xn@, o0[a].name@, xn@);
                        crate::text::lemma_lex_irrefl(xn@);
                    }
                } else if a < p {
                    assert(o1[b] == o0[b - 1]);
                } else if a == p {
                    assert(!lex_lt(o0[b - 1].name@, xn@));
                } else {
                }
            }
            assert(out@.to_multiset().add(rest@.to_multiset()) =~= all.to_multiset());
        }
    }
    proof {
        assert(rest@ =~= Seq::<ValetLink>::empty());
        vstd::seq_lib::to_multiset_len(rest@);
        vstd::multiset::lemma_multiset_empty_len(rest@.to_multiset());
        assert(rest@.to_multiset() =~= vstd::multiset::Multiset::<ValetLink>::empty());
        assert(out@.to_multiset() =~= all.to_multiset());
    }
    out
}

/// What an import sends when no manifest is given: the parked directories
/// when parks are wanted, and the links whose target exists when links are.
pub open spec fn import_of(info: ValetInfo, parks: bool, links: bool) -> (Seq<Seq<char>>, Seq<(Seq<char>, Seq<char>)>) {
    (
        if parks {
            str_views(info.parked@)
        } else {
            Seq::empty()
        },
        if links {
            live_links(info.linked@)
        } else {
            Seq::empty()
        },
    )
}

/// The name and path of each link whose target exists, in order.
pub open spec fn live_links(ls: Seq<ValetLink>) -> Seq<(Seq<char>, Seq<char>)>
    decreases ls.len(),
{
    if ls.len() == 0 {
        Seq::empty()
    } else if ls.last().exists {
        live_links(ls.drop_last()).push((ls.last().name@, ls.last().path@))
    } else {
        live_links(ls.drop_last())
    }
}

/// Pairs as plain values.
pub open spec fn pair_views(ps: Seq<(String, String)>) -> Seq<(Seq<char>, Seq<char>)> {
    ps.map_values(|p: (String, String)| (p.0@, p.1@))
}

/// What an import of Valet's setup sends (see [`import_of`]); an error when
/// Valet isn't installed.
pub fn import_selection(info: &ValetInfo, parks: bool, links: bool) -> (r: Result<(Vec<String>, Vec<(String, String)>), String>)
    ensures
        match r {
            Ok((p, l)) => info.installed && (str_views(p@), pair_views(l@)) == import_of(*info, parks, links),
            Err(e) => !info.installed
                && e@ == "No Laravel Valet install found (looked in ~/.config/valet and ~/.valet)."@,
        },
{
    if !info.installed {
        return Err(String::from_str("No Laravel Valet install found (looked in ~/.config/valet and ~/.valet)."));
    }
    let parked = if parks {
        crate::text::copy_strings(info.parked.as_slice())
    } else {
        Vec::new()
    };
    let mut pairs: Vec<(String, String)> = Vec::new();
    if links {
        let mut i: usize = 0;
        while i < info.linked.len()
            invariant
                i <= info.linked.len(),
                pair_views(pairs@) == live_links(info.linked@.take(i as int)),
            decreases info.linked.len() - i,
        {
            assert(info.linked@.take(i + 1).drop_last() =~= info.linked@.take(i as int));
            assert(info.linked@.take(i + 1).last() == info.linked@[i as int]);
            let l = &info.linked[i];
            if l.exists {
                let ghost before = pair_views(pairs@);
                pairs.push((copy_string(&l.name), copy_string(&l.path)));
                assert(pair_views(pairs@) =~= before.push((l.name@, l.path@)));
            }
            i = i + 1;
        }
        assert(info.linked@.take(info.linked.len() as int) =~= info.linked@);
    }
    assert(pair_views(pairs@) =~= import_of(*info, parks, links).1);
    Ok((parked, pairs))
}

/// The name and path of every link, in order.
pub open spec fn all_links(ls: Seq<ValetLink>) -> Seq<(Seq<char>, Seq<char>)> {
    ls.map_values(|l: ValetLink| (l.name@, l.path@))
}

/// What a removal without a manifest sends: every parked directory, and
/// the name of every link.
pub fn removal_selection(info: &ValetInfo) -> (r: (Vec<String>, Vec<String>))
    ensures
        str_views(r.0@) == str_views(info.parked@),
        str_views(r.1@) == info.linked@.map_values(|l: ValetLink| l.name@),
{
    let parked = crate::text::copy_strings(info.parked.as_slice());
    let mut names: Vec<String> = Vec::new();
    let mut i: usize = 0;
    while i < info.linked.len()
        invariant
            i <= info.linked.len(),
            str_views(names@) == info.linked@.take(i as int).map_values(|l: ValetLink| l.name@),
        decreases info.linked.len() - i,
    {
        let ghost before = str_views(names@);
        names.push(copy_string(&info.linked[i].name));
        assert(str_views(names@) =~= before.push(info.linked@[i as int].name@));
        assert(info.linked@.take(i + 1) =~= info.linked@.take(i as int).push(info.linked@[i as int]));
        assert(str_views(names@) =~= info.linked@.take(i + 1).map_values(|l: ValetLink| l.name@));
        i = i + 1;
    }
    assert(info.linked@.take(info.linked.len() as int) =~= info.linked@);
    (parked, names)
}

/// The `name` and `path` strings of each object with both, in order.
pub open spec fn named_paths(vs: Seq<Json>) -> Seq<(Seq<char>, Seq<char>)>
    decreases vs.len(),
{
    if vs.len() == 0 {
        Seq::empty()
    } else {
        let rest = named_paths(vs.drop_last());
        match (get_key(vs.last(), "name"@), get_key(vs.last(), "path"@)) {
            (Some(Json::Str(n)), Some(Json::Str(p))) => rest.push((n@, p@)),
            _ => rest,
        }
    }
}

/// A GUI manifest's selection: the strings of `parked`, and the `name` and
/// `path` of each entry of `links` that has both as strings.
pub open spec fn manifest_of(v: Json) -> (Seq<Seq<char>>, Seq<(Seq<char>, Seq<char>)>) {
    (
        string_array(v, "parked"@),
        match get_key(v, "links"@) {
            Some(Json::Array(items, _)) => named_paths(items@),
            _ => Seq::empty(),
        },
    )
}

/// A GUI manifest's selection (see [`manifest_of`]).
pub fn read_manifest(v: &Json) -> (r: (Vec<String>, Vec<(String, String)>))
    ensures
        (str_views(r.0@), pair_views(r.1@)) == manifest_of(*v),
{
    let parked = string_array_of(v, "parked");
    let mut pairs: Vec<(String, String)> = Vec::new();
    match get(v, "links") {
        Some(Json::Array(items, _)) => {
            let mut i: usize = 0;
            while i < items.len()
                invariant
                    i <= items.len(),
                    pair_views(pairs@) == named_paths(items@.take(i as int)),
                decreases items.len() - i,
            {
                assert(items@.take(i + 1).drop_last() =~= items@.take(i as int));
                assert(items@.take(i + 1).last() == items@[i as int]);
                match (get(&items[i], "name"), get(&items[i], "path")) {
                    (Some(Json::Str(n)), Some(Json::Str(p))) => {
                        let ghost before = pair_views(pairs@);
                        pairs.push((copy_string(n), copy_string(p)));
                        assert(pair_views(pairs@) =~= before.push((n@, p@)));
                    },
                    _ => {},
                }
                i = i + 1;
            }
            assert(items@.take(items.len() as int) =~= items@);
        },
        _ => {},
    }
    assert(pair_views(pairs@) =~= manifest_of(*v).1);
    (parked, pairs)
}

/// The `dpl valet list` report: the TLD, the parked directories (or
/// `(none)`), each link with its path and whether it is missing, and how to
/// import them; a note when Valet isn't installed.
pub open spec fn valet_report(info: ValetInfo) -> Seq<Seq<char>> {
    if !info.installed {
        seq!["No Laravel Valet install found (looked in ~/.config/valet and ~/.valet)."@]
    } else {
        seq!["Valet TLD: ."@ + info.tld@, Seq::empty(), "Parked directories ("@ + crate::text::dec(info.parked@.len()) + "):"@]
            + (if info.parked@.len() == 0 {
            seq!["  (none)"@]
        } else {
            Seq::empty()
        }) + str_views(info.parked@).map_values(|p: Seq<char>| "  "@ + p) + seq![
            Seq::empty(),
            "Linked sites ("@ + crate::text::dec(info.linked@.len()) + "):"@
        ] + info.linked@.map_values(
            |l: ValetLink|
                "  "@ + crate::output::pad_right(l.name@, 28) + " "@ + l.path@ + if l.exists {
                    Seq::empty()
                } else {
                    "  (missing)"@
                },
        ) + seq![Seq::empty(), "Import them with: dpl valet import"@]
    }
}

/// The `dpl valet list` report (see [`valet_report`]).
pub fn valet_lines(info: &ValetInfo) -> (r: Vec<String>)
    ensures
        str_views(r@) == valet_report(*info),
{
    let mut out: Vec<String> = Vec::new();
    if !info.installed {
        out.push(String::from_str("No Laravel Valet install found (looked in ~/.config/valet and ~/.valet)."));
        assert(str_views(out@) =~= valet_report(*info));
        return out;
    }
    let mut t = String::from_str("Valet TLD: .");
    push_str(&mut t, info.tld.as_str());
    out.push(t);
    out.push(String::new());
    let mut h = String::from_str("Parked directories (");
    push_str(&mut h, crate::text::dec_string(info.parked.len() as u64).as_str());
    push_str(&mut h, "):");
    out.push(h);
    if info.parked.len() == 0 {
        out.push(String::from_str("  (none)"));
    }
    let ghost a = str_views(out@);
    assert(a =~= seq!["Valet TLD: ."@ + info.tld@, Seq::empty(), "Parked directories ("@ + crate::text::dec(info.parked@.len()) + "):"@]
        + (if info.parked@.len() == 0 {
        seq!["  (none)"@]
    } else {
        Seq::empty()
    }));
    let mut i: usize = 0;
    while i < info.parked.len()
        invariant
            i <= info.parked.len(),
            str_views(out@) == a + str_views(info.parked@).take(i as int).map_values(|p: Seq<char>| "  "@ + p),
        decreases info.parked.len() - i,
    {
        let mut l = String::from_str("  ");
        push_str(&mut l, info.parked[i].as_str());
        let ghost before = str_views(out@);
        let ghost lv = l@;
        out.push(l);
        assert(str_views(out@) =~= before.push(lv));
        assert(str_views(info.parked@).take(i + 1) =~= str_views(info.parked@).take(i as int).push(info.parked@[i as int]@));
        assert(str_views(out@) =~= a + str_views(info.parked@).take(i + 1).map_values(|p: Seq<char>| "  "@ + p));
        i = i + 1;
    }
    assert(str_views(info.parked@).take(info.parked.len() as int) =~= str_views(info.parked@));
    out.push(String::new());
    let mut h2 = String::from_str("Linked sites (");
    push_str(&mut h2, crate::text::dec_string(info.linked.len() as u64).as_str());
    push_str(&mut h2, "):");
    out.push(h2);
    let ghost b = str_views(out@);
    assert(b =~= a + str_views(info.parked@).map_values(|p: Seq<char>| "  "@ + p) + seq![
        Seq::empty(),
        "Linked sites ("@ + crate::text::dec(info.linked@.len()) + "):"@
    ]);
    let mut k: usize = 0;
    while k < info.linked.len()
        invariant
            k <= info.linked.len(),
            str_views(out@) == b + info.linked@.take(k as int).map_values(
                |l: ValetLink|
                    "  "@ + crate::output::pad_right(l.name@, 28) + " "@ + l.path@ + if l.exists {
                        Seq::empty()
                    } else {
                        "  (missing)"@
                    },
            ),
        decreases info.linked.len() - k,
    {
        let lk = &info.linked[k];
        let mut l = String::from_str("  ");
        push_str(&mut l, crate::output::pad_to(lk.name.as_str(), 28).as_str());
        push_str(&mut l, " ");
        push_str(&mut l, lk.path.as_str());
        if !lk.exists {
            push_str(&mut l, "  (missing)");
        }
        let ghost before = str_views(out@);
        let ghost lv = l@;
        out.push(l);
        assert(lv =~= "  "@ + crate::output::pad_right(lk.name@, 28) + " "@ + lk.path@ + if lk.exists {
            Seq::empty()
        } else {
            "  (missing)"@
        });
        assert(str_views(out@) =~= before.push(lv));
        assert(info.linked@.take(k + 1) =~= info.linked@.take(k as int).push(info.linked@[k as int]));
        assert(str_views(out@) =~= b + info.linked@.take(k + 1).map_values(
            |l: ValetLink|
                "  "@ + crate::output::pad_right(l.name@, 28) + " "@ + l.path@ + if l.exists {
                    Seq::empty()
                } else {
                    "  (missing)"@
                },
        ));
        k = k + 1;
    }
    assert(info.linked@.take(info.linked.len() as int) =~= info.linked@);
    let ghost c = str_views(out@);
    out.push(String::new());
    out.push(String::from_str("Import them with: dpl valet import"));
    assert(str_views(out@) =~= c + seq![Seq::<char>::empty(), "Import them with: dpl valet import"@]);
    assert(str_views(out@) =~= valet_report(*info));
    out
}

} // verus!
