//! Local-dev configuration: which folders are parked, which projects are
//! linked, per-site overrides, TLDs, and tags. The file format (TOML at
//! `~/.dpl/config.toml`) is read and written at the application edge; this
//! module holds the model and the rules that read it.

use vstd::prelude::*;

use crate::text::{
    eq_ignore_ascii_case, eq_ignore_case, from_chars, insert_sorted, is_whitespace, is_ws,
    to_lowercase, sorted_unique, str_views, strings_of, to_chars, to_lower, trim, trim_str, views,
    copy_string, copy_strings, str_eq,
};

verus! {

/// The default TLD local sites answer on when none is configured.
pub const SITE_TLD: &'static str = "test";

/// Workers per php-fpm pool when the config says nothing.
pub const DEFAULT_FPM_MAX_CHILDREN: u32 = 40;

/// TLDs the operating system already resolves to loopback (RFC 6761): only
/// `localhost`, in any ASCII case.
pub open spec fn native_tld(tld: Seq<char>) -> bool {
    eq_ignore_ascii_case(tld, "localhost"@)
}

/// Whether `tld` is resolved to loopback by the OS itself, so it needs no
/// resolver entry.
pub fn is_native_tld(tld: &str) -> (r: bool)
    ensures
        r == native_tld(tld@),
{
    let t = to_chars(tld);
    let l = to_chars("localhost");
    eq_ignore_case(&t, &l)
}

// ------------------------------------------------------------------- tags

/// Whitespace and `_` fold to `-`.
pub open spec fn fold_char(c: char) -> char {
    if is_ws(c) || c == '_' {
        '-'
    } else {
        c
    }
}

/// Runs of `-` collapse to one, and no `-` leads: `acc` is the output so far,
/// `last_dash` whether the previous input character was a `-`.
pub open spec fn collapse_acc(cs: Seq<char>, acc: Seq<char>, last_dash: bool) -> Seq<char>
    decreases cs.len(),
{
    if cs.len() == 0 {
        acc
    } else if cs[0] == '-' {
        collapse_acc(
            cs.drop_first(),
            if !last_dash && acc.len() > 0 {
                acc.push('-')
            } else {
                acc
            },
            true,
        )
    } else {
        collapse_acc(cs.drop_first(), acc.push(cs[0]), false)
    }
}

/// `s` without trailing `-` characters.
pub open spec fn trim_dashes_end(s: Seq<char>) -> Seq<char>
    decreases s.len(),
{
    if s.len() > 0 && s.last() == '-' {
        trim_dashes_end(s.drop_last())
    } else {
        s
    }
}

/// One tag, normalised: trimmed, lowercased, whitespace and `_` folded to
/// `-`, runs of `-` collapsed, leading and trailing `-` dropped.
pub open spec fn norm_tag(t: Seq<char>) -> Seq<char> {
    trim_dashes_end(
        collapse_acc(to_lowercase(trim(t)).map_values(|c: char| fold_char(c)), Seq::empty(), false),
    )
}

/// The normalised form of one tag.
pub fn normalize_tag(t: &str) -> (r: Vec<char>)
    ensures
        r@ == norm_tag(t@),
{
    let trimmed = trim_str(t);
    let lower = to_lower(trimmed.as_str());
    let cs = to_chars(lower.as_str());
    let ghost folded = cs@.map_values(|c: char| fold_char(c));
    let mut out: Vec<char> = Vec::new();
    let mut last_dash = false;
    let mut i: usize = 0;
    assert(folded.skip(0) =~= folded);
    while i < cs.len()
        invariant
            i <= cs.len(),
            folded == cs@.map_values(|c: char| fold_char(c)),
            collapse_acc(folded, Seq::empty(), false) == collapse_acc(
                folded.skip(i as int),
                out@,
                last_dash,
            ),
        decreases cs.len() - i,
    {
        let c0 = cs[i];
        let c = if is_whitespace(c0) || c0 == '_' { '-' } else { c0 };
        proof {
            assert(folded.skip(i as int)[0] == c);
            assert(folded.skip(i as int).drop_first() =~= folded.skip(i + 1));
        }
        if c == '-' {
            if !last_dash && out.len() > 0 {
                out.push('-');
            }
            last_dash = true;
        } else {
            out.push(c);
            last_dash = false;
        }
        i = i + 1;
    }
    assert(folded.skip(i as int).len() == 0);
    let mut n = out.len();
    assert(out@.take(n as int) =~= out@);
    while n > 0 && out[n - 1] == '-'
        invariant
            n <= out.len(),
            trim_dashes_end(out@) == trim_dashes_end(out@.take(n as int)),
        decreases n,
    {
        proof {
            assert(out@.take(n as int).drop_last() =~= out@.take(n - 1));
        }
        n = n - 1;
    }
    let mut r: Vec<char> = Vec::new();
    let mut k: usize = 0;
    while k < n
        invariant
            k <= n <= out.len(),
            r@ == out@.take(k as int),
        decreases n - k,
    {
        r.push(out[k]);
        k = k + 1;
        assert(out@.take(k as int) =~= out@.take(k - 1).push(out@[k - 1]));
    }
    proof {
        let t = out@.take(n as int);
        assert(r@ =~= t);
        assert(t.len() == 0 || t.last() != '-');
    }
    r
}

/// A character a normalised ASCII tag may hold: ASCII, already lowercase,
/// neither whitespace nor `_`.
pub open spec fn tag_char(c: char) -> bool {
    !is_ws(c) && c != '_' && (c as u32) <= 0x7f && crate::text::ascii_lower_char(c) == c
}

/// No two `-` in a row.
pub open spec fn no_double_dash(s: Seq<char>) -> bool {
    forall|k: int| 0 <= k < s.len() - 1 ==> !(#[trigger] s[k] == '-' && s[k + 1] == '-')
}

/// The shape of a normalised tag: tag characters only, no `-` at either
/// end, no `--`.
pub open spec fn tag_shaped(s: Seq<char>) -> bool {
    &&& forall|k: int| 0 <= k < s.len() ==> tag_char(#[trigger] s[k])
    &&& s.len() > 0 ==> s[0] != '-' && s.last() != '-'
    &&& no_double_dash(s)
}

proof fn lemma_collapse_shape(cs: Seq<char>, acc: Seq<char>, ld: bool)
    requires
        forall|k: int| 0 <= k < cs.len() ==> tag_char(#[trigger] cs[k]),
        forall|k: int| 0 <= k < acc.len() ==> tag_char(#[trigger] acc[k]),
        acc.len() > 0 ==> acc[0] != '-',
        no_double_dash(acc),
        acc.len() > 0 ==> ((acc.last() == '-') == ld),
    ensures
        forall|k: int| 0 <= k < collapse_acc(cs, acc, ld).len() ==> tag_char(#[trigger] collapse_acc(cs, acc, ld)[k]),
        collapse_acc(cs, acc, ld).len() > 0 ==> collapse_acc(cs, acc, ld)[0] != '-',
        no_double_dash(collapse_acc(cs, acc, ld)),
    decreases cs.len(),
{
    if cs.len() > 0 {
        assert forall|k: int| 0 <= k < cs.drop_first().len() implies tag_char(#[trigger] cs.drop_first()[k]) by {
            assert(cs.drop_first()[k] == cs[k + 1]);
        }
        assert(tag_char(cs[0]));
        if cs[0] == '-' {
            let a2 = if !ld && acc.len() > 0 {
                acc.push('-')
            } else {
                acc
            };
            assert(tag_char('-')) by {
                assert(('-' as u32) == 0x2d);
            }
            assert forall|k: int| 0 <= k < a2.len() - 1 implies !(#[trigger] a2[k] == '-' && a2[k + 1] == '-') by {
                if k + 1 < acc.len() {
                    assert(a2[k] == acc[k] && a2[k + 1] == acc[k + 1]);
                }
            }
            lemma_collapse_shape(cs.drop_first(), a2, true);
        } else {
            let a2 = acc.push(cs[0]);
            assert forall|k: int| 0 <= k < a2.len() - 1 implies !(#[trigger] a2[k] == '-' && a2[k + 1] == '-') by {
                if k + 1 < acc.len() {
                    assert(a2[k] == acc[k] && a2[k + 1] == acc[k + 1]);
                }
            }
            lemma_collapse_shape(cs.drop_first(), a2, false);
        }
    }
}

proof fn lemma_trim_dashes_prefix(s: Seq<char>)
    ensures
        trim_dashes_end(s) == s.take(trim_dashes_end(s).len() as int),
        trim_dashes_end(s).len() <= s.len(),
        trim_dashes_end(s).len() > 0 ==> trim_dashes_end(s).last() != '-',
    decreases s.len(),
{
    if s.len() > 0 && s.last() == '-' {
        lemma_trim_dashes_prefix(s.drop_last());
        assert(s.drop_last().take(trim_dashes_end(s).len() as int) =~= s.take(trim_dashes_end(s).len() as int));
    } else {
        assert(s.take(s.len() as int) =~= s);
    }
}

proof fn lemma_collapse_keeps(x: Seq<char>, i: int)
    requires
        tag_shaped(x),
        0 <= i <= x.len(),
    ensures
        collapse_acc(x.skip(i), x.take(i), i > 0 && x[i - 1] == '-') == x,
    decreases x.len() - i,
{
    if i == x.len() {
        assert(x.take(i) =~= x);
    } else {
        let rest = x.skip(i);
        assert(rest[0] == x[i]);
        assert(rest.drop_first() =~= x.skip(i + 1));
        assert(x.take(i).push(x[i]) =~= x.take(i + 1));
        if x[i] == '-' {
            assert(i > 0);
            assert(x[i - 1] != '-');
            assert(x.take(i).len() > 0);
        }
        lemma_collapse_keeps(x, i + 1);
    }
}

/// A normalised tag of ASCII text is shaped and lowercase, and normalising
/// it again changes nothing.
pub proof fn lemma_norm_tag_settled(t: Seq<char>)
    requires
        crate::text::all_ascii(trim(t)),
    ensures
        tag_shaped(norm_tag(t)),
        crate::text::ascii_lower(norm_tag(t)) == norm_tag(t),
        norm_tag(norm_tag(t)) == norm_tag(t),
{
    let tt = trim(t);
    crate::text::lemma_ascii_lower_props(tt);
    let l = to_lowercase(tt);
    assert(l == crate::text::ascii_lower(tt));
    let f = l.map_values(|c: char| fold_char(c));
    assert forall|k: int| 0 <= k < f.len() implies tag_char(#[trigger] f[k]) by {
        assert(crate::text::ascii_lower(l)[k] == l[k]);
        assert((l[k] as u32) <= 0x7f);
        assert(('-' as u32) == 0x2d);
    }
    lemma_collapse_shape(f, Seq::empty(), false);
    let c = collapse_acc(f, Seq::empty(), false);
    lemma_trim_dashes_prefix(c);
    let x = norm_tag(t);
    assert(x == trim_dashes_end(c));
    assert(forall|k: int| 0 <= k < x.len() ==> x[k] == c[k]);
    assert(tag_shaped(x)) by {
        assert forall|k: int| 0 <= k < x.len() implies tag_char(#[trigger] x[k]) by {
            assert(x[k] == c[k]);
        }
        assert forall|k: int| 0 <= k < x.len() - 1 implies !(#[trigger] x[k] == '-' && x[k + 1] == '-') by {
            assert(x[k] == c[k] && x[k + 1] == c[k + 1]);
        }
    }
    assert(crate::text::ascii_lower(x) =~= x);
    // Normalising `x` again.
    assert(x.len() > 0 ==> !is_ws(x[0]) && !is_ws(x.last()));
    crate::text::lemma_trim_settled(x);
    assert(crate::text::all_ascii(x));
    assert(to_lowercase(trim(x)) == x);
    assert(x.map_values(|c: char| fold_char(c)) =~= x);
    assert(x.skip(0) =~= x);
    assert(x.take(0) =~= Seq::<char>::empty());
    lemma_collapse_keeps(x, 0);
    lemma_trim_dashes_prefix(x);
}

/// Normalised ASCII tags are shaped, and normalising them again gives the
/// same set: `r` holding the non-empty normalised forms of `tags` holds the
/// non-empty normalised forms of its own elements, and nothing else.
pub proof fn lemma_tags_settled(tags: Seq<Seq<char>>, r: Seq<Seq<char>>)
    requires
        forall|i: int| 0 <= i < tags.len() ==> crate::text::all_ascii(trim(#[trigger] tags[i])),
        forall|s: Seq<char>|
            #[trigger] r.contains(s) <==> (s.len() > 0 && exists|i: int| 0 <= i < tags.len() && norm_tag(#[trigger] tags[i]) == s),
    ensures
        forall|s: Seq<char>| #[trigger] r.contains(s) ==> s.len() > 0 && tag_shaped(s) && crate::text::ascii_lower(s) == s,
        forall|s: Seq<char>|
            #[trigger] r.contains(s) <==> (s.len() > 0 && exists|i: int| 0 <= i < r.len() && norm_tag(#[trigger] r[i]) == s),
{
    assert forall|s: Seq<char>| #[trigger] r.contains(s) implies s.len() > 0 && tag_shaped(s) && crate::text::ascii_lower(s) == s
        && norm_tag(s) == s by {
        let i = choose|i: int| 0 <= i < tags.len() && norm_tag(#[trigger] tags[i]) == s;
        lemma_norm_tag_settled(tags[i]);
    }
    assert forall|s: Seq<char>| #[trigger] r.contains(s) <==> (s.len() > 0 && exists|i: int|
        0 <= i < r.len() && norm_tag(#[trigger] r[i]) == s) by {
        if r.contains(s) {
            let i = choose|i: int| 0 <= i < r.len() && r[i] == s;
            assert(norm_tag(r[i]) == s);
        }
        if s.len() > 0 && exists|i: int| 0 <= i < r.len() && norm_tag(#[trigger] r[i]) == s {
            let i = choose|i: int| 0 <= i < r.len() && norm_tag(#[trigger] r[i]) == s;
            assert(r.contains(r[i]));
            assert(norm_tag(r[i]) == r[i]);
        }
    }
}

/// The set of normalised, non-empty tags of `tags`.
pub open spec fn tag_set_has(tags: Seq<&str>, s: Seq<char>) -> bool {
    s.len() > 0 && exists|i: int| 0 <= i < tags.len() && norm_tag(#[trigger] tags[i]@) == s
}

/// Clean up user-supplied tags: lowercased, trimmed, spaces and underscores
/// folded to `-`, empties dropped, deduped, sorted.
///
/// The result is strictly increasing in `String` order and holds exactly the
/// non-empty normalised forms of the inputs.
pub fn normalize_tags(tags: &[&str]) -> (r: Vec<String>)
    ensures
        sorted_unique(str_views(r@)),
        forall|s: Seq<char>| #[trigger] str_views(r@).contains(s) <==> tag_set_has(tags@, s),
{
    let mut acc: Vec<Vec<char>> = Vec::new();
    let mut i: usize = 0;
    while i < tags.len()
        invariant
            i <= tags.len(),
            sorted_unique(views(acc@)),
            forall|s: Seq<char>|
                #[trigger] views(acc@).contains(s) <==> (s.len() > 0 && exists|k: int|
                    0 <= k < i && norm_tag(#[trigger] tags@[k]@) == s),
        decreases tags.len() - i,
    {
        let t = normalize_tag(tags[i]);
        let ghost before = views(acc@);
        if t.len() > 0 {
            insert_sorted(&mut acc, t);
        }
        proof {
            assert forall|s: Seq<char>| #[trigger] views(acc@).contains(s) <==> (s.len() > 0
                && exists|k: int| 0 <= k < i + 1 && norm_tag(#[trigger] tags@[k]@) == s) by {
                if s.len() > 0 && exists|k: int| 0 <= k < i + 1 && norm_tag(#[trigger] tags@[k]@)
                    == s {
                    let k = choose|k: int| 0 <= k < i + 1 && norm_tag(#[trigger] tags@[k]@) == s;
                    if k < i {
                        assert(before.contains(s));
                    }
                }
                if views(acc@).contains(s) && !before.contains(s) {
                    assert(norm_tag(tags@[i as int]@) == s);
                }
            }
        }
        i = i + 1;
    }
    let r = strings_of(&acc);
    proof {
        assert forall|s: Seq<char>| #[trigger] str_views(r@).contains(s) <==> tag_set_has(tags@, s) by {
        }
    }
    r
}


// ------------------------------------------------------------------ config

/// A single linked project.
#[derive(Debug, Clone)]
pub struct Link {
    /// Absolute path to the project root.
    pub path: String,
    /// Pinned PHP version for this site, if any (overrides `default_php`).
    pub php: Option<String>,
    /// Whether this site is served over HTTPS.
    pub secure: bool,
    /// Application-server runtime: `None`/`"fpm"` is php-fpm, else a Laravel
    /// Octane server (`"octane-swoole"`, `"octane-roadrunner"`,
    /// `"octane-frankenphp"`).
    pub runtime: Option<String>,
    /// Whether the daemon reloads Octane workers when PHP sources change;
    /// `None` is the default, on.
    pub watch: Option<bool>,
    /// package.json script run as this site's dev server; `None` is off.
    pub dev: Option<String>,
    /// Xdebug mode for this site (overrides `default_xdebug`).
    pub xdebug: Option<String>,
    /// Whether the SPX profiler is on for this site.
    pub profile: bool,
    /// Opcache preload script, relative to the project root.
    pub preload: Option<String>,
    /// Base database name for branch-aware databases.
    pub database: Option<String>,
    /// Which branch's data currently occupies `database`.
    pub db_branch: Option<String>,
    /// Postgres port of the branch databases, when not 5432.
    pub db_port: Option<u16>,
}

/// The local configuration: what the daemon serves. Maps are kept as lists of
/// `(key, value)` pairs in key order, as the file stores them.
#[derive(Debug, Clone)]
pub struct LocalConfig {
    /// TLDs sites answer on. The first is primary and builds a site's
    /// canonical URL; empty means the built-in default, `test`.
    pub tlds: Vec<String>,
    /// Folders whose immediate subdirectories each become a site.
    pub parked: Vec<String>,
    /// Explicitly linked projects, by site name.
    pub links: Vec<(String, Link)>,
    /// Reverse proxies: site name and target base URL.
    pub proxies: Vec<(String, String)>,
    /// Default PHP version for sites with no override.
    pub default_php: Option<String>,
    /// How names resolve: `"resolver"` (default) or `"hosts"`.
    pub resolution: Option<String>,
    /// Xdebug mode for sites with no override; `None` means `off`.
    pub default_xdebug: Option<String>,
    /// IDE-side Xdebug connection settings, shared by every site.
    pub xdebug: crate::xdebug::Settings,
    /// Free-form labels per site name.
    pub tags: Vec<(String, Vec<String>)>,
    /// Ceiling on worker processes per php-fpm pool; `None` means
    /// [`DEFAULT_FPM_MAX_CHILDREN`].
    pub fpm_max_children: Option<u32>,
}

/// The tags of `current` that `dpl tags rm` keeps: those that are not the
/// normalised form of a tag it was given, in their order.
pub open spec fn kept_tags(current: Seq<Seq<char>>, drop: Seq<&str>) -> Seq<Seq<char>>
    decreases current.len(),
{
    if current.len() == 0 {
        Seq::empty()
    } else {
        let rest = kept_tags(current.drop_last(), drop);
        if tag_set_has(drop, current.last()) {
            rest
        } else {
            rest.push(current.last())
        }
    }
}

/// The tags `dpl tags rm` leaves on a site (see [`kept_tags`]): the given
/// tags are normalised before they are compared.
pub fn remove_tags(current: &[String], drop: &[&str]) -> (r: Vec<String>)
    ensures
        str_views(r@) == kept_tags(str_views(current@), drop@),
{
    let gone = normalize_tags(drop);
    let ghost cv = str_views(current@);
    let mut out: Vec<String> = Vec::new();
    let mut i: usize = 0;
    while i < current.len()
        invariant
            i <= current@.len(),
            cv == str_views(current@),
            forall|s: Seq<char>| #[trigger] str_views(gone@).contains(s) <==> tag_set_has(drop@, s),
            str_views(out@) == kept_tags(cv.take(i as int), drop@),
        decreases current@.len() - i,
    {
        assert(cv.take(i + 1).drop_last() =~= cv.take(i as int));
        assert(cv.take(i + 1).last() == current@[i as int]@);
        let mut found = false;
        let mut k: usize = 0;
        while k < gone.len()
            invariant
                k <= gone@.len(),
                i < current@.len(),
                found == exists|j: int| 0 <= j < k && (#[trigger] gone@[j])@ == current@[i as int]@,
            decreases gone@.len() - k,
        {
            if str_eq(gone[k].as_str(), current[i].as_str()) {
                found = true;
            }
            k = k + 1;
        }
        assert(found == str_views(gone@).contains(current@[i as int]@)) by {
            if found {
                let j = choose|j: int| 0 <= j < gone@.len() && (#[trigger] gone@[j])@ == current@[i as int]@;
                assert(str_views(gone@)[j] == current@[i as int]@);
            }
            if str_views(gone@).contains(current@[i as int]@) {
                let j = choose|j: int| 0 <= j < gone@.len() && str_views(gone@)[j] == current@[i as int]@;
                assert(gone@[j]@ == current@[i as int]@);
            }
        }
        if !found {
            let ghost o0 = str_views(out@);
            out.push(copy_string(&current[i]));
            assert(str_views(out@) =~= o0.push(current@[i as int]@));
        }
        i = i + 1;
    }
    assert(cv.take(current@.len() as int) =~= cv);
    out
}

/// Keys strictly increase, as a map keeps them: each key once, in order.
pub open spec fn keys_increase<V>(m: Seq<(String, V)>) -> bool {
    forall|i: int, j: int| 0 <= i < j < m.len() ==> crate::text::lex_lt(#[trigger] m[i].0@, #[trigger] m[j].0@)
}

/// The configuration's maps (links, proxies, tags) hold their keys in
/// increasing order, each once, as the file stores them.
pub open spec fn maps_ordered(c: LocalConfig) -> bool {
    keys_increase(c.links@) && keys_increase(c.proxies@) && keys_increase(c.tags@)
}

/// The TLDs a configuration serves: its own list, or `test` when it has none.
pub open spec fn config_tlds(tlds: Seq<Seq<char>>) -> Seq<Seq<char>> {
    if tlds.len() == 0 {
        seq![SITE_TLD@]
    } else {
        tlds
    }
}

/// The primary TLD: the first configured, or `test`.
pub open spec fn config_primary_tld(tlds: Seq<Seq<char>>) -> Seq<char> {
    if tlds.len() == 0 {
        SITE_TLD@
    } else {
        tlds[0]
    }
}

/// Workers per pool: the configured ceiling or the default, at least 1.
pub open spec fn workers_per_pool(configured: Option<u32>) -> u32 {
    let n = match configured {
        Some(n) => n,
        None => DEFAULT_FPM_MAX_CHILDREN,
    };
    if n < 1 {
        1
    } else {
        n
    }
}

impl LocalConfig {
    /// Workers allowed per php-fpm pool, at least 1: a pool with no workers
    /// accepts connections and never answers them.
    pub fn fpm_max_children(&self) -> (r: u32)
        ensures
            r == workers_per_pool(self.fpm_max_children),
    {
        let n = match self.fpm_max_children {
            Some(n) => n,
            None => DEFAULT_FPM_MAX_CHILDREN,
        };
        if n < 1 {
            1
        } else {
            n
        }
    }

    /// Configured TLDs, falling back to the built-in default.
    pub fn tlds(&self) -> (r: Vec<String>)
        ensures
            str_views(r@) == config_tlds(str_views(self.tlds@)),
    {
        if self.tlds.len() == 0 {
            let mut v: Vec<String> = Vec::new();
            v.push(String::from_str(SITE_TLD));
            assert(str_views(v@) =~= seq![SITE_TLD@]);
            v
        } else {
            copy_strings(&self.tlds)
        }
    }

    /// The primary TLD used to build canonical site URLs.
    pub fn primary_tld(&self) -> (r: String)
        ensures
            r@ == config_primary_tld(str_views(self.tlds@)),
    {
        if self.tlds.len() == 0 {
            String::from_str(SITE_TLD)
        } else {
            copy_string(&self.tlds[0])
        }
    }

    /// True when names resolve via `/etc/hosts` entries rather than a local
    /// DNS resolver.
    pub fn uses_hosts(&self) -> (r: bool)
        ensures
            r == (self.resolution matches Some(s) && s@ == "hosts"@),
    {
        match &self.resolution {
            Some(s) => str_eq(s.as_str(), "hosts"),
            None => false,
        }
    }
}

/// The primary TLD is always the first of the TLDs served.
pub proof fn lemma_primary_tld_is_first(tlds: Seq<Seq<char>>)
    ensures
        config_tlds(tlds).len() > 0,
        config_tlds(tlds)[0] == config_primary_tld(tlds),
{
}

/// A user-created database or cache instance: an engine version on its own
/// port with an isolated data directory.
#[derive(Debug, Clone)]
pub struct ServiceInstance {
    /// Unique instance name (also the data-dir folder).
    pub name: String,
    /// Engine: `postgres` | `mysql` | `mariadb` | `redis`.
    pub engine: String,
    /// Version label (e.g. `17.0`).
    pub version: String,
    /// Loopback port this instance listens on.
    pub port: u16,
}

/// The service-instance registry.
#[derive(Debug, Clone)]
pub struct ServicesConfig {
    pub instances: Vec<ServiceInstance>,
}
} // verus!
