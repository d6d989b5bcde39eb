//! Xdebug: which modes exist, the canonical form of a mode list, and the ini
//! that loads the extension into dpl's own php-fpm masters.
//!
//! `xdebug.mode` is read once, at process start, so per-site Xdebug means one
//! php-fpm master per (PHP binary, mode). The daemon keys masters by the
//! canonical [`Mode`] string, which is why two spellings of one mode list must
//! parse to the same value.

use vstd::prelude::*;

use crate::error::CoreError;
use crate::text::{
    all_ascii, ascii_lower, ascii_lower_char, chars_eq, dec, dec_string, from_chars, insert_sorted, is_ws,
    join, join_chars, lemma_sorted_unique_eq, lemma_split_join, to_lowercase, push_str,
    sorted_unique, split_char, split_on, to_chars, to_lower, trim, trim_chars, trim_end,
    trim_start, views, contains_seq, find, find_chars, has_prefix, has_suffix, lemma_find_from, lines,
    lines_of, slice_chars, starts_with_chars, str_contains, str_ends_with, str_starts_with, str_views,
    strings_of, trim_end_any, trim_end_any_chars, trim_start_any, trim_start_any_chars,
};
use crate::sites::opt_view;

verus! {

/// Every mode Xdebug accepts, in the order error messages list them.
pub open spec fn mode_names() -> Seq<Seq<char>> {
    seq!["off"@, "develop"@, "coverage"@, "debug"@, "gcstats"@, "profile"@, "trace"@]
}

/// The non-empty entries of `ps`, in order.
pub open spec fn keep_nonempty(ps: Seq<Seq<char>>) -> Seq<Seq<char>>
    decreases ps.len(),
{
    if ps.len() == 0 {
        Seq::empty()
    } else if ps[0].len() == 0 {
        keep_nonempty(ps.drop_first())
    } else {
        seq![ps[0]] + keep_nonempty(ps.drop_first())
    }
}

/// The trimmed, lowercased, non-empty comma-separated parts of `raw`.
pub open spec fn raw_parts(raw: Seq<char>) -> Seq<Seq<char>> {
    keep_nonempty(split_on(raw, ',').map_values(|p: Seq<char>| to_lowercase(trim(p))))
}

/// The first part that is not a mode name.
pub open spec fn first_unknown(ps: Seq<Seq<char>>) -> Option<Seq<char>>
    decreases ps.len(),
{
    if ps.len() == 0 {
        None
    } else if !mode_names().contains(ps[0]) {
        Some(ps[0])
    } else {
        first_unknown(ps.drop_first())
    }
}

/// `l` and `ps` hold the same elements.
pub open spec fn same_elems(l: Seq<Seq<char>>, ps: Seq<Seq<char>>) -> bool {
    forall|s: Seq<char>| #[trigger] l.contains(s) <==> ps.contains(s)
}

/// The sorted, duplicate-free list of the elements of `ps`.
pub open spec fn canon(ps: Seq<Seq<char>>) -> Seq<Seq<char>> {
    choose|l: Seq<Seq<char>>| sorted_unique(l) && same_elems(l, ps)
}

/// The message for an unknown mode.
pub open spec fn unknown_mode_message(bad: Seq<char>) -> Seq<char> {
    "unknown Xdebug mode `"@ + bad + "` (valid: off, develop, coverage, debug, gcstats, profile, trace)"@
}

/// The message for `off` combined with other modes.
pub open spec fn combined_off_message() -> Seq<char> {
    "`off` cannot be combined with other Xdebug modes"@
}

/// What parsing `raw` gives: the canonical mode string, or the error message.
/// An empty list is `off`; an unknown part is rejected by name; `off` must
/// stand alone; anything else is the sorted, de-duplicated parts joined by `,`.
pub open spec fn parse_outcome(raw: Seq<char>) -> Result<Seq<char>, Seq<char>> {
    let ps = raw_parts(raw);
    if ps.len() == 0 {
        Ok("off"@)
    } else if first_unknown(ps) is Some {
        Err(unknown_mode_message(first_unknown(ps)->0))
    } else if ps.contains("off"@) {
        if exists|i: int| 0 <= i < ps.len() && ps[i] != "off"@ {
            Err(combined_off_message())
        } else {
            Ok("off"@)
        }
    } else {
        Ok(join(canon(ps), seq![',']))
    }
}

/// A validated, canonical `xdebug.mode` value: sorted and de-duplicated, so
/// `debug,develop` and `develop,debug` are the same mode.
#[derive(Debug)]
pub struct Mode(String);

impl View for Mode {
    type V = Seq<char>;

    closed spec fn view(&self) -> Seq<char> {
        self.0@
    }
}

impl PartialEq for Mode {
    fn eq(&self, other: &Self) -> (r: bool) {
        crate::text::str_eq(self.0.as_str(), other.0.as_str())
    }
}

impl vstd::std_specs::cmp::PartialEqSpecImpl for Mode {
    open spec fn obeys_eq_spec() -> bool {
        true
    }

    open spec fn eq_spec(&self, other: &Mode) -> bool {
        self@ == other@
    }
}

impl Eq for Mode {

}

impl Default for Mode {
    fn default() -> (r: Mode)
        ensures
            r@ == "off"@,
    {
        Mode::off()
    }
}

/// Whether `p` is one of the mode names.
fn is_mode_name(p: &[char]) -> (r: bool)
    ensures
        r == mode_names().contains(p@),
{
    let names = ["off", "develop", "coverage", "debug", "gcstats", "profile", "trace"];
    let mut i: usize = 0;
    while i < 7
        invariant
            i <= 7,
            forall|k: int| 0 <= k < i ==> mode_names()[k] != p@,
            names@ =~= seq!["off", "develop", "coverage", "debug", "gcstats", "profile", "trace"],
        decreases 7 - i,
    {
        let n = to_chars(names[i]);
        if chars_eq(&n, p) {
            assert(mode_names()[i as int] == p@);
            return true;
        }
        i = i + 1;
    }
    false
}

impl Mode {
    /// Xdebug loaded but doing nothing.
    pub fn off() -> (r: Mode)
        ensures
            r@ == "off"@,
    {
        Mode(String::from_str("off"))
    }

    /// Parse a comma-separated mode list. An empty string means `off`.
    pub fn parse(raw: &str) -> (r: Result<Mode, CoreError>)
        ensures
            r matches Ok(m) ==> parse_outcome(raw@) == Ok::<Seq<char>, Seq<char>>(m@),
            r matches Err(e) ==> exists|msg: String|
                e == CoreError::Message(msg) && parse_outcome(raw@) == Err::<Seq<char>, Seq<char>>(
                    msg@,
                ),
    {
        let cs = to_chars(raw);
        let pieces = split_char(&cs, ',');
        let ghost mapped = split_on(raw@, ',').map_values(|p: Seq<char>| to_lowercase(trim(p)));
        let mut ps: Vec<Vec<char>> = Vec::new();
        let mut i: usize = 0;
        assert(mapped.skip(0) =~= mapped);
        assert(views(ps@) + keep_nonempty(mapped) =~= keep_nonempty(mapped));
        while i < pieces.len()
            invariant
                i <= pieces.len(),
                cs@ == raw@,
                pieces@.len() == split_on(cs@, ',').len(),
                forall|k: int| 0 <= k < pieces@.len() ==> (#[trigger] pieces@[k])@ == split_on(cs@, ',')[k],
                mapped == split_on(raw@, ',').map_values(|p: Seq<char>| to_lowercase(trim(p))),
                keep_nonempty(mapped) == views(ps@) + keep_nonempty(mapped.skip(i as int)),
            decreases pieces.len() - i,
        {
            let t = trim_chars(&pieces[i]);
            let ts = from_chars(&t);
            let l = to_lower(ts.as_str());
            let lc = to_chars(l.as_str());
            let ghost before = views(ps@);
            proof {
                let m = mapped.skip(i as int);
                assert(m[0] == lc@);
                assert(m.drop_first() =~= mapped.skip(i + 1));
            }
            if lc.len() > 0 {
                ps.push(lc);
                assert(views(ps@) =~= before.push(mapped[i as int]));
                assert(before + (seq![mapped[i as int]] + keep_nonempty(mapped.skip(i + 1)))
                    =~= before.push(mapped[i as int]) + keep_nonempty(mapped.skip(i + 1)));
            } else {
                assert(views(ps@) =~= before);
            }
            i = i + 1;
        }
        proof {
            assert(mapped.skip(i as int).len() == 0);
            assert(views(ps@) + Seq::<Seq<char>>::empty() =~= views(ps@));
        }
        let ghost parts = views(ps@);
        assert(parts == raw_parts(raw@));
        if ps.len() == 0 {
            return Ok(Mode::off());
        }
        // Reject the first unknown part, by name.
        let mut k: usize = 0;
        assert(parts.skip(0) =~= parts);
        while k < ps.len()
            invariant
                k <= ps.len(),
                parts == views(ps@),
                parts == raw_parts(raw@),
                first_unknown(parts) == first_unknown(parts.skip(k as int)),
                forall|j: int| 0 <= j < k ==> mode_names().contains(#[trigger] parts[j]),
            decreases ps.len() - k,
        {
            proof {
                assert(parts.skip(k as int)[0] == parts[k as int]);
                assert(parts.skip(k as int).drop_first() =~= parts.skip(k + 1));
            }
            if !is_mode_name(&ps[k]) {
                let mut msg = String::from_str("unknown Xdebug mode `");
                push_str(&mut msg, from_chars(&ps[k]).as_str());
                push_str(
                    &mut msg,
                    "` (valid: off, develop, coverage, debug, gcstats, profile, trace)",
                );
                proof {
                    assert(ps@[k as int]@ == parts[k as int]);
                    assert(first_unknown(parts.skip(k as int)) == Some(parts[k as int]));
                    assert(msg@ == unknown_mode_message(parts[k as int]));
                    assert(first_unknown(parts) == Some(parts[k as int]));
                    assert(parts.len() > 0);
                    assert(raw_parts(raw@) == parts);
                    assert(parse_outcome(raw@) == Err::<Seq<char>, Seq<char>>(msg@));
                }
                return Err(CoreError::Message(msg));
            }
            k = k + 1;
        }
        assert(first_unknown(parts.skip(k as int)) is None);
        // Sort and de-duplicate.
        let mut l: Vec<Vec<char>> = Vec::new();
        let mut j: usize = 0;
        while j < ps.len()
            invariant
                j <= ps.len(),
                parts == views(ps@),
                parts == raw_parts(raw@),
                sorted_unique(views(l@)),
                forall|s: Seq<char>|
                    #[trigger] views(l@).contains(s) <==> exists|q: int| 0 <= q < j && parts[q] == s,
            decreases ps.len() - j,
        {
            let ghost before = views(l@);
            let x = from_chars(&ps[j]);
            let xc = to_chars(x.as_str());
            assert(xc@ == parts[j as int]);
            insert_sorted(&mut l, xc);
            proof {
                assert forall|s: Seq<char>| #[trigger] views(l@).contains(s) <==> exists|q: int|
                    0 <= q < j + 1 && parts[q] == s by {
                    if exists|q: int| 0 <= q < j + 1 && parts[q] == s {
                        let q = choose|q: int| 0 <= q < j + 1 && parts[q] == s;
                        if q < j {
                            assert(before.contains(s));
                        }
                    }
                    if views(l@).contains(s) {
                        if before.contains(s) {
                            let q = choose|q: int| 0 <= q < j && parts[q] == s;
                            assert(0 <= q < j + 1 && parts[q] == s);
                        } else {
                            assert(parts[j as int] == s);
                        }
                    }
                }
            }
            j = j + 1;
        }
        proof {
            assert(same_elems(views(l@), parts)) by {
                assert forall|s: Seq<char>| #[trigger] views(l@).contains(s) <==> parts.contains(s) by {
                    if parts.contains(s) {
                        let q = choose|q: int| 0 <= q < parts.len() && parts[q] == s;
                    }
                }
            }
            let c = canon(parts);
            assert(sorted_unique(c) && same_elems(c, parts));
            lemma_sorted_unique_eq(views(l@), c);
        }
        let off = to_chars("off");
        let mut has_off = false;
        let mut q: usize = 0;
        while q < l.len()
            invariant
                q <= l.len(),
                has_off == exists|z: int| 0 <= z < q && views(l@)[z] == off@,
            decreases l.len() - q,
        {
            assert(views(l@)[q as int] == l@[q as int]@);
            if chars_eq(&l[q], &off) {
                has_off = true;
            }
            q = q + 1;
        }
        if has_off {
            proof {
                let z = choose|z: int| 0 <= z < l.len() && views(l@)[z] == off@;
                assert(views(l@).contains("off"@));
                assert(parts.contains("off"@));
            }
            if l.len() > 1 {
                proof {
                    let z = choose|z: int| 0 <= z < l.len() && views(l@)[z] == off@;
                    let other = if z == 0 { 1int } else { 0int };
                    assert(views(l@)[other] != "off"@) by {
                        crate::text::lemma_lex_irrefl(views(l@)[z]);
                    }
                    assert(views(l@).contains(views(l@)[other]));
                    assert(parts.contains(views(l@)[other]));
                }
                return Err(CoreError::Message(String::from_str("`off` cannot be combined with other Xdebug modes")));
            }
            proof {
                assert forall|i: int| 0 <= i < parts.len() implies parts[i] == "off"@ by {
                    assert(views(l@).contains(parts[i]));
                }
            }
            return Ok(Mode::off());
        }
        proof {
            if parts.contains("off"@) {
                assert(views(l@).contains("off"@));
            }
        }
        let comma = ['\u{2c}'];
        let joined = join_chars(&l, &comma);
        assert(comma@ =~= seq![',']);
        Ok(Mode(from_chars(&joined)))
    }

    /// The canonical string, e.g. `"debug,develop"`.
    pub fn as_str(&self) -> (r: &str)
        ensures
            r@ == self@,
    {
        self.0.as_str()
    }

    /// True when Xdebug should do nothing.
    pub fn is_off(&self) -> (r: bool)
        ensures
            r == (self@ == "off"@),
    {
        crate::text::str_eq(self.0.as_str(), "off")
    }

    /// True when this mode includes the whole part `part` (e.g. `"debug"`).
    pub fn has(&self, part: &str) -> (r: bool)
        ensures
            r == split_on(self@, ',').contains(part@),
    {
        let cs = to_chars(self.0.as_str());
        let p = to_chars(part);
        let pieces = split_char(&cs, ',');
        let mut i: usize = 0;
        while i < pieces.len()
            invariant
                i <= pieces.len(),
                cs@ == self@,
                p@ == part@,
                pieces@.len() == split_on(cs@, ',').len(),
                forall|k: int| 0 <= k < pieces@.len() ==> (#[trigger] pieces@[k])@ == split_on(cs@, ',')[k],
                forall|k: int| 0 <= k < i ==> split_on(cs@, ',')[k] != p@,
            decreases pieces.len() - i,
        {
            if chars_eq(&pieces[i], &p) {
                assert(split_on(cs@, ',')[i as int] == p@);
                assert(p@ == part@);
                assert(split_on(cs@, ',') == split_on(self@, ','));
                assert(split_on(self@, ',')[i as int] == part@);
                assert(split_on(self@, ',').contains(part@));
                return true;
            }
            i = i + 1;
        }
        false
    }

    /// A filesystem-safe suffix: the canonical string with `,` turned into `-`.
    pub fn slug(&self) -> (r: String)
        ensures
            r@ == self@.map_values(|c: char| if c == ',' { '-' } else { c }),
    {
        let cs = to_chars(self.0.as_str());
        let mut out: Vec<char> = Vec::new();
        let mut i: usize = 0;
        while i < cs.len()
            invariant
                i <= cs.len(),
                cs@ == self@,
                out@ == self@.take(i as int).map_values(|c: char| if c == ',' { '-' } else { c }),
            decreases cs.len() - i,
        {
            out.push(if cs[i] == ',' { '-' } else { cs[i] });
            i = i + 1;
            assert(self@.take(i as int).map_values(|c: char| if c == ',' { '-' } else { c })
                =~= self@.take(i - 1).map_values(|c: char| if c == ',' { '-' } else { c }).push(
                if cs@[i - 1] == ',' { '-' } else { cs@[i - 1] },
            ));
        }
        assert(self@.take(cs.len() as int) =~= self@);
        from_chars(&out)
    }
}


/// Client-side connection settings, shared by every site (they describe the
/// IDE, not the project).
#[derive(Debug, Clone, PartialEq, Eq)]
pub struct Settings {
    /// Port the IDE listens on for step-debug connections.
    pub client_port: u16,
    /// `xdebug.idekey` — `PHPSTORM`, `VSCODE`, …
    pub ide_key: String,
}

impl Default for Settings {
    fn default() -> (r: Settings)
        ensures
            r.client_port == 9003,
            r.ide_key@ == "PHPSTORM"@,
    {
        Settings { client_port: 9003, ide_key: String::from_str("PHPSTORM") }
    }
}

/// The comment block that opens the loader ini.
pub open spec fn loader_header() -> Seq<char> {
    "; Managed by dpl \u{2014} do not edit. Regenerated on every daemon reconcile.\n;\n; Loaded only by dpl's php-fpm masters, via PHP_INI_SCAN_DIR. Your system\n; php.ini and conf.d are untouched, so the `php` on your PATH is unaffected.\n;\n; The active mode is *not* set here. xdebug.mode can only be read at process\n; start, so the daemon passes it as XDEBUG_MODE on each master's environment\n; and runs one master per (PHP version, mode). See `dpl xdebug`.\n"@
}

/// The loader ini for `so`, the settings and the profiler output directory.
pub open spec fn loader_text(so: Seq<char>, port: u16, ide_key: Seq<char>, output_dir: Seq<char>) -> Seq<char> {
    loader_header() + "zend_extension="@ + so
        + "\nxdebug.mode=off\nxdebug.start_with_request=yes\nxdebug.client_host=127.0.0.1\nxdebug.client_port="@
        + dec(port as nat) + "\nxdebug.idekey="@ + ide_key
        + "\nxdebug.discover_client_host=false\nxdebug.output_dir="@ + output_dir + "\n"@
}

/// Render the dpl-managed ini that loads Xdebug.
///
/// It pins `xdebug.mode=off`: the mode arrives via `XDEBUG_MODE` on each
/// master's environment, and a live mode baked in here would turn Xdebug on
/// for every pool sharing this PHP binary.
pub fn loader_ini(so: &str, settings: &Settings, output_dir: &str) -> (r: String)
    ensures
        r@ == loader_text(so@, settings.client_port, settings.ide_key@, output_dir@),
{
    let mut out = String::from_str(
        "; Managed by dpl \u{2014} do not edit. Regenerated on every daemon reconcile.\n;\n; Loaded only by dpl's php-fpm masters, via PHP_INI_SCAN_DIR. Your system\n; php.ini and conf.d are untouched, so the `php` on your PATH is unaffected.\n;\n; The active mode is *not* set here. xdebug.mode can only be read at process\n; start, so the daemon passes it as XDEBUG_MODE on each master's environment\n; and runs one master per (PHP version, mode). See `dpl xdebug`.\n",
    );
    push_str(&mut out, "zend_extension=");
    push_str(&mut out, so);
    push_str(
        &mut out,
        "\nxdebug.mode=off\nxdebug.start_with_request=yes\nxdebug.client_host=127.0.0.1\nxdebug.client_port=",
    );
    push_str(&mut out, dec_string(settings.client_port as u64).as_str());
    push_str(&mut out, "\nxdebug.idekey=");
    push_str(&mut out, settings.ide_key.as_str());
    push_str(&mut out, "\nxdebug.discover_client_host=false\nxdebug.output_dir=");
    push_str(&mut out, output_dir);
    push_str(&mut out, "\n");
    out
}

/// The `PHP_INI_SCAN_DIR` value that adds `dir` to PHP's default scan path.
/// The leading colon means "the compiled-in directory, then this one";
/// without it PHP scans only `dir`.
pub fn scan_dir_env(dir: &str) -> (r: String)
    ensures
        r@ == seq![':'] + dir@,
{
    let mut out = String::new();
    out.push(':');
    push_str(&mut out, dir);
    out
}

/// `first_unknown` finds nothing exactly when every part is a mode name.
proof fn lemma_first_unknown_none(ps: Seq<Seq<char>>)
    ensures
        first_unknown(ps) is None <==> forall|i: int| 0 <= i < ps.len() ==> mode_names().contains(#[trigger] ps[i]),
    decreases ps.len(),
{
    if ps.len() > 0 {
        lemma_first_unknown_none(ps.drop_first());
        if first_unknown(ps) is None {
            assert forall|i: int| 0 <= i < ps.len() implies mode_names().contains(#[trigger] ps[i]) by {
                if i > 0 {
                    assert(ps[i] == ps.drop_first()[i - 1]);
                }
            }
        }
        if forall|i: int| 0 <= i < ps.len() ==> mode_names().contains(#[trigger] ps[i]) {
            assert(mode_names().contains(ps[0]));
            assert forall|i: int| 0 <= i < ps.drop_first().len() implies mode_names().contains(
                #[trigger] ps.drop_first()[i],
            ) by {
                assert(ps.drop_first()[i] == ps[i + 1]);
            }
        }
    }
}

/// `canon(ps)` is sorted, duplicate-free, and holds exactly the parts of `ps`.
pub proof fn lemma_canon(ps: Seq<Seq<char>>)
    ensures
        sorted_unique(canon(ps)),
        same_elems(canon(ps), ps),
{
    crate::text::lemma_sort_unique(ps);
    let w = crate::text::sort_unique(ps);
    assert(sorted_unique(w) && same_elems(w, ps));
}

/// How a mode list is spelled does not matter: two lists with the same parts
/// (after trimming and lowercasing, ignoring order, repeats and empty entries),
/// one of which parses, parse to the same mode. This is what lets the daemon
/// key php-fpm masters by the parsed mode.
pub proof fn lemma_mode_spelling_irrelevant(a: Seq<char>, b: Seq<char>)
    requires
        parse_outcome(a) is Ok,
        forall|s: Seq<char>| raw_parts(a).contains(s) <==> raw_parts(b).contains(s),
    ensures
        parse_outcome(b) == parse_outcome(a),
{
    let pa = raw_parts(a);
    let pb = raw_parts(b);
    if pb.len() > 0 {
        assert(pb.contains(pb[0]));
        assert(pa.contains(pb[0]));
    }
    if pa.len() > 0 {
        assert(pa.contains(pa[0]));
        assert(pb.contains(pa[0]));
        lemma_first_unknown_none(pa);
        lemma_first_unknown_none(pb);
        assert forall|i: int| 0 <= i < pb.len() implies mode_names().contains(#[trigger] pb[i]) by {
            assert(pb.contains(pb[i]));
            let k = choose|k: int| 0 <= k < pa.len() && pa[k] == pb[i];
        }
        assert(first_unknown(pb) is None);
        assert(pa.contains("off"@) == pb.contains("off"@));
        if pa.contains("off"@) {
            if exists|i: int| 0 <= i < pb.len() && pb[i] != "off"@ {
                let i = choose|i: int| 0 <= i < pb.len() && pb[i] != "off"@;
                assert(pb.contains(pb[i]));
                let k = choose|k: int| 0 <= k < pa.len() && pa[k] == pb[i];
            }
            if exists|i: int| 0 <= i < pa.len() && pa[i] != "off"@ {
                let i = choose|i: int| 0 <= i < pa.len() && pa[i] != "off"@;
                assert(pa.contains(pa[i]));
                let k = choose|k: int| 0 <= k < pb.len() && pb[k] == pa[i];
            }
        } else {
            lemma_canon(pa);
            lemma_canon(pb);
            lemma_sorted_unique_eq(canon(pa), canon(pb));
        }
    }
}

/// A mode name is its own trimmed, lowercased form, is not empty, and holds
/// no comma.
proof fn lemma_mode_name_settled(n: Seq<char>)
    requires
        mode_names().contains(n),
    ensures
        to_lowercase(trim(n)) == n,
        n.len() > 0,
        forall|k: int| 0 <= k < n.len() ==> #[trigger] n[k] != ',',
{
    reveal_strlit("off");
    reveal_strlit("develop");
    reveal_strlit("coverage");
    reveal_strlit("debug");
    reveal_strlit("gcstats");
    reveal_strlit("profile");
    reveal_strlit("trace");
    let i = choose|i: int| 0 <= i < mode_names().len() && mode_names()[i] == n;
    assert(n.len() > 0 && !is_ws(n[0]) && !is_ws(n.last()));
    crate::text::lemma_trim_settled(n);
    assert(all_ascii(n));
    assert(ascii_lower(n) =~= n);
}

/// Dropping empty entries from a list without any leaves it as it is.
proof fn lemma_keep_all(ps: Seq<Seq<char>>)
    requires
        forall|i: int| 0 <= i < ps.len() ==> (#[trigger] ps[i]).len() > 0,
    ensures
        keep_nonempty(ps) == ps,
    decreases ps.len(),
{
    if ps.len() > 0 {
        assert forall|i: int| 0 <= i < ps.drop_first().len() implies (#[trigger] ps.drop_first()[i]).len() > 0 by {
            assert(ps.drop_first()[i] == ps[i + 1]);
        }
        lemma_keep_all(ps.drop_first());
        assert(seq![ps[0]] + ps.drop_first() =~= ps);
    }
}

/// The parts of a list of mode names joined by commas are those names.
proof fn lemma_parts_of_names(l: Seq<Seq<char>>)
    requires
        l.len() > 0,
        forall|i: int| 0 <= i < l.len() ==> mode_names().contains(#[trigger] l[i]),
    ensures
        raw_parts(join(l, seq![','])) == l,
{
    assert forall|i: int, k: int| 0 <= i < l.len() && 0 <= k < l[i].len() implies #[trigger] l[i][k] != ',' by {
        lemma_mode_name_settled(l[i]);
    }
    crate::text::lemma_split_join(l, ',');
    let mapped = l.map_values(|p: Seq<char>| to_lowercase(trim(p)));
    assert forall|i: int| 0 <= i < l.len() implies mapped[i] == l[i] && (#[trigger] l[i]).len() > 0 by {
        lemma_mode_name_settled(l[i]);
    }
    assert(mapped =~= l);
    lemma_keep_all(l);
}

/// A parsed mode's own text parses back to it: parsing is settled on its
/// results.
pub proof fn lemma_mode_round_trip(raw: Seq<char>)
    requires
        parse_outcome(raw) is Ok,
    ensures
        parse_outcome(parse_outcome(raw)->Ok_0) == parse_outcome(raw),
{
    let m = parse_outcome(raw)->Ok_0;
    let ps = raw_parts(raw);
    if m == "off"@ {
        assert(mode_names().contains("off"@)) by {
            assert(mode_names()[0] == "off"@);
        }
        lemma_parts_of_names(seq!["off"@]);
        assert(join(seq!["off"@], seq![',']) == "off"@);
        let po = raw_parts("off"@);
        assert(po == seq!["off"@]);
        assert(first_unknown(po.drop_first()) is None);
        assert(first_unknown(po) is None);
        assert(po.contains("off"@)) by {
            assert(po[0] == "off"@);
        }
    } else {
        lemma_first_unknown_none(ps);
        lemma_canon(ps);
        let c = canon(ps);
        assert(m == join(c, seq![',']));
        assert(ps.contains(ps[0]));
        assert(c.contains(ps[0]));
        assert forall|i: int| 0 <= i < c.len() implies mode_names().contains(#[trigger] c[i]) by {
            assert(c.contains(c[i]));
            let k = choose|k: int| 0 <= k < ps.len() && ps[k] == c[i];
        }
        lemma_parts_of_names(c);
        lemma_first_unknown_none(c);
        assert(!c.contains("off"@));
        lemma_canon(c);
        lemma_sorted_unique_eq(canon(c), c);
    }
}

/// The message for an Xdebug port of zero.
pub open spec fn port_range_message() -> Seq<char> {
    "port must be between 1 and 65535"@
}

/// Check the port `dpl xdebug port` is given: anything but zero.
pub fn check_port(port: u16) -> (r: Result<(), String>)
    ensures
        r is Ok <==> port != 0,
        r matches Err(m) ==> m@ == port_range_message(),
{
    if port == 0 {
        Err(String::from_str("port must be between 1 and 65535"))
    } else {
        Ok(())
    }
}

/// Check the mode `dpl xdebug on|off|mode` is given before asking the daemon,
/// so a typo fails fast with the list of valid modes; the mode is sent as
/// typed, and the site, when given, lowercased.
pub fn mode_request(mode: &str, site: Option<&str>) -> (r: Result<(String, Option<String>), String>)
    ensures
        match r {
            Ok((m, s)) => parse_outcome(mode@) is Ok && m@ == mode@ && opt_view(s) == match site {
                Some(x) => Some(to_lowercase(x@)),
                None => None,
            },
            Err(e) => parse_outcome(mode@) == Err::<Seq<char>, Seq<char>>(e@),
        },
{
    match Mode::parse(mode) {
        Ok(_) => {
            let s = match site {
                Some(x) => Some(to_lower(x)),
                None => None,
            };
            Ok((String::from_str(mode), s))
        },
        Err(CoreError::Message(m)) => Err(m),
        Err(_) => {
            proof {
                assert(false);
            }
            Err(String::new())
        },
    }
}

/// Where Xdebug's shared object may be for a PHP binary, in the order they
/// are tried; the first that is a file is the one (and Xdebug is installed
/// when there is one): the `zend_extension` path read from PHP's conf.d
/// (`conf_so`), then the Homebrew keg for the binary's version, when known.
pub open spec fn so_candidates_of(conf_so: Option<Seq<char>>, version: Option<Seq<char>>) -> Seq<Seq<char>> {
    (match conf_so {
        Some(p) => seq![p],
        None => Seq::empty(),
    }) + match version {
        Some(v) => crate::php::brew_prefixes().map_values(
            |p: Seq<char>| crate::paths::path_join(p, crate::php::keg_so("xdebug"@, v)),
        ),
        None => Seq::empty(),
    }
}

/// Where Xdebug's shared object may be (see [`so_candidates_of`]).
pub fn so_candidates(conf_so: Option<String>, version: Option<&str>) -> (r: Vec<String>)
    ensures
        str_views(r@) == so_candidates_of(opt_view(conf_so), crate::node::opt_str(version)),
{
    let mut out: Vec<String> = Vec::new();
    let ghost first = match opt_view(conf_so) {
        Some(p) => seq![p],
        None => Seq::<Seq<char>>::empty(),
    };
    match conf_so {
        Some(p) => {
            out.push(p);
        },
        None => {},
    }
    assert(str_views(out@) =~= first);
    match version {
        Some(v) => {
            let kegs = crate::php::keg_so_paths("xdebug", v);
            let ghost kv = str_views(kegs@);
            let mut i: usize = 0;
            while i < kegs.len()
                invariant
                    i <= kegs@.len(),
                    kv == str_views(kegs@),
                    str_views(out@) == first + kv.take(i as int),
                decreases kegs@.len() - i,
            {
                let ghost o0 = str_views(out@);
                out.push(String::from_str(kegs[i].as_str()));
                assert(str_views(out@) =~= o0.push(kv[i as int]));
                assert(kv.take(i + 1) =~= kv.take(i as int).push(kv[i as int]));
                i = i + 1;
            }
            assert(kv.take(kegs@.len() as int) =~= kv);
        },
        None => {
            assert(str_views(out@) =~= first + Seq::<Seq<char>>::empty());
        },
    }
    out
}

/// A parsed mode's text is never empty, and is either `off` or mode names
/// other than `off`, separated by commas, in strictly increasing order.
pub proof fn lemma_mode_text_shape(raw: Seq<char>)
    requires
        parse_outcome(raw) is Ok,
    ensures
        parse_outcome(raw)->Ok_0.len() > 0,
        parse_outcome(raw)->Ok_0 == "off"@ || ({
            let parts = split_on(parse_outcome(raw)->Ok_0, ',');
            &&& sorted_unique(parts)
            &&& forall|i: int| 0 <= i < parts.len() ==> mode_names().contains(#[trigger] parts[i]) && parts[i] != "off"@
        }),
{
    reveal_strlit("off");
    let m = parse_outcome(raw)->Ok_0;
    let ps = raw_parts(raw);
    if m != "off"@ {
        lemma_first_unknown_none(ps);
        lemma_canon(ps);
        let c = canon(ps);
        assert(m == join(c, seq![',']));
        assert(ps.contains(ps[0]));
        assert(c.contains(ps[0]));
        assert forall|i: int| 0 <= i < c.len() implies mode_names().contains(#[trigger] c[i]) && c[i] != "off"@ by {
            assert(c.contains(c[i]));
            let k = choose|k: int| 0 <= k < ps.len() && ps[k] == c[i];
        }
        assert forall|i: int, k: int| 0 <= i < c.len() && 0 <= k < c[i].len() implies #[trigger] c[i][k] != ',' by {
            lemma_mode_name_settled(c[i]);
        }
        crate::text::lemma_split_join(c, ',');
        if m.len() == 0 {
            assert(split_on(m, ',') == seq![Seq::<char>::empty()]);
            lemma_mode_name_settled(c[0]);
        }
    }
}

/// The first candidate that is a file (`present` says which are); `None`
/// when none is, and Xdebug is then not installed for that PHP.
pub open spec fn first_found(cands: Seq<Seq<char>>, present: Seq<bool>) -> Option<Seq<char>>
    decreases cands.len(),
{
    if cands.len() == 0 || present.len() == 0 {
        None
    } else if present[0] {
        Some(cands[0])
    } else {
        first_found(cands.drop_first(), present.drop_first())
    }
}

/// Xdebug's shared object: the first candidate (see [`so_candidates_of`])
/// that is a file (see [`first_found`]).
pub fn so_path(cands: &[String], present: &[bool]) -> (r: Option<String>)
    ensures
        opt_view(r) == first_found(str_views(cands@), present@),
{
    let mut i: usize = 0;
    assert(str_views(cands@).skip(0) =~= str_views(cands@));
    assert(present@.skip(0) =~= present@);
    while i < cands.len() && i < present.len()
        invariant
            i <= present@.len(),
            i <= cands@.len(),
            first_found(str_views(cands@), present@) == first_found(str_views(cands@).skip(i as int), present@.skip(i as int)),
        decreases cands@.len() - i,
    {
        let ghost cs = str_views(cands@).skip(i as int);
        let ghost ps = present@.skip(i as int);
        assert(cs[0] == cands@[i as int]@);
        assert(ps[0] == present@[i as int]);
        if present[i] {
            return Some(String::from_str(cands[i].as_str()));
        }
        assert(cs.drop_first() =~= str_views(cands@).skip(i + 1));
        assert(ps.drop_first() =~= present@.skip(i + 1));
        i = i + 1;
    }
    assert(str_views(cands@).skip(i as int).len() == 0 || present@.skip(i as int).len() == 0);
    None
}

// ------------------------------------------------------------- status

/// The sites `dpl xdebug status` lists, in order: reverse proxies run no PHP
/// of dpl's, so they have no Xdebug mode and are left out.
pub open spec fn xdebug_sites(sites: Seq<crate::ipc::SiteInfo>) -> Seq<crate::ipc::SiteInfo>
    decreases sites.len(),
{
    if sites.len() == 0 {
        Seq::empty()
    } else {
        let r = xdebug_sites(sites.drop_last());
        if sites.last().source@ == "proxy"@ {
            r
        } else {
            r.push(sites.last())
        }
    }
}

/// A site's Xdebug mode as listed: its mode, else `off`.
pub open spec fn site_mode(s: crate::ipc::SiteInfo) -> Seq<char> {
    match s.xdebug {
        Some(m) => m@,
        None => "off"@,
    }
}

/// A site's row as plain values: name, PHP version, mode, and whether
/// Xdebug is installed for its PHP.
pub open spec fn status_row(s: crate::ipc::SiteInfo) -> (Seq<char>, Option<Seq<char>>, Seq<char>, bool) {
    (s.name@, opt_view(s.php), site_mode(s), s.xdebug_installed)
}

/// The note a row carries: a site that wants Xdebug on a PHP without it.
pub open spec fn status_note(s: crate::ipc::SiteInfo) -> Seq<char> {
    if site_mode(s) != "off"@ && !s.xdebug_installed {
        "not installed for this PHP"@
    } else {
        Seq::empty()
    }
}

/// One line of the listing, its columns padded: the name to `w`, the PHP
/// version to 8, the mode to 16.
pub open spec fn status_line(name: Seq<char>, php: Seq<char>, mode: Seq<char>, note: Seq<char>, w: nat) -> Seq<char> {
    crate::output::pad_right(name, w) + "  "@ + crate::output::pad_right(php, 8) + "  "@ + crate::output::pad_right(mode, 16)
        + "  "@ + note
}

/// The width of the name column: the longest name in bytes, at least 4.
pub open spec fn name_width(ss: Seq<crate::ipc::SiteInfo>) -> nat {
    let w = crate::output::label_width(ss.map_values(|s: crate::ipc::SiteInfo| s.name@));
    if w < 4 {
        4
    } else {
        w
    }
}

/// Some listed site has a mode other than `off`.
pub open spec fn any_debugging(ss: Seq<crate::ipc::SiteInfo>) -> bool {
    exists|k: int| 0 <= k < ss.len() && #[trigger] site_mode(ss[k]) != "off"@
}

/// `dpl xdebug status` as printed: the empty-list message when no site is
/// listed; else the IDE settings, a blank line, the header, one row per site
/// (its PHP or `default`, its mode or `off`, and the note), and, when some
/// site is debugging, a blank line and the step-debugging hint.
pub open spec fn xdebug_status_listing(sites: Seq<crate::ipc::SiteInfo>, port: u16, ide_key: Seq<char>) -> Seq<Seq<char>> {
    let ss = xdebug_sites(sites);
    if ss.len() == 0 {
        seq!["No local sites yet. Link a project with `dpl link .`."@]
    } else {
        let w = name_width(ss);
        seq![
            "IDE  127.0.0.1:"@ + dec(port as nat) + "  (idekey "@ + ide_key + ")"@,
            Seq::empty(),
            status_line("SITE"@, "PHP"@, "XDEBUG"@, Seq::empty(), w),
        ] + ss.map_values(
            |s: crate::ipc::SiteInfo|
                status_line(
                    s.name@,
                    match s.php {
                        Some(p) => p@,
                        None => "default"@,
                    },
                    site_mode(s),
                    status_note(s),
                    w,
                ),
        ) + if any_debugging(ss) {
            seq![
                Seq::empty(),
                "Step debugging: point your IDE at 127.0.0.1:"@ + dec(port as nat)
                    + ", set a breakpoint, reload the site."@,
            ]
        } else {
            Seq::empty()
        }
    }
}

fn mode_text(s: &crate::ipc::SiteInfo) -> (r: String)
    ensures
        r@ == site_mode(*s),
{
    match &s.xdebug {
        Some(m) => String::from_str(m.as_str()),
        None => String::from_str("off"),
    }
}

/// The listed sites (see [`xdebug_sites`]), in order.
fn listed_sites(sites: &[crate::ipc::SiteInfo]) -> (r: Vec<&crate::ipc::SiteInfo>)
    ensures
        r@.len() == xdebug_sites(sites@).len(),
        forall|k: int| 0 <= k < r@.len() ==> *(#[trigger] r@[k]) == xdebug_sites(sites@)[k],
{
    let mut out: Vec<&crate::ipc::SiteInfo> = Vec::new();
    let mut i: usize = 0;
    while i < sites.len()
        invariant
            i <= sites@.len(),
            out@.len() == xdebug_sites(sites@.take(i as int)).len(),
            forall|k: int| 0 <= k < out@.len() ==> *(#[trigger] out@[k]) == xdebug_sites(sites@.take(i as int))[k],
        decreases sites@.len() - i,
    {
        assert(sites@.take(i + 1).drop_last() =~= sites@.take(i as int));
        assert(sites@.take(i + 1).last() == sites@[i as int]);
        if !crate::text::str_eq(sites[i].source.as_str(), "proxy") {
            out.push(&sites[i]);
        }
        i = i + 1;
    }
    assert(sites@.take(sites@.len() as int) =~= sites@);
    out
}

/// The rows `dpl xdebug status` lists, as plain values: the non-proxy sites
/// in order, each as name, PHP version, mode (or `off`), and whether Xdebug
/// is installed for its PHP (see [`status_row`]).
pub fn xdebug_status_rows(sites: &[crate::ipc::SiteInfo]) -> (r: Vec<(String, Option<String>, String, bool)>)
    ensures
        r@.len() == xdebug_sites(sites@).len(),
        forall|k: int|
            0 <= k < r@.len() ==> (#[trigger] r@[k].0@, opt_view(r@[k].1), r@[k].2@, r@[k].3) == status_row(
                xdebug_sites(sites@)[k],
            ),
{
    let ss = listed_sites(sites);
    let mut out: Vec<(String, Option<String>, String, bool)> = Vec::new();
    let mut i: usize = 0;
    while i < ss.len()
        invariant
            i <= ss@.len(),
            ss@.len() == xdebug_sites(sites@).len(),
            forall|k: int| 0 <= k < ss@.len() ==> *(#[trigger] ss@[k]) == xdebug_sites(sites@)[k],
            out@.len() == i,
            forall|k: int|
                0 <= k < i ==> (#[trigger] out@[k].0@, opt_view(out@[k].1), out@[k].2@, out@[k].3) == status_row(
                    xdebug_sites(sites@)[k],
                ),
        decreases ss@.len() - i,
    {
        let s = ss[i];
        let php = match &s.php {
            Some(p) => Some(String::from_str(p.as_str())),
            None => None,
        };
        out.push((String::from_str(s.name.as_str()), php, mode_text(s), s.xdebug_installed));
        i = i + 1;
    }
    out
}

fn status_line_of(name: &str, php: &str, mode: &str, note: &str, w: usize) -> (r: String)
    ensures
        r@ == status_line(name@, php@, mode@, note@, w as nat),
{
    let mut l = crate::output::pad_to(name, w);
    push_str(&mut l, "  ");
    push_str(&mut l, crate::output::pad_to(php, 8).as_str());
    push_str(&mut l, "  ");
    push_str(&mut l, crate::output::pad_to(mode, 16).as_str());
    push_str(&mut l, "  ");
    push_str(&mut l, note);
    l
}

/// `dpl xdebug status` as printed (see [`xdebug_status_listing`]).
pub fn xdebug_status_lines(sites: &[crate::ipc::SiteInfo], settings: &Settings) -> (r: Vec<String>)
    ensures
        str_views(r@) == xdebug_status_listing(sites@, settings.client_port, settings.ide_key@),
{
    let ss = listed_sites(sites);
    let ghost sv = xdebug_sites(sites@);
    assert(ss@.len() == sv.len());
    let mut out: Vec<String> = Vec::new();
    if ss.len() == 0 {
        out.push(String::from_str("No local sites yet. Link a project with `dpl link .`."));
        assert(str_views(out@) =~= xdebug_status_listing(sites@, settings.client_port, settings.ide_key@));
        return out;
    }
    // The name column's width.
    let mut names: Vec<String> = Vec::new();
    let mut i: usize = 0;
    while i < ss.len()
        invariant
            i <= ss@.len(),
            ss@.len() == sv.len(),
            forall|k: int| 0 <= k < ss@.len() ==> *(#[trigger] ss@[k]) == sv[k],
            str_views(names@) == sv.map_values(|s: crate::ipc::SiteInfo| s.name@).take(i as int),
        decreases ss@.len() - i,
    {
        let ghost n0 = str_views(names@);
        names.push(String::from_str(ss[i].name.as_str()));
        assert(str_views(names@) =~= n0.push(sv[i as int].name@));
        assert(sv.map_values(|s: crate::ipc::SiteInfo| s.name@).take(i + 1) =~= sv.map_values(
            |s: crate::ipc::SiteInfo| s.name@,
        ).take(i as int).push(sv[i as int].name@));
        i = i + 1;
    }
    assert(sv.map_values(|s: crate::ipc::SiteInfo| s.name@).take(ss@.len() as int) =~= sv.map_values(
        |s: crate::ipc::SiteInfo| s.name@,
    ));
    let mut w = crate::output::widest(&names);
    if w < 4 {
        w = 4;
    }
    assert(w as nat == name_width(sv));
    let mut ide = String::from_str("IDE  127.0.0.1:");
    push_str(&mut ide, dec_string(settings.client_port as u64).as_str());
    push_str(&mut ide, "  (idekey ");
    push_str(&mut ide, settings.ide_key.as_str());
    push_str(&mut ide, ")");
    out.push(ide);
    out.push(String::new());
    out.push(status_line_of("SITE", "PHP", "XDEBUG", "", w));
    let ghost head = str_views(out@);
    proof {
        reveal_strlit("");
    }
    let ghost rows = sv.map_values(
        |s: crate::ipc::SiteInfo|
            status_line(
                s.name@,
                match s.php {
                    Some(p) => p@,
                    None => "default"@,
                },
                site_mode(s),
                status_note(s),
                w as nat,
            ),
    );
    let mut any = false;
    let mut k: usize = 0;
    while k < ss.len()
        invariant
            k <= ss@.len(),
            ss@.len() == sv.len(),
            forall|q: int| 0 <= q < ss@.len() ==> *(#[trigger] ss@[q]) == sv[q],
            rows == sv.map_values(
                |s: crate::ipc::SiteInfo|
                    status_line(
                        s.name@,
                        match s.php {
                            Some(p) => p@,
                            None => "default"@,
                        },
                        site_mode(s),
                        status_note(s),
                        w as nat,
                    ),
            ),
            str_views(out@) == head + rows.take(k as int),
            any == any_debugging(sv.take(k as int)),
        decreases ss@.len() - k,
    {
        let s = ss[k];
        let mode = mode_text(s);
        let off = crate::text::str_eq(mode.as_str(), "off");
        let note = if !off && !s.xdebug_installed {
            "not installed for this PHP"
        } else {
            ""
        };
        let php = match &s.php {
            Some(p) => p.as_str(),
            None => "default",
        };
        let l = status_line_of(s.name.as_str(), php, mode.as_str(), note, w);
        let ghost o0 = str_views(out@);
        let ghost lv = l@;
        proof {
            reveal_strlit("");
            reveal_strlit("not installed for this PHP");
        }
        assert(note@ == status_note(sv[k as int]));
        assert(lv == rows[k as int]);
        out.push(l);
        assert(str_views(out@) =~= o0.push(lv));
        assert(rows.take(k + 1) =~= rows.take(k as int).push(rows[k as int]));
        let ghost t0 = sv.take(k as int);
        let ghost t1 = sv.take(k + 1);
        assert(forall|j: int| 0 <= j < k ==> t1[j] == t0[j]);
        assert(t1[k as int] == sv[k as int]);
        assert((any || !off) == any_debugging(t1)) by {
            if any_debugging(t0) {
                let j = choose|j: int| 0 <= j < k && #[trigger] site_mode(t0[j]) != "off"@;
                assert(site_mode(t1[j]) != "off"@);
            }
            if any_debugging(t1) {
                let j = choose|j: int| 0 <= j < k + 1 && #[trigger] site_mode(t1[j]) != "off"@;
                if j < k {
                    assert(site_mode(t0[j]) != "off"@);
                }
            }
        }
        if !off {
            any = true;
        }
        k = k + 1;
    }
    assert(rows.take(ss@.len() as int) =~= rows);
    assert(sv.take(ss@.len() as int) =~= sv);
    let ghost body = str_views(out@);
    if any {
        out.push(String::new());
        let mut hint = String::from_str("Step debugging: point your IDE at 127.0.0.1:");
        push_str(&mut hint, dec_string(settings.client_port as u64).as_str());
        push_str(&mut hint, ", set a breakpoint, reload the site.");
        out.push(hint);
    }
    assert(""@ =~= Seq::<char>::empty());
    assert(str_views(out@) =~= body + if any {
        seq![
            Seq::<char>::empty(),
            "Step debugging: point your IDE at 127.0.0.1:"@ + dec(settings.client_port as nat)
                + ", set a breakpoint, reload the site."@,
        ]
    } else {
        Seq::<Seq<char>>::empty()
    });
    assert(str_views(out@) =~= xdebug_status_listing(sites@, settings.client_port, settings.ide_key@));
    out
}

// ------------------------------------------------------- system conf.d

/// The prefix of the line of `php --ini` output that names the scan
/// directory.
pub open spec fn scan_prefix() -> Seq<char> {
    "Scan for additional .ini files in:"@
}

/// What follows the scan prefix on the first line that starts with it.
pub open spec fn scan_rest(ls: Seq<Seq<char>>) -> Option<Seq<char>>
    decreases ls.len(),
{
    if ls.len() == 0 {
        None
    } else if has_prefix(ls[0], scan_prefix()) {
        Some(ls[0].skip(scan_prefix().len() as int))
    } else {
        scan_rest(ls.drop_first())
    }
}

/// The system conf.d a PHP scans, from its `php --ini` output: the trimmed
/// path after the scan prefix, unless empty or `(none)`.
pub open spec fn system_conf_dir_in(output: Seq<char>) -> Option<Seq<char>> {
    match scan_rest(lines(output)) {
        Some(r) => if trim(r).len() > 0 && trim(r) != "(none)"@ {
            Some(trim(r))
        } else {
            None
        },
        None => None,
    }
}

/// The system conf.d a PHP scans (see [`system_conf_dir_in`]), from the
/// output of `php --ini` run without `PHP_INI_SCAN_DIR`.
pub fn system_conf_dir(output: &str) -> (r: Option<String>)
    ensures
        opt_view(r) == system_conf_dir_in(output@),
{
    let ls = lines_of(&to_chars(output));
    let ghost lv = lines(output@);
    let prefix = to_chars("Scan for additional .ini files in:");
    let mut i: usize = 0;
    assert(lv.skip(0) =~= lv);
    while i < ls.len()
        invariant
            i <= ls.len(),
            lv == lines(output@),
            ls@.len() == lv.len(),
            forall|k: int| 0 <= k < ls@.len() ==> (#[trigger] ls@[k])@ == lv[k],
            prefix@ == scan_prefix(),
            scan_rest(lv) == scan_rest(lv.skip(i as int)),
        decreases ls.len() - i,
    {
        assert(lv.skip(i as int)[0] == lv[i as int]);
        assert(lv.skip(i as int).drop_first() =~= lv.skip(i + 1));
        if starts_with_chars(&ls[i], &prefix) {
            let rest = slice_chars(&ls[i], prefix.len(), ls[i].len());
            assert(rest@ =~= lv[i as int].skip(scan_prefix().len() as int));
            let d = trim_chars(&rest);
            let none = to_chars("(none)");
            if d.len() > 0 && !chars_eq(&d, &none) {
                return Some(from_chars(&d));
            } else {
                return None;
            }
        }
        i = i + 1;
    }
    assert(lv.skip(i as int) =~= Seq::<Seq<char>>::empty());
    None
}

// ------------------------------------------------------- locating the .so

/// Whether a conf.d entry is one of the extension's ini files: its
/// lowercased name mentions `tag` and ends in `.ini` (or, when
/// `disabled_too`, in `.ini.disabled`).
pub open spec fn ini_for(name: Seq<char>, tag: Seq<char>, disabled_too: bool) -> bool {
    let l = to_lowercase(name);
    contains_seq(l, tag) && (has_suffix(l, ".ini"@) || (disabled_too && has_suffix(l, ".ini.disabled"@)))
}

/// The extension's ini files among a conf.d's entries, sorted.
pub fn ini_files(names: &[String], tag: &str, disabled_too: bool) -> (r: Vec<String>)
    ensures
        sorted_unique(str_views(r@)),
        forall|n: Seq<char>|
            #[trigger] str_views(r@).contains(n) <==> (str_views(names@).contains(n) && ini_for(n, tag@, disabled_too)),
{
    let mut acc: Vec<Vec<char>> = Vec::new();
    let mut i: usize = 0;
    let ghost nv = str_views(names@);
    while i < names.len()
        invariant
            i <= names.len(),
            nv == str_views(names@),
            sorted_unique(views(acc@)),
            forall|n: Seq<char>|
                #[trigger] views(acc@).contains(n) <==> (nv.take(i as int).contains(n) && ini_for(n, tag@, disabled_too)),
        decreases names.len() - i,
    {
        let ghost before = views(acc@);
        let l = to_lower(names[i].as_str());
        let keep = str_contains(l.as_str(), tag) && (str_ends_with(l.as_str(), ".ini") || (disabled_too && str_ends_with(
            l.as_str(),
            ".ini.disabled",
        )));
        if keep {
            insert_sorted(&mut acc, to_chars(names[i].as_str()));
        }
        proof {
            assert(nv.take(i + 1) =~= nv.take(i as int).push(nv[i as int]));
            assert forall|n: Seq<char>| #[trigger] views(acc@).contains(n) <==> (nv.take(i + 1).contains(n) && ini_for(
                n,
                tag@,
                disabled_too,
            )) by {
                if nv.take(i + 1).contains(n) && ini_for(n, tag@, disabled_too) {
                    if n != nv[i as int] {
                        let k = choose|k: int| 0 <= k < i + 1 && #[trigger] nv.take(i + 1)[k] == n;
                        assert(nv.take(i as int)[k] == n);
                    }
                }
                if before.contains(n) {
                    let k = choose|k: int| 0 <= k < i && #[trigger] nv.take(i as int)[k] == n;
                    assert(nv.take(i + 1)[k] == n);
                }
                if views(acc@).contains(n) && !before.contains(n) {
                    assert(nv.take(i + 1)[i as int] == n);
                }
            }
        }
        i = i + 1;
    }
    assert(nv.take(names.len() as int) =~= nv);
    strings_of(&acc)
}

/// The characters stripped from the start of an ini line: comment markers
/// and blanks.
pub open spec fn comment_chars() -> Seq<char> {
    seq![';', ' ', '\t']
}

/// The quotes stripped from both ends of a value.
pub open spec fn quote_chars() -> Seq<char> {
    seq!['"', '\'']
}

/// The value a (possibly commented-out) `key=value` ini line sets: the
/// line with leading `;`s and blanks removed must start with `key` once
/// lowercased; the value follows the first `=`, trimmed and unquoted, when
/// not empty.
pub open spec fn ini_line_value(line: Seq<char>, key: Seq<char>) -> Option<Seq<char>> {
    let l = trim_start_any(line, comment_chars());
    if !has_prefix(to_lowercase(l), key) {
        None
    } else {
        match find(l, seq!['=']) {
            None => None,
            Some(e) => {
                let v = trim_end_any(trim_start_any(trim(l.skip(e + 1)), quote_chars()), quote_chars());
                if v.len() > 0 {
                    Some(v)
                } else {
                    None
                }
            },
        }
    }
}

/// The value of a `key=` ini line, read as [`ini_line_value`].
pub fn ini_value(line: &[char], key: &str) -> (r: Option<Vec<char>>)
    ensures
        match r {
            Some(v) => ini_line_value(line@, key@) == Some(v@),
            None => ini_line_value(line@, key@) is None,
        },
{
    let cc: [char; 3] = [';', ' ', '\t'];
    assert(cc@ =~= comment_chars());
    let l = trim_start_any_chars(line, &cc);
    let low = to_lower(from_chars(&l).as_str());
    if !str_starts_with(low.as_str(), key) {
        return None;
    }
    let eq: [char; 1] = ['='];
    assert(eq@ =~= seq!['=']);
    proof {
        lemma_find_from(l@, eq@, 0);
    }
    let e = match find_chars(&l, &eq) {
        Some(e) => e,
        None => return None,
    };
    let n = l.len();
    let rest = slice_chars(&l, e + 1, n);
    assert(rest@ =~= l@.skip(e + 1));
    let qq: [char; 2] = ['"', '\''];
    assert(qq@ =~= quote_chars());
    let t = trim_chars(&rest);
    let a = trim_start_any_chars(&t, &qq);
    let v = trim_end_any_chars(&a, &qq);
    if v.len() > 0 {
        Some(v)
    } else {
        None
    }
}

/// The first line of an ini file that sets Xdebug's `zend_extension`,
/// commented out or not.
pub open spec fn first_zend_extension(ls: Seq<Seq<char>>) -> Option<Seq<char>>
    decreases ls.len(),
{
    if ls.len() == 0 {
        None
    } else {
        match ini_line_value(ls[0], "zend_extension"@) {
            Some(v) => Some(v),
            None => first_zend_extension(ls.drop_first()),
        }
    }
}

/// The `zend_extension` path of the first of the ini texts that has one.
pub open spec fn xdebug_so_in(texts: Seq<Seq<char>>) -> Option<Seq<char>>
    decreases texts.len(),
{
    if texts.len() == 0 {
        None
    } else {
        match first_zend_extension(lines(texts[0])) {
            Some(v) => Some(v),
            None => xdebug_so_in(texts.drop_first()),
        }
    }
}

fn zend_extension_of(text: &str) -> (r: Option<String>)
    ensures
        opt_view(r) == first_zend_extension(lines(text@)),
{
    let ls = lines_of(&to_chars(text));
    let ghost lv = lines(text@);
    let mut i: usize = 0;
    assert(lv.skip(0) =~= lv);
    while i < ls.len()
        invariant
            i <= ls.len(),
            lv == lines(text@),
            ls@.len() == lv.len(),
            forall|k: int| 0 <= k < ls@.len() ==> (#[trigger] ls@[k])@ == lv[k],
            first_zend_extension(lv) == first_zend_extension(lv.skip(i as int)),
        decreases ls.len() - i,
    {
        assert(lv.skip(i as int)[0] == lv[i as int]);
        assert(lv.skip(i as int).drop_first() =~= lv.skip(i + 1));
        if let Some(v) = ini_value(&ls[i], "zend_extension") {
            return Some(from_chars(&v));
        }
        i = i + 1;
    }
    assert(lv.skip(i as int) =~= Seq::<Seq<char>>::empty());
    None
}

/// Where `xdebug.so` is, read out of the texts of a conf.d's `*xdebug*.ini`
/// files in name order (see [`ini_files`]), accepting commented-out lines:
/// distros ship the `zend_extension` line commented out so the extension is
/// installed but inert.
pub fn so_from_conf_dir(texts: &[String]) -> (r: Option<String>)
    ensures
        opt_view(r) == xdebug_so_in(str_views(texts@)),
{
    let ghost tv = str_views(texts@);
    let mut i: usize = 0;
    assert(tv.skip(0) =~= tv);
    while i < texts.len()
        invariant
            i <= texts.len(),
            tv == str_views(texts@),
            xdebug_so_in(tv) == xdebug_so_in(tv.skip(i as int)),
        decreases texts.len() - i,
    {
        assert(tv.skip(i as int)[0] == texts@[i as int]@);
        assert(tv.skip(i as int).drop_first() =~= tv.skip(i + 1));
        if let Some(v) = zend_extension_of(texts[i].as_str()) {
            return Some(v);
        }
        i = i + 1;
    }
    assert(tv.skip(i as int) =~= Seq::<Seq<char>>::empty());
    None
}

/// Whether an ini file is one dpl wrote: it says it is managed by dpl.
pub fn is_dpl_loader(text: &str) -> (r: bool)
    ensures
        r == contains_seq(text@, "Managed by dpl"@),
{
    str_contains(text, "Managed by dpl")
}

} // verus!
