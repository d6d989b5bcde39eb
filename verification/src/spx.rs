//! SPX flame-graph profiler: the ini that switches on HTTP profiling in a
//! profiled site's php-fpm master.
//!
//! SPX is already loaded (dormant) by the system conf.d, so dpl's loader is
//! directives only: loading it a second time would warn to stdout and could
//! corrupt a response.

use vstd::prelude::*;

use crate::sites::opt_view;
use crate::text::{
    from_chars, has_suffix, lines, lines_of, push_str, str_ends_with, str_views, to_chars, to_lower, to_lowercase,
};
use crate::xdebug::{ini_line_value, ini_value};

verus! {

/// Gate for SPX's web UI. The real boundary is `http_ip_whitelist=127.0.0.1`
/// — only localhost can reach the UI — so this is a formality, not a secret.
pub const KEY: &'static str = "dpl-local";

/// The loader ini for the profile data directory `data_dir`.
pub open spec fn spx_loader_text(data_dir: Seq<char>) -> Seq<char> {
    "; Managed by dpl \u{2014} do not edit. Regenerated on every daemon reconcile.\n;\n; Added to PHP_INI_SCAN_DIR only for a profiled site's php-fpm master. SPX\n; itself is loaded by the system conf.d; here we just switch on HTTP\n; profiling so every request is captured.\nspx.data_dir="@
        + data_dir + "\nspx.http_enabled=1\nspx.http_key="@ + KEY@
        + "\nspx.http_ip_whitelist=127.0.0.1\nspx.http_profiling_enabled=1\nspx.http_profiling_auto_start=1\n"@
}

/// The dpl-managed ini that activates SPX for a profiler pool: directives
/// only, with `http_profiling_auto_start` so every request is captured.
pub fn loader_ini(data_dir: &str) -> (r: String)
    ensures
        r@ == spx_loader_text(data_dir@),
{
    let mut out = String::from_str(
        "; Managed by dpl \u{2014} do not edit. Regenerated on every daemon reconcile.\n;\n; Added to PHP_INI_SCAN_DIR only for a profiled site's php-fpm master. SPX\n; itself is loaded by the system conf.d; here we just switch on HTTP\n; profiling so every request is captured.\nspx.data_dir=",
    );
    push_str(&mut out, data_dir);
    push_str(&mut out, "\nspx.http_enabled=1\nspx.http_key=");
    push_str(&mut out, KEY);
    push_str(
        &mut out,
        "\nspx.http_ip_whitelist=127.0.0.1\nspx.http_profiling_enabled=1\nspx.http_profiling_auto_start=1\n",
    );
    out
}


/// The SPX `extension` path an ini line sets, commented out or not, when it
/// names an `spx.so`.
pub open spec fn spx_line(line: Seq<char>) -> Option<Seq<char>> {
    match ini_line_value(line, "extension"@) {
        Some(v) => if has_suffix(to_lowercase(v), "spx.so"@) {
            Some(v)
        } else {
            None
        },
        None => None,
    }
}

/// The first line of an ini file that names SPX's shared object.
pub open spec fn first_spx_line(ls: Seq<Seq<char>>) -> Option<Seq<char>>
    decreases ls.len(),
{
    if ls.len() == 0 {
        None
    } else {
        match spx_line(ls[0]) {
            Some(v) => Some(v),
            None => first_spx_line(ls.drop_first()),
        }
    }
}

/// The SPX path of the first of the ini texts that names one.
pub open spec fn spx_so_in(texts: Seq<Seq<char>>) -> Option<Seq<char>>
    decreases texts.len(),
{
    if texts.len() == 0 {
        None
    } else {
        match first_spx_line(lines(texts[0])) {
            Some(v) => Some(v),
            None => spx_so_in(texts.drop_first()),
        }
    }
}

fn spx_extension_of(text: &str) -> (r: Option<String>)
    ensures
        opt_view(r) == first_spx_line(lines(text@)),
{
    let ls = lines_of(&to_chars(text));
    let ghost lv = lines(text@);
    let mut i: usize = 0;
    assert(lv.skip(0) =~= lv);
    while i < ls.len()
        invariant
            i <= ls.len(),
            lv == lines(text@),
            ls@.len() == lv.len(),
            forall|k: int| 0 <= k < ls@.len() ==> (#[trigger] ls@[k])@ == lv[k],
            first_spx_line(lv) == first_spx_line(lv.skip(i as int)),
        decreases ls.len() - i,
    {
        assert(lv.skip(i as int)[0] == lv[i as int]);
        assert(lv.skip(i as int).drop_first() =~= lv.skip(i + 1));
        if let Some(v) = ini_value(&ls[i], "extension") {
            let s = from_chars(&v);
            if str_ends_with(to_lower(s.as_str()).as_str(), "spx.so") {
                return Some(s);
            }
        }
        i = i + 1;
    }
    assert(lv.skip(i as int) =~= Seq::<Seq<char>>::empty());
    None
}

/// Where `spx.so` is, read out of the texts of a conf.d's `*spx*.ini` files
/// (enabled or `.disabled`) in name order: the first `extension=` line,
/// commented out or not, that names an `spx.so`.
pub fn so_from_conf_dir(texts: &[String]) -> (r: Option<String>)
    ensures
        opt_view(r) == spx_so_in(str_views(texts@)),
{
    let ghost tv = str_views(texts@);
    let mut i: usize = 0;
    assert(tv.skip(0) =~= tv);
    while i < texts.len()
        invariant
            i <= texts.len(),
            tv == str_views(texts@),
            spx_so_in(tv) == spx_so_in(tv.skip(i as int)),
        decreases texts.len() - i,
    {
        assert(tv.skip(i as int)[0] == texts@[i as int]@);
        assert(tv.skip(i as int).drop_first() =~= tv.skip(i + 1));
        if let Some(v) = spx_extension_of(texts[i].as_str()) {
            return Some(v);
        }
        i = i + 1;
    }
    assert(tv.skip(i as int) =~= Seq::<Seq<char>>::empty());
    None
}


/// The address of SPX's web UI on a site: the site's URL without trailing
/// `/`s, then the UI's query with the key.
pub open spec fn profiler_address(url: Seq<char>) -> Seq<char> {
    crate::text::trim_end_matches(url, seq!['/']) + "/?SPX_UI_URI=/&SPX_KEY="@ + KEY@
}

/// The address of SPX's web UI on a site (see [`profiler_address`]).
pub fn profiler_url(site_url: &str) -> (r: String)
    ensures
        r@ == profiler_address(site_url@),
{
    let slash: [char; 1] = ['/'];
    assert(slash@ =~= seq!['/']);
    let base = crate::text::trim_end_matches_chars(&to_chars(site_url), &slash);
    let mut out = from_chars(&base);
    push_str(&mut out, "/?SPX_UI_URI=/&SPX_KEY=");
    push_str(&mut out, KEY);
    out
}

} // verus!
