//! The privileged helper's rules: what it accepts as a TLD, a port, a
//! hostname and a user, the `/etc/hosts` block it keeps, and the files it
//! writes. Running as root, touching files and running programs is the
//! caller's part; every decision on the input is here.

use vstd::prelude::*;

use crate::text::{
    dec, dec_string, from_chars, is_alnum, lines, lines_of, parse_uint, parse_uint_chars, push_str, str_eq,
    to_chars, trim, trim_chars, trim_end, utf8_len,
};

verus! {

/// First line of the managed block in `/etc/hosts`.
pub const HOSTS_BEGIN: &'static str = "# >>> dpl managed (do not edit) >>>";

/// Last line of the managed block in `/etc/hosts`.
pub const HOSTS_END: &'static str = "# <<< dpl managed <<<";

// ---------------------------------------------------------------- validation

/// A TLD the helper routes: non-empty, ASCII letters, digits and `-` only.
pub open spec fn tld_ok(tld: Seq<char>) -> bool {
    tld.len() > 0 && forall|i: int| 0 <= i < tld.len() ==> is_alnum(#[trigger] tld[i]) || tld[i] == '-'
}

fn all_of(cs: &[char], extra: &[char]) -> (r: bool)
    ensures
        r == forall|i: int| 0 <= i < cs@.len() ==> is_alnum(#[trigger] cs@[i]) || extra@.contains(cs@[i]),
{
    let mut i: usize = 0;
    while i < cs.len()
        invariant
            i <= cs.len(),
            forall|k: int| 0 <= k < i ==> is_alnum(#[trigger] cs@[k]) || extra@.contains(cs@[k]),
        decreases cs.len() - i,
    {
        let c = cs[i];
        let alnum = ('0' <= c && c <= '9') || ('a' <= c && c <= 'z') || ('A' <= c && c <= 'Z');
        let mut found = false;
        let mut k: usize = 0;
        while k < extra.len()
            invariant
                k <= extra.len(),
                found <==> exists|m: int| 0 <= m < k && extra@[m] == c,
            decreases extra.len() - k,
        {
            if extra[k] == c {
                found = true;
            }
            k = k + 1;
        }
        if !alnum && !found {
            assert(!extra@.contains(c));
            return false;
        }
        i = i + 1;
    }
    true
}

/// Check a TLD (see [`tld_ok`]).
pub fn valid_tld(tld: &str) -> (r: Result<(), String>)
    ensures
        r is Ok <==> tld_ok(tld@),
        r matches Err(e) ==> e@ == "invalid tld: "@ + tld@,
{
    let cs = to_chars(tld);
    let dash: [char; 1] = ['-'];
    assert(dash@ =~= seq!['-']);
    if cs.len() > 0 && all_of(&cs, &dash) {
        Ok(())
    } else {
        let mut e = String::from_str("invalid tld: ");
        push_str(&mut e, tld);
        Err(e)
    }
}

/// Parse a port (`str::parse::<u16>`), or say it is invalid.
pub fn valid_port(p: &str) -> (r: Result<u16, String>)
    ensures
        match r {
            Ok(n) => parse_uint(p@, 65535) == Some(n as nat),
            Err(e) => parse_uint(p@, 65535) is None && e@ == "invalid port: "@ + p@,
        },
{
    match parse_uint_chars(&to_chars(p), 65535) {
        Some(n) => Ok(n as u16),
        None => {
            let mut e = String::from_str("invalid port: ");
            push_str(&mut e, p);
            Err(e)
        },
    }
}

/// A hostname safe to write into `/etc/hosts`: non-empty, at most 253 bytes,
/// not starting with `.` or `-`, ASCII letters, digits, `.` and `-` only.
pub open spec fn hostname_ok(h: Seq<char>) -> bool {
    &&& h.len() > 0
    &&& utf8_len(h) <= 253
    &&& h[0] != '.' && h[0] != '-'
    &&& forall|i: int| 0 <= i < h.len() ==> is_alnum(#[trigger] h[i]) || h[i] == '.' || h[i] == '-'
}

/// Check a hostname (see [`hostname_ok`]).
pub fn valid_hostname(h: &str) -> (r: Result<(), String>)
    ensures
        r is Ok <==> hostname_ok(h@),
        r matches Err(e) ==> e@ == "invalid hostname: "@ + h@,
{
    let cs = to_chars(h);
    let extra: [char; 2] = ['.', '-'];
    assert(extra@ =~= seq!['.', '-']);
    let ok = cs.len() > 0 && !crate::text::utf8_len_exceeds(&cs, 253) && cs[0] != '.' && cs[0] != '-' && all_of(
        &cs,
        &extra,
    );
    proof {
        if cs@.len() > 0 && utf8_len(cs@) <= 253 && cs@[0] != '.' && cs@[0] != '-' {
            assert((forall|i: int| 0 <= i < cs@.len() ==> is_alnum(#[trigger] cs@[i]) || extra@.contains(cs@[i])) <==> (
            forall|i: int| 0 <= i < cs@.len() ==> is_alnum(#[trigger] cs@[i]) || cs@[i] == '.' || cs@[i] == '-'));
        }
    }
    if ok {
        Ok(())
    } else {
        let mut e = String::from_str("invalid hostname: ");
        push_str(&mut e, h);
        Err(e)
    }
}

/// A user name the sudoers rule may name: non-empty, at most 32 bytes, ASCII
/// letters, digits, `_`, `-` and `.` only.
pub open spec fn user_ok(u: Seq<char>) -> bool {
    &&& u.len() > 0
    &&& utf8_len(u) <= 32
    &&& forall|i: int| 0 <= i < u.len() ==> is_alnum(#[trigger] u[i]) || u[i] == '_' || u[i] == '-' || u[i] == '.'
}

/// Check a user name (see [`user_ok`]).
pub fn valid_user(u: &str) -> (r: Result<(), String>)
    ensures
        r is Ok <==> user_ok(u@),
        r matches Err(e) ==> e@ == "invalid user: "@ + u@,
{
    let cs = to_chars(u);
    let extra: [char; 3] = ['_', '-', '.'];
    assert(extra@ =~= seq!['_', '-', '.']);
    let ok = cs.len() > 0 && !crate::text::utf8_len_exceeds(&cs, 32) && all_of(&cs, &extra);
    if ok {
        Ok(())
    } else {
        let mut e = String::from_str("invalid user: ");
        push_str(&mut e, u);
        Err(e)
    }
}

// ---------------------------------------------------------------- /etc/hosts

/// Reading `/etc/hosts` line by line: the text kept outside the managed
/// blocks (each kept line with its `\n`), and whether the last line read
/// left a block open. A line that trims to a marker opens or closes a block
/// and is itself dropped.
pub open spec fn kept_outside(ls: Seq<Seq<char>>) -> (Seq<char>, bool)
    decreases ls.len(),
{
    if ls.len() == 0 {
        (Seq::empty(), false)
    } else {
        let (kept, inside) = kept_outside(ls.drop_last());
        let t = trim(ls.last());
        if t == HOSTS_BEGIN@ {
            (kept, true)
        } else if t == HOSTS_END@ {
            (kept, false)
        } else if !inside {
            (kept + ls.last() + seq!['\n'], inside)
        } else {
            (kept, inside)
        }
    }
}

/// The managed entries: one `127.0.0.1<TAB><host>` line per host.
pub open spec fn host_entries(hosts: Seq<Seq<char>>) -> Seq<char>
    decreases hosts.len(),
{
    if hosts.len() == 0 {
        Seq::empty()
    } else {
        host_entries(hosts.drop_last()) + "127.0.0.1\t"@ + hosts.last() + seq!['\n']
    }
}

/// The managed block for `hosts`; nothing for an empty list.
pub open spec fn hosts_block(hosts: Seq<Seq<char>>) -> Seq<char> {
    if hosts.len() == 0 {
        Seq::empty()
    } else {
        HOSTS_BEGIN@ + seq!['\n'] + host_entries(hosts) + HOSTS_END@ + seq!['\n']
    }
}

/// `/etc/hosts` with its managed block rewritten to map exactly `hosts` to
/// 127.0.0.1: the text outside the markers, trailing whitespace trimmed,
/// one `\n`, then the block.
pub open spec fn synced_hosts(current: Seq<char>, hosts: Seq<Seq<char>>) -> Seq<char> {
    trim_end(kept_outside(lines(current)).0) + seq!['\n'] + hosts_block(hosts)
}

/// Rewrite the managed block of `/etc/hosts` (see [`synced_hosts`]).
pub fn sync_hosts_text(current: &str, hosts: &[String]) -> (r: String)
    ensures
        r@ == synced_hosts(current@, crate::text::str_views(hosts@)),
{
    let ls = lines_of(&to_chars(current));
    let ghost lv = lines(current@);
    let mut out = String::new();
    let mut inside = false;
    let mut i: usize = 0;
    assert(lv.take(0) =~= Seq::<Seq<char>>::empty());
    while i < ls.len()
        invariant
            i <= ls.len(),
            lv == lines(current@),
            ls@.len() == lv.len(),
            forall|k: int| 0 <= k < ls@.len() ==> (#[trigger] ls@[k])@ == lv[k],
            kept_outside(lv.take(i as int)) == (out@, inside),
        decreases ls.len() - i,
    {
        assert(lv.take(i + 1).drop_last() =~= lv.take(i as int));
        assert(lv.take(i + 1).last() == lv[i as int]);
        let t = from_chars(&trim_chars(&ls[i]));
        if str_eq(t.as_str(), HOSTS_BEGIN) {
            inside = true;
        } else if str_eq(t.as_str(), HOSTS_END) {
            inside = false;
        } else if !inside {
            push_str(&mut out, from_chars(&ls[i]).as_str());
            out.push('\n');
        }
        i = i + 1;
    }
    assert(lv.take(ls.len() as int) =~= lv);
    let mut r = crate::text::trim_end_str(out.as_str());
    r.push('\n');
    let ghost hv = crate::text::str_views(hosts@);
    if hosts.len() > 0 {
        let ghost head = r@;
        push_str(&mut r, HOSTS_BEGIN);
        r.push('\n');
        let ghost start = r@;
        let mut k: usize = 0;
        assert(hv.take(0) =~= Seq::<Seq<char>>::empty());
        assert(r@ =~= start + host_entries(hv.take(0)));
        while k < hosts.len()
            invariant
                k <= hosts.len(),
                hv == crate::text::str_views(hosts@),
                r@ == start + host_entries(hv.take(k as int)),
            decreases hosts.len() - k,
        {
            assert(hv.take(k + 1).drop_last() =~= hv.take(k as int));
            assert(hv.take(k + 1).last() == hosts@[k as int]@);
            push_str(&mut r, "127.0.0.1\t");
            push_str(&mut r, hosts[k].as_str());
            r.push('\n');
            k = k + 1;
        }
        assert(hv.take(hosts.len() as int) =~= hv);
        push_str(&mut r, HOSTS_END);
        r.push('\n');
    }
    r
}

/// What `sync-hosts` reports: how many entries it wrote.
pub open spec fn synced_message(n: nat) -> Seq<char> {
    "Synced "@ + dec(n) + " host entr"@ + (if n == 1 {
        "y"@
    } else {
        "ies"@
    }) + " to /etc/hosts."@
}

/// What `sync-hosts` reports (see [`synced_message`]).
pub fn synced_hosts_message(n: usize) -> (r: String)
    ensures
        r@ == synced_message(n as nat),
{
    let mut m = String::from_str("Synced ");
    push_str(&mut m, dec_string(n as u64).as_str());
    push_str(&mut m, " host entr");
    if n == 1 {
        push_str(&mut m, "y");
    } else {
        push_str(&mut m, "ies");
    }
    push_str(&mut m, " to /etc/hosts.");
    m
}

// -------------------------------------------------------------- other files

/// The `/etc/resolver/<tld>` file: dpl's DNS responder on `port`.
pub open spec fn resolver_file_text(port: u16) -> Seq<char> {
    "nameserver 127.0.0.1\nport "@ + dec(port as nat) + seq!['\n']
}

/// The `/etc/resolver/<tld>` file (see [`resolver_file_text`]).
pub fn resolver_file(port: u16) -> (r: String)
    ensures
        r@ == resolver_file_text(port),
{
    let mut s = String::from_str("nameserver 127.0.0.1\nport ");
    push_str(&mut s, dec_string(port as u64).as_str());
    s.push('\n');
    s
}

/// The pf anchor that redirects :80 and :443 to the daemon's ports.
pub open spec fn pf_anchor_text(http: u16, https: u16) -> Seq<char> {
    "rdr pass inet proto tcp from any to any port 80 -> 127.0.0.1 port "@ + dec(http as nat)
        + "\nrdr pass inet proto tcp from any to any port 443 -> 127.0.0.1 port "@ + dec(https as nat) + seq!['\n']
}

/// The pf anchor text (see [`pf_anchor_text`]).
pub fn pf_anchor(http: u16, https: u16) -> (r: String)
    ensures
        r@ == pf_anchor_text(http, https),
{
    let mut s = String::from_str("rdr pass inet proto tcp from any to any port 80 -> 127.0.0.1 port ");
    push_str(&mut s, dec_string(http as u64).as_str());
    push_str(&mut s, "\nrdr pass inet proto tcp from any to any port 443 -> 127.0.0.1 port ");
    push_str(&mut s, dec_string(https as u64).as_str());
    s.push('\n');
    s
}

/// Characters a helper path in the sudoers rule may not hold.
pub open spec fn sudoers_unsafe(c: char) -> bool {
    c == ',' || c == '\n' || c == ' ' || c == '"' || c == '\\'
}

/// The sudoers rule letting `user` run only the helper's hosts operations
/// without a password; or why it cannot be written: a bad user, a helper
/// path that is not absolute or not an existing file, or one holding a
/// character that would change the rule.
pub open spec fn sudoers_rule(user: Seq<char>, helper: Seq<char>, helper_is_file: bool) -> Result<Seq<char>, Seq<char>> {
    if !user_ok(user) {
        Err("invalid user: "@ + user)
    } else if !(helper.len() > 0 && helper[0] == '/') || !helper_is_file {
        Err("helper path must be an absolute existing file: "@ + helper)
    } else if exists|i: int| 0 <= i < helper.len() && sudoers_unsafe(#[trigger] helper[i]) {
        Err("helper path contains disallowed characters"@)
    } else {
        Ok(
            "# Installed by dpl \u{2014} lets dpl keep /etc/hosts in sync without a password.\n"@ + user
                + " ALL=(root) NOPASSWD: "@ + helper + " sync-hosts *, "@ + helper + " clear-hosts\n"@,
        )
    }
}

/// The sudoers rule for `user` and the helper at `helper` (see
/// [`sudoers_rule`]); `helper_is_file` says whether that path is an existing
/// file.
pub fn sudoers_content(user: &str, helper: &str, helper_is_file: bool) -> (r: Result<String, String>)
    ensures
        match r {
            Ok(t) => sudoers_rule(user@, helper@, helper_is_file) == Ok::<Seq<char>, Seq<char>>(t@),
            Err(e) => sudoers_rule(user@, helper@, helper_is_file) == Err::<Seq<char>, Seq<char>>(e@),
        },
{
    match valid_user(user) {
        Err(e) => return Err(e),
        Ok(()) => {},
    }
    let hc = to_chars(helper);
    if !(hc.len() > 0 && hc[0] == '/') || !helper_is_file {
        let mut e = String::from_str("helper path must be an absolute existing file: ");
        push_str(&mut e, helper);
        return Err(e);
    }
    let mut i: usize = 0;
    while i < hc.len()
        invariant
            i <= hc.len(),
            hc@ == helper@,
            user_ok(user@),
            helper@.len() > 0 && helper@[0] == '/' && helper_is_file,
            forall|k: int| 0 <= k < i ==> !sudoers_unsafe(#[trigger] hc@[k]),
        decreases hc.len() - i,
    {
        let c = hc[i];
        if c == ',' || c == '\n' || c == ' ' || c == '"' || c == '\\' {
            assert(sudoers_unsafe(helper@[i as int]));
            return Err(String::from_str("helper path contains disallowed characters"));
        }
        i = i + 1;
    }
    let mut t = String::from_str("# Installed by dpl \u{2014} lets dpl keep /etc/hosts in sync without a password.\n");
    push_str(&mut t, user);
    push_str(&mut t, " ALL=(root) NOPASSWD: ");
    push_str(&mut t, helper);
    push_str(&mut t, " sync-hosts *, ");
    push_str(&mut t, helper);
    push_str(&mut t, " clear-hosts\n");
    Ok(t)
}

} // verus!
