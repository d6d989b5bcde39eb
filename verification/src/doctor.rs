//! The pure parts of `dpl doctor`: reading versions and constraints, which
//! proxy targets can be probed, how uptime reads, and the DNS probe's wire
//! format.

use vstd::prelude::*;

use crate::checks::{checks_view, fixed, hinted, plain, push_check, CheckView, Checks, Status};

use crate::text::{
    dec, dec_string, find, from_chars, has_prefix, index_of_char_from, lemma_find_from,
    lemma_split_on_first, parse_uint, parse_uint_chars, push_str, skip_digits, skip_digits_from,
    skip_non_digits, skip_non_digits_from, slice_chars, split_on, starts_with_chars, str_eq,
    to_chars, find_chars, contains_seq, copy_string, str_contains, str_views, to_lower, to_lowercase, str_is_empty,
    join_strings,
};

verus! {

// ------------------------------------------------------------------ versions

/// The first `major.minor` in a version or constraint string: the first run
/// of digits is the major (`None` when there is none, or it overflows a
/// `u32`); when a `.` follows it, the digits after the `.` are the minor, else
/// (or when they don't parse) the minor is 0.
pub open spec fn version_of(text: Seq<char>) -> Option<(u32, u32)> {
    let i = skip_non_digits(text, 0);
    if i >= text.len() {
        None
    } else {
        let j = skip_digits(text, i);
        match parse_uint(text.subrange(i, j), 0xffff_ffff) {
            None => None,
            Some(major) => {
                let minor: nat = if j < text.len() && text[j] == '.' {
                    match parse_uint(text.subrange(j + 1, skip_digits(text, j + 1)), 0xffff_ffff) {
                        Some(m) => m,
                        None => 0,
                    }
                } else {
                    0
                };
                Some((major as u32, minor as u32))
            },
        }
    }
}

/// First `major.minor` in a version or constraint string (`"^8.3"` → `(8, 3)`).
pub fn parse_version(text: &str) -> (r: Option<(u32, u32)>)
    ensures
        r == version_of(text@),
{
    let cs = to_chars(text);
    let i = skip_non_digits_from(&cs, 0);
    if i >= cs.len() {
        return None;
    }
    let j = skip_digits_from(&cs, i);
    let head = slice_chars(&cs, i, j);
    let major = match parse_uint_chars(&head, 0xffff_ffff) {
        Some(m) => m,
        None => return None,
    };
    let mut minor: u64 = 0;
    if j < cs.len() && cs[j] == '.' {
        let k = skip_digits_from(&cs, j + 1);
        let tail = slice_chars(&cs, j + 1, k);
        if let Some(m) = parse_uint_chars(&tail, 0xffff_ffff) {
            minor = m;
        }
    }
    Some((major as u32, minor as u32))
}

// -------------------------------------------------------------------- uptime

/// How a duration in seconds reads: seconds under a minute, minutes under an
/// hour, hours and minutes under a day, else days and hours.
pub open spec fn humanized(secs: u64) -> Seq<char> {
    if secs < 60 {
        dec(secs as nat) + "s"@
    } else if secs < 3600 {
        dec((secs / 60) as nat) + "m"@
    } else if secs < 86_400 {
        dec((secs / 3600) as nat) + "h "@ + dec(((secs % 3600) / 60) as nat) + "m"@
    } else {
        dec((secs / 86_400) as nat) + "d "@ + dec(((secs % 86_400) / 3600) as nat) + "h"@
    }
}

/// A duration in seconds, in the largest two units that matter.
pub fn humanize_secs(secs: u64) -> (r: String)
    ensures
        r@ == humanized(secs),
{
    if secs < 60 {
        let mut s = dec_string(secs);
        push_str(&mut s, "s");
        s
    } else if secs < 3600 {
        let mut s = dec_string(secs / 60);
        push_str(&mut s, "m");
        s
    } else if secs < 86_400 {
        let mut s = dec_string(secs / 3600);
        push_str(&mut s, "h ");
        push_str(&mut s, dec_string((secs % 3600) / 60).as_str());
        push_str(&mut s, "m");
        s
    } else {
        let mut s = dec_string(secs / 86_400);
        push_str(&mut s, "d ");
        push_str(&mut s, dec_string((secs % 86_400) / 3600).as_str());
        push_str(&mut s, "h");
        s
    }
}

// ------------------------------------------------------------- proxy targets

/// What follows a URL's first `://`, up to a second one if any; the whole
/// target when it has none.
pub open spec fn after_scheme(t: Seq<char>) -> Seq<char> {
    match find(t, "://"@) {
        None => t,
        Some(k) => {
            let a = t.skip(k + 3);
            match find(a, "://"@) {
                None => a,
                Some(k2) => a.take(k2),
            }
        },
    }
}

/// The index of the last `c` in `s`.
pub open spec fn last_index_of(s: Seq<char>, c: char) -> Option<int>
    decreases s.len(),
{
    if s.len() == 0 {
        None
    } else if s.last() == c {
        Some(s.len() - 1)
    } else {
        last_index_of(s.drop_last(), c)
    }
}

/// `host` and `port` of a proxy target that points at this machine (the only
/// case that can be probed): the authority is what follows the scheme up to
/// the first `/`; a port after its last `:` must parse as a `u16`, else the
/// scheme's default (443 for `https…`, 80 otherwise) applies; the host must be
/// `localhost` or `127.0.0.1`.
pub open spec fn local_target_of(t: Seq<char>) -> Option<(Seq<char>, u16)> {
    let auth = split_on(after_scheme(t), '/')[0];
    let hp: Option<(Seq<char>, u16)> = match last_index_of(auth, ':') {
        Some(k) => match parse_uint(auth.skip(k + 1), 65535) {
            Some(p) => Some((auth.take(k), p as u16)),
            None => None,
        },
        None => Some((auth, if has_prefix(t, "https"@) { 443u16 } else { 80u16 })),
    };
    match hp {
        None => None,
        Some((h, p)) => if h == "localhost"@ || h == "127.0.0.1"@ {
            Some((h, p))
        } else {
            None
        },
    }
}

/// The last index of `c` in `cs`.
fn last_index(cs: &[char], c: char) -> (r: Option<usize>)
    ensures
        r matches Some(k) ==> last_index_of(cs@, c) == Some(k as int) && k < cs@.len(),
        r is None ==> last_index_of(cs@, c) is None,
{
    let mut j: usize = cs.len();
    assert(cs@.take(j as int) =~= cs@);
    while j > 0 && cs[j - 1] != c
        invariant
            j <= cs.len(),
            last_index_of(cs@, c) == last_index_of(cs@.take(j as int), c),
        decreases j,
    {
        assert(cs@.take(j as int).drop_last() =~= cs@.take(j - 1));
        j = j - 1;
    }
    if j == 0 {
        assert(cs@.take(0) =~= Seq::<char>::empty());
        None
    } else {
        Some(j - 1)
    }
}

/// `host:port` when a proxy target points at this machine, else `None`.
pub fn local_target(target: &str) -> (r: Option<(String, u16)>)
    ensures
        r matches Some((h, p)) ==> local_target_of(target@) == Some((h@, p)),
        r is None ==> local_target_of(target@) is None,
{
    let t = to_chars(target);
    let sep = to_chars("://");
    proof {
        reveal_strlit("://");
        lemma_find_from(t@, sep@, 0);
    }
    assert(sep@.len() == 3);
    let tl = t.len();
    let rest = match find_chars(&t, &sep) {
        None => slice_chars(&t, 0, tl),
        Some(k) => {
            let a = slice_chars(&t, k + 3, tl);
            proof {
                lemma_find_from(a@, sep@, 0);
            }
            let al = a.len();
            match find_chars(&a, &sep) {
                None => a,
                Some(k2) => slice_chars(&a, 0, k2),
            }
        },
    };
    assert(t@.subrange(0, t@.len() as int) =~= t@);
    assert(rest@ == after_scheme(target@));
    let slash = index_of_char_from(&rest, '/', 0);
    let auth = slice_chars(&rest, 0, slash);
    proof {
        lemma_split_on_first(rest@, '/', slash as int);
        if slash == rest.len() {
            assert(rest@.subrange(0, slash as int) =~= rest@);
        }
    }
    assert(auth@ == split_on(after_scheme(target@), '/')[0]);
    let al = auth.len();
    let (host, port) = match last_index(&auth, ':') {
        Some(k) => {
            let p = slice_chars(&auth, k + 1, al);
            assert(p@ =~= auth@.skip(k + 1));
            match parse_uint_chars(&p, 65535) {
                Some(n) => (slice_chars(&auth, 0, k), n as u16),
                None => return None,
            }
        },
        None => {
            let https = to_chars("https");
            let port: u16 = if starts_with_chars(&t, &https) { 443 } else { 80 };
            (slice_chars(&auth, 0, al), port)
        },
    };
    assert(auth@.subrange(0, al as int) =~= auth@);
    let h = from_chars(&host);
    if str_eq(h.as_str(), "localhost") || str_eq(h.as_str(), "127.0.0.1") {
        Some((h, port))
    } else {
        None
    }
}


// ------------------------------------------------------------------ checks

/// The daemon's checks: whether it runs, whether its build matches this
/// CLI's, how long it has been up, where its socket is, and whether it starts
/// on login. Each fact is what probing found (`None` where a probe got no
/// answer).
pub open spec fn daemon_checks(
    reachable: bool,
    daemon_version: Option<Seq<char>>,
    cli_version: Seq<char>,
    uptime: Option<u64>,
    socket: Option<Seq<char>>,
    autostart: bool,
) -> Seq<CheckView> {
    let cat = "Daemon"@;
    if !reachable {
        seq![
            fixed(
                plain("daemon.running"@, cat, "Daemon"@, Status::Fail, "not running \u{2014} nothing is serving .test sites"@),
                "Start the daemon"@,
                "dpl start"@,
            ),
        ]
    } else {
        seq![plain("daemon.running"@, cat, "Daemon"@, Status::Pass, "running"@)]
            + match daemon_version {
                Some(v) => if v == cli_version {
                    seq![plain("daemon.version"@, cat, "Version"@, Status::Pass, "dpl and dpld both "@ + v)]
                } else {
                    seq![
                        fixed(
                            hinted(
                                plain("daemon.version"@, cat, "Version"@, Status::Warn, "dpl "@ + cli_version + ", dpld "@ + v),
                                "The running daemon is a different build than this CLI. Restart it to pick up the new binary."@,
                            ),
                            "Restart the daemon"@,
                            "dpl restart"@,
                        ),
                    ]
                },
                None => Seq::empty(),
            } + match uptime {
                Some(u) => seq![plain("daemon.uptime"@, cat, "Uptime"@, Status::Info, humanized(u))],
                None => Seq::empty(),
            } + match socket {
                Some(p) => seq![plain("daemon.socket"@, cat, "Control socket"@, Status::Info, p)],
                None => Seq::empty(),
            } + if autostart {
                seq![plain("daemon.autostart"@, cat, "Start on login"@, Status::Pass, "LaunchAgent installed"@)]
            } else {
                seq![
                    fixed(
                        hinted(
                            plain("daemon.autostart"@, cat, "Start on login"@, Status::Warn, "not installed"@),
                            "The daemon won't come back after a reboot until you start it by hand."@,
                        ),
                        "Install autostart"@,
                        "dpl daemon install"@,
                    ),
                ]
            }
    }
}

/// Add the daemon's checks (see [`daemon_checks`]).
pub fn check_daemon(
    c: &mut Checks,
    reachable: bool,
    daemon_version: Option<&str>,
    cli_version: &str,
    uptime: Option<u64>,
    socket: Option<&str>,
    autostart: bool,
)
    ensures
        checks_view(final(c).0@) == checks_view(old(c).0@) + daemon_checks(
            reachable,
            crate::node::opt_str(daemon_version),
            cli_version@,
            uptime,
            crate::node::opt_str(socket),
            autostart,
        ),
{
    let cat = "Daemon";
    let ghost start = checks_view(c.0@);
    if !reachable {
        push_check(
            c,
            "daemon.running",
            cat,
            "Daemon",
            Status::Fail,
            String::from_str("not running \u{2014} nothing is serving .test sites"),
            None,
            Some(("Start the daemon", "dpl start")),
        );
        assert(checks_view(c.0@) =~= start + daemon_checks(reachable, crate::node::opt_str(daemon_version), cli_version@, uptime, crate::node::opt_str(socket), autostart));
        return;
    }
    push_check(c, "daemon.running", cat, "Daemon", Status::Pass, String::from_str("running"), None, None);
    if let Some(v) = daemon_version {
        if str_eq(v, cli_version) {
            let mut d = String::from_str("dpl and dpld both ");
            push_str(&mut d, v);
            push_check(c, "daemon.version", cat, "Version", Status::Pass, d, None, None);
        } else {
            let mut d = String::from_str("dpl ");
            push_str(&mut d, cli_version);
            push_str(&mut d, ", dpld ");
            push_str(&mut d, v);
            push_check(
                c,
                "daemon.version",
                cat,
                "Version",
                Status::Warn,
                d,
                Some("The running daemon is a different build than this CLI. Restart it to pick up the new binary."),
                Some(("Restart the daemon", "dpl restart")),
            );
        }
    }
    if let Some(u) = uptime {
        push_check(c, "daemon.uptime", cat, "Uptime", Status::Info, humanize_secs(u), None, None);
    }
    if let Some(p) = socket {
        push_check(c, "daemon.socket", cat, "Control socket", Status::Info, String::from_str(p), None, None);
    }
    if autostart {
        push_check(c, "daemon.autostart", cat, "Start on login", Status::Pass, String::from_str("LaunchAgent installed"), None, None);
    } else {
        push_check(
            c,
            "daemon.autostart",
            cat,
            "Start on login",
            Status::Warn,
            String::from_str("not installed"),
            Some("The daemon won't come back after a reboot until you start it by hand."),
            Some(("Install autostart", "dpl daemon install")),
        );
    }
    assert(checks_view(c.0@) =~= start + daemon_checks(reachable, crate::node::opt_str(daemon_version), cli_version@, uptime, crate::node::opt_str(socket), autostart));
}

/// A server name that is another web server (Apache, nginx, Valet, Caddy).
pub open spec fn foreign_server(s: Seq<char>) -> bool {
    let l = to_lowercase(s);
    contains_seq(l, "apache"@) || contains_seq(l, "nginx"@) || contains_seq(l, "valet"@) || contains_seq(l, "caddy"@)
}

/// The hint for sites that only answer on a port.
pub open spec fn port_url_hint(port: u16) -> Seq<char> {
    "Sites work at http://<name>.test:"@ + dec(port as nat) + ", but not on the clean port-less URL."@
}

/// Who holds ports 80 and 443, when the proxy is not on 80 itself.
#[verifier::opaque]
pub open spec fn port_checks(port: u16, macos: bool, port_80_server: Option<Seq<char>>, port_443_held: bool) -> Seq<CheckView> {
    let cat = "Networking"@;
    if port == 80 {
        Seq::empty()
    } else {
        match port_80_server {
            Some(server) => if foreign_server(server) {
                seq![
                    fixed(
                        hinted(
                            plain("net.port_80"@, cat, "Port 80"@, Status::Fail, "held by "@ + server),
                            "The browser hits that server instead of dpl (e.g. Apache's \u{201c}It works!\u{201d} page)."@,
                        ),
                        "Take over ports 80/443"@,
                        "dpl takeover"@,
                    ),
                ] + if port_443_held {
                    seq![
                        fixed(
                            plain("net.port_443"@, cat, "Port 443"@, Status::Warn, "also held by "@ + server),
                            "Take over ports 80/443"@,
                            "dpl takeover"@,
                        ),
                    ]
                } else {
                    Seq::empty()
                }
            } else {
                seq![plain("net.port_80"@, cat, "Port 80/443"@, Status::Pass, "served by dpl"@)]
            },
            None => if macos {
                Seq::empty()
            } else {
                seq![
                    fixed(
                        hinted(plain("net.port_80"@, cat, "Port 80"@, Status::Warn, "nothing is listening"@), port_url_hint(port)),
                        "Run privileged setup"@,
                        "sudo dpl setup"@,
                    ),
                ]
            },
        }
    }
}

/// On macOS: whether launchd hands :80/:443 to the daemon, and whether a
/// pf anchor from before is left over.
#[verifier::opaque]
pub open spec fn macos_port_checks(port: u16, launch_daemon: bool, pf_anchor: bool) -> Seq<CheckView> {
    let cat = "Networking"@;
    let priv_check = if launch_daemon && port == 80 {
        plain("net.privports"@, cat, "Privileged ports"@, Status::Pass, ":80/:443 handed over by launchd"@)
    } else if launch_daemon {
        fixed(
            hinted(
                plain("net.privports"@, cat, "Privileged ports"@, Status::Warn, "LaunchDaemon installed, but dpld is on :"@ + dec(port as nat)),
                "The daemon didn't get the launchd sockets \u{2014} a stray LaunchAgent copy of dpld may have started first."@,
            ),
            "Reinstall the port daemon"@,
            "sudo dpl setup"@,
        )
    } else if port != 80 {
        fixed(
            hinted(plain("net.privports"@, cat, "Privileged ports"@, Status::Warn, "not installed"@), port_url_hint(port)),
            "Run privileged setup"@,
            "sudo dpl setup"@,
        )
    } else {
        plain("net.privports"@, cat, "Privileged ports"@, Status::Pass, "dpld is serving :80 directly"@)
    };
    seq![priv_check] + if pf_anchor {
        seq![
            fixed(
                hinted(
                    plain("net.pf_legacy"@, cat, "Legacy pf redirect"@, Status::Warn, "/etc/pf.anchors/dpl is still present"@),
                    "dpl no longer uses pf. The anchor does nothing now, but a stale rdr rule can still capture :80."@,
                ),
                "Clean it up"@,
                "sudo dpl setup"@,
            ),
        ]
    } else {
        Seq::empty()
    }
}

/// The check of one TLD's resolver entry, given the resolver files present.
pub open spec fn resolver_check(tld: Seq<char>, present: Seq<Seq<char>>) -> CheckView {
    let cat = "Networking"@;
    let id = "net.resolver."@ + tld;
    let title = "Resolver ."@ + tld;
    let path = "/etc/resolver/"@ + tld;
    if crate::config::native_tld(tld) {
        plain(id, cat, title, Status::Pass, "native \u{2014} resolves to loopback, no resolver needed"@)
    } else if present.contains(path) {
        plain(id, cat, title, Status::Pass, path)
    } else {
        fixed(
            hinted(
                plain(id, cat, title, Status::Fail, path + " missing"@),
                "Nothing routes this TLD to dpl, so the browser can't find your sites."@,
            ),
            "Run privileged setup"@,
            "sudo dpl setup"@,
        )
    }
}

/// The resolver checks of each TLD, in order.
pub open spec fn resolver_checks(tlds: Seq<Seq<char>>, present: Seq<Seq<char>>) -> Seq<CheckView>
    decreases tlds.len(),
{
    if tlds.len() == 0 {
        Seq::empty()
    } else {
        resolver_checks(tlds.drop_last(), present).push(resolver_check(tlds.last(), present))
    }
}

/// An IPv4 address in dotted decimal.
pub open spec fn dotted(ip: Seq<u8>) -> Seq<char> {
    dec(ip[0] as nat) + "."@ + dec(ip[1] as nat) + "."@ + dec(ip[2] as nat) + "."@ + dec(ip[3] as nat)
}

/// The check of dpl's own DNS responder, from its answer for a name under
/// the primary TLD.
#[verifier::opaque]
pub open spec fn dns_check(answer: Option<Seq<u8>>, primary_tld: Seq<char>, uses_hosts: bool) -> CheckView {
    let cat = "Networking"@;
    match answer {
        Some(ip) => if ip == seq![127u8, 0u8, 0u8, 1u8] {
            plain("net.dns"@, cat, "DNS responder"@, Status::Pass, "*."@ + primary_tld + " \u{2192} 127.0.0.1 (:5333)"@)
        } else {
            plain("net.dns"@, cat, "DNS responder"@, Status::Warn, "answered "@ + dotted(ip) + ", expected 127.0.0.1"@)
        },
        None => if uses_hosts {
            plain("net.dns"@, cat, "DNS responder"@, Status::Warn, "no answer on :5333"@)
        } else {
            fixed(
                hinted(
                    plain("net.dns"@, cat, "DNS responder"@, Status::Warn, "no answer on :5333"@),
                    "In resolver mode, .test lookups go here \u{2014} sites won't resolve while it's silent."@,
                ),
                "Restart the daemon"@,
                "dpl restart"@,
            )
        },
    }
}

/// The check of a sink sites talk to, by whether its port is listening.
#[verifier::opaque]
pub open spec fn sink_check(id: Seq<char>, title: Seq<char>, port: u16, listening: bool, what: Seq<char>) -> CheckView {
    if listening {
        plain(id, "Networking"@, title, Status::Pass, "listening on :"@ + dec(port as nat))
    } else {
        hinted(plain(id, "Networking"@, title, Status::Warn, "not listening on :"@ + dec(port as nat)), what)
    }
}

/// How names resolve, and whether that mode's plumbing is in place.
#[verifier::opaque]
pub open spec fn resolution_checks(f: NetworkFacts, cfg: crate::config::LocalConfig) -> Seq<CheckView> {
    let cat = "Networking"@;
    let uses_hosts = cfg.resolution matches Some(s) && s@ == "hosts"@;
    if uses_hosts {
                seq![
                    plain("net.resolution"@, cat, "Resolution mode"@, Status::Info, "hosts-file (iCloud Private Relay keeps working)"@),
                    if contains_seq(f.hosts_text@, "# >>> dpl managed"@) {
                        plain("net.hosts"@, cat, "/etc/hosts entries"@, Status::Pass, "dpl-managed block present"@)
                    } else {
                        fixed(
                            hinted(
                                plain("net.hosts"@, cat, "/etc/hosts entries"@, Status::Warn, "no dpl-managed block"@),
                                "Sites won't resolve until the daemon writes its block. Reload the daemon."@,
                            ),
                            "Reload the daemon"@,
                            "dpl reload"@,
                        )
                    },
                    if f.sudoers {
                        plain("net.sudoers"@, cat, "Sudoers rule"@, Status::Pass, "/etc/sudoers.d/dpl installed"@)
                    } else {
                        fixed(
                            hinted(
                                plain("net.sudoers"@, cat, "Sudoers rule"@, Status::Warn, "not installed"@),
                                "Without it the daemon can't keep /etc/hosts in sync as you add sites."@,
                            ),
                            "Re-apply hosts mode"@,
                            "dpl resolution hosts"@,
                        )
                    },
                ]
            } else {
                seq![
                    hinted(
                        plain("net.resolution"@, cat, "Resolution mode"@, Status::Info, "wildcard DNS resolver"@),
                        "A local DNS resolver disables iCloud Private Relay. Switch to hosts mode to keep it on."@,
                    ),
                ] + resolver_checks(crate::config::config_tlds(str_views(cfg.tlds@)), str_views(f.resolver_files@))
    }
}

/// What probing the network found.
pub struct NetworkFacts {
    /// The daemon's HTTP port; `None` when the daemon is down.
    pub http_port: Option<u16>,
    /// Running on macOS.
    pub macos: bool,
    /// What holds port 80, if anything.
    pub port_80_server: Option<String>,
    /// Something holds port 443.
    pub port_443_held: bool,
    /// The LaunchDaemon that hands over :80/:443 is installed.
    pub launch_daemon: bool,
    /// The old pf anchor is present.
    pub pf_anchor: bool,
    /// The text of `/etc/hosts` (empty when unreadable).
    pub hosts_text: String,
    /// The sudoers rule is installed.
    pub sudoers: bool,
    /// The `/etc/resolver/<tld>` files that exist.
    pub resolver_files: Vec<String>,
    /// dpl's DNS responder's answer for a name under the primary TLD.
    pub dns_answer: Option<[u8; 4]>,
    /// Something listens on the mail sink's port.
    pub mail_listening: bool,
    /// Something listens on the debug bridge's port.
    pub dumps_listening: bool,
}

/// The networking checks: the proxy, who holds :80/:443, how names resolve
/// and whether that mode's plumbing is in place, the DNS responder, and the
/// sinks sites talk to.
#[verifier::opaque]
pub open spec fn network_checks(f: NetworkFacts, cfg: crate::config::LocalConfig) -> Seq<CheckView> {
    let cat = "Networking"@;
    let uses_hosts = cfg.resolution matches Some(s) && s@ == "hosts"@;
    match f.http_port {
        None => seq![
            fixed(
                plain("net.proxy"@, cat, "HTTP proxy"@, Status::Fail, "not listening (daemon is down)"@),
                "Start the daemon"@,
                "dpl start"@,
            ),
        ],
        Some(port) => seq![plain("net.proxy"@, cat, "HTTP proxy"@, Status::Pass, "listening on port "@ + dec(port as nat))]
            + port_checks(port, f.macos, crate::sites::opt_view(f.port_80_server), f.port_443_held)
            + (if f.macos {
                macos_port_checks(port, f.launch_daemon, f.pf_anchor)
            } else {
                Seq::empty()
            }) + resolution_checks(f, cfg) + seq![
                dns_check(
                    match f.dns_answer {
                        Some(a) => Some(a@),
                        None => None,
                    },
                    crate::config::config_primary_tld(str_views(cfg.tlds@)),
                    uses_hosts,
                ),
                sink_check("net.mail"@, "Mail sink"@, 1025, f.mail_listening, "Mail sent from sites won't be captured. Restart the daemon."@),
                sink_check(
                    "net.dumps"@,
                    "Debug bridge"@,
                    9912,
                    f.dumps_listening,
                    "`dump()` output won't reach the Dumps panel. Restart the daemon."@,
                ),
            ],
    }
}

fn is_foreign_server(s: &str) -> (r: bool)
    ensures
        r == foreign_server(s@),
{
    let l = to_lower(s);
    str_contains(l.as_str(), "apache") || str_contains(l.as_str(), "nginx") || str_contains(l.as_str(), "valet")
        || str_contains(l.as_str(), "caddy")
}

fn port_url_hint_of(port: u16) -> (r: String)
    ensures
        r@ == port_url_hint(port),
{
    let mut h = String::from_str("Sites work at http://<name>.test:");
    push_str(&mut h, dec_string(port as u64).as_str());
    push_str(&mut h, ", but not on the clean port-less URL.");
    h
}

fn dotted_of(ip: [u8; 4]) -> (r: String)
    ensures
        r@ == dotted(ip@),
{
    let mut s = dec_string(ip[0] as u64);
    push_str(&mut s, ".");
    push_str(&mut s, dec_string(ip[1] as u64).as_str());
    push_str(&mut s, ".");
    push_str(&mut s, dec_string(ip[2] as u64).as_str());
    push_str(&mut s, ".");
    push_str(&mut s, dec_string(ip[3] as u64).as_str());
    s
}

fn add_sink(c: &mut Checks, id: &str, title: &str, port: u16, listening: bool, what: &str)
    ensures
        checks_view(final(c).0@) == checks_view(old(c).0@).push(sink_check(id@, title@, port, listening, what@)),
{
    proof {
        reveal(sink_check);
    }
    if listening {
        let mut d = String::from_str("listening on :");
        push_str(&mut d, dec_string(port as u64).as_str());
        push_check(c, id, "Networking", title, Status::Pass, d, None, None);
    } else {
        let mut d = String::from_str("not listening on :");
        push_str(&mut d, dec_string(port as u64).as_str());
        push_check(c, id, "Networking", title, Status::Warn, d, Some(what), None);
    }
}

fn add_resolver_check(c: &mut Checks, tld: &str, present: &[String])
    ensures
        checks_view(final(c).0@) == checks_view(old(c).0@).push(resolver_check(tld@, str_views(present@))),
{
    let mut id = String::from_str("net.resolver.");
    push_str(&mut id, tld);
    let mut title = String::from_str("Resolver .");
    push_str(&mut title, tld);
    let mut path = String::from_str("/etc/resolver/");
    push_str(&mut path, tld);
    if crate::config::is_native_tld(tld) {
        push_check(
            c,
            id.as_str(),
            "Networking",
            title.as_str(),
            Status::Pass,
            String::from_str("native \u{2014} resolves to loopback, no resolver needed"),
            None,
            None,
        );
    } else if crate::sites::has_file(present, path.as_str()) {
        let d = copy_string(&path);
        push_check(c, id.as_str(), "Networking", title.as_str(), Status::Pass, d, None, None);
    } else {
        let mut d = copy_string(&path);
        push_str(&mut d, " missing");
        push_check(
            c,
            id.as_str(),
            "Networking",
            title.as_str(),
            Status::Fail,
            d,
            Some("Nothing routes this TLD to dpl, so the browser can't find your sites."),
            Some(("Run privileged setup", "sudo dpl setup")),
        );
    }
}

fn add_port_checks(c: &mut Checks, port: u16, macos: bool, port_80_server: &Option<String>, port_443_held: bool)
    ensures
        checks_view(final(c).0@) == checks_view(old(c).0@) + port_checks(port, macos, crate::sites::opt_view(*port_80_server), port_443_held),
{
    proof {
        reveal(port_checks);
    }
    let ghost start = checks_view(c.0@);
    let cat = "Networking";
    if port == 80 {
        assert(checks_view(c.0@) =~= start + Seq::<CheckView>::empty());
        return;
    }
    match port_80_server {
        Some(server) => {
            if is_foreign_server(server.as_str()) {
                let mut d = String::from_str("held by ");
                push_str(&mut d, server.as_str());
                push_check(
                    c,
                    "net.port_80",
                    cat,
                    "Port 80",
                    Status::Fail,
                    d,
                    Some("The browser hits that server instead of dpl (e.g. Apache's \u{201c}It works!\u{201d} page)."),
                    Some(("Take over ports 80/443", "dpl takeover")),
                );
                if port_443_held {
                    let mut d2 = String::from_str("also held by ");
                    push_str(&mut d2, server.as_str());
                    push_check(c, "net.port_443", cat, "Port 443", Status::Warn, d2, None, Some(("Take over ports 80/443", "dpl takeover")));
                }
            } else {
                push_check(c, "net.port_80", cat, "Port 80/443", Status::Pass, String::from_str("served by dpl"), None, None);
            }
        },
        None => {
            if !macos {
                let h = port_url_hint_of(port);
                push_check(
                    c,
                    "net.port_80",
                    cat,
                    "Port 80",
                    Status::Warn,
                    String::from_str("nothing is listening"),
                    Some(h.as_str()),
                    Some(("Run privileged setup", "sudo dpl setup")),
                );
            }
        },
    }
    assert(checks_view(c.0@) =~= start + port_checks(port, macos, crate::sites::opt_view(*port_80_server), port_443_held));
}

fn add_macos_port_checks(c: &mut Checks, port: u16, launch_daemon: bool, pf_anchor: bool)
    ensures
        checks_view(final(c).0@) == checks_view(old(c).0@) + macos_port_checks(port, launch_daemon, pf_anchor),
{
    proof {
        reveal(macos_port_checks);
    }
    let ghost start = checks_view(c.0@);
    let cat = "Networking";
    if launch_daemon && port == 80 {
        push_check(c, "net.privports", cat, "Privileged ports", Status::Pass, String::from_str(":80/:443 handed over by launchd"), None, None);
    } else if launch_daemon {
        let mut d = String::from_str("LaunchDaemon installed, but dpld is on :");
        push_str(&mut d, dec_string(port as u64).as_str());
        push_check(
            c,
            "net.privports",
            cat,
            "Privileged ports",
            Status::Warn,
            d,
            Some("The daemon didn't get the launchd sockets \u{2014} a stray LaunchAgent copy of dpld may have started first."),
            Some(("Reinstall the port daemon", "sudo dpl setup")),
        );
    } else if port != 80 {
        let h = port_url_hint_of(port);
        push_check(
            c,
            "net.privports",
            cat,
            "Privileged ports",
            Status::Warn,
            String::from_str("not installed"),
            Some(h.as_str()),
            Some(("Run privileged setup", "sudo dpl setup")),
        );
    } else {
        push_check(c, "net.privports", cat, "Privileged ports", Status::Pass, String::from_str("dpld is serving :80 directly"), None, None);
    }
    if pf_anchor {
        push_check(
            c,
            "net.pf_legacy",
            cat,
            "Legacy pf redirect",
            Status::Warn,
            String::from_str("/etc/pf.anchors/dpl is still present"),
            Some("dpl no longer uses pf. The anchor does nothing now, but a stale rdr rule can still capture :80."),
            Some(("Clean it up", "sudo dpl setup")),
        );
    }
    assert(checks_view(c.0@) =~= start + macos_port_checks(port, launch_daemon, pf_anchor));
}

fn add_resolution_checks(c: &mut Checks, f: &NetworkFacts, cfg: &crate::config::LocalConfig)
    ensures
        checks_view(final(c).0@) == checks_view(old(c).0@) + resolution_checks(*f, *cfg),
{
    proof {
        reveal(resolution_checks);
    }
    let cat = "Networking";
    let ghost start = checks_view(c.0@);
    let uses_hosts = cfg.uses_hosts();
    if uses_hosts {
        push_check(
            c,
            "net.resolution",
            cat,
            "Resolution mode",
            Status::Info,
            String::from_str("hosts-file (iCloud Private Relay keeps working)"),
            None,
            None,
        );
        if str_contains(f.hosts_text.as_str(), "# >>> dpl managed") {
            push_check(c, "net.hosts", cat, "/etc/hosts entries", Status::Pass, String::from_str("dpl-managed block present"), None, None);
        } else {
            push_check(
                c,
                "net.hosts",
                cat,
                "/etc/hosts entries",
                Status::Warn,
                String::from_str("no dpl-managed block"),
                Some("Sites won't resolve until the daemon writes its block. Reload the daemon."),
                Some(("Reload the daemon", "dpl reload")),
            );
        }
        if f.sudoers {
            push_check(c, "net.sudoers", cat, "Sudoers rule", Status::Pass, String::from_str("/etc/sudoers.d/dpl installed"), None, None);
        } else {
            push_check(
                c,
                "net.sudoers",
                cat,
                "Sudoers rule",
                Status::Warn,
                String::from_str("not installed"),
                Some("Without it the daemon can't keep /etc/hosts in sync as you add sites."),
                Some(("Re-apply hosts mode", "dpl resolution hosts")),
            );
        }
    } else {
        push_check(
            c,
            "net.resolution",
            cat,
            "Resolution mode",
            Status::Info,
            String::from_str("wildcard DNS resolver"),
            Some("A local DNS resolver disables iCloud Private Relay. Switch to hosts mode to keep it on."),
            None,
        );
        let tlds = cfg.tlds();
        let ghost base = checks_view(c.0@);
        let ghost tv = str_views(tlds@);
        let mut i: usize = 0;
        assert(tv.take(0) =~= Seq::<Seq<char>>::empty());
        assert(checks_view(c.0@) =~= base + resolver_checks(tv.take(0), str_views(f.resolver_files@)));
        while i < tlds.len()
            invariant
                i <= tlds.len(),
                tv == str_views(tlds@),
                checks_view(c.0@) == base + resolver_checks(tv.take(i as int), str_views(f.resolver_files@)),
            decreases tlds.len() - i,
        {
            add_resolver_check(c, tlds[i].as_str(), &f.resolver_files);
            assert(tv.take(i + 1).drop_last() =~= tv.take(i as int));
            assert(checks_view(c.0@) =~= base + resolver_checks(tv.take(i + 1), str_views(f.resolver_files@)));
            i = i + 1;
        }
        assert(tv.take(tlds.len() as int) =~= tv);
    }
    assert(checks_view(c.0@) =~= start + resolution_checks(*f, *cfg));
}

fn add_dns_check(c: &mut Checks, answer: Option<[u8; 4]>, cfg: &crate::config::LocalConfig)
    ensures
        checks_view(final(c).0@) == checks_view(old(c).0@).push(
            dns_check(
                match answer {
                    Some(a) => Some(a@),
                    None => None,
                },
                crate::config::config_primary_tld(str_views(cfg.tlds@)),
                cfg.resolution matches Some(s) && s@ == "hosts"@,
            ),
        ),
{
    proof {
        reveal(dns_check);
    }
    let cat = "Networking";
    let uses_hosts = cfg.uses_hosts();
    let primary = cfg.primary_tld();
    match answer {
        Some(ip) => {
            if ip[0] == 127 && ip[1] == 0 && ip[2] == 0 && ip[3] == 1 {
                assert(ip@ =~= seq![127u8, 0u8, 0u8, 1u8]);
                let mut d = String::from_str("*.");
                push_str(&mut d, primary.as_str());
                push_str(&mut d, " \u{2192} 127.0.0.1 (:5333)");
                push_check(c, "net.dns", cat, "DNS responder", Status::Pass, d, None, None);
            } else {
                assert(ip@ != seq![127u8, 0u8, 0u8, 1u8]) by {
                    if ip@ == seq![127u8, 0u8, 0u8, 1u8] {
                        assert(ip@[0] == 127u8 && ip@[1] == 0u8 && ip@[2] == 0u8 && ip@[3] == 1u8);
                    }
                }
                let mut d = String::from_str("answered ");
                push_str(&mut d, dotted_of(ip).as_str());
                push_str(&mut d, ", expected 127.0.0.1");
                push_check(c, "net.dns", cat, "DNS responder", Status::Warn, d, None, None);
            }
        },
        None => {
            if uses_hosts {
                push_check(c, "net.dns", cat, "DNS responder", Status::Warn, String::from_str("no answer on :5333"), None, None);
            } else {
                push_check(
                    c,
                    "net.dns",
                    cat,
                    "DNS responder",
                    Status::Warn,
                    String::from_str("no answer on :5333"),
                    Some("In resolver mode, .test lookups go here \u{2014} sites won't resolve while it's silent."),
                    Some(("Restart the daemon", "dpl restart")),
                );
            }
        },
    }
}

/// Add the networking checks (see [`network_checks`]).
#[verifier::spinoff_prover]
pub fn check_networking(c: &mut Checks, f: &NetworkFacts, cfg: &crate::config::LocalConfig)
    ensures
        checks_view(final(c).0@) == checks_view(old(c).0@) + network_checks(*f, *cfg),
{
    proof {
        reveal(network_checks);
    }
    let cat = "Networking";
    let ghost start = checks_view(c.0@);
    let port = match f.http_port {
        Some(p) => p,
        None => {
            push_check(
                c,
                "net.proxy",
                cat,
                "HTTP proxy",
                Status::Fail,
                String::from_str("not listening (daemon is down)"),
                None,
                Some(("Start the daemon", "dpl start")),
            );
            assert(checks_view(c.0@) =~= start + network_checks(*f, *cfg));
            return;
        },
    };
    let mut d = String::from_str("listening on port ");
    push_str(&mut d, dec_string(port as u64).as_str());
    push_check(c, "net.proxy", cat, "HTTP proxy", Status::Pass, d, None, None);
    add_port_checks(c, port, f.macos, &f.port_80_server, f.port_443_held);
    if f.macos {
        add_macos_port_checks(c, port, f.launch_daemon, f.pf_anchor);
    }
    add_resolution_checks(c, f, cfg);
    add_dns_check(c, f.dns_answer, cfg);
    add_sink(c, "net.mail", "Mail sink", 1025, f.mail_listening, "Mail sent from sites won't be captured. Restart the daemon.");
    add_sink(c, "net.dumps", "Debug bridge", 9912, f.dumps_listening, "`dump()` output won't reach the Dumps panel. Restart the daemon.");
    assert(checks_view(c.0@) =~= start + network_checks(*f, *cfg));
}

// ----------------------------------------------------------------------- TLS

/// The extension of a file name as `Path::extension` gives it: what follows
/// its last `.`, unless there is none or the name only starts with one.
pub open spec fn extension(name: Seq<char>) -> Option<Seq<char>> {
    match last_index_of(name, '.') {
        Some(k) => if k == 0 {
            None
        } else {
            Some(name.skip(k + 1))
        },
        None => None,
    }
}

/// A site certificate among the certificate directory's files: a `.crt` or
/// `.pem` other than the CA's own `ca.pem`.
pub open spec fn is_site_cert(name: Seq<char>) -> bool {
    (extension(name) == Some("crt"@) || extension(name) == Some("pem"@)) && name != "ca.pem"@
}

/// How many of `names` are site certificates.
pub open spec fn site_cert_count(names: Seq<Seq<char>>) -> nat
    decreases names.len(),
{
    if names.len() == 0 {
        0
    } else {
        site_cert_count(names.drop_last()) + if is_site_cert(names.last()) {
            1nat
        } else {
            0nat
        }
    }
}

/// Whether `name` is a site certificate.
pub fn site_cert(name: &str) -> (r: bool)
    ensures
        r == is_site_cert(name@),
{
    let cs = to_chars(name);
    let ext = match last_index(&cs, '.') {
        Some(k) => if k == 0 {
            None
        } else {
            let n = cs.len();
            let e = slice_chars(&cs, k + 1, n);
            assert(e@ =~= cs@.skip(k + 1));
            Some(e)
        },
        None => None,
    };
    let is_cert = match &ext {
        Some(e) => crate::text::chars_eq(e, &to_chars("crt")) || crate::text::chars_eq(e, &to_chars("pem")),
        None => false,
    };
    is_cert && !str_eq(name, "ca.pem")
}

/// How many of the certificate directory's file names are site
/// certificates.
pub fn count_site_certs(names: &[String]) -> (r: usize)
    ensures
        r == site_cert_count(str_views(names@)),
{
    let mut n: usize = 0;
    let mut i: usize = 0;
    while i < names.len()
        invariant
            i <= names.len(),
            n <= i,
            n == site_cert_count(str_views(names@).take(i as int)),
        decreases names.len() - i,
    {
        assert(str_views(names@).take(i + 1).drop_last() =~= str_views(names@).take(i as int));
        if site_cert(names[i].as_str()) {
            n = n + 1;
        }
        i = i + 1;
    }
    assert(str_views(names@).take(names.len() as int) =~= str_views(names@));
    n
}

/// The certificate that expires soonest: the first with the fewest days
/// left.
pub fn soonest_expiry(certs: &[(String, i64)]) -> (r: Option<(String, i64)>)
    ensures
        r is None <==> certs@.len() == 0,
        r matches Some((name, days)) ==> exists|i: int|
            0 <= i < certs@.len() && (#[trigger] certs@[i]).0@ == name@ && certs@[i].1 == days
                && (forall|j: int| 0 <= j < certs@.len() ==> days <= (#[trigger] certs@[j]).1)
                && (forall|j: int| 0 <= j < i ==> days < (#[trigger] certs@[j]).1),
{
    if certs.len() == 0 {
        return None;
    }
    let mut best: usize = 0;
    let mut i: usize = 1;
    while i < certs.len()
        invariant
            1 <= i <= certs.len(),
            best < i,
            forall|j: int| 0 <= j < i ==> certs@[best as int].1 <= (#[trigger] certs@[j]).1,
            forall|j: int| 0 <= j < best ==> certs@[best as int].1 < (#[trigger] certs@[j]).1,
        decreases certs.len() - i,
    {
        if certs[i].1 < certs[best].1 {
            best = i;
        }
        i = i + 1;
    }
    Some((copy_string(&certs[best].0), certs[best].1))
}

/// The TLS checks: the local CA, whether it is trusted, how many site
/// certificates are issued, and the one that expires soonest.
#[verifier::opaque]
pub open spec fn tls_checks(
    ca: Seq<char>,
    ca_exists: bool,
    ca_trusted: Option<bool>,
    issued: nat,
    soonest: Option<(Seq<char>, i64)>,
) -> Seq<CheckView> {
    let cat = "TLS"@;
    if !ca_exists {
        seq![
            fixed(
                hinted(
                    plain("tls.ca"@, cat, "Local CA"@, Status::Fail, "missing at "@ + ca),
                    "The daemon generates it on first start; HTTPS sites can't be issued certificates without it."@,
                ),
                "Start the daemon"@,
                "dpl start"@,
            ),
        ]
    } else {
        seq![
            plain("tls.ca"@, cat, "Local CA"@, Status::Pass, ca),
            match ca_trusted {
                Some(true) => plain("tls.trust"@, cat, "CA trusted"@, Status::Pass, "trusted in the system keychain"@),
                Some(false) => fixed(
                    hinted(
                        plain("tls.trust"@, cat, "CA trusted"@, Status::Warn, "not in the system keychain"@),
                        "HTTPS sites will show a certificate warning until the CA is trusted."@,
                    ),
                    "Trust the CA"@,
                    "sudo dpl trust"@,
                ),
                None => plain("tls.trust"@, cat, "CA trusted"@, Status::Info, "trust state not checked on this platform"@),
            },
            plain("tls.certs"@, cat, "Site certificates"@, Status::Info, dec(issued) + " issued"@),
        ] + match soonest {
            Some((name, days)) => {
                let status = if days < 0 {
                    Status::Fail
                } else if days < 14 {
                    Status::Warn
                } else {
                    Status::Pass
                };
                let detail = if days < 0 {
                    name + " expired "@ + dec((-days) as nat) + " day(s) ago"@
                } else {
                    name + " expires in "@ + dec(days as nat) + " day(s)"@
                };
                let v = plain("tls.expiry"@, cat, "Certificate expiry"@, status, detail);
                seq![if status == Status::Pass { v } else { hinted(v, "Re-secure the site to reissue its certificate."@) }]
            },
            None => Seq::empty(),
        }
    }
}

/// Add the TLS checks (see [`tls_checks`]): `ca` is the CA's path, `issued`
/// the count of site certificates, `soonest` the certificate expiring
/// soonest with its days left.
pub fn check_tls(
    c: &mut Checks,
    ca: &str,
    ca_exists: bool,
    ca_trusted: Option<bool>,
    issued: usize,
    soonest: Option<(&str, i64)>,
)
    requires
        soonest matches Some((_, d)) ==> d > i64::MIN,
    ensures
        checks_view(final(c).0@) == checks_view(old(c).0@) + tls_checks(
            ca@,
            ca_exists,
            ca_trusted,
            issued as nat,
            match soonest {
                Some((n, d)) => Some((n@, d)),
                None => None,
            },
        ),
{
    proof {
        reveal(tls_checks);
    }
    let ghost start = checks_view(c.0@);
    let cat = "TLS";
    if !ca_exists {
        let mut d = String::from_str("missing at ");
        push_str(&mut d, ca);
        push_check(
            c,
            "tls.ca",
            cat,
            "Local CA",
            Status::Fail,
            d,
            Some("The daemon generates it on first start; HTTPS sites can't be issued certificates without it."),
            Some(("Start the daemon", "dpl start")),
        );
        return;
    }
    push_check(c, "tls.ca", cat, "Local CA", Status::Pass, String::from_str(ca), None, None);
    match ca_trusted {
        Some(true) => push_check(c, "tls.trust", cat, "CA trusted", Status::Pass, String::from_str("trusted in the system keychain"), None, None),
        Some(false) => push_check(
            c,
            "tls.trust",
            cat,
            "CA trusted",
            Status::Warn,
            String::from_str("not in the system keychain"),
            Some("HTTPS sites will show a certificate warning until the CA is trusted."),
            Some(("Trust the CA", "sudo dpl trust")),
        ),
        None => push_check(c, "tls.trust", cat, "CA trusted", Status::Info, String::from_str("trust state not checked on this platform"), None, None),
    }
    let mut d = dec_string(issued as u64);
    push_str(&mut d, " issued");
    push_check(c, "tls.certs", cat, "Site certificates", Status::Info, d, None, None);
    if let Some((name, days)) = soonest {
        let status = if days < 0 {
            Status::Fail
        } else if days < 14 {
            Status::Warn
        } else {
            Status::Pass
        };
        let mut detail = String::from_str(name);
        if days < 0 {
            push_str(&mut detail, " expired ");
            push_str(&mut detail, dec_string((-days) as u64).as_str());
            push_str(&mut detail, " day(s) ago");
        } else {
            push_str(&mut detail, " expires in ");
            push_str(&mut detail, dec_string(days as u64).as_str());
            push_str(&mut detail, " day(s)");
        }
        let pass = match status {
            Status::Pass => true,
            _ => false,
        };
        if pass {
            push_check(c, "tls.expiry", cat, "Certificate expiry", status, detail, None, None);
        } else {
            push_check(c, "tls.expiry", cat, "Certificate expiry", status, detail, Some("Re-secure the site to reissue its certificate."), None);
        }
    }
    assert(checks_view(c.0@) =~= start + tls_checks(
        ca@,
        ca_exists,
        ca_trusted,
        issued as nat,
        match soonest {
            Some((n, d)) => Some((n@, d)),
            None => None,
        },
    ));
}

// ------------------------------------------------------------------ services

/// What a service's state reads as.
pub open spec fn service_state(external: bool, running: bool, installed: bool) -> (Status, Seq<char>) {
    if external {
        (Status::Pass, "running (external, e.g. DBngin/Postgres.app)"@)
    } else if running {
        (Status::Pass, "running (managed by dpl)"@)
    } else if installed {
        (Status::Warn, "installed, stopped"@)
    } else {
        (Status::Warn, "not installed"@)
    }
}

/// One service's check: its state and port, with a fix to start it when it
/// is installed, stopped, and dpl's to manage.
pub open spec fn service_check(s: crate::ipc::ServiceInfo) -> CheckView {
    let (status, state) = service_state(s.external, s.running, s.installed);
    let v = plain("services."@ + s.name@, "Services"@, s.name@, status, state + " on port "@ + dec(s.port as nat));
    if !s.running && s.installed && !s.external {
        fixed(v, "Start it"@, "dpl service start "@ + s.name@)
    } else {
        v
    }
}

/// The checks of each service, in order.
pub open spec fn service_checks(ss: Seq<crate::ipc::ServiceInfo>) -> Seq<CheckView>
    decreases ss.len(),
{
    if ss.len() == 0 {
        Seq::empty()
    } else {
        service_checks(ss.drop_last()).push(service_check(ss.last()))
    }
}

/// The services checks: DBngin when present, then each configured service
/// (`services` is `None` when the daemon could not list them).
pub open spec fn services_checks(dbngin: bool, services: Option<Seq<crate::ipc::ServiceInfo>>) -> Seq<CheckView> {
    (if dbngin {
        seq![plain("services.dbngin"@, "Services"@, "DBngin"@, Status::Info, "detected \u{2014} dpl uses its running engines"@)]
    } else {
        Seq::empty()
    }) + match services {
        None => Seq::empty(),
        Some(ss) => if ss.len() == 0 {
            seq![plain("services.none"@, "Services"@, "Databases & caches"@, Status::Info, "no services configured"@)]
        } else {
            service_checks(ss)
        },
    }
}

fn add_service_check(c: &mut Checks, s: &crate::ipc::ServiceInfo)
    ensures
        checks_view(final(c).0@) == checks_view(old(c).0@).push(service_check(*s)),
{
    let (status, state) = if s.external {
        (Status::Pass, "running (external, e.g. DBngin/Postgres.app)")
    } else if s.running {
        (Status::Pass, "running (managed by dpl)")
    } else if s.installed {
        (Status::Warn, "installed, stopped")
    } else {
        (Status::Warn, "not installed")
    };
    let mut id = String::from_str("services.");
    push_str(&mut id, s.name.as_str());
    let mut d = String::from_str(state);
    push_str(&mut d, " on port ");
    push_str(&mut d, dec_string(s.port as u64).as_str());
    if !s.running && s.installed && !s.external {
        let mut cmd = String::from_str("dpl service start ");
        push_str(&mut cmd, s.name.as_str());
        push_check(c, id.as_str(), "Services", s.name.as_str(), status, d, None, Some(("Start it", cmd.as_str())));
    } else {
        push_check(c, id.as_str(), "Services", s.name.as_str(), status, d, None, None);
    }
}

/// Add the services checks (see [`services_checks`]).
pub fn check_services(c: &mut Checks, dbngin: bool, services: Option<&[crate::ipc::ServiceInfo]>)
    ensures
        checks_view(final(c).0@) == checks_view(old(c).0@) + services_checks(
            dbngin,
            match services {
                Some(ss) => Some(ss@),
                None => None,
            },
        ),
{
    let ghost start = checks_view(c.0@);
    if dbngin {
        push_check(c, "services.dbngin", "Services", "DBngin", Status::Info, String::from_str("detected \u{2014} dpl uses its running engines"), None, None);
    }
    let ghost mid = checks_view(c.0@);
    match services {
        None => {},
        Some(ss) => {
            if ss.len() == 0 {
                push_check(c, "services.none", "Services", "Databases & caches", Status::Info, String::from_str("no services configured"), None, None);
            } else {
                let mut i: usize = 0;
                assert(ss@.take(0) =~= Seq::<crate::ipc::ServiceInfo>::empty());
                assert(checks_view(c.0@) =~= mid + service_checks(ss@.take(0)));
                while i < ss.len()
                    invariant
                        i <= ss.len(),
                        checks_view(c.0@) == mid + service_checks(ss@.take(i as int)),
                    decreases ss.len() - i,
                {
                    add_service_check(c, &ss[i]);
                    assert(ss@.take(i + 1).drop_last() =~= ss@.take(i as int));
                    assert(checks_view(c.0@) =~= mid + service_checks(ss@.take(i + 1)));
                    i = i + 1;
                }
                assert(ss@.take(ss.len() as int) =~= ss@);
            }
        },
    }
    assert(checks_view(c.0@) =~= start + services_checks(
        dbngin,
        match services {
            Some(ss) => Some(ss@),
            None => None,
        },
    ));
}

// ------------------------------------------------------------------- tooling

/// An optional tool's check: where it is, or a warning with why it matters
/// and how to install it.
pub open spec fn tool_check(id: Seq<char>, found: Option<Seq<char>>, title: Seq<char>, why: Seq<char>, install: Seq<char>) -> CheckView {
    match found {
        Some(p) => plain(id, "Tooling"@, title, Status::Pass, p),
        None => fixed(hinted(plain(id, "Tooling"@, title, Status::Warn, "not installed"@), why), "Install it"@, install),
    }
}

fn add_tool_check(c: &mut Checks, id: &str, found: Option<&str>, title: &str, why: &str, install: &str)
    ensures
        checks_view(final(c).0@) == checks_view(old(c).0@).push(
            tool_check(id@, crate::node::opt_str(found), title@, why@, install@),
        ),
{
    match found {
        Some(p) => push_check(c, id, "Tooling", title, Status::Pass, String::from_str(p), None, None),
        None => push_check(c, id, "Tooling", title, Status::Warn, String::from_str("not installed"), Some(why), Some(("Install it", install))),
    }
}

/// Where the daemon looks for the Jetty CLI, in order, under `home`.
pub open spec fn jetty_paths(home: Seq<char>) -> Seq<Seq<char>> {
    seq![
        home + "/.local/bin/jetty"@,
        home + "/.composer/vendor/bin/jetty"@,
        home + "/.config/composer/vendor/bin/jetty"@,
        "/opt/homebrew/bin/jetty"@,
        "/usr/local/bin/jetty"@,
    ]
}

/// The places the daemon looks for the Jetty CLI, under `home`.
pub fn jetty_candidates(home: &str) -> (r: Vec<String>)
    ensures
        str_views(r@) == jetty_paths(home@),
{
    let mut v: Vec<String> = Vec::new();
    let mut a = String::from_str(home);
    push_str(&mut a, "/.local/bin/jetty");
    v.push(a);
    let mut b = String::from_str(home);
    push_str(&mut b, "/.composer/vendor/bin/jetty");
    v.push(b);
    let mut c = String::from_str(home);
    push_str(&mut c, "/.config/composer/vendor/bin/jetty");
    v.push(c);
    v.push(String::from_str("/opt/homebrew/bin/jetty"));
    v.push(String::from_str("/usr/local/bin/jetty"));
    assert(str_views(v@) =~= jetty_paths(home@));
    v
}

/// The Jetty check, from the candidate installs that exist (in search order)
/// and what `which jetty` found: missing, several copies (which drift
/// apart), or the one in use.
#[verifier::opaque]
pub open spec fn jetty_check(installs: Seq<Seq<char>>, which: Option<Seq<char>>) -> CheckView {
    let cat = "Tooling"@;
    if installs.len() == 0 && which is None {
        fixed(
            hinted(
                plain("tool.jetty"@, cat, "Jetty CLI"@, Status::Warn, "not installed"@),
                "Needed by `dpl share` to give a site a permanent public URL."@,
            ),
            "Install it"@,
            "composer global require jetty/client"@,
        )
    } else if installs.len() > 1 {
        fixed(
            hinted(
                plain(
                    "tool.jetty"@,
                    cat,
                    "Jetty CLI"@,
                    Status::Warn,
                    dec(installs.len()) + " installs: "@ + crate::text::join(installs, ", "@),
                ),
                "Several copies can drift to different versions, and a stale one fails in a way that looks like a broken tunnel rather than a broken install. dpl uses the first."@,
            ),
            "Clean them up"@,
            "jetty doctor"@,
        )
    } else {
        plain(
            "tool.jetty"@,
            cat,
            "Jetty CLI"@,
            Status::Pass,
            if installs.len() > 0 {
                installs[0]
            } else {
                which->0
            },
        )
    }
}


/// Add the Jetty check (see [`jetty_check`]).
pub fn check_jetty(c: &mut Checks, installs: &Vec<String>, which: Option<&str>)
    ensures
        checks_view(final(c).0@) == checks_view(old(c).0@).push(jetty_check(str_views(installs@), crate::node::opt_str(which))),
{
    proof {
        reveal(jetty_check);
    }
    let cat = "Tooling";
    if installs.len() == 0 && which.is_none() {
        push_check(
            c,
            "tool.jetty",
            cat,
            "Jetty CLI",
            Status::Warn,
            String::from_str("not installed"),
            Some("Needed by `dpl share` to give a site a permanent public URL."),
            Some(("Install it", "composer global require jetty/client")),
        );
        return;
    }
    if installs.len() > 1 {
        let mut d = dec_string(installs.len() as u64);
        push_str(&mut d, " installs: ");
        push_str(&mut d, join_strings(installs, ", ").as_str());
        push_check(
            c,
            "tool.jetty",
            cat,
            "Jetty CLI",
            Status::Warn,
            d,
            Some("Several copies can drift to different versions, and a stale one fails in a way that looks like a broken tunnel rather than a broken install. dpl uses the first."),
            Some(("Clean them up", "jetty doctor")),
        );
    } else {
        let primary = if installs.len() > 0 {
            copy_string(&installs[0])
        } else {
            match which {
                Some(w) => String::from_str(w),
                None => String::new(),
            }
        };
        push_check(c, "tool.jetty", cat, "Jetty CLI", Status::Pass, primary, None, None);
    }
}

/// The tooling checks: Homebrew, Composer, cloudflared, Jetty, and Valet
/// when present (it contends for ports 80/443).
pub open spec fn tooling_checks(
    brew: Option<Seq<char>>,
    composer: Option<Seq<char>>,
    cloudflared: Option<Seq<char>>,
    jetty_installs: Seq<Seq<char>>,
    jetty_which: Option<Seq<char>>,
    valet: Option<Seq<char>>,
) -> Seq<CheckView> {
    seq![
        tool_check("tool.brew"@, brew, "Homebrew"@, "dpl installs and repairs PHP versions through Homebrew."@, ""@),
        tool_check("tool.composer"@, composer, "Composer"@, "Needed to set up Laravel Octane for a site."@, "brew install composer"@),
        tool_check(
            "tool.cloudflared"@,
            cloudflared,
            "cloudflared"@,
            "Needed by `dpl share quick` for a one-off public URL. Not needed for `dpl share`, which uses Jetty."@,
            "brew install cloudflared"@,
        ),
        jetty_check(jetty_installs, jetty_which),
    ] + match valet {
        Some(p) => seq![
            hinted(
                plain("tool.valet"@, "Tooling"@, "Laravel Valet"@, Status::Info, "installed at "@ + p),
                "Valet and dpl both want ports 80/443. `dpl takeover` hands them to dpl; `dpl untakeover` gives them back."@,
            ),
        ],
        None => Seq::empty(),
    }
}

/// Add the tooling checks (see [`tooling_checks`]): where each tool was
/// found, and which Jetty installs exist.
pub fn check_tooling(
    c: &mut Checks,
    brew: Option<&str>,
    composer: Option<&str>,
    cloudflared: Option<&str>,
    jetty_installs: &Vec<String>,
    jetty_which: Option<&str>,
    valet: Option<&str>,
)
    ensures
        checks_view(final(c).0@) == checks_view(old(c).0@) + tooling_checks(
            crate::node::opt_str(brew),
            crate::node::opt_str(composer),
            crate::node::opt_str(cloudflared),
            str_views(jetty_installs@),
            crate::node::opt_str(jetty_which),
            crate::node::opt_str(valet),
        ),
{
    let ghost start = checks_view(c.0@);
    add_tool_check(c, "tool.brew", brew, "Homebrew", "dpl installs and repairs PHP versions through Homebrew.", "");
    add_tool_check(c, "tool.composer", composer, "Composer", "Needed to set up Laravel Octane for a site.", "brew install composer");
    add_tool_check(
        c,
        "tool.cloudflared",
        cloudflared,
        "cloudflared",
        "Needed by `dpl share quick` for a one-off public URL. Not needed for `dpl share`, which uses Jetty.",
        "brew install cloudflared",
    );
    check_jetty(c, jetty_installs, jetty_which);
    if let Some(p) = valet {
        let mut d = String::from_str("installed at ");
        push_str(&mut d, p);
        push_check(
            c,
            "tool.valet",
            "Tooling",
            "Laravel Valet",
            Status::Info,
            d,
            Some("Valet and dpl both want ports 80/443. `dpl takeover` hands them to dpl; `dpl untakeover` gives them back."),
            None,
        );
    }
    assert(checks_view(c.0@) =~= start + tooling_checks(
        crate::node::opt_str(brew),
        crate::node::opt_str(composer),
        crate::node::opt_str(cloudflared),
        str_views(jetty_installs@),
        crate::node::opt_str(jetty_which),
        crate::node::opt_str(valet),
    ));
}

// --------------------------------------------------------------------- sites

/// A site that serves from a project folder (everything but a proxy).
pub open spec fn has_folder(s: crate::ipc::SiteInfo) -> bool {
    s.source@ != "proxy"@
}

/// Names of the sites whose project folder is gone.
pub open spec fn missing_folders(ss: Seq<crate::ipc::SiteInfo>, dirs: Seq<Seq<char>>) -> Seq<Seq<char>>
    decreases ss.len(),
{
    if ss.len() == 0 {
        Seq::empty()
    } else {
        let s = ss.last();
        let rest = missing_folders(ss.drop_last(), dirs);
        if has_folder(s) && s.path@.len() > 0 && !dirs.contains(s.path@) {
            rest.push(s.name@)
        } else {
            rest
        }
    }
}

/// Names of the sites whose folder exists but whose document root does not.
pub open spec fn missing_docroots(ss: Seq<crate::ipc::SiteInfo>, dirs: Seq<Seq<char>>) -> Seq<Seq<char>>
    decreases ss.len(),
{
    if ss.len() == 0 {
        Seq::empty()
    } else {
        let s = ss.last();
        let rest = missing_docroots(ss.drop_last(), dirs);
        if has_folder(s) && s.docroot@.len() > 0 && dirs.contains(s.path@) && !dirs.contains(s.docroot@) {
            rest.push(s.name@)
        } else {
            rest
        }
    }
}

/// `a < b` for `(major, minor)` pairs, as tuples order.
pub open spec fn version_lt(a: (u32, u32), b: (u32, u32)) -> bool {
    a.0 < b.0 || (a.0 == b.0 && a.1 < b.1)
}

/// The PHP a site runs: its own pin, else the default.
pub open spec fn effective_php(own: Option<String>, default: Option<Seq<char>>) -> Option<Seq<char>> {
    match own {
        Some(p) => Some(p@),
        None => default,
    }
}

/// The note for a site running an older PHP than it requires, if it does.
pub open spec fn php_shortfall(s: crate::ipc::SiteInfo, default: Option<Seq<char>>) -> Option<Seq<char>> {
    let req = match s.requires_php {
        Some(r) => version_of(r@),
        None => None,
    };
    let eff = match effective_php(s.php, default) {
        Some(p) => version_of(p),
        None => None,
    };
    match (req, eff) {
        (Some(r), Some(e)) => if version_lt(e, r) {
            Some(s.name@ + " needs "@ + dec(r.0 as nat) + "."@ + dec(r.1 as nat) + ", runs "@ + dec(e.0 as nat) + "."@ + dec(e.1 as nat))
        } else {
            None
        },
        _ => None,
    }
}

/// The notes for every site running older PHP than it requires.
pub open spec fn php_shortfalls(ss: Seq<crate::ipc::SiteInfo>, default: Option<Seq<char>>) -> Seq<Seq<char>>
    decreases ss.len(),
{
    if ss.len() == 0 {
        Seq::empty()
    } else {
        let rest = php_shortfalls(ss.drop_last(), default);
        match php_shortfall(ss.last(), default) {
            Some(n) => rest.push(n),
            None => rest,
        }
    }
}

/// The parked folders that are gone.
pub open spec fn gone_parked(parked: Seq<Seq<char>>, dirs: Seq<Seq<char>>) -> Seq<Seq<char>>
    decreases parked.len(),
{
    if parked.len() == 0 {
        Seq::empty()
    } else {
        let rest = gone_parked(parked.drop_last(), dirs);
        if dirs.contains(parked.last()) {
            rest
        } else {
            rest.push(parked.last())
        }
    }
}

/// One proxy's check, when its target points at this machine.
pub open spec fn proxy_check(name: Seq<char>, target: Seq<char>, listening: Seq<u16>) -> Option<CheckView> {
    match local_target_of(target) {
        Some((host, port)) => Some(
            if listening.contains(port) {
                plain("sites.proxy."@ + name, "Sites"@, "Proxy "@ + name, Status::Pass, "upstream "@ + target + " is up"@)
            } else {
                hinted(
                    plain(
                        "sites.proxy."@ + name,
                        "Sites"@,
                        "Proxy "@ + name,
                        Status::Warn,
                        "nothing listening on "@ + host + ":"@ + dec(port as nat),
                    ),
                    "Start the dev server this proxy forwards to (e.g. `npm run dev`)."@,
                )
            },
        ),
        None => None,
    }
}

/// The checks of every proxy that points at this machine.
pub open spec fn proxy_checks(proxies: Seq<(String, String)>, listening: Seq<u16>) -> Seq<CheckView>
    decreases proxies.len(),
{
    if proxies.len() == 0 {
        Seq::empty()
    } else {
        let rest = proxy_checks(proxies.drop_last(), listening);
        match proxy_check(proxies.last().0@, proxies.last().1@, listening) {
            Some(v) => rest.push(v),
            None => rest,
        }
    }
}

/// How many sites satisfy a flag.
pub open spec fn count_serving(ss: Seq<crate::ipc::SiteInfo>) -> nat
    decreases ss.len(),
{
    if ss.len() == 0 {
        0
    } else {
        count_serving(ss.drop_last()) + if ss.last().serving {
            1nat
        } else {
            0nat
        }
    }
}

/// How many sites are on HTTPS.
pub open spec fn count_secure(ss: Seq<crate::ipc::SiteInfo>) -> nat
    decreases ss.len(),
{
    if ss.len() == 0 {
        0
    } else {
        count_secure(ss.drop_last()) + if ss.last().secure {
            1nat
        } else {
            0nat
        }
    }
}

/// The sites checks: what is registered, folders that are gone, document
/// roots that are missing, sites on an older PHP than they require, parked
/// folders that are gone, and proxies whose upstream is down. `dirs` lists
/// the directories that exist, `default_php` the version unpinned sites run,
/// `listening` the local ports something listens on.
#[verifier::opaque]
pub open spec fn sites_checks(
    sites: Option<Seq<crate::ipc::SiteInfo>>,
    dirs: Seq<Seq<char>>,
    parked: Seq<Seq<char>>,
    proxies: Seq<(String, String)>,
    default_php: Option<Seq<char>>,
    listening: Seq<u16>,
) -> Seq<CheckView> {
    let cat = "Sites"@;
    match sites {
        None => seq![plain("sites.registry"@, cat, "Sites"@, Status::Fail, "unavailable (daemon is down)"@)],
        Some(ss) => {
            let missing = missing_folders(ss, dirs);
            let docroots = missing_docroots(ss, dirs);
            let short = php_shortfalls(ss, default_php);
            let gone = gone_parked(parked, dirs);
            seq![
                plain(
                    "sites.registry"@,
                    cat,
                    "Registered"@,
                    Status::Pass,
                    dec(ss.len()) + " site(s), "@ + dec(count_serving(ss)) + " serving, "@ + dec(count_secure(ss)) + " on HTTPS"@,
                ),
                if missing.len() == 0 {
                    plain("sites.paths"@, cat, "Project folders"@, Status::Pass, "all present"@)
                } else {
                    fixed(
                        hinted(
                            plain("sites.paths"@, cat, "Project folders"@, Status::Fail, "missing: "@ + crate::text::join(missing, ", "@)),
                            "These sites point at folders that no longer exist. Unlink them, or restore the folder."@,
                        ),
                        "Unlink missing sites"@,
                        "dpl unlink --missing"@,
                    )
                },
            ] + (if docroots.len() == 0 {
                Seq::empty()
            } else {
                seq![
                    hinted(
                        plain("sites.docroots"@, cat, "Document roots"@, Status::Warn, "missing: "@ + crate::text::join(docroots, ", "@)),
                        "The site serves from a folder that doesn't exist yet (e.g. `public/` before install)."@,
                    ),
                ]
            }) + (if short.len() == 0 {
                Seq::empty()
            } else {
                seq![
                    hinted(
                        plain("sites.php_requirement"@, cat, "PHP requirements"@, Status::Warn, crate::text::join(short, "; "@)),
                        "Pin a newer PHP for these sites (right-click a site \u{2192} Switch PHP Version)."@,
                    ),
                ]
            }) + (if gone.len() == 0 {
                Seq::empty()
            } else {
                seq![
                    hinted(
                        plain("sites.parked"@, cat, "Parked folders"@, Status::Warn, "missing: "@ + crate::text::join(gone, ", "@)),
                        "Every site under a parked folder disappears with it. Unpark it (`dpl unpark <path>`) or restore the folder."@,
                    ),
                ]
            }) + proxy_checks(proxies, listening)
        },
    }
}

/// Whether `port` is among `ports`.
fn has_port(ports: &[u16], port: u16) -> (r: bool)
    ensures
        r == ports@.contains(port),
{
    let mut i: usize = 0;
    while i < ports.len()
        invariant
            i <= ports.len(),
            forall|k: int| 0 <= k < i ==> ports@[k] != port,
        decreases ports.len() - i,
    {
        if ports[i] == port {
            return true;
        }
        i = i + 1;
    }
    false
}

fn site_lists(ss: &[crate::ipc::SiteInfo], dirs: &[String], default_php: &Option<String>) -> (r: (Vec<String>, Vec<String>, Vec<String>, usize, usize))
    ensures
        str_views(r.0@) == missing_folders(ss@, str_views(dirs@)),
        str_views(r.1@) == missing_docroots(ss@, str_views(dirs@)),
        str_views(r.2@) == php_shortfalls(ss@, crate::sites::opt_view(*default_php)),
        r.3 == count_serving(ss@),
        r.4 == count_secure(ss@),
{
    let ghost dv = str_views(dirs@);
    let ghost dp = crate::sites::opt_view(*default_php);
    let mut missing: Vec<String> = Vec::new();
    let mut docroots: Vec<String> = Vec::new();
    let mut short: Vec<String> = Vec::new();
    let mut serving: usize = 0;
    let mut secure: usize = 0;
    let mut i: usize = 0;
    while i < ss.len()
        invariant
            i <= ss.len(),
            dv == str_views(dirs@),
            dp == crate::sites::opt_view(*default_php),
            serving <= i,
            secure <= i,
            str_views(missing@) == missing_folders(ss@.take(i as int), dv),
            str_views(docroots@) == missing_docroots(ss@.take(i as int), dv),
            str_views(short@) == php_shortfalls(ss@.take(i as int), dp),
            serving == count_serving(ss@.take(i as int)),
            secure == count_secure(ss@.take(i as int)),
        decreases ss.len() - i,
    {
        let s = &ss[i];
        let ghost t = ss@.take(i + 1);
        assert(t.drop_last() =~= ss@.take(i as int));
        assert(t.last() == ss@[i as int]);
        let folder = !str_eq(s.source.as_str(), "proxy");
        let path_there = crate::sites::has_file(dirs, s.path.as_str());
        if folder && !str_is_empty(s.path.as_str()) && !path_there {
            let ghost before = str_views(missing@);
            missing.push(copy_string(&s.name));
            assert(str_views(missing@) =~= before.push(s.name@));
        }
        if folder && !str_is_empty(s.docroot.as_str()) && path_there && !crate::sites::has_file(dirs, s.docroot.as_str()) {
            let ghost before = str_views(docroots@);
            docroots.push(copy_string(&s.name));
            assert(str_views(docroots@) =~= before.push(s.name@));
        }
        let req = match &s.requires_php {
            Some(r) => parse_version(r.as_str()),
            None => None,
        };
        let eff_src: Option<&str> = match &s.php {
            Some(p) => Some(p.as_str()),
            None => match default_php {
                Some(d) => Some(d.as_str()),
                None => None,
            },
        };
        let eff = match eff_src {
            Some(p) => parse_version(p),
            None => None,
        };
        if let (Some(r), Some(e)) = (req, eff) {
            if e.0 < r.0 || (e.0 == r.0 && e.1 < r.1) {
                let mut n = copy_string(&s.name);
                push_str(&mut n, " needs ");
                push_str(&mut n, dec_string(r.0 as u64).as_str());
                push_str(&mut n, ".");
                push_str(&mut n, dec_string(r.1 as u64).as_str());
                push_str(&mut n, ", runs ");
                push_str(&mut n, dec_string(e.0 as u64).as_str());
                push_str(&mut n, ".");
                push_str(&mut n, dec_string(e.1 as u64).as_str());
                let ghost before = str_views(short@);
                short.push(n);
                assert(str_views(short@) =~= before.push(php_shortfall(ss@[i as int], dp)->0));
            }
        }
        if s.serving {
            serving = serving + 1;
        }
        if s.secure {
            secure = secure + 1;
        }
        i = i + 1;
    }
    assert(ss@.take(ss.len() as int) =~= ss@);
    (missing, docroots, short, serving, secure)
}

fn gone_parked_of(parked: &Vec<String>, dirs: &[String]) -> (r: Vec<String>)
    ensures
        str_views(r@) == gone_parked(str_views(parked@), str_views(dirs@)),
{
    let ghost pv = str_views(parked@);
    let mut out: Vec<String> = Vec::new();
    let mut i: usize = 0;
    while i < parked.len()
        invariant
            i <= parked.len(),
            pv == str_views(parked@),
            str_views(out@) == gone_parked(pv.take(i as int), str_views(dirs@)),
        decreases parked.len() - i,
    {
        assert(pv.take(i + 1).drop_last() =~= pv.take(i as int));
        if !crate::sites::has_file(dirs, parked[i].as_str()) {
            let ghost before = str_views(out@);
            out.push(copy_string(&parked[i]));
            assert(str_views(out@) =~= before.push(parked@[i as int]@));
        }
        i = i + 1;
    }
    assert(pv.take(parked.len() as int) =~= pv);
    out
}

fn add_proxy_checks(c: &mut Checks, proxies: &Vec<(String, String)>, listening: &[u16])
    ensures
        checks_view(final(c).0@) == checks_view(old(c).0@) + proxy_checks(proxies@, listening@),
{
    let ghost start = checks_view(c.0@);
    let mut i: usize = 0;
    assert(proxies@.take(0) =~= Seq::<(String, String)>::empty());
    assert(checks_view(c.0@) =~= start + proxy_checks(proxies@.take(0), listening@));
    while i < proxies.len()
        invariant
            i <= proxies.len(),
            checks_view(c.0@) == start + proxy_checks(proxies@.take(i as int), listening@),
        decreases proxies.len() - i,
    {
        let (name, target) = (&proxies[i].0, &proxies[i].1);
        assert(proxies@.take(i + 1).drop_last() =~= proxies@.take(i as int));
        if let Some((host, port)) = local_target(target.as_str()) {
            let mut id = String::from_str("sites.proxy.");
            push_str(&mut id, name.as_str());
            let mut title = String::from_str("Proxy ");
            push_str(&mut title, name.as_str());
            if has_port(listening, port) {
                let mut d = String::from_str("upstream ");
                push_str(&mut d, target.as_str());
                push_str(&mut d, " is up");
                push_check(c, id.as_str(), "Sites", title.as_str(), Status::Pass, d, None, None);
            } else {
                let mut d = String::from_str("nothing listening on ");
                push_str(&mut d, host.as_str());
                push_str(&mut d, ":");
                push_str(&mut d, dec_string(port as u64).as_str());
                push_check(
                    c,
                    id.as_str(),
                    "Sites",
                    title.as_str(),
                    Status::Warn,
                    d,
                    Some("Start the dev server this proxy forwards to (e.g. `npm run dev`)."),
                    None,
                );
            }
        }
        assert(checks_view(c.0@) =~= start + proxy_checks(proxies@.take(i + 1), listening@));
        i = i + 1;
    }
    assert(proxies@.take(proxies.len() as int) =~= proxies@);
}

/// Add the sites checks (see [`sites_checks`]). `php_default_version` is
/// the version the default `php` reports, used when the configuration sets
/// no default.
pub fn check_sites(
    c: &mut Checks,
    sites: Option<&[crate::ipc::SiteInfo]>,
    dirs: &[String],
    cfg: &crate::config::LocalConfig,
    php_default_version: Option<&str>,
    listening: &[u16],
)
    ensures
        checks_view(final(c).0@) == checks_view(old(c).0@) + sites_checks(
            match sites {
                Some(ss) => Some(ss@),
                None => None,
            },
            str_views(dirs@),
            str_views(cfg.parked@),
            cfg.proxies@,
            match cfg.default_php {
                Some(d) => Some(d@),
                None => crate::node::opt_str(php_default_version),
            },
            listening@,
        ),
{
    proof {
        reveal(sites_checks);
    }
    let ghost start = checks_view(c.0@);
    let cat = "Sites";
    let ss = match sites {
        Some(ss) => ss,
        None => {
            push_check(c, "sites.registry", cat, "Sites", Status::Fail, String::from_str("unavailable (daemon is down)"), None, None);
            return;
        },
    };
    let default_php: Option<String> = match &cfg.default_php {
        Some(d) => Some(copy_string(d)),
        None => match php_default_version {
            Some(v) => Some(String::from_str(v)),
            None => None,
        },
    };
    let (missing, docroots, short, serving, secure) = site_lists(ss, dirs, &default_php);
    let mut d = dec_string(ss.len() as u64);
    push_str(&mut d, " site(s), ");
    push_str(&mut d, dec_string(serving as u64).as_str());
    push_str(&mut d, " serving, ");
    push_str(&mut d, dec_string(secure as u64).as_str());
    push_str(&mut d, " on HTTPS");
    push_check(c, "sites.registry", cat, "Registered", Status::Pass, d, None, None);
    if missing.len() == 0 {
        push_check(c, "sites.paths", cat, "Project folders", Status::Pass, String::from_str("all present"), None, None);
    } else {
        let mut d = String::from_str("missing: ");
        push_str(&mut d, join_strings(&missing, ", ").as_str());
        push_check(
            c,
            "sites.paths",
            cat,
            "Project folders",
            Status::Fail,
            d,
            Some("These sites point at folders that no longer exist. Unlink them, or restore the folder."),
            Some(("Unlink missing sites", "dpl unlink --missing")),
        );
    }
    if docroots.len() > 0 {
        let mut d = String::from_str("missing: ");
        push_str(&mut d, join_strings(&docroots, ", ").as_str());
        push_check(
            c,
            "sites.docroots",
            cat,
            "Document roots",
            Status::Warn,
            d,
            Some("The site serves from a folder that doesn't exist yet (e.g. `public/` before install)."),
            None,
        );
    }
    if short.len() > 0 {
        let d = join_strings(&short, "; ");
        push_check(
            c,
            "sites.php_requirement",
            cat,
            "PHP requirements",
            Status::Warn,
            d,
            Some("Pin a newer PHP for these sites (right-click a site \u{2192} Switch PHP Version)."),
            None,
        );
    }
    let gone = gone_parked_of(&cfg.parked, dirs);
    if gone.len() > 0 {
        let mut d = String::from_str("missing: ");
        push_str(&mut d, join_strings(&gone, ", ").as_str());
        push_check(
            c,
            "sites.parked",
            cat,
            "Parked folders",
            Status::Warn,
            d,
            Some("Every site under a parked folder disappears with it. Unpark it (`dpl unpark <path>`) or restore the folder."),
            None,
        );
    }
    let ghost before_proxies = checks_view(c.0@);
    add_proxy_checks(c, &cfg.proxies, listening);
    assert(checks_view(c.0@) =~= start + sites_checks(
        Some(ss@),
        str_views(dirs@),
        str_views(cfg.parked@),
        cfg.proxies@,
        crate::sites::opt_view(default_php),
        listening@,
    ));
}

// ----------------------------------------------------------------------- PHP

/// The name a library is reported by: its final path component, or the path
/// itself when it has none.
pub open spec fn lib_name(p: Seq<char>) -> Seq<char> {
    match crate::sites::file_name(p) {
        Some(n) => n,
        None => p,
    }
}

/// The version strings of detected installs.
pub open spec fn version_names(vs: Seq<crate::php::PhpVersion>) -> Seq<Seq<char>> {
    vs.map_values(|v: crate::php::PhpVersion| v.version@)
}

/// The check of one install's extension load errors, if it has any.
pub open spec fn load_error_checks(vs: Seq<crate::php::PhpVersion>, errors: Seq<Vec<String>>) -> Seq<CheckView>
    decreases vs.len(),
{
    if vs.len() == 0 || errors.len() < vs.len() {
        Seq::empty()
    } else {
        let n = (vs.len() - 1) as int;
        let rest = load_error_checks(vs.drop_last(), errors.take(n));
        let errs = str_views(errors[n]@);
        let v = vs[n].version@;
        if errs.len() == 0 {
            rest
        } else {
            rest.push(
                fixed(
                    hinted(
                        plain(
                            "php.load_errors."@ + v,
                            "PHP"@,
                            "PHP "@ + v + " extensions"@,
                            Status::Warn,
                            dec(errs.len()) + " extension(s) fail to load: "@ + crate::text::join(
                                errs.map_values(|p: Seq<char>| lib_name(p)),
                                ", "@,
                            ),
                        ),
                        "Usually a Homebrew upgrade moved the shared libraries these extensions link against."@,
                    ),
                    "Repair this version"@,
                    "dpl php repair "@ + v,
                ),
            )
        }
    }
}

/// The versions whose system conf.d still holds the old GUI's loader.
pub open spec fn legacy_versions(vs: Seq<crate::php::PhpVersion>, legacy: Seq<bool>) -> Seq<Seq<char>>
    decreases vs.len(),
{
    if vs.len() == 0 || legacy.len() < vs.len() {
        Seq::empty()
    } else {
        let n = (vs.len() - 1) as int;
        let rest = legacy_versions(vs.drop_last(), legacy.take(n));
        if legacy[n] {
            rest.push(vs[n].version@)
        } else {
            rest
        }
    }
}

/// The coverage-driver check of the CLI `php`, from its version and the
/// driver it has loaded.
pub open spec fn coverage_check(version: Seq<char>, driver: Option<Seq<char>>) -> CheckView {
    let cat = "PHP"@;
    let title = "CLI coverage (Pest TIA)"@;
    if driver == Some("pcov"@) {
        plain("php.cli_coverage"@, cat, title, Status::Pass, "pcov loaded on PHP "@ + version)
    } else if driver == Some("xdebug"@) {
        hinted(
            plain("php.cli_coverage"@, cat, title, Status::Pass, "Xdebug loaded on PHP "@ + version + " CLI"@),
            "pcov is faster for Pest `--tia` / `--coverage`. Prefer `dpl php ext-install "@ + version
                + " pcov` and keep Xdebug FPM-only."@,
        )
    } else {
        fixed(
            hinted(
                plain("php.cli_coverage"@, cat, title, Status::Warn, "neither pcov nor Xdebug loaded on PHP "@ + version + " CLI"@),
                "Menu-bar Start Debugging only affects php-fpm for that site. Pest `--parallel --tia` needs pcov (preferred) or Xdebug on the CLI binary."@,
            ),
            "Install pcov for CLI"@,
            "dpl php ext-install "@ + version + " pcov"@,
        )
    }
}

/// The PHP checks: the installs found, the default version, installs that
/// can't load their own extensions, leftovers of the old GUI's loader, and
/// the CLI's coverage driver. `errors` and `legacy` hold, per install, its
/// startup load errors and whether a leftover was found; `coverage` the CLI
/// `php`'s version and loaded driver, when there is a CLI `php` to ask.
#[verifier::opaque]
pub open spec fn php_checks(
    vs: Seq<crate::php::PhpVersion>,
    default: Option<Seq<char>>,
    errors: Seq<Vec<String>>,
    legacy: Seq<bool>,
    coverage: Option<(Seq<char>, Option<Seq<char>>)>,
) -> Seq<CheckView> {
    let cat = "PHP"@;
    if vs.len() == 0 {
        seq![
            fixed(
                hinted(plain("php.versions"@, cat, "PHP"@, Status::Fail, "no PHP found"@), "Sites can't be served without a PHP binary."@),
                "Install PHP"@,
                "brew install php"@,
            ),
        ]
    } else {
        let lv = legacy_versions(vs, legacy);
        seq![
            plain("php.versions"@, cat, "Installed versions"@, Status::Pass, crate::text::join(version_names(vs), ", "@)),
            match default {
                Some(v) => plain("php.default"@, cat, "Default version"@, Status::Pass, v),
                None => plain("php.default"@, cat, "Default version"@, Status::Warn, "none set \u{2014} using whatever `php` is on PATH"@),
            },
        ] + load_error_checks(vs, errors) + seq![
            if lv.len() == 0 {
                plain(
                    "php.xdebug_system_leftover"@,
                    cat,
                    "System Xdebug leftover"@,
                    Status::Pass,
                    "no pre-per-site zz-dpl-xdebug.ini in Homebrew conf.d"@,
                )
            } else {
                fixed(
                    hinted(
                        plain(
                            "php.xdebug_system_leftover"@,
                            cat,
                            "System Xdebug leftover"@,
                            Status::Warn,
                            "legacy zz-dpl-xdebug.ini still in system conf.d for PHP "@ + crate::text::join(lv, ", "@),
                        ),
                        "Menu-bar debugging loads Xdebug into php-fpm only. The old GUI file in Homebrew's conf.d does not enable CLI Xdebug for Pest/artisan."@,
                    ),
                    "Scrub leftovers"@,
                    "dpl php repair "@ + lv[0],
                )
            },
        ] + match coverage {
            Some((v, d)) => seq![coverage_check(v, d)],
            None => Seq::empty(),
        }
    }
}

/// The binary whose coverage driver is reported: the configured default
/// version's, else the first install's.
pub fn coverage_binary(cfg_default: Option<&str>, versions: &[crate::php::PhpVersion]) -> (r: Option<String>)
    ensures
        crate::sites::opt_view(r) == match (match cfg_default {
            Some(d) => crate::php::resolved_binary(versions@, d@),
            None => None,
        }) {
            Some(b) => Some(b),
            None => if versions@.len() > 0 {
                Some(versions@[0].binary@)
            } else {
                None
            },
        },
{
    let r = match cfg_default {
        Some(d) => crate::php::resolve(d, versions),
        None => None,
    };
    match r {
        Some(b) => Some(b),
        None => if versions.len() > 0 {
            Some(copy_string(&versions[0].binary))
        } else {
            None
        },
    }
}

fn add_load_error_checks(c: &mut Checks, vs: &[crate::php::PhpVersion], errors: &[Vec<String>])
    requires
        errors@.len() == vs@.len(),
    ensures
        checks_view(final(c).0@) == checks_view(old(c).0@) + load_error_checks(vs@, errors@),
{
    let ghost start = checks_view(c.0@);
    let mut i: usize = 0;
    assert(vs@.take(0) =~= Seq::<crate::php::PhpVersion>::empty());
    assert(checks_view(c.0@) =~= start + load_error_checks(vs@.take(0), errors@.take(0)));
    while i < vs.len()
        invariant
            i <= vs.len(),
            errors@.len() == vs@.len(),
            checks_view(c.0@) == start + load_error_checks(vs@.take(i as int), errors@.take(i as int)),
        decreases vs.len() - i,
    {
        let errs = &errors[i];
        let v = &vs[i].version;
        proof {
            assert(vs@.take(i + 1).drop_last() =~= vs@.take(i as int));
            assert(errors@.take(i + 1).take(i as int) =~= errors@.take(i as int));
            assert(vs@.take(i + 1)[i as int] == vs@[i as int]);
            assert(errors@.take(i + 1)[i as int] == errors@[i as int]);
        }
        if errs.len() > 0 {
            let mut libs: Vec<String> = Vec::new();
            let mut k: usize = 0;
            while k < errs.len()
                invariant
                    k <= errs.len(),
                    str_views(libs@) == str_views(errs@).take(k as int).map_values(|p: Seq<char>| lib_name(p)),
                decreases errs.len() - k,
            {
                let name = match crate::sites::file_name_of(errs[k].as_str()) {
                    Some(n) => n,
                    None => copy_string(&errs[k]),
                };
                let ghost before = str_views(libs@);
                libs.push(name);
                assert(str_views(libs@) =~= before.push(lib_name(errs@[k as int]@)));
                k = k + 1;
                assert(str_views(errs@).take(k as int).map_values(|p: Seq<char>| lib_name(p)) =~= before.push(
                    lib_name(errs@[k - 1]@),
                ));
            }
            assert(str_views(errs@).take(errs.len() as int) =~= str_views(errs@));
            let mut id = String::from_str("php.load_errors.");
            push_str(&mut id, v.as_str());
            let mut title = String::from_str("PHP ");
            push_str(&mut title, v.as_str());
            push_str(&mut title, " extensions");
            let mut d = dec_string(errs.len() as u64);
            push_str(&mut d, " extension(s) fail to load: ");
            push_str(&mut d, join_strings(&libs, ", ").as_str());
            let mut cmd = String::from_str("dpl php repair ");
            push_str(&mut cmd, v.as_str());
            push_check(
                c,
                id.as_str(),
                "PHP",
                title.as_str(),
                Status::Warn,
                d,
                Some("Usually a Homebrew upgrade moved the shared libraries these extensions link against."),
                Some(("Repair this version", cmd.as_str())),
            );
        }
        i = i + 1;
        assert(checks_view(c.0@) =~= start + load_error_checks(vs@.take(i as int), errors@.take(i as int)));
    }
    assert(vs@.take(vs.len() as int) =~= vs@);
    assert(errors@.take(vs.len() as int) =~= errors@);
}

fn legacy_versions_of(vs: &[crate::php::PhpVersion], legacy: &[bool]) -> (r: Vec<String>)
    requires
        legacy@.len() == vs@.len(),
    ensures
        str_views(r@) == legacy_versions(vs@, legacy@),
{
    let mut out: Vec<String> = Vec::new();
    let mut i: usize = 0;
    while i < vs.len()
        invariant
            i <= vs.len(),
            legacy@.len() == vs@.len(),
            str_views(out@) == legacy_versions(vs@.take(i as int), legacy@.take(i as int)),
        decreases vs.len() - i,
    {
        proof {
            assert(vs@.take(i + 1).drop_last() =~= vs@.take(i as int));
            assert(legacy@.take(i + 1).take(i as int) =~= legacy@.take(i as int));
        }
        if legacy[i] {
            let ghost before = str_views(out@);
            out.push(copy_string(&vs[i].version));
            assert(str_views(out@) =~= before.push(vs@[i as int].version@));
        }
        i = i + 1;
    }
    assert(vs@.take(vs.len() as int) =~= vs@);
    assert(legacy@.take(vs.len() as int) =~= legacy@);
    out
}

fn add_coverage_check(c: &mut Checks, version: &str, driver: Option<&str>)
    ensures
        checks_view(final(c).0@) == checks_view(old(c).0@).push(coverage_check(version@, crate::node::opt_str(driver))),
{
    let cat = "PHP";
    let title = "CLI coverage (Pest TIA)";
    let pcov = match driver {
        Some(d) => str_eq(d, "pcov"),
        None => false,
    };
    let xdebug = match driver {
        Some(d) => str_eq(d, "xdebug"),
        None => false,
    };
    if pcov {
        let mut d = String::from_str("pcov loaded on PHP ");
        push_str(&mut d, version);
        push_check(c, "php.cli_coverage", cat, title, Status::Pass, d, None, None);
    } else if xdebug {
        let mut d = String::from_str("Xdebug loaded on PHP ");
        push_str(&mut d, version);
        push_str(&mut d, " CLI");
        let mut h = String::from_str("pcov is faster for Pest `--tia` / `--coverage`. Prefer `dpl php ext-install ");
        push_str(&mut h, version);
        push_str(&mut h, " pcov` and keep Xdebug FPM-only.");
        push_check(c, "php.cli_coverage", cat, title, Status::Pass, d, Some(h.as_str()), None);
    } else {
        let mut d = String::from_str("neither pcov nor Xdebug loaded on PHP ");
        push_str(&mut d, version);
        push_str(&mut d, " CLI");
        let mut cmd = String::from_str("dpl php ext-install ");
        push_str(&mut cmd, version);
        push_str(&mut cmd, " pcov");
        push_check(
            c,
            "php.cli_coverage",
            cat,
            title,
            Status::Warn,
            d,
            Some("Menu-bar Start Debugging only affects php-fpm for that site. Pest `--parallel --tia` needs pcov (preferred) or Xdebug on the CLI binary."),
            Some(("Install pcov for CLI", cmd.as_str())),
        );
    }
}

/// Add the PHP checks (see [`php_checks`]). `default` is the configured
/// default version, else the version the default `php` reports.
pub fn check_php(
    c: &mut Checks,
    versions: &[crate::php::PhpVersion],
    default: Option<&str>,
    errors: &[Vec<String>],
    legacy: &[bool],
    coverage: Option<(&str, Option<&str>)>,
)
    requires
        errors@.len() == versions@.len(),
        legacy@.len() == versions@.len(),
    ensures
        checks_view(final(c).0@) == checks_view(old(c).0@) + php_checks(
            versions@,
            crate::node::opt_str(default),
            errors@,
            legacy@,
            match coverage {
                Some((v, d)) => Some((v@, crate::node::opt_str(d))),
                None => None,
            },
        ),
{
    proof {
        reveal(php_checks);
    }
    let ghost start = checks_view(c.0@);
    let cat = "PHP";
    if versions.len() == 0 {
        push_check(
            c,
            "php.versions",
            cat,
            "PHP",
            Status::Fail,
            String::from_str("no PHP found"),
            Some("Sites can't be served without a PHP binary."),
            Some(("Install PHP", "brew install php")),
        );
        return;
    }
    let mut names: Vec<String> = Vec::new();
    let mut i: usize = 0;
    while i < versions.len()
        invariant
            i <= versions.len(),
            str_views(names@) == version_names(versions@).take(i as int),
        decreases versions.len() - i,
    {
        let ghost before = str_views(names@);
        names.push(copy_string(&versions[i].version));
        assert(str_views(names@) =~= before.push(versions@[i as int].version@));
        i = i + 1;
        assert(version_names(versions@).take(i as int) =~= before.push(versions@[i - 1].version@));
    }
    assert(version_names(versions@).take(versions.len() as int) =~= version_names(versions@));
    push_check(c, "php.versions", cat, "Installed versions", Status::Pass, join_strings(&names, ", "), None, None);
    match default {
        Some(v) => push_check(c, "php.default", cat, "Default version", Status::Pass, String::from_str(v), None, None),
        None => push_check(
            c,
            "php.default",
            cat,
            "Default version",
            Status::Warn,
            String::from_str("none set \u{2014} using whatever `php` is on PATH"),
            None,
            None,
        ),
    }
    add_load_error_checks(c, versions, errors);
    let lv = legacy_versions_of(versions, legacy);
    if lv.len() == 0 {
        push_check(
            c,
            "php.xdebug_system_leftover",
            cat,
            "System Xdebug leftover",
            Status::Pass,
            String::from_str("no pre-per-site zz-dpl-xdebug.ini in Homebrew conf.d"),
            None,
            None,
        );
    } else {
        let mut d = String::from_str("legacy zz-dpl-xdebug.ini still in system conf.d for PHP ");
        push_str(&mut d, join_strings(&lv, ", ").as_str());
        let mut cmd = String::from_str("dpl php repair ");
        push_str(&mut cmd, lv[0].as_str());
        push_check(
            c,
            "php.xdebug_system_leftover",
            cat,
            "System Xdebug leftover",
            Status::Warn,
            d,
            Some("Menu-bar debugging loads Xdebug into php-fpm only. The old GUI file in Homebrew's conf.d does not enable CLI Xdebug for Pest/artisan."),
            Some(("Scrub leftovers", cmd.as_str())),
        );
    }
    if let Some((v, d)) = coverage {
        add_coverage_check(c, v, d);
    }
    assert(checks_view(c.0@) =~= start + php_checks(
        versions@,
        crate::node::opt_str(default),
        errors@,
        legacy@,
        match coverage {
            Some((v, d)) => Some((v@, crate::node::opt_str(d))),
            None => None,
        },
    ));
}

// ---------------------------------------------------------------- dns probe

/// The labels of a name as DNS writes them: each label's UTF-8 bytes after
/// its length byte; `None` when a label is longer than 255 bytes.
pub open spec fn dns_labels(labels: Seq<Seq<char>>) -> Option<Seq<u8>>
    decreases labels.len(),
{
    if labels.len() == 0 {
        Some(Seq::empty())
    } else {
        match dns_labels(labels.drop_last()) {
            Some(p) => {
                let b = vstd::utf8::encode_utf8(labels.last());
                if b.len() <= 255 {
                    Some(p + seq![b.len() as u8] + b)
                } else {
                    None
                }
            },
            None => None,
        }
    }
}

/// A DNS query for the A record of `name`: a header with a fixed id, the
/// recursion-desired flag and one question, then the name's dot-separated
/// labels, the root label, and type A, class IN.
pub open spec fn dns_query_of(name: Seq<char>) -> Option<Seq<u8>> {
    match dns_labels(split_on(name, '.')) {
        Some(q) => Some(
            seq![0x7au8, 0x1cu8, 0x01u8, 0x00u8, 0x00u8, 0x01u8, 0u8, 0u8, 0u8, 0u8, 0u8, 0u8] + q + seq![0u8, 0u8, 1u8, 0u8, 1u8],
        ),
        None => None,
    }
}

/// Build the query that asks a DNS server for `name`'s A record (see
/// [`dns_query_of`]).
pub fn dns_query(name: &str) -> (r: Option<Vec<u8>>)
    ensures
        match r {
            Some(q) => dns_query_of(name@) == Some(q@),
            None => dns_query_of(name@) is None,
        },
{
    let mut query: Vec<u8> = vec![0x7a, 0x1c, 0x01, 0x00, 0x00, 0x01, 0, 0, 0, 0, 0, 0];
    let ghost head = query@;
    let labels = crate::text::split_char(&to_chars(name), '.');
    let ghost lv = crate::text::views(labels@);
    assert(lv =~= split_on(name@, '.'));
    let mut i: usize = 0;
    assert(lv.take(0) =~= Seq::<Seq<char>>::empty());
    assert(query@ =~= head + Seq::<u8>::empty());
    while i < labels.len()
        invariant
            i <= labels.len(),
            lv == crate::text::views(labels@),
            lv == split_on(name@, '.'),
            head == seq![0x7au8, 0x1cu8, 0x01u8, 0x00u8, 0x00u8, 0x01u8, 0u8, 0u8, 0u8, 0u8, 0u8, 0u8],
            dns_labels(lv.take(i as int)) is Some,
            query@ == head + dns_labels(lv.take(i as int))->0,
        decreases labels.len() - i,
    {
        assert(lv.take(i + 1).drop_last() =~= lv.take(i as int));
        assert(lv.take(i + 1).last() == labels@[i as int]@);
        let label = from_chars(&labels[i]);
        let bytes = label.as_str().as_bytes();
        if bytes.len() > 255 {
            assert(dns_labels(lv.take(i + 1)) is None);
            proof {
                lemma_dns_labels_none(lv, i as int + 1);
            }
            return None;
        }
        let ghost before = query@;
        query.push(bytes.len() as u8);
        let mut k: usize = 0;
        while k < bytes.len()
            invariant
                k <= bytes.len(),
                query@ == before + seq![bytes@.len() as u8] + bytes@.take(k as int),
            decreases bytes.len() - k,
        {
            query.push(bytes[k]);
            k = k + 1;
            assert(query@ =~= before + seq![bytes@.len() as u8] + bytes@.take(k as int));
        }
        assert(bytes@.take(bytes.len() as int) =~= bytes@);
        assert(query@ =~= head + dns_labels(lv.take(i + 1))->0);
        i = i + 1;
    }
    assert(lv.take(labels.len() as int) =~= lv);
    let ghost body = query@;
    query.push(0);
    query.push(0);
    query.push(1);
    query.push(0);
    query.push(1);
    assert(query@ =~= body + seq![0u8, 0u8, 1u8, 0u8, 1u8]);
    Some(query)
}

proof fn lemma_dns_labels_none(lv: Seq<Seq<char>>, n: int)
    requires
        0 <= n <= lv.len(),
        dns_labels(lv.take(n)) is None,
    ensures
        dns_labels(lv) is None,
    decreases lv.len() - n,
{
    if n < lv.len() {
        assert(lv.take(n + 1).drop_last() =~= lv.take(n));
        lemma_dns_labels_none(lv, n + 1);
    } else {
        assert(lv.take(n) =~= lv);
    }
}

/// Where the labels of a name starting at `i` of a reply end: each label is
/// skipped by its length byte, up to the root label (or the end).
pub open spec fn skip_labels(r: Seq<u8>, i: int) -> int
    decreases r.len() - i,
{
    if 0 <= i < r.len() && r[i] != 0 {
        let next = i + 1 + r[i] as int;
        if next >= r.len() {
            next
        } else {
            skip_labels(r, next)
        }
    } else {
        i
    }
}

proof fn lemma_skip_labels_ge(r: Seq<u8>, i: int)
    ensures
        skip_labels(r, i) >= i,
    decreases r.len() - i,
{
    if 0 <= i < r.len() && r[i] != 0 && (i + 1 + r[i] as int) < r.len() {
        lemma_skip_labels_ge(r, i + 1 + r[i] as int);
    }
}

/// A big-endian 16-bit value.
pub open spec fn be16(hi: u8, lo: u8) -> int {
    hi as int * 256 + lo as int
}

/// The address in a DNS reply: `None` unless the reply has an answer whose
/// record, after the echoed question and the answer's name (a compression
/// pointer or labels), is of type A with four bytes of data.
pub open spec fn dns_reply_address(r: Seq<u8>) -> Option<Seq<u8>> {
    let n = r.len() as int;
    if n < 12 || be16(r[6], r[7]) == 0 {
        None
    } else {
        let i = skip_labels(r, 12) + 5;
        if i >= n {
            None
        } else {
            let j = if r[i] >= 0xc0 {
                i + 2
            } else {
                skip_labels(r, i) + 1
            };
            if j + 10 > n {
                None
            } else if be16(r[j], r[j + 1]) != 1 || be16(r[j + 8], r[j + 9]) != 4 || j + 14 > n {
                None
            } else {
                Some(r.subrange(j + 10, j + 14))
            }
        }
    }
}

fn skip_labels_from(r: &[u8], start: usize) -> (j: usize)
    requires
        start <= r@.len(),
    ensures
        j <= r@.len(),
        j < r@.len() ==> j == skip_labels(r@, start as int),
        j == r@.len() ==> skip_labels(r@, start as int) >= r@.len(),
{
    let n = r.len();
    let mut i = start;
    while i < n && r[i] != 0
        invariant
            start <= i <= n,
            n == r@.len(),
            skip_labels(r@, start as int) == skip_labels(r@, i as int),
        decreases n - i,
    {
        let step = 1 + r[i] as usize;
        if step >= n - i {
            proof {
                lemma_skip_labels_ge(r@, i + step);
            }
            return n;
        }
        i = i + step;
    }
    proof {
        if i == n {
            lemma_skip_labels_ge(r@, i as int);
        }
    }
    i
}

/// The address a DNS server answered with (see [`dns_reply_address`]).
pub fn dns_answer(resp: &[u8]) -> (r: Option<[u8; 4]>)
    ensures
        match r {
            Some(a) => dns_reply_address(resp@) == Some(a@),
            None => dns_reply_address(resp@) is None,
        },
{
    let n = resp.len();
    if n < 12 || (resp[6] == 0 && resp[7] == 0) {
        return None;
    }
    let s = skip_labels_from(resp, 12);
    if s == n || n - s <= 5 {
        return None;
    }
    let i = s + 5;
    let j = if resp[i] >= 0xc0 {
        if n - i < 12 {
            return None;
        }
        i + 2
    } else {
        let t = skip_labels_from(resp, i);
        if t == n || n - (t + 1) < 10 {
            return None;
        }
        t + 1
    };
    let rtype_one = resp[j] == 0 && resp[j + 1] == 1;
    let rdlen_four = resp[j + 8] == 0 && resp[j + 9] == 4;
    if !rtype_one || !rdlen_four || n - (j + 10) < 4 {
        return None;
    }
    let k = j + 10;
    let a = [resp[k], resp[k + 1], resp[k + 2], resp[k + 3]];
    assert(a@ =~= resp@.subrange(k as int, k + 4));
    Some(a)
}


// ------------------------------------------------------------------ probes

/// What a probe command printed, when it succeeded and printed something:
/// its output trimmed.
pub open spec fn command_text(success: bool, stdout: Seq<char>) -> Option<Seq<char>> {
    if success && crate::text::trim(stdout).len() > 0 {
        Some(crate::text::trim(stdout))
    } else {
        None
    }
}

/// What a probe command printed (see [`command_text`]).
pub fn command_output(success: bool, stdout: &str) -> (r: Option<String>)
    ensures
        crate::sites::opt_view(r) == command_text(success, stdout@),
{
    if !success {
        return None;
    }
    let t = crate::text::trim_str(stdout);
    if str_is_empty(t.as_str()) {
        None
    } else {
        Some(t)
    }
}

/// The coverage driver the CLI `php` reported loading: `pcov` or `xdebug`,
/// read from its trimmed output.
pub open spec fn coverage_driver_of(output: Seq<char>) -> Option<Seq<char>> {
    let t = crate::text::trim(output);
    if t == "pcov"@ || t == "xdebug"@ {
        Some(t)
    } else {
        None
    }
}

/// The coverage driver the CLI `php` reported loading (see
/// [`coverage_driver_of`]).
pub fn coverage_driver(output: &str) -> (r: Option<&'static str>)
    ensures
        match r {
            Some(d) => coverage_driver_of(output@) == Some(d@),
            None => coverage_driver_of(output@) is None,
        },
{
    let t = crate::text::trim_str(output);
    if str_eq(t.as_str(), "pcov") {
        Some("pcov")
    } else if str_eq(t.as_str(), "xdebug") {
        Some("xdebug")
    } else {
        None
    }
}

/// `s` without its `:`s.
pub open spec fn without_colons(s: Seq<char>) -> Seq<char>
    decreases s.len(),
{
    if s.len() == 0 {
        s
    } else if s.last() == ':' {
        without_colons(s.drop_last())
    } else {
        without_colons(s.drop_last()).push(s.last())
    }
}

/// The CA's SHA-1 fingerprint from what `openssl x509 -fingerprint` printed:
/// the text after its first `=` (up to any next one), trimmed, colons
/// removed, uppercased.
pub open spec fn fingerprint_of(printed: Seq<char>) -> Option<Seq<char>> {
    let parts = split_on(printed, '=');
    if parts.len() < 2 {
        None
    } else {
        Some(crate::text::to_uppercase(without_colons(crate::text::trim(parts[1]))))
    }
}

/// The CA's fingerprint (see [`fingerprint_of`]).
pub fn ca_fingerprint(printed: &str) -> (r: Option<String>)
    ensures
        crate::sites::opt_view(r) == fingerprint_of(printed@),
{
    let parts = crate::text::split_char(&to_chars(printed), '=');
    if parts.len() < 2 {
        return None;
    }
    let t = crate::text::trim_chars(&parts[1]);
    let mut kept: Vec<char> = Vec::new();
    let mut i: usize = 0;
    while i < t.len()
        invariant
            i <= t.len(),
            kept@ == without_colons(t@.take(i as int)),
        decreases t.len() - i,
    {
        assert(t@.take(i + 1).drop_last() =~= t@.take(i as int));
        if t[i] != ':' {
            kept.push(t[i]);
        }
        i = i + 1;
    }
    assert(t@.take(t.len() as int) =~= t@);
    Some(crate::text::to_upper(from_chars(&kept).as_str()))
}

/// Whether the system keychain listing holds the fingerprint, compared in
/// uppercase.
pub fn fingerprint_trusted(keychain: &str, fingerprint: &str) -> (r: bool)
    ensures
        r == contains_seq(crate::text::to_uppercase(keychain@), fingerprint@),
{
    str_contains(crate::text::to_upper(keychain).as_str(), fingerprint)
}


// ------------------------------------------------------------------ system

/// The categories of a doctor report, in the order they are rendered.
pub open spec fn doctor_categories() -> Seq<Seq<char>> {
    seq!["System"@, "Daemon"@, "Networking"@, "TLS"@, "PHP"@, "Sites"@, "Services"@, "Tooling"@]
}

/// Assemble the doctor report from every probe's checks, in order.
pub fn doctor_report(checks: Vec<crate::checks::Check>) -> (r: crate::checks::Report)
    ensures
        r.title@ == "dpl doctor"@,
        r.subtitle is None,
        r.checks == checks,
        r.summary.pass == crate::checks::status_count(checks@, Status::Pass),
        r.summary.warn == crate::checks::status_count(checks@, Status::Warn),
        r.summary.fail == crate::checks::status_count(checks@, Status::Fail),
        r.summary.info == crate::checks::status_count(checks@, Status::Info),
        r.ok == (r.summary.fail == 0),
        crate::text::str_views(r.categories@) == crate::checks::used_categories(doctor_categories(), checks@),
{
    let cats: [&str; 8] = ["System", "Daemon", "Networking", "TLS", "PHP", "Sites", "Services", "Tooling"];
    assert(cats@.map_values(|c: &str| c@) =~= doctor_categories());
    crate::checks::Report::new("dpl doctor", None, &cats, checks)
}

/// What the doctor found of the local config file.
#[derive(Debug, Clone)]
pub enum ConfigState {
    /// Where the file lives could not be told; the message says why.
    NoPath(String),
    /// The file does not exist yet.
    Missing(String),
    /// The file loaded.
    Loaded { path: String, config: crate::config::LocalConfig },
    /// The file exists but did not load.
    Unreadable { path: String, error: String },
}

/// The platform and version rows of the System category.
pub open spec fn system_head_checks(os: Seq<char>, arch: Seq<char>, version: Seq<char>) -> Seq<CheckView> {
    seq![
        plain("system.platform"@, "System"@, "Platform"@, Status::Info, os + " ("@ + arch + ")"@),
        plain("system.cli_version"@, "System"@, "dpl version"@, Status::Info, version),
    ]
}

/// Add the platform and version rows (see [`system_head_checks`]).
pub fn check_system_head(c: &mut Checks, os: &str, arch: &str, version: &str)
    ensures
        checks_view(final(c).0@) == checks_view(old(c).0@) + system_head_checks(os@, arch@, version@),
{
    let ghost start = checks_view(c.0@);
    let mut d = String::from_str(os);
    push_str(&mut d, " (");
    push_str(&mut d, arch);
    push_str(&mut d, ")");
    push_check(c, "system.platform", "System", "Platform", Status::Info, d, None, None);
    push_check(c, "system.cli_version", "System", "dpl version", Status::Info, String::from_str(version), None, None);
    assert(checks_view(c.0@) =~= start + system_head_checks(os@, arch@, version@));
}

/// The config file and helper rows of the System category: the file's
/// summary, or why it is missing or unreadable; the helper's path, or a
/// warning that it is missing.
pub open spec fn system_file_checks(config: ConfigState, helper: Option<Seq<char>>) -> Seq<CheckView> {
    let cat = "System"@;
    (match config {
        ConfigState::NoPath(e) => seq![plain("system.config"@, cat, "Config file"@, Status::Fail, e@)],
        ConfigState::Missing(p) => seq![
            plain("system.config"@, cat, "Config file"@, Status::Info, "not created yet ("@ + p@ + ")"@),
        ],
        ConfigState::Loaded { path, config } => seq![
            plain(
                "system.config"@,
                cat,
                "Config file"@,
                Status::Pass,
                path@ + " \u{2014} "@ + dec(config.links@.len()) + " link(s), "@ + dec(config.parked@.len()) + " parked, "@
                    + dec(config.proxies@.len()) + " proxy(s), TLD(s): "@ + crate::text::join(
                    crate::config::config_tlds(crate::text::str_views(config.tlds@)),
                    ", "@,
                ),
            ),
        ],
        ConfigState::Unreadable { path, error } => seq![
            hinted(
                plain("system.config"@, cat, "Config file"@, Status::Fail, path@ + " is unreadable: "@ + error@),
                "The daemon can't load your sites until this parses. Fix or delete the file."@,
            ),
        ],
    }) + match helper {
        Some(p) => seq![plain("system.helper"@, cat, "Privileged helper"@, Status::Pass, p)],
        None => seq![
            hinted(
                plain("system.helper"@, cat, "Privileged helper"@, Status::Warn, "dpl-helper not found"@),
                "Needed for `dpl setup`, CA trust, and the :80/:443 redirect. Build it (`cargo build`) or install it beside `dpl`."@,
            ),
        ],
    }
}

/// Add the config file and helper rows (see [`system_file_checks`]).
pub fn check_system_files(c: &mut Checks, config: &ConfigState, helper: Option<&str>)
    ensures
        checks_view(final(c).0@) == checks_view(old(c).0@) + system_file_checks(*config, crate::node::opt_str(helper)),
{
    let cat = "System";
    let ghost start = checks_view(c.0@);
    match config {
        ConfigState::NoPath(e) => {
            push_check(c, "system.config", cat, "Config file", Status::Fail, String::from_str(e.as_str()), None, None);
        },
        ConfigState::Missing(p) => {
            let mut d = String::from_str("not created yet (");
            push_str(&mut d, p.as_str());
            push_str(&mut d, ")");
            push_check(c, "system.config", cat, "Config file", Status::Info, d, None, None);
        },
        ConfigState::Loaded { path, config } => {
            let mut d = String::from_str(path.as_str());
            push_str(&mut d, " \u{2014} ");
            push_str(&mut d, dec_string(config.links.len() as u64).as_str());
            push_str(&mut d, " link(s), ");
            push_str(&mut d, dec_string(config.parked.len() as u64).as_str());
            push_str(&mut d, " parked, ");
            push_str(&mut d, dec_string(config.proxies.len() as u64).as_str());
            push_str(&mut d, " proxy(s), TLD(s): ");
            let tlds = config.tlds();
            push_str(&mut d, crate::text::join_strings(&tlds, ", ").as_str());
            push_check(c, "system.config", cat, "Config file", Status::Pass, d, None, None);
        },
        ConfigState::Unreadable { path, error } => {
            let mut d = String::from_str(path.as_str());
            push_str(&mut d, " is unreadable: ");
            push_str(&mut d, error.as_str());
            push_check(
                c,
                "system.config",
                cat,
                "Config file",
                Status::Fail,
                d,
                Some("The daemon can't load your sites until this parses. Fix or delete the file."),
                None,
            );
        },
    }
    let ghost mid = checks_view(c.0@);
    match helper {
        Some(p) => {
            push_check(c, "system.helper", cat, "Privileged helper", Status::Pass, String::from_str(p), None, None);
        },
        None => {
            push_check(
                c,
                "system.helper",
                cat,
                "Privileged helper",
                Status::Warn,
                String::from_str("dpl-helper not found"),
                Some(
                    "Needed for `dpl setup`, CA trust, and the :80/:443 redirect. Build it (`cargo build`) or install it beside `dpl`.",
                ),
                None,
            );
        },
    }
    assert(checks_view(c.0@) =~= start + system_file_checks(*config, crate::node::opt_str(helper)));
}
} // verus!
