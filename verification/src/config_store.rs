//! The dply login store, `~/.dply/config.json`, shared with the `dply` CLI so
//! a login in either tool is honoured by both.
//!
//! The file holds a default host and, per host, a token, the user profile
//! (kept as the JSON text it was given) and when it was stored. Hosts are
//! kept in key order, as the file writes them. Reading and writing the file,
//! and reading the environment, are the caller's part.

use vstd::prelude::*;

use crate::error::CoreError;
use crate::text::{
    chars_eq, copy_string, lex_less, lex_lt, lemma_lex_irrefl, lemma_lex_total, lemma_lex_trans,
    str_eq, str_is_empty, to_chars, to_lower, to_lowercase, trim, trim_end_matches,
    trim_end_matches_chars, trim_str, from_chars,
};

verus! {

/// Final fallback host.
pub const DEFAULT_HOST: &'static str = "https://dply.io";

/// What the store keeps for one host.
#[derive(Debug, Clone)]
pub struct HostEntry {
    pub token: String,
    /// The user profile, as JSON text.
    pub user: String,
    /// When the token was stored (RFC 3339).
    pub updated_at: String,
}

/// An entry as plain values: token, user, time.
pub type EntryView = (Seq<char>, Seq<char>, Seq<char>);

/// The entry as plain values.
pub open spec fn entry_view(e: HostEntry) -> EntryView {
    (e.token@, e.user@, e.updated_at@)
}

/// The contents of the store.
#[derive(Debug, Clone)]
pub struct ConfigFile {
    pub default_host: Option<String>,
    /// Hosts and their entries, in strictly increasing key order.
    pub hosts: Vec<(String, HostEntry)>,
}

/// Host keys strictly increase, so each host appears once.
pub open spec fn keys_sorted(h: Seq<(String, HostEntry)>) -> bool {
    forall|i: int, j: int| 0 <= i < j < h.len() ==> lex_lt(#[trigger] h[i].0@, #[trigger] h[j].0@)
}

/// The entry stored for key `k`.
pub open spec fn host_lookup(h: Seq<(String, HostEntry)>, k: Seq<char>) -> Option<EntryView>
    decreases h.len(),
{
    if h.len() == 0 {
        None
    } else if h[0].0@ == k {
        Some(entry_view(h[0].1))
    } else {
        host_lookup(h.drop_first(), k)
    }
}

/// The canonical key form of a host: trimmed, lowercased, trailing `/`s
/// dropped.
pub open spec fn host_key(host: Seq<char>) -> Seq<char> {
    trim_end_matches(to_lowercase(trim(host)), seq!['/'])
}

/// `trim_end_matches` of one character leaves a prefix that does not end
/// with it.
proof fn lemma_trim_end_char(s: Seq<char>, c: char)
    ensures
        trim_end_matches(s, seq![c]) == s.take(trim_end_matches(s, seq![c]).len() as int),
        trim_end_matches(s, seq![c]).len() > 0 ==> trim_end_matches(s, seq![c]).last() != c,
        trim_end_matches(s, seq![c]).len() <= s.len(),
    decreases s.len(),
{
    if crate::text::has_suffix(s, seq![c]) {
        assert(s.subrange(s.len() - 1, s.len() as int)[0] == s.last());
        lemma_trim_end_char(s.take(s.len() - 1), c);
        assert(trim_end_matches(s, seq![c]) == trim_end_matches(s.take(s.len() - 1), seq![c]));
        assert(s.take(s.len() - 1).take(trim_end_matches(s, seq![c]).len() as int) =~= s.take(
            trim_end_matches(s, seq![c]).len() as int,
        ));
    } else {
        assert(s.take(s.len() as int) =~= s);
        if s.len() > 0 {
            assert(s.subrange(s.len() - 1, s.len() as int) =~= seq![s.last()]);
        }
    }
}

/// A host key is its own key: normalising it again changes nothing, for
/// every host whose trimmed text is ASCII with no whitespace inside.
pub proof fn lemma_host_key_settled(host: Seq<char>)
    requires
        crate::text::all_ascii(trim(host)),
        forall|i: int| 0 <= i < trim(host).len() ==> !crate::text::is_ws(#[trigger] trim(host)[i]),
    ensures
        host_key(host_key(host)) == host_key(host),
{
    let t = trim(host);
    crate::text::lemma_ascii_lower_props(t);
    let m = to_lowercase(t);
    assert(m == crate::text::ascii_lower(t));
    let k = host_key(host);
    lemma_trim_end_char(m, '/');
    assert(k == m.take(k.len() as int));
    assert(forall|i: int| 0 <= i < k.len() ==> k[i] == m[i]);
    assert(forall|i: int| 0 <= i < k.len() ==> !crate::text::is_ws(#[trigger] k[i]) && (k[i] as u32) <= 0x7f) by {
        assert forall|i: int| 0 <= i < k.len() implies !crate::text::is_ws(#[trigger] k[i]) && (k[i] as u32) <= 0x7f by {
            assert(k[i] == m[i]);
            assert(!crate::text::is_ws(t[i]));
        }
    }
    crate::text::lemma_trim_settled(k);
    crate::text::lemma_ascii_lower_props(k);
    assert(crate::text::ascii_lower(k) =~= k) by {
        assert forall|i: int| 0 <= i < k.len() implies crate::text::ascii_lower(k)[i] == k[i] by {
            assert(k[i] == m[i]);
            assert(crate::text::ascii_lower(t)[i] == m[i]);
            assert(crate::text::ascii_lower(m) == m);
            assert(crate::text::ascii_lower(m)[i] == crate::text::ascii_lower_char(m[i]));
        }
    }
    assert(to_lowercase(trim(k)) == k);
    if k.len() > 0 {
        assert(!crate::text::has_suffix(k, seq!['/'])) by {
            if crate::text::has_suffix(k, seq!['/']) {
                assert(k.subrange(k.len() - 1, k.len() as int)[0] == k.last());
            }
        }
    }
}

/// In a sorted list, the entry at `i` is what its key looks up.
pub proof fn lemma_lookup_at(h: Seq<(String, HostEntry)>, i: int)
    requires
        keys_sorted(h),
        0 <= i < h.len(),
    ensures
        host_lookup(h, h[i].0@) == Some(entry_view(h[i].1)),
    decreases i,
{
    if i > 0 {
        assert(lex_lt(h[0].0@, h[i].0@));
        lemma_lex_irrefl(h[0].0@);
        assert(h[0].0@ != h[i].0@);
        let t = h.drop_first();
        assert forall|a: int, b: int| 0 <= a < b < t.len() implies lex_lt(#[trigger] t[a].0@, #[trigger] t[b].0@) by {
            assert(t[a] == h[a + 1] && t[b] == h[b + 1]);
        }
        lemma_lookup_at(t, i - 1);
    }
}

/// A key held by no entry looks up nothing.
pub proof fn lemma_lookup_absent(h: Seq<(String, HostEntry)>, k: Seq<char>)
    requires
        forall|i: int| 0 <= i < h.len() ==> (#[trigger] h[i]).0@ != k,
    ensures
        host_lookup(h, k) is None,
    decreases h.len(),
{
    if h.len() > 0 {
        let t = h.drop_first();
        assert forall|i: int| 0 <= i < t.len() implies (#[trigger] t[i]).0@ != k by {
            assert(t[i] == h[i + 1]);
        }
        lemma_lookup_absent(t, k);
    }
}

/// Every key's lookup in a sorted list: the entry holding it, or nothing.
pub proof fn lemma_lookup(h: Seq<(String, HostEntry)>, k: Seq<char>)
    requires
        keys_sorted(h),
    ensures
        host_lookup(h, k) is Some <==> exists|i: int| 0 <= i < h.len() && (#[trigger] h[i]).0@ == k,
        forall|i: int| 0 <= i < h.len() && (#[trigger] h[i]).0@ == k ==> host_lookup(h, k) == Some(
            entry_view(h[i].1),
        ),
{
    if exists|i: int| 0 <= i < h.len() && (#[trigger] h[i]).0@ == k {
        let i = choose|i: int| 0 <= i < h.len() && (#[trigger] h[i]).0@ == k;
        lemma_lookup_at(h, i);
    } else {
        lemma_lookup_absent(h, k);
    }
    assert forall|i: int| 0 <= i < h.len() && (#[trigger] h[i]).0@ == k implies host_lookup(h, k)
        == Some(entry_view(h[i].1)) by {
        lemma_lookup_at(h, i);
    }
}

/// Handle over the store. `home_override` mirrors the CLI's `--config-dir`
/// escape hatch; `None` means "use `$HOME`".
pub struct ConfigStore {
    pub home_override: Option<String>,
}

/// The host for an invocation: a non-empty flag, else a non-empty
/// `$DPLY_HOST`, else the stored default, else the built-in fallback; then
/// trailing `/`s dropped.
pub open spec fn host_resolved(
    flag: Option<Seq<char>>,
    env_host: Option<Seq<char>>,
    stored_default: Option<Seq<char>>,
) -> Seq<char> {
    let h = if flag matches Some(f) && f.len() > 0 {
        flag->0
    } else if env_host matches Some(e) && e.len() > 0 {
        env_host->0
    } else if stored_default is Some {
        stored_default->0
    } else {
        DEFAULT_HOST@
    };
    trim_end_matches(h, seq!['/'])
}

/// The token for a host: a non-empty `$DPLY_TOKEN` wins, then the stored
/// token when it is not empty.
pub open spec fn token_resolved(h: Seq<(String, HostEntry)>, host: Seq<char>, env_token: Option<Seq<char>>) -> Option<Seq<char>> {
    if env_token matches Some(t) && t.len() > 0 {
        env_token
    } else {
        match host_lookup(h, host_key(host)) {
            Some(e) => if e.0.len() > 0 {
                Some(e.0)
            } else {
                None
            },
            None => None,
        }
    }
}

impl ConfigStore {
    /// A handle over the store under `home_override`.
    pub fn new(home_override: Option<String>) -> (r: ConfigStore)
        ensures
            r.home_override == home_override,
    {
        ConfigStore { home_override }
    }

    /// Where the store lives: `.dply/config.json` under the home directory
    /// (the override first, then `$HOME`, then the platform's answer).
    pub fn path(&self, env_home: Option<&str>, platform_home: Option<&str>) -> (r: Result<String, CoreError>)
        ensures
            r matches Ok(p) ==> crate::paths::home_of(
                crate::sites::opt_view(self.home_override),
                crate::node::opt_str(env_home),
                crate::node::opt_str(platform_home),
            ) matches Some(h) && p@ == crate::paths::path_join(
                crate::paths::path_join(h, ".dply"@),
                "config.json"@,
            ),
            r matches Err(e) ==> e == CoreError::NoHome && crate::paths::home_of(
                crate::sites::opt_view(self.home_override),
                crate::node::opt_str(env_home),
                crate::node::opt_str(platform_home),
            ) is None,
    {
        let o = match &self.home_override {
            Some(h) => Some(h.as_str()),
            None => None,
        };
        match crate::paths::home(o, env_home, platform_home) {
            Ok(h) => Ok(crate::paths::dply_config(h.as_str())),
            Err(e) => Err(e),
        }
    }

    /// The canonical key form of a host: trim, lowercase, drop trailing `/`.
    pub fn normalize_host(host: &str) -> (r: String)
        ensures
            r@ == host_key(host@),
    {
        let t = trim_str(host);
        let l = to_lower(t.as_str());
        let cs = to_chars(l.as_str());
        let slash = ['/'];
        assert(slash@ =~= seq!['/']);
        let k = trim_end_matches_chars(&cs, &slash);
        from_chars(&k)
    }

    /// Resolve the host for this invocation: the `--host` flag, then
    /// `$DPLY_HOST`, then the stored default (`None` when the store could not
    /// be read), then the fallback.
    pub fn resolve_host(&self, flag: Option<&str>, env_host: Option<&str>, stored_default: Option<&str>) -> (r: String)
        ensures
            r@ == host_resolved(
                crate::node::opt_str(flag),
                crate::node::opt_str(env_host),
                crate::node::opt_str(stored_default),
            ),
    {
        let h: &str = match flag {
            Some(f) if !str_is_empty(f) => f,
            _ => match env_host {
                Some(e) if !str_is_empty(e) => e,
                _ => match stored_default {
                    Some(d) => d,
                    None => DEFAULT_HOST,
                },
            },
        };
        let cs = to_chars(h);
        let slash = ['/'];
        assert(slash@ =~= seq!['/']);
        let k = trim_end_matches_chars(&cs, &slash);
        from_chars(&k)
    }

    /// The stored default host.
    pub fn default_host(&self, file: &ConfigFile) -> (r: Option<String>)
        ensures
            crate::sites::opt_view(r) == crate::sites::opt_view(file.default_host),
    {
        match &file.default_host {
            Some(h) => Some(copy_string(h)),
            None => None,
        }
    }

    /// The entry stored for `host` (by its canonical key).
    pub fn host_entry(&self, file: &ConfigFile, host: &str) -> (r: Option<HostEntry>)
        requires
            keys_sorted(file.hosts@),
        ensures
            match r {
                Some(e) => host_lookup(file.hosts@, host_key(host@)) == Some(entry_view(e)),
                None => host_lookup(file.hosts@, host_key(host@)) is None,
            },
    {
        let key = Self::normalize_host(host);
        let mut i: usize = 0;
        proof {
            lemma_lookup(file.hosts@, key@);
        }
        while i < file.hosts.len()
            invariant
                i <= file.hosts.len(),
                key@ == host_key(host@),
                keys_sorted(file.hosts@),
                forall|k: int| 0 <= k < i ==> (#[trigger] file.hosts@[k]).0@ != key@,
            decreases file.hosts.len() - i,
        {
            if str_eq(file.hosts[i].0.as_str(), key.as_str()) {
                proof {
                    lemma_lookup(file.hosts@, key@);
                }
                let e = &file.hosts[i].1;
                return Some(
                    HostEntry {
                        token: copy_string(&e.token),
                        user: copy_string(&e.user),
                        updated_at: copy_string(&e.updated_at),
                    },
                );
            }
            i = i + 1;
        }
        proof {
            lemma_lookup_absent(file.hosts@, key@);
        }
        None
    }

    /// Token for `host`: `$DPLY_TOKEN` (when set and not empty) wins, then the
    /// stored per-host token when it is not empty.
    pub fn token_for(&self, file: &ConfigFile, host: &str, env_token: Option<&str>) -> (r: Option<String>)
        requires
            keys_sorted(file.hosts@),
        ensures
            crate::sites::opt_view(r) == token_resolved(file.hosts@, host@, crate::node::opt_str(env_token)),
    {
        if let Some(t) = env_token {
            if !str_is_empty(t) {
                return Some(String::from_str(t));
            }
        }
        match self.host_entry(file, host) {
            Some(e) => if str_is_empty(e.token.as_str()) {
                None
            } else {
                Some(e.token)
            },
            None => None,
        }
    }

    /// Store a token and user profile for `host`, stamped `updated_at`,
    /// making it the default when asked or when there is no default yet.
    pub fn set_host(
        &self,
        file: &mut ConfigFile,
        host: &str,
        token: &str,
        user: &str,
        updated_at: &str,
        make_default: bool,
    )
        requires
            keys_sorted(old(file).hosts@),
        ensures
            keys_sorted(final(file).hosts@),
            forall|k: Seq<char>|
                #[trigger] host_lookup(final(file).hosts@, k) == if k == host_key(host@) {
                    Some((token@, user@, updated_at@))
                } else {
                    host_lookup(old(file).hosts@, k)
                },
            crate::sites::opt_view(final(file).default_host) == if make_default || old(
                file,
            ).default_host is None {
                Some(host_key(host@))
            } else {
                crate::sites::opt_view(old(file).default_host)
            },
    {
        let key = Self::normalize_host(host);
        let entry = HostEntry {
            token: String::from_str(token),
            user: String::from_str(user),
            updated_at: String::from_str(updated_at),
        };
        let ghost ev = entry_view(entry);
        let ghost h0 = file.hosts@;
        let kc = to_chars(key.as_str());
        let mut p: usize = 0;
        while p < file.hosts.len() && lex_less(&to_chars(file.hosts[p].0.as_str()), &kc)
            invariant
                p <= file.hosts.len(),
                file.hosts@ == h0,
                kc@ == key@,
                forall|k: int| 0 <= k < p ==> lex_lt(#[trigger] h0[k].0@, key@),
            decreases file.hosts.len() - p,
        {
            p = p + 1;
        }
        if p < file.hosts.len() && chars_eq(&to_chars(file.hosts[p].0.as_str()), &kc) {
            let ghost old_default = file.default_host;
            let pair = (copy_string(&file.hosts[p].0), entry);
            file.hosts.set(p, pair);
            proof {
                let h1 = file.hosts@;
                assert(h1 =~= h0.update(p as int, h1[p as int]));
                assert forall|i: int, j: int| 0 <= i < j < h1.len() implies lex_lt(#[trigger] h1[i].0@, #[trigger] h1[j].0@) by {
                    assert(h1[i].0@ == h0[i].0@ && h1[j].0@ == h0[j].0@);
                }
                assert forall|k: Seq<char>| #[trigger] host_lookup(h1, k) == if k == key@ {
                    Some(ev)
                } else {
                    host_lookup(h0, k)
                } by {
                    lemma_lookup(h1, k);
                    lemma_lookup(h0, k);
                    if k == key@ {
                        assert(h1[p as int].0@ == k);
                    } else if exists|i: int| 0 <= i < h0.len() && (#[trigger] h0[i]).0@ == k {
                        let i = choose|i: int| 0 <= i < h0.len() && (#[trigger] h0[i]).0@ == k;
                        assert(h1[i] == h0[i]);
                    } else {
                        assert forall|i: int| 0 <= i < h1.len() implies (#[trigger] h1[i]).0@ != k by {
                            if i != p {
                                assert(h1[i] == h0[i]);
                            }
                        }
                    }
                }
            }
        } else {
            proof {
                if p < h0.len() {
                    lemma_lex_total(h0[p as int].0@, key@);
                    assert forall|k: int| p <= k < h0.len() implies lex_lt(key@, #[trigger] h0[k].0@) by {
                        if k > p {
                            lemma_lex_trans(key@, h0[p as int].0@, h0[k].0@);
                        }
                    }
                }
            }
            let pair = (copy_string(&key), entry);
            file.hosts.insert(p, pair);
            proof {
                let h1 = file.hosts@;
                assert(h1 =~= h0.insert(p as int, h1[p as int]));
                assert forall|i: int, j: int| 0 <= i < j < h1.len() implies lex_lt(#[trigger] h1[i].0@, #[trigger] h1[j].0@) by {
                    if j < p {
                    } else if i < p && j == p {
                    } else if i < p {
                        lemma_lex_trans(h0[i].0@, key@, h0[j - 1].0@);
                    } else if i == p {
                    } else {
                        assert(h1[i] == h0[i - 1] && h1[j] == h0[j - 1]);
                    }
                }
                assert forall|k: Seq<char>| #[trigger] host_lookup(h1, k) == if k == key@ {
                    Some(ev)
                } else {
                    host_lookup(h0, k)
                } by {
                    lemma_lookup(h1, k);
                    lemma_lookup(h0, k);
                    if k == key@ {
                        assert(h1[p as int].0@ == k);
                    } else if exists|i: int| 0 <= i < h0.len() && (#[trigger] h0[i]).0@ == k {
                        let i = choose|i: int| 0 <= i < h0.len() && (#[trigger] h0[i]).0@ == k;
                        if i < p {
                            assert(h1[i] == h0[i]);
                        } else {
                            assert(h1[i + 1] == h0[i]);
                        }
                    } else {
                        assert forall|i: int| 0 <= i < h1.len() implies (#[trigger] h1[i]).0@ != k by {
                            if i < p {
                                assert(h1[i] == h0[i]);
                            } else if i > p {
                                assert(h1[i] == h0[i - 1]);
                            }
                        }
                    }
                }
            }
        }
        if make_default || file.default_host.is_none() {
            file.default_host = Some(key);
        }
    }

    /// Forget a host's token, repointing the default to the first remaining
    /// host (or none) when it was the default. Returns whether anything was
    /// removed; when nothing was, the store is left as it was.
    pub fn forget_host(&self, file: &mut ConfigFile, host: &str) -> (r: bool)
        requires
            keys_sorted(old(file).hosts@),
        ensures
            r == (host_lookup(old(file).hosts@, host_key(host@)) is Some),
            keys_sorted(final(file).hosts@),
            forall|k: Seq<char>|
                #[trigger] host_lookup(final(file).hosts@, k) == if k == host_key(host@) {
                    None
                } else {
                    host_lookup(old(file).hosts@, k)
                },
            crate::sites::opt_view(final(file).default_host) == if r && crate::sites::opt_view(
                old(file).default_host,
            ) == Some(host_key(host@)) {
                if final(file).hosts@.len() > 0 {
                    Some(final(file).hosts@[0].0@)
                } else {
                    None
                }
            } else {
                crate::sites::opt_view(old(file).default_host)
            },
    {
        let key = Self::normalize_host(host);
        let ghost h0 = file.hosts@;
        proof {
            lemma_lookup(h0, key@);
        }
        let mut i: usize = 0;
        while i < file.hosts.len()
            invariant
                i <= file.hosts.len(),
                file.hosts@ == h0,
                keys_sorted(h0),
                forall|k: int| 0 <= k < i ==> (#[trigger] h0[k]).0@ != key@,
            ensures
                i <= file.hosts.len(),
                file.hosts@ == h0,
                i < file.hosts.len() ==> h0[i as int].0@ == key@,
                forall|k: int| 0 <= k < i ==> (#[trigger] h0[k]).0@ != key@,
            decreases file.hosts.len() - i,
        {
            if str_eq(file.hosts[i].0.as_str(), key.as_str()) {
                break;
            }
            i = i + 1;
        }
        if i == file.hosts.len() {
            proof {
                lemma_lookup_absent(h0, key@);
            }
            return false;
        }
        let ghost gi = i as int;
        assert(h0[gi].0@ == key@);
        let _removed = file.hosts.remove(i);
        proof {
            let h1 = file.hosts@;
            assert(h1 =~= h0.remove(gi));
            assert forall|a: int, b: int| 0 <= a < b < h1.len() implies lex_lt(#[trigger] h1[a].0@, #[trigger] h1[b].0@) by {
                let a0 = if a < gi { a } else { a + 1 };
                let b0 = if b < gi { b } else { b + 1 };
                assert(h1[a] == h0[a0] && h1[b] == h0[b0]);
            }
            assert forall|k: Seq<char>| #[trigger] host_lookup(h1, k) == if k == key@ {
                None
            } else {
                host_lookup(h0, k)
            } by {
                lemma_lookup(h1, k);
                lemma_lookup(h0, k);
                if k == key@ {
                    assert forall|j: int| 0 <= j < h1.len() implies (#[trigger] h1[j]).0@ != k by {
                        let j0 = if j < gi { j } else { j + 1 };
                        assert(h1[j] == h0[j0]);
                        lemma_lex_irrefl(k);
                    }
                } else if exists|j: int| 0 <= j < h0.len() && (#[trigger] h0[j]).0@ == k {
                    let j = choose|j: int| 0 <= j < h0.len() && (#[trigger] h0[j]).0@ == k;
                    if j < gi {
                        assert(h1[j] == h0[j]);
                    } else {
                        assert(j != gi);
                        assert(h1[j - 1] == h0[j]);
                    }
                } else {
                    assert forall|j: int| 0 <= j < h1.len() implies (#[trigger] h1[j]).0@ != k by {
                        let j0 = if j < gi { j } else { j + 1 };
                        assert(h1[j] == h0[j0]);
                    }
                }
            }
        }
        let was_default = match &file.default_host {
            Some(d) => str_eq(d.as_str(), key.as_str()),
            None => false,
        };
        if was_default {
            file.default_host = if file.hosts.len() > 0 {
                Some(copy_string(&file.hosts[0].0))
            } else {
                None
            };
        }
        true
    }
}

/// What a write stores, a read gives back: after storing a token for a host,
/// looking the host up gives that token, user and time, and every other host
/// is as it was.
pub proof fn lemma_store_read_after_write(
    before: Seq<(String, HostEntry)>,
    after: Seq<(String, HostEntry)>,
    host: Seq<char>,
    entry: EntryView,
    other: Seq<char>,
)
    requires
        forall|k: Seq<char>|
            #[trigger] host_lookup(after, k) == if k == host_key(host) {
                Some(entry)
            } else {
                host_lookup(before, k)
            },
    ensures
        host_lookup(after, host_key(host)) == Some(entry),
        other != host_key(host) ==> host_lookup(after, other) == host_lookup(before, other),
{
    assert(host_lookup(after, host_key(host)) == Some(entry));
    assert(host_lookup(after, other) == if other == host_key(host) {
        Some(entry)
    } else {
        host_lookup(before, other)
    });
}

} // verus!
