//! Where the toolchain keeps its files. Local-dev state lives under
//! `~/.dpl`; the runtime socket prefers `$XDG_RUNTIME_DIR` and falls back to
//! `~/.dpl/run`. The dply auth store is `~/.dply/config.json`, shared with the
//! `dply` CLI.
//!
//! Finding the home directory reads the environment, which is the caller's
//! part: [`home`] decides between what it found.

use vstd::prelude::*;

use crate::error::CoreError;
use crate::text::{has_prefix, push_str, str_is_empty, to_chars};

verus! {

/// `a` joined with `b` the way `Path::join` joins: an absolute `b` replaces
/// `a`; otherwise a `/` goes between them unless `a` is empty or already ends
/// with one.
pub open spec fn path_join(a: Seq<char>, b: Seq<char>) -> Seq<char> {
    if has_prefix(b, seq!['/']) {
        b
    } else if a.len() == 0 {
        b
    } else if a.last() == '/' {
        a + b
    } else {
        a + seq!['/'] + b
    }
}

/// Join `b` onto `a` (see [`path_join`]).
pub fn join(a: &str, b: &str) -> (r: String)
    ensures
        r@ == path_join(a@, b@),
{
    let ac = to_chars(a);
    let bc = to_chars(b);
    if bc.len() > 0 && bc[0] == '/' {
        assert(bc@.subrange(0, 1) =~= seq!['/']);
        return String::from_str(b);
    }
    assert(!has_prefix(b@, seq!['/'])) by {
        if has_prefix(b@, seq!['/']) {
            assert(b@.subrange(0, 1)[0] == b@[0]);
        }
    }
    let mut out = String::from_str(a);
    if ac.len() > 0 && ac[ac.len() - 1] != '/' {
        out.push('/');
    }
    push_str(&mut out, b);
    out
}

/// The home directory: a non-empty override (the `--config-dir` escape
/// hatch) first, then a non-empty `$HOME`, then what the platform reports;
/// `NoHome` when there is none.
pub open spec fn home_of(
    override_home: Option<Seq<char>>,
    env_home: Option<Seq<char>>,
    platform_home: Option<Seq<char>>,
) -> Option<Seq<char>> {
    if override_home matches Some(h) && h.len() > 0 {
        override_home
    } else if env_home matches Some(h) && h.len() > 0 {
        env_home
    } else {
        platform_home
    }
}

/// Resolve the user's home directory from an explicit override, the value of
/// `$HOME`, and the platform's answer.
pub fn home(override_home: Option<&str>, env_home: Option<&str>, platform_home: Option<&str>) -> (r:
    Result<String, CoreError>)
    ensures
        r matches Ok(h) ==> home_of(
            crate::node::opt_str(override_home),
            crate::node::opt_str(env_home),
            crate::node::opt_str(platform_home),
        ) == Some(h@),
        r matches Err(e) ==> e == CoreError::NoHome && home_of(
            crate::node::opt_str(override_home),
            crate::node::opt_str(env_home),
            crate::node::opt_str(platform_home),
        ) is None,
{
    if let Some(h) = override_home {
        if !str_is_empty(h) {
            return Ok(String::from_str(h));
        }
    }
    if let Some(h) = env_home {
        if !str_is_empty(h) {
            return Ok(String::from_str(h));
        }
    }
    match platform_home {
        Some(h) => Ok(String::from_str(h)),
        None => Err(CoreError::NoHome),
    }
}

/// `~/.dpl` — root of all local-dev state.
pub fn dpl_dir(home: &str) -> (r: String)
    ensures
        r@ == path_join(home@, ".dpl"@),
{
    join(home, ".dpl")
}

/// `~/.dpl/config.toml` — parked dirs, linked sites, per-site settings.
pub fn local_config(home: &str) -> (r: String)
    ensures
        r@ == path_join(path_join(home@, ".dpl"@), "config.toml"@),
{
    join(dpl_dir(home).as_str(), "config.toml")
}

/// `~/.dply/config.json` — the dply auth store shared with the `dply` CLI.
pub fn dply_config(home: &str) -> (r: String)
    ensures
        r@ == path_join(path_join(home@, ".dply"@), "config.json"@),
{
    join(join(home, ".dply").as_str(), "config.json")
}

/// The directory for the CLI-to-daemon socket: `$XDG_RUNTIME_DIR/dpl` when
/// that is set and non-empty, else `~/.dpl/run`.
pub open spec fn runtime_dir_of(home: Seq<char>, xdg: Option<Seq<char>>) -> Seq<char> {
    if xdg matches Some(x) && x.len() > 0 {
        path_join(xdg->0, "dpl"@)
    } else {
        path_join(path_join(home, ".dpl"@), "run"@)
    }
}

/// The directory for the CLI-to-daemon socket.
pub fn runtime_dir(home: &str, xdg_runtime_dir: Option<&str>) -> (r: String)
    ensures
        r@ == runtime_dir_of(home@, crate::node::opt_str(xdg_runtime_dir)),
{
    if let Some(x) = xdg_runtime_dir {
        if !str_is_empty(x) {
            return join(x, "dpl");
        }
    }
    join(dpl_dir(home).as_str(), "run")
}

/// Path to the daemon control socket.
pub fn daemon_socket(home: &str, xdg_runtime_dir: Option<&str>) -> (r: String)
    ensures
        r@ == path_join(runtime_dir_of(home@, crate::node::opt_str(xdg_runtime_dir)), "dpld.sock"@),
{
    join(runtime_dir(home, xdg_runtime_dir).as_str(), "dpld.sock")
}

/// `~/.dpl/certs` — local CA and per-site leaf certificates.
pub fn certs_dir(home: &str) -> (r: String)
    ensures
        r@ == path_join(path_join(home@, ".dpl"@), "certs"@),
{
    join(dpl_dir(home).as_str(), "certs")
}

/// `~/.dpl/logs` — daemon and per-service logs.
pub fn logs_dir(home: &str) -> (r: String)
    ensures
        r@ == path_join(path_join(home@, ".dpl"@), "logs"@),
{
    join(dpl_dir(home).as_str(), "logs")
}

/// `~/.dpl/mail` — captured emails.
pub fn mail_dir(home: &str) -> (r: String)
    ensures
        r@ == path_join(path_join(home@, ".dpl"@), "mail"@),
{
    join(dpl_dir(home).as_str(), "mail")
}

/// `~/.dpl/services` — per-instance data directories.
pub fn services_dir(home: &str) -> (r: String)
    ensures
        r@ == path_join(path_join(home@, ".dpl"@), "services"@),
{
    join(dpl_dir(home).as_str(), "services")
}

/// `~/.dpl/services.toml` — the service-instance registry.
pub fn services_config(home: &str) -> (r: String)
    ensures
        r@ == path_join(path_join(home@, ".dpl"@), "services.toml"@),
{
    join(dpl_dir(home).as_str(), "services.toml")
}

} // verus!
