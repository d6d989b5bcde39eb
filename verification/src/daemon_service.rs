//! Running the daemon as a login service: the actions `dpl daemon` takes, the
//! launchd agent and systemd unit that keep `dpld` running, and reading
//! whether the agent is loaded. Writing the files and calling `launchctl` or
//! `systemctl` is the caller's part.

use vstd::prelude::*;

use crate::text::{contains_chars, lines, lines_of, push_str, str_eq, to_chars};

verus! {

/// The launchd label of the login agent.
pub const LABEL: &'static str = "com.tomshafer.dpld";

/// What `dpl daemon <action>` does.
#[derive(Debug, Clone, Copy, PartialEq, Eq)]
pub enum DaemonAction {
    Install,
    Uninstall,
    Start,
    Stop,
    Restart,
    Status,
}

/// The action an argument names, or the error for one it doesn't.
pub open spec fn daemon_action_of(a: Seq<char>) -> Result<DaemonAction, Seq<char>> {
    if a == "install"@ {
        Ok(DaemonAction::Install)
    } else if a == "uninstall"@ {
        Ok(DaemonAction::Uninstall)
    } else if a == "start"@ {
        Ok(DaemonAction::Start)
    } else if a == "stop"@ {
        Ok(DaemonAction::Stop)
    } else if a == "restart"@ {
        Ok(DaemonAction::Restart)
    } else if a == "status"@ {
        Ok(DaemonAction::Status)
    } else {
        Err("unknown daemon action: "@ + a + " (install|uninstall|start|stop|restart|status)"@)
    }
}

impl DaemonAction {
    /// The action an argument names (see [`daemon_action_of`]).
    pub fn parse(a: &str) -> (r: Result<DaemonAction, String>)
        ensures
            match r {
                Ok(x) => daemon_action_of(a@) == Ok::<DaemonAction, Seq<char>>(x),
                Err(e) => daemon_action_of(a@) == Err::<DaemonAction, Seq<char>>(e@),
            },
    {
        if str_eq(a, "install") {
            Ok(DaemonAction::Install)
        } else if str_eq(a, "uninstall") {
            Ok(DaemonAction::Uninstall)
        } else if str_eq(a, "start") {
            Ok(DaemonAction::Start)
        } else if str_eq(a, "stop") {
            Ok(DaemonAction::Stop)
        } else if str_eq(a, "restart") {
            Ok(DaemonAction::Restart)
        } else if str_eq(a, "status") {
            Ok(DaemonAction::Status)
        } else {
            let mut e = String::from_str("unknown daemon action: ");
            push_str(&mut e, a);
            push_str(&mut e, " (install|uninstall|start|stop|restart|status)");
            Err(e)
        }
    }
}

/// The launchd agent that runs `dpld` at login on the fallback ports, with
/// Homebrew on its `PATH`, kept alive, logging to `out` and `err`.
pub open spec fn agent_plist(dpld: Seq<char>, out: Seq<char>, err: Seq<char>) -> Seq<char> {
    "<?xml version=\"1.0\" encoding=\"UTF-8\"?>\n<!DOCTYPE plist PUBLIC \"-//Apple//DTD PLIST 1.0//EN\" \"http://www.apple.com/DTDs/PropertyList-1.0.dtd\">\n<plist version=\"1.0\">\n<dict>\n    <key>Label</key><string>"@
        + LABEL@ + "</string>\n    <key>ProgramArguments</key>\n    <array><string>"@ + dpld
        + "</string></array>\n    <key>EnvironmentVariables</key>\n    <dict>\n        <key>DPL_HTTP_PORT</key><string>8080</string>\n        <key>DPL_HTTPS_PORT</key><string>8443</string>\n        <!-- launchd hands us a minimal PATH; add Homebrew so php/php-fpm and\n             the database engines are discoverable. -->\n        <key>PATH</key><string>/opt/homebrew/bin:/opt/homebrew/sbin:/usr/local/bin:/usr/local/sbin:/usr/bin:/bin:/usr/sbin:/sbin</string>\n    </dict>\n    <key>RunAtLoad</key><true/>\n    <key>KeepAlive</key><true/>\n    <key>StandardOutPath</key><string>"@
        + out + "</string>\n    <key>StandardErrorPath</key><string>"@ + err + "</string>\n</dict>\n</plist>\n"@
}

/// The launchd agent (see [`agent_plist`]).
pub fn launch_agent_plist(dpld: &str, out: &str, err: &str) -> (r: String)
    ensures
        r@ == agent_plist(dpld@, out@, err@),
{
    let mut p = String::from_str(
        "<?xml version=\"1.0\" encoding=\"UTF-8\"?>\n<!DOCTYPE plist PUBLIC \"-//Apple//DTD PLIST 1.0//EN\" \"http://www.apple.com/DTDs/PropertyList-1.0.dtd\">\n<plist version=\"1.0\">\n<dict>\n    <key>Label</key><string>",
    );
    push_str(&mut p, LABEL);
    push_str(&mut p, "</string>\n    <key>ProgramArguments</key>\n    <array><string>");
    push_str(&mut p, dpld);
    push_str(
        &mut p,
        "</string></array>\n    <key>EnvironmentVariables</key>\n    <dict>\n        <key>DPL_HTTP_PORT</key><string>8080</string>\n        <key>DPL_HTTPS_PORT</key><string>8443</string>\n        <!-- launchd hands us a minimal PATH; add Homebrew so php/php-fpm and\n             the database engines are discoverable. -->\n        <key>PATH</key><string>/opt/homebrew/bin:/opt/homebrew/sbin:/usr/local/bin:/usr/local/sbin:/usr/bin:/bin:/usr/sbin:/sbin</string>\n    </dict>\n    <key>RunAtLoad</key><true/>\n    <key>KeepAlive</key><true/>\n    <key>StandardOutPath</key><string>",
    );
    push_str(&mut p, out);
    push_str(&mut p, "</string>\n    <key>StandardErrorPath</key><string>");
    push_str(&mut p, err);
    push_str(&mut p, "</string>\n</dict>\n</plist>\n");
    p
}

/// The systemd user unit that runs `dpld` on the fallback ports and
/// restarts it.
pub open spec fn user_unit(dpld: Seq<char>) -> Seq<char> {
    "[Unit]\nDescription=dpl local dev daemon\n\n[Service]\nExecStart="@ + dpld
        + "\nEnvironment=DPL_HTTP_PORT=8080\nEnvironment=DPL_HTTPS_PORT=8443\nRestart=always\n\n[Install]\nWantedBy=default.target\n"@
}

/// The systemd user unit (see [`user_unit`]).
pub fn systemd_unit(dpld: &str) -> (r: String)
    ensures
        r@ == user_unit(dpld@),
{
    let mut u = String::from_str("[Unit]\nDescription=dpl local dev daemon\n\n[Service]\nExecStart=");
    push_str(&mut u, dpld);
    push_str(
        &mut u,
        "\nEnvironment=DPL_HTTP_PORT=8080\nEnvironment=DPL_HTTPS_PORT=8443\nRestart=always\n\n[Install]\nWantedBy=default.target\n",
    );
    u
}

/// Whether `launchctl list` output shows the agent: some line mentions its
/// label.
pub open spec fn agent_loaded(list: Seq<char>) -> bool {
    exists|i: int| 0 <= i < lines(list).len() && crate::text::contains_seq(#[trigger] lines(list)[i], LABEL@)
}

/// Whether `launchctl list` output shows the agent (see [`agent_loaded`]).
pub fn agent_listed(list: &str) -> (r: bool)
    ensures
        r == agent_loaded(list@),
{
    let ls = lines_of(&to_chars(list));
    let ghost lv = lines(list@);
    let label = to_chars(LABEL);
    let mut i: usize = 0;
    while i < ls.len()
        invariant
            i <= ls.len(),
            lv == lines(list@),
            ls@.len() == lv.len(),
            forall|q: int| 0 <= q < ls@.len() ==> (#[trigger] ls@[q])@ == lv[q],
            label@ == LABEL@,
            forall|q: int| 0 <= q < i ==> !crate::text::contains_seq(#[trigger] lv[q], LABEL@),
        decreases ls.len() - i,
    {
        if contains_chars(&ls[i], &label) {
            assert(crate::text::contains_seq(lv[i as int], LABEL@));
            return true;
        }
        i = i + 1;
    }
    false
}

} // verus!
