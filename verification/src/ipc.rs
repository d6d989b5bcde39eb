//! The CLI-to-daemon wire protocol.
//!
//! Framing is length-prefixed: a 4-byte big-endian `u32` byte count followed
//! by that many bytes of an encoded [`Envelope`]. Every envelope carries the
//! protocol version, so a stale peer fails loudly instead of misbehaving.
//! Encoding the payload itself happens at the application edge; this module
//! holds the envelope, the reported shapes, and the framing rules.

use vstd::prelude::*;

use crate::text::{dec, dec_string, push_str};
use crate::PROTOCOL_VERSION;

verus! {

/// Every message on the wire is wrapped so the peer can check protocol
/// compatibility before acting on the payload.
#[derive(Debug, Clone)]
pub struct Envelope<T> {
    pub protocol: u32,
    pub payload: T,
}

impl<T> Envelope<T> {
    /// Wrap a payload in the current protocol version.
    pub fn new(payload: T) -> (r: Self)
        ensures
            r.protocol == PROTOCOL_VERSION,
            r.payload == payload,
    {
        Envelope { protocol: PROTOCOL_VERSION, payload }
    }
}

/// One local site, as reported to the CLI and GUI.
#[derive(Debug, Clone)]
pub struct SiteInfo {
    pub name: String,
    pub host: String,
    pub url: String,
    pub path: String,
    pub docroot: String,
    pub source: String,
    pub php: Option<String>,
    pub secure: bool,
    /// A PHP backend is currently running for this site.
    pub serving: bool,
    /// `None`/`"fpm"` is php-fpm, else an Octane server.
    pub runtime: Option<String>,
    /// Detected project type, e.g. `"Laravel (^12)"`.
    pub framework: Option<String>,
    /// PHP version the project requires (composer.json `require.php`).
    pub requires_php: Option<String>,
    /// Effective Xdebug mode.
    pub xdebug: Option<String>,
    /// Xdebug is installed for this site's PHP version.
    pub xdebug_installed: bool,
    /// The SPX profiler is on for this site.
    pub profile: bool,
    /// SPX is installed for this site's PHP version.
    pub profile_installed: bool,
    /// This site's opcache preload script, if set.
    pub preload: Option<String>,
    /// Pinned Node version, if any.
    pub node: Option<String>,
    /// Which file the Node pin came from.
    pub node_source: Option<String>,
    /// Branch-aware base database, when attached.
    pub database: Option<String>,
    /// Which git branch's data is live in `database`.
    pub db_branch: Option<String>,
}

/// One local database or cache service.
#[derive(Debug, Clone)]
pub struct ServiceInfo {
    /// Instance name, or the engine name for an external default-port service.
    pub name: String,
    pub engine: String,
    pub port: u16,
    pub installed: bool,
    pub running: bool,
    /// Running, but managed by something other than the daemon.
    pub external: bool,
    /// Version label for a managed instance (empty for external services).
    pub version: String,
}

/// An installed engine version an instance can be created from.
#[derive(Debug, Clone)]
pub struct VersionInfo {
    pub engine: String,
    pub version: String,
    /// Where it came from (`dbngin`, `homebrew`).
    pub source: String,
}

/// Snapshot of what the daemon is currently doing.
#[derive(Debug, Clone)]
pub struct DaemonStatus {
    pub version: String,
    /// Seconds since the daemon started.
    pub uptime_secs: u64,
    /// Whether the HTTP/HTTPS proxy is listening.
    pub proxy_running: bool,
    /// Number of registered local sites.
    pub site_count: usize,
}

/// A request from the CLI to the daemon, by operation.
#[derive(Debug, Clone)]
pub enum Request {
    Ping,
    Status,
    Version,
    Shutdown,
    ListSites,
    Park { path: String },
    Unpark { path: String },
    Link { name: Option<String>, path: String },
    Unlink { name: String },
    /// Move a linked site to a new path, keeping its settings.
    Relink { name: String, path: String },
    /// Bring over sites from another tool: parked folders and named links.
    ImportSites { parked: Vec<String>, links: Vec<(String, String)> },
    RemoveSites { parked: Vec<String>, links: Vec<String> },
    /// `"resolver"` or `"hosts"`.
    SetResolution { mode: String },
    SetRuntime { site: String, runtime: String },
    /// Set Xdebug for a site (or the default), and the IDE settings.
    SetXdebug { mode: Option<String>, site: Option<String>, port: Option<u16>, ide_key: Option<String> },
    Secure { name: String, secure: bool },
    SetProfile { site: String, on: bool },
    SetPreload { site: String, script: Option<String> },
    /// `set` or `remove` a reverse proxy.
    Proxy { action: String, name: String, target: Option<String> },
    UsePhp { version: String, site: Option<String> },
    Reload,
    RepairBackends,
    Service { action: String, name: Option<String>, engine: Option<String>, version: Option<String>, port: Option<u16> },
    Db { action: String, engine: String, name: Option<String>, port: Option<u16>, file: Option<String> },
    Tld { action: String, name: Option<String> },
    BranchDb { action: String, site: String, branch: Option<String>, database: Option<String>, port: Option<u16> },
    /// Make the site at `path` match a project spec.
    ApplySpec { path: String, spec: crate::spec::SiteSpec },
    ExportSpec { path: String },
    /// An operation this build does not know.
    Unknown,
}

/// The daemon's answer, by kind.
#[derive(Debug, Clone)]
pub enum Response {
    Pong,
    Version { version: String },
    Status { status: DaemonStatus },
    Sites { sites: Vec<SiteInfo>, http_port: u16, tld: String },
    /// Done, with nothing to report (`ok` on the wire).
    Done,
    Message { text: String },
    ServiceList { services: Vec<ServiceInfo> },
    Versions { versions: Vec<VersionInfo> },
    Lines { lines: Vec<String> },
    Error { message: String },
    /// A kind this build does not know.
    Unknown,
}

/// Errors in speaking the protocol (framing, handshake), as distinct from
/// the daemon answering with an error.
#[derive(Debug, Clone, Copy, PartialEq, Eq)]
pub enum ProtocolError {
    VersionMismatch { client: u32, daemon: u32 },
    FrameTooLarge(u32),
    Truncated,
}

/// The message for a protocol error.
pub open spec fn protocol_error_text(e: ProtocolError) -> Seq<char> {
    match e {
        ProtocolError::VersionMismatch { client, daemon } => "daemon speaks protocol v"@ + dec(
            daemon as nat,
        ) + ", this client speaks v"@ + dec(client as nat)
            + "; upgrade the mismatched binary"@,
        ProtocolError::FrameTooLarge(n) => "frame too large: "@ + dec(n as nat) + " bytes"@,
        ProtocolError::Truncated => "connection closed mid-frame"@,
    }
}

impl ProtocolError {
    /// The error as the user reads it.
    pub fn message(&self) -> (r: String)
        ensures
            r@ == protocol_error_text(*self),
    {
        match self {
            ProtocolError::VersionMismatch { client, daemon } => {
                let mut s = String::from_str("daemon speaks protocol v");
                push_str(&mut s, dec_string(*daemon as u64).as_str());
                push_str(&mut s, ", this client speaks v");
                push_str(&mut s, dec_string(*client as u64).as_str());
                push_str(&mut s, "; upgrade the mismatched binary");
                s
            },
            ProtocolError::FrameTooLarge(n) => {
                let mut s = String::from_str("frame too large: ");
                push_str(&mut s, dec_string(*n as u64).as_str());
                push_str(&mut s, " bytes");
                s
            },
            ProtocolError::Truncated => String::from_str("connection closed mid-frame"),
        }
    }
}

/// Hard cap on a single frame (4 MiB), so a corrupt length prefix can't make
/// a reader allocate gigabytes.
pub const MAX_FRAME: u32 = 4194304;

/// The four big-endian bytes of `n`.
pub open spec fn be_bytes(n: u32) -> Seq<u8> {
    seq![
        (n / 0x100_0000) as u8,
        ((n / 0x1_0000) % 0x100) as u8,
        ((n / 0x100) % 0x100) as u8,
        (n % 0x100) as u8,
    ]
}

/// The `u32` four big-endian bytes encode.
pub open spec fn be_value(b: Seq<u8>) -> nat {
    (b[0] as nat) * 0x100_0000 + (b[1] as nat) * 0x1_0000 + (b[2] as nat) * 0x100 + (b[3] as nat)
}

/// A frame for `body`: its length as four big-endian bytes, then the body.
/// `None` when the body is longer than a `u32` can count.
pub fn encode_frame(body: &[u8]) -> (r: Option<Vec<u8>>)
    ensures
        r matches Some(f) ==> body@.len() <= u32::MAX && f@ == be_bytes(body@.len() as u32) + body@,
        r is None ==> body@.len() > u32::MAX,
{
    let n = body.len();
    if n > 0xffff_ffff {
        return None;
    }
    let len = n as u32;
    let mut out: Vec<u8> = Vec::new();
    out.push((len / 0x100_0000) as u8);
    out.push(((len / 0x1_0000) % 0x100) as u8);
    out.push(((len / 0x100) % 0x100) as u8);
    out.push((len % 0x100) as u8);
    let mut i: usize = 0;
    while i < n
        invariant
            i <= n,
            n == body@.len(),
            n <= u32::MAX,
            len == n as u32,
            out@ == be_bytes(len) + body@.take(i as int),
        decreases n - i,
    {
        out.push(body[i]);
        i = i + 1;
        assert(out@ =~= be_bytes(len) + body@.take(i as int));
    }
    assert(body@.take(n as int) =~= body@);
    Some(out)
}

/// Read a frame's length prefix, refusing one over [`MAX_FRAME`].
pub fn frame_length(header: [u8; 4]) -> (r: Result<u32, ProtocolError>)
    ensures
        r matches Ok(n) ==> n as nat == be_value(header@) && n <= MAX_FRAME,
        r matches Err(e) ==> be_value(header@) > MAX_FRAME && e == ProtocolError::FrameTooLarge(
            be_value(header@) as u32,
        ),
{
    let n: u32 = (header[0] as u32) * 0x100_0000 + (header[1] as u32) * 0x1_0000 + (header[2] as u32)
        * 0x100 + (header[3] as u32);
    if n > MAX_FRAME {
        Err(ProtocolError::FrameTooLarge(n))
    } else {
        Ok(n)
    }
}

/// Check a peer's protocol version against this build's.
pub fn check_protocol(peer: u32) -> (r: Result<(), ProtocolError>)
    ensures
        r is Ok <==> peer == PROTOCOL_VERSION,
        r matches Err(e) ==> e == (ProtocolError::VersionMismatch { client: PROTOCOL_VERSION, daemon: peer }),
{
    if peer == PROTOCOL_VERSION {
        Ok(())
    } else {
        Err(ProtocolError::VersionMismatch { client: PROTOCOL_VERSION, daemon: peer })
    }
}

/// A frame's length prefix reads back as the length it was written with.
pub proof fn lemma_frame_length_round_trip(n: u32)
    ensures
        be_value(be_bytes(n)) == n,
{
    let b = be_bytes(n);
    assert(b[0] as nat == n / 0x100_0000);
    assert(b[1] as nat == (n / 0x1_0000) % 0x100);
    assert(b[2] as nat == (n / 0x100) % 0x100);
    assert(b[3] as nat == n % 0x100);
    assert((n / 0x100_0000) * 0x100_0000 + ((n / 0x1_0000) % 0x100) * 0x1_0000 + ((n / 0x100)
        % 0x100) * 0x100 + n % 0x100 == n) by (nonlinear_arith);
}

} // verus!
