//! `dpl.toml` — a project's committable environment spec: everything dpl
//! knows about a site that is not already a repo file, so a teammate runs
//! `dpl up` and gets the same environment. Reading and writing the TOML is
//! the caller's part.

use vstd::prelude::*;

verus! {

/// The spec's file name at a project's root.
pub const FILE_NAME: &'static str = "dpl.toml";

/// Everything `dpl up` applies. Field names are the file's keys; an absent
/// key means the default, so the file is the single source of truth.
#[derive(Debug, Clone, PartialEq)]
pub struct SiteSpec {
    /// Site name (`<name>.test`). Default: the folder name.
    pub name: Option<String>,
    /// PHP version pin, e.g. `"8.3"`. Absent: the machine default.
    pub php: Option<String>,
    /// Serve over HTTPS.
    pub secure: bool,
    /// Application server: absent or `"fpm"` is php-fpm, else an Octane
    /// server.
    pub runtime: Option<String>,
    /// Xdebug mode for the site.
    pub xdebug: Option<String>,
    /// SPX profiler on.
    pub profile: bool,
    /// Opcache preload script, relative to the project root.
    pub preload: Option<String>,
    /// Branch-aware database base name.
    pub database: Option<String>,
    /// Postgres port for `database`, when not 5432.
    pub db_port: Option<u16>,
    /// Engines this project needs running.
    pub services: Vec<String>,
    /// package.json script supervised as the project's dev server.
    pub dev: Option<String>,
}

impl Default for SiteSpec {
    /// The spec of an empty file: everything absent or off.
    fn default() -> (r: SiteSpec)
        ensures
            r.name is None && r.php is None && !r.secure && r.runtime is None && r.xdebug is None && !r.profile
                && r.preload is None && r.database is None && r.db_port is None && r.services@.len() == 0
                && r.dev is None,
    {
        SiteSpec {
            name: None,
            php: None,
            secure: false,
            runtime: None,
            xdebug: None,
            profile: false,
            preload: None,
            database: None,
            db_port: None,
            services: Vec::new(),
            dev: None,
        }
    }
}

} // verus!
