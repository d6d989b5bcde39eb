//! Which host OS the platform-specific parts (service registration, name
//! resolution, CA trust) target.

use vstd::prelude::*;

verus! {

/// Which host OS a platform-specific part targets.
#[derive(Debug, Clone, Copy, PartialEq, Eq)]
pub enum Platform {
    MacOs,
    Linux,
    Other,
}

/// The platform an OS name (as `std::env::consts::OS` spells it) is.
pub open spec fn platform_of(os: Seq<char>) -> Platform {
    if os == "macos"@ {
        Platform::MacOs
    } else if os == "linux"@ {
        Platform::Linux
    } else {
        Platform::Other
    }
}

impl Platform {
    /// The platform an OS name is (see [`platform_of`]).
    pub fn of_os(os: &str) -> (r: Platform)
        ensures
            r == platform_of(os@),
    {
        if crate::text::str_eq(os, "macos") {
            Platform::MacOs
        } else if crate::text::str_eq(os, "linux") {
            Platform::Linux
        } else {
            Platform::Other
        }
    }
}

} // verus!
