//! The operating system that an installed game was built for.

use crate::text::{lowercase, same_text, to_lowercase};
use vstd::prelude::*;

verus! {

/// An operating system, as far as save locations depend on it.
#[derive(Clone, Copy, Debug, PartialEq, Eq, Structural)]
pub enum Os {
    Windows,
    Linux,
    Mac,
    Other,
}

/// The operating system that a lower-case platform name stands for.
pub open spec fn os_of_lowercase(name: Seq<char>) -> Os {
    if name == "windows"@ {
        Os::Windows
    } else if name == "linux"@ {
        Os::Linux
    } else if name == "mac"@ || name == "macos"@ {
        Os::Mac
    } else {
        Os::Other
    }
}

/// The operating system that a platform name stands for, whatever its case.
pub open spec fn os_of_name(name: Seq<char>) -> Os {
    os_of_lowercase(lowercase(name))
}

impl Os {
    /// Reads a platform name as a launcher writes it ("Windows", "linux").
    /// Case does not matter; a name that is not known gives `Os::Other`.
    pub fn from_name(name: &str) -> (result: Os)
        ensures
            result == os_of_name(name@),
    {
        let lower = to_lowercase(name);
        Os::from_lowercase(lower.as_str())
    }

    /// Reads a platform name that is already in lower case.
    pub fn from_lowercase(name: &str) -> (result: Os)
        ensures
            result == os_of_lowercase(name@),
    {
        if same_text(name, "windows") {
            Os::Windows
        } else if same_text(name, "linux") {
            Os::Linux
        } else if same_text(name, "mac") || same_text(name, "macos") {
            Os::Mac
        } else {
            Os::Other
        }
    }
}

} // verus!
