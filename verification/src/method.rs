//! The installation method: the closed set of strategies for attaching the
//! shim library to a discovered plugin, with its canonical textual form.

use vstd::prelude::*;

use crate::order::str_eq;

verus! {

/// How the shim library is set up for the plugins that were found.
#[derive(Clone, Copy, PartialEq, Eq, Structural, Debug)]
pub enum InstallationMethod {
    /// Place a copy of the shim library next to every discovered plugin;
    /// works without any special filesystem privileges.
    Copy,
    /// Create a symbolic link to the shim library instead, which makes
    /// updating the shim easier.
    Symlink,
}

/// The canonical lowercase textual form of a method, used both in the
/// config file and when showing the method to the user.
pub open spec fn method_str(m: InstallationMethod) -> Seq<char> {
    match m {
        InstallationMethod::Copy => "copy"@,
        InstallationMethod::Symlink => "symlink"@,
    }
}

/// Which method a configuration string denotes; anything but the two
/// canonical forms denotes none.
pub open spec fn parse_method(s: Seq<char>) -> Option<InstallationMethod> {
    if s == "copy"@ {
        Some(InstallationMethod::Copy)
    } else if s == "symlink"@ {
        Some(InstallationMethod::Symlink)
    } else {
        None
    }
}

/// The canonical form of a method parses back to that method.
pub proof fn lemma_method_str_parses(m: InstallationMethod)
    ensures
        parse_method(method_str(m)) == Some(m),
{
    reveal_strlit("copy");
    reveal_strlit("symlink");
    match m {
        InstallationMethod::Copy => {
            assert(parse_method("copy"@) == Some(InstallationMethod::Copy));
        },
        InstallationMethod::Symlink => {
            assert("symlink"@.len() == 7);
            assert("copy"@.len() == 4);
            assert(parse_method("symlink"@) == Some(InstallationMethod::Symlink));
        },
    }
}

impl InstallationMethod {
    /// The canonical lowercase name of the method.
    pub fn as_config_str(&self) -> (r: &'static str)
        ensures
            r@ == method_str(*self),
    {
        match self {
            InstallationMethod::Copy => "copy",
            InstallationMethod::Symlink => "symlink",
        }
    }

    /// Read a method back from its configuration string.
    pub fn from_config_str(s: &str) -> (r: Option<InstallationMethod>)
        ensures
            r == parse_method(s@),
    {
        if str_eq(s, "copy") {
            Some(InstallationMethod::Copy)
        } else if str_eq(s, "symlink") {
            Some(InstallationMethod::Symlink)
        } else {
            None
        }
    }
}

} // verus!
