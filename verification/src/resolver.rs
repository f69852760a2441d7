//! The shim-library search: an explicit override directory when one is set,
//! otherwise an ordered, short-circuiting walk of the two fallback
//! locations, with a failure message that names every place searched.
//!
//! Whether a candidate file exists on disk is answered outside; the search
//! itself — which candidates there are, in which order, and what each
//! outcome yields — is decided here.

use vstd::prelude::*;

use crate::config::Config;
use crate::paths::join_path;
use crate::paths::join_spec;
use crate::paths::lib_file_name;
use crate::paths::libyabridge_name;
use crate::paths::system_lib_dir;
use crate::paths::system_library_dir;

verus! {

/// The failure message when the override directory does not hold the shim.
pub open spec fn missing_override_msg(home: Seq<char>) -> Seq<char> {
    "Could not find "@ + lib_file_name() + " in '"@ + home + "'."@
}

/// The failure message when neither fallback location holds the shim: both
/// searched directories, and the way to point the search elsewhere.
pub open spec fn missing_fallback_msg(data_home: Seq<char>) -> Seq<char> {
    "Could not find "@ + lib_file_name() + " in either '"@ + system_lib_dir() + "' or '"@
        + data_home
        + "'. You can tell yabridgectl where to search for it using 'yabridgectl set --path=<path>'."@
}

/// How many locations the search looks at: the override directory alone
/// when one is set, otherwise the two fallback locations.
pub open spec fn candidate_count(c: &Config) -> int {
    if c.yabridge_home is Some {
        1
    } else {
        2
    }
}

/// The path searched at position `k`, in search order: the override
/// directory when set; otherwise the system library directory first and
/// the shim's per-user data directory second.
pub open spec fn candidate_spec(c: &Config, data_home: Seq<char>, k: int) -> Seq<char> {
    match c.yabridge_home {
        Some(home) => join_spec(home@, lib_file_name()),
        None => if k == 0 {
            join_spec(system_lib_dir(), lib_file_name())
        } else {
            join_spec(data_home, lib_file_name())
        },
    }
}

/// The result of the search, given which candidates exist: the first
/// existing candidate in search order, or the failure naming what was
/// searched.
pub open spec fn locate_spec(c: &Config, data_home: Seq<char>, found: Seq<bool>) -> Result<
    Seq<char>,
    Seq<char>,
> {
    match c.yabridge_home {
        Some(home) => if found[0] {
            Ok(join_spec(home@, lib_file_name()))
        } else {
            Err(missing_override_msg(home@))
        },
        None => if found[0] {
            Ok(join_spec(system_lib_dir(), lib_file_name()))
        } else if found[1] {
            Ok(join_spec(data_home, lib_file_name()))
        } else {
            Err(missing_fallback_msg(data_home))
        },
    }
}

fn build_missing_override_msg(home: &str) -> (r: String)
    ensures
        r@ == missing_override_msg(home@),
{
    let mut r = String::from_str("Could not find ");
    r.append(libyabridge_name());
    r.append(" in '");
    r.append(home);
    r.append("'.");
    r
}

fn build_missing_fallback_msg(data_home: &str) -> (r: String)
    ensures
        r@ == missing_fallback_msg(data_home@),
{
    let mut r = String::from_str("Could not find ");
    r.append(libyabridge_name());
    r.append(" in either '");
    r.append(system_library_dir());
    r.append("' or '");
    r.append(data_home);
    r.append(
        "'. You can tell yabridgectl where to search for it using 'yabridgectl set --path=<path>'.",
    );
    r
}

impl Config {
    /// The locations searched for the shim library, in search order.
    /// `yabridge_data_home` is the shim namespace's per-user data
    /// directory, resolved outside.
    pub fn search_candidates(&self, yabridge_data_home: &str) -> (r: Vec<String>)
        ensures
            r@.len() == candidate_count(self),
            forall|k: int|
                0 <= k < r@.len() ==> r@[k]@ == candidate_spec(self, yabridge_data_home@, k),
    {
        match &self.yabridge_home {
            Some(home) => {
                let mut r: Vec<String> = Vec::new();
                r.push(join_path(home.as_str(), libyabridge_name()));
                r
            },
            None => {
                let mut r: Vec<String> = Vec::new();
                r.push(join_path(system_library_dir(), libyabridge_name()));
                r.push(join_path(yabridge_data_home, libyabridge_name()));
                r
            },
        }
    }

    /// The path of the shim library, decided from which candidates exist:
    /// `found[k]` answers whether the candidate at position `k` of
    /// `search_candidates` exists.  The first existing candidate wins, in
    /// search order, and the failure message names every location searched.
    pub fn libyabridge(&self, yabridge_data_home: &str, found: &Vec<bool>) -> (r: Result<
        String,
        String,
    >)
        requires
            found@.len() == candidate_count(self),
        ensures
            (match r {
                Ok(p) => locate_spec(self, yabridge_data_home@, found@) is Ok && p@ == locate_spec(
                    self,
                    yabridge_data_home@,
                    found@,
                )->Ok_0,
                Err(e) => locate_spec(self, yabridge_data_home@, found@) is Err && e@
                    == locate_spec(self, yabridge_data_home@, found@)->Err_0,
            }),
    {
        match &self.yabridge_home {
            Some(home) => {
                if found[0] {
                    Ok(join_path(home.as_str(), libyabridge_name()))
                } else {
                    Err(build_missing_override_msg(home.as_str()))
                }
            },
            None => {
                if found[0] {
                    Ok(join_path(system_library_dir(), libyabridge_name()))
                } else if found[1] {
                    Ok(join_path(yabridge_data_home, libyabridge_name()))
                } else {
                    Err(build_missing_fallback_msg(yabridge_data_home))
                }
            },
        }
    }
}

} // verus!
