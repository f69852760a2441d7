//! Fixed file names, namespace prefixes and locations, and the path model:
//! paths are plain strings, joined with a single separator.

use vstd::prelude::*;

verus! {

/// The file name of the shim library that is searched for.
pub open spec fn lib_file_name() -> Seq<char> {
    "libyabridge.so"@
}

/// The fixed system library directory, searched before the per-user one.
pub open spec fn system_lib_dir() -> Seq<char> {
    "/usr/lib"@
}

/// A directory and a file name joined with the path separator.
pub open spec fn join_spec(dir: Seq<char>, name: Seq<char>) -> Seq<char> {
    dir + "/"@ + name
}

/// The name of the config file, relative to the tool's config directory.
pub fn config_file_name() -> (r: &'static str)
    ensures
        r@ == "config.toml"@,
{
    "config.toml"
}

/// The base-directory prefix for the tool's own config and data files.
pub fn yabridgectl_prefix() -> (r: &'static str)
    ensures
        r@ == "yabridgectl"@,
{
    "yabridgectl"
}

/// The base-directory prefix for the shim's own installed files.
pub fn yabridge_prefix() -> (r: &'static str)
    ensures
        r@ == "yabridge"@,
{
    "yabridge"
}

/// The file name of the shim library.
pub fn libyabridge_name() -> (r: &'static str)
    ensures
        r@ == lib_file_name(),
{
    "libyabridge.so"
}

/// The fixed system library directory.
pub fn system_library_dir() -> (r: &'static str)
    ensures
        r@ == system_lib_dir(),
{
    "/usr/lib"
}

/// Join a directory and a file name with the path separator.
pub fn join_path(dir: &str, name: &str) -> (r: String)
    ensures
        r@ == join_spec(dir@, name@),
{
    let mut r = dir.to_owned();
    r.append("/");
    r.append(name);
    r
}

} // verus!
