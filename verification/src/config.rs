//! The typed configuration: its defaulting rule, its encoding to and from
//! the plain fields of the on-disk file, and the exact messages of the
//! fatal errors around loading and saving it.

use vstd::prelude::*;

use crate::dirset::DirSet;
use crate::method::lemma_method_str_parses;
use crate::method::method_str;
use crate::method::parse_method;
use crate::method::InstallationMethod;
use crate::order::lemma_strict_sorted_canonical;
use crate::order::strict_sorted;

verus! {

/// The persisted settings: how the shim is attached, where to look for it,
/// and which directories to scan for plugins.
#[derive(Debug)]
pub struct Config {
    /// The installation method to use.
    pub method: InstallationMethod,
    /// The directory holding the shim library.  When absent, the fixed
    /// fallback locations are searched instead.
    pub yabridge_home: Option<String>,
    /// Directories to search for plugins, without duplicates and always
    /// sorted, so the persisted file is diff-stable.
    pub plugin_dirs: DirSet,
}

impl Config {
    pub open spec fn wf(&self) -> bool {
        self.plugin_dirs.wf()
    }
}

/// The hard-coded default: copies, no override directory, no plugin
/// directories.
pub open spec fn is_default_config(c: &Config) -> bool {
    &&& c.method == InstallationMethod::Copy
    &&& c.yabridge_home is None
    &&& c.plugin_dirs@.len() == 0
}

impl Default for Config {
    /// The configuration used when no file exists yet.
    fn default() -> (c: Config)
        ensures
            c.wf(),
            is_default_config(&c),
    {
        Config { method: InstallationMethod::Copy, yabridge_home: None, plugin_dirs: DirSet::new() }
    }
}

/// The plain fields of the on-disk file, as handed to and from the opaque
/// structured-text encoder: the method by its textual name, the override
/// directory as an optional path, the plugin directories as a plain list.
#[derive(Debug)]
pub struct RawConfig {
    pub method: String,
    pub yabridge_home: Option<String>,
    pub plugin_dirs: Vec<String>,
}

/// What `encode` promises of its output: the method in its canonical form,
/// the other fields carried over, the directory list in the set's own
/// sorted order.
pub open spec fn encoded(c: &Config, raw: &RawConfig) -> bool {
    &&& raw.method@ == method_str(c.method)
    &&& raw.yabridge_home.deep_view() == c.yabridge_home.deep_view()
    &&& raw.plugin_dirs.deep_view() == c.plugin_dirs@
}

/// What a successful `decode` promises: the method denoted by the string,
/// the other fields carried over, the directory list turned into the sorted
/// set of exactly its elements.
pub open spec fn decoded_ok(raw: &RawConfig, c: &Config) -> bool {
    &&& parse_method(raw.method@) == Some(c.method)
    &&& c.yabridge_home.deep_view() == raw.yabridge_home.deep_view()
    &&& c.wf()
    &&& c.plugin_dirs@.to_set() == raw.plugin_dirs.deep_view().to_set()
}

/// Field-wise equality of configurations, with paths compared by content.
pub open spec fn config_equiv(a: &Config, b: &Config) -> bool {
    &&& a.method == b.method
    &&& a.yabridge_home.deep_view() == b.yabridge_home.deep_view()
    &&& a.plugin_dirs@ == b.plugin_dirs@
}

/// The message of a rejected installation-method string.
pub open spec fn unknown_method_msg(m: Seq<char>) -> Seq<char> {
    "unknown installation method '"@ + m + "', expected 'copy' or 'symlink'"@
}

fn build_unknown_method_msg(m: &str) -> (r: String)
    ensures
        r@ == unknown_method_msg(m@),
{
    let mut r = String::from_str("unknown installation method '");
    r.append(m);
    r.append("', expected 'copy' or 'symlink'");
    r
}

impl Config {
    /// The plain fields the structured-text encoder is to write, with the
    /// directory list in sorted order however the set was built.
    pub fn encode(&self) -> (raw: RawConfig)
        requires
            self.wf(),
        ensures
            encoded(self, &raw),
            strict_sorted(raw.plugin_dirs.deep_view()),
    {
        let home = match &self.yabridge_home {
            Some(h) => Some(h.clone()),
            None => None,
        };
        RawConfig {
            method: self.method.as_config_str().to_owned(),
            yabridge_home: home,
            plugin_dirs: self.plugin_dirs.to_vec(),
        }
    }

    /// Turn the plain fields read from the file back into a configuration.
    /// An installation-method string outside the closed set is a hard error,
    /// never silently defaulted; every other input is accepted.
    pub fn decode(raw: &RawConfig) -> (r: Result<Config, String>)
        ensures
            (r is Ok) == (parse_method(raw.method@) is Some),
            (match r {
                Ok(c) => decoded_ok(raw, &c),
                Err(e) => e@ == unknown_method_msg(raw.method@),
            }),
    {
        match InstallationMethod::from_config_str(raw.method.as_str()) {
            Some(method) => {
                let home = match &raw.yabridge_home {
                    Some(h) => Some(h.clone()),
                    None => None,
                };
                let dirs = DirSet::from_vec(&raw.plugin_dirs);
                Ok(Config { method, yabridge_home: home, plugin_dirs: dirs })
            },
            None => Err(build_unknown_method_msg(raw.method.as_str())),
        }
    }
}

/// Round trip: decoding what `encode` produced yields the original
/// configuration, field for field.
pub proof fn lemma_round_trip(c: &Config, raw: &RawConfig, c2: &Config)
    requires
        c.wf(),
        encoded(c, raw),
        decoded_ok(raw, c2),
    ensures
        config_equiv(c2, c),
{
    lemma_method_str_parses(c.method);
    lemma_strict_sorted_canonical(c2.plugin_dirs@, c.plugin_dirs@);
}

/// Encoding never loses a configuration: what `encode` produced is
/// accepted by `decode`.
pub proof fn lemma_encode_decodable(c: &Config, raw: &RawConfig)
    requires
        encoded(c, raw),
    ensures
        parse_method(raw.method@) is Some,
{
    lemma_method_str_parses(c.method);
}

/// Sorted persistence: two configurations holding the same set of plugin
/// directories encode that set identically, whatever order the directories
/// were inserted in.
pub proof fn lemma_insertion_order_irrelevant(
    a: &Config,
    b: &Config,
    ra: &RawConfig,
    rb: &RawConfig,
)
    requires
        a.wf(),
        b.wf(),
        encoded(a, ra),
        encoded(b, rb),
        a.plugin_dirs@.to_set() == b.plugin_dirs@.to_set(),
    ensures
        ra.plugin_dirs.deep_view() == rb.plugin_dirs.deep_view(),
{
    lemma_strict_sorted_canonical(a.plugin_dirs@, b.plugin_dirs@);
}

/// Defaulting is deterministic: any two default configurations agree,
/// field for field.
pub proof fn lemma_default_unique(a: &Config, b: &Config)
    requires
        is_default_config(a),
        is_default_config(b),
    ensures
        config_equiv(a, b),
{
    assert(a.plugin_dirs@ =~= b.plugin_dirs@);
}

/// The fatal parse-failure message: the decode error behind its fixed
/// prefix.
pub fn parse_error_msg(err: &str) -> (r: String)
    ensures
        r@ == "Could not parse TOML: "@ + err@,
{
    let mut r = String::from_str("Could not parse TOML: ");
    r.append(err);
    r
}

/// The fatal read-failure message, naming the offending path.
pub fn read_error_msg(path: &str, err: &str) -> (r: String)
    ensures
        r@ == "Could not read config file at '"@ + path@ + "': "@ + err@,
{
    let mut r = String::from_str("Could not read config file at '");
    r.append(path);
    r.append("': ");
    r.append(err);
    r
}

/// The fatal encode-failure message of the structured-text encoder.
pub fn format_error_msg(err: &str) -> (r: String)
    ensures
        r@ == "Could not format TOML: "@ + err@,
{
    let mut r = String::from_str("Could not format TOML: ");
    r.append(err);
    r
}

/// The fatal write-failure message for placing the config file.
pub fn place_error_msg(err: &str) -> (r: String)
    ensures
        r@ == "Could not write config file: "@ + err@,
{
    let mut r = String::from_str("Could not write config file: ");
    r.append(err);
    r
}

/// The fatal write-failure message, naming the destination path.
pub fn write_error_msg(path: &str, err: &str) -> (r: String)
    ensures
        r@ == "Could not write config file to '"@ + path@ + "': "@ + err@,
{
    let mut r = String::from_str("Could not write config file to '");
    r.append(path);
    r.append("': ");
    r.append(err);
    r
}

} // verus!
