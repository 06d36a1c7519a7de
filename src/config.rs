use vstd::prelude::*;

verus! {

/// A parsed configuration file of the `ini` crate, carried through opaquely.
#[verifier::external_type_specification]
#[verifier::external_body]
pub struct ExIni(ini::Ini);

/// What a loaded configuration file holds: the value of each key of each
/// named section, keyed by (section, key).
pub uninterp spec fn ini_contents(conf: ini::Ini) -> Map<(Seq<char>, Seq<char>), Seq<char>>;

/// Relies on `ini::Ini::get_from`: a lookup of `key` in the named section's
/// table, `None` where either is absent.
#[verifier::external_body]
fn ini_get(conf: &ini::Ini, section: &str, key: &str) -> (r: Option<String>)
    ensures
        r is Some <==> ini_contents(*conf).contains_key((section@, key@)),
        r matches Some(v) ==> v@ == ini_contents(*conf)[(section@, key@)],
{
    conf.get_from(Some(section), key).map(|v| v.to_string())
}

/// The settings a pipeline run reads, in the order they are looked up.
#[derive(Debug, Clone, Copy, PartialEq, Eq, Structural)]
pub enum Setting {
    StoragePath,
    IndexPath,
    LatestOnly,
    Stable,
    Nightly,
    LlvmPath,
}

/// The (section, key) under which a setting is stored.
pub open spec fn setting_key(s: Setting) -> (Seq<char>, Seq<char>) {
    match s {
        Setting::StoragePath => ("storage"@, "path"@),
        Setting::IndexPath => ("crates"@, "index_path"@),
        Setting::LatestOnly => ("crates"@, "latest_only"@),
        Setting::Stable => ("compiler"@, "stable"@),
        Setting::Nightly => ("compiler"@, "nightly"@),
        Setting::LlvmPath => ("llvm"@, "path"@),
    }
}

/// Position of a setting in lookup order.
pub open spec fn setting_rank(s: Setting) -> nat {
    match s {
        Setting::StoragePath => 0,
        Setting::IndexPath => 1,
        Setting::LatestOnly => 2,
        Setting::Stable => 3,
        Setting::Nightly => 4,
        Setting::LlvmPath => 5,
    }
}

pub open spec fn has_setting(m: Map<(Seq<char>, Seq<char>), Seq<char>>, s: Setting) -> bool {
    m.contains_key(setting_key(s))
}

pub open spec fn setting_value(m: Map<(Seq<char>, Seq<char>), Seq<char>>, s: Setting) -> Seq<char> {
    m[setting_key(s)]
}

/// A configuration that could not be read: the first setting that is absent.
#[derive(Debug, Clone, Copy, PartialEq, Eq, Structural)]
pub enum ConfigError {
    Missing(Setting),
}

/// Process-wide settings, read once and passed to every stage.
#[derive(Debug, Clone)]
pub struct Config {
    /// Root of the corpus on disk.
    pub storage_root: String,
    /// Where the registry index is kept.
    pub index_path: String,
    /// Whether only each package's most recent version is wanted.
    pub latest_only: bool,
    /// Toolchain used for stable builds.
    pub stable: String,
    /// Toolchain used for nightly builds.
    pub nightly: String,
    /// Root of the binary-analysis toolchain.
    pub llvm_path: String,
}

fn lookup(conf: &ini::Ini, s: Setting) -> (r: Option<String>)
    ensures
        r is Some <==> has_setting(ini_contents(*conf), s),
        r matches Some(v) ==> v@ == setting_value(ini_contents(*conf), s),
{
    match s {
        Setting::StoragePath => ini_get(conf, "storage", "path"),
        Setting::IndexPath => ini_get(conf, "crates", "index_path"),
        Setting::LatestOnly => ini_get(conf, "crates", "latest_only"),
        Setting::Stable => ini_get(conf, "compiler", "stable"),
        Setting::Nightly => ini_get(conf, "compiler", "nightly"),
        Setting::LlvmPath => ini_get(conf, "llvm", "path"),
    }
}

/// Whether a flag's text reads as enabled: exactly `true`.
pub fn flag_enabled(value: &str) -> (r: bool)
    ensures
        r == (value@ == "true"@),
{
    let t = String::from_str("true");
    let v = value.to_owned();
    v == t
}

/// The directory of the registry index, if the configuration names one.
pub fn config_index_dir(conf: &ini::Ini) -> (r: Option<String>)
    ensures
        r is Some <==> has_setting(ini_contents(*conf), Setting::IndexPath),
        r matches Some(v) ==> v@ == setting_value(ini_contents(*conf), Setting::IndexPath),
{
    lookup(conf, Setting::IndexPath)
}

/// Whether only the most recent version of each package is wanted, if the
/// configuration says.
pub fn config_latest_only(conf: &ini::Ini) -> (r: Option<bool>)
    ensures
        r is Some <==> has_setting(ini_contents(*conf), Setting::LatestOnly),
        r matches Some(b) ==> b == (setting_value(ini_contents(*conf), Setting::LatestOnly)
            == "true"@),
{
    match lookup(conf, Setting::LatestOnly) {
        Some(v) => Some(flag_enabled(v.as_str())),
        None => None,
    }
}

impl Config {
    /// Reads every setting; fails on the first one, in lookup order, that is
    /// absent.
    pub fn from_ini(conf: &ini::Ini) -> (r: Result<Config, ConfigError>)
        ensures
            r is Ok <==> (forall|s: Setting| has_setting(ini_contents(*conf), s)),
            r matches Err(ConfigError::Missing(s)) ==> !has_setting(ini_contents(*conf), s) && (
            forall|t: Setting|
                setting_rank(t) < setting_rank(s) ==> has_setting(ini_contents(*conf), t)),
            r matches Ok(c) ==> {
                let m = ini_contents(*conf);
                &&& c.storage_root@ == setting_value(m, Setting::StoragePath)
                &&& c.index_path@ == setting_value(m, Setting::IndexPath)
                &&& c.latest_only == (setting_value(m, Setting::LatestOnly) == "true"@)
                &&& c.stable@ == setting_value(m, Setting::Stable)
                &&& c.nightly@ == setting_value(m, Setting::Nightly)
                &&& c.llvm_path@ == setting_value(m, Setting::LlvmPath)
            },
    {
        let storage_root = match lookup(conf, Setting::StoragePath) {
            Some(v) => v,
            None => { return Err(ConfigError::Missing(Setting::StoragePath)); },
        };
        let index_path = match config_index_dir(conf) {
            Some(v) => v,
            None => { return Err(ConfigError::Missing(Setting::IndexPath)); },
        };
        let latest_only = match config_latest_only(conf) {
            Some(b) => b,
            None => { return Err(ConfigError::Missing(Setting::LatestOnly)); },
        };
        let stable = match lookup(conf, Setting::Stable) {
            Some(v) => v,
            None => { return Err(ConfigError::Missing(Setting::Stable)); },
        };
        let nightly = match lookup(conf, Setting::Nightly) {
            Some(v) => v,
            None => { return Err(ConfigError::Missing(Setting::Nightly)); },
        };
        let llvm_path = match lookup(conf, Setting::LlvmPath) {
            Some(v) => v,
            None => { return Err(ConfigError::Missing(Setting::LlvmPath)); },
        };
        assert forall|s: Setting| has_setting(ini_contents(*conf), s) by {
            match s {
                Setting::StoragePath => {},
                Setting::IndexPath => {},
                Setting::LatestOnly => {},
                Setting::Stable => {},
                Setting::Nightly => {},
                Setting::LlvmPath => {},
            }
        }
        Ok(Config { storage_root, index_path, latest_only, stable, nightly, llvm_path })
    }
}

} // verus!
