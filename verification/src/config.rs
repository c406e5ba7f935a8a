//! API key configuration.
//!
//! The key comes from two sources, in order of precedence: the
//! `ALBERT_API_KEY` environment variable, then the config file in the
//! platform configuration directory.  Reading those sources is the caller's
//! part; this module decides between them, validates the key and names the
//! config file.
use vstd::prelude::*;
use vstd::string::*;
use crate::platform::{HostOs, concat3, join_path_exec};
use crate::text::{chars_of, has_whitespace, is_blank, string_from_chars, trim_chars};

verus! {

/// The environment variable that holds the API key (highest priority).
pub const API_KEY_ENV: &'static str = "ALBERT_API_KEY";

/// The name of the config file inside the platform config directory.
pub const CONFIG_FILE_NAME: &'static str = "config.toml";

/// Where the API key came from.
#[derive(Clone, Copy, Debug, PartialEq, Eq, Structural)]
pub enum KeySource {
    /// Read from the `ALBERT_API_KEY` environment variable.
    Environment,
    /// Read from the config file.
    ConfigFile,
    /// No key was found anywhere.
    Missing,
}

/// The resolved API key configuration.
#[derive(Clone, Debug)]
pub struct ApiKeyConfig {
    /// The API key, or an empty string if none was found.
    pub key: String,
    /// Where the key came from.
    pub source: KeySource,
}

/// The contents of the config file.
#[derive(Clone, Debug, Default)]
pub struct FileConfig {
    /// The Albert API key.
    pub api_key: Option<String>,
}

/// The key that a source offers, if it offers a usable one: the trimmed value
/// when it holds something besides whitespace.
pub open spec fn offered_key(value: Option<Seq<char>>) -> Option<Seq<char>> {
    match value {
        Some(v) => if crate::text::all_ws(v) {
            None
        } else {
            Some(crate::text::trim_ws(v))
        },
        None => None,
    }
}

/// The key and its source chosen from the environment variable's value and
/// the config file's key: the environment wins, then the file, else none.
pub open spec fn resolve_spec(env: Option<Seq<char>>, file: Option<Seq<char>>) -> (
    Seq<char>,
    KeySource,
) {
    match offered_key(env) {
        Some(k) => (k, KeySource::Environment),
        None => match offered_key(file) {
            Some(k) => (k, KeySource::ConfigFile),
            None => (Seq::empty(), KeySource::Missing),
        },
    }
}

/// The view of an optional string argument.
pub open spec fn opt_view(v: Option<&str>) -> Option<Seq<char>> {
    match v {
        Some(s) => Some(s@),
        None => None,
    }
}

/// The message given when no key is configured.
pub open spec fn missing_key_message(config_path: Seq<char>) -> Seq<char> {
    "No Albert API key found. Set the ALBERT_API_KEY environment variable or create a config file at "@
        + config_path + "."@
}

/// The message given when the key holds whitespace.
pub open spec fn whitespace_key_message() -> Seq<char> {
    "The Albert API key contains whitespace and looks invalid."@
}

/// The usable key a source offers.
fn offered_key_exec(value: Option<&str>) -> (res: Option<String>)
    ensures
        match res {
            Some(k) => offered_key(opt_view(value)) == Some(k@),
            None => offered_key(opt_view(value)) is None,
        },
{
    match value {
        Some(v) => {
            let cs = chars_of(v);
            if is_blank(&cs) {
                None
            } else {
                let t = trim_chars(&cs);
                Some(string_from_chars(&t))
            }
        },
        None => None,
    }
}

impl ApiKeyConfig {
    /// Chooses the key from the environment variable's value (`env`) and the
    /// config file's key (`file`), in that order of precedence; a value that
    /// is empty or all whitespace does not count, and the chosen key is
    /// trimmed.
    pub fn resolve(env: Option<&str>, file: Option<&str>) -> (res: ApiKeyConfig)
        ensures
            (res.key@, res.source) == resolve_spec(opt_view(env), opt_view(file)),
    {
        match offered_key_exec(env) {
            Some(k) => ApiKeyConfig { key: k, source: KeySource::Environment },
            None => match offered_key_exec(file) {
                Some(k) => ApiKeyConfig { key: k, source: KeySource::ConfigFile },
                None => ApiKeyConfig { key: String::new(), source: KeySource::Missing },
            },
        }
    }

    /// The path of the config file inside the configuration directory
    /// `config_dir` (see `platform::config_dir_for`); it is absolute exactly
    /// when that directory is.
    pub fn config_file_path(os: HostOs, config_dir: &str) -> (res: String)
        ensures
            res@ == crate::platform::join_path(os, config_dir@, CONFIG_FILE_NAME@),
    {
        proof {
            reveal_strlit("config.toml");
        }
        join_path_exec(os, config_dir, CONFIG_FILE_NAME)
    }

    /// Validates the key: an empty or all-whitespace key is reported as
    /// missing (naming the variable and the config file at `config_path`),
    /// a key holding whitespace as invalid; any other key is accepted.
    pub fn validate(&self, config_path: &str) -> (res: Result<(), String>)
        ensures
            crate::text::all_ws(self.key@) ==> (res matches Err(m) && m@ == missing_key_message(
                config_path@,
            )),
            !crate::text::all_ws(self.key@) && crate::text::any_ws(self.key@) ==> (res matches Err(
                m,
            ) && m@ == whitespace_key_message()),
            !crate::text::any_ws(self.key@) && !crate::text::all_ws(self.key@) ==> res is Ok,
    {
        let k = chars_of(self.key.as_str());
        if is_blank(&k) {
            let mut m = concat3(
                "No Albert API key found. Set the ",
                API_KEY_ENV,
                " environment variable or create a config file at ",
            );
            m.append(config_path);
            m.append(".");
            proof {
                reveal_strlit("No Albert API key found. Set the ");
                reveal_strlit("ALBERT_API_KEY");
                reveal_strlit(" environment variable or create a config file at ");
                reveal_strlit(
                    "No Albert API key found. Set the ALBERT_API_KEY environment variable or create a config file at ",
                );
                assert("No Albert API key found. Set the "@ + "ALBERT_API_KEY"@
                    + " environment variable or create a config file at "@
                    =~= "No Albert API key found. Set the ALBERT_API_KEY environment variable or create a config file at "@);
            }
            return Err(m);
        }
        if has_whitespace(&k) {
            return Err(String::from_str("The Albert API key contains whitespace and looks invalid."));
        }
        Ok(())
    }

    /// What the config file holds for this configuration.
    pub fn file_config(&self) -> (res: FileConfig)
        ensures
            (res.api_key matches Some(k) && k@ == self.key@),
    {
        FileConfig { api_key: Some(self.key.clone()) }
    }
}

// ---------------------------------------------------------------------------
// Laws
// ---------------------------------------------------------------------------

proof fn lemma_offered_key_is_trimmed(value: Option<Seq<char>>)
    ensures
        offered_key(value) matches Some(k) ==> k.len() > 0 && !crate::text::all_ws(k)
            && !crate::text::is_ws(k[0]) && !crate::text::is_ws(k.last()),
{
    if let Some(v) = value {
        if !crate::text::all_ws(v) {
            let k = crate::text::trim_ws(v);
            let t = crate::text::trim_start_ws(v);
            crate::text::lemma_trim_empty_iff_all_ws(v);
            crate::text::lemma_trim_start_all_ws(v);
            crate::text::lemma_trim_end_prefix(t);
            crate::text::lemma_trim_start_suffix(v);
            crate::text::lemma_trim_start_first(v);
            assert(k[0] == t[0]);
            assert(!crate::text::is_ws(k[0]));
        }
    }
}

/// A resolved configuration has a key exactly when some source offered one;
/// the key is then trimmed, so validation reports a missing key exactly when
/// the source is `Missing`.
pub proof fn law_resolved_key_is_missing_iff_no_source(
    env: Option<Seq<char>>,
    file: Option<Seq<char>>,
)
    ensures
        ({
            let (k, source) = resolve_spec(env, file);
            &&& (source == KeySource::Missing <==> k.len() == 0)
            &&& (source == KeySource::Missing <==> crate::text::all_ws(k))
            &&& source != KeySource::Missing ==> !crate::text::is_ws(k[0])
                && !crate::text::is_ws(k.last())
        }),
{
    lemma_offered_key_is_trimmed(env);
    lemma_offered_key_is_trimmed(file);
}

/// The environment variable wins over the config file whenever it offers a
/// key.
pub proof fn law_environment_takes_precedence(env: Seq<char>, file: Option<Seq<char>>)
    requires
        !crate::text::all_ws(env),
    ensures
        resolve_spec(Some(env), file) == (crate::text::trim_ws(env), KeySource::Environment),
{
}

/// A key that passes validation, once saved to the config file, is loaded
/// back unchanged from it when the environment variable offers no key.
pub proof fn law_saved_valid_key_is_loaded_back(key: Seq<char>, env: Option<Seq<char>>)
    requires
        !crate::text::all_ws(key),
        !crate::text::any_ws(key),
        offered_key(env) is None,
    ensures
        resolve_spec(env, Some(key)) == (key, KeySource::ConfigFile),
{
    if key.len() > 0 {
        assert(!crate::text::is_ws(key[0]));
        assert(!crate::text::is_ws(key[key.len() - 1]));
    }
}

} // verus!
