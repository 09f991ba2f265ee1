//! Application settings, their defaults, and the start-up checks that decide
//! whether the configured sparks and environment are usable.
use vstd::prelude::*;

use crate::text::{str_eq, str_trim, strings_view, trim};

verus! {

/// Environment variables that must be set, and not blank, at start-up.
#[derive(Debug)]
pub struct RequiredEnv {
    pub variables: Vec<String>,
}

/// General settings: the environment name and the token settings.
#[derive(Debug)]
pub struct Settings {
    pub environment: String,
    pub jwt: JwtSettings,
}

/// Token lifetimes and related settings.
#[derive(Clone, Copy, Debug, PartialEq, Eq, Structural)]
pub struct JwtSettings {
    pub access_token_expiry_mins: u64,
    pub refresh_token_expiry_days: u64,
    pub refresh_token_expiry_days_remember: u64,
    pub token_expiry_hours: u64,
    pub token_expiry_days_remember: u64,
    pub token_refresh_threshold_mins: u64,
    pub token_leeway_secs: u64,
}

/// The environment a configuration without one names: `prod`.
pub fn default_environment() -> (r: String)
    ensures
        r@ == "prod"@,
{
    String::from_str("prod")
}

/// Access tokens last 30 minutes unless configured otherwise.
pub fn default_access_token_expiry_mins() -> (r: u64)
    ensures
        r == 30,
{
    30
}

/// Refresh tokens last 7 days unless configured otherwise.
pub fn default_refresh_token_expiry_days() -> (r: u64)
    ensures
        r == 7,
{
    7
}

/// Remembered refresh tokens last 30 days unless configured otherwise.
pub fn default_refresh_token_expiry_days_remember() -> (r: u64)
    ensures
        r == 30,
{
    30
}

/// Tokens last 10 hours unless configured otherwise.
pub fn default_token_expiry_hours() -> (r: u64)
    ensures
        r == 10,
{
    10
}

/// Remembered tokens last 7 days unless configured otherwise.
pub fn default_token_expiry_days_remember() -> (r: u64)
    ensures
        r == 7,
{
    7
}

/// Tokens are refreshed 60 minutes before they expire unless configured otherwise.
pub fn default_token_refresh_threshold_mins() -> (r: u64)
    ensures
        r == 60,
{
    60
}

/// Token times are checked with 5 seconds of leeway unless configured otherwise.
pub fn default_token_leeway_secs() -> (r: u64)
    ensures
        r == 5,
{
    5
}

/// The default token settings.
pub open spec fn default_jwt_settings() -> JwtSettings {
    JwtSettings {
        access_token_expiry_mins: 30,
        refresh_token_expiry_days: 7,
        refresh_token_expiry_days_remember: 30,
        token_expiry_hours: 10,
        token_expiry_days_remember: 7,
        token_refresh_threshold_mins: 60,
        token_leeway_secs: 5,
    }
}

impl Default for JwtSettings {
    /// The default of every token setting.
    fn default() -> (r: Self)
        ensures
            r == default_jwt_settings(),
    {
        JwtSettings {
            access_token_expiry_mins: default_access_token_expiry_mins(),
            refresh_token_expiry_days: default_refresh_token_expiry_days(),
            refresh_token_expiry_days_remember: default_refresh_token_expiry_days_remember(),
            token_expiry_hours: default_token_expiry_hours(),
            token_expiry_days_remember: default_token_expiry_days_remember(),
            token_refresh_threshold_mins: default_token_refresh_threshold_mins(),
            token_leeway_secs: default_token_leeway_secs(),
        }
    }
}

impl Settings {
    /// Whether the settings name the development environment (`dev`).
    pub fn is_development(&self) -> (r: bool)
        ensures
            r == (self.environment@ == "dev"@),
    {
        str_eq(self.environment.as_str(), "dev")
    }
}

/// The required variables that are unset or blank, in the order they are
/// required; `values[i]` is what the environment holds for `names[i]`.
pub open spec fn missing_env_vars(names: Seq<Seq<char>>, values: Seq<Option<Seq<char>>>) -> Seq<
    Seq<char>,
>
    decreases names.len(),
{
    if names.len() == 0 || values.len() != names.len() {
        seq![]
    } else {
        let prev = missing_env_vars(names.drop_last(), values.drop_last());
        match values.last() {
            Some(v) => if trim(v).len() == 0 {
                prev.push(names.last())
            } else {
                prev
            },
            None => prev.push(names.last()),
        }
    }
}

/// The views of optional strings.
pub open spec fn opt_strings_view(v: Seq<Option<String>>) -> Seq<Option<Seq<char>>> {
    v.map_values(|o: Option<String>| match o {
        Some(s) => Some(s@),
        None => None,
    })
}

/// The required variables that are unset or blank; `values[i]` is what the
/// environment holds for the `i`-th required variable.
pub fn missing_required_env_vars(required: &RequiredEnv, values: &Vec<Option<String>>) -> (r: Vec<String>)
    requires
        values@.len() == required.variables@.len(),
    ensures
        strings_view(r@) == missing_env_vars(strings_view(required.variables@), opt_strings_view(values@)),
{
    let mut out: Vec<String> = Vec::new();
    let mut i: usize = 0;
    let ghost names = strings_view(required.variables@);
    let ghost vals = opt_strings_view(values@);
    while i < values.len()
        invariant
            i <= values@.len(),
            values@.len() == required.variables@.len(),
            names == strings_view(required.variables@),
            vals == opt_strings_view(values@),
            strings_view(out@) == missing_env_vars(names.subrange(0, i as int), vals.subrange(0, i as int)),
        decreases values@.len() - i,
    {
        proof {
            assert(names.subrange(0, i + 1).drop_last() =~= names.subrange(0, i as int));
            assert(vals.subrange(0, i + 1).drop_last() =~= vals.subrange(0, i as int));
        }
        let ghost before = strings_view(out@);
        match &values[i] {
            Some(v) => {
                let t = str_trim(v.as_str());
                if t.as_str().is_empty() {
                    out.push(required.variables[i].clone());
                    assert(strings_view(out@) =~= before.push(names[i as int]));
                }
            },
            None => {
                out.push(required.variables[i].clone());
                assert(strings_view(out@) =~= before.push(names[i as int]));
            },
        }
        i = i + 1;
    }
    assert(names.subrange(0, i as int) =~= names);
    assert(vals.subrange(0, i as int) =~= vals);
    out
}

} // verus!
