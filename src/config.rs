//! Settings and the decisions taken on them at startup: defaults, whether
//! the settings file needs rewriting, and where the history passphrase and
//! the session password come from.

use vstd::prelude::*;

verus! {

pub struct Config {
    pub identity: IdentityConfig,
    pub history: HistoryConfig,
    pub time: TimeConfig,
    pub auth: AuthConfig,
}

pub struct AuthConfig {
    pub enabled: bool,
    pub password: String,
}

pub struct IdentityConfig {
    pub persist: bool,
}

pub struct HistoryConfig {
    pub save: bool,
    pub passphrase: String,
}

pub struct TimeConfig {
    pub hour24: bool,
    pub local: bool,
}

impl Default for AuthConfig {
    fn default() -> (r: AuthConfig)
        ensures
            !r.enabled,
            r.password@.len() == 0,
    {
        AuthConfig { enabled: false, password: String::new() }
    }
}

impl Default for TimeConfig {
    fn default() -> (r: TimeConfig)
        ensures
            r.hour24,
            !r.local,
    {
        TimeConfig { hour24: true, local: false }
    }
}

impl Default for Config {
    fn default() -> (r: Config)
        ensures
            !r.identity.persist,
            !r.history.save,
            r.history.passphrase@.len() == 0,
            r.time.hour24,
            !r.time.local,
            !r.auth.enabled,
            r.auth.password@.len() == 0,
    {
        Config {
            identity: IdentityConfig { persist: false },
            history: HistoryConfig { save: false, passphrase: String::new() },
            time: TimeConfig { hour24: true, local: false },
            auth: AuthConfig { enabled: false, password: String::new() },
        }
    }
}

/// What loading a settings file calls for.
#[derive(Debug, Clone, Copy, PartialEq, Eq, Structural)]
pub struct LoadOutcome {
    /// A section was missing: write the file back with its defaults.
    pub rewrite: bool,
    /// Saving history was asked for without persistence, which makes it a
    /// no-op: warn.
    pub warn_save_without_persist: bool,
}

/// Assesses settings read from a file that had, or lacked, the `[time]` and
/// `[auth]` sections.
pub fn assess_config(config: &Config, has_time: bool, has_auth: bool) -> (r: LoadOutcome)
    ensures
        r.rewrite == (!has_time || !has_auth),
        r.warn_save_without_persist == (config.history.save && !config.identity.persist),
{
    LoadOutcome {
        rewrite: !has_time || !has_auth,
        warn_save_without_persist: config.history.save && !config.identity.persist,
    }
}

/// Messages are saved only where saving is asked for and the store is
/// kept.
pub fn saves_history(config: &Config) -> (r: bool)
    ensures
        r == (config.history.save && config.identity.persist),
{
    config.history.save && config.identity.persist
}

/// Where a secret comes from.
pub enum SecretSource {
    /// The feature is off: no secret.
    NotNeeded,
    /// The settings hold it.
    Configured(String),
    /// Ask the user.
    Prompt,
}

pub enum SecretSourceView {
    NotNeeded,
    Configured(Seq<char>),
    Prompt,
}

impl View for SecretSource {
    type V = SecretSourceView;

    open spec fn view(&self) -> SecretSourceView {
        match self {
            SecretSource::NotNeeded => SecretSourceView::NotNeeded,
            SecretSource::Configured(s) => SecretSourceView::Configured(s@),
            SecretSource::Prompt => SecretSourceView::Prompt,
        }
    }
}

pub open spec fn source_of(needed: bool, configured: Seq<char>) -> SecretSourceView {
    if !needed {
        SecretSourceView::NotNeeded
    } else if configured.len() > 0 {
        SecretSourceView::Configured(configured)
    } else {
        SecretSourceView::Prompt
    }
}

fn source(needed: bool, configured: &String) -> (r: SecretSource)
    ensures
        r@ == source_of(needed, configured@),
{
    if !needed {
        SecretSource::NotNeeded
    } else if configured.unicode_len() > 0 {
        SecretSource::Configured(configured.clone())
    } else {
        SecretSource::Prompt
    }
}

/// The history passphrase is needed only with persistence on.
pub fn passphrase_source(config: &Config) -> (r: SecretSource)
    ensures
        r@ == source_of(config.identity.persist, config.history.passphrase@),
{
    source(config.identity.persist, &config.history.passphrase)
}

/// The session password is needed only with authentication on.
pub fn auth_password_source(config: &Config) -> (r: SecretSource)
    ensures
        r@ == source_of(config.auth.enabled, config.auth.password@),
{
    source(config.auth.enabled, &config.auth.password)
}

#[derive(Debug, Clone, Copy, PartialEq, Eq, Structural)]
pub enum SecretError {
    /// The user entered nothing.
    Empty,
    /// The confirmation differs from the first entry.
    Mismatch,
}

/// Checks what the user typed at the prompt. `confirmation` is the second
/// entry, asked for when a new store is created.
pub fn check_entered(entered: &str, confirmation: Option<&str>) -> (r: Result<String, SecretError>)
    ensures
        entered@.len() == 0 ==> r == Err::<String, SecretError>(SecretError::Empty),
        entered@.len() > 0 && confirmation is Some && confirmation->Some_0@ != entered@ ==> r
            == Err::<String, SecretError>(SecretError::Mismatch),
        entered@.len() > 0 && (confirmation is None || confirmation->Some_0@ == entered@) ==> r
            is Ok && r->Ok_0@ == entered@,
{
    if entered.unicode_len() == 0 {
        return Err(SecretError::Empty);
    }
    let first = entered.to_owned();
    match confirmation {
        Some(c) => {
            let second = c.to_owned();
            if first == second {
                Ok(first)
            } else {
                Err(SecretError::Mismatch)
            }
        },
        None => Ok(first),
    }
}

} // verus!
