use circuitchat::cli::{parse_args, readiness, Mode, Readiness, ServiceState, UsageError};
use circuitchat::config::{
    auth_password_source, check_entered, saves_history, passphrase_source, assess_config, AuthConfig, Config,
    HistoryConfig, IdentityConfig, SecretError, SecretSource, TimeConfig,
};

#[test]
fn defaults() {
    let c = Config::default();
    assert!(!c.identity.persist);
    assert!(!c.history.save);
    assert!(c.history.passphrase.is_empty());
    assert!(c.time.hour24);
    assert!(!c.time.local);
    assert!(!c.auth.enabled);
    assert!(c.auth.password.is_empty());
    let a = AuthConfig::default();
    assert!(!a.enabled && a.password.is_empty());
    let t = TimeConfig::default();
    assert!(t.hour24 && !t.local);
}

fn config(persist: bool, save: bool, passphrase: &str, enabled: bool, password: &str) -> Config {
    Config {
        identity: IdentityConfig { persist },
        history: HistoryConfig { save, passphrase: passphrase.to_string() },
        time: TimeConfig { hour24: true, local: false },
        auth: AuthConfig { enabled, password: password.to_string() },
    }
}

#[test]
fn assessment_of_loaded_settings() {
    let c = config(false, true, "", false, "");
    let r = assess_config(&c, true, true);
    assert!(!r.rewrite);
    assert!(r.warn_save_without_persist);
    let r = assess_config(&config(true, true, "", false, ""), false, true);
    assert!(r.rewrite);
    assert!(!r.warn_save_without_persist);
    assert!(assess_config(&c, true, false).rewrite);
}

#[test]
fn passphrase_sources() {
    assert!(matches!(passphrase_source(&config(false, false, "x", false, "")), SecretSource::NotNeeded));
    assert!(matches!(passphrase_source(&config(true, false, "x", false, "")), SecretSource::Configured(p) if p == "x"));
    assert!(matches!(passphrase_source(&config(true, false, "", false, "")), SecretSource::Prompt));
}

#[test]
fn auth_password_sources() {
    assert!(matches!(auth_password_source(&config(true, false, "", false, "pw")), SecretSource::NotNeeded));
    assert!(matches!(auth_password_source(&config(false, false, "", true, "pw")), SecretSource::Configured(p) if p == "pw"));
    assert!(matches!(auth_password_source(&config(false, false, "", true, "")), SecretSource::Prompt));
}

#[test]
fn entered_secrets() {
    assert_eq!(check_entered("", None), Err(SecretError::Empty));
    assert_eq!(check_entered("", Some("")), Err(SecretError::Empty));
    assert_eq!(check_entered("a", Some("b")), Err(SecretError::Mismatch));
    assert_eq!(check_entered("a", Some("a")), Ok("a".to_string()));
    assert_eq!(check_entered("abc", None), Ok("abc".to_string()));
}

fn args(v: &[&str]) -> Vec<String> {
    v.iter().map(|s| s.to_string()).collect()
}

#[test]
fn command_lines() {
    assert!(matches!(parse_args(&args(&["cc", "--reset"])), Ok(Mode::Reset)));
    assert!(matches!(parse_args(&args(&["cc", "listen"])), Ok(Mode::Listen)));
    assert!(matches!(parse_args(&args(&["cc", "initiate", "abc.onion"])), Ok(Mode::Initiate(a)) if a == "abc.onion"));
    assert_eq!(parse_args(&args(&["cc"])).err(), Some(UsageError::MissingMode));
    assert_eq!(parse_args(&args(&["cc", "initiate"])).err(), Some(UsageError::MissingAddress));
    assert_eq!(parse_args(&args(&["cc", "serve"])).err(), Some(UsageError::UnknownMode("serve".to_string())));
}

#[test]
fn service_readiness() {
    assert_eq!(readiness(ServiceState::Running), Readiness::Ready);
    assert_eq!(readiness(ServiceState::DegradedReachable), Readiness::Ready);
    assert_eq!(readiness(ServiceState::Broken), Readiness::Fatal);
    assert_eq!(readiness(ServiceState::Other), Readiness::Wait);
}

#[test]
fn history_is_saved_only_when_kept() {
    assert!(saves_history(&config(true, true, "", false, "")));
    assert!(!saves_history(&config(false, true, "", false, "")));
    assert!(!saves_history(&config(true, false, "", false, "")));
}
