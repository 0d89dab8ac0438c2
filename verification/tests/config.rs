//! Settings, secrets and where they are kept.

use shaon::commit::{CommitAction, CommitFlow, CommitStage};
use shaon::config::{
    check_read_back, config_path, decode_local_master_key, encode_local_master_key,
    keyring_account, nonempty_value, parse_stored_credentials, subdomain_dir, Config, PasswordSource, StoredCredentials,
    KEYRING_SCHEMA_VERSION, LOCAL_MASTER_KEY_LEN,
};
use shaon::ontology::ontology_path;

fn config(password: Option<&str>) -> Config {
    Config {
        subdomain: "acme".to_string(),
        username: "12345".to_string(),
        password: password.map(|text| text.to_string()),
        payslip_folder: None,
        payslip_format: None,
    }
}

#[test]
fn debug_redacts_password() {
    let config = Config {
        subdomain: "acme".to_string(),
        username: "12345".to_string(),
        password: Some("supersecret".to_string()),
        payslip_folder: None,
        payslip_format: None,
    };
    let debug_output = config.debug_text();
    assert!(
        debug_output.contains("[REDACTED]"),
        "Debug output should redact password"
    );
    assert!(
        !debug_output.contains("supersecret"),
        "Debug output must not contain actual password"
    );
}

#[test]
fn debug_shows_all_but_the_password() {
    let mut settings = config(None);
    settings.payslip_folder = Some("a\"b".to_string());
    assert_eq!(
        settings.debug_text(),
        r#"Config { subdomain: "acme", username: "12345", password: "[REDACTED]", payslip_folder: Some("a\"b"), payslip_format: None }"#
    );
}

#[test]
fn get_password_ignores_empty_shaon_password() {
    let settings = config(Some("fallback-password"));

    let password = settings.get_password(Some("".to_string()), Ok(None)).unwrap();
    assert_eq!(password.0, "fallback-password");
    assert_eq!(password.1, PasswordSource::Settings);
}

#[test]
fn passwords_come_from_the_environment_first() {
    let settings = config(Some("settings"));
    let key = vec![1u8; LOCAL_MASTER_KEY_LEN];
    let stored = || Ok(Some(StoredCredentials::new("keychain", &key)));

    let first = settings.get_password(Some("environment".to_string()), stored()).unwrap();
    assert_eq!(first.0, "environment");
    assert_eq!(first.1, PasswordSource::Environment);
    let second = settings.get_password(None, stored()).unwrap();
    assert_eq!(second.0, "keychain");
    assert_eq!(second.1, PasswordSource::Keychain);
    let failed = settings.get_password(None, Err("locked".to_string()));
    assert_eq!(failed.unwrap_err(), "locked");
    let none = config(None).get_password(None, Ok(None));
    assert!(none.unwrap_err().contains("No password found"));
}

#[test]
fn store_credentials_write_then_read_roundtrip() {
    let settings = config(None);
    let local_master_key = vec![0x5a; LOCAL_MASTER_KEY_LEN];

    let stored = StoredCredentials::new("correct horse battery staple", &local_master_key);
    assert_eq!(stored.v, KEYRING_SCHEMA_VERSION);
    assert_eq!(stored.local_master_key, encode_local_master_key(&local_master_key));

    let read = parse_stored_credentials(&stored.record_text()).ok().unwrap();
    assert_eq!(check_read_back(&stored, &Ok(Some(read))), None);

    let again = StoredCredentials::new("correct horse battery staple", &local_master_key);
    let password = settings.get_password(None, Ok(Some(stored))).unwrap();
    assert_eq!(password.0, "correct horse battery staple");
    assert_eq!(
        settings.get_local_master_key(None, Ok(Some(again))).unwrap(),
        local_master_key
    );
}

#[test]
fn what_reads_back_otherwise_is_an_error() {
    let key = vec![1u8; LOCAL_MASTER_KEY_LEN];
    let stored = StoredCredentials::new("one", &key);
    let other = StoredCredentials::new("two", &key);
    assert!(check_read_back(&stored, &Ok(Some(other))).is_some());
    assert!(check_read_back(&stored, &Ok(None)).is_some());
    assert!(check_read_back(&stored, &Err("gone".to_string())).is_some());
}

#[test]
fn env_var_master_key_overrides_keychain() {
    let settings = config(None);
    let stored = StoredCredentials::new("stored-password", &vec![0x11; LOCAL_MASTER_KEY_LEN]);

    let override_key = vec![0x22; LOCAL_MASTER_KEY_LEN];
    let env = encode_local_master_key(&override_key);

    assert_eq!(
        settings.get_local_master_key(Some(env), Ok(Some(stored))).unwrap(),
        override_key
    );
}

#[test]
fn fresh_auth_wrong_password_does_not_persist_before_commit() {
    let settings = config(None);
    let pending = settings.prepare_stored_credentials("wrong-password".to_string());

    assert_eq!(
        pending.login_config().get_password(None, Ok(None)).unwrap().0,
        "wrong-password"
    );

    drop(pending);

    assert!(settings.get_password(None, Ok(None)).is_err());
}

#[test]
fn migrate_wrong_password_keeps_plaintext_fallback_until_commit() {
    let settings = config(Some("wrong-password"));
    let pending = settings.prepare_migration().ok().unwrap();

    assert_eq!(
        pending.login_config().get_password(None, Ok(None)).unwrap().0,
        "wrong-password"
    );

    drop(pending);

    assert_eq!(settings.password.as_deref(), Some("wrong-password"));
}

#[test]
fn migration_commit_rewrites_config_without_password() {
    let settings = config(Some("plaintext-password"));

    let pending = settings.prepare_migration().ok().unwrap();
    let flow = pending.commit();
    let (account, text) = match flow.next_action() {
        CommitAction::Store { account, text } => (account, text),
        _ => panic!("nothing is stored"),
    };
    let flow = flow.stored(Ok(()));
    match flow.next_action() {
        CommitAction::ReadBack { account: read } => assert_eq!(read, account),
        _ => panic!("nothing is read back"),
    }
    let flow = flow.read_back(Ok(Some(text.clone())));
    match flow.next_action() {
        CommitAction::Rewrite(config) => {
            assert!(config.password.is_none());
            assert_eq!(config.subdomain, settings.subdomain);
            assert_eq!(config.username, settings.username);
        }
        _ => panic!("nothing is rewritten"),
    }
    let flow = flow.rewritten(Ok(()));
    assert!(matches!(flow.next_action(), CommitAction::Finish));
    let (persisted, said) = match flow.stage {
        CommitStage::Finished(Ok(done)) => done,
        _ => panic!("not finished"),
    };

    assert!(persisted.password.is_none());
    assert_eq!(
        persisted
            .get_password(None, parse_stored_credentials(&text).map(Some))
            .unwrap()
            .0,
        "plaintext-password"
    );
    assert_eq!(said, "Password migrated to OS keychain and removed from config file.");
}

fn failure(flow: CommitFlow) -> String {
    assert!(matches!(flow.next_action(), CommitAction::Finish));
    match flow.stage {
        CommitStage::Finished(Err(message)) => message,
        _ => panic!("not failed"),
    }
}

#[test]
fn settings_are_left_alone_where_the_keychain_fails() {
    let settings = config(Some("plaintext-password"));
    let begin = || settings.prepare_migration().ok().unwrap().commit();

    assert_eq!(failure(begin().stored(Err("locked".to_string()))), "locked");
    assert_eq!(
        failure(begin().stored(Ok(())).read_back(Ok(None))),
        "keychain write appeared to succeed but credentials were missing"
    );
    assert_eq!(
        failure(begin().stored(Ok(())).read_back(Err("gone".to_string()))),
        "keychain write appeared to succeed but read-back failed: gone"
    );
    let other = match begin().next_action() {
        CommitAction::Store { text, .. } => text,
        _ => panic!("nothing is stored"),
    };
    assert_eq!(
        failure(begin().stored(Ok(())).read_back(Ok(Some(other)))),
        "keychain stored different credentials than expected"
    );
}

#[test]
fn new_credentials_leave_the_settings_as_they_are() {
    let settings = config(None);
    let pending = settings.prepare_stored_credentials("new".to_string());
    let flow = pending.commit();
    let text = match flow.next_action() {
        CommitAction::Store { text, .. } => text,
        _ => panic!("nothing is stored"),
    };
    let flow = flow.stored(Ok(())).read_back(Ok(Some(text)));
    match flow.stage {
        CommitStage::Finished(Ok((_, said))) => {
            assert_eq!(said, "Credentials stored in OS keychain.")
        }
        _ => panic!("not finished"),
    }
}

#[test]
fn a_rewrite_that_fails_is_said_so() {
    let settings = config(Some("plaintext-password"));
    let flow = settings.prepare_migration().ok().unwrap().commit();
    let text = match flow.next_action() {
        CommitAction::Store { text, .. } => text,
        _ => panic!("nothing is stored"),
    };
    let flow = flow.stored(Ok(())).read_back(Ok(Some(text)));
    assert_eq!(
        failure(flow.rewritten(Err("full".to_string()))),
        "rewrite config without password"
    );
}

#[test]
fn keychain_records_name_each_field_once() {
    let record = |text: &str| parse_stored_credentials(text).map(|stored| stored.password);
    assert_eq!(record(r#"{"v":1,"password":"x","local_master_key":"k"}"#), Ok("x".to_string()));
    assert_eq!(record(r#"[1,"x","k"]"#), Ok("x".to_string()));
    assert_eq!(
        record(r#" { "other" : [1e999, {"v":2}], "other": 0, "v" : 1 , "pass\u0077ord":"x,}", "local_master_key":"k" } "#),
        Ok("x,}".to_string())
    );
    for wrong in [
        r#"{"v":1,"v":1,"password":"x","local_master_key":"k"}"#,
        r#"[1,"x"]"#,
        r#"[1,"x","k",2]"#,
        r#"{"v":1,"password":"x","local_master_key":"k"} x"#,
        r#"{"v":1,"password":null,"local_master_key":"k"}"#,
        r#"{"v":1,"password":"x","local_master_key":"k","\ud800":0}"#,
    ] {
        assert_eq!(record(wrong), Err("parse shaon-cli keychain record".to_string()), "{}", wrong);
    }
}

#[test]
fn nothing_is_migrated_without_a_password() {
    let refused = config(None).prepare_migration().err().unwrap();
    assert_eq!(refused, "No plaintext password in config to migrate");
}

#[test]
fn malformed_bundled_record_missing_local_master_key_fails_cleanly() {
    let settings = config(None);

    let stored = parse_stored_credentials(r#"{"v":1,"password":"x"}"#).map(Some);
    let err = settings.get_local_master_key(None, stored).unwrap_err();

    assert!(err.contains("parse shaon-cli keychain record"));
}

#[test]
fn other_versions_of_the_record_are_refused() {
    let stored = StoredCredentials {
        v: KEYRING_SCHEMA_VERSION + 1,
        password: "x".to_string(),
        local_master_key: "y".to_string(),
    };
    let read = parse_stored_credentials(&stored.record_text()).err().unwrap();
    assert_eq!(read, "unsupported shaon-cli keychain schema version 2");
    assert!(stored.check_version().is_err());
    assert!(parse_stored_credentials("nothing").is_err());
    let key = vec![3u8; LOCAL_MASTER_KEY_LEN];
    assert!(StoredCredentials::new("x", &key).check_version().is_ok());
}

#[test]
fn keys_are_written_as_base64() {
    let key: Vec<u8> = (0u8..32).collect();
    let encoded = encode_local_master_key(&key);
    assert_eq!(encoded, "AAECAwQFBgcICQoLDA0ODxAREhMUFRYXGBkaGxwdHh8=");
    assert_eq!(decode_local_master_key(&encoded).unwrap(), key);
    assert!(decode_local_master_key("AAEC").is_err());
    assert!(decode_local_master_key("not base64!").is_err());
}

#[test]
fn two_new_keys_are_not_the_same() {
    let settings = config(None);
    let first = settings.prepare_stored_credentials("a".to_string());
    let second = settings.prepare_stored_credentials("a".to_string());
    assert_eq!(first.local_master_key.len(), LOCAL_MASTER_KEY_LEN);
    assert_ne!(first.local_master_key, second.local_master_key);
}

#[test]
fn local_data_is_left_alone_only_with_a_bare_password() {
    let settings = config(None);
    let some = |text: &str| Some(text.to_string());
    assert!(settings.should_skip_local_cache(some("p"), None));
    assert!(settings.should_skip_local_cache(some("p"), some("")));
    assert!(!settings.should_skip_local_cache(some("p"), some("k")));
    assert!(!settings.should_skip_local_cache(None, None));
    assert!(!settings.should_skip_local_cache(some(""), None));
}

#[test]
fn files_have_their_places() {
    assert_eq!(subdomain_dir("acme"), vec![".shaon", "acme"]);
    assert_eq!(config_path(), vec![".shaon", "config.toml"]);
    assert_eq!(ontology_path("acme"), vec![".shaon", "acme", "types.json"]);
    assert_eq!(keyring_account("acme", "12345"), "acme/12345");
    assert_eq!(nonempty_value(Some("".to_string())), None);
    assert_eq!(nonempty_value(Some("x".to_string())), Some("x".to_string()));
    let mut settings = config(None);
    assert_eq!(settings.payslip_fmt(), "%Y-%m.pdf");
    settings.payslip_format = Some("%Y.pdf".to_string());
    assert_eq!(settings.payslip_fmt(), "%Y.pdf");
}
