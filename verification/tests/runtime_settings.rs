use orchestrator::bootstrap::{signing_key_id_change, startup_setting_updates, stored_private_key};
use orchestrator::schema::{editable_config_fields, ensure_runtime_editable_keys, ensure_setup_editable_keys};
use orchestrator::settings::{
    apply_config_settings, daemon_config_runtime_settings, is_internal_runtime_setting_key,
    is_non_runtime_dynamic_key, lookup_setting, parse_bool_setting, parse_optional_string_setting,
    parse_string_setting, parse_u32_setting, parse_u64_setting, RuntimeConfig, SettingErrorKind, SettingValue,
};
use orchestrator::setup::{complete_setup, plan_setup, SetupError, SetupKey, SetupSigning};
use orchestrator::validation::ValidationError;

fn config() -> RuntimeConfig {
    RuntimeConfig {
        bootstrap_completed: false,
        listen_addr: "0.0.0.0:8080".to_string(),
        runtime_root: "/var/lib/synforge".to_string(),
        public_base_url: "http://localhost:8080".to_string(),
        worker_image: "synforge-worker:latest".to_string(),
        worker_jobs_root: None,
        signing_enabled: false,
        signing_key_id: None,
        max_concurrent_builds: 2,
        db_pool_size: 8,
        queue_buffer_size: 64,
        poller_tick_seconds: 30,
        worker_result_timeout_seconds: 60,
        worker_socket_timeout_seconds: 30,
        git_operation_timeout_seconds: 300,
        mock_chroot_cache_ttl_seconds: 3600,
        git_mirror_refresh_ttl_seconds: 300,
        git_mirror_max_unused_seconds: 86400,
        session_secret: "secret".to_string(),
    }
}

fn s(key: &str, value: SettingValue) -> (String, SettingValue) {
    (key.to_string(), value)
}

#[test]
fn key_classes() {
    assert!(is_internal_runtime_setting_key("session_secret"));
    assert!(is_internal_runtime_setting_key("signing_private_key_armored"));
    assert!(is_internal_runtime_setting_key("database_url"));
    assert!(is_internal_runtime_setting_key("bootstrap_completed"));
    assert!(!is_internal_runtime_setting_key("listen_addr"));
    assert!(is_non_runtime_dynamic_key("signing_enabled"));
    assert!(is_non_runtime_dynamic_key("signing_key_id"));
    assert!(!is_non_runtime_dynamic_key("worker_image"));
}

#[test]
fn value_readers() {
    assert_eq!(parse_string_setting(&SettingValue::Str("  x ".to_string()), "k"), Ok("x".to_string()));
    assert_eq!(
        parse_string_setting(&SettingValue::Str("   ".to_string()), "k").unwrap_err().kind,
        SettingErrorKind::EmptyString
    );
    assert_eq!(
        parse_string_setting(&SettingValue::Bool(true), "k").unwrap_err().kind,
        SettingErrorKind::NotAString
    );
    assert_eq!(parse_optional_string_setting(&SettingValue::Null, "k"), Ok(None));
    assert_eq!(parse_bool_setting(&SettingValue::Bool(false), "k"), Ok(false));
    assert_eq!(parse_bool_setting(&SettingValue::UInt(1), "k").unwrap_err().kind, SettingErrorKind::NotABoolean);
    assert_eq!(parse_u64_setting(&SettingValue::UInt(7), "k"), Ok(7));
    assert_eq!(parse_u64_setting(&SettingValue::UInt(0), "k").unwrap_err().kind, SettingErrorKind::Zero);
    assert_eq!(
        parse_u64_setting(&SettingValue::OtherNumber, "k").unwrap_err().kind,
        SettingErrorKind::NotAPositiveInteger
    );
    assert_eq!(
        parse_u32_setting(&SettingValue::UInt(u32::MAX as u64 + 1), "k").unwrap_err().kind,
        SettingErrorKind::OutOfRange
    );
    let err = parse_u64_setting(&SettingValue::UInt(0), "poller_tick_seconds").unwrap_err();
    assert_eq!(err.key, "poller_tick_seconds");
    assert_eq!(err.kind.message_prefix(), "config setting must be greater than zero: ");
}

#[test]
fn a_good_batch_updates_its_fields_only() {
    let mut c = config();
    let batch = vec![
        s("worker_image", SettingValue::Str(" img:2 ".to_string())),
        s("max_concurrent_builds", SettingValue::UInt(4)),
        s("worker_jobs_root", SettingValue::Str("/jobs".to_string())),
        s("signing_enabled", SettingValue::Bool(true)),
    ];
    assert_eq!(apply_config_settings(&mut c, &batch, false), Ok(()));
    assert_eq!(c.worker_image, "img:2");
    assert_eq!(c.max_concurrent_builds, 4);
    assert_eq!(c.worker_jobs_root, Some("/jobs".to_string()));
    assert!(c.signing_enabled);
    assert_eq!(c.listen_addr, "0.0.0.0:8080");
    let clear = vec![s("worker_jobs_root", SettingValue::Null)];
    assert_eq!(apply_config_settings(&mut c, &clear, false), Ok(()));
    assert_eq!(c.worker_jobs_root, None);
}

#[test]
fn refused_batches() {
    let mut c = config();
    let before = c.clone();
    let internal = vec![
        s("worker_image", SettingValue::Str("new".to_string())),
        s("session_secret", SettingValue::Str("x".to_string())),
    ];
    let err = apply_config_settings(&mut c, &internal, false).unwrap_err();
    assert_eq!(err.kind, SettingErrorKind::NotEditable);
    assert_eq!(err.key, "session_secret");
    assert_eq!(c, before);
    let unknown = vec![s("nope", SettingValue::Null)];
    let err = apply_config_settings(&mut c, &unknown, true).unwrap_err();
    assert_eq!(err.kind, SettingErrorKind::Unknown);
    let bad = vec![
        s("worker_image", SettingValue::Str("new".to_string())),
        s("poller_tick_seconds", SettingValue::UInt(0)),
    ];
    let err = apply_config_settings(&mut c, &bad, false).unwrap_err();
    assert_eq!(err.kind, SettingErrorKind::Zero);
    assert_eq!(err.key, "poller_tick_seconds");
    assert_eq!(c.worker_image, "new");
    assert_eq!(c.poller_tick_seconds, before.poller_tick_seconds);
    let mut expected = before.clone();
    expected.worker_image = "new".to_string();
    assert_eq!(c, expected);
}

#[test]
fn internal_keys_pass_when_allowed() {
    let mut c = config();
    let batch = vec![
        s("session_secret", SettingValue::Str("other".to_string())),
        s("bootstrap_completed", SettingValue::Bool(true)),
    ];
    assert_eq!(apply_config_settings(&mut c, &batch, true), Ok(()));
    assert_eq!(c.session_secret, "other");
    assert!(c.bootstrap_completed);
}

#[test]
fn runtime_settings_round_trip_through_apply() {
    let mut recorded = config();
    recorded.worker_jobs_root = Some("/jobs".to_string());
    recorded.signing_key_id = Some("KEY".to_string());
    let settings = daemon_config_runtime_settings(&recorded);
    assert_eq!(settings.len(), 19);
    assert_eq!(settings[0].0, "bootstrap_completed");
    assert_eq!(settings[18].0, "session_secret");
    let mut other = config();
    other.listen_addr = "127.0.0.1:1".to_string();
    other.max_concurrent_builds = 99;
    assert_eq!(apply_config_settings(&mut other, &settings, true), Ok(()));
    assert_eq!(other, recorded);
    assert_eq!(lookup_setting(&settings, "signing_key_id"), Some(&SettingValue::Str("KEY".to_string())));
    assert_eq!(lookup_setting(&settings, "missing"), None);
}

#[test]
fn editable_field_schema() {
    let fields = editable_config_fields();
    assert_eq!(fields.len(), 17);
    assert!(fields.iter().any(|f| f.key == "worker_image"));
    assert!(!fields.iter().any(|f| f.key == "session_secret"));
    assert_eq!(ensure_runtime_editable_keys(&[s("nope", SettingValue::Null)]).unwrap_err().kind, SettingErrorKind::Unknown);
    assert!(ensure_setup_editable_keys(&[]).is_ok());
}

#[test]
fn stored_private_key_is_trimmed_and_not_blank() {
    let settings = vec![s("signing_private_key_armored", SettingValue::Str("  KEY \n".to_string()))];
    assert_eq!(stored_private_key(&settings), Some("KEY".to_string()));
    let blank = vec![s("signing_private_key_armored", SettingValue::Str("  ".to_string()))];
    assert_eq!(stored_private_key(&blank), None);
    let null = vec![s("signing_private_key_armored", SettingValue::Null)];
    assert_eq!(stored_private_key(&null), None);
    assert_eq!(stored_private_key(&[]), None);
}

#[test]
fn key_id_is_recorded_only_when_it_changes() {
    assert_eq!(signing_key_id_change(&Some("A".to_string()), "A"), None);
    assert_eq!(signing_key_id_change(&Some("A".to_string()), "B"), Some("B".to_string()));
    assert_eq!(signing_key_id_change(&None, "B"), Some("B".to_string()));
}

#[test]
fn startup_marks_bootstrap_once_users_exist() {
    let mut c = config();
    let updates = startup_setting_updates(&[], &mut c, 1);
    assert!(c.bootstrap_completed);
    assert_eq!(
        updates,
        vec![
            s("bootstrap_completed", SettingValue::Bool(true)),
            s("session_secret", SettingValue::Str("secret".to_string())),
        ]
    );
    let stored = vec![
        s("bootstrap_completed", SettingValue::Bool(true)),
        s("session_secret", SettingValue::Str("secret".to_string())),
    ];
    let mut c2 = config();
    c2.bootstrap_completed = true;
    assert!(startup_setting_updates(&stored, &mut c2, 0).is_empty());
    let mut c3 = config();
    assert!(startup_setting_updates(&stored, &mut c3, 0).is_empty());
    assert!(!c3.bootstrap_completed);
}

#[test]
fn setup_is_refused_in_order() {
    let mut done = config();
    done.bootstrap_completed = true;
    let none: Vec<(String, SettingValue)> = Vec::new();
    let r = plan_setup(done, "admin", "Admin", "pw", &none, 0, false, &None);
    assert_eq!(r.unwrap_err(), SetupError::AlreadyCompleted);
    assert_eq!(SetupError::AlreadyCompleted.own_message(), Some("setup has already been completed"));
    let r = plan_setup(config(), "", "Admin", "", &none, 0, false, &None);
    assert_eq!(r.unwrap_err(), SetupError::Invalid(ValidationError::EmptyHandle));
    let r = plan_setup(config(), "admin", "  ", "pw", &none, 0, false, &None);
    assert_eq!(r.unwrap_err(), SetupError::Invalid(ValidationError::EmptyDisplayName));
    let r = plan_setup(config(), "admin", "Admin", "", &none, 0, false, &None);
    assert_eq!(r.unwrap_err(), SetupError::Invalid(ValidationError::EmptyPassword));
    let internal = vec![s("session_secret", SettingValue::Str("x".to_string()))];
    match plan_setup(config(), "admin", "Admin", "pw", &internal, 0, false, &None) {
        Err(SetupError::Setting(e)) => assert_eq!(e.key, "session_secret"),
        other => panic!("unexpected {:?}", other.map(|p| p.signing)),
    }
    let r = plan_setup(config(), "admin", "Admin", "pw", &none, 2, false, &None);
    assert_eq!(r.unwrap_err(), SetupError::UsersExist);
}

#[test]
fn setup_plans_settings_and_signing() {
    let batch = vec![s("worker_image", SettingValue::Str("img:3".to_string()))];
    let plan = plan_setup(config(), "admin", "Admin", "pw", &batch, 0, false, &None).unwrap();
    assert_eq!(plan.config.worker_image, "img:3");
    assert!(!plan.config.bootstrap_completed);
    assert_eq!(plan.signing, SetupSigning::Disabled);
    let key = Some("  ARMORED  ".to_string());
    let plan = plan_setup(config(), "admin", "Admin", "pw", &batch, 0, true, &key).unwrap();
    assert_eq!(plan.signing, SetupSigning::Import("ARMORED".to_string()));
    let blank = Some("   ".to_string());
    let plan = plan_setup(config(), "admin", "Admin", "pw", &batch, 0, true, &blank).unwrap();
    assert_eq!(plan.signing, SetupSigning::Managed);
}

#[test]
fn completed_setup_records_its_key() {
    let mut c = config();
    let settings = complete_setup(
        &mut c,
        Some(SetupKey { key_id: "KEY".to_string(), armored_private_key: "ARMORED".to_string() }),
    );
    assert!(c.bootstrap_completed && c.signing_enabled);
    assert_eq!(c.signing_key_id, Some("KEY".to_string()));
    assert_eq!(settings.len(), 20);
    assert_eq!(lookup_setting(&settings, "signing_key_id"), Some(&SettingValue::Str("KEY".to_string())));
    assert_eq!(lookup_setting(&settings, "bootstrap_completed"), Some(&SettingValue::Bool(true)));
    assert_eq!(
        lookup_setting(&settings, "signing_private_key_armored"),
        Some(&SettingValue::Str("ARMORED".to_string()))
    );
    let mut d = config();
    d.signing_enabled = true;
    d.signing_key_id = Some("OLD".to_string());
    let settings = complete_setup(&mut d, None);
    assert!(!d.signing_enabled && d.signing_key_id.is_none() && d.bootstrap_completed);
    assert_eq!(lookup_setting(&settings, "signing_key_id"), Some(&SettingValue::Null));
    assert_eq!(lookup_setting(&settings, "signing_private_key_armored"), Some(&SettingValue::Null));
}
