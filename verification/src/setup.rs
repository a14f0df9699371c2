use vstd::prelude::*;

use crate::schema::{edit_batch_error, ensure_setup_editable_keys};
use crate::settings::{
    apply_config_settings, apply_error, applied_field, daemon_config_runtime_settings, error_view, field_key,
    field_of, is_runtime_settings_of, keys_distinct, lemma_private_key_setting_not_a_field, RuntimeConfig,
    SettingError, SettingErrorKind, SettingValue, FIELD_COUNT,
};
use crate::text::{all_whitespace, str_trim, to_owned_string, trim_spec};
use crate::validation::{
    handle_verdict, validate_display_name, validate_password, validate_user_handle, ValidationError,
};

verus! {

/// Why first-time setup was refused.
#[derive(Debug, Clone, PartialEq, Eq)]
pub enum SetupError {
    /// Setup ran before.
    AlreadyCompleted,
    /// The administrator's handle, display name or password breaks a rule.
    Invalid(ValidationError),
    /// A setting of the request is refused.
    Setting(SettingError),
    /// Accounts exist already, so no first administrator is created.
    UsersExist,
}

impl SetupError {
    /// The message the daemon reports for a refusal of setup's own; a
    /// refused account rule or setting reports that refusal's message.
    pub fn own_message(&self) -> (res: Option<&'static str>)
        ensures
            match *self {
                SetupError::AlreadyCompleted => res matches Some(m) && m@ == "setup has already been completed"@,
                SetupError::UsersExist => res matches Some(m) && m@
                    == "initial admin cannot be created because users already exist"@,
                _ => res is None,
            },
    {
        match self {
            SetupError::AlreadyCompleted => Some("setup has already been completed"),
            SetupError::UsersExist => Some("initial admin cannot be created because users already exist"),
            _ => None,
        }
    }
}

/// How setup provides the repository signing key.
#[derive(Debug, Clone, PartialEq, Eq)]
pub enum SetupSigning {
    /// Signing stays off.
    Disabled,
    /// Every key is removed and this armored private key imported.
    Import(String),
    /// The managed key is used, created when there is none.
    Managed,
}

/// What setup goes on with once the request is accepted.
#[derive(Debug, Clone)]
pub struct SetupPlan {
    /// The configuration with the request's settings applied, not yet
    /// marked as set up.
    pub config: RuntimeConfig,
    pub signing: SetupSigning,
}

/// The first account rule the administrator's data breaks, if any: handle,
/// then display name, then password.
pub open spec fn admin_error(handle: Seq<char>, display_name: Seq<char>, password: Seq<char>) -> Option<
    ValidationError,
> {
    match handle_verdict(handle) {
        Err(v) => Some(v),
        Ok(()) => if all_whitespace(display_name) {
            Some(ValidationError::EmptyDisplayName)
        } else if password.len() == 0 {
            Some(ValidationError::EmptyPassword)
        } else {
            None
        },
    }
}

/// The first refusal of the request's settings: a key setup may not edit,
/// then a key or value `apply_config_settings` refuses.
pub open spec fn setup_settings_error(settings: Seq<(String, SettingValue)>) -> Option<(SettingErrorKind, Seq<char>)> {
    match edit_batch_error(settings, true) {
        Some(e) => Some(e),
        None => apply_error(settings, false),
    }
}

/// The armored key the request hands over, when it holds more than white
/// space: trimmed.
pub open spec fn offered_key(armored_private_key: Option<String>) -> Option<Seq<char>> {
    match armored_private_key {
        Some(k) => if trim_spec(k@).len() > 0 {
            Some(trim_spec(k@))
        } else {
            None
        },
        None => None,
    }
}

/// Decides a first-time setup request. It is refused, in this order, when
/// setup ran before, when the administrator's data breaks an account rule,
/// when a setting is refused, and when accounts exist already. Otherwise
/// the settings are applied to `current`, which stays marked as not set
/// up, and signing is planned: off unless asked for; with the offered key
/// when the request holds one, else with the managed key.
pub fn plan_setup(
    current: RuntimeConfig,
    admin_handle: &str,
    admin_display_name: &str,
    admin_password: &str,
    settings: &[(String, SettingValue)],
    user_count: u64,
    enable_signing: bool,
    armored_private_key: &Option<String>,
) -> (res: Result<SetupPlan, SetupError>)
    requires
        keys_distinct(settings@),
    ensures
        match res {
            Err(SetupError::AlreadyCompleted) => current.bootstrap_completed,
            Err(SetupError::Invalid(v)) => !current.bootstrap_completed && admin_error(
                admin_handle@,
                admin_display_name@,
                admin_password@,
            ) == Some(v),
            Err(SetupError::Setting(e)) => !current.bootstrap_completed && admin_error(
                admin_handle@,
                admin_display_name@,
                admin_password@,
            ) is None && setup_settings_error(settings@) == Some(error_view(e)),
            Err(SetupError::UsersExist) => !current.bootstrap_completed && admin_error(
                admin_handle@,
                admin_display_name@,
                admin_password@,
            ) is None && setup_settings_error(settings@) is None && user_count > 0,
            Ok(plan) => {
                &&& !current.bootstrap_completed
                &&& admin_error(admin_handle@, admin_display_name@, admin_password@) is None
                &&& setup_settings_error(settings@) is None
                &&& user_count == 0
                &&& !plan.config.bootstrap_completed
                &&& forall|i: int|
                    1 <= i < FIELD_COUNT ==> #[trigger] field_of(plan.config, i) == applied_field(
                        current,
                        settings@,
                        false,
                        i,
                    )
                &&& !enable_signing ==> plan.signing is Disabled
                &&& enable_signing ==> match offered_key(*armored_private_key) {
                    Some(k) => plan.signing matches SetupSigning::Import(t) && t@ == k,
                    None => plan.signing is Managed,
                }
            },
        },
{
    if current.bootstrap_completed {
        return Err(SetupError::AlreadyCompleted);
    }
    if let Err(v) = validate_user_handle(admin_handle) {
        return Err(SetupError::Invalid(v));
    }
    if let Err(v) = validate_display_name(admin_display_name) {
        return Err(SetupError::Invalid(v));
    }
    if let Err(v) = validate_password(admin_password) {
        return Err(SetupError::Invalid(v));
    }
    if let Err(e) = ensure_setup_editable_keys(settings) {
        return Err(SetupError::Setting(e));
    }
    let mut config = current;
    if let Err(e) = apply_config_settings(&mut config, settings, false) {
        return Err(SetupError::Setting(e));
    }
    if user_count > 0 {
        return Err(SetupError::UsersExist);
    }
    let ghost applied = config;
    config.bootstrap_completed = false;
    assert forall|i: int| 1 <= i < FIELD_COUNT implies #[trigger] field_of(config, i) == field_of(applied, i) by {
        assert(config == RuntimeConfig { bootstrap_completed: false, ..applied });
    }
    let signing = if !enable_signing {
        SetupSigning::Disabled
    } else {
        match armored_private_key {
            Some(k) => {
                let trimmed = str_trim(k.as_str());
                if trimmed.is_empty() {
                    SetupSigning::Managed
                } else {
                    SetupSigning::Import(to_owned_string(trimmed))
                }
            },
            None => SetupSigning::Managed,
        }
    };
    Ok(SetupPlan { config, signing })
}

/// The key setup signs with: its id and its armored private key.
#[derive(Debug, Clone, PartialEq, Eq)]
pub struct SetupKey {
    pub key_id: String,
    pub armored_private_key: String,
}

/// Completes setup: the configuration is marked as set up, with signing
/// on and the given key when there is one, off and without a key
/// otherwise. Gives the runtime settings to store: one per configuration
/// field, then the armored private key (null without a key).
pub fn complete_setup(config: &mut RuntimeConfig, key: Option<SetupKey>) -> (settings: Vec<(String, SettingValue)>)
    ensures
        final(config).bootstrap_completed,
        final(config).signing_enabled == (key is Some),
        match key {
            Some(k) => final(config).signing_key_id matches Some(id) && id@ == k.key_id@,
            None => final(config).signing_key_id is None,
        },
        *final(config) == (RuntimeConfig {
            bootstrap_completed: final(config).bootstrap_completed,
            signing_enabled: final(config).signing_enabled,
            signing_key_id: final(config).signing_key_id,
            ..*old(config)
        }),
        settings@.len() == FIELD_COUNT + 1,
        is_runtime_settings_of(settings@.take(FIELD_COUNT as int), *final(config)),
        settings@[FIELD_COUNT as int].0@ == "signing_private_key_armored"@,
        match key {
            Some(k) => settings@[FIELD_COUNT as int].1 matches SettingValue::Str(s) && s@ == k.armored_private_key@,
            None => settings@[FIELD_COUNT as int].1 == SettingValue::Null,
        },
        keys_distinct(settings@),
{
    let stored = match key {
        Some(k) => {
            config.signing_enabled = true;
            config.signing_key_id = Some(k.key_id);
            SettingValue::Str(k.armored_private_key)
        },
        None => {
            config.signing_enabled = false;
            config.signing_key_id = None;
            SettingValue::Null
        },
    };
    config.bootstrap_completed = true;
    let mut settings = daemon_config_runtime_settings(config);
    let ghost recorded = settings@;
    settings.push((to_owned_string("signing_private_key_armored"), stored));
    proof {
        assert(settings@.take(FIELD_COUNT as int) =~= recorded);
        lemma_private_key_setting_not_a_field();
        assert forall|i: int, j: int| 0 <= i < j < settings@.len() implies (#[trigger] settings@[i]).0@
            != (#[trigger] settings@[j]).0@ by {
            if j == FIELD_COUNT {
                assert(settings@[i].0@ == field_key(i));
            } else {
                assert(recorded[i] == settings@[i] && recorded[j] == settings@[j]);
            }
        }
    }
    settings
}

} // verus!
