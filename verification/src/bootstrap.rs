use vstd::prelude::*;

use crate::settings::{keys_distinct, lookup_setting, lookup_spec, RuntimeConfig, SettingValue};
use crate::text::text_opt;
use crate::text::{str_trim, to_owned_string, trim_spec};

verus! {

/// The armored private signing key kept in the runtime settings, if one is
/// kept: a string that is not blank, without surrounding whitespace.
pub open spec fn stored_private_key_spec(settings: Seq<(String, SettingValue)>) -> Option<Seq<char>> {
    match lookup_spec(settings, "signing_private_key_armored"@) {
        Some(SettingValue::Str(s)) => if trim_spec(s@).len() > 0 {
            Some(trim_spec(s@))
        } else {
            None
        },
        _ => None,
    }
}

/// The armored private key to import into an empty keyring.
pub fn stored_private_key(settings: &[(String, SettingValue)]) -> (res: Option<String>)
    requires
        keys_distinct(settings@),
    ensures
        text_opt(res) == stored_private_key_spec(settings@),
{
    match lookup_setting(settings, "signing_private_key_armored") {
        Some(SettingValue::Str(s)) => {
            let trimmed = str_trim(s.as_str());
            if trimmed.is_empty() {
                None
            } else {
                Some(to_owned_string(trimmed))
            }
        },
        _ => None,
    }
}

/// The key id to record once a key was imported: the imported key's id,
/// unless the configuration already names it.
pub fn signing_key_id_change(configured: &Option<String>, imported_key_id: &str) -> (res: Option<String>)
    ensures
        text_opt(*configured) == Some(imported_key_id@) ==> res is None,
        text_opt(*configured) != Some(imported_key_id@) ==> text_opt(res) == Some(imported_key_id@),
{
    match configured {
        Some(current) => if crate::text::str_eq(current.as_str(), imported_key_id) {
            None
        } else {
            Some(to_owned_string(imported_key_id))
        },
        None => Some(to_owned_string(imported_key_id)),
    }
}

pub open spec fn has_key(settings: Seq<(String, SettingValue)>, key: Seq<char>) -> bool {
    lookup_spec(settings, key) is Some
}

/// The internal settings written at start-up: the session secret when none
/// is stored, and the completed bootstrap once a user exists (or when the
/// configuration says so and nothing is stored).
pub open spec fn startup_updates_spec(
    settings: Seq<(String, SettingValue)>,
    bootstrap_completed: bool,
    session_secret: Seq<char>,
    user_count: u64,
) -> Seq<(Seq<char>, Option<Seq<char>>)> {
    let bootstrap: Seq<(Seq<char>, Option<Seq<char>>)> = if (!bootstrap_completed && user_count > 0) || (
    bootstrap_completed && !has_key(settings, "bootstrap_completed"@)) {
        seq![("bootstrap_completed"@, None)]
    } else {
        seq![]
    };
    let secret: Seq<(Seq<char>, Option<Seq<char>>)> = if !has_key(settings, "session_secret"@) {
        seq![("session_secret"@, Some(session_secret))]
    } else {
        seq![]
    };
    bootstrap + secret
}

/// A setting to write, by its key and, for a string, its text; a `true`
/// boolean otherwise.
pub open spec fn update_view(update: (String, SettingValue)) -> (Seq<char>, Option<Seq<char>>) {
    (
        update.0@,
        match update.1 {
            SettingValue::Str(s) => Some(s@),
            _ => None,
        },
    )
}

/// Start-up reconciliation of the stored settings with the configuration:
/// marks the bootstrap completed once a user exists, and gives the
/// internal settings to write (in key order). Booleans written are `true`.
pub fn startup_setting_updates(settings: &[(String, SettingValue)], config: &mut RuntimeConfig, user_count: u64) -> (updates:
    Vec<(String, SettingValue)>)
    requires
        keys_distinct(settings@),
    ensures
        keys_distinct(updates@),
        final(config).bootstrap_completed == (old(config).bootstrap_completed || user_count > 0),
        final(config).session_secret == old(config).session_secret,
        updates@.map_values(|u: (String, SettingValue)| update_view(u)) == startup_updates_spec(
            settings@,
            old(config).bootstrap_completed,
            old(config).session_secret@,
            user_count,
        ),
        forall|i: int| 0 <= i < updates@.len() ==> (#[trigger] updates@[i]).1 == SettingValue::Bool(true)
            || updates@[i].1 is Str,
{
    let mut updates: Vec<(String, SettingValue)> = Vec::new();
    let has_bootstrap = lookup_setting(settings, "bootstrap_completed").is_some();
    let has_secret = lookup_setting(settings, "session_secret").is_some();
    if !config.bootstrap_completed && user_count > 0 {
        config.bootstrap_completed = true;
        updates.push((to_owned_string("bootstrap_completed"), SettingValue::Bool(true)));
    } else if config.bootstrap_completed && !has_bootstrap {
        updates.push((to_owned_string("bootstrap_completed"), SettingValue::Bool(true)));
    }
    proof {
        reveal_strlit("bootstrap_completed");
        reveal_strlit("session_secret");
        assert(updates@.len() <= 1);
        assert(updates@.len() == 1 ==> updates@[0].0@ == "bootstrap_completed"@);
    }
    if !has_secret {
        updates.push((to_owned_string("session_secret"), SettingValue::Str(config.session_secret.clone())));
    }
    assert(updates@.map_values(|u: (String, SettingValue)| update_view(u)) =~= startup_updates_spec(
        settings@,
        old(config).bootstrap_completed,
        old(config).session_secret@,
        user_count,
    ));
    updates
}

} // verus!
