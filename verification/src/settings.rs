use vstd::prelude::*;

use crate::text::{str_eq, str_trim, text_opt, to_owned_string, trim_spec};

verus! {

/// A runtime setting value as stored in the settings table (a JSON value,
/// reduced to what the settings logic reads).
#[derive(Debug, Clone, PartialEq, Eq)]
pub enum SettingValue {
    Null,
    Bool(bool),
    /// A non-negative integer that fits in `u64`.
    UInt(u64),
    /// Any other number: negative or fractional.
    OtherNumber,
    Str(String),
    Array,
    Object,
}

/// Why a batch of runtime settings was refused.
#[derive(Debug, Clone, Copy, PartialEq, Eq)]
pub enum SettingErrorKind {
    /// An internal key in a batch that may not carry one.
    NotEditable,
    /// A key that names no setting.
    Unknown,
    /// A known key that the runtime settings API may not change.
    NotEditableAtRuntime,
    /// A known key that the setup API may not change.
    NotEditableDuringSetup,
    NotAString,
    EmptyString,
    NotABoolean,
    NotAPositiveInteger,
    Zero,
    OutOfRange,
}

/// A refused setting: what went wrong and for which key.
#[derive(Debug, Clone, PartialEq, Eq)]
pub struct SettingError {
    pub kind: SettingErrorKind,
    pub key: String,
}

impl SettingErrorKind {
    /// The message prefix the daemon reports, followed by the key.
    pub fn message_prefix(&self) -> (res: &'static str)
        ensures
            res@ == match *self {
                SettingErrorKind::NotEditable => "config setting is not editable: "@,
                SettingErrorKind::Unknown => "unknown config setting: "@,
                SettingErrorKind::NotEditableAtRuntime => "config setting is not editable at runtime: "@,
                SettingErrorKind::NotEditableDuringSetup => "config setting is not editable during setup: "@,
                SettingErrorKind::NotAString => "config setting must be a string: "@,
                SettingErrorKind::EmptyString => "config setting must not be empty: "@,
                SettingErrorKind::NotABoolean => "config setting must be a boolean: "@,
                SettingErrorKind::NotAPositiveInteger => "config setting must be a positive integer: "@,
                SettingErrorKind::Zero => "config setting must be greater than zero: "@,
                SettingErrorKind::OutOfRange => "config setting is out of range: "@,
            },
    {
        match self {
            SettingErrorKind::NotEditable => "config setting is not editable: ",
            SettingErrorKind::Unknown => "unknown config setting: ",
            SettingErrorKind::NotEditableAtRuntime => "config setting is not editable at runtime: ",
            SettingErrorKind::NotEditableDuringSetup => "config setting is not editable during setup: ",
            SettingErrorKind::NotAString => "config setting must be a string: ",
            SettingErrorKind::EmptyString => "config setting must not be empty: ",
            SettingErrorKind::NotABoolean => "config setting must be a boolean: ",
            SettingErrorKind::NotAPositiveInteger => "config setting must be a positive integer: ",
            SettingErrorKind::Zero => "config setting must be greater than zero: ",
            SettingErrorKind::OutOfRange => "config setting is out of range: ",
        }
    }
}

/// The daemon configuration fields that runtime settings can set.
#[derive(Debug, Clone, PartialEq, Eq)]
pub struct RuntimeConfig {
    pub bootstrap_completed: bool,
    pub listen_addr: String,
    pub runtime_root: String,
    pub public_base_url: String,
    pub worker_image: String,
    pub worker_jobs_root: Option<String>,
    pub signing_enabled: bool,
    pub signing_key_id: Option<String>,
    pub max_concurrent_builds: usize,
    pub db_pool_size: u32,
    pub queue_buffer_size: usize,
    pub poller_tick_seconds: u64,
    pub worker_result_timeout_seconds: u64,
    pub worker_socket_timeout_seconds: u64,
    pub git_operation_timeout_seconds: u64,
    pub mock_chroot_cache_ttl_seconds: u64,
    pub git_mirror_refresh_ttl_seconds: u64,
    pub git_mirror_max_unused_seconds: u64,
    pub session_secret: String,
}

/// Number of configuration fields a settings batch can set.
pub const FIELD_COUNT: usize = 19;

/// How a field's setting value is read.
#[derive(Debug, Clone, Copy, PartialEq, Eq)]
pub enum FieldKind {
    Flag,
    Text,
    OptionalText,
    Size,
    Small,
    Seconds,
}

/// A parsed setting, ready to be stored in a field.
#[derive(Debug, Clone, PartialEq, Eq)]
pub enum FieldValue {
    Flag(bool),
    Text(String),
    OptionalText(Option<String>),
    Count(u64),
}

/// The mathematical content of a field value.
pub enum FieldView {
    Flag(bool),
    Text(Seq<char>),
    OptionalText(Option<Seq<char>>),
    Count(u64),
}


impl FieldValue {
    pub open spec fn view(self) -> FieldView {
        match self {
            FieldValue::Flag(b) => FieldView::Flag(b),
            FieldValue::Text(s) => FieldView::Text(s@),
            FieldValue::OptionalText(o) => FieldView::OptionalText(text_opt(o)),
            FieldValue::Count(n) => FieldView::Count(n),
        }
    }
}

/// The key of field `i`, in the order settings are applied.
pub open spec fn field_key(i: int) -> Seq<char> {
    if i == 0 {
        "bootstrap_completed"@
    } else if i == 1 {
        "listen_addr"@
    } else if i == 2 {
        "runtime_root"@
    } else if i == 3 {
        "public_base_url"@
    } else if i == 4 {
        "worker_image"@
    } else if i == 5 {
        "worker_jobs_root"@
    } else if i == 6 {
        "signing_enabled"@
    } else if i == 7 {
        "signing_key_id"@
    } else if i == 8 {
        "max_concurrent_builds"@
    } else if i == 9 {
        "db_pool_size"@
    } else if i == 10 {
        "queue_buffer_size"@
    } else if i == 11 {
        "poller_tick_seconds"@
    } else if i == 12 {
        "worker_result_timeout_seconds"@
    } else if i == 13 {
        "worker_socket_timeout_seconds"@
    } else if i == 14 {
        "git_operation_timeout_seconds"@
    } else if i == 15 {
        "mock_chroot_cache_ttl_seconds"@
    } else if i == 16 {
        "git_mirror_refresh_ttl_seconds"@
    } else if i == 17 {
        "git_mirror_max_unused_seconds"@
    } else {
        "session_secret"@
    }
}

/// How the value of field `i` is read.
pub open spec fn field_kind(i: int) -> FieldKind {
    if i == 0 || i == 6 {
        FieldKind::Flag
    } else if i == 5 || i == 7 {
        FieldKind::OptionalText
    } else if (1 <= i && i <= 4) || i == 18 {
        FieldKind::Text
    } else if i == 8 || i == 10 {
        FieldKind::Size
    } else if i == 9 {
        FieldKind::Small
    } else {
        FieldKind::Seconds
    }
}

/// The current content of field `i` of a configuration.
pub open spec fn field_of(config: RuntimeConfig, i: int) -> FieldView {
    if i == 0 {
        FieldView::Flag(config.bootstrap_completed)
    } else if i == 1 {
        FieldView::Text(config.listen_addr@)
    } else if i == 2 {
        FieldView::Text(config.runtime_root@)
    } else if i == 3 {
        FieldView::Text(config.public_base_url@)
    } else if i == 4 {
        FieldView::Text(config.worker_image@)
    } else if i == 5 {
        FieldView::OptionalText(text_opt(config.worker_jobs_root))
    } else if i == 6 {
        FieldView::Flag(config.signing_enabled)
    } else if i == 7 {
        FieldView::OptionalText(text_opt(config.signing_key_id))
    } else if i == 8 {
        FieldView::Count(config.max_concurrent_builds as u64)
    } else if i == 9 {
        FieldView::Count(config.db_pool_size as u64)
    } else if i == 10 {
        FieldView::Count(config.queue_buffer_size as u64)
    } else if i == 11 {
        FieldView::Count(config.poller_tick_seconds)
    } else if i == 12 {
        FieldView::Count(config.worker_result_timeout_seconds)
    } else if i == 13 {
        FieldView::Count(config.worker_socket_timeout_seconds)
    } else if i == 14 {
        FieldView::Count(config.git_operation_timeout_seconds)
    } else if i == 15 {
        FieldView::Count(config.mock_chroot_cache_ttl_seconds)
    } else if i == 16 {
        FieldView::Count(config.git_mirror_refresh_ttl_seconds)
    } else if i == 17 {
        FieldView::Count(config.git_mirror_max_unused_seconds)
    } else {
        FieldView::Text(config.session_secret@)
    }
}

/// How a text setting reads: a non-empty string once trimmed.
pub open spec fn parse_text_spec(value: SettingValue) -> Result<Seq<char>, SettingErrorKind> {
    match value {
        SettingValue::Str(s) => if trim_spec(s@).len() == 0 {
            Err(SettingErrorKind::EmptyString)
        } else {
            Ok(trim_spec(s@))
        },
        _ => Err(SettingErrorKind::NotAString),
    }
}

/// How a count setting reads: a positive integer.
pub open spec fn parse_count_spec(value: SettingValue) -> Result<u64, SettingErrorKind> {
    match value {
        SettingValue::UInt(n) => if n == 0 {
            Err(SettingErrorKind::Zero)
        } else {
            Ok(n)
        },
        _ => Err(SettingErrorKind::NotAPositiveInteger),
    }
}

/// How a value reads for a field of the given kind.
pub open spec fn parse_field_spec(kind: FieldKind, value: SettingValue) -> Result<
    FieldView,
    SettingErrorKind,
> {
    match kind {
        FieldKind::Flag => match value {
            SettingValue::Bool(b) => Ok(FieldView::Flag(b)),
            _ => Err(SettingErrorKind::NotABoolean),
        },
        FieldKind::Text => match parse_text_spec(value) {
            Ok(t) => Ok(FieldView::Text(t)),
            Err(e) => Err(e),
        },
        FieldKind::OptionalText => if value is Null {
            Ok(FieldView::OptionalText(None))
        } else {
            match parse_text_spec(value) {
                Ok(t) => Ok(FieldView::OptionalText(Some(t))),
                Err(e) => Err(e),
            }
        },
        FieldKind::Size => match parse_count_spec(value) {
            Ok(n) => Ok(FieldView::Count((n as usize) as u64)),
            Err(e) => Err(e),
        },
        FieldKind::Small => match parse_count_spec(value) {
            Ok(n) => if n > u32::MAX {
                Err(SettingErrorKind::OutOfRange)
            } else {
                Ok(FieldView::Count(n))
            },
            Err(e) => Err(e),
        },
        FieldKind::Seconds => match parse_count_spec(value) {
            Ok(n) => Ok(FieldView::Count(n)),
            Err(e) => Err(e),
        },
    }
}

/// A batch of settings names each key at most once, as the map it stands
/// for does.
pub open spec fn keys_distinct(settings: Seq<(String, SettingValue)>) -> bool {
    forall|i: int, j: int| 0 <= i < j < settings.len() ==> (#[trigger] settings[i]).0@ != (#[trigger] settings[j]).0@
}

/// The value of the first entry with the given key.
pub open spec fn lookup_spec(settings: Seq<(String, SettingValue)>, key: Seq<char>) -> Option<
    SettingValue,
>
    decreases settings.len(),
{
    if settings.len() == 0 {
        None
    } else if settings[0].0@ == key {
        Some(settings[0].1)
    } else {
        lookup_spec(settings.drop_first(), key)
    }
}

/// Keys no settings API may edit: they are kept by the daemon itself.
pub open spec fn is_internal_key_spec(key: Seq<char>) -> bool {
    key == "signing_private_key_armored"@ || key == "database_url"@ || key == "session_secret"@
        || key == "bootstrap_completed"@
}

/// Keys that are stored dynamically but only changed through the signing APIs.
pub open spec fn is_non_runtime_dynamic_key_spec(key: Seq<char>) -> bool {
    key == "signing_enabled"@ || key == "signing_key_id"@
}

/// Keys of the editable configuration fields (those of the schema).
pub open spec fn is_schema_key(key: Seq<char>) -> bool {
    exists|i: int| 1 <= i <= 17 && key == #[trigger] field_key(i)
}

/// What the key check of `apply_config_settings` says of one key.
pub open spec fn key_error_spec(key: Seq<char>, allow_internal: bool) -> Option<SettingErrorKind> {
    if is_internal_key_spec(key) {
        if allow_internal {
            None
        } else {
            Some(SettingErrorKind::NotEditable)
        }
    } else if !is_schema_key(key) && !is_non_runtime_dynamic_key_spec(key) {
        Some(SettingErrorKind::Unknown)
    } else {
        None
    }
}

/// The first key, in batch order, that the key check refuses.
pub open spec fn key_phase_error(settings: Seq<(String, SettingValue)>, allow_internal: bool) -> Option<
    (SettingErrorKind, Seq<char>),
>
    decreases settings.len(),
{
    if settings.len() == 0 {
        None
    } else {
        match key_error_spec(settings[0].0@, allow_internal) {
            Some(kind) => Some((kind, settings[0].0@)),
            None => key_phase_error(settings.drop_first(), allow_internal),
        }
    }
}

/// Whether the setting for field `i`, if present, fails to read.
pub open spec fn field_error(settings: Seq<(String, SettingValue)>, i: int) -> Option<
    SettingErrorKind,
> {
    match lookup_spec(settings, field_key(i)) {
        None => None,
        Some(value) => match parse_field_spec(field_kind(i), value) {
            Ok(_) => None,
            Err(kind) => Some(kind),
        },
    }
}

/// The first field, from field `from` on, whose setting fails to read.
pub open spec fn field_phase_error(settings: Seq<(String, SettingValue)>, from: int) -> Option<
    (SettingErrorKind, Seq<char>),
>
    decreases FIELD_COUNT - from,
{
    if from < 0 || from >= FIELD_COUNT {
        None
    } else {
        match field_error(settings, from) {
            Some(kind) => Some((kind, field_key(from))),
            None => field_phase_error(settings, from + 1),
        }
    }
}

/// The outcome `apply_config_settings` owes for a batch.
pub open spec fn apply_error(settings: Seq<(String, SettingValue)>, allow_internal: bool) -> Option<
    (SettingErrorKind, Seq<char>),
> {
    match key_phase_error(settings, allow_internal) {
        Some(e) => Some(e),
        None => field_phase_error(settings, 0),
    }
}

/// Field `i` after a successful batch: the read setting when present,
/// otherwise what it held.
pub open spec fn updated_field(config: RuntimeConfig, settings: Seq<(String, SettingValue)>, i: int) -> FieldView {
    match lookup_spec(settings, field_key(i)) {
        Some(value) => match parse_field_spec(field_kind(i), value) {
            Ok(v) => v,
            Err(_) => field_of(config, i),
        },
        None => field_of(config, i),
    }
}

pub open spec fn error_view(e: SettingError) -> (SettingErrorKind, Seq<char>) {
    (e.kind, e.key@)
}

fn field_key_str(i: usize) -> (res: &'static str)
    requires
        i < FIELD_COUNT,
    ensures
        res@ == field_key(i as int),
{
    if i == 0 {
        "bootstrap_completed"
    } else if i == 1 {
        "listen_addr"
    } else if i == 2 {
        "runtime_root"
    } else if i == 3 {
        "public_base_url"
    } else if i == 4 {
        "worker_image"
    } else if i == 5 {
        "worker_jobs_root"
    } else if i == 6 {
        "signing_enabled"
    } else if i == 7 {
        "signing_key_id"
    } else if i == 8 {
        "max_concurrent_builds"
    } else if i == 9 {
        "db_pool_size"
    } else if i == 10 {
        "queue_buffer_size"
    } else if i == 11 {
        "poller_tick_seconds"
    } else if i == 12 {
        "worker_result_timeout_seconds"
    } else if i == 13 {
        "worker_socket_timeout_seconds"
    } else if i == 14 {
        "git_operation_timeout_seconds"
    } else if i == 15 {
        "mock_chroot_cache_ttl_seconds"
    } else if i == 16 {
        "git_mirror_refresh_ttl_seconds"
    } else if i == 17 {
        "git_mirror_max_unused_seconds"
    } else {
        "session_secret"
    }
}

fn field_kind_of(i: usize) -> (res: FieldKind)
    requires
        i < FIELD_COUNT,
    ensures
        res == field_kind(i as int),
{
    if i == 0 || i == 6 {
        FieldKind::Flag
    } else if i == 5 || i == 7 {
        FieldKind::OptionalText
    } else if (1 <= i && i <= 4) || i == 18 {
        FieldKind::Text
    } else if i == 8 || i == 10 {
        FieldKind::Size
    } else if i == 9 {
        FieldKind::Small
    } else {
        FieldKind::Seconds
    }
}

/// The value of the first entry of `settings` whose key is `key`.
pub fn lookup_setting<'a>(settings: &'a [(String, SettingValue)], key: &str) -> (res: Option<
    &'a SettingValue,
>)
    ensures
        match res {
            Some(v) => lookup_spec(settings@, key@) == Some(*v),
            None => lookup_spec(settings@, key@) is None,
        },
{
    let mut i: usize = 0;
    assert(settings@.skip(0) =~= settings@);
    while i < settings.len()
        invariant
            i <= settings@.len(),
            lookup_spec(settings@, key@) == lookup_spec(settings@.skip(i as int), key@),
        decreases settings@.len() - i,
    {
        assert(settings@.skip(i as int).drop_first() =~= settings@.skip(i as int + 1));
        if str_eq(settings[i].0.as_str(), key) {
            return Some(&settings[i].1);
        }
        i = i + 1;
    }
    None
}

fn error_for(kind: SettingErrorKind, key: &str) -> (res: SettingError)
    ensures
        res.kind == kind,
        res.key@ == key@,
{
    SettingError { kind, key: to_owned_string(key) }
}

/// Reads a text setting: a string that is not empty once trimmed; the
/// trimmed string is returned.
pub fn parse_string_setting(value: &SettingValue, key: &str) -> (res: Result<String, SettingError>)
    ensures
        match res {
            Ok(s) => parse_text_spec(*value) == Ok::<Seq<char>, SettingErrorKind>(s@),
            Err(e) => parse_text_spec(*value) == Err::<Seq<char>, SettingErrorKind>(e.kind)
                && e.key@ == key@,
        },
{
    match value {
        SettingValue::Str(text) => {
            let trimmed = str_trim(text.as_str());
            if trimmed.is_empty() {
                Err(error_for(SettingErrorKind::EmptyString, key))
            } else {
                Ok(to_owned_string(trimmed))
            }
        },
        _ => Err(error_for(SettingErrorKind::NotAString, key)),
    }
}

/// Reads an optional text setting: null, or a text setting.
pub fn parse_optional_string_setting(value: &SettingValue, key: &str) -> (res: Result<
    Option<String>,
    SettingError,
>)
    ensures
        match res {
            Ok(o) => parse_field_spec(FieldKind::OptionalText, *value) == Ok::<
                FieldView,
                SettingErrorKind,
            >(FieldView::OptionalText(text_opt(o))),
            Err(e) => parse_field_spec(FieldKind::OptionalText, *value) == Err::<
                FieldView,
                SettingErrorKind,
            >(e.kind) && e.key@ == key@,
        },
{
    if let SettingValue::Null = value {
        return Ok(None);
    }
    match parse_string_setting(value, key) {
        Ok(s) => Ok(Some(s)),
        Err(e) => Err(e),
    }
}

/// Reads a boolean setting.
pub fn parse_bool_setting(value: &SettingValue, key: &str) -> (res: Result<bool, SettingError>)
    ensures
        match res {
            Ok(b) => *value == SettingValue::Bool(b),
            Err(e) => !(*value is Bool) && e.kind == SettingErrorKind::NotABoolean && e.key@
                == key@,
        },
{
    match value {
        SettingValue::Bool(b) => Ok(*b),
        _ => Err(error_for(SettingErrorKind::NotABoolean, key)),
    }
}

/// Reads a count setting: a positive integer.
pub fn parse_u64_setting(value: &SettingValue, key: &str) -> (res: Result<u64, SettingError>)
    ensures
        match res {
            Ok(n) => parse_count_spec(*value) == Ok::<u64, SettingErrorKind>(n),
            Err(e) => parse_count_spec(*value) == Err::<u64, SettingErrorKind>(e.kind) && e.key@
                == key@,
        },
{
    match value {
        SettingValue::UInt(n) => if *n == 0 {
            Err(error_for(SettingErrorKind::Zero, key))
        } else {
            Ok(*n)
        },
        _ => Err(error_for(SettingErrorKind::NotAPositiveInteger, key)),
    }
}

/// Reads a count setting stored in a `usize` field.
pub fn parse_usize_setting(value: &SettingValue, key: &str) -> (res: Result<usize, SettingError>)
    ensures
        match res {
            Ok(n) => exists|m: u64| parse_count_spec(*value) == Ok::<u64, SettingErrorKind>(m) && n
                == m as usize,
            Err(e) => parse_count_spec(*value) == Err::<u64, SettingErrorKind>(e.kind) && e.key@
                == key@,
        },
{
    match parse_u64_setting(value, key) {
        Ok(n) => Ok(n as usize),
        Err(e) => Err(e),
    }
}

/// Reads a count setting stored in a `u32` field.
pub fn parse_u32_setting(value: &SettingValue, key: &str) -> (res: Result<u32, SettingError>)
    ensures
        match res {
            Ok(n) => parse_field_spec(FieldKind::Small, *value) == Ok::<FieldView, SettingErrorKind>(
                FieldView::Count(n as u64),
            ),
            Err(e) => parse_field_spec(FieldKind::Small, *value) == Err::<
                FieldView,
                SettingErrorKind,
            >(e.kind) && e.key@ == key@,
        },
{
    match parse_u64_setting(value, key) {
        Ok(n) => if n > 0xffff_ffffu64 {
            Err(error_for(SettingErrorKind::OutOfRange, key))
        } else {
            Ok(n as u32)
        },
        Err(e) => Err(e),
    }
}

fn parse_field(kind: FieldKind, value: &SettingValue, key: &str) -> (res: Result<FieldValue, SettingError>)
    ensures
        match res {
            Ok(v) => parse_field_spec(kind, *value) == Ok::<FieldView, SettingErrorKind>(v@),
            Err(e) => parse_field_spec(kind, *value) == Err::<FieldView, SettingErrorKind>(e.kind)
                && e.key@ == key@,
        },
{
    match kind {
        FieldKind::Flag => match parse_bool_setting(value, key) {
            Ok(b) => Ok(FieldValue::Flag(b)),
            Err(e) => Err(e),
        },
        FieldKind::Text => match parse_string_setting(value, key) {
            Ok(s) => Ok(FieldValue::Text(s)),
            Err(e) => Err(e),
        },
        FieldKind::OptionalText => match parse_optional_string_setting(value, key) {
            Ok(o) => Ok(FieldValue::OptionalText(o)),
            Err(e) => Err(e),
        },
        FieldKind::Size => match parse_usize_setting(value, key) {
            Ok(n) => Ok(FieldValue::Count(n as u64)),
            Err(e) => Err(e),
        },
        FieldKind::Small => match parse_u32_setting(value, key) {
            Ok(n) => Ok(FieldValue::Count(n as u64)),
            Err(e) => Err(e),
        },
        FieldKind::Seconds => match parse_u64_setting(value, key) {
            Ok(n) => Ok(FieldValue::Count(n)),
            Err(e) => Err(e),
        },
    }
}


/// Whether a field value has the shape field `i` stores.
pub open spec fn fits_field(i: int, value: FieldView) -> bool {
    match field_kind(i) {
        FieldKind::Flag => value is Flag,
        FieldKind::Text => value is Text,
        FieldKind::OptionalText => value is OptionalText,
        FieldKind::Size => match value {
            FieldView::Count(n) => n <= usize::MAX,
            _ => false,
        },
        FieldKind::Small => match value {
            FieldView::Count(n) => n <= u32::MAX,
            _ => false,
        },
        FieldKind::Seconds => value is Count,
    }
}

proof fn lemma_parsed_fits(i: int, value: SettingValue)
    requires
        0 <= i < FIELD_COUNT,
        parse_field_spec(field_kind(i), value) is Ok,
    ensures
        fits_field(i, parse_field_spec(field_kind(i), value)->Ok_0),
{
}

/// Whether `key` is kept by the daemon itself and never edited through an API.
pub fn is_internal_runtime_setting_key(key: &str) -> (res: bool)
    ensures
        res == is_internal_key_spec(key@),
{
    str_eq(key, "signing_private_key_armored") || str_eq(key, "database_url") || str_eq(
        key,
        "session_secret",
    ) || str_eq(key, "bootstrap_completed")
}

/// Whether `key` is stored dynamically but changed only by the signing APIs.
pub fn is_non_runtime_dynamic_key(key: &str) -> (res: bool)
    ensures
        res == is_non_runtime_dynamic_key_spec(key@),
{
    str_eq(key, "signing_enabled") || str_eq(key, "signing_key_id")
}

/// Whether `key` names a field of the configuration schema.
pub fn is_schema_key_exec(key: &str) -> (res: bool)
    ensures
        res == is_schema_key(key@),
{
    let mut i: usize = 1;
    while i <= 17
        invariant
            1 <= i <= 18,
            forall|j: int| 1 <= j < i ==> key@ != #[trigger] field_key(j),
        decreases 18 - i,
    {
        if str_eq(key, field_key_str(i)) {
            return true;
        }
        i = i + 1;
    }
    false
}

fn set_field(config: &mut RuntimeConfig, i: usize, value: FieldValue)
    requires
        i < FIELD_COUNT,
        fits_field(i as int, value@),
    ensures
        field_of(*final(config), i as int) == value@,
        forall|j: int| 0 <= j < FIELD_COUNT && j != i ==> field_of(*final(config), j) == field_of(
            *old(config),
            j,
        ),
{
    match value {
        FieldValue::Flag(b) => {
            if i == 0 {
                config.bootstrap_completed = b;
            } else {
                config.signing_enabled = b;
            }
        },
        FieldValue::Text(t) => {
            if i == 1 {
                config.listen_addr = t;
            } else if i == 2 {
                config.runtime_root = t;
            } else if i == 3 {
                config.public_base_url = t;
            } else if i == 4 {
                config.worker_image = t;
            } else {
                config.session_secret = t;
            }
        },
        FieldValue::OptionalText(o) => {
            if i == 5 {
                config.worker_jobs_root = o;
            } else {
                config.signing_key_id = o;
            }
        },
        FieldValue::Count(n) => {
            if i == 8 {
                config.max_concurrent_builds = n as usize;
            } else if i == 9 {
                config.db_pool_size = n as u32;
            } else if i == 10 {
                config.queue_buffer_size = n as usize;
            } else if i == 11 {
                config.poller_tick_seconds = n;
            } else if i == 12 {
                config.worker_result_timeout_seconds = n;
            } else if i == 13 {
                config.worker_socket_timeout_seconds = n;
            } else if i == 14 {
                config.git_operation_timeout_seconds = n;
            } else if i == 15 {
                config.mock_chroot_cache_ttl_seconds = n;
            } else if i == 16 {
                config.git_mirror_refresh_ttl_seconds = n;
            } else {
                config.git_mirror_max_unused_seconds = n;
            }
        },
    }
}

/// The first field, from field `from` on, whose setting fails to read, or
/// `FIELD_COUNT` when none does.
pub open spec fn first_bad_field(settings: Seq<(String, SettingValue)>, from: int) -> int
    decreases FIELD_COUNT - from,
{
    if from < 0 || from >= FIELD_COUNT {
        FIELD_COUNT as int
    } else if field_error(settings, from) is Some {
        from
    } else {
        first_bad_field(settings, from + 1)
    }
}

/// Field `i` after a batch was applied: fields before the first refused
/// value hold their read settings, the rest keep what they held; a batch
/// refused for a key changes nothing.
pub open spec fn applied_field(
    config: RuntimeConfig,
    settings: Seq<(String, SettingValue)>,
    allow_internal: bool,
    i: int,
) -> FieldView {
    if key_phase_error(settings, allow_internal) is None && i < first_bad_field(settings, 0) {
        updated_field(config, settings, i)
    } else {
        field_of(config, i)
    }
}

/// Applies a batch of runtime settings to a configuration.
///
/// Every key is checked first, in batch order: an internal key is refused
/// unless `allow_internal_runtime_settings` holds, and a key that names no
/// field is refused; such a batch changes nothing. Then the fields are set
/// one by one in their fixed order, each from its setting when the batch
/// has one; the first value of the wrong shape is refused, and the fields
/// before it keep their new values.
pub fn apply_config_settings(
    config: &mut RuntimeConfig,
    settings: &[(String, SettingValue)],
    allow_internal_runtime_settings: bool,
) -> (res: Result<(), SettingError>)
    requires
        keys_distinct(settings@),
    ensures
        match res {
            Ok(()) => apply_error(settings@, allow_internal_runtime_settings) is None,
            Err(e) => apply_error(settings@, allow_internal_runtime_settings) == Some(error_view(e)),
        },
        forall|i: int|
            0 <= i < FIELD_COUNT ==> #[trigger] field_of(*final(config), i) == applied_field(
                *old(config),
                settings@,
                allow_internal_runtime_settings,
                i,
            ),
        res is Ok ==> first_bad_field(settings@, 0) == FIELD_COUNT,
        key_phase_error(settings@, allow_internal_runtime_settings) is Some ==> *final(config) == *old(config),
{
    let ghost s = settings@;
    let mut k: usize = 0;
    assert(s.skip(0) =~= s);
    while k < settings.len()
        invariant
            s == settings@,
            k <= s.len(),
            key_phase_error(s, allow_internal_runtime_settings) == key_phase_error(
                s.skip(k as int),
                allow_internal_runtime_settings,
            ),
        decreases s.len() - k,
    {
        assert(s.skip(k as int).drop_first() =~= s.skip(k as int + 1));
        let key = settings[k].0.as_str();
        if is_internal_runtime_setting_key(key) {
            if !allow_internal_runtime_settings {
                return Err(error_for(SettingErrorKind::NotEditable, key));
            }
        } else if !is_schema_key_exec(key) && !is_non_runtime_dynamic_key(key) {
            return Err(error_for(SettingErrorKind::Unknown, key));
        }
        k = k + 1;
    }
    assert(key_phase_error(s.skip(k as int), allow_internal_runtime_settings) is None);

    assert(*config == *old(config));
    let ghost at_entry = *config;
    let mut i: usize = 0;
    while i < FIELD_COUNT
        invariant
            s == settings@,
            at_entry == *old(config),
            i <= FIELD_COUNT,
            key_phase_error(s, allow_internal_runtime_settings) is None,
            field_phase_error(s, 0) == field_phase_error(s, i as int),
            first_bad_field(s, 0) == first_bad_field(s, i as int),
            forall|j: int| 0 <= j < i ==> #[trigger] field_of(*config, j) == updated_field(at_entry, s, j),
            forall|j: int| i <= j < FIELD_COUNT ==> #[trigger] field_of(*config, j) == field_of(at_entry, j),
        decreases FIELD_COUNT - i,
    {
        let key = field_key_str(i);
        match lookup_setting(settings, key) {
            None => {},
            Some(value) => {
                match parse_field(field_kind_of(i), value, key) {
                    Ok(v) => {
                        let ghost before = *config;
                        proof {
                            lemma_parsed_fits(i as int, *value);
                        }
                        set_field(config, i, v);
                        assert forall|j: int| 0 <= j < FIELD_COUNT && j != i implies #[trigger] field_of(
                            *config,
                            j,
                        ) == field_of(before, j) by {}
                    },
                    Err(e) => {
                        assert(field_error(s, i as int) is Some);
                        assert(first_bad_field(s, i as int) == i);
                        assert forall|j: int| 0 <= j < FIELD_COUNT implies #[trigger] field_of(*config, j)
                            == applied_field(at_entry, s, allow_internal_runtime_settings, j) by {
                            if j < i {
                                assert(field_of(*config, j) == updated_field(at_entry, s, j));
                            } else {
                                assert(field_of(*config, j) == field_of(at_entry, j));
                            }
                        }
                        return Err(e);
                    },
                }
            },
        }
        i = i + 1;
    }
    assert(field_phase_error(s, FIELD_COUNT as int) is None);
    Ok(())
}


spec fn key_signature(i: int) -> (int, char) {
    if i == 0 {
        (19, 'c')
    } else if i == 1 {
        (11, 'r')
    } else if i == 2 {
        (12, 'o')
    } else if i == 3 {
        (15, 'e')
    } else if i == 4 {
        (12, 'g')
    } else if i == 5 {
        (16, 's')
    } else if i == 6 {
        (15, 'a')
    } else if i == 7 {
        (14, 'y')
    } else if i == 8 {
        (21, 'r')
    } else if i == 9 {
        (12, 'z')
    } else if i == 10 {
        (17, 'e')
    } else if i == 11 {
        (19, 'k')
    } else if i == 12 {
        (29, 'u')
    } else if i == 13 {
        (29, 'k')
    } else if i == 14 {
        (29, 'i')
    } else if i == 15 {
        (29, 't')
    } else if i == 16 {
        (30, '_')
    } else if i == 17 {
        (29, '_')
    } else {
        (14, 'c')
    }
}

proof fn lemma_key_signature(i: int)
    requires
        0 <= i < FIELD_COUNT,
    ensures
        field_key(i).len() == key_signature(i).0,
        field_key(i)[10] == key_signature(i).1,
{
    if i == 0 {
        reveal_strlit("bootstrap_completed");
        assert(field_key(i).len() == 19 && field_key(i)[10] == 'c');
    }
    if i == 1 {
        reveal_strlit("listen_addr");
        assert(field_key(i).len() == 11 && field_key(i)[10] == 'r');
    }
    if i == 2 {
        reveal_strlit("runtime_root");
        assert(field_key(i).len() == 12 && field_key(i)[10] == 'o');
    }
    if i == 3 {
        reveal_strlit("public_base_url");
        assert(field_key(i).len() == 15 && field_key(i)[10] == 'e');
    }
    if i == 4 {
        reveal_strlit("worker_image");
        assert(field_key(i).len() == 12 && field_key(i)[10] == 'g');
    }
    if i == 5 {
        reveal_strlit("worker_jobs_root");
        assert(field_key(i).len() == 16 && field_key(i)[10] == 's');
    }
    if i == 6 {
        reveal_strlit("signing_enabled");
        assert(field_key(i).len() == 15 && field_key(i)[10] == 'a');
    }
    if i == 7 {
        reveal_strlit("signing_key_id");
        assert(field_key(i).len() == 14 && field_key(i)[10] == 'y');
    }
    if i == 8 {
        reveal_strlit("max_concurrent_builds");
        assert(field_key(i).len() == 21 && field_key(i)[10] == 'r');
    }
    if i == 9 {
        reveal_strlit("db_pool_size");
        assert(field_key(i).len() == 12 && field_key(i)[10] == 'z');
    }
    if i == 10 {
        reveal_strlit("queue_buffer_size");
        assert(field_key(i).len() == 17 && field_key(i)[10] == 'e');
    }
    if i == 11 {
        reveal_strlit("poller_tick_seconds");
        assert(field_key(i).len() == 19 && field_key(i)[10] == 'k');
    }
    if i == 12 {
        reveal_strlit("worker_result_timeout_seconds");
        assert(field_key(i).len() == 29 && field_key(i)[10] == 'u');
    }
    if i == 13 {
        reveal_strlit("worker_socket_timeout_seconds");
        assert(field_key(i).len() == 29 && field_key(i)[10] == 'k');
    }
    if i == 14 {
        reveal_strlit("git_operation_timeout_seconds");
        assert(field_key(i).len() == 29 && field_key(i)[10] == 'i');
    }
    if i == 15 {
        reveal_strlit("mock_chroot_cache_ttl_seconds");
        assert(field_key(i).len() == 29 && field_key(i)[10] == 't');
    }
    if i == 16 {
        reveal_strlit("git_mirror_refresh_ttl_seconds");
        assert(field_key(i).len() == 30 && field_key(i)[10] == '_');
    }
    if i == 17 {
        reveal_strlit("git_mirror_max_unused_seconds");
        assert(field_key(i).len() == 29 && field_key(i)[10] == '_');
    }
    if i == 18 {
        reveal_strlit("session_secret");
        assert(field_key(i).len() == 14 && field_key(i)[10] == 'c');
    }
}

/// The nineteen field keys are pairwise different.
pub proof fn lemma_field_keys_distinct()
    ensures
        forall|i: int, j: int|
            0 <= i < FIELD_COUNT && 0 <= j < FIELD_COUNT && i != j ==> field_key(i) != field_key(j),
{
    assert forall|i: int, j: int|
        0 <= i < FIELD_COUNT && 0 <= j < FIELD_COUNT && i != j implies field_key(i) != field_key(j) by {
        lemma_key_signature(i);
        lemma_key_signature(j);
        assert(key_signature(i) != key_signature(j));
    }
}

/// The stored armored private key is kept under a key that names no
/// configuration field.
pub proof fn lemma_private_key_setting_not_a_field()
    ensures
        forall|i: int| 0 <= i < FIELD_COUNT ==> #[trigger] field_key(i) != "signing_private_key_armored"@,
{
    reveal_strlit("signing_private_key_armored");
    assert forall|i: int| 0 <= i < FIELD_COUNT implies #[trigger] field_key(i) != "signing_private_key_armored"@ by {
        lemma_key_signature(i);
    }
}

/// Whether a stored setting holds the given field content.
pub open spec fn setting_matches(value: SettingValue, field: FieldView) -> bool {
    match (value, field) {
        (SettingValue::Bool(b), FieldView::Flag(c)) => b == c,
        (SettingValue::Str(s), FieldView::Text(t)) => s@ == t,
        (SettingValue::Str(s), FieldView::OptionalText(Some(t))) => s@ == t,
        (SettingValue::Null, FieldView::OptionalText(None)) => true,
        (SettingValue::UInt(n), FieldView::Count(m)) => n == m,
        _ => false,
    }
}

/// `settings` holds one entry per field, in field order, each holding the
/// field's content in `config`.
pub open spec fn is_runtime_settings_of(settings: Seq<(String, SettingValue)>, config: RuntimeConfig) -> bool {
    &&& settings.len() == FIELD_COUNT
    &&& forall|i: int|
        0 <= i < FIELD_COUNT ==> (#[trigger] settings[i]).0@ == field_key(i) && setting_matches(
            settings[i].1,
            field_of(config, i),
        )
}

fn field_setting(config: &RuntimeConfig, i: usize) -> (res: SettingValue)
    requires
        i < FIELD_COUNT,
    ensures
        setting_matches(res, field_of(*config, i as int)),
{
    if i == 0 {
        SettingValue::Bool(config.bootstrap_completed)
    } else if i == 1 {
        SettingValue::Str(config.listen_addr.clone())
    } else if i == 2 {
        SettingValue::Str(config.runtime_root.clone())
    } else if i == 3 {
        SettingValue::Str(config.public_base_url.clone())
    } else if i == 4 {
        SettingValue::Str(config.worker_image.clone())
    } else if i == 5 {
        match &config.worker_jobs_root {
            Some(path) => SettingValue::Str(path.clone()),
            None => SettingValue::Null,
        }
    } else if i == 6 {
        SettingValue::Bool(config.signing_enabled)
    } else if i == 7 {
        match &config.signing_key_id {
            Some(key_id) => SettingValue::Str(key_id.clone()),
            None => SettingValue::Null,
        }
    } else if i == 8 {
        SettingValue::UInt(config.max_concurrent_builds as u64)
    } else if i == 9 {
        SettingValue::UInt(config.db_pool_size as u64)
    } else if i == 10 {
        SettingValue::UInt(config.queue_buffer_size as u64)
    } else if i == 11 {
        SettingValue::UInt(config.poller_tick_seconds)
    } else if i == 12 {
        SettingValue::UInt(config.worker_result_timeout_seconds)
    } else if i == 13 {
        SettingValue::UInt(config.worker_socket_timeout_seconds)
    } else if i == 14 {
        SettingValue::UInt(config.git_operation_timeout_seconds)
    } else if i == 15 {
        SettingValue::UInt(config.mock_chroot_cache_ttl_seconds)
    } else if i == 16 {
        SettingValue::UInt(config.git_mirror_refresh_ttl_seconds)
    } else if i == 17 {
        SettingValue::UInt(config.git_mirror_max_unused_seconds)
    } else {
        SettingValue::Str(config.session_secret.clone())
    }
}

/// The runtime settings that record a configuration: one entry per field,
/// holding the field's value (null for an absent optional text).
pub fn daemon_config_runtime_settings(config: &RuntimeConfig) -> (settings: Vec<(String, SettingValue)>)
    ensures
        is_runtime_settings_of(settings@, *config),
        keys_distinct(settings@),
{
    let mut settings: Vec<(String, SettingValue)> = Vec::new();
    let mut i: usize = 0;
    while i < FIELD_COUNT
        invariant
            i <= FIELD_COUNT,
            settings@.len() == i,
            forall|j: int|
                0 <= j < i ==> (#[trigger] settings@[j]).0@ == field_key(j) && setting_matches(
                    settings@[j].1,
                    field_of(*config, j),
                ),
        decreases FIELD_COUNT - i,
    {
        let key = to_owned_string(field_key_str(i));
        let value = field_setting(config, i);
        settings.push((key, value));
        i = i + 1;
    }
    proof {
        lemma_field_keys_distinct();
        assert forall|i: int, j: int| 0 <= i < j < settings@.len() implies (#[trigger] settings@[i]).0@
            != (#[trigger] settings@[j]).0@ by {
            assert(settings@[i].0@ == field_key(i) && settings@[j].0@ == field_key(j));
        }
    }
    settings
}

/// A configuration every one of whose fields reads back unchanged: texts
/// are non-empty and trimmed, counts are positive.
pub open spec fn is_normalized(config: RuntimeConfig) -> bool {
    forall|i: int|
        0 <= i < FIELD_COUNT ==> match #[trigger] field_of(config, i) {
            FieldView::Text(t) => t.len() > 0 && trim_spec(t) == t,
            FieldView::OptionalText(Some(t)) => t.len() > 0 && trim_spec(t) == t,
            FieldView::Count(n) => n > 0,
            _ => true,
        }
}

proof fn lemma_lookup_runtime_settings(settings: Seq<(String, SettingValue)>, config: RuntimeConfig, i: int, from: int)
    requires
        is_runtime_settings_of(settings, config),
        0 <= from <= i < FIELD_COUNT,
    ensures
        lookup_spec(settings.skip(from), field_key(i)) == Some(settings[i].1),
    decreases i - from,
{
    lemma_field_keys_distinct();
    let rest = settings.skip(from);
    assert(rest[0] == settings[from]);
    if from < i {
        assert(rest.drop_first() =~= settings.skip(from + 1));
        lemma_lookup_runtime_settings(settings, config, i, from + 1);
    }
}

proof fn lemma_runtime_keys_allowed(settings: Seq<(String, SettingValue)>, config: RuntimeConfig, from: int)
    requires
        is_runtime_settings_of(settings, config),
        0 <= from <= FIELD_COUNT,
    ensures
        key_phase_error(settings.skip(from), true) is None,
    decreases FIELD_COUNT - from,
{
    let rest = settings.skip(from);
    if from < FIELD_COUNT {
        assert(rest[0] == settings[from]);
        let key = settings[from].0@;
        assert(key == field_key(from));
        if 1 <= from <= 17 {
            assert(is_schema_key(key));
        }
        assert(rest.drop_first() =~= settings.skip(from + 1));
        lemma_runtime_keys_allowed(settings, config, from + 1);
    } else {
        assert(rest.len() == 0);
    }
}

proof fn lemma_runtime_fields_read_back(settings: Seq<(String, SettingValue)>, config: RuntimeConfig, i: int)
    requires
        is_runtime_settings_of(settings, config),
        is_normalized(config),
        0 <= i < FIELD_COUNT,
    ensures
        lookup_spec(settings, field_key(i)) == Some(settings[i].1),
        parse_field_spec(field_kind(i), settings[i].1) == Ok::<FieldView, SettingErrorKind>(
            field_of(config, i),
        ),
{
    lemma_lookup_runtime_settings(settings, config, i, 0);
    assert(settings.skip(0) =~= settings);
    let f = field_of(config, i);
    assert(setting_matches(settings[i].1, f));
}

proof fn lemma_runtime_field_phase(settings: Seq<(String, SettingValue)>, config: RuntimeConfig, from: int)
    requires
        is_runtime_settings_of(settings, config),
        is_normalized(config),
        0 <= from <= FIELD_COUNT,
    ensures
        field_phase_error(settings, from) is None,
    decreases FIELD_COUNT - from,
{
    if from < FIELD_COUNT {
        lemma_runtime_fields_read_back(settings, config, from);
        lemma_runtime_field_phase(settings, config, from + 1);
    }
}

/// Reloading the runtime settings that record a normalized configuration,
/// on top of any configuration, succeeds and gives back that configuration's
/// fields.
pub proof fn lemma_runtime_settings_round_trip(
    settings: Seq<(String, SettingValue)>,
    config: RuntimeConfig,
    base: RuntimeConfig,
)
    requires
        is_runtime_settings_of(settings, config),
        is_normalized(config),
    ensures
        apply_error(settings, true) is None,
        forall|i: int| 0 <= i < FIELD_COUNT ==> #[trigger] applied_field(base, settings, true, i) == field_of(config, i),
{
    lemma_runtime_keys_allowed(settings, config, 0);
    assert(settings.skip(0) =~= settings);
    lemma_runtime_field_phase(settings, config, 0);
    lemma_no_bad_field(settings, 0);
    assert forall|i: int| 0 <= i < FIELD_COUNT implies #[trigger] applied_field(base, settings, true, i) == field_of(config, i) by {
        lemma_runtime_fields_read_back(settings, config, i);
    }
}

/// A batch whose fields all read has no refused field.
proof fn lemma_no_bad_field(settings: Seq<(String, SettingValue)>, from: int)
    requires
        0 <= from,
        field_phase_error(settings, from) is None,
    ensures
        first_bad_field(settings, from) == FIELD_COUNT,
    decreases FIELD_COUNT - from,
{
    if from < FIELD_COUNT {
        lemma_no_bad_field(settings, from + 1);
    }
}

/// A flag field after a successful batch: the batch's boolean under its
/// key, or what it was before when the batch leaves the key out.
pub open spec fn flag_set(settings: Seq<(String, SettingValue)>, key: Seq<char>, before: bool, after: bool) -> bool {
    match lookup_spec(settings, key) {
        Some(SettingValue::Bool(b)) => after == b,
        None => after == before,
        _ => true,
    }
}

/// A text field after a successful batch: the batch's string under its
/// key, trimmed, or what it was before.
pub open spec fn text_set(settings: Seq<(String, SettingValue)>, key: Seq<char>, before: Seq<char>, after: Seq<char>) -> bool {
    match lookup_spec(settings, key) {
        Some(SettingValue::Str(s)) => after == trim_spec(s@),
        None => after == before,
        _ => true,
    }
}

/// An optional text field after a successful batch: cleared by a null
/// under its key, set to the trimmed string under it, or as before.
pub open spec fn optional_text_set(
    settings: Seq<(String, SettingValue)>,
    key: Seq<char>,
    before: Option<String>,
    after: Option<String>,
) -> bool {
    match lookup_spec(settings, key) {
        Some(SettingValue::Null) => after is None,
        Some(SettingValue::Str(s)) => text_opt(after) == Some(trim_spec(s@)),
        None => text_opt(after) == text_opt(before),
        _ => true,
    }
}

/// A count field after a successful batch: the batch's number under its
/// key, or what it was before.
pub open spec fn count_set(settings: Seq<(String, SettingValue)>, key: Seq<char>, before: u64, after: u64) -> bool {
    match lookup_spec(settings, key) {
        Some(SettingValue::UInt(n)) => after == n,
        None => after == before,
        _ => true,
    }
}

/// A size field after a successful batch.
pub open spec fn size_set(settings: Seq<(String, SettingValue)>, key: Seq<char>, before: usize, after: usize) -> bool {
    match lookup_spec(settings, key) {
        Some(SettingValue::UInt(n)) => after == n as usize,
        None => after == before,
        _ => true,
    }
}

/// A small count field after a successful batch.
pub open spec fn small_set(settings: Seq<(String, SettingValue)>, key: Seq<char>, before: u32, after: u32) -> bool {
    match lookup_spec(settings, key) {
        Some(SettingValue::UInt(n)) => after == n as u32,
        None => after == before,
        _ => true,
    }
}

/// No field from `from` on fails to read when none is the first to fail.
proof fn lemma_no_field_error_from(settings: Seq<(String, SettingValue)>, from: int, j: int)
    requires
        0 <= from <= j < FIELD_COUNT,
        first_bad_field(settings, from) == FIELD_COUNT,
    ensures
        field_error(settings, j) is None,
    decreases j - from,
{
    if from < j {
        lemma_no_field_error_from(settings, from + 1, j);
    }
}

/// Each setting lands in the configuration field of the same name: after
/// a batch that `apply_config_settings` accepts (taking `before` to
/// `after`), every field holds the value the batch gives under the
/// field's own name, and a field the batch does not name keeps its value.
pub proof fn lemma_settings_set_their_named_fields(
    before: RuntimeConfig,
    after: RuntimeConfig,
    settings: Seq<(String, SettingValue)>,
    allow_internal: bool,
)
    requires
        apply_error(settings, allow_internal) is None,
        first_bad_field(settings, 0) == FIELD_COUNT,
        forall|i: int|
            0 <= i < FIELD_COUNT ==> #[trigger] field_of(after, i) == applied_field(before, settings, allow_internal, i),
    ensures
        flag_set(settings, "bootstrap_completed"@, before.bootstrap_completed, after.bootstrap_completed),
        text_set(settings, "listen_addr"@, before.listen_addr@, after.listen_addr@),
        text_set(settings, "runtime_root"@, before.runtime_root@, after.runtime_root@),
        text_set(settings, "public_base_url"@, before.public_base_url@, after.public_base_url@),
        text_set(settings, "worker_image"@, before.worker_image@, after.worker_image@),
        optional_text_set(settings, "worker_jobs_root"@, before.worker_jobs_root, after.worker_jobs_root),
        flag_set(settings, "signing_enabled"@, before.signing_enabled, after.signing_enabled),
        optional_text_set(settings, "signing_key_id"@, before.signing_key_id, after.signing_key_id),
        size_set(settings, "max_concurrent_builds"@, before.max_concurrent_builds, after.max_concurrent_builds),
        small_set(settings, "db_pool_size"@, before.db_pool_size, after.db_pool_size),
        size_set(settings, "queue_buffer_size"@, before.queue_buffer_size, after.queue_buffer_size),
        count_set(settings, "poller_tick_seconds"@, before.poller_tick_seconds, after.poller_tick_seconds),
        count_set(settings, "worker_result_timeout_seconds"@, before.worker_result_timeout_seconds, after.worker_result_timeout_seconds),
        count_set(settings, "worker_socket_timeout_seconds"@, before.worker_socket_timeout_seconds, after.worker_socket_timeout_seconds),
        count_set(settings, "git_operation_timeout_seconds"@, before.git_operation_timeout_seconds, after.git_operation_timeout_seconds),
        count_set(settings, "mock_chroot_cache_ttl_seconds"@, before.mock_chroot_cache_ttl_seconds, after.mock_chroot_cache_ttl_seconds),
        count_set(settings, "git_mirror_refresh_ttl_seconds"@, before.git_mirror_refresh_ttl_seconds, after.git_mirror_refresh_ttl_seconds),
        count_set(settings, "git_mirror_max_unused_seconds"@, before.git_mirror_max_unused_seconds, after.git_mirror_max_unused_seconds),
        text_set(settings, "session_secret"@, before.session_secret@, after.session_secret@),
{
    assert(flag_set(settings, "bootstrap_completed"@, before.bootstrap_completed, after.bootstrap_completed)) by {
        lemma_no_field_error_from(settings, 0, 0);
        assert(field_of(after, 0) == applied_field(before, settings, allow_internal, 0));
    }
    assert(text_set(settings, "listen_addr"@, before.listen_addr@, after.listen_addr@)) by {
        lemma_no_field_error_from(settings, 0, 1);
        assert(field_of(after, 1) == applied_field(before, settings, allow_internal, 1));
    }
    assert(text_set(settings, "runtime_root"@, before.runtime_root@, after.runtime_root@)) by {
        lemma_no_field_error_from(settings, 0, 2);
        assert(field_of(after, 2) == applied_field(before, settings, allow_internal, 2));
    }
    assert(text_set(settings, "public_base_url"@, before.public_base_url@, after.public_base_url@)) by {
        lemma_no_field_error_from(settings, 0, 3);
        assert(field_of(after, 3) == applied_field(before, settings, allow_internal, 3));
    }
    assert(text_set(settings, "worker_image"@, before.worker_image@, after.worker_image@)) by {
        lemma_no_field_error_from(settings, 0, 4);
        assert(field_of(after, 4) == applied_field(before, settings, allow_internal, 4));
    }
    assert(optional_text_set(settings, "worker_jobs_root"@, before.worker_jobs_root, after.worker_jobs_root)) by {
        lemma_no_field_error_from(settings, 0, 5);
        assert(field_of(after, 5) == applied_field(before, settings, allow_internal, 5));
    }
    assert(flag_set(settings, "signing_enabled"@, before.signing_enabled, after.signing_enabled)) by {
        lemma_no_field_error_from(settings, 0, 6);
        assert(field_of(after, 6) == applied_field(before, settings, allow_internal, 6));
    }
    assert(optional_text_set(settings, "signing_key_id"@, before.signing_key_id, after.signing_key_id)) by {
        lemma_no_field_error_from(settings, 0, 7);
        assert(field_of(after, 7) == applied_field(before, settings, allow_internal, 7));
    }
    assert(size_set(settings, "max_concurrent_builds"@, before.max_concurrent_builds, after.max_concurrent_builds)) by {
        lemma_no_field_error_from(settings, 0, 8);
        assert(field_of(after, 8) == applied_field(before, settings, allow_internal, 8));
    }
    assert(small_set(settings, "db_pool_size"@, before.db_pool_size, after.db_pool_size)) by {
        lemma_no_field_error_from(settings, 0, 9);
        assert(field_of(after, 9) == applied_field(before, settings, allow_internal, 9));
    }
    assert(size_set(settings, "queue_buffer_size"@, before.queue_buffer_size, after.queue_buffer_size)) by {
        lemma_no_field_error_from(settings, 0, 10);
        assert(field_of(after, 10) == applied_field(before, settings, allow_internal, 10));
    }
    assert(count_set(settings, "poller_tick_seconds"@, before.poller_tick_seconds, after.poller_tick_seconds)) by {
        lemma_no_field_error_from(settings, 0, 11);
        assert(field_of(after, 11) == applied_field(before, settings, allow_internal, 11));
    }
    assert(count_set(settings, "worker_result_timeout_seconds"@, before.worker_result_timeout_seconds, after.worker_result_timeout_seconds)) by {
        lemma_no_field_error_from(settings, 0, 12);
        assert(field_of(after, 12) == applied_field(before, settings, allow_internal, 12));
    }
    assert(count_set(settings, "worker_socket_timeout_seconds"@, before.worker_socket_timeout_seconds, after.worker_socket_timeout_seconds)) by {
        lemma_no_field_error_from(settings, 0, 13);
        assert(field_of(after, 13) == applied_field(before, settings, allow_internal, 13));
    }
    assert(count_set(settings, "git_operation_timeout_seconds"@, before.git_operation_timeout_seconds, after.git_operation_timeout_seconds)) by {
        lemma_no_field_error_from(settings, 0, 14);
        assert(field_of(after, 14) == applied_field(before, settings, allow_internal, 14));
    }
    assert(count_set(settings, "mock_chroot_cache_ttl_seconds"@, before.mock_chroot_cache_ttl_seconds, after.mock_chroot_cache_ttl_seconds)) by {
        lemma_no_field_error_from(settings, 0, 15);
        assert(field_of(after, 15) == applied_field(before, settings, allow_internal, 15));
    }
    assert(count_set(settings, "git_mirror_refresh_ttl_seconds"@, before.git_mirror_refresh_ttl_seconds, after.git_mirror_refresh_ttl_seconds)) by {
        lemma_no_field_error_from(settings, 0, 16);
        assert(field_of(after, 16) == applied_field(before, settings, allow_internal, 16));
    }
    assert(count_set(settings, "git_mirror_max_unused_seconds"@, before.git_mirror_max_unused_seconds, after.git_mirror_max_unused_seconds)) by {
        lemma_no_field_error_from(settings, 0, 17);
        assert(field_of(after, 17) == applied_field(before, settings, allow_internal, 17));
    }
    assert(text_set(settings, "session_secret"@, before.session_secret@, after.session_secret@)) by {
        lemma_no_field_error_from(settings, 0, 18);
        assert(field_of(after, 18) == applied_field(before, settings, allow_internal, 18));
    }
}

/// The stored setting under `key` is the flag `value`.
pub open spec fn recorded_flag(settings: Seq<(String, SettingValue)>, key: Seq<char>, value: bool) -> bool {
    lookup_spec(settings, key) == Some(SettingValue::Bool(value))
}

/// The stored setting under `key` is a string holding `text`.
pub open spec fn recorded_text(settings: Seq<(String, SettingValue)>, key: Seq<char>, text: Seq<char>) -> bool {
    lookup_spec(settings, key) matches Some(SettingValue::Str(s)) && s@ == text
}

/// The stored setting under `key` is null for no text, else a string
/// holding the text.
pub open spec fn recorded_optional_text(settings: Seq<(String, SettingValue)>, key: Seq<char>, value: Option<String>) -> bool {
    match value {
        None => lookup_spec(settings, key) == Some(SettingValue::Null),
        Some(t) => lookup_spec(settings, key) matches Some(SettingValue::Str(s)) && s@ == t@,
    }
}

/// The stored setting under `key` is the number `n`.
pub open spec fn recorded_count(settings: Seq<(String, SettingValue)>, key: Seq<char>, n: u64) -> bool {
    lookup_spec(settings, key) == Some(SettingValue::UInt(n))
}

/// The settings that record a configuration store each field under its
/// own name: looking a field's name up gives that field's value.
pub proof fn lemma_recorded_settings_name_their_fields(settings: Seq<(String, SettingValue)>, config: RuntimeConfig)
    requires
        is_runtime_settings_of(settings, config),
    ensures
        recorded_flag(settings, "bootstrap_completed"@, config.bootstrap_completed),
        recorded_text(settings, "listen_addr"@, config.listen_addr@),
        recorded_text(settings, "runtime_root"@, config.runtime_root@),
        recorded_text(settings, "public_base_url"@, config.public_base_url@),
        recorded_text(settings, "worker_image"@, config.worker_image@),
        recorded_optional_text(settings, "worker_jobs_root"@, config.worker_jobs_root),
        recorded_flag(settings, "signing_enabled"@, config.signing_enabled),
        recorded_optional_text(settings, "signing_key_id"@, config.signing_key_id),
        recorded_count(settings, "max_concurrent_builds"@, config.max_concurrent_builds as u64),
        recorded_count(settings, "db_pool_size"@, config.db_pool_size as u64),
        recorded_count(settings, "queue_buffer_size"@, config.queue_buffer_size as u64),
        recorded_count(settings, "poller_tick_seconds"@, config.poller_tick_seconds),
        recorded_count(settings, "worker_result_timeout_seconds"@, config.worker_result_timeout_seconds),
        recorded_count(settings, "worker_socket_timeout_seconds"@, config.worker_socket_timeout_seconds),
        recorded_count(settings, "git_operation_timeout_seconds"@, config.git_operation_timeout_seconds),
        recorded_count(settings, "mock_chroot_cache_ttl_seconds"@, config.mock_chroot_cache_ttl_seconds),
        recorded_count(settings, "git_mirror_refresh_ttl_seconds"@, config.git_mirror_refresh_ttl_seconds),
        recorded_count(settings, "git_mirror_max_unused_seconds"@, config.git_mirror_max_unused_seconds),
        recorded_text(settings, "session_secret"@, config.session_secret@),
{
    assert(settings.skip(0) =~= settings);
    assert(recorded_flag(settings, "bootstrap_completed"@, config.bootstrap_completed)) by {
        lemma_lookup_runtime_settings(settings, config, 0, 0);
        assert(settings[0].0@ == field_key(0));
    }
    assert(recorded_text(settings, "listen_addr"@, config.listen_addr@)) by {
        lemma_lookup_runtime_settings(settings, config, 1, 0);
        assert(settings[1].0@ == field_key(1));
    }
    assert(recorded_text(settings, "runtime_root"@, config.runtime_root@)) by {
        lemma_lookup_runtime_settings(settings, config, 2, 0);
        assert(settings[2].0@ == field_key(2));
    }
    assert(recorded_text(settings, "public_base_url"@, config.public_base_url@)) by {
        lemma_lookup_runtime_settings(settings, config, 3, 0);
        assert(settings[3].0@ == field_key(3));
    }
    assert(recorded_text(settings, "worker_image"@, config.worker_image@)) by {
        lemma_lookup_runtime_settings(settings, config, 4, 0);
        assert(settings[4].0@ == field_key(4));
    }
    assert(recorded_optional_text(settings, "worker_jobs_root"@, config.worker_jobs_root)) by {
        lemma_lookup_runtime_settings(settings, config, 5, 0);
        assert(settings[5].0@ == field_key(5));
    }
    assert(recorded_flag(settings, "signing_enabled"@, config.signing_enabled)) by {
        lemma_lookup_runtime_settings(settings, config, 6, 0);
        assert(settings[6].0@ == field_key(6));
    }
    assert(recorded_optional_text(settings, "signing_key_id"@, config.signing_key_id)) by {
        lemma_lookup_runtime_settings(settings, config, 7, 0);
        assert(settings[7].0@ == field_key(7));
    }
    assert(recorded_count(settings, "max_concurrent_builds"@, config.max_concurrent_builds as u64)) by {
        lemma_lookup_runtime_settings(settings, config, 8, 0);
        assert(settings[8].0@ == field_key(8));
    }
    assert(recorded_count(settings, "db_pool_size"@, config.db_pool_size as u64)) by {
        lemma_lookup_runtime_settings(settings, config, 9, 0);
        assert(settings[9].0@ == field_key(9));
    }
    assert(recorded_count(settings, "queue_buffer_size"@, config.queue_buffer_size as u64)) by {
        lemma_lookup_runtime_settings(settings, config, 10, 0);
        assert(settings[10].0@ == field_key(10));
    }
    assert(recorded_count(settings, "poller_tick_seconds"@, config.poller_tick_seconds)) by {
        lemma_lookup_runtime_settings(settings, config, 11, 0);
        assert(settings[11].0@ == field_key(11));
    }
    assert(recorded_count(settings, "worker_result_timeout_seconds"@, config.worker_result_timeout_seconds)) by {
        lemma_lookup_runtime_settings(settings, config, 12, 0);
        assert(settings[12].0@ == field_key(12));
    }
    assert(recorded_count(settings, "worker_socket_timeout_seconds"@, config.worker_socket_timeout_seconds)) by {
        lemma_lookup_runtime_settings(settings, config, 13, 0);
        assert(settings[13].0@ == field_key(13));
    }
    assert(recorded_count(settings, "git_operation_timeout_seconds"@, config.git_operation_timeout_seconds)) by {
        lemma_lookup_runtime_settings(settings, config, 14, 0);
        assert(settings[14].0@ == field_key(14));
    }
    assert(recorded_count(settings, "mock_chroot_cache_ttl_seconds"@, config.mock_chroot_cache_ttl_seconds)) by {
        lemma_lookup_runtime_settings(settings, config, 15, 0);
        assert(settings[15].0@ == field_key(15));
    }
    assert(recorded_count(settings, "git_mirror_refresh_ttl_seconds"@, config.git_mirror_refresh_ttl_seconds)) by {
        lemma_lookup_runtime_settings(settings, config, 16, 0);
        assert(settings[16].0@ == field_key(16));
    }
    assert(recorded_count(settings, "git_mirror_max_unused_seconds"@, config.git_mirror_max_unused_seconds)) by {
        lemma_lookup_runtime_settings(settings, config, 17, 0);
        assert(settings[17].0@ == field_key(17));
    }
    assert(recorded_text(settings, "session_secret"@, config.session_secret@)) by {
        lemma_lookup_runtime_settings(settings, config, 18, 0);
        assert(settings[18].0@ == field_key(18));
    }
}

} // verus!
