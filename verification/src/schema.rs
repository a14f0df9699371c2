use vstd::prelude::*;

use crate::settings::{
    field_key, is_schema_key, keys_distinct, lemma_field_keys_distinct, SettingError, SettingErrorKind,
    SettingValue,
};
use crate::text::{str_eq, to_owned_string};

verus! {

/// How a configuration field is edited in the user interface.
#[derive(Debug, Clone, Copy, PartialEq, Eq)]
pub enum ConfigFieldType {
    String,
    Number,
    Boolean,
}

/// One editable field of the configuration schema.
#[derive(Debug, Clone, PartialEq, Eq)]
pub struct ConfigFieldDescriptor {
    pub key: String,
    pub label: String,
    pub description: String,
    pub section_key: String,
    pub section_label: String,
    pub field_type: ConfigFieldType,
    pub required: bool,
    pub min_value: Option<u64>,
    pub editable_in_setup: bool,
    pub editable_in_runtime: bool,
    pub default_value: SettingValue,
}

/// The group a field is shown in.
#[derive(Copy, Clone)]
pub struct ConfigSection<'a> {
    pub key: &'a str,
    pub label: &'a str,
}

/// Which APIs may change a field.
#[derive(Copy, Clone)]
pub struct ConfigEditability {
    pub in_setup: bool,
    pub in_runtime: bool,
}

/// The default shown for a field.
pub enum DefaultView {
    Text(Seq<char>),
    Null,
    Number(u64),
    Flag(bool),
    OtherNumber,
    Array,
    Object,
}

/// The content of a schema row.
pub struct SchemaRow {
    pub key: Seq<char>,
    pub label: Seq<char>,
    pub description: Seq<char>,
    pub section_key: Seq<char>,
    pub section_label: Seq<char>,
    pub field_type: ConfigFieldType,
    pub required: bool,
    pub min_value: Option<u64>,
    pub in_setup: bool,
    pub in_runtime: bool,
    pub default_value: DefaultView,
}

pub open spec fn default_view(value: SettingValue) -> DefaultView {
    match value {
        SettingValue::Str(s) => DefaultView::Text(s@),
        SettingValue::UInt(n) => DefaultView::Number(n),
        SettingValue::Bool(b) => DefaultView::Flag(b),
        SettingValue::Null => DefaultView::Null,
        SettingValue::OtherNumber => DefaultView::OtherNumber,
        SettingValue::Array => DefaultView::Array,
        SettingValue::Object => DefaultView::Object,
    }
}

pub open spec fn descriptor_view(d: ConfigFieldDescriptor) -> SchemaRow {
    SchemaRow {
        key: d.key@,
        label: d.label@,
        description: d.description@,
        section_key: d.section_key@,
        section_label: d.section_label@,
        field_type: d.field_type,
        required: d.required,
        min_value: d.min_value,
        in_setup: d.editable_in_setup,
        in_runtime: d.editable_in_runtime,
        default_value: default_view(d.default_value),
    }
}

/// A required text field.
pub open spec fn text_row(
    section_key: Seq<char>,
    section_label: Seq<char>,
    key: Seq<char>,
    label: Seq<char>,
    description: Seq<char>,
    default_value: Seq<char>,
    in_setup: bool,
    in_runtime: bool,
) -> SchemaRow {
    SchemaRow {
        key,
        label,
        description,
        section_key,
        section_label,
        field_type: ConfigFieldType::String,
        required: true,
        min_value: None,
        in_setup,
        in_runtime,
        default_value: DefaultView::Text(default_value),
    }
}

/// An optional text field.
pub open spec fn optional_text_row(
    section_key: Seq<char>,
    section_label: Seq<char>,
    key: Seq<char>,
    label: Seq<char>,
    description: Seq<char>,
    in_setup: bool,
    in_runtime: bool,
) -> SchemaRow {
    SchemaRow {
        key,
        label,
        description,
        section_key,
        section_label,
        field_type: ConfigFieldType::String,
        required: false,
        min_value: None,
        in_setup,
        in_runtime,
        default_value: DefaultView::Null,
    }
}

/// A positive number field.
pub open spec fn number_row(
    section_key: Seq<char>,
    section_label: Seq<char>,
    key: Seq<char>,
    label: Seq<char>,
    description: Seq<char>,
    default_value: u64,
    in_setup: bool,
    in_runtime: bool,
) -> SchemaRow {
    SchemaRow {
        key,
        label,
        description,
        section_key,
        section_label,
        field_type: ConfigFieldType::Number,
        required: true,
        min_value: Some(1),
        in_setup,
        in_runtime,
        default_value: DefaultView::Number(default_value),
    }
}

/// A boolean field.
pub open spec fn bool_row(
    section_key: Seq<char>,
    section_label: Seq<char>,
    key: Seq<char>,
    label: Seq<char>,
    description: Seq<char>,
    default_value: bool,
    in_setup: bool,
    in_runtime: bool,
) -> SchemaRow {
    SchemaRow {
        key,
        label,
        description,
        section_key,
        section_label,
        field_type: ConfigFieldType::Boolean,
        required: true,
        min_value: None,
        in_setup,
        in_runtime,
        default_value: DefaultView::Flag(default_value),
    }
}

/// Number of rows of the configuration schema.
pub const SCHEMA_LEN: usize = 17;

/// Row `i` of the configuration schema.
pub open spec fn schema_row(i: int) -> SchemaRow {
    if i == 0 {
        text_row("server"@, "Server"@, "listen_addr"@, "Listen address"@, "Daemon HTTP listen address."@, "0.0.0.0:8080"@, true, false)
    } else if i == 1 {
        text_row("storage"@, "Storage"@, "runtime_root"@, "Runtime root"@, "Root directory for database, package metadata, repo files, and jobs."@, "/var/lib/synforge"@, true, false)
    } else if i == 2 {
        text_row("server"@, "Server"@, "public_base_url"@, "Public base URL"@, "Base URL used in generated links and repo setup."@, "http://localhost:8080"@, true, true)
    } else if i == 3 {
        text_row("worker"@, "Worker"@, "worker_image"@, "Worker image"@, "Docker image used for spawned worker containers."@, "synforge-worker-fedora:latest"@, true, true)
    } else if i == 4 {
        optional_text_row("worker"@, "Worker"@, "worker_jobs_root"@, "Worker jobs root"@, "Host path used for per-job worker mock bind mounts."@, true, true)
    } else if i == 5 {
        bool_row("signing"@, "Signing"@, "signing_enabled"@, "Repository GPG signing enabled"@, "Enable package signing for repository artifacts."@, false, false, false)
    } else if i == 6 {
        optional_text_row("signing"@, "Signing"@, "signing_key_id"@, "Repository GPG key ID"@, "Configured signing key identifier. Managed by the dedicated signing APIs."@, false, false)
    } else if i == 7 {
        number_row("build"@, "Build"@, "max_concurrent_builds"@, "Max concurrent builds"@, "Maximum number of active builds at once."@, 2, true, true)
    } else if i == 8 {
        number_row("database"@, "Database"@, "db_pool_size"@, "DB pool size"@, "Number of database connection pool slots."@, 5, true, false)
    } else if i == 9 {
        number_row("scheduler"@, "Scheduler"@, "queue_buffer_size"@, "Queue buffer size"@, "In-memory queued build channel capacity."@, 128, true, true)
    } else if i == 10 {
        number_row("scheduler"@, "Scheduler"@, "poller_tick_seconds"@, "Poller tick seconds"@, "How often package polling wakes up."@, 30, true, true)
    } else if i == 11 {
        number_row("worker"@, "Worker"@, "worker_result_timeout_seconds"@, "Worker result timeout seconds"@, "Timeout while waiting for worker completion after request dispatch."@, 10, true, true)
    } else if i == 12 {
        number_row("worker"@, "Worker"@, "worker_socket_timeout_seconds"@, "Worker socket timeout seconds"@, "Socket timeout used for worker protocol I/O."@, 30, true, true)
    } else if i == 13 {
        number_row("git"@, "Git"@, "git_operation_timeout_seconds"@, "Git operation timeout seconds"@, "Timeout applied to git inspection and sync commands."@, 600, true, true)
    } else if i == 14 {
        number_row("cache"@, "Cache"@, "mock_chroot_cache_ttl_seconds"@, "Mock chroot cache TTL seconds"@, "How long to cache discovered mock chroots before refreshing."@, 300, true, true)
    } else if i == 15 {
        number_row("cache"@, "Cache"@, "git_mirror_refresh_ttl_seconds"@, "Git mirror refresh TTL seconds"@, "Maximum age before a cached git mirror is refreshed from origin."@, 300, true, true)
    } else {
        number_row("cache"@, "Cache"@, "git_mirror_max_unused_seconds"@, "Git mirror max unused seconds"@, "Remove cached git mirrors that have not been used within this window."@, 604800, true, true)
    }
}

/// Builds a required text field.
pub fn config_string_field(
    section: ConfigSection<'_>,
    key: &str,
    label: &str,
    description: &str,
    default_value: &str,
    editability: ConfigEditability,
) -> (res: ConfigFieldDescriptor)
    ensures
        descriptor_view(res) == text_row(section.key@, section.label@, key@, label@, description@, default_value@, editability.in_setup, editability.in_runtime),
{
    ConfigFieldDescriptor {
        key: to_owned_string(key),
        label: to_owned_string(label),
        description: to_owned_string(description),
        section_key: to_owned_string(section.key),
        section_label: to_owned_string(section.label),
        field_type: ConfigFieldType::String,
        required: true,
        min_value: None,
        editable_in_setup: editability.in_setup,
        editable_in_runtime: editability.in_runtime,
        default_value: SettingValue::Str(to_owned_string(default_value)),
    }
}

/// Builds an optional text field, whose default is null.
pub fn config_optional_string_field(
    section: ConfigSection<'_>,
    key: &str,
    label: &str,
    description: &str,
    editability: ConfigEditability,
) -> (res: ConfigFieldDescriptor)
    ensures
        descriptor_view(res) == optional_text_row(section.key@, section.label@, key@, label@, description@, editability.in_setup, editability.in_runtime),
        res.default_value == SettingValue::Null,
{
    ConfigFieldDescriptor {
        key: to_owned_string(key),
        label: to_owned_string(label),
        description: to_owned_string(description),
        section_key: to_owned_string(section.key),
        section_label: to_owned_string(section.label),
        field_type: ConfigFieldType::String,
        required: false,
        min_value: None,
        editable_in_setup: editability.in_setup,
        editable_in_runtime: editability.in_runtime,
        default_value: SettingValue::Null,
    }
}

/// Builds a number field with a minimum of one.
pub fn config_number_field(
    section: ConfigSection<'_>,
    key: &str,
    label: &str,
    description: &str,
    default_value: u64,
    editability: ConfigEditability,
) -> (res: ConfigFieldDescriptor)
    ensures
        descriptor_view(res) == number_row(section.key@, section.label@, key@, label@, description@, default_value, editability.in_setup, editability.in_runtime),
{
    ConfigFieldDescriptor {
        key: to_owned_string(key),
        label: to_owned_string(label),
        description: to_owned_string(description),
        section_key: to_owned_string(section.key),
        section_label: to_owned_string(section.label),
        field_type: ConfigFieldType::Number,
        required: true,
        min_value: Some(1),
        editable_in_setup: editability.in_setup,
        editable_in_runtime: editability.in_runtime,
        default_value: SettingValue::UInt(default_value),
    }
}

/// Builds a boolean field.
pub fn config_bool_field(
    section: ConfigSection<'_>,
    key: &str,
    label: &str,
    description: &str,
    default_value: bool,
    editability: ConfigEditability,
) -> (res: ConfigFieldDescriptor)
    ensures
        descriptor_view(res) == bool_row(section.key@, section.label@, key@, label@, description@, default_value, editability.in_setup, editability.in_runtime),
{
    ConfigFieldDescriptor {
        key: to_owned_string(key),
        label: to_owned_string(label),
        description: to_owned_string(description),
        section_key: to_owned_string(section.key),
        section_label: to_owned_string(section.label),
        field_type: ConfigFieldType::Boolean,
        required: true,
        min_value: None,
        editable_in_setup: editability.in_setup,
        editable_in_runtime: editability.in_runtime,
        default_value: SettingValue::Bool(default_value),
    }
}


/// The editable fields of the daemon configuration, in schema order.
pub fn editable_config_fields() -> (fields: Vec<ConfigFieldDescriptor>)
    ensures
        fields@.len() == SCHEMA_LEN,
        forall|i: int| 0 <= i < SCHEMA_LEN ==> descriptor_view(#[trigger] fields@[i]) == schema_row(i),
        forall|i: int|
            0 <= i < SCHEMA_LEN && !(#[trigger] fields@[i]).required ==> fields@[i].default_value == SettingValue::Null,
{
    let mut fields: Vec<ConfigFieldDescriptor> = Vec::new();
    fields.push(config_string_field(
        ConfigSection { key: "server", label: "Server" },
        "listen_addr",
        "Listen address",
        "Daemon HTTP listen address.",
        "0.0.0.0:8080",
        ConfigEditability { in_setup: true, in_runtime: false },
    ));
    assert(descriptor_view(fields@[0]) == schema_row(0));
    fields.push(config_string_field(
        ConfigSection { key: "storage", label: "Storage" },
        "runtime_root",
        "Runtime root",
        "Root directory for database, package metadata, repo files, and jobs.",
        "/var/lib/synforge",
        ConfigEditability { in_setup: true, in_runtime: false },
    ));
    assert(descriptor_view(fields@[1]) == schema_row(1));
    fields.push(config_string_field(
        ConfigSection { key: "server", label: "Server" },
        "public_base_url",
        "Public base URL",
        "Base URL used in generated links and repo setup.",
        "http://localhost:8080",
        ConfigEditability { in_setup: true, in_runtime: true },
    ));
    assert(descriptor_view(fields@[2]) == schema_row(2));
    fields.push(config_string_field(
        ConfigSection { key: "worker", label: "Worker" },
        "worker_image",
        "Worker image",
        "Docker image used for spawned worker containers.",
        "synforge-worker-fedora:latest",
        ConfigEditability { in_setup: true, in_runtime: true },
    ));
    assert(descriptor_view(fields@[3]) == schema_row(3));
    fields.push(config_optional_string_field(
        ConfigSection { key: "worker", label: "Worker" },
        "worker_jobs_root",
        "Worker jobs root",
        "Host path used for per-job worker mock bind mounts.",
        ConfigEditability { in_setup: true, in_runtime: true },
    ));
    assert(descriptor_view(fields@[4]) == schema_row(4));
    fields.push(config_bool_field(
        ConfigSection { key: "signing", label: "Signing" },
        "signing_enabled",
        "Repository GPG signing enabled",
        "Enable package signing for repository artifacts.",
        false,
        ConfigEditability { in_setup: false, in_runtime: false },
    ));
    assert(descriptor_view(fields@[5]) == schema_row(5));
    fields.push(config_optional_string_field(
        ConfigSection { key: "signing", label: "Signing" },
        "signing_key_id",
        "Repository GPG key ID",
        "Configured signing key identifier. Managed by the dedicated signing APIs.",
        ConfigEditability { in_setup: false, in_runtime: false },
    ));
    assert(descriptor_view(fields@[6]) == schema_row(6));
    fields.push(config_number_field(
        ConfigSection { key: "build", label: "Build" },
        "max_concurrent_builds",
        "Max concurrent builds",
        "Maximum number of active builds at once.",
        2,
        ConfigEditability { in_setup: true, in_runtime: true },
    ));
    assert(descriptor_view(fields@[7]) == schema_row(7));
    fields.push(config_number_field(
        ConfigSection { key: "database", label: "Database" },
        "db_pool_size",
        "DB pool size",
        "Number of database connection pool slots.",
        5,
        ConfigEditability { in_setup: true, in_runtime: false },
    ));
    assert(descriptor_view(fields@[8]) == schema_row(8));
    fields.push(config_number_field(
        ConfigSection { key: "scheduler", label: "Scheduler" },
        "queue_buffer_size",
        "Queue buffer size",
        "In-memory queued build channel capacity.",
        128,
        ConfigEditability { in_setup: true, in_runtime: true },
    ));
    assert(descriptor_view(fields@[9]) == schema_row(9));
    fields.push(config_number_field(
        ConfigSection { key: "scheduler", label: "Scheduler" },
        "poller_tick_seconds",
        "Poller tick seconds",
        "How often package polling wakes up.",
        30,
        ConfigEditability { in_setup: true, in_runtime: true },
    ));
    assert(descriptor_view(fields@[10]) == schema_row(10));
    fields.push(config_number_field(
        ConfigSection { key: "worker", label: "Worker" },
        "worker_result_timeout_seconds",
        "Worker result timeout seconds",
        "Timeout while waiting for worker completion after request dispatch.",
        10,
        ConfigEditability { in_setup: true, in_runtime: true },
    ));
    assert(descriptor_view(fields@[11]) == schema_row(11));
    fields.push(config_number_field(
        ConfigSection { key: "worker", label: "Worker" },
        "worker_socket_timeout_seconds",
        "Worker socket timeout seconds",
        "Socket timeout used for worker protocol I/O.",
        30,
        ConfigEditability { in_setup: true, in_runtime: true },
    ));
    assert(descriptor_view(fields@[12]) == schema_row(12));
    fields.push(config_number_field(
        ConfigSection { key: "git", label: "Git" },
        "git_operation_timeout_seconds",
        "Git operation timeout seconds",
        "Timeout applied to git inspection and sync commands.",
        600,
        ConfigEditability { in_setup: true, in_runtime: true },
    ));
    assert(descriptor_view(fields@[13]) == schema_row(13));
    fields.push(config_number_field(
        ConfigSection { key: "cache", label: "Cache" },
        "mock_chroot_cache_ttl_seconds",
        "Mock chroot cache TTL seconds",
        "How long to cache discovered mock chroots before refreshing.",
        300,
        ConfigEditability { in_setup: true, in_runtime: true },
    ));
    assert(descriptor_view(fields@[14]) == schema_row(14));
    fields.push(config_number_field(
        ConfigSection { key: "cache", label: "Cache" },
        "git_mirror_refresh_ttl_seconds",
        "Git mirror refresh TTL seconds",
        "Maximum age before a cached git mirror is refreshed from origin.",
        300,
        ConfigEditability { in_setup: true, in_runtime: true },
    ));
    assert(descriptor_view(fields@[15]) == schema_row(15));
    fields.push(config_number_field(
        ConfigSection { key: "cache", label: "Cache" },
        "git_mirror_max_unused_seconds",
        "Git mirror max unused seconds",
        "Remove cached git mirrors that have not been used within this window.",
        604_800,
        ConfigEditability { in_setup: true, in_runtime: true },
    ));
    assert(descriptor_view(fields@[16]) == schema_row(16));
    assert forall|i: int|
        0 <= i < SCHEMA_LEN && !(#[trigger] fields@[i]).required implies fields@[i].default_value
        == SettingValue::Null by {
        assert(descriptor_view(fields@[i]) == schema_row(i));
    }
    fields
}


/// Row `i` of the schema describes configuration field `i + 1`.
pub proof fn lemma_schema_keys()
    ensures
        forall|i: int| 0 <= i < SCHEMA_LEN ==> #[trigger] schema_row(i).key == field_key(i + 1),
{
}

/// The schema row that describes `key`, when there is one.
pub open spec fn schema_index(key: Seq<char>) -> int {
    choose|i: int| 0 <= i < SCHEMA_LEN && schema_row(i).key == key
}

/// Why an API refuses to edit `key`: setup may edit the fields marked
/// editable in setup, the runtime settings API those marked editable at
/// runtime.
pub open spec fn edit_key_error(key: Seq<char>, during_setup: bool) -> Option<SettingErrorKind> {
    if !is_schema_key(key) {
        Some(SettingErrorKind::Unknown)
    } else if during_setup {
        if schema_row(schema_index(key)).in_setup {
            None
        } else {
            Some(SettingErrorKind::NotEditableDuringSetup)
        }
    } else {
        if schema_row(schema_index(key)).in_runtime {
            None
        } else {
            Some(SettingErrorKind::NotEditableAtRuntime)
        }
    }
}

/// The first key of a batch, in batch order, that the API refuses.
pub open spec fn edit_batch_error(settings: Seq<(String, SettingValue)>, during_setup: bool) -> Option<
    (SettingErrorKind, Seq<char>),
>
    decreases settings.len(),
{
    if settings.len() == 0 {
        None
    } else {
        match edit_key_error(settings[0].0@, during_setup) {
            Some(kind) => Some((kind, settings[0].0@)),
            None => edit_batch_error(settings.drop_first(), during_setup),
        }
    }
}

fn check_edit_key(fields: &Vec<ConfigFieldDescriptor>, key: &str, during_setup: bool) -> (res: Option<
    SettingErrorKind,
>)
    requires
        fields@.len() == SCHEMA_LEN,
        forall|i: int| 0 <= i < SCHEMA_LEN ==> descriptor_view(#[trigger] fields@[i]) == schema_row(i),
    ensures
        res == edit_key_error(key@, during_setup),
{
    proof {
        lemma_field_keys_distinct();
        lemma_schema_keys();
    }
    let mut i: usize = 0;
    while i < fields.len()
        invariant
            fields@.len() == SCHEMA_LEN,
            forall|j: int| 0 <= j < SCHEMA_LEN ==> descriptor_view(#[trigger] fields@[j]) == schema_row(j),
            i <= SCHEMA_LEN,
            forall|j: int| 0 <= j < i ==> schema_row(j).key != key@,
        decreases SCHEMA_LEN - i,
    {
        if str_eq(fields[i].key.as_str(), key) {
            proof {
                lemma_field_keys_distinct();
                lemma_schema_keys();
                assert(schema_row(i as int).key == key@);
                assert(is_schema_key(key@)) by {
                    assert(key@ == field_key(i + 1));
                }
                let k = schema_index(key@);
                assert(0 <= k < SCHEMA_LEN && schema_row(k).key == key@);
                assert(schema_row(k).key == field_key(k + 1));
                assert(schema_row(i as int).key == field_key(i + 1));
                assert(field_key(k + 1) == field_key(i + 1));
                if k != i {
                    assert(field_key(k + 1) != field_key(i + 1));
                }
                assert(k == i);
            }
            let editable = if during_setup {
                fields[i].editable_in_setup
            } else {
                fields[i].editable_in_runtime
            };
            if editable {
                return None;
            } else if during_setup {
                return Some(SettingErrorKind::NotEditableDuringSetup);
            } else {
                return Some(SettingErrorKind::NotEditableAtRuntime);
            }
        }
        i = i + 1;
    }
    proof {
        lemma_schema_keys();
        if is_schema_key(key@) {
            let j = choose|j: int| 1 <= j <= 17 && key@ == #[trigger] field_key(j);
            assert(schema_row(j - 1).key == key@);
        }
    }
    Some(SettingErrorKind::Unknown)
}

fn ensure_editable_keys(settings: &[(String, SettingValue)], during_setup: bool) -> (res: Result<(), SettingError>)
    ensures
        match res {
            Ok(()) => edit_batch_error(settings@, during_setup) is None,
            Err(e) => edit_batch_error(settings@, during_setup) == Some((e.kind, e.key@)),
        },
{
    let fields = editable_config_fields();
    let ghost s = settings@;
    let mut k: usize = 0;
    assert(s.skip(0) =~= s);
    while k < settings.len()
        invariant
            s == settings@,
            k <= s.len(),
            fields@.len() == SCHEMA_LEN,
            forall|i: int| 0 <= i < SCHEMA_LEN ==> descriptor_view(#[trigger] fields@[i]) == schema_row(i),
            edit_batch_error(s, during_setup) == edit_batch_error(s.skip(k as int), during_setup),
        decreases s.len() - k,
    {
        assert(s.skip(k as int).drop_first() =~= s.skip(k as int + 1));
        let key = settings[k].0.as_str();
        if let Some(kind) = check_edit_key(&fields, key, during_setup) {
            return Err(SettingError { kind, key: to_owned_string(key) });
        }
        k = k + 1;
    }
    Ok(())
}

/// Checks that every key of a runtime settings update names a field that
/// may be edited at runtime; the first key, in batch order, that does not is
/// reported.
pub fn ensure_runtime_editable_keys(settings: &[(String, SettingValue)]) -> (res: Result<(), SettingError>)
    requires
        keys_distinct(settings@),
    ensures
        match res {
            Ok(()) => edit_batch_error(settings@, false) is None,
            Err(e) => edit_batch_error(settings@, false) == Some((e.kind, e.key@)),
        },
{
    ensure_editable_keys(settings, false)
}

/// Checks that every key of a setup request names a field that may be set
/// during setup; the first key, in batch order, that does not is reported.
pub fn ensure_setup_editable_keys(settings: &[(String, SettingValue)]) -> (res: Result<(), SettingError>)
    requires
        keys_distinct(settings@),
    ensures
        match res {
            Ok(()) => edit_batch_error(settings@, true) is None,
            Err(e) => edit_batch_error(settings@, true) == Some((e.kind, e.key@)),
        },
{
    ensure_editable_keys(settings, true)
}

} // verus!
