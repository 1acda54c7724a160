//! Blueprint schema types and validation.
//!
//! A blueprint describes a complete sandbox: image, policy, providers, MCP
//! servers, port forwards, resources and uploads. Validation is a pure
//! function that collects every error and warning in one pass, in the order
//! in which the sections are checked.

use vstd::prelude::*;
use crate::ip::{is_ipv4_exec, is_ipv4_text, is_ipv6_exec, is_ipv6_text};
use crate::numparse::{parse_u16, parse_u64, parse_unsigned};
use crate::text::{
    chars_of, concat2, concat3, concat5, contains_seq, decimal, find, find_exec, rfind, rfind_exec,
    str_contains, str_eq, str_starts_with, subvec, to_owned_string, u64_to_decimal, utf8_len,
};

verus! {

// ---------------------------------------------------------------------------
// Schema types
// ---------------------------------------------------------------------------

/// A parsed blueprint. Every field is optional so that validation can report
/// what is missing; `extra` holds the names of unknown top-level keys, in
/// document order.
#[derive(Debug)]
pub struct Blueprint {
    /// Must be `darkshell/v1`.
    pub api_version: Option<String>,
    /// Must be `Blueprint`.
    pub kind: Option<String>,
    /// Blueprint metadata (name, description).
    pub metadata: Option<BlueprintMetadata>,
    /// Blueprint specification (image, policy, providers, etc.).
    pub spec: Option<BlueprintSpec>,
    /// Unknown top-level keys.
    pub extra: Vec<String>,
}

/// Blueprint metadata.
#[derive(Debug)]
pub struct BlueprintMetadata {
    /// Required. Blueprint identifier.
    pub name: Option<String>,
    /// Optional. Human-readable description.
    pub description: Option<String>,
    /// Unknown keys.
    pub extra: Vec<String>,
}

/// Blueprint specification — the desired sandbox configuration.
#[derive(Debug)]
pub struct BlueprintSpec {
    /// Required. Container image reference.
    pub image: Option<String>,
    /// Optional. Path to policy YAML file.
    pub policy: Option<String>,
    /// Optional. Provider names to attach.
    pub providers: Option<Vec<String>>,
    /// Optional. MCP servers to connect.
    pub mcp_servers: Option<Vec<McpServerEntry>>,
    /// Optional. Port forwards in `[bind:]port` format.
    pub forwards: Option<Vec<String>>,
    /// Optional. Resource limits.
    pub resources: Option<ResourceSpec>,
    /// Optional. Files to upload on creation in `local:remote` format.
    pub upload: Option<Vec<String>>,
    /// Unknown keys.
    pub extra: Vec<String>,
}

/// An MCP server entry within a blueprint.
#[derive(Debug)]
pub struct McpServerEntry {
    /// Required. Server identifier.
    pub name: Option<String>,
    /// Required. Transport type.
    pub transport: Option<McpTransport>,
    /// Required for bridge/in-sandbox. Server launch command.
    pub command: Option<String>,
    /// Optional. Environment variable names for credentials.
    pub env: Option<Vec<String>>,
    /// Required for streamable-http. Server endpoint URL.
    pub url: Option<String>,
    /// Unknown keys.
    pub extra: Vec<String>,
}

/// Transport type for MCP servers.
#[derive(Debug, Clone, Copy, PartialEq, Eq)]
pub enum McpTransport {
    /// stdio bridge running on the host.
    Bridge,
    /// Server running inside the sandbox.
    InSandbox,
    /// HTTP endpoint accessible via URL.
    StreamableHttp,
}

/// The wire name of a transport.
pub open spec fn transport_name(t: McpTransport) -> Seq<char> {
    match t {
        McpTransport::Bridge => "bridge"@,
        McpTransport::InSandbox => "in-sandbox"@,
        McpTransport::StreamableHttp => "streamable-http"@,
    }
}

impl McpTransport {
    /// The wire name of the transport (`bridge`, `in-sandbox`,
    /// `streamable-http`), as it is displayed.
    pub fn as_str(&self) -> (r: &'static str)
        ensures
            r@ == transport_name(*self),
    {
        match self {
            McpTransport::Bridge => "bridge",
            McpTransport::InSandbox => "in-sandbox",
            McpTransport::StreamableHttp => "streamable-http",
        }
    }
}

/// Resource limits for the sandbox.
#[derive(Debug)]
pub struct ResourceSpec {
    /// CPU quantity in Kubernetes format (e.g., "2", "500m").
    pub cpu: Option<String>,
    /// Memory quantity in Kubernetes format (e.g., "4Gi", "512Mi").
    pub memory: Option<String>,
    /// Unknown keys.
    pub extra: Vec<String>,
}

// ---------------------------------------------------------------------------
// Validation types
// ---------------------------------------------------------------------------

/// A validation error with field path and message.
#[derive(Debug)]
pub struct ValidationError {
    /// Dot-separated path to the field (e.g., `spec.mcp_servers[0].command`).
    pub field: String,
    /// Human-readable error message with fix suggestion.
    pub message: String,
}

/// A validation warning (e.g., unknown fields).
#[derive(Debug)]
pub struct ValidationWarning {
    /// Dot-separated path to the field.
    pub field: String,
    /// Human-readable warning message.
    pub message: String,
}

/// Result of blueprint validation.
#[derive(Debug)]
pub struct ValidationResult {
    /// Errors that must be fixed before the blueprint can be used.
    pub errors: Vec<ValidationError>,
    /// Warnings that don't prevent usage but may indicate issues.
    pub warnings: Vec<ValidationWarning>,
}

impl ValidationError {
    /// The error as it is displayed: `field: message`.
    pub fn to_display_string(&self) -> (r: String)
        ensures
            r@ == self.field@ + ": "@ + self.message@,
    {
        concat3(self.field.as_str(), ": ", self.message.as_str())
    }
}

/// A reported issue: field path and message.
pub type Issue = (Seq<char>, Seq<char>);

/// The issues held by a list of errors.
pub open spec fn error_issues(v: Seq<ValidationError>) -> Seq<Issue> {
    Seq::new(v.len(), |i: int| (v[i].field@, v[i].message@))
}

/// The issues held by a list of warnings.
pub open spec fn warning_issues(v: Seq<ValidationWarning>) -> Seq<Issue> {
    Seq::new(v.len(), |i: int| (v[i].field@, v[i].message@))
}

fn push_error(errors: &mut Vec<ValidationError>, field: String, message: String)
    ensures
        error_issues(final(errors)@) == error_issues(old(errors)@).push((field@, message@)),
{
    let ghost f = field@;
    let ghost m = message@;
    errors.push(ValidationError { field, message });
    assert(error_issues(errors@) =~= error_issues(old(errors)@).push((f, m)));
}

fn push_warning(warnings: &mut Vec<ValidationWarning>, field: String, message: String)
    ensures
        warning_issues(final(warnings)@) == warning_issues(old(warnings)@).push((field@, message@)),
{
    let ghost f = field@;
    let ghost m = message@;
    warnings.push(ValidationWarning { field, message });
    assert(warning_issues(warnings@) =~= warning_issues(old(warnings)@).push((f, m)));
}

// ---------------------------------------------------------------------------
// Unknown fields
// ---------------------------------------------------------------------------

/// The path of an unknown key under `parent` (the bare key at top level).
pub open spec fn child_path(parent: Seq<char>, key: Seq<char>) -> Seq<char> {
    if parent.len() == 0 {
        key
    } else {
        parent + "."@ + key
    }
}

/// The warning for one unknown key.
pub open spec fn unknown_field_issue(parent: Seq<char>, key: Seq<char>) -> Issue {
    let field = child_path(parent, key);
    (
        field,
        "Unknown field '"@ + field
            + "'. This field is not recognized by the current schema version and will be ignored. If this is intentional, you may need a newer version of DarkShell."@,
    )
}

/// Warnings for the unknown keys `keys[0..n]` under `parent`.
pub open spec fn unknown_field_issues(keys: Seq<String>, parent: Seq<char>, n: int) -> Seq<Issue>
    decreases n,
{
    if n <= 0 {
        Seq::empty()
    } else {
        unknown_field_issues(keys, parent, n - 1).push(unknown_field_issue(parent, keys[n - 1]@))
    }
}

/// Warnings for all unknown keys under `parent`.
pub open spec fn unknown_warnings(keys: Seq<String>, parent: Seq<char>) -> Seq<Issue> {
    unknown_field_issues(keys, parent, keys.len() as int)
}

fn collect_unknown_field_warnings(
    extra: &Vec<String>,
    parent_path: &str,
    warnings: &mut Vec<ValidationWarning>,
)
    ensures
        warning_issues(final(warnings)@) == warning_issues(old(warnings)@) + unknown_warnings(
            extra@,
            parent_path@,
        ),
{
    let mut i: usize = 0;
    assert(warning_issues(warnings@) =~= warning_issues(old(warnings)@) + unknown_field_issues(
        extra@,
        parent_path@,
        0,
    ));
    while i < extra.len()
        invariant
            i <= extra@.len(),
            warning_issues(warnings@) == warning_issues(old(warnings)@) + unknown_field_issues(
                extra@,
                parent_path@,
                i as int,
            ),
        decreases extra.len() - i,
    {
        let key = extra[i].as_str();
        let field = if parent_path.is_empty() {
            to_owned_string(key)
        } else {
            concat3(parent_path, ".", key)
        };
        let message = concat3(
            "Unknown field '",
            field.as_str(),
            "'. This field is not recognized by the current schema version and will be ignored. If this is intentional, you may need a newer version of DarkShell.",
        );
        push_warning(warnings, field, message);
        i = i + 1;
    }
}


// ---------------------------------------------------------------------------
// apiVersion, kind, metadata
// ---------------------------------------------------------------------------

/// Errors about `apiVersion`: it must be present and equal to `darkshell/v1`.
pub open spec fn api_version_issues(b: &Blueprint) -> Seq<Issue> {
    match &b.api_version {
        None => seq![
            (
                "apiVersion"@,
                "Required field 'apiVersion' is missing. Expected: 'darkshell/v1'."@,
            ),
        ],
        Some(v) => if v@ != "darkshell/v1"@ {
            seq![
                (
                    "apiVersion"@,
                    "Unsupported apiVersion '"@ + v@
                        + "'. Expected 'darkshell/v1'. You may need to upgrade DarkShell to support this version."@,
                ),
            ]
        } else {
            Seq::empty()
        },
    }
}

fn validate_api_version(blueprint: &Blueprint, errors: &mut Vec<ValidationError>)
    ensures
        error_issues(final(errors)@) == error_issues(old(errors)@) + api_version_issues(blueprint),
{
    match &blueprint.api_version {
        None => {
            push_error(
                errors,
                to_owned_string("apiVersion"),
                to_owned_string("Required field 'apiVersion' is missing. Expected: 'darkshell/v1'."),
            );
        },
        Some(version) => {
            if !str_eq(version.as_str(), "darkshell/v1") {
                let m = concat3(
                    "Unsupported apiVersion '",
                    version.as_str(),
                    "'. Expected 'darkshell/v1'. You may need to upgrade DarkShell to support this version.",
                );
                push_error(errors, to_owned_string("apiVersion"), m);
            }
        },
    }
    assert(error_issues(errors@) =~= error_issues(old(errors)@) + api_version_issues(blueprint));
}

/// Errors about `kind`: it must be present and equal to `Blueprint`.
pub open spec fn kind_issues(b: &Blueprint) -> Seq<Issue> {
    match &b.kind {
        None => seq![("kind"@, "Required field 'kind' is missing. Expected: 'Blueprint'."@)],
        Some(k) => if k@ != "Blueprint"@ {
            seq![("kind"@, "Invalid kind '"@ + k@ + "'. Expected: 'Blueprint'."@)]
        } else {
            Seq::empty()
        },
    }
}

fn validate_kind(blueprint: &Blueprint, errors: &mut Vec<ValidationError>)
    ensures
        error_issues(final(errors)@) == error_issues(old(errors)@) + kind_issues(blueprint),
{
    match &blueprint.kind {
        None => {
            push_error(
                errors,
                to_owned_string("kind"),
                to_owned_string("Required field 'kind' is missing. Expected: 'Blueprint'."),
            );
        },
        Some(kind) => {
            if !str_eq(kind.as_str(), "Blueprint") {
                let m = concat3("Invalid kind '", kind.as_str(), "'. Expected: 'Blueprint'.");
                push_error(errors, to_owned_string("kind"), m);
            }
        },
    }
    assert(error_issues(errors@) =~= error_issues(old(errors)@) + kind_issues(blueprint));
}

/// Lowercase ASCII letter or ASCII digit.
pub open spec fn is_lower_alnum(c: char) -> bool {
    ('a' <= c && c <= 'z') || ('0' <= c && c <= '9')
}

/// Character allowed in sandbox names: `[a-z0-9-]`.
pub open spec fn is_name_char(c: char) -> bool {
    is_lower_alnum(c) || c == '-'
}

/// Every character is allowed in sandbox names.
pub open spec fn all_name_chars(s: Seq<char>) -> bool {
    forall|i: int| 0 <= i < s.len() ==> is_name_char(#[trigger] s[i])
}

fn all_name_chars_exec(v: &Vec<char>) -> (b: bool)
    ensures
        b == all_name_chars(v@),
{
    let mut i: usize = 0;
    while i < v.len()
        invariant
            i <= v@.len(),
            forall|j: int| 0 <= j < i ==> is_name_char(#[trigger] v@[j]),
        decreases v.len() - i,
    {
        let c = v[i];
        if !(('a' <= c && c <= 'z') || ('0' <= c && c <= '9') || c == '-') {
            return false;
        }
        i = i + 1;
    }
    true
}

/// Errors about `metadata.name`.
pub open spec fn name_issues(name: Option<String>) -> Seq<Issue> {
    match name {
        None => seq![("metadata.name"@, "Required field 'metadata.name' is missing."@)],
        Some(n) => if n@.len() == 0 {
            seq![("metadata.name"@, "Blueprint name must not be empty."@)]
        } else {
            let too_long: Seq<Issue> = if utf8_len(n@) > 63 {
                seq![
                    (
                        "metadata.name"@,
                        "Blueprint name '"@ + n@ + "' is "@ + decimal(utf8_len(n@))
                            + " characters long. Maximum length is 63 characters."@,
                    ),
                ]
            } else {
                Seq::empty()
            };
            let chars: Seq<Issue> = if !all_name_chars(n@) {
                seq![
                    (
                        "metadata.name"@,
                        "Blueprint name '"@ + n@
                            + "' contains invalid characters. Sandbox names must match [a-z0-9]([a-z0-9-]*[a-z0-9])?."@,
                    ),
                ]
            } else if !is_lower_alnum(n@[0]) || !is_lower_alnum(n@.last()) {
                seq![
                    (
                        "metadata.name"@,
                        "Blueprint name '"@ + n@
                            + "' must start and end with an alphanumeric character [a-z0-9]. Leading or trailing hyphens are not allowed."@,
                    ),
                ]
            } else {
                Seq::empty()
            };
            too_long + chars
        },
    }
}

/// Errors about the metadata section.
pub open spec fn metadata_issues(b: &Blueprint) -> Seq<Issue> {
    match &b.metadata {
        None => seq![("metadata"@, "Required section 'metadata' is missing."@)],
        Some(m) => name_issues(m.name),
    }
}

/// Warnings about the metadata section.
pub open spec fn metadata_warnings(b: &Blueprint) -> Seq<Issue> {
    match &b.metadata {
        None => Seq::empty(),
        Some(m) => unknown_warnings(m.extra@, "metadata"@),
    }
}

/// Every string of the blueprint whose byte length a message reports fits in
/// `usize` (always so for strings in memory).
pub open spec fn lengths_fit(b: &Blueprint) -> bool {
    b.metadata matches Some(m) ==> (m.name matches Some(n) ==> utf8_len(n@) <= usize::MAX)
}

fn validate_metadata(
    blueprint: &Blueprint,
    errors: &mut Vec<ValidationError>,
    warnings: &mut Vec<ValidationWarning>,
)
    requires
        lengths_fit(blueprint),
    ensures
        error_issues(final(errors)@) == error_issues(old(errors)@) + metadata_issues(blueprint),
        warning_issues(final(warnings)@) == warning_issues(old(warnings)@) + metadata_warnings(
            blueprint,
        ),
{
    match &blueprint.metadata {
        None => {
            push_error(
                errors,
                to_owned_string("metadata"),
                to_owned_string("Required section 'metadata' is missing."),
            );
            assert(warning_issues(warnings@) =~= warning_issues(old(warnings)@) + metadata_warnings(
                blueprint,
            ));
        },
        Some(metadata) => {
            collect_unknown_field_warnings(&metadata.extra, "metadata", warnings);
            match &metadata.name {
                None => {
                    push_error(
                        errors,
                        to_owned_string("metadata.name"),
                        to_owned_string("Required field 'metadata.name' is missing."),
                    );
                },
                Some(name) => {
                    if name.as_str().is_empty() {
                        push_error(
                            errors,
                            to_owned_string("metadata.name"),
                            to_owned_string("Blueprint name must not be empty."),
                        );
                    } else {
                        let ghost before = error_issues(errors@);
                        let n = crate::text::byte_len(name.as_str());
                        if n > 63 {
                            let count = u64_to_decimal(n as u64);
                            let m = concat5(
                                "Blueprint name '",
                                name.as_str(),
                                "' is ",
                                count.as_str(),
                                " characters long. Maximum length is 63 characters.",
                            );
                            push_error(errors, to_owned_string("metadata.name"), m);
                        }
                        let ghost mid = error_issues(errors@);
                        let v = chars_of(name.as_str());
                        if !all_name_chars_exec(&v) {
                            let m = concat3(
                                "Blueprint name '",
                                name.as_str(),
                                "' contains invalid characters. Sandbox names must match [a-z0-9]([a-z0-9-]*[a-z0-9])?.",
                            );
                            push_error(errors, to_owned_string("metadata.name"), m);
                        } else {
                            let first = v[0];
                            let last = v[v.len() - 1];
                            if !(('a' <= first && first <= 'z') || ('0' <= first && first <= '9'))
                                || !(('a' <= last && last <= 'z') || ('0' <= last && last <= '9')) {
                                let m = concat3(
                                    "Blueprint name '",
                                    name.as_str(),
                                    "' must start and end with an alphanumeric character [a-z0-9]. Leading or trailing hyphens are not allowed.",
                                );
                                push_error(errors, to_owned_string("metadata.name"), m);
                            }
                        }
                        assert(error_issues(errors@) =~= before + name_issues(metadata.name));
                    }
                },
            }
            assert(error_issues(errors@) =~= error_issues(old(errors)@) + metadata_issues(
                blueprint,
            ));
        },
    }
}


// ---------------------------------------------------------------------------
// Kubernetes quantities
// ---------------------------------------------------------------------------

/// Parses as a `u64` with a value above zero.
pub open spec fn positive_u64_text(s: Seq<char>) -> bool {
    parse_unsigned(s, u64::MAX as nat) matches Some(v) && v > 0
}

fn positive_u64_exec(v: &Vec<char>) -> (b: bool)
    ensures
        b == positive_u64_text(v@),
{
    match parse_u64(v) {
        Some(n) => n > 0,
        None => false,
    }
}

/// A valid Kubernetes CPU quantity: millicores (`<positive integer>m`), or a
/// core count; `cores_ok` is whether the text parses as a positive finite
/// `f64`, which decides the core-count form.
pub open spec fn valid_k8s_cpu(s: Seq<char>, cores_ok: bool) -> bool {
    if s.len() == 0 {
        false
    } else if s.last() == 'm' {
        positive_u64_text(s.drop_last())
    } else {
        cores_ok
    }
}

/// Validate a Kubernetes CPU quantity.
///
/// Valid formats: integer ("2"), decimal ("0.5"), millicores ("500m"). The
/// integer and decimal forms are decided by `cores_ok`, the result of parsing
/// `s` as a positive finite floating-point number.
pub fn is_valid_k8s_cpu(s: &str, cores_ok: bool) -> (b: bool)
    ensures
        b == valid_k8s_cpu(s@, cores_ok),
{
    let v = chars_of(s);
    if v.len() == 0 {
        return false;
    }
    if v[v.len() - 1] == 'm' {
        let num = subvec(&v, 0, v.len() - 1);
        assert(num@ =~= v@.drop_last());
        positive_u64_exec(&num)
    } else {
        cores_ok
    }
}

/// Unit letter of a memory suffix: K, M, G, T, P or E.
pub open spec fn is_unit_letter(c: char) -> bool {
    c == 'K' || c == 'M' || c == 'G' || c == 'T' || c == 'P' || c == 'E'
}

/// A valid Kubernetes memory quantity: a positive integer, optionally
/// followed by a binary suffix (Ki, Mi, Gi, Ti, Pi, Ei) or a decimal suffix
/// (K, M, G, T, P, E).
pub open spec fn valid_k8s_memory(s: Seq<char>) -> bool {
    if s.len() == 0 {
        false
    } else if s.len() >= 2 && s.last() == 'i' && is_unit_letter(s[s.len() - 2]) {
        positive_u64_text(s.take(s.len() - 2))
    } else if is_unit_letter(s.last()) {
        positive_u64_text(s.drop_last())
    } else {
        positive_u64_text(s)
    }
}

fn is_unit_letter_exec(c: char) -> (b: bool)
    ensures
        b == is_unit_letter(c),
{
    c == 'K' || c == 'M' || c == 'G' || c == 'T' || c == 'P' || c == 'E'
}

/// Validate a Kubernetes memory quantity.
pub fn is_valid_k8s_memory(s: &str) -> (b: bool)
    ensures
        b == valid_k8s_memory(s@),
{
    let v = chars_of(s);
    let n = v.len();
    if n == 0 {
        return false;
    }
    if n >= 2 && v[n - 1] == 'i' && is_unit_letter_exec(v[n - 2]) {
        let num = subvec(&v, 0, n - 2);
        assert(num@ =~= v@.take(n - 2));
        positive_u64_exec(&num)
    } else if is_unit_letter_exec(v[n - 1]) {
        let num = subvec(&v, 0, n - 1);
        assert(num@ =~= v@.drop_last());
        positive_u64_exec(&num)
    } else {
        positive_u64_exec(&v)
    }
}

// ---------------------------------------------------------------------------
// Resources
// ---------------------------------------------------------------------------

/// Errors about `spec.resources`.
pub open spec fn resources_issues(r: &ResourceSpec, cores_ok: bool) -> Seq<Issue> {
    let cpu: Seq<Issue> = match &r.cpu {
        Some(c) => if !valid_k8s_cpu(c@, cores_ok) {
            seq![
                (
                    "spec.resources.cpu"@,
                    "Invalid CPU quantity '"@ + c@
                        + "'. Valid examples: '2', '500m', '0.5', '100m'. Use integer/decimal for cores or suffix 'm' for millicores."@,
                ),
            ]
        } else {
            Seq::empty()
        },
        None => Seq::empty(),
    };
    let memory: Seq<Issue> = match &r.memory {
        Some(m) => if !valid_k8s_memory(m@) {
            seq![
                (
                    "spec.resources.memory"@,
                    "Invalid memory quantity '"@ + m@
                        + "'. Valid examples: '4Gi', '512Mi', '1G', '256M'. Use suffix: Ki, Mi, Gi, Ti, K, M, G, T."@,
                ),
            ]
        } else {
            Seq::empty()
        },
        None => Seq::empty(),
    };
    cpu + memory
}

fn validate_resources(
    resources: &ResourceSpec,
    cpu_cores_ok: bool,
    errors: &mut Vec<ValidationError>,
    warnings: &mut Vec<ValidationWarning>,
)
    ensures
        error_issues(final(errors)@) == error_issues(old(errors)@) + resources_issues(
            resources,
            cpu_cores_ok,
        ),
        warning_issues(final(warnings)@) == warning_issues(old(warnings)@) + unknown_warnings(
            resources.extra@,
            "spec.resources"@,
        ),
{
    collect_unknown_field_warnings(&resources.extra, "spec.resources", warnings);
    if let Some(cpu) = &resources.cpu {
        if !is_valid_k8s_cpu(cpu.as_str(), cpu_cores_ok) {
            let m = concat3(
                "Invalid CPU quantity '",
                cpu.as_str(),
                "'. Valid examples: '2', '500m', '0.5', '100m'. Use integer/decimal for cores or suffix 'm' for millicores.",
            );
            push_error(errors, to_owned_string("spec.resources.cpu"), m);
        }
    }
    let ghost mid = error_issues(errors@);
    if let Some(memory) = &resources.memory {
        if !is_valid_k8s_memory(memory.as_str()) {
            let m = concat3(
                "Invalid memory quantity '",
                memory.as_str(),
                "'. Valid examples: '4Gi', '512Mi', '1G', '256M'. Use suffix: Ki, Mi, Gi, Ti, K, M, G, T.",
            );
            push_error(errors, to_owned_string("spec.resources.memory"), m);
        }
    }
    assert(error_issues(errors@) =~= error_issues(old(errors)@) + resources_issues(
        resources,
        cpu_cores_ok,
    ));
}

// ---------------------------------------------------------------------------
// Uploads
// ---------------------------------------------------------------------------

/// Field path of the `i`-th upload spec.
pub open spec fn upload_field(i: int) -> Seq<char> {
    "spec.upload["@ + decimal(i as nat) + "]"@
}

/// The system directory that a remote upload path targets, if any
/// (`/etc`, `/usr`, `/bin`, `/sbin`, checked in that order).
pub open spec fn targeted_system_dir(remote: Seq<char>) -> Option<Seq<char>> {
    if remote == "/etc"@ || ("/etc"@ + "/"@).is_prefix_of(remote) {
        Some("/etc"@)
    } else if remote == "/usr"@ || ("/usr"@ + "/"@).is_prefix_of(remote) {
        Some("/usr"@)
    } else if remote == "/bin"@ || ("/bin"@ + "/"@).is_prefix_of(remote) {
        Some("/bin"@)
    } else if remote == "/sbin"@ || ("/sbin"@ + "/"@).is_prefix_of(remote) {
        Some("/sbin"@)
    } else {
        None
    }
}

/// Errors about the `i`-th upload spec `u`.
pub open spec fn upload_issues(u: Seq<char>, i: int) -> Seq<Issue> {
    let field = upload_field(i);
    match find(u, ':') {
        None => seq![
            (field, "Upload spec must be in format 'local:remote'. Got: '"@ + u + "'."@),
        ],
        Some(k) => {
            let local = u.take(k);
            let remote = u.skip(k + 1);
            let traversal: Seq<Issue> = if contains_seq(local, ".."@) {
                seq![
                    (
                        field,
                        "Upload local path contains '..'. Path traversal is not allowed. Use a direct relative path instead. Got: '"@
                            + local + "'."@,
                    ),
                ]
            } else {
                Seq::empty()
            };
            let system: Seq<Issue> = match targeted_system_dir(remote) {
                Some(d) => seq![
                    (
                        field,
                        "Upload remote path '"@ + remote + "' targets system directory '"@ + d
                            + "'. Writing to system directories is not allowed."@,
                    ),
                ],
                None => Seq::empty(),
            };
            traversal + system
        },
    }
}

/// Warnings about the `i`-th upload spec `u`.
pub open spec fn upload_warnings(u: Seq<char>, i: int) -> Seq<Issue> {
    match find(u, ':') {
        Some(k) => if "/"@.is_prefix_of(u.take(k)) {
            seq![
                (
                    upload_field(i),
                    "Upload local path '"@ + u.take(k)
                        + "' is absolute. Consider using a relative path for portability."@,
                ),
            ]
        } else {
            Seq::empty()
        },
        None => Seq::empty(),
    }
}

/// Errors about `uploads[0..n]`.
pub open spec fn uploads_issues(uploads: Seq<String>, n: int) -> Seq<Issue>
    decreases n,
{
    if n <= 0 {
        Seq::empty()
    } else {
        uploads_issues(uploads, n - 1) + upload_issues(uploads[n - 1]@, n - 1)
    }
}

/// Warnings about `uploads[0..n]`.
pub open spec fn uploads_warnings(uploads: Seq<String>, n: int) -> Seq<Issue>
    decreases n,
{
    if n <= 0 {
        Seq::empty()
    } else {
        uploads_warnings(uploads, n - 1) + upload_warnings(uploads[n - 1]@, n - 1)
    }
}

fn indexed_field(prefix: &str, i: usize) -> (r: String)
    ensures
        r@ == prefix@ + decimal(i as nat) + "]"@,
{
    let d = u64_to_decimal(i as u64);
    concat3(prefix, d.as_str(), "]")
}

fn system_dir_of(remote: &str) -> (r: Option<&'static str>)
    ensures
        match r {
            Some(d) => targeted_system_dir(remote@) == Some(d@),
            None => targeted_system_dir(remote@) is None,
        },
{
    if str_eq(remote, "/etc") || str_starts_with(remote, "/etc/") {
        assert("/etc/"@ =~= "/etc"@ + "/"@) by {
            reveal_strlit("/etc/");
            reveal_strlit("/etc");
            reveal_strlit("/");
        }
        Some("/etc")
    } else if str_eq(remote, "/usr") || str_starts_with(remote, "/usr/") {
        assert("/usr/"@ =~= "/usr"@ + "/"@) by {
            reveal_strlit("/usr/");
            reveal_strlit("/usr");
            reveal_strlit("/");
        }
        assert("/etc/"@ =~= "/etc"@ + "/"@) by {
            reveal_strlit("/etc/");
            reveal_strlit("/etc");
            reveal_strlit("/");
        }
        Some("/usr")
    } else if str_eq(remote, "/bin") || str_starts_with(remote, "/bin/") {
        assert("/bin/"@ =~= "/bin"@ + "/"@) by {
            reveal_strlit("/bin/");
            reveal_strlit("/bin");
            reveal_strlit("/");
        }
        assert("/usr/"@ =~= "/usr"@ + "/"@) by {
            reveal_strlit("/usr/");
            reveal_strlit("/usr");
            reveal_strlit("/");
        }
        assert("/etc/"@ =~= "/etc"@ + "/"@) by {
            reveal_strlit("/etc/");
            reveal_strlit("/etc");
            reveal_strlit("/");
        }
        Some("/bin")
    } else if str_eq(remote, "/sbin") || str_starts_with(remote, "/sbin/") {
        assert("/sbin/"@ =~= "/sbin"@ + "/"@) by {
            reveal_strlit("/sbin/");
            reveal_strlit("/sbin");
            reveal_strlit("/");
        }
        assert("/bin/"@ =~= "/bin"@ + "/"@) by {
            reveal_strlit("/bin/");
            reveal_strlit("/bin");
            reveal_strlit("/");
        }
        assert("/usr/"@ =~= "/usr"@ + "/"@) by {
            reveal_strlit("/usr/");
            reveal_strlit("/usr");
            reveal_strlit("/");
        }
        assert("/etc/"@ =~= "/etc"@ + "/"@) by {
            reveal_strlit("/etc/");
            reveal_strlit("/etc");
            reveal_strlit("/");
        }
        Some("/sbin")
    } else {
        assert("/sbin/"@ =~= "/sbin"@ + "/"@) by {
            reveal_strlit("/sbin/");
            reveal_strlit("/sbin");
            reveal_strlit("/");
        }
        assert("/bin/"@ =~= "/bin"@ + "/"@) by {
            reveal_strlit("/bin/");
            reveal_strlit("/bin");
            reveal_strlit("/");
        }
        assert("/usr/"@ =~= "/usr"@ + "/"@) by {
            reveal_strlit("/usr/");
            reveal_strlit("/usr");
            reveal_strlit("/");
        }
        assert("/etc/"@ =~= "/etc"@ + "/"@) by {
            reveal_strlit("/etc/");
            reveal_strlit("/etc");
            reveal_strlit("/");
        }
        None
    }
}

fn validate_uploads(
    uploads: &Vec<String>,
    errors: &mut Vec<ValidationError>,
    warnings: &mut Vec<ValidationWarning>,
)
    ensures
        error_issues(final(errors)@) == error_issues(old(errors)@) + uploads_issues(
            uploads@,
            uploads@.len() as int,
        ),
        warning_issues(final(warnings)@) == warning_issues(old(warnings)@) + uploads_warnings(
            uploads@,
            uploads@.len() as int,
        ),
{
    let mut i: usize = 0;
    assert(error_issues(errors@) =~= error_issues(old(errors)@) + uploads_issues(uploads@, 0));
    assert(warning_issues(warnings@) =~= warning_issues(old(warnings)@) + uploads_warnings(
        uploads@,
        0,
    ));
    while i < uploads.len()
        invariant
            i <= uploads@.len(),
            error_issues(errors@) == error_issues(old(errors)@) + uploads_issues(
                uploads@,
                i as int,
            ),
            warning_issues(warnings@) == warning_issues(old(warnings)@) + uploads_warnings(
                uploads@,
                i as int,
            ),
        decreases uploads.len() - i,
    {
        let spec_str = uploads[i].as_str();
        let ghost e0 = error_issues(errors@);
        let ghost w0 = warning_issues(warnings@);
        let v = chars_of(spec_str);
        let n = v.len();
        match find_exec(&v, ':') {
            None => {
                let field = indexed_field("spec.upload[", i);
                let m = concat3("Upload spec must be in format 'local:remote'. Got: '", spec_str, "'.");
                push_error(errors, field, m);
            },
            Some(k) => {
                proof {
                    crate::text::lemma_find(v@, ':');
                }
                let local_v = subvec(&v, 0, k);
                let remote_v = subvec(&v, k + 1, n);
                assert(local_v@ =~= v@.take(k as int));
                assert(remote_v@ =~= v@.skip(k + 1));
                let local = crate::text::string_from_chars(&local_v);
                let remote = crate::text::string_from_chars(&remote_v);
                if str_contains(local.as_str(), "..") {
                    let field = indexed_field("spec.upload[", i);
                    let m = concat3(
                        "Upload local path contains '..'. Path traversal is not allowed. Use a direct relative path instead. Got: '",
                        local.as_str(),
                        "'.",
                    );
                    push_error(errors, field, m);
                }
                if str_starts_with(local.as_str(), "/") {
                    let field = indexed_field("spec.upload[", i);
                    let m = concat3(
                        "Upload local path '",
                        local.as_str(),
                        "' is absolute. Consider using a relative path for portability.",
                    );
                    push_warning(warnings, field, m);
                }
                let ghost e1 = error_issues(errors@);
                if let Some(d) = system_dir_of(remote.as_str()) {
                    let field = indexed_field("spec.upload[", i);
                    let m = concat5(
                        "Upload remote path '",
                        remote.as_str(),
                        "' targets system directory '",
                        d,
                        "'. Writing to system directories is not allowed.",
                    );
                    push_error(errors, field, m);
                }
            },
        }
        assert(error_issues(errors@) =~= e0 + upload_issues(uploads@[i as int]@, i as int));
        assert(warning_issues(warnings@) =~= w0 + upload_warnings(uploads@[i as int]@, i as int));
        i = i + 1;
    }
}


// ---------------------------------------------------------------------------
// Port forwards
// ---------------------------------------------------------------------------

/// Field path of the `i`-th forward spec.
pub open spec fn forward_field(i: int) -> Seq<char> {
    "spec.forwards["@ + decimal(i as nat) + "]"@
}

/// The bind address of a `[bind:]port` spec: the text before the last colon.
pub open spec fn bind_part(f: Seq<char>) -> Option<Seq<char>> {
    match rfind(f, ':') {
        Some(k) => Some(f.take(k)),
        None => None,
    }
}

/// The port of a `[bind:]port` spec: the text after the last colon.
pub open spec fn port_part(f: Seq<char>) -> Seq<char> {
    match rfind(f, ':') {
        Some(k) => f.skip(k + 1),
        None => f,
    }
}

/// Errors about the `i`-th forward spec `f`.
pub open spec fn forward_issues(f: Seq<char>, i: int) -> Seq<Issue> {
    match parse_unsigned(port_part(f), u16::MAX as nat) {
        Some(p) => if p == 0 {
            seq![
                (
                    forward_field(i),
                    "Port 0 is out of range. Must be 1-65535. Got: '"@ + f + "'."@,
                ),
            ]
        } else {
            Seq::empty()
        },
        None => seq![
            (
                forward_field(i),
                "Invalid port forward spec. Expected format: '[bind_address:]port' where port is 1-65535. Got: '"@
                    + f + "'."@,
            ),
        ],
    }
}

/// Warnings about the `i`-th forward spec `f`.
pub open spec fn forward_warnings(f: Seq<char>, i: int) -> Seq<Issue> {
    match bind_part(f) {
        Some(a) => if a.len() > 0 && !is_ipv4_text(a) && !is_ipv6_text(a) && a != "localhost"@ {
            seq![
                (
                    forward_field(i),
                    "Bind address '"@ + a
                        + "' does not appear to be a valid IP address or 'localhost'. Got: '"@ + f
                        + "'."@,
                ),
            ]
        } else {
            Seq::empty()
        },
        None => Seq::empty(),
    }
}

/// Errors about `forwards[0..n]`.
pub open spec fn forwards_issues(forwards: Seq<String>, n: int) -> Seq<Issue>
    decreases n,
{
    if n <= 0 {
        Seq::empty()
    } else {
        forwards_issues(forwards, n - 1) + forward_issues(forwards[n - 1]@, n - 1)
    }
}

/// Warnings about `forwards[0..n]`.
pub open spec fn forwards_warnings(forwards: Seq<String>, n: int) -> Seq<Issue>
    decreases n,
{
    if n <= 0 {
        Seq::empty()
    } else {
        forwards_warnings(forwards, n - 1) + forward_warnings(forwards[n - 1]@, n - 1)
    }
}

fn validate_forwards(
    forwards: &Vec<String>,
    errors: &mut Vec<ValidationError>,
    warnings: &mut Vec<ValidationWarning>,
)
    ensures
        error_issues(final(errors)@) == error_issues(old(errors)@) + forwards_issues(
            forwards@,
            forwards@.len() as int,
        ),
        warning_issues(final(warnings)@) == warning_issues(old(warnings)@) + forwards_warnings(
            forwards@,
            forwards@.len() as int,
        ),
{
    let mut i: usize = 0;
    assert(error_issues(errors@) =~= error_issues(old(errors)@) + forwards_issues(forwards@, 0));
    assert(warning_issues(warnings@) =~= warning_issues(old(warnings)@) + forwards_warnings(
        forwards@,
        0,
    ));
    while i < forwards.len()
        invariant
            i <= forwards@.len(),
            error_issues(errors@) == error_issues(old(errors)@) + forwards_issues(
                forwards@,
                i as int,
            ),
            warning_issues(warnings@) == warning_issues(old(warnings)@) + forwards_warnings(
                forwards@,
                i as int,
            ),
        decreases forwards.len() - i,
    {
        let spec_str = forwards[i].as_str();
        let ghost e0 = error_issues(errors@);
        let ghost w0 = warning_issues(warnings@);
        let v = chars_of(spec_str);
        let n = v.len();
        let (bind, port) = match rfind_exec(&v, ':') {
            Some(k) => {
                proof {
                    crate::text::lemma_rfind(v@, ':');
                }
                let b = subvec(&v, 0, k);
                let p = subvec(&v, k + 1, n);
                assert(b@ =~= v@.take(k as int));
                assert(p@ =~= v@.skip(k + 1));
                (Some(b), p)
            },
            None => (None, subvec(&v, 0, n)),
        };
        assert(v@.subrange(0, n as int) =~= v@);
        if let Some(addr) = &bind {
            if addr.len() > 0 && !is_ipv4_exec(addr) && !is_ipv6_exec(addr) {
                let addr_s = crate::text::string_from_chars(addr);
                if !str_eq(addr_s.as_str(), "localhost") {
                    let field = indexed_field("spec.forwards[", i);
                    let m = concat5(
                        "Bind address '",
                        addr_s.as_str(),
                        "' does not appear to be a valid IP address or 'localhost'. Got: '",
                        spec_str,
                        "'.",
                    );
                    push_warning(warnings, field, m);
                }
            }
        }
        match parse_u16(&port) {
            Some(p) => {
                if p == 0 {
                    let field = indexed_field("spec.forwards[", i);
                    let m = concat3(
                        "Port 0 is out of range. Must be 1-65535. Got: '",
                        spec_str,
                        "'.",
                    );
                    push_error(errors, field, m);
                }
            },
            None => {
                let field = indexed_field("spec.forwards[", i);
                let m = concat3(
                    "Invalid port forward spec. Expected format: '[bind_address:]port' where port is 1-65535. Got: '",
                    spec_str,
                    "'.",
                );
                push_error(errors, field, m);
            },
        }
        assert(error_issues(errors@) =~= e0 + forward_issues(forwards@[i as int]@, i as int));
        assert(warning_issues(warnings@) =~= w0 + forward_warnings(forwards@[i as int]@, i as int));
        i = i + 1;
    }
}


// ---------------------------------------------------------------------------
// MCP servers
// ---------------------------------------------------------------------------

/// Field path prefix of the `i`-th MCP server.
pub open spec fn server_prefix(i: int) -> Seq<char> {
    "spec.mcp_servers["@ + decimal(i as nat) + "]"@
}

/// Index of the first of `servers[0..n]` named `name`.
pub open spec fn first_with_name(servers: Seq<McpServerEntry>, name: Seq<char>, n: int) -> Option<
    int,
>
    decreases n,
{
    if n <= 0 {
        None
    } else {
        match first_with_name(servers, name, n - 1) {
            Some(j) => Some(j),
            None => if servers[n - 1].name matches Some(x) && x@ == name {
                Some(n - 1)
            } else {
                None
            },
        }
    }
}

/// Errors about the name of the `i`-th server.
pub open spec fn server_name_issues(servers: Seq<McpServerEntry>, i: int) -> Seq<Issue> {
    let p = server_prefix(i);
    match servers[i].name {
        None => seq![(p + ".name"@, "MCP server name is required."@)],
        Some(n) => if n@.len() == 0 {
            seq![(p + ".name"@, "MCP server name must not be empty."@)]
        } else {
            match first_with_name(servers, n@, i) {
                Some(j) => seq![
                    (
                        p + ".name"@,
                        "Duplicate MCP server name '"@ + n@
                            + "' in blueprint. First defined at spec.mcp_servers["@ + decimal(
                            j as nat,
                        ) + "]. Each server must have a unique name."@,
                    ),
                ],
                None => Seq::empty(),
            }
        },
    }
}

/// The shell metacharacters that trigger a warning in a server command.
pub open spec fn has_shell_metacharacters(c: Seq<char>) -> bool {
    contains_seq(c, ";"@) || contains_seq(c, "|"@) || contains_seq(c, "&&"@) || contains_seq(
        c,
        "$("@,
    ) || contains_seq(c, "`"@)
}

/// URL scheme that is never allowed for streamable-http.
pub open spec fn dangerous_url(u: Seq<char>) -> bool {
    "file://"@.is_prefix_of(u) || "ftp://"@.is_prefix_of(u) || "javascript:"@.is_prefix_of(u)
}

/// Errors about the transport-specific fields of a server.
pub open spec fn transport_issues(t: McpTransport, s: &McpServerEntry, p: Seq<char>) -> Seq<Issue> {
    match t {
        McpTransport::Bridge => {
            let c: Seq<Issue> = if s.command is None {
                seq![(p + ".command"@, "Transport 'bridge' requires 'command' field."@)]
            } else {
                Seq::empty()
            };
            let u: Seq<Issue> = if s.url is Some {
                seq![(p + ".url"@, "Transport 'bridge' does not use 'url'. Remove this field."@)]
            } else {
                Seq::empty()
            };
            c + u
        },
        McpTransport::InSandbox => {
            let c: Seq<Issue> = if s.command is None {
                seq![(p + ".command"@, "Transport 'in-sandbox' requires 'command' field."@)]
            } else {
                Seq::empty()
            };
            let e: Seq<Issue> = if s.env is Some {
                seq![
                    (
                        p + ".env"@,
                        "Transport 'in-sandbox' does not support 'env' (credentials are not injected into the sandbox). Remove this field."@,
                    ),
                ]
            } else {
                Seq::empty()
            };
            c + e
        },
        McpTransport::StreamableHttp => {
            let u: Seq<Issue> = match &s.url {
                None => seq![(p + ".url"@, "Transport 'streamable-http' requires 'url' field."@)],
                Some(url) => if dangerous_url(url@) {
                    seq![
                        (
                            p + ".url"@,
                            "URL scheme is not allowed for streamable-http transport. Only 'http://' and 'https://' are supported. Got: '"@
                                + url@ + "'."@,
                        ),
                    ]
                } else if !"http://"@.is_prefix_of(url@) && !"https://"@.is_prefix_of(url@) {
                    seq![
                        (
                            p + ".url"@,
                            "URL must start with 'http://' or 'https://'. Got: '"@ + url@ + "'."@,
                        ),
                    ]
                } else {
                    Seq::empty()
                },
            };
            let c: Seq<Issue> = if s.command is Some {
                seq![
                    (
                        p + ".command"@,
                        "Transport 'streamable-http' does not use 'command'. Remove this field."@,
                    ),
                ]
            } else {
                Seq::empty()
            };
            u + c
        },
    }
}

/// Warnings about the transport-specific fields of a server.
pub open spec fn transport_warnings(t: McpTransport, s: &McpServerEntry, p: Seq<char>) -> Seq<
    Issue,
> {
    let meta: Seq<Issue> = match &s.command {
        Some(c) => if has_shell_metacharacters(c@) {
            seq![
                (
                    p + ".command"@,
                    "MCP server command contains shell metacharacters. Consider using an array format to prevent shell interpretation."@,
                ),
            ]
        } else {
            Seq::empty()
        },
        None => Seq::empty(),
    };
    let insecure: Seq<Issue> = match (t, &s.url) {
        (McpTransport::StreamableHttp, Some(url)) => if !dangerous_url(url@) && "http://"@.is_prefix_of(
            url@,
        ) {
            seq![
                (
                    p + ".url"@,
                    "MCP server URL uses insecure 'http://' scheme. Consider using 'https://' for production."@,
                ),
            ]
        } else {
            Seq::empty()
        },
        _ => Seq::empty(),
    };
    meta + insecure
}

/// Errors about the `i`-th server.
pub open spec fn server_issues(servers: Seq<McpServerEntry>, i: int) -> Seq<Issue> {
    let p = server_prefix(i);
    server_name_issues(servers, i) + match servers[i].transport {
        None => seq![
            (
                p + ".transport"@,
                "MCP server transport is required. Valid values: bridge, in-sandbox, streamable-http."@,
            ),
        ],
        Some(t) => transport_issues(t, &servers[i], p),
    }
}

/// Warnings about the `i`-th server.
pub open spec fn server_warnings(servers: Seq<McpServerEntry>, i: int) -> Seq<Issue> {
    let p = server_prefix(i);
    unknown_warnings(servers[i].extra@, p) + match servers[i].transport {
        None => Seq::empty(),
        Some(t) => transport_warnings(t, &servers[i], p),
    }
}

/// Errors about `servers[0..n]`.
pub open spec fn servers_issues(servers: Seq<McpServerEntry>, n: int) -> Seq<Issue>
    decreases n,
{
    if n <= 0 {
        Seq::empty()
    } else {
        servers_issues(servers, n - 1) + server_issues(servers, n - 1)
    }
}

/// Warnings about `servers[0..n]`.
pub open spec fn servers_warnings(servers: Seq<McpServerEntry>, n: int) -> Seq<Issue>
    decreases n,
{
    if n <= 0 {
        Seq::empty()
    } else {
        servers_warnings(servers, n - 1) + server_warnings(servers, n - 1)
    }
}

fn find_first_with_name(servers: &Vec<McpServerEntry>, name: &str, n: usize) -> (r: Option<usize>)
    requires
        n <= servers@.len(),
    ensures
        match r {
            Some(j) => first_with_name(servers@, name@, n as int) == Some(j as int),
            None => first_with_name(servers@, name@, n as int) is None,
        },
{
    let mut j: usize = 0;
    while j < n
        invariant
            j <= n <= servers@.len(),
            first_with_name(servers@, name@, j as int) is None,
        decreases n - j,
    {
        let hit = match &servers[j].name {
            Some(x) => str_eq(x.as_str(), name),
            None => false,
        };
        if hit {
            proof {
                lemma_first_with_name_stable(servers@, name@, j + 1, n as int);
            }
            return Some(j);
        }
        j = j + 1;
    }
    None
}

proof fn lemma_first_with_name_stable(servers: Seq<McpServerEntry>, name: Seq<char>, m: int, n: int)
    requires
        1 <= m <= n,
        first_with_name(servers, name, m) is Some,
    ensures
        first_with_name(servers, name, n) == first_with_name(servers, name, m),
    decreases n - m,
{
    if m < n {
        lemma_first_with_name_stable(servers, name, m, n - 1);
    }
}

fn has_shell_metacharacters_exec(c: &str) -> (b: bool)
    ensures
        b == has_shell_metacharacters(c@),
{
    str_contains(c, ";") || str_contains(c, "|") || str_contains(c, "&&") || str_contains(c, "$(")
        || str_contains(c, "`")
}

fn dangerous_url_exec(u: &str) -> (b: bool)
    ensures
        b == dangerous_url(u@),
{
    str_starts_with(u, "file://") || str_starts_with(u, "ftp://") || str_starts_with(
        u,
        "javascript:",
    )
}

fn field_with(prefix: &String, suffix: &str) -> (r: String)
    ensures
        r@ == prefix@ + suffix@,
{
    concat2(prefix.as_str(), suffix)
}

fn validate_mcp_transport(
    transport: McpTransport,
    server: &McpServerEntry,
    prefix: &String,
    errors: &mut Vec<ValidationError>,
    warnings: &mut Vec<ValidationWarning>,
)
    ensures
        error_issues(final(errors)@) == error_issues(old(errors)@) + transport_issues(
            transport,
            server,
            prefix@,
        ),
        warning_issues(final(warnings)@) == warning_issues(old(warnings)@) + transport_warnings(
            transport,
            server,
            prefix@,
        ),
{
    if let Some(command) = &server.command {
        if has_shell_metacharacters_exec(command.as_str()) {
            push_warning(
                warnings,
                field_with(prefix, ".command"),
                to_owned_string(
                    "MCP server command contains shell metacharacters. Consider using an array format to prevent shell interpretation.",
                ),
            );
        }
    }
    let ghost w1 = warning_issues(warnings@);
    let ghost e0 = error_issues(errors@);
    match transport {
        McpTransport::Bridge => {
            if server.command.is_none() {
                push_error(
                    errors,
                    field_with(prefix, ".command"),
                    to_owned_string("Transport 'bridge' requires 'command' field."),
                );
            }
            if server.url.is_some() {
                push_error(
                    errors,
                    field_with(prefix, ".url"),
                    to_owned_string("Transport 'bridge' does not use 'url'. Remove this field."),
                );
            }
        },
        McpTransport::InSandbox => {
            if server.command.is_none() {
                push_error(
                    errors,
                    field_with(prefix, ".command"),
                    to_owned_string("Transport 'in-sandbox' requires 'command' field."),
                );
            }
            if server.env.is_some() {
                push_error(
                    errors,
                    field_with(prefix, ".env"),
                    to_owned_string(
                        "Transport 'in-sandbox' does not support 'env' (credentials are not injected into the sandbox). Remove this field.",
                    ),
                );
            }
        },
        McpTransport::StreamableHttp => {
            match &server.url {
                None => {
                    push_error(
                        errors,
                        field_with(prefix, ".url"),
                        to_owned_string("Transport 'streamable-http' requires 'url' field."),
                    );
                },
                Some(url) => {
                    if dangerous_url_exec(url.as_str()) {
                        let m = concat3(
                            "URL scheme is not allowed for streamable-http transport. Only 'http://' and 'https://' are supported. Got: '",
                            url.as_str(),
                            "'.",
                        );
                        push_error(errors, field_with(prefix, ".url"), m);
                    } else if !str_starts_with(url.as_str(), "http://") && !str_starts_with(
                        url.as_str(),
                        "https://",
                    ) {
                        let m = concat3(
                            "URL must start with 'http://' or 'https://'. Got: '",
                            url.as_str(),
                            "'.",
                        );
                        push_error(errors, field_with(prefix, ".url"), m);
                    } else if str_starts_with(url.as_str(), "http://") {
                        push_warning(
                            warnings,
                            field_with(prefix, ".url"),
                            to_owned_string(
                                "MCP server URL uses insecure 'http://' scheme. Consider using 'https://' for production.",
                            ),
                        );
                    }
                },
            }
            if server.command.is_some() {
                push_error(
                    errors,
                    field_with(prefix, ".command"),
                    to_owned_string(
                        "Transport 'streamable-http' does not use 'command'. Remove this field.",
                    ),
                );
            }
        },
    }
    assert(error_issues(errors@) =~= error_issues(old(errors)@) + transport_issues(
        transport,
        server,
        prefix@,
    ));
    assert(warning_issues(warnings@) =~= warning_issues(old(warnings)@) + transport_warnings(
        transport,
        server,
        prefix@,
    ));
}

fn validate_one_server(
    servers: &Vec<McpServerEntry>,
    i: usize,
    errors: &mut Vec<ValidationError>,
    warnings: &mut Vec<ValidationWarning>,
)
    requires
        i < servers@.len(),
    ensures
        error_issues(final(errors)@) == error_issues(old(errors)@) + server_issues(
            servers@,
            i as int,
        ),
        warning_issues(final(warnings)@) == warning_issues(old(warnings)@) + server_warnings(
            servers@,
            i as int,
        ),
{
    let server = &servers[i];
    let ghost e0 = error_issues(errors@);
    let ghost w0 = warning_issues(warnings@);
    let prefix = indexed_field("spec.mcp_servers[", i);
    collect_unknown_field_warnings(&server.extra, prefix.as_str(), warnings);
    match &server.name {
        None => {
            push_error(
                errors,
                field_with(&prefix, ".name"),
                to_owned_string("MCP server name is required."),
            );
        },
        Some(name) => {
            if name.as_str().is_empty() {
                push_error(
                    errors,
                    field_with(&prefix, ".name"),
                    to_owned_string("MCP server name must not be empty."),
                );
            } else {
                if let Some(first_idx) = find_first_with_name(servers, name.as_str(), i) {
                    let idx = u64_to_decimal(first_idx as u64);
                    let m = concat5(
                        "Duplicate MCP server name '",
                        name.as_str(),
                        "' in blueprint. First defined at spec.mcp_servers[",
                        idx.as_str(),
                        "]. Each server must have a unique name.",
                    );
                    push_error(errors, field_with(&prefix, ".name"), m);
                }
            }
        },
    }
    let ghost e1 = error_issues(errors@);
    assert(e1 =~= e0 + server_name_issues(servers@, i as int));
    match server.transport {
        None => {
            push_error(
                errors,
                field_with(&prefix, ".transport"),
                to_owned_string(
                    "MCP server transport is required. Valid values: bridge, in-sandbox, streamable-http.",
                ),
            );
        },
        Some(transport) => {
            validate_mcp_transport(transport, server, &prefix, errors, warnings);
        },
    }
    assert(error_issues(errors@) =~= e0 + server_issues(servers@, i as int));
    assert(warning_issues(warnings@) =~= w0 + server_warnings(servers@, i as int));
}

fn validate_mcp_servers(
    servers: &Vec<McpServerEntry>,
    errors: &mut Vec<ValidationError>,
    warnings: &mut Vec<ValidationWarning>,
)
    ensures
        error_issues(final(errors)@) == error_issues(old(errors)@) + servers_issues(
            servers@,
            servers@.len() as int,
        ),
        warning_issues(final(warnings)@) == warning_issues(old(warnings)@) + servers_warnings(
            servers@,
            servers@.len() as int,
        ),
{
    let mut i: usize = 0;
    assert(error_issues(errors@) =~= error_issues(old(errors)@) + servers_issues(servers@, 0));
    assert(warning_issues(warnings@) =~= warning_issues(old(warnings)@) + servers_warnings(
        servers@,
        0,
    ));
    while i < servers.len()
        invariant
            i <= servers@.len(),
            error_issues(errors@) == error_issues(old(errors)@) + servers_issues(
                servers@,
                i as int,
            ),
            warning_issues(warnings@) == warning_issues(old(warnings)@) + servers_warnings(
                servers@,
                i as int,
            ),
        decreases servers.len() - i,
    {
        let ghost e0 = error_issues(errors@);
        let ghost w0 = warning_issues(warnings@);
        validate_one_server(servers, i, errors, warnings);
        assert(error_issues(errors@) =~= error_issues(old(errors)@) + servers_issues(
            servers@,
            i + 1,
        ));
        assert(warning_issues(warnings@) =~= warning_issues(old(warnings)@) + servers_warnings(
            servers@,
            i + 1,
        ));
        i = i + 1;
    }
}

// ---------------------------------------------------------------------------
// The spec section and the whole blueprint
// ---------------------------------------------------------------------------

/// Errors about `spec.image`.
pub open spec fn image_issues(s: &BlueprintSpec) -> Seq<Issue> {
    match &s.image {
        None => seq![("spec.image"@, "Required field 'spec.image' is missing."@)],
        Some(i) => if i@.len() == 0 {
            seq![("spec.image"@, "Image reference must not be empty."@)]
        } else {
            Seq::empty()
        },
    }
}

/// Errors about `spec.policy`: it must be relative.
pub open spec fn policy_issues(s: &BlueprintSpec) -> Seq<Issue> {
    match &s.policy {
        Some(p) => if "/"@.is_prefix_of(p@) {
            seq![
                (
                    "spec.policy"@,
                    "Policy path '"@ + p@
                        + "' is absolute. Policy paths should be relative to the blueprint file."@,
                ),
            ]
        } else {
            Seq::empty()
        },
        None => Seq::empty(),
    }
}

/// Warnings about `spec.policy`: `..` in the path.
pub open spec fn policy_warnings(s: &BlueprintSpec) -> Seq<Issue> {
    match &s.policy {
        Some(p) => if contains_seq(p@, ".."@) {
            seq![
                (
                    "spec.policy"@,
                    "Policy path '"@ + p@
                        + "' contains '..'. This may cause unexpected behavior. Use a direct relative path instead."@,
                ),
            ]
        } else {
            Seq::empty()
        },
        None => Seq::empty(),
    }
}

/// Errors about `spec.mcp_servers`, if present.
#[verifier::opaque]
pub open spec fn opt_servers_issues(s: &BlueprintSpec) -> Seq<Issue> {
    match &s.mcp_servers {
        Some(v) => servers_issues(v@, v@.len() as int),
        None => Seq::empty(),
    }
}

/// Warnings about `spec.mcp_servers`, if present.
#[verifier::opaque]
pub open spec fn opt_servers_warnings(s: &BlueprintSpec) -> Seq<Issue> {
    match &s.mcp_servers {
        Some(v) => servers_warnings(v@, v@.len() as int),
        None => Seq::empty(),
    }
}

/// Errors about `spec.forwards`, if present.
#[verifier::opaque]
pub open spec fn opt_forwards_issues(s: &BlueprintSpec) -> Seq<Issue> {
    match &s.forwards {
        Some(v) => forwards_issues(v@, v@.len() as int),
        None => Seq::empty(),
    }
}

/// Warnings about `spec.forwards`, if present.
#[verifier::opaque]
pub open spec fn opt_forwards_warnings(s: &BlueprintSpec) -> Seq<Issue> {
    match &s.forwards {
        Some(v) => forwards_warnings(v@, v@.len() as int),
        None => Seq::empty(),
    }
}

/// Errors about `spec.resources`, if present.
#[verifier::opaque]
pub open spec fn opt_resources_issues(s: &BlueprintSpec, cores_ok: bool) -> Seq<Issue> {
    match &s.resources {
        Some(r) => resources_issues(r, cores_ok),
        None => Seq::empty(),
    }
}

/// Warnings about `spec.resources`, if present.
#[verifier::opaque]
pub open spec fn opt_resources_warnings(s: &BlueprintSpec) -> Seq<Issue> {
    match &s.resources {
        Some(r) => unknown_warnings(r.extra@, "spec.resources"@),
        None => Seq::empty(),
    }
}

/// Errors about `spec.upload`, if present.
#[verifier::opaque]
pub open spec fn opt_uploads_issues(s: &BlueprintSpec) -> Seq<Issue> {
    match &s.upload {
        Some(v) => uploads_issues(v@, v@.len() as int),
        None => Seq::empty(),
    }
}

/// Warnings about `spec.upload`, if present.
#[verifier::opaque]
pub open spec fn opt_uploads_warnings(s: &BlueprintSpec) -> Seq<Issue> {
    match &s.upload {
        Some(v) => uploads_warnings(v@, v@.len() as int),
        None => Seq::empty(),
    }
}

/// Errors about the list-valued parts of the spec section.
pub open spec fn spec_list_issues(s: &BlueprintSpec, cores_ok: bool) -> Seq<Issue> {
    opt_servers_issues(s) + opt_forwards_issues(s) + opt_resources_issues(s, cores_ok)
        + opt_uploads_issues(s)
}

/// Warnings about the list-valued parts of the spec section.
pub open spec fn spec_list_warnings(s: &BlueprintSpec) -> Seq<Issue> {
    opt_servers_warnings(s) + opt_forwards_warnings(s) + opt_resources_warnings(s)
        + opt_uploads_warnings(s)
}

/// Errors about the spec section.
pub open spec fn spec_issues(b: &Blueprint, cores_ok: bool) -> Seq<Issue> {
    match &b.spec {
        None => seq![("spec"@, "Required section 'spec' is missing."@)],
        Some(s) => image_issues(s) + policy_issues(s) + spec_list_issues(s, cores_ok),
    }
}

/// Warnings about the spec section.
pub open spec fn spec_warnings(b: &Blueprint) -> Seq<Issue> {
    match &b.spec {
        None => Seq::empty(),
        Some(s) => unknown_warnings(s.extra@, "spec"@) + policy_warnings(s) + spec_list_warnings(s),
    }
}

fn validate_spec_head(
    spec: &BlueprintSpec,
    errors: &mut Vec<ValidationError>,
    warnings: &mut Vec<ValidationWarning>,
)
    ensures
        error_issues(final(errors)@) == error_issues(old(errors)@) + image_issues(spec)
            + policy_issues(spec),
        warning_issues(final(warnings)@) == warning_issues(old(warnings)@) + unknown_warnings(
            spec.extra@,
            "spec"@,
        ) + policy_warnings(spec),
{
    collect_unknown_field_warnings(&spec.extra, "spec", warnings);
    match &spec.image {
        None => {
            push_error(
                errors,
                to_owned_string("spec.image"),
                to_owned_string("Required field 'spec.image' is missing."),
            );
        },
        Some(image) => {
            if image.as_str().is_empty() {
                push_error(
                    errors,
                    to_owned_string("spec.image"),
                    to_owned_string("Image reference must not be empty."),
                );
            }
        },
    }
    if let Some(policy) = &spec.policy {
        if str_contains(policy.as_str(), "..") {
            let m = concat3(
                "Policy path '",
                policy.as_str(),
                "' contains '..'. This may cause unexpected behavior. Use a direct relative path instead.",
            );
            push_warning(warnings, to_owned_string("spec.policy"), m);
        }
        if str_starts_with(policy.as_str(), "/") {
            let m = concat3(
                "Policy path '",
                policy.as_str(),
                "' is absolute. Policy paths should be relative to the blueprint file.",
            );
            push_error(errors, to_owned_string("spec.policy"), m);
        }
    }
    assert(error_issues(errors@) =~= error_issues(old(errors)@) + image_issues(spec)
        + policy_issues(spec));
    assert(warning_issues(warnings@) =~= warning_issues(old(warnings)@) + unknown_warnings(
        spec.extra@,
        "spec"@,
    ) + policy_warnings(spec));
}

#[verifier::rlimit(50)]
fn validate_spec_lists(
    spec: &BlueprintSpec,
    cpu_cores_ok: bool,
    errors: &mut Vec<ValidationError>,
    warnings: &mut Vec<ValidationWarning>,
)
    ensures
        error_issues(final(errors)@) == error_issues(old(errors)@) + spec_list_issues(
            spec,
            cpu_cores_ok,
        ),
        warning_issues(final(warnings)@) == warning_issues(old(warnings)@) + spec_list_warnings(
            spec,
        ),
{
    let ghost e0 = error_issues(errors@);
    let ghost w0 = warning_issues(warnings@);
    if let Some(servers) = &spec.mcp_servers {
        validate_mcp_servers(servers, errors, warnings);
        proof { reveal(opt_servers_issues); reveal(opt_servers_warnings); }
    } else {
        proof { reveal(opt_servers_issues); reveal(opt_servers_warnings); }
        assert(error_issues(errors@) =~= e0 + opt_servers_issues(spec));
        assert(warning_issues(warnings@) =~= w0 + opt_servers_warnings(spec));
    }
    let ghost e1 = error_issues(errors@);
    let ghost w1 = warning_issues(warnings@);
    assert(e1 == e0 + opt_servers_issues(spec));
    assert(w1 == w0 + opt_servers_warnings(spec));
    if let Some(forwards) = &spec.forwards {
        validate_forwards(forwards, errors, warnings);
        proof { reveal(opt_forwards_issues); reveal(opt_forwards_warnings); }
    } else {
        proof { reveal(opt_forwards_issues); reveal(opt_forwards_warnings); }
        assert(error_issues(errors@) =~= e1 + opt_forwards_issues(spec));
        assert(warning_issues(warnings@) =~= w1 + opt_forwards_warnings(spec));
    }
    let ghost e2 = error_issues(errors@);
    let ghost w2 = warning_issues(warnings@);
    assert(e2 == e1 + opt_forwards_issues(spec));
    assert(w2 == w1 + opt_forwards_warnings(spec));
    if let Some(resources) = &spec.resources {
        validate_resources(resources, cpu_cores_ok, errors, warnings);
        proof { reveal(opt_resources_issues); reveal(opt_resources_warnings); }
    } else {
        proof { reveal(opt_resources_issues); reveal(opt_resources_warnings); }
        assert(error_issues(errors@) =~= e2 + opt_resources_issues(spec, cpu_cores_ok));
        assert(warning_issues(warnings@) =~= w2 + opt_resources_warnings(spec));
    }
    let ghost e3 = error_issues(errors@);
    let ghost w3 = warning_issues(warnings@);
    assert(e3 == e2 + opt_resources_issues(spec, cpu_cores_ok));
    assert(w3 == w2 + opt_resources_warnings(spec));
    if let Some(uploads) = &spec.upload {
        validate_uploads(uploads, errors, warnings);
        proof { reveal(opt_uploads_issues); reveal(opt_uploads_warnings); }
    } else {
        proof { reveal(opt_uploads_issues); reveal(opt_uploads_warnings); }
        assert(error_issues(errors@) =~= e3 + opt_uploads_issues(spec));
        assert(warning_issues(warnings@) =~= w3 + opt_uploads_warnings(spec));
    }
    assert(error_issues(errors@) == e3 + opt_uploads_issues(spec));
    assert(warning_issues(warnings@) == w3 + opt_uploads_warnings(spec));
    assert(error_issues(errors@) =~= e0 + spec_list_issues(spec, cpu_cores_ok));
    assert(warning_issues(warnings@) =~= w0 + spec_list_warnings(spec));
}

fn validate_spec(
    blueprint: &Blueprint,
    cpu_cores_ok: bool,
    errors: &mut Vec<ValidationError>,
    warnings: &mut Vec<ValidationWarning>,
)
    ensures
        error_issues(final(errors)@) == error_issues(old(errors)@) + spec_issues(
            blueprint,
            cpu_cores_ok,
        ),
        warning_issues(final(warnings)@) == warning_issues(old(warnings)@) + spec_warnings(
            blueprint,
        ),
{
    match &blueprint.spec {
        None => {
            push_error(
                errors,
                to_owned_string("spec"),
                to_owned_string("Required section 'spec' is missing."),
            );
            assert(warning_issues(warnings@) =~= warning_issues(old(warnings)@) + spec_warnings(
                blueprint,
            ));
        },
        Some(spec) => {
            validate_spec_head(spec, errors, warnings);
            validate_spec_lists(spec, cpu_cores_ok, errors, warnings);
            assert(error_issues(errors@) =~= error_issues(old(errors)@) + spec_issues(
                blueprint,
                cpu_cores_ok,
            ));
            assert(warning_issues(warnings@) =~= warning_issues(old(warnings)@) + spec_warnings(
                blueprint,
            ));
        },
    }
}

/// All errors of a blueprint, in the order they are reported.
pub open spec fn blueprint_errors(b: &Blueprint, cores_ok: bool) -> Seq<Issue> {
    api_version_issues(b) + kind_issues(b) + metadata_issues(b) + spec_issues(b, cores_ok)
}

/// All warnings of a blueprint, in the order they are reported.
pub open spec fn blueprint_warnings(b: &Blueprint) -> Seq<Issue> {
    unknown_warnings(b.extra@, Seq::empty()) + metadata_warnings(b) + spec_warnings(b)
}

/// Validate a parsed blueprint, collecting all errors and warnings.
///
/// All errors are collected (not fail-fast) so the operator can fix
/// everything in one pass. `cpu_cores_ok` is whether `spec.resources.cpu`
/// parses as a positive finite floating-point number (the core-count form of
/// a CPU quantity); it is consulted only for a CPU quantity without the `m`
/// suffix.
pub fn validate(blueprint: &Blueprint, cpu_cores_ok: bool) -> (result: ValidationResult)
    requires
        lengths_fit(blueprint),
    ensures
        error_issues(result.errors@) == blueprint_errors(blueprint, cpu_cores_ok),
        warning_issues(result.warnings@) == blueprint_warnings(blueprint),
{
    let mut errors: Vec<ValidationError> = Vec::new();
    let mut warnings: Vec<ValidationWarning> = Vec::new();
    assert(error_issues(errors@) =~= Seq::empty());
    assert(warning_issues(warnings@) =~= Seq::empty());
    collect_unknown_field_warnings(&blueprint.extra, "", &mut warnings);
    proof {
        reveal_strlit("");
        assert(""@ =~= Seq::<char>::empty());
    }
    validate_api_version(blueprint, &mut errors);
    validate_kind(blueprint, &mut errors);
    validate_metadata(blueprint, &mut errors, &mut warnings);
    validate_spec(blueprint, cpu_cores_ok, &mut errors, &mut warnings);
    assert(error_issues(errors@) =~= blueprint_errors(blueprint, cpu_cores_ok));
    assert(warning_issues(warnings@) =~= blueprint_warnings(blueprint));
    ValidationResult { errors, warnings }
}


// ---------------------------------------------------------------------------
// Laws
// ---------------------------------------------------------------------------

proof fn lemma_contains_in_concat<A>(a: Seq<A>, b: Seq<A>, x: A)
    ensures
        a.contains(x) ==> (a + b).contains(x),
        b.contains(x) ==> (a + b).contains(x),
{
    if a.contains(x) {
        let j = choose|j: int| 0 <= j < a.len() && a[j] == x;
        assert((a + b)[j] == x);
    }
    if b.contains(x) {
        let j = choose|j: int| 0 <= j < b.len() && b[j] == x;
        assert((a + b)[a.len() + j] == x);
    }
}

proof fn lemma_upload_issues_in_list(uploads: Seq<String>, n: int, i: int, x: Issue)
    requires
        0 <= i < n,
        upload_issues(uploads[i]@, i).contains(x),
    ensures
        uploads_issues(uploads, n).contains(x),
    decreases n,
{
    if i < n - 1 {
        lemma_upload_issues_in_list(uploads, n - 1, i, x);
    }
    lemma_contains_in_concat(uploads_issues(uploads, n - 1), upload_issues(uploads[n - 1]@, n - 1), x);
}

/// A remote path that is one of the four system directories or lies under
/// one of them targets exactly that directory.
proof fn lemma_system_dir_named(remote: Seq<char>, d: Seq<char>)
    requires
        d == "/etc"@ || d == "/usr"@ || d == "/bin"@ || d == "/sbin"@,
        remote == d || (d + "/"@).is_prefix_of(remote),
    ensures
        targeted_system_dir(remote) == Some(d),
{
    reveal_strlit("/etc");
    reveal_strlit("/usr");
    reveal_strlit("/bin");
    reveal_strlit("/sbin");
    reveal_strlit("/");
    assert(remote.len() >= d.len());
    assert(remote[1] == d[1]) by {
        if remote != d {
            assert((d + "/"@)[1] == d[1]);
        }
    }
    assert(remote[2] == d[2]) by {
        if remote != d {
            assert((d + "/"@)[2] == d[2]);
        }
    }
    if d == "/etc"@ {
    } else if d == "/usr"@ {
        assert(remote != "/etc"@ && !("/etc"@ + "/"@).is_prefix_of(remote)) by {
            if ("/etc"@ + "/"@).is_prefix_of(remote) {
                assert(("/etc"@ + "/"@)[1] == remote[1]);
            }
            if remote == "/etc"@ {
                assert(remote[1] == 'e');
            }
        }
    } else if d == "/bin"@ {
        assert(remote != "/etc"@ && !("/etc"@ + "/"@).is_prefix_of(remote)) by {
            if ("/etc"@ + "/"@).is_prefix_of(remote) {
                assert(("/etc"@ + "/"@)[1] == remote[1]);
            }
            if remote == "/etc"@ {
                assert(remote[1] == 'e');
            }
        }
        assert(remote != "/usr"@ && !("/usr"@ + "/"@).is_prefix_of(remote)) by {
            if ("/usr"@ + "/"@).is_prefix_of(remote) {
                assert(("/usr"@ + "/"@)[1] == remote[1]);
            }
            if remote == "/usr"@ {
                assert(remote[1] == 'u');
            }
        }
    } else {
        assert(remote != "/etc"@ && !("/etc"@ + "/"@).is_prefix_of(remote)) by {
            if ("/etc"@ + "/"@).is_prefix_of(remote) {
                assert(("/etc"@ + "/"@)[1] == remote[1]);
            }
            if remote == "/etc"@ {
                assert(remote[1] == 'e');
            }
        }
        assert(remote != "/usr"@ && !("/usr"@ + "/"@).is_prefix_of(remote)) by {
            if ("/usr"@ + "/"@).is_prefix_of(remote) {
                assert(("/usr"@ + "/"@)[1] == remote[1]);
            }
            if remote == "/usr"@ {
                assert(remote[1] == 'u');
            }
        }
        assert(remote != "/bin"@ && !("/bin"@ + "/"@).is_prefix_of(remote)) by {
            if ("/bin"@ + "/"@).is_prefix_of(remote) {
                assert(("/bin"@ + "/"@)[1] == remote[1]);
            }
            if remote == "/bin"@ {
                assert(remote[1] == 'b');
            }
        }
    }
}

/// Uploads into system directories are refused: for every upload spec
/// `local:remote` (split at its first `:`) whose remote path is `/etc`,
/// `/usr`, `/bin` or `/sbin`, or lies under one of them, validation reports
/// an error on `spec.upload[i]` that names that directory.
pub proof fn lemma_system_directory_uploads_rejected(
    b: &Blueprint,
    cores_ok: bool,
    i: int,
    u: Seq<char>,
    k: int,
    d: Seq<char>,
)
    requires
        b.spec matches Some(s) && s.upload matches Some(v) && 0 <= i < v@.len() && v@[i]@ == u,
        find(u, ':') == Some(k),
        d == "/etc"@ || d == "/usr"@ || d == "/bin"@ || d == "/sbin"@,
        u.skip(k + 1) == d || (d + "/"@).is_prefix_of(u.skip(k + 1)),
    ensures
        blueprint_errors(b, cores_ok).contains(
            (
                "spec.upload["@ + decimal(i as nat) + "]"@,
                "Upload remote path '"@ + u.skip(k + 1) + "' targets system directory '"@ + d
                    + "'. Writing to system directories is not allowed."@,
            ),
        ),
{
    let s = b.spec->Some_0;
    let v = s.upload->Some_0;
    let remote = u.skip(k + 1);
    let x: Issue = (
        "spec.upload["@ + decimal(i as nat) + "]"@,
        "Upload remote path '"@ + remote + "' targets system directory '"@ + d
            + "'. Writing to system directories is not allowed."@,
    );
    lemma_system_dir_named(remote, d);
    let traversal: Seq<Issue> = if contains_seq(u.take(k), ".."@) {
        seq![
            (
                upload_field(i),
                "Upload local path contains '..'. Path traversal is not allowed. Use a direct relative path instead. Got: '"@
                    + u.take(k) + "'."@,
            ),
        ]
    } else {
        Seq::empty()
    };
    assert(upload_issues(u, i) == traversal + seq![x]);
    lemma_contains_in_concat(traversal, seq![x], x);
    assert(seq![x][0] == x);
    lemma_upload_issues_in_list(v@, v@.len() as int, i, x);
    reveal(opt_uploads_issues);
    assert(opt_uploads_issues(&s) == uploads_issues(v@, v@.len() as int));
    let a = opt_servers_issues(&s) + opt_forwards_issues(&s) + opt_resources_issues(&s, cores_ok);
    lemma_contains_in_concat(a, opt_uploads_issues(&s), x);
    lemma_contains_in_concat(image_issues(&s) + policy_issues(&s), spec_list_issues(&s, cores_ok), x);
    let head = api_version_issues(b) + kind_issues(b) + metadata_issues(b);
    lemma_contains_in_concat(head, spec_issues(b, cores_ok), x);
}

} // verus!
