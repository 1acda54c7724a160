//! Blueprint documents read and validated end to end. The YAML is read into
//! the library's `Blueprint` by hand here, the way a typed deserializer
//! would: known keys by name, everything else recorded as unknown.

use darkshell::blueprint_parse::{check_blueprint_text, ParseError, MAX_BLUEPRINT_SIZE};
use darkshell::orchestrator::build_plan;
use darkshell::schema::{
    validate, Blueprint, BlueprintMetadata, BlueprintSpec,
    McpServerEntry, McpTransport, ResourceSpec, ValidationResult,
};
use serde_yaml::{Mapping, Value};

fn opt_string(v: Option<&Value>) -> Result<Option<String>, String> {
    match v {
        None | Some(Value::Null) => Ok(None),
        Some(Value::String(s)) => Ok(Some(s.clone())),
        Some(other) => Err(format!("invalid type: {other:?}, expected a string")),
    }
}

fn opt_strings(v: Option<&Value>) -> Result<Option<Vec<String>>, String> {
    match v {
        None | Some(Value::Null) => Ok(None),
        Some(Value::Sequence(items)) => items
            .iter()
            .map(|i| opt_string(Some(i))?.ok_or_else(|| "null in list".to_string()))
            .collect::<Result<Vec<_>, _>>()
            .map(Some),
        Some(other) => Err(format!("invalid type: {other:?}, expected a sequence")),
    }
}

fn mapping(v: &Value) -> Result<&Mapping, String> {
    match v {
        Value::Mapping(m) => Ok(m),
        other => Err(format!("invalid type: {other:?}, expected a map")),
    }
}

fn unknown_keys(m: &Mapping, known: &[&str]) -> Vec<String> {
    m.keys()
        .filter_map(|k| k.as_str())
        .filter(|k| !known.contains(k))
        .map(String::from)
        .collect()
}

fn transport(v: Option<&Value>) -> Result<Option<McpTransport>, String> {
    match opt_string(v)?.as_deref() {
        None => Ok(None),
        Some("bridge") => Ok(Some(McpTransport::Bridge)),
        Some("in-sandbox") => Ok(Some(McpTransport::InSandbox)),
        Some("streamable-http") => Ok(Some(McpTransport::StreamableHttp)),
        Some(other) => Err(format!("unknown variant `{other}`")),
    }
}

fn server(v: &Value) -> Result<McpServerEntry, String> {
    let m = mapping(v)?;
    Ok(McpServerEntry {
        name: opt_string(m.get("name"))?,
        transport: transport(m.get("transport"))?,
        command: opt_string(m.get("command"))?,
        env: opt_strings(m.get("env"))?,
        url: opt_string(m.get("url"))?,
        extra: unknown_keys(m, &["name", "transport", "command", "env", "url"]),
    })
}

fn spec(v: &Value) -> Result<BlueprintSpec, String> {
    let m = mapping(v)?;
    let mcp_servers = match m.get("mcp_servers") {
        None | Some(Value::Null) => None,
        Some(Value::Sequence(items)) => Some(items.iter().map(server).collect::<Result<Vec<_>, _>>()?),
        Some(other) => return Err(format!("invalid type: {other:?}, expected a sequence")),
    };
    let resources = match m.get("resources") {
        None | Some(Value::Null) => None,
        Some(r) => {
            let rm = mapping(r)?;
            Some(ResourceSpec {
                cpu: opt_string(rm.get("cpu"))?,
                memory: opt_string(rm.get("memory"))?,
                extra: unknown_keys(rm, &["cpu", "memory"]),
            })
        }
    };
    Ok(BlueprintSpec {
        image: opt_string(m.get("image"))?,
        policy: opt_string(m.get("policy"))?,
        providers: opt_strings(m.get("providers"))?,
        mcp_servers,
        forwards: opt_strings(m.get("forwards"))?,
        resources,
        upload: opt_strings(m.get("upload"))?,
        extra: unknown_keys(
            m,
            &["image", "policy", "providers", "mcp_servers", "forwards", "resources", "upload"],
        ),
    })
}

fn parse_blueprint(yaml: &str) -> Result<Blueprint, String> {
    let text = check_blueprint_text(yaml).map_err(|e| e.to_display_string())?;
    let doc: Value = serde_yaml::from_str(&text).map_err(|e| e.to_string())?;
    let m = mapping(&doc)?;
    let metadata = match m.get("metadata") {
        None | Some(Value::Null) => None,
        Some(v) => {
            let mm = mapping(v)?;
            Some(BlueprintMetadata {
                name: opt_string(mm.get("name"))?,
                description: opt_string(mm.get("description"))?,
                extra: unknown_keys(mm, &["name", "description"]),
            })
        }
    };
    let spec = match m.get("spec") {
        None | Some(Value::Null) => None,
        Some(v) => Some(spec(v)?),
    };
    Ok(Blueprint {
        api_version: opt_string(m.get("apiVersion"))?,
        kind: opt_string(m.get("kind"))?,
        metadata,
        spec,
        extra: unknown_keys(m, &["apiVersion", "kind", "metadata", "spec"]),
    })
}

/// Whether a CPU quantity reads as a positive, finite number of cores.
fn cores_ok(s: &str) -> bool {
    s.parse::<f64>().is_ok_and(|v| v > 0.0 && v.is_finite())
}

fn check(bp: &Blueprint) -> ValidationResult {
    let ok = bp
        .spec
        .as_ref()
        .and_then(|s| s.resources.as_ref())
        .and_then(|r| r.cpu.as_deref())
        .is_some_and(cores_ok);
    validate(bp, ok)
}

fn full_blueprint_yaml() -> &'static str {
    r#"
apiVersion: darkshell/v1
kind: Blueprint
metadata:
  name: my-dev-sandbox
  description: Development sandbox with MCP servers
spec:
  image: ubuntu:22.04
  policy: policies/dev.yaml
  providers:
    - github
    - openai
  mcp_servers:
    - name: code-assist
      transport: bridge
      command: npx @modelcontextprotocol/server-code
      env:
        - GITHUB_TOKEN
    - name: local-tools
      transport: in-sandbox
      command: /usr/local/bin/mcp-tools
    - name: remote-api
      transport: streamable-http
      url: https://api.example.com/mcp
  forwards:
    - "8080"
    - "127.0.0.1:3000"
  resources:
    cpu: "2"
    memory: 4Gi
  upload:
    - "./src:~/project/src"
    - "./config:~/project/config"
"#
}

fn minimal_blueprint_yaml() -> &'static str {
    r#"
apiVersion: darkshell/v1
kind: Blueprint
metadata:
  name: minimal
spec:
  image: ubuntu:22.04
"#
}

fn parse(yaml: &str) -> Blueprint {
    parse_blueprint(yaml).expect("should parse")
}

fn error_fields(r: &ValidationResult) -> Vec<String> {
    r.errors.iter().map(|e| e.field.clone()).collect()
}

#[test]
fn test_blueprint_schema_parses_full_spec_with_all_fields() {
    let bp = parse_blueprint(full_blueprint_yaml()).expect("should parse full blueprint");
    assert_eq!(bp.api_version.as_deref(), Some("darkshell/v1"));
    assert_eq!(bp.kind.as_deref(), Some("Blueprint"));
    let meta = bp.metadata.as_ref().expect("metadata present");
    assert_eq!(meta.name.as_deref(), Some("my-dev-sandbox"));
    assert_eq!(meta.description.as_deref(), Some("Development sandbox with MCP servers"));
    let spec = bp.spec.as_ref().expect("spec present");
    assert_eq!(spec.image.as_deref(), Some("ubuntu:22.04"));
    assert_eq!(spec.policy.as_deref(), Some("policies/dev.yaml"));
    assert_eq!(spec.providers.as_deref(), Some(["github", "openai"].map(String::from).as_slice()));
    let servers = spec.mcp_servers.as_ref().expect("mcp_servers present");
    assert_eq!(servers.len(), 3);
    assert_eq!(servers[0].name.as_deref(), Some("code-assist"));
    assert_eq!(servers[0].transport, Some(McpTransport::Bridge));
    assert_eq!(servers[1].transport, Some(McpTransport::InSandbox));
    assert_eq!(servers[2].transport, Some(McpTransport::StreamableHttp));
    assert_eq!(servers[2].url.as_deref(), Some("https://api.example.com/mcp"));
    let forwards = spec.forwards.as_ref().expect("forwards present");
    assert_eq!(forwards.len(), 2);
    let resources = spec.resources.as_ref().expect("resources present");
    assert_eq!(resources.cpu.as_deref(), Some("2"));
    assert_eq!(resources.memory.as_deref(), Some("4Gi"));
    let uploads = spec.upload.as_ref().expect("upload present");
    assert_eq!(uploads.len(), 2);
}

#[test]
fn test_blueprint_schema_parses_minimal_spec_with_only_required_fields() {
    let bp = parse_blueprint(minimal_blueprint_yaml()).expect("should parse minimal blueprint");
    let result = check(&bp);
    assert!(result.errors.is_empty(), "errors: {:?}", result.errors);
    assert_eq!(bp.api_version.as_deref(), Some("darkshell/v1"));
    let meta = bp.metadata.as_ref().expect("metadata present");
    assert_eq!(meta.name.as_deref(), Some("minimal"));
    let spec = bp.spec.as_ref().expect("spec present");
    assert_eq!(spec.image.as_deref(), Some("ubuntu:22.04"));
}

#[test]
fn test_blueprint_validate_rejects_missing_required_fields() {
    let yaml = "\napiVersion: darkshell/v1\nkind: Blueprint\nmetadata: {}\nspec: {}\n";
    let result = check(&parse(yaml));
    let fields = error_fields(&result);
    assert!(fields.contains(&"metadata.name".to_string()), "expected metadata.name error, got: {fields:?}");
    assert!(fields.contains(&"spec.image".to_string()), "expected spec.image error, got: {fields:?}");
}

#[test]
fn test_blueprint_validate_reports_all_errors_not_just_first() {
    let result = check(&parse("\nkind: Blueprint\nspec: {}\n"));
    assert!(result.errors.len() >= 3, "expected at least 3 errors, got {:?}", result.errors);
}

#[test]
fn test_validation_error_includes_field_path() {
    let yaml = r#"
apiVersion: darkshell/v1
kind: Blueprint
metadata:
  name: test
spec:
  image: ubuntu:22.04
  mcp_servers:
    - name: broken
      transport: bridge
"#;
    let result = check(&parse(yaml));
    assert!(
        result.errors.iter().any(|e| e.field.starts_with("spec.mcp_servers[0]")),
        "expected error with field path containing 'spec.mcp_servers[0]', got: {:?}",
        result.errors
    );
}

#[test]
fn test_unknown_fields_produce_warning_not_error() {
    let yaml = r#"
apiVersion: darkshell/v1
kind: Blueprint
metadata:
  name: test-sandbox
  custom_label: my-label
spec:
  image: ubuntu:22.04
  future_field: some-value
extra_top_level: hello
"#;
    let result = check(&parse(yaml));
    assert!(result.errors.is_empty(), "unknown fields should not cause errors: {:?}", result.errors);
    assert!(result.warnings.len() >= 3, "expected at least 3 warnings, got {:?}", result.warnings);
    let fields: Vec<&str> = result.warnings.iter().map(|w| w.field.as_str()).collect();
    assert!(fields.iter().any(|f| f.contains("extra_top_level")));
    assert!(fields.iter().any(|f| f.contains("custom_label")));
    assert!(fields.iter().any(|f| f.contains("future_field")));
}

#[test]
fn test_invalid_api_version_rejected_with_upgrade_suggestion() {
    let yaml = "\napiVersion: darkshell/v2\nkind: Blueprint\nmetadata:\n  name: test\nspec:\n  image: ubuntu:22.04\n";
    let result = check(&parse(yaml));
    let e = result.errors.iter().find(|e| e.field == "apiVersion").expect("expected apiVersion error");
    assert!(e.message.contains("upgrade"), "error should suggest upgrading: {}", e.message);
}

#[test]
fn test_missing_api_version_rejected() {
    let yaml = "\nkind: Blueprint\nmetadata:\n  name: test\nspec:\n  image: ubuntu:22.04\n";
    let result = check(&parse(yaml));
    assert!(result.errors.iter().any(|e| e.field == "apiVersion"), "got: {:?}", result.errors);
}

fn with_servers(servers: &str) -> String {
    format!(
        "\napiVersion: darkshell/v1\nkind: Blueprint\nmetadata:\n  name: test\nspec:\n  image: ubuntu:22.04\n  mcp_servers:\n{servers}"
    )
}

#[test]
fn test_bridge_transport_requires_command_forbids_url() {
    let yaml = with_servers("    - name: bad-bridge\n      transport: bridge\n      url: https://example.com\n");
    let fields = error_fields(&check(&parse(&yaml)));
    assert!(fields.iter().any(|f| f.contains("command")), "expected command-required error: {fields:?}");
    assert!(fields.iter().any(|f| f.contains("url")), "expected url-forbidden error: {fields:?}");
}

#[test]
fn test_in_sandbox_transport_requires_command_forbids_env() {
    let yaml = with_servers("    - name: bad-insandbox\n      transport: in-sandbox\n      env:\n        - SECRET_KEY\n");
    let fields = error_fields(&check(&parse(&yaml)));
    assert!(fields.iter().any(|f| f.contains("command")), "expected command-required error: {fields:?}");
    assert!(fields.iter().any(|f| f.contains("env")), "expected env-forbidden error: {fields:?}");
}

#[test]
fn test_streamable_http_transport_requires_url_forbids_command() {
    let yaml = with_servers("    - name: bad-http\n      transport: streamable-http\n      command: some-command\n");
    let fields = error_fields(&check(&parse(&yaml)));
    assert!(fields.iter().any(|f| f.contains("url")), "expected url-required error: {fields:?}");
    assert!(fields.iter().any(|f| f.contains("command")), "expected command-forbidden error: {fields:?}");
}

fn with_spec_lines(lines: &str) -> String {
    format!(
        "\napiVersion: darkshell/v1\nkind: Blueprint\nmetadata:\n  name: test\nspec:\n  image: ubuntu:22.04\n{lines}"
    )
}

#[test]
fn test_valid_port_forward_specs_accepted() {
    let yaml = with_spec_lines(
        "  forwards:\n    - \"8080\"\n    - \"127.0.0.1:3000\"\n    - \"0.0.0.0:443\"\n    - \"1\"\n    - \"65535\"\n",
    );
    let result = check(&parse(&yaml));
    let errs: Vec<_> = result.errors.iter().filter(|e| e.field.starts_with("spec.forwards")).collect();
    assert!(errs.is_empty(), "valid forwards should not produce errors: {errs:?}");
}

#[test]
fn test_invalid_port_forward_spec_rejected_with_format_hint() {
    let yaml = with_spec_lines("  forwards:\n    - \"abc\"\n    - \"0\"\n    - \"99999\"\n");
    let result = check(&parse(&yaml));
    let errs: Vec<_> = result.errors.iter().filter(|e| e.field.starts_with("spec.forwards")).collect();
    assert_eq!(errs.len(), 3, "expected 3 forward errors, got: {errs:?}");
}

#[test]
fn test_valid_resource_limits_accepted() {
    let yaml = with_spec_lines("  resources:\n    cpu: \"500m\"\n    memory: 4Gi\n");
    let result = check(&parse(&yaml));
    let errs: Vec<_> = result.errors.iter().filter(|e| e.field.starts_with("spec.resources")).collect();
    assert!(errs.is_empty(), "valid resources should not produce errors: {errs:?}");
}

#[test]
fn test_invalid_resource_cpu_rejected_with_examples() {
    let yaml = with_spec_lines("  resources:\n    cpu: \"lots\"\n");
    let result = check(&parse(&yaml));
    let e = result.errors.iter().find(|e| e.field == "spec.resources.cpu").expect("expected CPU error");
    assert!(e.message.contains("500m"), "error should include valid example: {}", e.message);
}

#[test]
fn test_invalid_resource_memory_rejected_with_examples() {
    let yaml = with_spec_lines("  resources:\n    memory: \"big\"\n");
    let result = check(&parse(&yaml));
    let e = result.errors.iter().find(|e| e.field == "spec.resources.memory").expect("expected memory error");
    assert!(e.message.contains("4Gi"), "error should include valid example: {}", e.message);
}

#[test]
fn test_empty_input_produces_clear_error() {
    let err = parse_blueprint("").unwrap_err();
    assert!(err.contains("Empty blueprint file"), "expected empty file error, got: {err}");
}

#[test]
fn test_whitespace_only_input_produces_clear_error() {
    let err = parse_blueprint("   \n  \n  ").unwrap_err();
    assert!(err.contains("Empty blueprint file"), "expected empty file error, got: {err}");
}

#[test]
fn test_yaml_list_instead_of_map_produces_clear_error() {
    let err = parse_blueprint("- item1\n- item2").unwrap_err();
    assert!(err.contains("sequence"), "expected 'sequence' in error, got: {err}");
}

#[test]
fn test_invalid_yaml_syntax_produces_parse_error() {
    assert!(parse_blueprint("invalid: yaml: [broken").is_err());
}

#[test]
fn test_blueprint_name_with_invalid_chars_rejected() {
    let yaml = "\napiVersion: darkshell/v1\nkind: Blueprint\nmetadata:\n  name: My_Sandbox!\nspec:\n  image: ubuntu:22.04\n";
    let result = check(&parse(yaml));
    let e = result.errors.iter().find(|e| e.field == "metadata.name").expect("expected name validation error");
    assert!(e.message.contains("[a-z0-9]"), "error should show valid pattern: {}", e.message);
}

#[test]
fn test_duplicate_mcp_server_names_rejected() {
    let yaml = with_servers(
        "    - name: my-server\n      transport: bridge\n      command: cmd1\n    - name: my-server\n      transport: bridge\n      command: cmd2\n",
    );
    let result = check(&parse(&yaml));
    assert!(
        result.errors.iter().any(|e| e.message.contains("Duplicate MCP server name")),
        "expected duplicate name error, got: {:?}",
        result.errors
    );
}

#[test]
fn test_upload_spec_missing_colon_rejected() {
    let yaml = with_spec_lines("  upload:\n    - \"path-without-colon\"\n");
    let result = check(&parse(&yaml));
    let e = result.errors.iter().find(|e| e.field.starts_with("spec.upload")).expect("expected upload error");
    assert!(e.message.contains("local:remote"), "error should show expected format: {}", e.message);
}

#[test]
fn test_full_valid_blueprint_produces_no_errors_or_warnings() {
    let result = check(&parse(full_blueprint_yaml()));
    assert!(result.errors.is_empty(), "full valid blueprint should have no errors: {:?}", result.errors);
    assert!(result.warnings.is_empty(), "full valid blueprint should have no warnings: {:?}", result.warnings);
}

#[test]
fn test_missing_kind_rejected() {
    let yaml = "\napiVersion: darkshell/v1\nmetadata:\n  name: test\nspec:\n  image: ubuntu:22.04\n";
    let result = check(&parse(yaml));
    assert!(result.errors.iter().any(|e| e.field == "kind"), "expected kind error, got: {:?}", result.errors);
}

#[test]
fn test_wrong_kind_rejected() {
    let yaml = "\napiVersion: darkshell/v1\nkind: Deployment\nmetadata:\n  name: test\nspec:\n  image: ubuntu:22.04\n";
    let result = check(&parse(yaml));
    let e = result.errors.iter().find(|e| e.field == "kind").expect("expected kind error");
    assert!(e.message.contains("Blueprint"), "should suggest correct kind: {}", e.message);
}

fn mcp_errors(yaml: &str) -> Vec<String> {
    check(&parse(yaml))
        .errors
        .iter()
        .filter(|e| e.field.starts_with("spec.mcp_servers"))
        .map(|e| e.to_display_string())
        .collect()
}

#[test]
fn test_valid_bridge_server() {
    let yaml = with_servers(
        "    - name: my-bridge\n      transport: bridge\n      command: npx @modelcontextprotocol/server\n      env:\n        - API_KEY\n",
    );
    let errs = mcp_errors(&yaml);
    assert!(errs.is_empty(), "valid bridge server should not produce errors: {errs:?}");
}

#[test]
fn test_valid_streamable_http_server() {
    let yaml = with_servers("    - name: my-http\n      transport: streamable-http\n      url: https://api.example.com/mcp\n");
    let errs = mcp_errors(&yaml);
    assert!(errs.is_empty(), "valid streamable-http server should not produce errors: {errs:?}");
}

#[test]
fn test_valid_in_sandbox_server() {
    let yaml = with_servers("    - name: tally\n      transport: in-sandbox\n      command: /usr/local/bin/mcp-tally\n");
    let errs = mcp_errors(&yaml);
    assert!(errs.is_empty(), "valid in-sandbox server should not produce errors: {errs:?}");
}

#[test]
fn test_in_sandbox_transport_rejects_env_with_actionable_message() {
    let yaml = with_servers(
        "    - name: bad-insandbox\n      transport: in-sandbox\n      command: /usr/local/bin/mcp-tally\n      env:\n        - GITHUB_TOKEN\n        - OPENAI_API_KEY\n",
    );
    let result = check(&parse(&yaml));
    let env_errors: Vec<_> = result.errors.iter().filter(|e| e.field.contains(".env")).collect();
    assert!(!env_errors.is_empty(), "in-sandbox transport with env should produce an error");
    let msg = &env_errors[0].message;
    assert!(msg.contains("credentials are not injected"), "error should explain why env is forbidden: {msg}");
}

#[test]
fn test_in_sandbox_transport_requires_command() {
    let yaml = with_servers("    - name: no-cmd\n      transport: in-sandbox\n");
    let result = check(&parse(&yaml));
    assert!(
        result.errors.iter().any(|e| e.field.contains(".command")),
        "in-sandbox transport without command should produce an error"
    );
}

#[test]
fn test_oversized_input_rejected_with_actionable_error() {
    let huge_input = "x".repeat(MAX_BLUEPRINT_SIZE + 1);
    let msg = parse_blueprint(&huge_input).unwrap_err();
    assert!(msg.contains("exceeding"), "error should mention size limit: {msg}");
}

#[test]
fn test_yaml_anchor_bomb_handled_safely() {
    let bomb = r#"
a: &a ["lol","lol","lol","lol","lol","lol","lol","lol","lol"]
b: &b [*a,*a,*a,*a,*a,*a,*a,*a,*a]
c: &c [*b,*b,*b,*b,*b,*b,*b,*b,*b]
d: &d [*c,*c,*c,*c,*c,*c,*c,*c,*c]
"#;
    if let Ok(bp) = parse_blueprint(bomb) {
        let validation = check(&bp);
        assert!(!validation.errors.is_empty(), "anchor bomb should not produce a valid blueprint");
    }
}

#[test]
fn test_empty_list_fields_produce_no_errors() {
    let yaml = with_spec_lines("  mcp_servers: []\n  forwards: []\n  providers: []\n  upload: []\n");
    let result = check(&parse(&yaml));
    assert!(result.errors.is_empty(), "empty lists should produce no errors: {:?}", result.errors);
}

#[test]
fn test_valid_factory_blueprint() {
    let yaml = r#"
apiVersion: darkshell/v1
kind: Blueprint
metadata:
  name: factory-sandbox
  description: Full factory blueprint for integration testing
spec:
  image: ghcr.io/org/factory:latest
  policy: policies/default.yaml
  providers:
    - github
    - docker
  mcp_servers:
    - name: tally
      transport: bridge
      command: mcp-tally
      env:
        - GITHUB_TOKEN
    - name: local-tools
      transport: in-sandbox
      command: /usr/local/bin/mcp-tools
    - name: remote-api
      transport: streamable-http
      url: https://api.example.com/mcp
  forwards:
    - "8080"
    - "127.0.0.1:3000"
  resources:
    cpu: "2"
    memory: 4Gi
  upload:
    - src:/workspace/src
    - config.yaml:/workspace/config.yaml
"#;
    let result = check(&parse(yaml));
    assert!(result.errors.is_empty(), "valid factory blueprint should have no errors, got: {:?}", result.errors);
}

#[test]
fn test_missing_image_reports_error() {
    let yaml = "\napiVersion: darkshell/v1\nkind: Blueprint\nmetadata:\n  name: no-image\nspec:\n  providers:\n    - github\n";
    let result = check(&parse(yaml));
    assert!(!result.errors.is_empty(), "missing image should produce at least one error");
    let e = result.errors.iter().find(|e| e.field.contains("image")).expect("should have an error mentioning 'image'");
    assert!(e.field.contains("spec.image"), "error field path should contain 'spec.image', got: {}", e.field);
}

#[test]
fn test_invalid_mcp_transport_reports_error() {
    let yaml = "\napiVersion: darkshell/v1\nkind: Blueprint\nmetadata:\n  name: bad-mcp\nspec:\n  image: ubuntu:22.04\n  mcp_servers:\n    - name: no-command-bridge\n      transport: bridge\n";
    let result = check(&parse(yaml));
    let e = result
        .errors
        .iter()
        .find(|e| e.field.contains("command"))
        .expect("bridge without command should produce command error");
    assert!(e.message.contains("command"), "error message should mention 'command', got: {}", e.message);
}

#[test]
fn test_path_traversal_rejected() {
    let yaml = "\napiVersion: darkshell/v1\nkind: Blueprint\nmetadata:\n  name: path-traversal\nspec:\n  image: ubuntu:22.04\n  upload:\n    - \"../../etc/passwd:/workspace/stolen\"\n";
    let result = check(&parse(yaml));
    let e = result
        .errors
        .iter()
        .find(|e| e.field.contains("upload") && e.message.contains(".."))
        .expect("path traversal should produce an error mentioning '..'");
    assert!(e.message.to_lowercase().contains("traversal"), "error should mention path traversal, got: {}", e.message);
}

#[test]
fn test_shell_metachar_in_command_warns() {
    let yaml = "\napiVersion: darkshell/v1\nkind: Blueprint\nmetadata:\n  name: shell-metachar\nspec:\n  image: ubuntu:22.04\n  mcp_servers:\n    - name: dangerous\n      transport: bridge\n      command: \"echo hello; rm -rf /\"\n";
    let result = check(&parse(yaml));
    let w = result
        .warnings
        .iter()
        .find(|w| w.field.contains("command") && w.message.contains("metacharacter"))
        .expect("shell metacharacters should produce a warning");
    assert!(w.message.contains("shell"), "warning should mention shell, got: {}", w.message);
    assert!(
        !result
            .errors
            .iter()
            .any(|e| e.field.contains("command") && e.message.to_lowercase().contains("metacharacter")),
        "shell metacharacters should be a warning, not an error"
    );
}

#[test]
fn test_unknown_fields_produce_warnings() {
    let yaml = "\napiVersion: darkshell/v1\nkind: Blueprint\nmetadata:\n  name: extra-fields\nspec:\n  image: ubuntu:22.04\n  foo: bar\n";
    let result = check(&parse(yaml));
    assert!(result.errors.iter().all(|e| !e.field.contains("foo")), "unknown fields should not produce errors");
    assert!(
        result.warnings.iter().any(|w| w.field.contains("foo") || w.message.contains("foo")),
        "unknown field 'foo' should produce a warning. Warnings: {:?}",
        result.warnings
    );
}

#[test]
fn test_blueprint_size_limit() {
    let oversized = "a".repeat(MAX_BLUEPRINT_SIZE + 1);
    let err = check_blueprint_text(&oversized).unwrap_err();
    assert!(matches!(err, ParseError::InputTooLarge { .. }), "oversized input should produce InputTooLarge");
}

#[test]
fn test_multiple_errors_collected() {
    let yaml = "\nkind: Blueprint\nmetadata:\n  name: multi-error\nspec:\n  providers:\n    - github\n  upload:\n    - \"../../etc/shadow:/workspace/shadow\"\n";
    let result = check(&parse(yaml));
    assert!(result.errors.len() >= 3, "should collect at least 3 errors, got {:?}", result.errors);
    assert!(result.errors.iter().any(|e| e.field.contains("apiVersion")), "should report missing apiVersion");
    assert!(result.errors.iter().any(|e| e.field.contains("image")), "should report missing image");
    assert!(result.errors.iter().any(|e| e.field.contains("upload")), "should report upload path traversal");
}

#[test]
fn text_checks_report_each_error_exactly() {
    match check_blueprint_text(&"a".repeat(MAX_BLUEPRINT_SIZE + 1)) {
        Err(ParseError::InputTooLarge { size, max }) => {
            assert_eq!(size, MAX_BLUEPRINT_SIZE + 1);
            assert_eq!(max, MAX_BLUEPRINT_SIZE);
        }
        other => panic!("unexpected: {other:?}"),
    }
    assert_eq!(
        check_blueprint_text("42").unwrap_err().to_display_string(),
        "Blueprint must be a YAML mapping, not a number. Expected `apiVersion`, `kind`, `metadata`, `spec`."
    );
    assert!(matches!(check_blueprint_text("~"), Err(ParseError::EmptyInput)));
    assert!(matches!(check_blueprint_text("true"), Err(ParseError::NotAMapping { ref actual_type }) if actual_type == "boolean"));
    assert!(matches!(check_blueprint_text("'text'"), Err(ParseError::NotAMapping { ref actual_type }) if actual_type == "string"));
    assert!(check_blueprint_text("[a").unwrap_err().to_display_string().starts_with("YAML parse error: "));
    assert_eq!(check_blueprint_text("  a: 1 \n").unwrap(), "a: 1");
}

#[test]
fn test_build_plan_full_blueprint() {
    let blueprint = parse_blueprint(full_blueprint_yaml()).expect("parse");
    let plan = build_plan(&blueprint).expect("build plan");
    assert_eq!(plan.sandbox_name, "my-dev-sandbox");
    assert_eq!(plan.image, "ubuntu:22.04");
    assert_eq!(plan.policy, Some("policies/dev.yaml".to_string()));
    assert_eq!(plan.providers, vec!["github", "openai"]);
    assert_eq!(plan.bridge_servers.len(), 1);
    assert_eq!(plan.bridge_servers[0].name, "code-assist");
    assert_eq!(plan.in_sandbox_servers.len(), 1);
    assert_eq!(plan.in_sandbox_servers[0].name, "local-tools");
    assert_eq!(plan.forwards, vec!["8080", "127.0.0.1:3000"]);
    assert!(plan.resources.is_some());
    let resources = plan.resources.as_ref().expect("resources");
    assert_eq!(resources.cpu, Some("2".to_string()));
    assert_eq!(resources.memory, Some("4Gi".to_string()));
    assert_eq!(plan.uploads, vec!["./src:~/project/src", "./config:~/project/config"]);
}

#[test]
fn test_build_plan_minimal_blueprint() {
    let blueprint = parse_blueprint(minimal_blueprint_yaml()).expect("parse");
    let plan = build_plan(&blueprint).expect("build plan");
    assert_eq!(plan.sandbox_name, "minimal");
    assert_eq!(plan.image, "ubuntu:22.04");
    assert!(plan.policy.is_none());
    assert!(plan.providers.is_empty());
    assert!(plan.bridge_servers.is_empty());
    assert!(plan.in_sandbox_servers.is_empty());
    assert!(plan.forwards.is_empty());
    assert!(plan.resources.is_none());
    assert!(plan.uploads.is_empty());
}
