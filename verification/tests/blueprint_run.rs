use darkshell::orchestrator::{build_plan, prepare_plan, CompletedStep, OrchestrateError};
use darkshell::run::{CallOutcome, GatewayCall, PlanRun, RunPhase};
use darkshell::schema::{
    validate, Blueprint, BlueprintMetadata, BlueprintSpec, McpServerEntry, McpTransport,
    ResourceSpec,
};

fn s(x: &str) -> String {
    x.to_string()
}

fn server(name: &str, transport: McpTransport, command: Option<&str>, url: Option<&str>) -> McpServerEntry {
    McpServerEntry {
        name: Some(s(name)),
        transport: Some(transport),
        command: command.map(s),
        env: if transport == McpTransport::Bridge { Some(vec![s("GITHUB_TOKEN")]) } else { None },
        url: url.map(s),
        extra: vec![],
    }
}

fn full_blueprint() -> Blueprint {
    Blueprint {
        api_version: Some(s("darkshell/v1")),
        kind: Some(s("Blueprint")),
        metadata: Some(BlueprintMetadata {
            name: Some(s("my-dev-sandbox")),
            description: Some(s("Development sandbox with MCP servers")),
            extra: vec![],
        }),
        spec: Some(BlueprintSpec {
            image: Some(s("ubuntu:22.04")),
            policy: Some(s("policies/dev.yaml")),
            providers: Some(vec![s("github"), s("openai")]),
            mcp_servers: Some(vec![
                server("code-assist", McpTransport::Bridge, Some("npx @modelcontextprotocol/server-code"), None),
                server("local-tools", McpTransport::InSandbox, Some("/usr/local/bin/mcp-tools"), None),
                server("remote-api", McpTransport::StreamableHttp, None, Some("https://api.example.com/mcp")),
            ]),
            forwards: Some(vec![s("8080"), s("127.0.0.1:3000")]),
            resources: Some(ResourceSpec { cpu: Some(s("2")), memory: Some(s("4Gi")), extra: vec![] }),
            upload: Some(vec![s("./src:~/project/src"), s("./config:~/project/config")]),
            extra: vec![],
        }),
        extra: vec![],
    }
}

fn call_name(c: &GatewayCall) -> String {
    match c {
        GatewayCall::ValidateImage { .. } | GatewayCall::ValidateProvider { .. } | GatewayCall::ValidatePolicy { .. } => s("validate"),
        GatewayCall::CreateSandbox { .. } => s("create_sandbox"),
        GatewayCall::ApplyPolicy { .. } => s("apply_policy"),
        GatewayCall::AttachProvider { .. } => s("attach_provider"),
        GatewayCall::StartMcpBridge { server, .. } => format!("start_mcp_bridge:{server}"),
        GatewayCall::ConfigureInSandboxMcp { .. } => s("configure_in_sandbox_mcp"),
        GatewayCall::EstablishPortForward { spec, .. } => format!("establish_port_forward:{spec}"),
        GatewayCall::ApplyResourceLimits { .. } => s("apply_resource_limits"),
        GatewayCall::UploadFiles { .. } => s("upload_files"),
        GatewayCall::DeleteSandbox { name } => format!("delete_sandbox:{name}"),
        GatewayCall::StopMcpBridge { server, .. } => format!("stop_mcp_bridge:{server}"),
        GatewayCall::RemovePortForward { spec, .. } => format!("remove_port_forward:{spec}"),
    }
}

/// Drive a run, failing the call whose name is `fail_at`.
fn drive(blueprint: &Blueprint, fail_at: Option<&str>) -> (Vec<String>, Result<Vec<CompletedStep>, OrchestrateError>) {
    let plan = match prepare_plan(blueprint, true) {
        Ok(p) => p,
        Err(e) => return (vec![], Err(e)),
    };
    let mut run = PlanRun::new(plan);
    let mut calls = Vec::new();
    while let Some(call) = run.pending() {
        let name = call_name(call);
        let outcome = if Some(name.as_str()) == fail_at {
            CallOutcome::Failed(OrchestrateError::SandboxCreateFailed { reason: s("injected") })
        } else if let GatewayCall::CreateSandbox { name, .. } = call {
            CallOutcome::Created(name.clone())
        } else {
            CallOutcome::Succeeded
        };
        calls.push(name);
        run.report(outcome);
    }
    assert!(run.is_finished());
    (calls, run.into_result().expect("finished"))
}

#[test]
fn orchestration_order_is_deterministic() {
    let (calls, result) = drive(&full_blueprint(), None);
    let steps = result.expect("should succeed");
    let expected = vec![
        "validate", "validate", "validate", "validate", "create_sandbox", "apply_policy",
        "attach_provider", "attach_provider", "start_mcp_bridge:code-assist",
        "configure_in_sandbox_mcp", "establish_port_forward:8080",
        "establish_port_forward:127.0.0.1:3000", "apply_resource_limits", "upload_files",
        "upload_files",
    ];
    assert_eq!(calls, expected);
    let shown: Vec<String> = steps.iter().map(|st| st.to_display_string()).collect();
    assert_eq!(
        shown,
        vec![
            "sandbox 'my-dev-sandbox' created",
            "policy 'policies/dev.yaml' applied",
            "provider 'github' attached",
            "provider 'openai' attached",
            "MCP bridge 'code-assist' started",
            "in-sandbox MCP server 'local-tools' configured",
            "streamable-http MCP server 'remote-api' acknowledged at https://api.example.com/mcp",
            "port forward '8080' established",
            "port forward '127.0.0.1:3000' established",
            "resource limits applied",
            "files './src:~/project/src' uploaded",
            "files './config:~/project/config' uploaded",
        ]
    );
}

#[test]
fn rollback_runs_in_reverse_and_deletes_the_sandbox_last() {
    let (calls, result) = drive(&full_blueprint(), Some("establish_port_forward:127.0.0.1:3000"));
    assert!(matches!(result, Err(OrchestrateError::SandboxCreateFailed { .. })));
    let after_failure: Vec<&str> = calls
        .iter()
        .skip_while(|c| c.as_str() != "establish_port_forward:127.0.0.1:3000")
        .skip(1)
        .map(|c| c.as_str())
        .collect();
    assert_eq!(
        after_failure,
        vec!["remove_port_forward:8080", "stop_mcp_bridge:code-assist", "delete_sandbox:my-dev-sandbox"]
    );
}

#[test]
fn no_rollback_when_sandbox_creation_fails() {
    let (calls, result) = drive(&full_blueprint(), Some("create_sandbox"));
    assert!(result.is_err());
    assert_eq!(calls.last().unwrap(), "create_sandbox");
    assert!(!calls.iter().any(|c| c.starts_with("delete_sandbox")));
}

#[test]
fn failed_check_stops_before_creation() {
    let (calls, result) = drive(&full_blueprint(), Some("validate"));
    assert!(result.is_err());
    assert_eq!(calls, vec!["validate"]);
}

#[test]
fn minimal_blueprint_creates_only_the_sandbox() {
    let mut bp = full_blueprint();
    bp.spec = Some(BlueprintSpec {
        image: Some(s("ubuntu:22.04")),
        policy: None,
        providers: None,
        mcp_servers: None,
        forwards: None,
        resources: None,
        upload: None,
        extra: vec![],
    });
    bp.metadata = Some(BlueprintMetadata { name: Some(s("minimal")), description: None, extra: vec![] });
    let (calls, result) = drive(&bp, None);
    assert_eq!(calls, vec!["validate", "create_sandbox"]);
    let steps = result.unwrap();
    assert_eq!(steps, vec![CompletedStep::SandboxCreated { name: s("minimal") }]);
}

#[test]
fn gateway_chosen_name_is_recorded() {
    let plan = build_plan(&full_blueprint()).unwrap();
    let mut run = PlanRun::new(plan);
    for _ in 0..4 {
        run.report(CallOutcome::Succeeded);
    }
    run.report(CallOutcome::Created(s("other-name")));
    assert!(matches!(run.pending(), Some(GatewayCall::ApplyPolicy { .. })));
    let phase = format!("{:?}", RunPhase::Running);
    assert_eq!(phase, "Running");
}

#[test]
fn schema_errors_prevent_any_operation() {
    let mut bp = full_blueprint();
    bp.api_version = Some(s("v2"));
    bp.kind = None;
    let result = validate(&bp, true);
    assert_eq!(result.errors.len(), 2);
    match prepare_plan(&bp, true) {
        Err(OrchestrateError::ValidationFailed { count, details }) => {
            assert_eq!(count, 2);
            let lines: Vec<&str> = details.lines().collect();
            assert_eq!(lines.len(), 2);
            assert!(lines.iter().all(|l| l.starts_with("  - ")));
            assert!(lines[1].starts_with("  - kind: "));
        }
        other => panic!("unexpected: {other:?}"),
    }
}

#[test]
fn build_plan_groups_servers_by_transport() {
    let plan = build_plan(&full_blueprint()).expect("plan");
    assert_eq!(plan.sandbox_name, "my-dev-sandbox");
    assert_eq!(plan.bridge_servers.len(), 1);
    assert_eq!(plan.bridge_servers[0].env, vec![s("GITHUB_TOKEN")]);
    assert_eq!(plan.in_sandbox_servers.len(), 1);
    assert_eq!(plan.streamable_http_servers[0].url, "https://api.example.com/mcp");
    assert_eq!(plan.forwards.len(), 2);
    assert_eq!(plan.uploads.len(), 2);
    let mut bp = full_blueprint();
    bp.spec.as_mut().unwrap().image = Some(s(""));
    assert!(matches!(build_plan(&bp), Err(OrchestrateError::EmptyImage)));
    let mut bp = full_blueprint();
    bp.spec.as_mut().unwrap().mcp_servers.as_mut().unwrap()[1].command = None;
    match build_plan(&bp) {
        Err(OrchestrateError::InvalidBlueprint { reason }) => {
            assert_eq!(reason, "in-sandbox MCP server requires a 'command' field")
        }
        other => panic!("unexpected: {other:?}"),
    }
}

#[test]
fn orchestration_errors_are_actionable() {
    let image = OrchestrateError::ImageNotFound { image: "ghcr.io/x:1".to_string() };
    assert_eq!(
        image.to_display_string(),
        "Image `ghcr.io/x:1` not found. Check registry access and image name in `spec.image`."
    );
    let provider = OrchestrateError::ProviderNotFound { provider: "github".to_string() };
    assert_eq!(
        provider.to_display_string(),
        "Provider 'github' not found. Create with: `darkshell provider create --name github --type github`"
    );
    let failed = OrchestrateError::ValidationFailed { count: 2, details: "  - a\n  - b".to_string() };
    assert_eq!(failed.to_display_string(), "blueprint validation failed with 2 error(s):\n  - a\n  - b");
    let upload = OrchestrateError::UploadFailed { spec: "a:b".to_string(), reason: "denied".to_string() };
    assert_eq!(upload.to_display_string(), "failed to upload 'a:b': denied");
}
