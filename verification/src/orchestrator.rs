//! Blueprint-to-sandbox orchestration: the plan derived from a validated
//! blueprint, and the step-by-step run of that plan with rollback.
//!
//! The run is a state machine: it says which external operation comes next
//! (a resource check, a gateway call, a rollback call) and is told how each
//! one ended. On a failure after the sandbox was created, every completed
//! step is rolled back in reverse order.

use vstd::prelude::*;
use crate::schema::{
    blueprint_errors, error_issues, lengths_fit, validate, Blueprint, Issue, McpServerEntry,
    McpTransport, ValidationError,
};
use crate::text::{
    clone_opt_string, concat2, concat3, decimal, opt_strings, push_str_chars, strings_or_empty,
    to_owned_string, u64_to_decimal,
};

verus! {

// ---------------------------------------------------------------------------
// Error types
// ---------------------------------------------------------------------------

/// Errors that can occur during blueprint orchestration.
#[derive(Debug)]
pub enum OrchestrateError {
    /// Blueprint schema validation failed (pre-creation).
    ValidationFailed { count: usize, details: String },
    /// Image is not pullable / not found.
    ImageNotFound { image: String },
    /// Provider does not exist.
    ProviderNotFound { provider: String },
    /// Policy file does not exist on disk.
    PolicyFileNotFound { path: String },
    /// Empty image.
    EmptyImage,
    /// Blueprint is structurally invalid.
    InvalidBlueprint { reason: String },
    /// Sandbox creation failed via gateway API.
    SandboxCreateFailed { reason: String },
    /// Policy apply failed.
    PolicyApplyFailed { policy: String, reason: String },
    /// Provider attach failed.
    ProviderAttachFailed { provider: String, reason: String },
    /// MCP bridge start failed.
    McpBridgeFailed { server: String, reason: String },
    /// In-sandbox MCP server configuration failed.
    McpInSandboxFailed { server: String, reason: String },
    /// Port forward failed.
    PortForwardFailed { spec: String, reason: String },
    /// Resource limits failed.
    ResourceLimitsFailed { reason: String },
    /// File upload failed.
    UploadFailed { spec: String, reason: String },
    /// Rollback encountered errors.
    RollbackWarnings { warnings: String },
}

/// The message of an orchestration error.
pub open spec fn orchestrate_error_text(e: OrchestrateError) -> Seq<char> {
    match e {
        OrchestrateError::ValidationFailed { count, details } => "blueprint validation failed with "@
            + decimal(count as nat) + " error(s):\n"@ + details@,
        OrchestrateError::ImageNotFound { image } => "Image `"@ + image@
            + "` not found. Check registry access and image name in `spec.image`."@,
        OrchestrateError::ProviderNotFound { provider } => "Provider '"@ + provider@
            + "' not found. Create with: `darkshell provider create --name "@ + provider@
            + " --type "@ + provider@ + "`"@,
        OrchestrateError::PolicyFileNotFound { path } => "Policy file '"@ + path@
            + "' not found. Provide an absolute path or a path relative to the blueprint file."@,
        OrchestrateError::EmptyImage =>
            "`spec.image` is required. Specify a container image reference (e.g., `ghcr.io/org/image:tag`)."@,
        OrchestrateError::InvalidBlueprint { reason } => "invalid blueprint: "@ + reason@,
        OrchestrateError::SandboxCreateFailed { reason } => "sandbox creation failed: "@ + reason@,
        OrchestrateError::PolicyApplyFailed { policy, reason } => "failed to apply policy '"@
            + policy@ + "': "@ + reason@,
        OrchestrateError::ProviderAttachFailed { provider, reason } => "failed to attach provider '"@
            + provider@ + "': "@ + reason@,
        OrchestrateError::McpBridgeFailed { server, reason } =>
            "failed to start MCP bridge for server '"@ + server@ + "': "@ + reason@,
        OrchestrateError::McpInSandboxFailed { server, reason } =>
            "failed to configure in-sandbox MCP server '"@ + server@ + "': "@ + reason@,
        OrchestrateError::PortForwardFailed { spec, reason } => "failed to configure port forward '"@
            + spec@ + "': "@ + reason@,
        OrchestrateError::ResourceLimitsFailed { reason } => "failed to apply resource limits: "@
            + reason@,
        OrchestrateError::UploadFailed { spec, reason } => "failed to upload '"@ + spec@ + "': "@
            + reason@,
        OrchestrateError::RollbackWarnings { warnings } => "rollback completed with warnings: "@
            + warnings@,
    }
}

fn quoted_failure(prefix: &str, name: &str, reason: &str) -> (r: String)
    ensures
        r@ == prefix@ + name@ + "': "@ + reason@,
{
    let mut s = to_owned_string(prefix);
    push_str_chars(&mut s, name);
    push_str_chars(&mut s, "': ");
    push_str_chars(&mut s, reason);
    s
}

impl OrchestrateError {
    /// The error's message: what failed and how to fix it.
    pub fn to_display_string(&self) -> (r: String)
        ensures
            r@ == orchestrate_error_text(*self),
    {
        match self {
            OrchestrateError::ValidationFailed { count, details } => {
                let mut s = to_owned_string("blueprint validation failed with ");
                push_str_chars(&mut s, u64_to_decimal(*count as u64).as_str());
                push_str_chars(&mut s, " error(s):\n");
                push_str_chars(&mut s, details.as_str());
                s
            },
            OrchestrateError::ImageNotFound { image } => {
                let mut s = to_owned_string("Image `");
                push_str_chars(&mut s, image.as_str());
                push_str_chars(&mut s, "` not found. Check registry access and image name in `spec.image`.");
                s
            },
            OrchestrateError::ProviderNotFound { provider } => {
                let mut s = to_owned_string("Provider '");
                push_str_chars(&mut s, provider.as_str());
                push_str_chars(&mut s, "' not found. Create with: `darkshell provider create --name ");
                push_str_chars(&mut s, provider.as_str());
                push_str_chars(&mut s, " --type ");
                push_str_chars(&mut s, provider.as_str());
                push_str_chars(&mut s, "`");
                s
            },
            OrchestrateError::PolicyFileNotFound { path } => {
                let mut s = to_owned_string("Policy file '");
                push_str_chars(&mut s, path.as_str());
                push_str_chars(
                    &mut s,
                    "' not found. Provide an absolute path or a path relative to the blueprint file.",
                );
                s
            },
            OrchestrateError::EmptyImage => to_owned_string(
                "`spec.image` is required. Specify a container image reference (e.g., `ghcr.io/org/image:tag`).",
            ),
            OrchestrateError::InvalidBlueprint { reason } => concat2("invalid blueprint: ", reason.as_str()),
            OrchestrateError::SandboxCreateFailed { reason } => concat2("sandbox creation failed: ", reason.as_str()),
            OrchestrateError::PolicyApplyFailed { policy, reason } => quoted_failure(
                "failed to apply policy '",
                policy.as_str(),
                reason.as_str(),
            ),
            OrchestrateError::ProviderAttachFailed { provider, reason } => quoted_failure(
                "failed to attach provider '",
                provider.as_str(),
                reason.as_str(),
            ),
            OrchestrateError::McpBridgeFailed { server, reason } => quoted_failure(
                "failed to start MCP bridge for server '",
                server.as_str(),
                reason.as_str(),
            ),
            OrchestrateError::McpInSandboxFailed { server, reason } => quoted_failure(
                "failed to configure in-sandbox MCP server '",
                server.as_str(),
                reason.as_str(),
            ),
            OrchestrateError::PortForwardFailed { spec, reason } => quoted_failure(
                "failed to configure port forward '",
                spec.as_str(),
                reason.as_str(),
            ),
            OrchestrateError::ResourceLimitsFailed { reason } => concat2("failed to apply resource limits: ", reason.as_str()),
            OrchestrateError::UploadFailed { spec, reason } => quoted_failure(
                "failed to upload '",
                spec.as_str(),
                reason.as_str(),
            ),
            OrchestrateError::RollbackWarnings { warnings } => concat2("rollback completed with warnings: ", warnings.as_str()),
        }
    }
}

// ---------------------------------------------------------------------------
// Completed steps
// ---------------------------------------------------------------------------

/// A completed orchestration step that may need to be rolled back.
#[derive(Debug, PartialEq, Eq)]
pub enum CompletedStep {
    /// Sandbox was created with the given name.
    SandboxCreated { name: String },
    /// Policy was applied to the sandbox.
    PolicyApplied { sandbox: String, policy: String },
    /// Provider was attached to the sandbox.
    ProviderAttached { sandbox: String, provider: String },
    /// MCP bridge was started (host-side daemon).
    McpBridgeStarted { sandbox: String, server: String },
    /// In-sandbox MCP server was configured.
    McpInSandboxConfigured { sandbox: String, server: String },
    /// Port forward was established.
    PortForwardEstablished { sandbox: String, spec: String },
    /// Resource limits were applied.
    ResourceLimitsApplied { sandbox: String },
    /// Files were uploaded.
    FilesUploaded { sandbox: String, spec: String },
    /// Streamable-HTTP MCP server was acknowledged (no host-side orchestration needed).
    StreamableHttpAcknowledged { sandbox: String, server: String, url: String },
}

/// How a step is displayed.
pub open spec fn step_text(s: CompletedStep) -> Seq<char> {
    match s {
        CompletedStep::SandboxCreated { name } => "sandbox '"@ + name@ + "' created"@,
        CompletedStep::PolicyApplied { policy, .. } => "policy '"@ + policy@ + "' applied"@,
        CompletedStep::ProviderAttached { provider, .. } => "provider '"@ + provider@
            + "' attached"@,
        CompletedStep::McpBridgeStarted { server, .. } => "MCP bridge '"@ + server@ + "' started"@,
        CompletedStep::McpInSandboxConfigured { server, .. } => "in-sandbox MCP server '"@
            + server@ + "' configured"@,
        CompletedStep::PortForwardEstablished { spec, .. } => "port forward '"@ + spec@
            + "' established"@,
        CompletedStep::ResourceLimitsApplied { .. } => "resource limits applied"@,
        CompletedStep::FilesUploaded { spec, .. } => "files '"@ + spec@ + "' uploaded"@,
        CompletedStep::StreamableHttpAcknowledged { server, url, .. } => "streamable-http MCP server '"@
            + server@ + "' acknowledged at "@ + url@,
    }
}

impl CompletedStep {
    /// The step as it is displayed (e.g. `sandbox 'dev' created`).
    pub fn to_display_string(&self) -> (r: String)
        ensures
            r@ == step_text(*self),
    {
        match self {
            CompletedStep::SandboxCreated { name } => concat3("sandbox '", name.as_str(), "' created"),
            CompletedStep::PolicyApplied { policy, .. } => concat3(
                "policy '",
                policy.as_str(),
                "' applied",
            ),
            CompletedStep::ProviderAttached { provider, .. } => concat3(
                "provider '",
                provider.as_str(),
                "' attached",
            ),
            CompletedStep::McpBridgeStarted { server, .. } => concat3(
                "MCP bridge '",
                server.as_str(),
                "' started",
            ),
            CompletedStep::McpInSandboxConfigured { server, .. } => concat3(
                "in-sandbox MCP server '",
                server.as_str(),
                "' configured",
            ),
            CompletedStep::PortForwardEstablished { spec, .. } => concat3(
                "port forward '",
                spec.as_str(),
                "' established",
            ),
            CompletedStep::ResourceLimitsApplied { .. } => to_owned_string("resource limits applied"),
            CompletedStep::FilesUploaded { spec, .. } => concat3(
                "files '",
                spec.as_str(),
                "' uploaded",
            ),
            CompletedStep::StreamableHttpAcknowledged { server, url, .. } => {
                let mut r = concat3(
                    "streamable-http MCP server '",
                    server.as_str(),
                    "' acknowledged at ",
                );
                crate::text::push_str_chars(&mut r, url.as_str());
                r
            },
        }
    }
}

// ---------------------------------------------------------------------------
// Orchestration plan
// ---------------------------------------------------------------------------

/// An orchestration plan derived from a validated blueprint: what to do,
/// without doing it.
#[derive(Debug)]
pub struct OrchestrationPlan {
    /// Sandbox name (from metadata.name).
    pub sandbox_name: String,
    /// Container image reference.
    pub image: String,
    /// Optional policy file path.
    pub policy: Option<String>,
    /// Provider names to attach.
    pub providers: Vec<String>,
    /// MCP bridge servers to start (host-side).
    pub bridge_servers: Vec<McpBridgePlan>,
    /// MCP in-sandbox servers to configure.
    pub in_sandbox_servers: Vec<McpInSandboxPlan>,
    /// MCP streamable-http servers (acknowledged, no host-side orchestration).
    pub streamable_http_servers: Vec<McpStreamableHttpPlan>,
    /// Port forwards to establish.
    pub forwards: Vec<String>,
    /// Resource limits (cpu, memory).
    pub resources: Option<ResourcePlan>,
    /// Upload specs in `local:remote` format.
    pub uploads: Vec<String>,
}

/// Plan for starting an MCP bridge server.
#[derive(Debug)]
pub struct McpBridgePlan {
    /// Server name.
    pub name: String,
    /// Command to start the MCP server subprocess.
    pub command: String,
    /// Environment variable names for credential injection.
    pub env: Vec<String>,
}

/// Plan for configuring an in-sandbox MCP server.
#[derive(Debug)]
pub struct McpInSandboxPlan {
    /// Server name.
    pub name: String,
    /// Command to run inside the sandbox.
    pub command: String,
}

/// Plan for a streamable-HTTP MCP server.
#[derive(Debug)]
pub struct McpStreamableHttpPlan {
    /// Server name.
    pub name: String,
    /// HTTP(S) endpoint URL.
    pub url: String,
}

/// Resource limits plan.
#[derive(Debug)]
pub struct ResourcePlan {
    /// CPU quantity in Kubernetes format.
    pub cpu: Option<String>,
    /// Memory quantity in Kubernetes format.
    pub memory: Option<String>,
}

// ---------------------------------------------------------------------------
// Plan builder
// ---------------------------------------------------------------------------

/// Why a server entry cannot be planned, if it cannot.
pub open spec fn server_plan_error(s: McpServerEntry) -> Option<Seq<char>> {
    match s.name {
        None => Some("mcp_servers[].name is required"@),
        Some(name) => match s.transport {
            None => Some("mcp_servers['"@ + name@ + "'].transport is required"@),
            Some(McpTransport::Bridge) => if s.command is None {
                Some("bridge MCP server requires a 'command' field"@)
            } else {
                None
            },
            Some(McpTransport::InSandbox) => if s.command is None {
                Some("in-sandbox MCP server requires a 'command' field"@)
            } else {
                None
            },
            Some(McpTransport::StreamableHttp) => if s.url is None {
                Some("streamable-http MCP server requires a 'url' field"@)
            } else {
                None
            },
        },
    }
}

/// The error of the first of `servers[0..n]` that cannot be planned.
pub open spec fn first_server_error(servers: Seq<McpServerEntry>, n: int) -> Option<Seq<char>>
    decreases n,
{
    if n <= 0 {
        None
    } else {
        match first_server_error(servers, n - 1) {
            Some(e) => Some(e),
            None => server_plan_error(servers[n - 1]),
        }
    }
}

proof fn lemma_first_server_error_stable(servers: Seq<McpServerEntry>, k: int, n: int)
    requires
        0 <= k <= n,
        first_server_error(servers, k) is Some,
    ensures
        first_server_error(servers, n) == first_server_error(servers, k),
    decreases n - k,
{
    if n > k {
        lemma_first_server_error_stable(servers, k, n - 1);
    }
}

/// Why a blueprint cannot be planned.
pub enum PlanFailure {
    /// An `InvalidBlueprint` error with this reason.
    Invalid(Seq<char>),
    /// An `EmptyImage` error.
    EmptyImage,
}

/// Why `build_plan` fails on `b`, checked in the order the builder reads the
/// blueprint: metadata, spec, name, image, then each MCP server in turn.
pub open spec fn plan_failure(b: &Blueprint) -> Option<PlanFailure> {
    match (&b.metadata, &b.spec) {
        (None, _) => Some(PlanFailure::Invalid("blueprint is missing required 'metadata' section"@)),
        (Some(_), None) => Some(PlanFailure::Invalid("blueprint is missing required 'spec' section"@)),
        (Some(m), Some(s)) => if m.name is None {
            Some(PlanFailure::Invalid("metadata.name is required"@))
        } else if !(s.image matches Some(i) && i@.len() > 0) {
            Some(PlanFailure::EmptyImage)
        } else {
            match &s.mcp_servers {
                Some(v) => match first_server_error(v@, v@.len() as int) {
                    Some(e) => Some(PlanFailure::Invalid(e)),
                    None => None,
                },
                None => None,
            }
        },
    }
}

/// The servers of `servers[0..n]` with transport `t`, in order.
pub open spec fn with_transport(servers: Seq<McpServerEntry>, t: McpTransport, n: int) -> Seq<
    McpServerEntry,
>
    decreases n,
{
    if n <= 0 {
        Seq::empty()
    } else {
        let r = with_transport(servers, t, n - 1);
        if servers[n - 1].transport == Some(t) {
            r.push(servers[n - 1])
        } else {
            r
        }
    }
}

/// The servers of an optional list with transport `t`, in order.
pub open spec fn servers_with(o: Option<Vec<McpServerEntry>>, t: McpTransport) -> Seq<
    McpServerEntry,
> {
    match o {
        Some(v) => with_transport(v@, t, v@.len() as int),
        None => Seq::empty(),
    }
}

/// A bridge plan entry carries the server's name, command and env names.
pub open spec fn bridge_entry_matches(p: McpBridgePlan, s: McpServerEntry) -> bool {
    s.name == Some(p.name) && s.command == Some(p.command) && p.env@ == opt_strings(s.env)
}

/// An in-sandbox plan entry carries the server's name and command.
pub open spec fn in_sandbox_entry_matches(p: McpInSandboxPlan, s: McpServerEntry) -> bool {
    s.name == Some(p.name) && s.command == Some(p.command)
}

/// A streamable-HTTP plan entry carries the server's name and URL.
pub open spec fn streamable_entry_matches(p: McpStreamableHttpPlan, s: McpServerEntry) -> bool {
    s.name == Some(p.name) && s.url == Some(p.url)
}

/// `p` is the plan of blueprint `b` (which has metadata, a name and a spec).
pub open spec fn is_plan_of(p: &OrchestrationPlan, b: &Blueprint) -> bool {
    let m = b.metadata->0;
    let s = b.spec->0;
    let bridges = servers_with(s.mcp_servers, McpTransport::Bridge);
    let inside = servers_with(s.mcp_servers, McpTransport::InSandbox);
    let http = servers_with(s.mcp_servers, McpTransport::StreamableHttp);
    &&& m.name == Some(p.sandbox_name)
    &&& s.image == Some(p.image)
    &&& p.policy == s.policy
    &&& p.providers@ == opt_strings(s.providers)
    &&& p.forwards@ == opt_strings(s.forwards)
    &&& p.uploads@ == opt_strings(s.upload)
    &&& match (&p.resources, &s.resources) {
        (Some(rp), Some(rs)) => rp.cpu == rs.cpu && rp.memory == rs.memory,
        (None, None) => true,
        _ => false,
    }
    &&& p.bridge_servers@.len() == bridges.len()
    &&& forall|i: int|
        0 <= i < bridges.len() ==> bridge_entry_matches(#[trigger] p.bridge_servers@[i], bridges[i])
    &&& p.in_sandbox_servers@.len() == inside.len()
    &&& forall|i: int|
        0 <= i < inside.len() ==> in_sandbox_entry_matches(
            #[trigger] p.in_sandbox_servers@[i],
            inside[i],
        )
    &&& p.streamable_http_servers@.len() == http.len()
    &&& forall|i: int|
        0 <= i < http.len() ==> streamable_entry_matches(
            #[trigger] p.streamable_http_servers@[i],
            http[i],
        )
}

/// The error value that stands for a plan failure.
pub open spec fn is_failure_error(e: &OrchestrateError, f: PlanFailure) -> bool {
    match f {
        PlanFailure::Invalid(reason) => e matches OrchestrateError::InvalidBlueprint { reason: r }
            && r@ == reason,
        PlanFailure::EmptyImage => e is EmptyImage,
    }
}

fn invalid(reason: &str) -> (e: OrchestrateError)
    ensures
        e matches OrchestrateError::InvalidBlueprint { reason: r } && r@ == reason@,
{
    OrchestrateError::InvalidBlueprint { reason: to_owned_string(reason) }
}

/// Build an orchestration plan from a blueprint.
///
/// The plan holds the blueprint's fields organised by step; MCP servers are
/// sorted by transport, each group in blueprint order. Missing sections or
/// fields that validation requires are reported as `InvalidBlueprint`, and a
/// missing or empty image as `EmptyImage`.
pub fn build_plan(blueprint: &Blueprint) -> (r: Result<OrchestrationPlan, OrchestrateError>)
    ensures
        match r {
            Ok(p) => plan_failure(blueprint) is None && is_plan_of(&p, blueprint),
            Err(e) => plan_failure(blueprint) matches Some(f) && is_failure_error(&e, f),
        },
{
    let metadata = match &blueprint.metadata {
        Some(m) => m,
        None => {
            return Err(invalid("blueprint is missing required 'metadata' section"));
        },
    };
    let spec = match &blueprint.spec {
        Some(s) => s,
        None => {
            return Err(invalid("blueprint is missing required 'spec' section"));
        },
    };
    let sandbox_name = match &metadata.name {
        Some(n) => n.clone(),
        None => {
            return Err(invalid("metadata.name is required"));
        },
    };
    let image = match &spec.image {
        Some(img) => {
            if img.as_str().is_empty() {
                return Err(OrchestrateError::EmptyImage);
            }
            img.clone()
        },
        None => {
            return Err(OrchestrateError::EmptyImage);
        },
    };
    let policy = clone_opt_string(&spec.policy);
    let providers = strings_or_empty(&spec.providers);
    let forwards = strings_or_empty(&spec.forwards);
    let uploads = strings_or_empty(&spec.upload);
    let resources = match &spec.resources {
        Some(r) => Some(
            ResourcePlan { cpu: clone_opt_string(&r.cpu), memory: clone_opt_string(&r.memory) },
        ),
        None => None,
    };
    let mut bridge_servers: Vec<McpBridgePlan> = Vec::new();
    let mut in_sandbox_servers: Vec<McpInSandboxPlan> = Vec::new();
    let mut streamable_http_servers: Vec<McpStreamableHttpPlan> = Vec::new();
    if let Some(servers) = &spec.mcp_servers {
        let mut i: usize = 0;
        while i < servers.len()
            invariant
                i <= servers@.len(),
                blueprint.metadata == Some(*metadata),
                blueprint.spec == Some(*spec),
                spec.mcp_servers == Some(*servers),
                metadata.name is Some,
                spec.image matches Some(im) && im@.len() > 0,
                spec.image == Some(image),
                first_server_error(servers@, i as int) is None,
                bridge_servers@.len() == with_transport(servers@, McpTransport::Bridge, i as int).len(),
                forall|k: int|
                    0 <= k < bridge_servers@.len() ==> bridge_entry_matches(
                        #[trigger] bridge_servers@[k],
                        with_transport(servers@, McpTransport::Bridge, i as int)[k],
                    ),
                in_sandbox_servers@.len() == with_transport(
                    servers@,
                    McpTransport::InSandbox,
                    i as int,
                ).len(),
                forall|k: int|
                    0 <= k < in_sandbox_servers@.len() ==> in_sandbox_entry_matches(
                        #[trigger] in_sandbox_servers@[k],
                        with_transport(servers@, McpTransport::InSandbox, i as int)[k],
                    ),
                streamable_http_servers@.len() == with_transport(
                    servers@,
                    McpTransport::StreamableHttp,
                    i as int,
                ).len(),
                forall|k: int|
                    0 <= k < streamable_http_servers@.len() ==> streamable_entry_matches(
                        #[trigger] streamable_http_servers@[k],
                        with_transport(servers@, McpTransport::StreamableHttp, i as int)[k],
                    ),
            decreases servers.len() - i,
        {
            let server = &servers[i];
            proof {
                if server_plan_error(servers@[i as int]) is Some {
                    lemma_first_server_error_stable(
                        servers@,
                        i + 1,
                        servers@.len() as int,
                    );
                }
            }
            let name = match &server.name {
                Some(n) => n.clone(),
                None => {
                    return Err(invalid("mcp_servers[].name is required"));
                },
            };
            let transport = match server.transport {
                Some(t) => t,
                None => {
                    let reason = concat3("mcp_servers['", name.as_str(), "'].transport is required");
                    return Err(OrchestrateError::InvalidBlueprint { reason });
                },
            };
            match transport {
                McpTransport::Bridge => {
                    let command = match &server.command {
                        Some(c) => c.clone(),
                        None => {
                            return Err(invalid("bridge MCP server requires a 'command' field"));
                        },
                    };
                    let env = strings_or_empty(&server.env);
                    bridge_servers.push(McpBridgePlan { name, command, env });
                },
                McpTransport::InSandbox => {
                    let command = match &server.command {
                        Some(c) => c.clone(),
                        None => {
                            return Err(invalid("in-sandbox MCP server requires a 'command' field"));
                        },
                    };
                    in_sandbox_servers.push(McpInSandboxPlan { name, command });
                },
                McpTransport::StreamableHttp => {
                    let url = match &server.url {
                        Some(u) => u.clone(),
                        None => {
                            return Err(invalid("streamable-http MCP server requires a 'url' field"));
                        },
                    };
                    streamable_http_servers.push(McpStreamableHttpPlan { name, url });
                },
            }
            i = i + 1;
        }
    }
    Ok(
        OrchestrationPlan {
            sandbox_name,
            image,
            policy,
            providers,
            bridge_servers,
            in_sandbox_servers,
            streamable_http_servers,
            forwards,
            resources,
            uploads,
        },
    )
}

// ---------------------------------------------------------------------------
// Preparing a run
// ---------------------------------------------------------------------------

/// How one validation error is listed: `  - field: message`.
pub open spec fn issue_line(i: Issue) -> Seq<char> {
    "  - "@ + i.0 + ": "@ + i.1
}

/// The validation errors listed one per line.
pub open spec fn issue_lines(s: Seq<Issue>) -> Seq<char>
    decreases s.len(),
{
    if s.len() == 0 {
        Seq::empty()
    } else if s.len() == 1 {
        issue_line(s[0])
    } else {
        issue_lines(s.drop_last()) + "\n"@ + issue_line(s.last())
    }
}

/// The validation errors listed one per line, as `ValidationFailed` reports
/// them.
pub fn validation_details(errors: &Vec<ValidationError>) -> (r: String)
    ensures
        r@ == issue_lines(error_issues(errors@)),
{
    let mut r = String::new();
    let mut i: usize = 0;
    while i < errors.len()
        invariant
            i <= errors@.len(),
            r@ == issue_lines(error_issues(errors@.take(i as int))),
        decreases errors.len() - i,
    {
        if i > 0 {
            push_str_chars(&mut r, "\n");
        }
        push_str_chars(&mut r, "  - ");
        push_str_chars(&mut r, errors[i].field.as_str());
        push_str_chars(&mut r, ": ");
        push_str_chars(&mut r, errors[i].message.as_str());
        proof {
            let t = error_issues(errors@.take(i + 1));
            assert(t.drop_last() =~= error_issues(errors@.take(i as int)));
            assert(t.last() == (errors@[i as int].field@, errors@[i as int].message@));
            if i == 0 {
                assert(error_issues(errors@.take(0)) =~= Seq::<Issue>::empty());
                assert(r@ =~= issue_lines(t));
            } else {
                assert(r@ =~= issue_lines(t));
            }
        }
        i = i + 1;
    }
    assert(errors@.take(i as int) =~= errors@);
    r
}

/// Validate a blueprint and build its plan: the pure part of an
/// orchestration, before any external operation.
///
/// A blueprint with validation errors gives `ValidationFailed` with their
/// number and their list; otherwise the result is that of `build_plan`.
/// `cpu_cores_ok` says whether a plain CPU quantity is a positive finite
/// number of cores (see `validate`).
pub fn prepare_plan(blueprint: &Blueprint, cpu_cores_ok: bool) -> (r: Result<
    OrchestrationPlan,
    OrchestrateError,
>)
    requires
        lengths_fit(blueprint),
    ensures
        blueprint_errors(blueprint, cpu_cores_ok).len() > 0 ==> (r matches Err(
            OrchestrateError::ValidationFailed { count, details },
        ) && count == blueprint_errors(blueprint, cpu_cores_ok).len() && details@ == issue_lines(
            blueprint_errors(blueprint, cpu_cores_ok),
        )),
        blueprint_errors(blueprint, cpu_cores_ok).len() == 0 ==> match r {
            Ok(p) => plan_failure(blueprint) is None && is_plan_of(&p, blueprint),
            Err(e) => plan_failure(blueprint) matches Some(f) && is_failure_error(&e, f),
        },
{
    let validation = validate(blueprint, cpu_cores_ok);
    if validation.errors.len() > 0 {
        let details = validation_details(&validation.errors);
        return Err(OrchestrateError::ValidationFailed { count: validation.errors.len(), details });
    }
    build_plan(blueprint)
}

// ---------------------------------------------------------------------------
// The orchestrator
// ---------------------------------------------------------------------------

/// Executes blueprints against a resource validator and a sandbox gateway.
///
/// The order of a run: schema validation, resource checks (image, each
/// provider, the policy file), sandbox creation, policy, providers, MCP
/// bridges, in-sandbox MCP servers, streamable-HTTP acknowledgements, port
/// forwards, resource limits, uploads. On a failure after creation, every
/// completed step is rolled back in reverse order (see `run::PlanRun`).
pub struct BlueprintOrchestrator<V, G> {
    validator: V,
    gateway: G,
}

impl<V, G> BlueprintOrchestrator<V, G> {
    /// The validator an orchestrator was made with.
    pub closed spec fn validator_spec(&self) -> V {
        self.validator
    }

    /// The gateway an orchestrator was made with.
    pub closed spec fn gateway_spec(&self) -> G {
        self.gateway
    }

    /// Create a new orchestrator with the given validator and gateway.
    pub fn new(validator: V, gateway: G) -> (r: Self)
        ensures
            r.validator_spec() == validator,
            r.gateway_spec() == gateway,
    {
        BlueprintOrchestrator { validator, gateway }
    }

    /// The resource validator.
    pub fn validator(&self) -> (r: &V)
        ensures
            *r == self.validator_spec(),
    {
        &self.validator
    }

    /// The sandbox gateway.
    pub fn gateway(&self) -> (r: &G)
        ensures
            *r == self.gateway_spec(),
    {
        &self.gateway
    }
}

} // verus!
