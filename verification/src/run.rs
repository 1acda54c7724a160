//! The run of an orchestration plan, as a state machine.
//!
//! The machine never performs an operation itself. It names the next
//! operation (`PlanRun::pending`), is told how that operation ended
//! (`PlanRun::report`), and moves on: first every resource check, then the
//! sandbox creation, then each planned step in order, and, when a step fails
//! after the sandbox exists, the rollback of every completed step in reverse
//! order. A failed check or a failed creation ends the run with nothing to
//! undo.

use vstd::prelude::*;
use crate::orchestrator::{CompletedStep, McpBridgePlan, OrchestrationPlan, OrchestrateError};

verus! {

// ---------------------------------------------------------------------------
// Operations
// ---------------------------------------------------------------------------

/// An external operation that the run asks its driver to perform.
#[derive(Debug)]
pub enum GatewayCall {
    /// Check that the image can be pulled.
    ValidateImage { image: String },
    /// Check that the provider exists.
    ValidateProvider { provider: String },
    /// Check that the policy file exists.
    ValidatePolicy { path: String },
    /// Create the sandbox; the gateway answers with the sandbox's name.
    CreateSandbox { name: String, image: String },
    /// Apply a policy file to the sandbox.
    ApplyPolicy { sandbox: String, policy: String },
    /// Attach a provider to the sandbox.
    AttachProvider { sandbox: String, provider: String },
    /// Start a host-side MCP bridge.
    StartMcpBridge { sandbox: String, server: String, command: String, env: Vec<String> },
    /// Configure an MCP server inside the sandbox.
    ConfigureInSandboxMcp { sandbox: String, server: String, command: String },
    /// Establish a port forward.
    EstablishPortForward { sandbox: String, spec: String },
    /// Apply resource limits.
    ApplyResourceLimits { sandbox: String, cpu: Option<String>, memory: Option<String> },
    /// Upload files.
    UploadFiles { sandbox: String, spec: String },
    /// Rollback: delete the sandbox.
    DeleteSandbox { name: String },
    /// Rollback: stop an MCP bridge.
    StopMcpBridge { sandbox: String, server: String },
    /// Rollback: remove a port forward.
    RemovePortForward { sandbox: String, spec: String },
}

/// One step of the plan after the sandbox exists: the operation it needs,
/// if any, and the record it leaves once it is done.
#[derive(Debug)]
pub struct PlannedStep {
    /// The operation to perform (none for steps that need no host-side work).
    pub call: Option<GatewayCall>,
    /// What the step leaves in the list of completed steps.
    pub done: CompletedStep,
}

// ---------------------------------------------------------------------------
// What a plan asks for
// ---------------------------------------------------------------------------

/// The resource checks made before anything is created: the image, each
/// provider in order, then the policy file if there is one.
pub open spec fn check_calls(p: &OrchestrationPlan) -> Seq<GatewayCall> {
    seq![GatewayCall::ValidateImage { image: p.image }] + Seq::new(
        p.providers@.len(),
        |i: int| GatewayCall::ValidateProvider { provider: p.providers@[i] },
    ) + match p.policy {
        Some(path) => seq![GatewayCall::ValidatePolicy { path }],
        None => Seq::empty(),
    }
}

/// The creation call of a plan.
pub open spec fn create_call(p: &OrchestrationPlan) -> GatewayCall {
    GatewayCall::CreateSandbox { name: p.sandbox_name, image: p.image }
}

/// The policy step, if the plan has a policy.
pub open spec fn policy_steps(p: &OrchestrationPlan) -> Seq<PlannedStep> {
    match p.policy {
        Some(policy) => seq![
            PlannedStep {
                call: Some(GatewayCall::ApplyPolicy { sandbox: p.sandbox_name, policy }),
                done: CompletedStep::PolicyApplied { sandbox: p.sandbox_name, policy },
            },
        ],
        None => Seq::empty(),
    }
}

/// One provider attachment per provider, in order.
pub open spec fn provider_steps(p: &OrchestrationPlan) -> Seq<PlannedStep> {
    Seq::new(
        p.providers@.len(),
        |i: int|
            PlannedStep {
                call: Some(
                    GatewayCall::AttachProvider { sandbox: p.sandbox_name, provider: p.providers@[i] },
                ),
                done: CompletedStep::ProviderAttached {
                    sandbox: p.sandbox_name,
                    provider: p.providers@[i],
                },
            },
    )
}

/// One bridge start per bridge server, in order.
pub open spec fn bridge_steps_for(sandbox: String, servers: Seq<McpBridgePlan>) -> Seq<PlannedStep> {
    Seq::new(
        servers.len(),
        |i: int|
            PlannedStep {
                call: Some(
                    GatewayCall::StartMcpBridge {
                        sandbox,
                        server: servers[i].name,
                        command: servers[i].command,
                        env: servers[i].env,
                    },
                ),
                done: CompletedStep::McpBridgeStarted { sandbox, server: servers[i].name },
            },
    )
}

/// The bridge steps of a plan.
pub open spec fn bridge_steps(p: &OrchestrationPlan) -> Seq<PlannedStep> {
    bridge_steps_for(p.sandbox_name, p.bridge_servers@)
}

/// One in-sandbox configuration per in-sandbox server, in order.
pub open spec fn in_sandbox_steps(p: &OrchestrationPlan) -> Seq<PlannedStep> {
    Seq::new(
        p.in_sandbox_servers@.len(),
        |i: int|
            PlannedStep {
                call: Some(
                    GatewayCall::ConfigureInSandboxMcp {
                        sandbox: p.sandbox_name,
                        server: p.in_sandbox_servers@[i].name,
                        command: p.in_sandbox_servers@[i].command,
                    },
                ),
                done: CompletedStep::McpInSandboxConfigured {
                    sandbox: p.sandbox_name,
                    server: p.in_sandbox_servers@[i].name,
                },
            },
    )
}

/// One acknowledgement per streamable-HTTP server, in order; these need no
/// operation.
pub open spec fn streamable_steps(p: &OrchestrationPlan) -> Seq<PlannedStep> {
    Seq::new(
        p.streamable_http_servers@.len(),
        |i: int|
            PlannedStep {
                call: None,
                done: CompletedStep::StreamableHttpAcknowledged {
                    sandbox: p.sandbox_name,
                    server: p.streamable_http_servers@[i].name,
                    url: p.streamable_http_servers@[i].url,
                },
            },
    )
}

/// One port forward per forward spec, in order.
pub open spec fn forward_steps(p: &OrchestrationPlan) -> Seq<PlannedStep> {
    Seq::new(
        p.forwards@.len(),
        |i: int|
            PlannedStep {
                call: Some(
                    GatewayCall::EstablishPortForward { sandbox: p.sandbox_name, spec: p.forwards@[i] },
                ),
                done: CompletedStep::PortForwardEstablished {
                    sandbox: p.sandbox_name,
                    spec: p.forwards@[i],
                },
            },
    )
}

/// The resource-limits step, if the plan has resources.
pub open spec fn resource_steps(p: &OrchestrationPlan) -> Seq<PlannedStep> {
    match p.resources {
        Some(r) => seq![
            PlannedStep {
                call: Some(
                    GatewayCall::ApplyResourceLimits {
                        sandbox: p.sandbox_name,
                        cpu: r.cpu,
                        memory: r.memory,
                    },
                ),
                done: CompletedStep::ResourceLimitsApplied { sandbox: p.sandbox_name },
            },
        ],
        None => Seq::empty(),
    }
}

/// One upload per upload spec, in order.
pub open spec fn upload_steps(p: &OrchestrationPlan) -> Seq<PlannedStep> {
    Seq::new(
        p.uploads@.len(),
        |i: int|
            PlannedStep {
                call: Some(GatewayCall::UploadFiles { sandbox: p.sandbox_name, spec: p.uploads@[i] }),
                done: CompletedStep::FilesUploaded { sandbox: p.sandbox_name, spec: p.uploads@[i] },
            },
    )
}

/// Every step after creation, in the order they run: policy, providers,
/// bridges, in-sandbox servers, streamable-HTTP acknowledgements, port
/// forwards, resource limits, uploads.
pub open spec fn plan_steps(p: &OrchestrationPlan) -> Seq<PlannedStep> {
    policy_steps(p) + provider_steps(p) + bridge_steps(p) + in_sandbox_steps(p)
        + streamable_steps(p) + forward_steps(p) + resource_steps(p) + upload_steps(p)
}

/// The rollback operation a completed step needs: deleting the sandbox,
/// stopping a bridge, removing a port forward. Every other step goes away
/// with the sandbox.
pub open spec fn undo_call(s: CompletedStep) -> Option<GatewayCall> {
    match s {
        CompletedStep::SandboxCreated { name } => Some(GatewayCall::DeleteSandbox { name }),
        CompletedStep::McpBridgeStarted { sandbox, server } => Some(
            GatewayCall::StopMcpBridge { sandbox, server },
        ),
        CompletedStep::PortForwardEstablished { sandbox, spec } => Some(
            GatewayCall::RemovePortForward { sandbox, spec },
        ),
        _ => None,
    }
}

/// The rollback operations of a list of completed steps, last step first.
pub open spec fn undo_calls(c: Seq<CompletedStep>) -> Seq<GatewayCall>
    decreases c.len(),
{
    if c.len() == 0 {
        Seq::empty()
    } else {
        let rest = undo_calls(c.drop_last());
        match undo_call(c.last()) {
            Some(u) => seq![u] + rest,
            None => rest,
        }
    }
}

/// The records left by `steps[lo..hi]`.
pub open spec fn dones(steps: Seq<PlannedStep>, lo: int, hi: int) -> Seq<CompletedStep> {
    steps.subrange(lo, hi).map_values(|s: PlannedStep| s.done)
}

/// The first step at or after `i` that needs an operation, or the end.
pub open spec fn next_call_index(steps: Seq<PlannedStep>, i: int) -> int
    decreases steps.len() - i,
{
    if i >= steps.len() || steps[i].call is Some {
        i
    } else {
        next_call_index(steps, i + 1)
    }
}

proof fn lemma_next_call_index(steps: Seq<PlannedStep>, i: int)
    requires
        0 <= i <= steps.len(),
    ensures
        i <= next_call_index(steps, i) <= steps.len(),
        next_call_index(steps, i) < steps.len() ==> steps[next_call_index(steps, i)].call is Some,
        forall|k: int| i <= k < next_call_index(steps, i) ==> (#[trigger] steps[k]).call is None,
    decreases steps.len() - i,
{
    if i < steps.len() && steps[i].call is None {
        lemma_next_call_index(steps, i + 1);
    }
}


// ---------------------------------------------------------------------------
// Building the lists
// ---------------------------------------------------------------------------

fn push_policy_steps(p: &OrchestrationPlan, steps: &mut Vec<PlannedStep>)
    ensures
        final(steps)@ == old(steps)@ + policy_steps(p),
{
    let ghost base = steps@;
    if let Some(policy) = &p.policy {
        steps.push(
            PlannedStep {
                call: Some(
                    GatewayCall::ApplyPolicy {
                        sandbox: p.sandbox_name.clone(),
                        policy: policy.clone(),
                    },
                ),
                done: CompletedStep::PolicyApplied {
                    sandbox: p.sandbox_name.clone(),
                    policy: policy.clone(),
                },
            },
        );
    }
    assert(steps@ =~= base + policy_steps(p));
}

fn push_provider_steps(p: &OrchestrationPlan, steps: &mut Vec<PlannedStep>)
    ensures
        final(steps)@ == old(steps)@ + provider_steps(p),
{
    let ghost base = steps@;
    let mut i: usize = 0;
    while i < p.providers.len()
        invariant
            i <= p.providers@.len(),
            steps@ == base + provider_steps(p).take(i as int),
        decreases p.providers.len() - i,
    {
        steps.push(
            PlannedStep {
                call: Some(
                    GatewayCall::AttachProvider {
                        sandbox: p.sandbox_name.clone(),
                        provider: p.providers[i].clone(),
                    },
                ),
                done: CompletedStep::ProviderAttached {
                    sandbox: p.sandbox_name.clone(),
                    provider: p.providers[i].clone(),
                },
            },
        );
        assert(provider_steps(p).take(i + 1) =~= provider_steps(p).take(i as int).push(
            provider_steps(p)[i as int],
        ));
        i = i + 1;
    }
    assert(provider_steps(p).take(i as int) =~= provider_steps(p));
}

fn push_bridge_steps(sandbox: &String, servers: Vec<McpBridgePlan>, steps: &mut Vec<PlannedStep>)
    ensures
        final(steps)@ == old(steps)@ + bridge_steps_for(*sandbox, servers@),
{
    let ghost base = steps@;
    let ghost all = servers@;
    let ghost expected = bridge_steps_for(*sandbox, servers@);
    let mut servers = servers;
    let n = servers.len();
    let mut i: usize = 0;
    while servers.len() > 0
        invariant
            i <= all.len(),
            all.len() == n,
            servers@ == all.skip(i as int),
            expected == bridge_steps_for(*sandbox, all),
            steps@ == base + expected.take(i as int),
        decreases servers.len(),
    {
        let b = servers.remove(0);
        assert(b == all[i as int]);
        steps.push(
            PlannedStep {
                call: Some(
                    GatewayCall::StartMcpBridge {
                        sandbox: sandbox.clone(),
                        server: b.name.clone(),
                        command: b.command,
                        env: b.env,
                    },
                ),
                done: CompletedStep::McpBridgeStarted { sandbox: sandbox.clone(), server: b.name },
            },
        );
        assert(expected.take(i + 1) =~= expected.take(i as int).push(expected[i as int]));
        assert(all.skip(i as int).remove(0) =~= all.skip(i + 1));
        i = i + 1;
    }
    assert(expected.take(i as int) =~= expected);
}

fn push_in_sandbox_steps(p: &OrchestrationPlan, steps: &mut Vec<PlannedStep>)
    ensures
        final(steps)@ == old(steps)@ + in_sandbox_steps(p),
{
    let ghost base = steps@;
    let mut i: usize = 0;
    while i < p.in_sandbox_servers.len()
        invariant
            i <= p.in_sandbox_servers@.len(),
            steps@ == base + in_sandbox_steps(p).take(i as int),
        decreases p.in_sandbox_servers.len() - i,
    {
        let s = &p.in_sandbox_servers[i];
        steps.push(
            PlannedStep {
                call: Some(
                    GatewayCall::ConfigureInSandboxMcp {
                        sandbox: p.sandbox_name.clone(),
                        server: s.name.clone(),
                        command: s.command.clone(),
                    },
                ),
                done: CompletedStep::McpInSandboxConfigured {
                    sandbox: p.sandbox_name.clone(),
                    server: s.name.clone(),
                },
            },
        );
        assert(in_sandbox_steps(p).take(i + 1) =~= in_sandbox_steps(p).take(i as int).push(
            in_sandbox_steps(p)[i as int],
        ));
        i = i + 1;
    }
    assert(in_sandbox_steps(p).take(i as int) =~= in_sandbox_steps(p));
}

fn push_streamable_steps(p: &OrchestrationPlan, steps: &mut Vec<PlannedStep>)
    ensures
        final(steps)@ == old(steps)@ + streamable_steps(p),
{
    let ghost base = steps@;
    let mut i: usize = 0;
    while i < p.streamable_http_servers.len()
        invariant
            i <= p.streamable_http_servers@.len(),
            steps@ == base + streamable_steps(p).take(i as int),
        decreases p.streamable_http_servers.len() - i,
    {
        let s = &p.streamable_http_servers[i];
        steps.push(
            PlannedStep {
                call: None,
                done: CompletedStep::StreamableHttpAcknowledged {
                    sandbox: p.sandbox_name.clone(),
                    server: s.name.clone(),
                    url: s.url.clone(),
                },
            },
        );
        assert(streamable_steps(p).take(i + 1) =~= streamable_steps(p).take(i as int).push(
            streamable_steps(p)[i as int],
        ));
        i = i + 1;
    }
    assert(streamable_steps(p).take(i as int) =~= streamable_steps(p));
}

fn push_forward_steps(p: &OrchestrationPlan, steps: &mut Vec<PlannedStep>)
    ensures
        final(steps)@ == old(steps)@ + forward_steps(p),
{
    let ghost base = steps@;
    let mut i: usize = 0;
    while i < p.forwards.len()
        invariant
            i <= p.forwards@.len(),
            steps@ == base + forward_steps(p).take(i as int),
        decreases p.forwards.len() - i,
    {
        steps.push(
            PlannedStep {
                call: Some(
                    GatewayCall::EstablishPortForward {
                        sandbox: p.sandbox_name.clone(),
                        spec: p.forwards[i].clone(),
                    },
                ),
                done: CompletedStep::PortForwardEstablished {
                    sandbox: p.sandbox_name.clone(),
                    spec: p.forwards[i].clone(),
                },
            },
        );
        assert(forward_steps(p).take(i + 1) =~= forward_steps(p).take(i as int).push(
            forward_steps(p)[i as int],
        ));
        i = i + 1;
    }
    assert(forward_steps(p).take(i as int) =~= forward_steps(p));
}

fn push_resource_steps(p: &OrchestrationPlan, steps: &mut Vec<PlannedStep>)
    ensures
        final(steps)@ == old(steps)@ + resource_steps(p),
{
    let ghost base = steps@;
    if let Some(r) = &p.resources {
        steps.push(
            PlannedStep {
                call: Some(
                    GatewayCall::ApplyResourceLimits {
                        sandbox: p.sandbox_name.clone(),
                        cpu: crate::text::clone_opt_string(&r.cpu),
                        memory: crate::text::clone_opt_string(&r.memory),
                    },
                ),
                done: CompletedStep::ResourceLimitsApplied { sandbox: p.sandbox_name.clone() },
            },
        );
    }
    assert(steps@ =~= base + resource_steps(p));
}

fn push_upload_steps(p: &OrchestrationPlan, steps: &mut Vec<PlannedStep>)
    ensures
        final(steps)@ == old(steps)@ + upload_steps(p),
{
    let ghost base = steps@;
    let mut i: usize = 0;
    while i < p.uploads.len()
        invariant
            i <= p.uploads@.len(),
            steps@ == base + upload_steps(p).take(i as int),
        decreases p.uploads.len() - i,
    {
        steps.push(
            PlannedStep {
                call: Some(
                    GatewayCall::UploadFiles {
                        sandbox: p.sandbox_name.clone(),
                        spec: p.uploads[i].clone(),
                    },
                ),
                done: CompletedStep::FilesUploaded {
                    sandbox: p.sandbox_name.clone(),
                    spec: p.uploads[i].clone(),
                },
            },
        );
        assert(upload_steps(p).take(i + 1) =~= upload_steps(p).take(i as int).push(
            upload_steps(p)[i as int],
        ));
        i = i + 1;
    }
    assert(upload_steps(p).take(i as int) =~= upload_steps(p));
}

/// The steps that follow sandbox creation, in the order they run.
pub fn step_list(p: OrchestrationPlan) -> (steps: Vec<PlannedStep>)
    ensures
        steps@ == plan_steps(&p),
{
    let ghost gp = p;
    let mut steps: Vec<PlannedStep> = Vec::new();
    push_policy_steps(&p, &mut steps);
    push_provider_steps(&p, &mut steps);
    let OrchestrationPlan {
        sandbox_name,
        image,
        policy,
        providers,
        bridge_servers,
        in_sandbox_servers,
        streamable_http_servers,
        forwards,
        resources,
        uploads,
    } = p;
    let rest = OrchestrationPlan {
        sandbox_name: sandbox_name.clone(),
        image,
        policy,
        providers,
        bridge_servers: Vec::new(),
        in_sandbox_servers,
        streamable_http_servers,
        forwards,
        resources,
        uploads,
    };
    push_bridge_steps(&sandbox_name, bridge_servers, &mut steps);
    push_in_sandbox_steps(&rest, &mut steps);
    push_streamable_steps(&rest, &mut steps);
    push_forward_steps(&rest, &mut steps);
    push_resource_steps(&rest, &mut steps);
    push_upload_steps(&rest, &mut steps);
    assert(steps@ =~= plan_steps(&gp));
    steps
}

/// The resource checks of a plan, in the order they are made.
pub fn check_list(p: &OrchestrationPlan) -> (checks: Vec<GatewayCall>)
    ensures
        checks@ == check_calls(p),
{
    let mut checks: Vec<GatewayCall> = Vec::new();
    checks.push(GatewayCall::ValidateImage { image: p.image.clone() });
    let ghost head = checks@;
    let ghost provs = Seq::new(
        p.providers@.len(),
        |i: int| GatewayCall::ValidateProvider { provider: p.providers@[i] },
    );
    let mut i: usize = 0;
    while i < p.providers.len()
        invariant
            i <= p.providers@.len(),
            head == seq![GatewayCall::ValidateImage { image: p.image }],
            provs == Seq::new(
                p.providers@.len(),
                |i: int| GatewayCall::ValidateProvider { provider: p.providers@[i] },
            ),
            checks@ == head + provs.take(i as int),
        decreases p.providers.len() - i,
    {
        checks.push(GatewayCall::ValidateProvider { provider: p.providers[i].clone() });
        assert(provs.take(i + 1) =~= provs.take(i as int).push(provs[i as int]));
        i = i + 1;
    }
    assert(provs.take(i as int) =~= provs);
    let ghost mid = checks@;
    if let Some(path) = &p.policy {
        checks.push(GatewayCall::ValidatePolicy { path: path.clone() });
    }
    assert(checks@ =~= check_calls(p));
    checks
}

/// The rollback operations for the completed steps, last step first.
pub fn undo_list(completed: &Vec<CompletedStep>) -> (r: Vec<GatewayCall>)
    ensures
        r@ == undo_calls(completed@),
{
    let mut r: Vec<GatewayCall> = Vec::new();
    let mut i: usize = completed.len();
    assert(completed@.take(i as int) =~= completed@);
    while i > 0
        invariant
            i <= completed@.len(),
            r@ + undo_calls(completed@.take(i as int)) == undo_calls(completed@),
        decreases i,
    {
        let ghost before = r@;
        assert(completed@.take(i as int).drop_last() =~= completed@.take(i - 1));
        match &completed[i - 1] {
            CompletedStep::SandboxCreated { name } => {
                r.push(GatewayCall::DeleteSandbox { name: name.clone() });
            },
            CompletedStep::McpBridgeStarted { sandbox, server } => {
                r.push(GatewayCall::StopMcpBridge { sandbox: sandbox.clone(), server: server.clone() });
            },
            CompletedStep::PortForwardEstablished { sandbox, spec } => {
                r.push(GatewayCall::RemovePortForward { sandbox: sandbox.clone(), spec: spec.clone() });
            },
            _ => {},
        }
        proof {
            match undo_call(completed@[i - 1]) {
                Some(u) => {
                    assert(r@ == before.push(u));
                    assert(before + undo_calls(completed@.take(i as int)) =~= r@ + undo_calls(
                        completed@.take(i - 1),
                    ));
                },
                None => {
                    assert(r@ == before);
                },
            }
        }
        i = i - 1;
    }
    assert(completed@.take(0) =~= Seq::<CompletedStep>::empty());
    r
}

// ---------------------------------------------------------------------------
// The run
// ---------------------------------------------------------------------------

/// Where a run stands.
#[derive(Debug, Clone, Copy, PartialEq, Eq, Structural)]
pub enum RunPhase {
    /// Resource checks are being made.
    Checking,
    /// The sandbox is being created.
    Creating,
    /// The planned steps are being performed.
    Running,
    /// A step failed; completed steps are being undone.
    RollingBack,
    /// Every step completed.
    Succeeded,
    /// The run failed (after any rollback).
    Failed,
}

/// The order of the phases: checks, creation, steps, then success or
/// rollback, then failure.
pub open spec fn phase_rank(p: RunPhase) -> int {
    match p {
        RunPhase::Checking => 0,
        RunPhase::Creating => 1,
        RunPhase::Running => 2,
        RunPhase::Succeeded => 3,
        RunPhase::RollingBack => 3,
        RunPhase::Failed => 4,
    }
}

/// How the last requested operation ended.
#[derive(Debug)]
pub enum CallOutcome {
    /// The operation succeeded.
    Succeeded,
    /// The sandbox was created under this name.
    Created(String),
    /// The operation failed with this error.
    Failed(OrchestrateError),
}

/// A run of an orchestration plan.
#[derive(Debug)]
pub struct PlanRun {
    checks: Vec<GatewayCall>,
    create: GatewayCall,
    sandbox: String,
    steps: Vec<PlannedStep>,
    phase: RunPhase,
    pos: usize,
    completed: Vec<CompletedStep>,
    undo: Vec<GatewayCall>,
    error: Option<OrchestrateError>,
}

impl PlanRun {
    /// The resource checks of the run.
    pub closed spec fn checks(&self) -> Seq<GatewayCall> {
        self.checks@
    }

    /// The creation call of the run.
    pub closed spec fn create(&self) -> GatewayCall {
        self.create
    }

    /// The name under which the sandbox is requested.
    pub closed spec fn sandbox(&self) -> String {
        self.sandbox
    }

    /// The steps that follow creation.
    pub closed spec fn steps(&self) -> Seq<PlannedStep> {
        self.steps@
    }

    /// The current phase.
    pub closed spec fn phase(&self) -> RunPhase {
        self.phase
    }

    /// The position in the current list (checks, steps or rollback).
    pub closed spec fn pos(&self) -> int {
        self.pos as int
    }

    /// The steps completed so far.
    pub closed spec fn completed(&self) -> Seq<CompletedStep> {
        self.completed@
    }

    /// The rollback operations, once a step has failed.
    pub closed spec fn undo(&self) -> Seq<GatewayCall> {
        self.undo@
    }

    /// The error that ended (or is ending) the run.
    pub closed spec fn error(&self) -> Option<OrchestrateError> {
        self.error
    }

    /// The completed list starts with the sandbox creation and goes on with
    /// the records of `steps[0..k]`.
    pub open spec fn started_through(&self, k: int) -> bool {
        &&& self.completed().len() >= 1
        &&& self.completed()[0] is SandboxCreated
        &&& self.completed().drop_first() == dones(self.steps(), 0, k)
    }

    /// The invariant every operation keeps.
    pub open spec fn wf(&self) -> bool {
        match self.phase() {
            RunPhase::Checking => {
                &&& 0 <= self.pos() < self.checks().len()
                &&& self.completed().len() == 0
                &&& self.undo().len() == 0
                &&& self.error() is None
            },
            RunPhase::Creating => {
                &&& self.completed().len() == 0
                &&& self.undo().len() == 0
                &&& self.error() is None
            },
            RunPhase::Running => {
                &&& 0 <= self.pos() < self.steps().len()
                &&& self.steps()[self.pos()].call is Some
                &&& self.started_through(self.pos())
                &&& self.undo().len() == 0
                &&& self.error() is None
            },
            RunPhase::RollingBack => {
                &&& 0 <= self.pos() < self.undo().len()
                &&& self.undo() == undo_calls(self.completed())
                &&& self.error() is Some
            },
            RunPhase::Succeeded => {
                &&& self.started_through(self.steps().len() as int)
                &&& self.undo().len() == 0
                &&& self.error() is None
            },
            RunPhase::Failed => {
                &&& self.undo() == undo_calls(self.completed())
                &&& self.error() is Some
            },
        }
    }

    /// The operation the run waits for, if any.
    pub open spec fn pending_call(&self) -> Option<GatewayCall> {
        match self.phase() {
            RunPhase::Checking => Some(self.checks()[self.pos()]),
            RunPhase::Creating => Some(self.create()),
            RunPhase::Running => self.steps()[self.pos()].call,
            RunPhase::RollingBack => Some(self.undo()[self.pos()]),
            _ => None,
        }
    }

    /// The lists a run was made with stay as they were.
    pub open spec fn same_plan(&self, other: &PlanRun) -> bool {
        &&& self.checks() == other.checks()
        &&& self.create() == other.create()
        &&& self.sandbox() == other.sandbox()
        &&& self.steps() == other.steps()
    }

    /// Start a run of `plan`: the first operation is the image check.
    pub fn new(plan: OrchestrationPlan) -> (r: PlanRun)
        ensures
            r.wf(),
            r.checks() == check_calls(&plan),
            r.create() == create_call(&plan),
            r.sandbox() == plan.sandbox_name,
            r.steps() == plan_steps(&plan),
            r.phase() == RunPhase::Checking,
            r.pos() == 0,
    {
        let checks = check_list(&plan);
        let create = GatewayCall::CreateSandbox {
            name: plan.sandbox_name.clone(),
            image: plan.image.clone(),
        };
        let sandbox = plan.sandbox_name.clone();
        let steps = step_list(plan);
        PlanRun {
            checks,
            create,
            sandbox,
            steps,
            phase: RunPhase::Checking,
            pos: 0,
            completed: Vec::new(),
            undo: Vec::new(),
            error: None,
        }
    }

    /// The operation the run waits for; `None` once the run is finished.
    pub fn pending(&self) -> (r: Option<&GatewayCall>)
        requires
            self.wf(),
        ensures
            r is Some <==> self.pending_call() is Some,
            r matches Some(c) ==> self.pending_call() == Some(*c),
    {
        match self.phase {
            RunPhase::Checking => Some(&self.checks[self.pos]),
            RunPhase::Creating => Some(&self.create),
            RunPhase::Running => match &self.steps[self.pos].call {
                Some(c) => Some(c),
                None => None,
            },
            RunPhase::RollingBack => Some(&self.undo[self.pos]),
            _ => None,
        }
    }

    /// Whether the run has ended.
    pub fn is_finished(&self) -> (r: bool)
        ensures
            r <==> (self.phase() == RunPhase::Succeeded || self.phase() == RunPhase::Failed),
    {
        match self.phase {
            RunPhase::Succeeded | RunPhase::Failed => true,
            _ => false,
        }
    }

    /// Record the steps that need no operation from `from` on, and stop at
    /// the next step that needs one (or finish).
    fn advance(&mut self, from: usize)
        requires
            from <= old(self).steps@.len(),
            old(self).started_through(from as int),
            old(self).undo@.len() == 0,
            old(self).error is None,
        ensures
            final(self).same_plan(old(self)),
            final(self).undo@.len() == 0,
            final(self).error is None,
            final(self).completed() == old(self).completed() + dones(
                old(self).steps(),
                from as int,
                next_call_index(old(self).steps(), from as int),
            ),
            next_call_index(old(self).steps(), from as int) < old(self).steps().len() ==> {
                &&& final(self).phase == RunPhase::Running
                &&& final(self).pos() == next_call_index(old(self).steps(), from as int)
            },
            next_call_index(old(self).steps(), from as int) == old(self).steps().len()
                ==> final(self).phase == RunPhase::Succeeded,
            final(self).wf(),
    {
        proof {
            lemma_next_call_index(self.steps@, from as int);
        }
        let ghost start = self.completed@;
        let mut k: usize = from;
        while k < self.steps.len() && self.steps[k].call.is_none()
            invariant
                from <= k <= self.steps@.len(),
                self.steps@ == old(self).steps@,
                self.checks@ == old(self).checks@,
                self.create == old(self).create,
                self.sandbox == old(self).sandbox,
                self.undo@.len() == 0,
                self.error is None,
                next_call_index(self.steps@, from as int) == next_call_index(self.steps@, k as int),
                self.completed@ == start + dones(self.steps@, from as int, k as int),
                start.len() >= 1,
                start[0] is SandboxCreated,
                start.drop_first() == dones(self.steps@, 0, from as int),
            decreases self.steps.len() - k,
        {
            let d = copy_step(&self.steps[k].done);
            self.completed.push(d);
            assert(dones(self.steps@, from as int, k + 1) =~= dones(
                self.steps@,
                from as int,
                k as int,
            ).push(self.steps@[k as int].done));
            k = k + 1;
        }
        proof {
            lemma_next_call_index(self.steps@, k as int);
            assert(dones(self.steps@, 0, k as int) =~= dones(self.steps@, 0, from as int) + dones(
                self.steps@,
                from as int,
                k as int,
            ));
            assert(self.completed@.drop_first() =~= start.drop_first() + dones(
                self.steps@,
                from as int,
                k as int,
            ));
        }
        if k < self.steps.len() {
            self.phase = RunPhase::Running;
            self.pos = k;
        } else {
            self.phase = RunPhase::Succeeded;
            self.pos = 0;
        }
    }

    /// Record how the pending operation ended, and move on.
    ///
    /// A failed check or creation ends the run with nothing to undo. A failed
    /// step starts the rollback of every completed step, last first; the
    /// outcome of a rollback operation does not stop the rollback. Steps that
    /// need no operation are recorded as soon as they are reached.
    pub fn report(&mut self, outcome: CallOutcome)
        requires
            old(self).wf(),
        ensures
            final(self).wf(),
            final(self).same_plan(old(self)),
            phase_rank(final(self).phase()) >= phase_rank(old(self).phase()),
            old(self).phase() == RunPhase::Checking ==> match outcome {
                CallOutcome::Failed(e) => {
                    &&& final(self).phase() == RunPhase::Failed
                    &&& final(self).error() == Some(e)
                    &&& final(self).completed().len() == 0
                    &&& final(self).undo().len() == 0
                },
                _ => if old(self).pos() + 1 < old(self).checks().len() {
                    final(self).phase() == RunPhase::Checking && final(self).pos() == old(self).pos()
                        + 1
                } else {
                    final(self).phase() == RunPhase::Creating
                },
            },
            old(self).phase() == RunPhase::Creating ==> match outcome {
                CallOutcome::Failed(e) => {
                    &&& final(self).phase() == RunPhase::Failed
                    &&& final(self).error() == Some(e)
                    &&& final(self).completed().len() == 0
                    &&& final(self).undo().len() == 0
                },
                _ => {
                    let name = match outcome {
                        CallOutcome::Created(n) => n,
                        _ => old(self).sandbox(),
                    };
                    let n = next_call_index(old(self).steps(), 0);
                    &&& final(self).completed() == seq![CompletedStep::SandboxCreated { name }]
                        + dones(old(self).steps(), 0, n)
                    &&& n < old(self).steps().len() ==> final(self).phase() == RunPhase::Running
                        && final(self).pos() == n
                    &&& n == old(self).steps().len() ==> final(self).phase() == RunPhase::Succeeded
                },
            },
            old(self).phase() == RunPhase::Running ==> match outcome {
                CallOutcome::Failed(e) => {
                    &&& final(self).error() == Some(e)
                    &&& final(self).completed() == old(self).completed()
                    &&& final(self).undo() == undo_calls(old(self).completed())
                    &&& final(self).phase() == RunPhase::RollingBack
                    &&& final(self).pos() == 0
                },
                _ => {
                    let n = next_call_index(old(self).steps(), old(self).pos() + 1);
                    &&& final(self).completed() == old(self).completed() + dones(
                        old(self).steps(),
                        old(self).pos(),
                        n,
                    )
                    &&& n < old(self).steps().len() ==> final(self).phase() == RunPhase::Running
                        && final(self).pos() == n
                    &&& n == old(self).steps().len() ==> final(self).phase() == RunPhase::Succeeded
                },
            },
            old(self).phase() == RunPhase::RollingBack ==> {
                &&& final(self).completed() == old(self).completed()
                &&& final(self).undo() == old(self).undo()
                &&& final(self).error() == old(self).error()
                &&& if old(self).pos() + 1 < old(self).undo().len() {
                    final(self).phase() == RunPhase::RollingBack && final(self).pos() == old(
                        self,
                    ).pos() + 1
                } else {
                    final(self).phase() == RunPhase::Failed
                }
            },
            (old(self).phase() == RunPhase::Succeeded || old(self).phase() == RunPhase::Failed) ==> {
                &&& final(self).phase() == old(self).phase()
                &&& final(self).completed() == old(self).completed()
                &&& final(self).undo() == old(self).undo()
                &&& final(self).error() == old(self).error()
            },
    {
        match self.phase {
            RunPhase::Checking => match outcome {
                CallOutcome::Failed(e) => {
                    self.error = Some(e);
                    self.phase = RunPhase::Failed;
                    assert(undo_calls(self.completed@) =~= Seq::<GatewayCall>::empty());
                    assert(self.undo@ =~= undo_calls(self.completed@));
                },
                _ => {
                    if self.pos < self.checks.len() - 1 {
                        self.pos = self.pos + 1;
                    } else {
                        self.pos = 0;
                        self.phase = RunPhase::Creating;
                    }
                },
            },
            RunPhase::Creating => match outcome {
                CallOutcome::Failed(e) => {
                    self.error = Some(e);
                    self.phase = RunPhase::Failed;
                    assert(undo_calls(self.completed@) =~= Seq::<GatewayCall>::empty());
                    assert(self.undo@ =~= undo_calls(self.completed@));
                },
                CallOutcome::Created(name) => {
                    self.completed.push(CompletedStep::SandboxCreated { name });
                    proof {
                        assert(dones(self.steps@, 0, 0) =~= Seq::<CompletedStep>::empty());
                        assert(self.completed@.drop_first() =~= Seq::<CompletedStep>::empty());
                    }
                    self.advance(0);
                },
                CallOutcome::Succeeded => {
                    let name = self.sandbox.clone();
                    self.completed.push(CompletedStep::SandboxCreated { name });
                    proof {
                        assert(dones(self.steps@, 0, 0) =~= Seq::<CompletedStep>::empty());
                        assert(self.completed@.drop_first() =~= Seq::<CompletedStep>::empty());
                    }
                    self.advance(0);
                },
            },
            RunPhase::Running => match outcome {
                CallOutcome::Failed(e) => {
                    let undo = undo_list(&self.completed);
                    proof {
                        lemma_rollback_deletes_sandbox_last(self.completed@);
                    }
                    self.undo = undo;
                    self.error = Some(e);
                    self.phase = RunPhase::RollingBack;
                    self.pos = 0;
                },
                _ => {
                    let ghost before = self.completed@;
                    let len = self.steps.len();
                    assert(self.pos < len);
                    let d = copy_step(&self.steps[self.pos].done);
                    self.completed.push(d);
                    proof {
                        let p = self.pos as int;
                        assert(dones(self.steps@, 0, p + 1) =~= dones(self.steps@, 0, p).push(
                            self.steps@[p].done,
                        ));
                        assert(self.completed@.drop_first() =~= before.drop_first().push(
                            self.steps@[p].done,
                        ));
                    }
                    let from = self.pos + 1;
                    let ghost mid = self.completed@;
                    self.advance(from);
                    proof {
                        let p = old(self).pos();
                        let n = next_call_index(self.steps@, p + 1);
                        lemma_next_call_index(self.steps@, p + 1);
                        assert(dones(self.steps@, p, n) =~= seq![self.steps@[p].done] + dones(
                            self.steps@,
                            p + 1,
                            n,
                        ));
                        assert(self.completed@ =~= before + dones(self.steps@, p, n));
                    }
                },
            },
            RunPhase::RollingBack => {
                if self.pos < self.undo.len() - 1 {
                    self.pos = self.pos + 1;
                } else {
                    self.pos = 0;
                    self.phase = RunPhase::Failed;
                }
            },
            RunPhase::Succeeded | RunPhase::Failed => {},
        }
    }

    /// The result of a finished run: the completed steps, or the error that
    /// ended it. `None` while the run is still going.
    pub fn into_result(self) -> (r: Option<Result<Vec<CompletedStep>, OrchestrateError>>)
        requires
            self.wf(),
        ensures
            self.phase() == RunPhase::Succeeded ==> (r matches Some(Ok(v)) && v@ == self.completed()),
            self.phase() == RunPhase::Failed ==> (r matches Some(Err(e)) && self.error() == Some(e)),
            !(self.phase() == RunPhase::Succeeded || self.phase() == RunPhase::Failed) ==> r is None,
    {
        match self.phase {
            RunPhase::Succeeded => Some(Ok(self.completed)),
            RunPhase::Failed => match self.error {
                Some(e) => Some(Err(e)),
                None => None,
            },
            _ => None,
        }
    }
}

/// A copy of a completed step.
pub fn copy_step(s: &CompletedStep) -> (r: CompletedStep)
    ensures
        r == *s,
{
    match s {
        CompletedStep::SandboxCreated { name } => CompletedStep::SandboxCreated { name: name.clone() },
        CompletedStep::PolicyApplied { sandbox, policy } => CompletedStep::PolicyApplied {
            sandbox: sandbox.clone(),
            policy: policy.clone(),
        },
        CompletedStep::ProviderAttached { sandbox, provider } => CompletedStep::ProviderAttached {
            sandbox: sandbox.clone(),
            provider: provider.clone(),
        },
        CompletedStep::McpBridgeStarted { sandbox, server } => CompletedStep::McpBridgeStarted {
            sandbox: sandbox.clone(),
            server: server.clone(),
        },
        CompletedStep::McpInSandboxConfigured { sandbox, server } =>
            CompletedStep::McpInSandboxConfigured { sandbox: sandbox.clone(), server: server.clone() },
        CompletedStep::PortForwardEstablished { sandbox, spec } =>
            CompletedStep::PortForwardEstablished { sandbox: sandbox.clone(), spec: spec.clone() },
        CompletedStep::ResourceLimitsApplied { sandbox } => CompletedStep::ResourceLimitsApplied {
            sandbox: sandbox.clone(),
        },
        CompletedStep::FilesUploaded { sandbox, spec } => CompletedStep::FilesUploaded {
            sandbox: sandbox.clone(),
            spec: spec.clone(),
        },
        CompletedStep::StreamableHttpAcknowledged { sandbox, server, url } =>
            CompletedStep::StreamableHttpAcknowledged {
                sandbox: sandbox.clone(),
                server: server.clone(),
                url: url.clone(),
            },
    }
}

// ---------------------------------------------------------------------------
// Laws of rollback
// ---------------------------------------------------------------------------

/// When the first completed step is the sandbox creation, the rollback ends
/// by deleting that sandbox.
pub proof fn lemma_rollback_deletes_sandbox_last(c: Seq<CompletedStep>)
    requires
        c.len() >= 1,
        c[0] is SandboxCreated,
    ensures
        undo_calls(c).len() >= 1,
        undo_calls(c).last() == (GatewayCall::DeleteSandbox { name: c[0]->SandboxCreated_name }),
    decreases c.len(),
{
    if c.len() == 1 {
        assert(c.drop_last() =~= Seq::<CompletedStep>::empty());
        assert(undo_calls(c.drop_last()) =~= Seq::<GatewayCall>::empty());
    } else {
        let d = c.drop_last();
        assert(d[0] == c[0]);
        lemma_rollback_deletes_sandbox_last(d);
    }
}

/// The number of rollback operations a list of completed steps needs.
pub open spec fn undo_count(c: Seq<CompletedStep>) -> int {
    undo_calls(c).len() as int
}

/// Rollback runs in reverse order: the rollback operation of step `j` comes
/// right after those of the undoable steps completed after it.
pub proof fn lemma_rollback_reverse_order(c: Seq<CompletedStep>, j: int)
    requires
        0 <= j < c.len(),
        undo_call(c[j]) is Some,
    ensures
        0 <= undo_count(c.subrange(j + 1, c.len() as int)) < undo_calls(c).len(),
        undo_calls(c)[undo_count(c.subrange(j + 1, c.len() as int))] == undo_call(c[j])->0,
    decreases c.len(),
{
    let n = c.len() as int;
    if j == n - 1 {
        assert(c.subrange(j + 1, n) =~= Seq::<CompletedStep>::empty());
        assert(undo_calls(c.subrange(j + 1, n)) =~= Seq::<GatewayCall>::empty());
    } else {
        let d = c.drop_last();
        assert(d[j] == c[j]);
        lemma_rollback_reverse_order(d, j);
        let s = c.subrange(j + 1, n);
        assert(s.drop_last() =~= d.subrange(j + 1, n - 1));
        assert(s.last() == c.last());
    }
}

// ---------------------------------------------------------------------------
// Laws of step order
// ---------------------------------------------------------------------------

/// The position of a step's kind in the run: the sandbox first, then policy,
/// providers, bridges, in-sandbox servers, streamable-HTTP servers, port
/// forwards, resource limits and uploads.
pub open spec fn step_rank(d: CompletedStep) -> int {
    match d {
        CompletedStep::SandboxCreated { .. } => 0,
        CompletedStep::PolicyApplied { .. } => 1,
        CompletedStep::ProviderAttached { .. } => 2,
        CompletedStep::McpBridgeStarted { .. } => 3,
        CompletedStep::McpInSandboxConfigured { .. } => 4,
        CompletedStep::StreamableHttpAcknowledged { .. } => 5,
        CompletedStep::PortForwardEstablished { .. } => 6,
        CompletedStep::ResourceLimitsApplied { .. } => 7,
        CompletedStep::FilesUploaded { .. } => 8,
    }
}

/// Steps whose kinds never go back.
pub open spec fn in_rank_order(s: Seq<PlannedStep>) -> bool {
    forall|i: int, j: int| 0 <= i < j < s.len() ==> step_rank(#[trigger] s[i].done) <= step_rank(
        #[trigger] s[j].done,
    )
}

/// Steps whose kinds lie between `lo` and `hi`.
pub open spec fn ranks_within(s: Seq<PlannedStep>, lo: int, hi: int) -> bool {
    forall|i: int| 0 <= i < s.len() ==> lo <= #[trigger] step_rank(s[i].done) <= hi
}

proof fn lemma_rank_order_concat(a: Seq<PlannedStep>, b: Seq<PlannedStep>, lo: int, mid: int, hi: int)
    requires
        in_rank_order(a),
        in_rank_order(b),
        ranks_within(a, lo, mid),
        ranks_within(b, mid, hi),
        lo <= mid <= hi,
    ensures
        in_rank_order(a + b),
        ranks_within(a + b, lo, hi),
{
    let c = a + b;
    assert forall|i: int, j: int| 0 <= i < j < c.len() implies step_rank(#[trigger] c[i].done)
        <= step_rank(#[trigger] c[j].done) by {
        if j < a.len() {
            assert(c[i] == a[i] && c[j] == a[j]);
        } else if i >= a.len() {
            assert(c[i] == b[i - a.len()] && c[j] == b[j - a.len()]);
        } else {
            assert(c[i] == a[i] && c[j] == b[j - a.len()]);
            assert(step_rank(a[i].done) <= mid);
            assert(mid <= step_rank(b[j - a.len()].done));
        }
    }
    assert forall|i: int| 0 <= i < c.len() implies lo <= #[trigger] step_rank(c[i].done) <= hi by {
        if i < a.len() {
            assert(c[i] == a[i]);
        } else {
            assert(c[i] == b[i - a.len()]);
        }
    }
}

proof fn lemma_one_rank(s: Seq<PlannedStep>, k: int)
    requires
        forall|i: int| 0 <= i < s.len() ==> #[trigger] step_rank(s[i].done) == k,
    ensures
        in_rank_order(s),
        ranks_within(s, k, k),
{
    assert forall|i: int, j: int| 0 <= i < j < s.len() implies step_rank(#[trigger] s[i].done)
        <= step_rank(#[trigger] s[j].done) by {
        assert(step_rank(s[i].done) == k);
        assert(step_rank(s[j].done) == k);
    }
}

/// The steps of a plan run phase by phase: every policy step before every
/// provider attachment, those before every bridge start, then in-sandbox
/// servers, streamable-HTTP servers, port forwards, resource limits and
/// uploads; and none of them is the sandbox creation, which comes first.
pub proof fn lemma_steps_in_phase_order(p: &OrchestrationPlan)
    ensures
        in_rank_order(plan_steps(p)),
        ranks_within(plan_steps(p), 1, 8),
{
    let s1 = policy_steps(p);
    let s2 = provider_steps(p);
    let s3 = bridge_steps(p);
    let s4 = in_sandbox_steps(p);
    let s5 = streamable_steps(p);
    let s6 = forward_steps(p);
    let s7 = resource_steps(p);
    let s8 = upload_steps(p);
    lemma_one_rank(s1, 1);
    lemma_one_rank(s2, 2);
    lemma_one_rank(s3, 3);
    lemma_one_rank(s4, 4);
    lemma_one_rank(s5, 5);
    lemma_one_rank(s6, 6);
    lemma_one_rank(s7, 7);
    lemma_one_rank(s8, 8);
    lemma_rank_order_concat(s1, s2, 1, 1, 2);
    lemma_rank_order_concat(s1 + s2, s3, 1, 2, 3);
    lemma_rank_order_concat(s1 + s2 + s3, s4, 1, 3, 4);
    lemma_rank_order_concat(s1 + s2 + s3 + s4, s5, 1, 4, 5);
    lemma_rank_order_concat(s1 + s2 + s3 + s4 + s5, s6, 1, 5, 6);
    lemma_rank_order_concat(s1 + s2 + s3 + s4 + s5 + s6, s7, 1, 6, 7);
    lemma_rank_order_concat(s1 + s2 + s3 + s4 + s5 + s6 + s7, s8, 1, 7, 8);
}

/// A step whose operation applies resource limits.
pub open spec fn sets_limits(s: PlannedStep) -> bool {
    s.call matches Some(GatewayCall::ApplyResourceLimits { .. })
}

/// None of the steps applies resource limits.
pub open spec fn no_limit_steps(s: Seq<PlannedStep>) -> bool {
    forall|j: int| 0 <= j < s.len() ==> !sets_limits(#[trigger] s[j])
}

proof fn lemma_no_limit_steps_concat(a: Seq<PlannedStep>, b: Seq<PlannedStep>)
    requires
        no_limit_steps(a),
        no_limit_steps(b),
    ensures
        no_limit_steps(a + b),
{
    assert forall|j: int| 0 <= j < (a + b).len() implies !sets_limits(#[trigger] (a + b)[j]) by {
        if j < a.len() {
            assert((a + b)[j] == a[j]);
        } else {
            assert((a + b)[j] == b[j - a.len()]);
        }
    }
}

/// A plan's resource limits reach the gateway as they were written: a plan
/// with resources has exactly one step that applies limits, to the plan's
/// sandbox with the plan's CPU and memory quantities; a plan without
/// resources has none.
pub proof fn lemma_resource_limits_carry_the_plan(p: &OrchestrationPlan)
    ensures
        p.resources matches Some(r) ==> exists|i: int|
            0 <= i < plan_steps(p).len() && #[trigger] plan_steps(p)[i].call == Some(
                GatewayCall::ApplyResourceLimits { sandbox: p.sandbox_name, cpu: r.cpu, memory: r.memory },
            ) && forall|j: int|
                0 <= j < plan_steps(p).len() && j != i ==> !sets_limits(#[trigger] plan_steps(p)[j]),
        p.resources is None ==> forall|j: int|
            0 <= j < plan_steps(p).len() ==> !sets_limits(#[trigger] plan_steps(p)[j]),
{
    let s1 = policy_steps(p);
    let s2 = provider_steps(p);
    let s3 = bridge_steps(p);
    let s4 = in_sandbox_steps(p);
    let s5 = streamable_steps(p);
    let s6 = forward_steps(p);
    let s7 = resource_steps(p);
    let s8 = upload_steps(p);
    assert(no_limit_steps(s1));
    assert(no_limit_steps(s2));
    assert(no_limit_steps(s3));
    assert(no_limit_steps(s4));
    assert(no_limit_steps(s5));
    assert(no_limit_steps(s6));
    assert(no_limit_steps(s8));
    lemma_no_limit_steps_concat(s1, s2);
    lemma_no_limit_steps_concat(s1 + s2, s3);
    lemma_no_limit_steps_concat(s1 + s2 + s3, s4);
    lemma_no_limit_steps_concat(s1 + s2 + s3 + s4, s5);
    lemma_no_limit_steps_concat(s1 + s2 + s3 + s4 + s5, s6);
    let head = s1 + s2 + s3 + s4 + s5 + s6;
    let all = plan_steps(p);
    assert(all =~= head + s7 + s8);
    match p.resources {
        Some(r) => {
            let i = head.len() as int;
            assert(s7.len() == 1);
            assert(all[i] == s7[0]);
            assert(plan_steps(p)[i].call == Some(
                GatewayCall::ApplyResourceLimits { sandbox: p.sandbox_name, cpu: r.cpu, memory: r.memory },
            ));
            assert forall|j: int| 0 <= j < all.len() && j != i implies !sets_limits(#[trigger] all[j]) by {
                if j < i {
                    assert(all[j] == head[j]);
                } else {
                    assert(all[j] == s8[j - i - 1]);
                }
            }
        },
        None => {
            assert(s7.len() == 0);
            assert(all =~= head + s8);
            lemma_no_limit_steps_concat(head, s8);
        },
    }
}

/// A run that succeeded has completed the sandbox creation and then every
/// planned step, in plan order.
pub proof fn lemma_success_completes_every_step(r: &PlanRun)
    requires
        r.wf(),
        r.phase() == RunPhase::Succeeded,
    ensures
        r.completed().len() == r.steps().len() + 1,
        r.completed()[0] is SandboxCreated,
        forall|i: int| 0 <= i < r.steps().len() ==> r.completed()[i + 1] == (#[trigger] r.steps()[i]).done,
{
    let d = dones(r.steps(), 0, r.steps().len() as int);
    assert(d.len() == r.steps().len());
    assert forall|i: int| 0 <= i < r.steps().len() implies r.completed()[i + 1] == (
    #[trigger] r.steps()[i]).done by {
        assert(d[i] == r.steps()[i].done);
        assert(r.completed().drop_first()[i] == r.completed()[i + 1]);
    }
}

} // verus!
