//! The agent itself: what it advertises, under which name, how it answers to
//! the orchestrator's control signals and how much work it has in hand.

use crate::outside::random_uuid;
use vstd::prelude::*;
use vstd::string::*;

verus! {

/// The context size that is advertised, in tokens.
pub const MAX_CONTEXT_TOKENS: u32 = 200_000;

/// The host name that is given where it cannot be found out.
pub open spec fn unknown_host() -> Seq<char> {
    "unknown"@
}

/// What the agent tells the orchestrator when it leaves.
pub open spec fn leave_reason() -> Seq<char> {
    "shutdown"@
}

/// What the agent says of its condition.
#[derive(Debug, Clone, Copy, PartialEq, Eq, Structural)]
pub enum AgentStatus {
    /// Nothing in hand.
    Idle,
    /// Something in hand.
    Busy,
    /// Not taking on any more.
    Draining,
}

/// What the orchestrator asks of the agent.
#[derive(Debug, Clone, Copy, PartialEq, Eq, Structural)]
pub enum ControlSignal {
    /// Take on work.
    Continue,
    /// Take on no more work.
    Drain,
    /// Stop.
    Shutdown,
    /// Anything else that the protocol knows.
    Other,
}

/// What comes from the stream of heartbeat replies.
#[derive(Debug)]
pub enum HeartbeatEvent {
    /// A reply. A signal that the protocol does not know is no signal.
    Reply { acknowledged: bool, signal: Option<ControlSignal> },
    /// The stream failed.
    Failed(String),
    /// The stream has ended.
    Closed,
}

/// How a reply changes whether the agent takes on work.
#[derive(Debug, Clone, Copy, PartialEq, Eq, Structural)]
pub enum DrainChange {
    /// It goes on as before.
    Unchanged,
    /// It takes on no more work from now on.
    Entered,
    /// It takes on work again.
    Left,
}

/// What the agent does after something came from the stream.
#[derive(Debug)]
pub enum HeartbeatStep {
    /// Wait for the next reply. `unacknowledged` tells that the orchestrator
    /// may have dropped the agent.
    Continue { unacknowledged: bool, change: DrainChange },
    /// Stop. `unacknowledged` is as above.
    Stop { unacknowledged: bool },
    /// Stop with an error.
    Abort(String),
}

/// The contents of a [`HeartbeatStep`].
pub enum HeartbeatStepView {
    Continue { unacknowledged: bool, change: DrainChange },
    Stop { unacknowledged: bool },
    Abort(Seq<char>),
}

impl View for HeartbeatStep {
    type V = HeartbeatStepView;

    open spec fn view(&self) -> HeartbeatStepView {
        match self {
            HeartbeatStep::Continue { unacknowledged, change } => HeartbeatStepView::Continue {
                unacknowledged: *unacknowledged,
                change: *change,
            },
            HeartbeatStep::Stop { unacknowledged } => HeartbeatStepView::Stop {
                unacknowledged: *unacknowledged,
            },
            HeartbeatStep::Abort(error) => HeartbeatStepView::Abort(error@),
        }
    }
}

/// What the agent tells the orchestrator at intervals. Its capabilities are
/// not repeated.
#[derive(Debug)]
pub struct Heartbeat {
    pub transducer_id: String,
    pub status: AgentStatus,
    pub active_work_count: u32,
}

/// The state of the agent that its loops share.
#[derive(Debug)]
pub struct AgentState {
    draining: bool,
    active_work_count: u32,
    max_concurrent: u32,
}

/// The contents of an [`AgentState`]: whether it takes on no more work, how
/// many work items it has in hand, and how many it may have.
pub struct AgentStateView {
    pub draining: bool,
    pub active_work_count: u32,
    pub max_concurrent: u32,
}

impl View for AgentState {
    type V = AgentStateView;

    closed spec fn view(&self) -> AgentStateView {
        AgentStateView {
            draining: self.draining,
            active_work_count: self.active_work_count,
            max_concurrent: self.max_concurrent,
        }
    }
}

/// Whether the agent drains after a signal.
pub open spec fn draining_after(draining: bool, signal: ControlSignal) -> bool {
    match signal {
        ControlSignal::Continue => false,
        ControlSignal::Drain => true,
        ControlSignal::Shutdown => draining,
        ControlSignal::Other => draining,
    }
}

/// The signal in a reply.
pub open spec fn signal_in(signal: Option<ControlSignal>) -> ControlSignal {
    match signal {
        Some(signal) => signal,
        None => ControlSignal::Continue,
    }
}

/// The difference between two conditions.
pub open spec fn drain_change(before: bool, after: bool) -> DrainChange {
    if before == after {
        DrainChange::Unchanged
    } else if after {
        DrainChange::Entered
    } else {
        DrainChange::Left
    }
}

impl AgentStateView {
    /// The agent has no more in hand than it may have.
    pub open spec fn wf(self) -> bool {
        self.active_work_count <= self.max_concurrent
    }

    /// What the agent says of its condition.
    pub open spec fn status(self) -> AgentStatus {
        if self.draining {
            AgentStatus::Draining
        } else if self.active_work_count == 0 {
            AgentStatus::Idle
        } else {
            AgentStatus::Busy
        }
    }

    /// The agent after something came from the stream of heartbeat replies.
    pub open spec fn after(self, event: HeartbeatEvent) -> AgentStateView {
        match event {
            HeartbeatEvent::Reply { signal, .. } => AgentStateView {
                draining: draining_after(self.draining, signal_in(signal)),
                ..self
            },
            _ => self,
        }
    }

    /// What the agent does after something came from that stream.
    pub open spec fn step(self, event: HeartbeatEvent) -> HeartbeatStepView {
        match event {
            HeartbeatEvent::Reply { acknowledged, signal } => if signal_in(signal)
                == ControlSignal::Shutdown {
                HeartbeatStepView::Stop { unacknowledged: !acknowledged }
            } else {
                HeartbeatStepView::Continue {
                    unacknowledged: !acknowledged,
                    change: drain_change(self.draining, self.after(event).draining),
                }
            },
            HeartbeatEvent::Failed(error) => HeartbeatStepView::Abort(
                "Heartbeat stream error: "@ + error@,
            ),
            HeartbeatEvent::Closed => HeartbeatStepView::Stop { unacknowledged: false },
        }
    }

    /// The agent with one work item more in hand.
    pub open spec fn begun(self) -> AgentStateView {
        AgentStateView { active_work_count: (self.active_work_count + 1) as u32, ..self }
    }

    /// The agent with one work item less in hand.
    pub open spec fn finished(self) -> AgentStateView {
        AgentStateView { active_work_count: (self.active_work_count - 1) as u32, ..self }
    }
}

impl AgentState {
    /// An agent with nothing in hand that takes on work.
    pub fn new(max_concurrent: u32) -> (state: Self)
        ensures
            state@ == AgentStateView::start(max_concurrent),
            state@.wf(),
    {
        AgentState { draining: false, active_work_count: 0, max_concurrent }
    }

    /// Whether the agent takes on no more work.
    pub fn is_draining(&self) -> (draining: bool)
        ensures
            draining == self@.draining,
    {
        self.draining
    }

    /// How many work items the agent has in hand.
    pub fn active_work_count(&self) -> (count: u32)
        ensures
            count == self@.active_work_count,
    {
        self.active_work_count
    }

    /// How many work items the agent may have in hand.
    pub fn max_concurrent(&self) -> (max: u32)
        ensures
            max == self@.max_concurrent,
    {
        self.max_concurrent
    }

    /// What the agent says of its condition.
    pub fn status(&self) -> (status: AgentStatus)
        ensures
            status == self@.status(),
    {
        if self.draining {
            AgentStatus::Draining
        } else if self.active_work_count == 0 {
            AgentStatus::Idle
        } else {
            AgentStatus::Busy
        }
    }

    /// What the agent tells the orchestrator at intervals.
    pub fn heartbeat(&self, transducer_id: &str) -> (heartbeat: Heartbeat)
        ensures
            heartbeat.transducer_id@ == transducer_id@,
            heartbeat.status == self@.status(),
            heartbeat.active_work_count == self@.active_work_count,
    {
        Heartbeat {
            transducer_id: transducer_id.to_string(),
            status: self.status(),
            active_work_count: self.active_work_count,
        }
    }

    /// Take in what came from the stream of heartbeat replies.
    pub fn on_heartbeat(&mut self, event: HeartbeatEvent) -> (step: HeartbeatStep)
        ensures
            final(self)@ == old(self)@.after(event),
            step@ == old(self)@.step(event),
            old(self)@.wf() ==> final(self)@.wf(),
    {
        match event {
            HeartbeatEvent::Reply { acknowledged, signal } => {
                let asked = match signal {
                    Some(signal) => signal,
                    None => ControlSignal::Continue,
                };
                let was_draining = self.draining;
                match asked {
                    ControlSignal::Shutdown => HeartbeatStep::Stop {
                        unacknowledged: !acknowledged,
                    },
                    ControlSignal::Drain => {
                        self.draining = true;
                        HeartbeatStep::Continue {
                            unacknowledged: !acknowledged,
                            change: if was_draining {
                                DrainChange::Unchanged
                            } else {
                                DrainChange::Entered
                            },
                        }
                    },
                    ControlSignal::Continue => {
                        self.draining = false;
                        HeartbeatStep::Continue {
                            unacknowledged: !acknowledged,
                            change: if was_draining {
                                DrainChange::Left
                            } else {
                                DrainChange::Unchanged
                            },
                        }
                    },
                    ControlSignal::Other => HeartbeatStep::Continue {
                        unacknowledged: !acknowledged,
                        change: DrainChange::Unchanged,
                    },
                }
            },
            HeartbeatEvent::Failed(error) => HeartbeatStep::Abort(
                "Heartbeat stream error: ".to_string().concat(error.as_str()),
            ),
            HeartbeatEvent::Closed => HeartbeatStep::Stop { unacknowledged: false },
        }
    }

    /// Take a work item in hand.
    pub fn begin_work(&mut self)
        requires
            old(self)@.active_work_count < old(self)@.max_concurrent,
        ensures
            final(self)@ == old(self)@.begun(),
            final(self)@.wf(),
    {
        self.active_work_count = self.active_work_count + 1;
    }

    /// Put a work item out of hand.
    pub fn finish_work(&mut self)
        requires
            old(self)@.active_work_count > 0,
        ensures
            final(self)@ == old(self)@.finished(),
            old(self)@.wf() ==> final(self)@.wf(),
    {
        self.active_work_count = self.active_work_count - 1;
    }
}

/// What the agent can do.
#[derive(Debug)]
pub struct Capabilities {
    pub supported_work_types: Vec<String>,
    pub max_concurrent: u32,
    pub available_tools: Vec<String>,
    pub can_access_network: bool,
    pub can_write_files: bool,
    pub model_id: String,
    pub max_context_tokens: u32,
}

/// The contents of [`Capabilities`].
pub struct CapabilitiesView {
    pub supported_work_types: Seq<Seq<char>>,
    pub max_concurrent: u32,
    pub available_tools: Seq<Seq<char>>,
    pub can_access_network: bool,
    pub can_write_files: bool,
    pub model_id: Seq<char>,
    pub max_context_tokens: u32,
}

impl View for Capabilities {
    type V = CapabilitiesView;

    open spec fn view(&self) -> CapabilitiesView {
        CapabilitiesView {
            supported_work_types: self.supported_work_types.deep_view(),
            max_concurrent: self.max_concurrent,
            available_tools: self.available_tools.deep_view(),
            can_access_network: self.can_access_network,
            can_write_files: self.can_write_files,
            model_id: self.model_id@,
            max_context_tokens: self.max_context_tokens,
        }
    }
}

/// The kinds of work that the agent takes on.
pub open spec fn work_types() -> Seq<Seq<char>> {
    seq![
        "fix_issue"@,
        "review_pr"@,
        "refactor_module"@,
        "add_feature"@,
        "write_documentation"@,
        "fix_ci_failure"@,
        "custom"@,
    ]
}

/// The tools that the agent has.
pub open spec fn tools() -> Seq<Seq<char>> {
    seq!["bash"@, "read"@, "edit"@, "write"@, "glob"@, "grep"@, "task"@]
}

/// What an agent for `max_concurrent` work items with a given model can do.
pub fn capabilities(max_concurrent: u32, model_id: &str) -> (capabilities: Capabilities)
    ensures
        capabilities@ == (CapabilitiesView {
            supported_work_types: work_types(),
            max_concurrent,
            available_tools: tools(),
            can_access_network: true,
            can_write_files: true,
            model_id: model_id@,
            max_context_tokens: MAX_CONTEXT_TOKENS,
        }),
{
    let supported_work_types: Vec<String> = vec![
        "fix_issue".to_string(),
        "review_pr".to_string(),
        "refactor_module".to_string(),
        "add_feature".to_string(),
        "write_documentation".to_string(),
        "fix_ci_failure".to_string(),
        "custom".to_string(),
    ];
    let available_tools: Vec<String> = vec![
        "bash".to_string(),
        "read".to_string(),
        "edit".to_string(),
        "write".to_string(),
        "glob".to_string(),
        "grep".to_string(),
        "task".to_string(),
    ];
    assert(supported_work_types.deep_view() =~= work_types());
    assert(available_tools.deep_view() =~= tools());
    Capabilities {
        supported_work_types,
        max_concurrent,
        available_tools,
        can_access_network: true,
        can_write_files: true,
        model_id: model_id.to_string(),
        max_context_tokens: MAX_CONTEXT_TOKENS,
    }
}

/// Where the agent runs and what it is. It has no labels.
#[derive(Debug)]
pub struct Metadata {
    pub hostname: String,
    pub region: String,
    pub version: String,
    pub platform: String,
}

/// What the agent tells of where it runs; `hostname` is nothing where it could
/// not be found out.
pub fn metadata(hostname: Option<String>, region: &str, version: &str, platform: &str) -> (metadata:
    Metadata)
    ensures
        metadata.hostname@ == (match hostname {
            Some(name) => name@,
            None => unknown_host(),
        }),
        metadata.region@ == region@,
        metadata.version@ == version@,
        metadata.platform@ == platform@,
{
    Metadata {
        hostname: match hostname {
            Some(name) => name,
            None => "unknown".to_string(),
        },
        region: region.to_string(),
        version: version.to_string(),
        platform: platform.to_string(),
    }
}

/// Whether the agent was registered; where not, the error to stop with.
pub fn registration_outcome(success: bool, error: &str) -> (outcome: Result<(), String>)
    ensures
        outcome is Ok <==> success,
        outcome matches Err(text) ==> text@ == "Registration failed: "@ + error@,
{
    if success {
        Ok(())
    } else {
        Err("Registration failed: ".to_string().concat(error))
    }
}

/// What the agent tells the orchestrator when it leaves.
pub fn deregistration_reason() -> (reason: &'static str)
    ensures
        reason@ == leave_reason(),
{
    "shutdown"
}

/// The name of the agent: the one that it was given, else the one that it
/// proves to have, else that of its host, else `fallback`.
pub open spec fn chosen_id(
    given: Option<Seq<char>>,
    identity: Option<Seq<char>>,
    hostname: Option<Seq<char>>,
    fallback: Seq<char>,
) -> Seq<char> {
    match (given, identity, hostname) {
        (Some(id), _, _) => id,
        (None, Some(id), _) => id,
        (None, None, Some(id)) => id,
        (None, None, None) => fallback,
    }
}

/// The name of the agent, where `fallback` is there to be used if need be.
pub fn select_id(
    given: Option<String>,
    identity: Option<String>,
    hostname: Option<String>,
    fallback: String,
) -> (id: String)
    ensures
        id@ == chosen_id(
            given.deep_view(),
            identity.deep_view(),
            hostname.deep_view(),
            fallback@,
        ),
{
    match given {
        Some(id) => id,
        None => match identity {
            Some(id) => id,
            None => match hostname {
                Some(id) => id,
                None => fallback,
            },
        },
    }
}

/// The name of the agent, with a random one where nothing else names it.
pub fn choose_transducer_id(
    given: Option<String>,
    identity: Option<String>,
    hostname: Option<String>,
) -> (id: String)
    ensures
        exists|random: Seq<char>| #[trigger]
            crate::outside::is_random_uuid(random) && id@ == chosen_id(
                given.deep_view(),
                identity.deep_view(),
                hostname.deep_view(),
                random,
            ),
{
    let random = random_uuid();
    let ghost name = random@;
    let id = select_id(given, identity, hostname, random);
    assert(crate::outside::is_random_uuid(name));
    id
}

/// Where the agent's work is to be kept in.
#[derive(Debug)]
pub enum SandboxPlan {
    /// Nowhere, though a policy may be configured.
    Disabled,
    /// In a sandbox with the policy in a file.
    Policy(String),
    /// Nowhere, for want of a policy.
    Unconfigured,
}

/// Whether work is kept in a sandbox, and with which policy. To disable the
/// sandbox goes before everything else.
pub fn sandbox_plan(disabled: bool, policy_path: Option<String>) -> (plan: SandboxPlan)
    ensures
        plan is Disabled <==> disabled,
        plan is Unconfigured <==> !disabled && policy_path is None,
        plan is Policy <==> !disabled && policy_path is Some,
        plan matches SandboxPlan::Policy(path) ==> Some(path) == policy_path,
{
    if disabled {
        SandboxPlan::Disabled
    } else {
        match policy_path {
            Some(path) => SandboxPlan::Policy(path),
            None => SandboxPlan::Unconfigured,
        }
    }
}

/// Whether the agent drains after some signals.
pub open spec fn draining_after_all(draining: bool, signals: Seq<ControlSignal>) -> bool
    decreases signals.len(),
{
    if signals.len() == 0 {
        draining
    } else {
        draining_after(draining_after_all(draining, signals.drop_last()), signals.last())
    }
}

/// Whether a signal settles that the agent drains, or that it does not.
pub open spec fn is_decisive(signal: ControlSignal) -> bool {
    signal == ControlSignal::Drain || signal == ControlSignal::Continue
}

/// Whether the agent drains goes by the last signal that settled it; without
/// one, the agent goes on as before.
pub proof fn law_last_decisive_signal_counts(draining: bool, signals: Seq<ControlSignal>, last: int)
    requires
        -1 <= last < signals.len(),
        last >= 0 ==> is_decisive(signals[last]),
        forall|i: int| last < i < signals.len() ==> !is_decisive(#[trigger] signals[i]),
    ensures
        draining_after_all(draining, signals) == (if last < 0 {
            draining
        } else {
            signals[last] == ControlSignal::Drain
        }),
    decreases signals.len(),
{
    if signals.len() > 0 && last < signals.len() - 1 {
        let front = signals.drop_last();
        assert(!is_decisive(signals[signals.len() - 1]));
        assert forall|i: int| last < i < front.len() implies !is_decisive(#[trigger] front[i]) by {
            assert(front[i] == signals[i]);
        }
        law_last_decisive_signal_counts(draining, front, last);
    }
}

/// What comes from the heartbeat stream never changes how much the agent has
/// in hand, or may have.
pub proof fn law_heartbeats_leave_the_work_alone(state: AgentStateView, event: HeartbeatEvent)
    ensures
        state.after(event).active_work_count == state.active_work_count,
        state.after(event).max_concurrent == state.max_concurrent,
        state.wf() ==> state.after(event).wf(),
{
}

/// The agent is told to stop by the orchestrator alone, by a signal or by the
/// end of the stream.
pub proof fn law_only_shutdown_and_the_end_stop(state: AgentStateView, event: HeartbeatEvent)
    ensures
        state.step(event) is Stop <==> (event is Closed || (event
            matches HeartbeatEvent::Reply { signal, .. } && signal == Some(
            ControlSignal::Shutdown,
        ))),
        state.step(event) is Abort <==> event is Failed,
{
}

/// A change of the condition is told of once, when it happens.
pub proof fn law_drain_change_is_told_once(state: AgentStateView, event: HeartbeatEvent)
    ensures
        state.step(event) matches HeartbeatStepView::Continue { change, .. } ==> {
            &&& change == DrainChange::Entered <==> !state.draining && state.after(event).draining
            &&& change == DrainChange::Left <==> state.draining && !state.after(event).draining
            &&& state.after(event).step(event) matches HeartbeatStepView::Continue { change, .. }
                && change == DrainChange::Unchanged
        },
{
}

/// To take a work item in hand and to put it out of hand again changes
/// nothing.
pub proof fn law_finish_undoes_begin(state: AgentStateView)
    requires
        state.active_work_count < state.max_concurrent,
    ensures
        state.begun().wf(),
        state.begun().finished() == state,
        state.begun().active_work_count > 0,
{
}

/// A step of the agent: it takes a work item in hand, puts one out of hand, or
/// takes in what came from the stream of heartbeat replies.
pub enum AgentStep {
    Begin,
    Finish,
    Heartbeat(HeartbeatEvent),
}

impl AgentStateView {
    /// An agent with nothing in hand that takes on work.
    pub open spec fn start(max_concurrent: u32) -> AgentStateView {
        AgentStateView { draining: false, active_work_count: 0, max_concurrent }
    }

    /// Whether a step can be made: a work item is taken in hand only where
    /// there is room, and put out of hand only where there is one.
    pub open spec fn can_make(self, step: AgentStep) -> bool {
        match step {
            AgentStep::Begin => self.active_work_count < self.max_concurrent,
            AgentStep::Finish => self.active_work_count > 0,
            AgentStep::Heartbeat(_) => true,
        }
    }

    /// The agent after a step.
    pub open spec fn made(self, step: AgentStep) -> AgentStateView {
        match step {
            AgentStep::Begin => self.begun(),
            AgentStep::Finish => self.finished(),
            AgentStep::Heartbeat(event) => self.after(event),
        }
    }

    /// The agent after some steps.
    pub open spec fn made_all(self, steps: Seq<AgentStep>) -> AgentStateView
        decreases steps.len(),
    {
        if steps.len() == 0 {
            self
        } else {
            self.made_all(steps.drop_last()).made(steps.last())
        }
    }

    /// Whether each of some steps can be made when its turn comes.
    pub open spec fn can_make_all(self, steps: Seq<AgentStep>) -> bool
        decreases steps.len(),
    {
        steps.len() > 0 ==> {
            &&& self.can_make_all(steps.drop_last())
            &&& self.made_all(steps.drop_last()).can_make(steps.last())
        }
    }
}

/// How many work items are taken in hand in some steps.
pub open spec fn begun_in(steps: Seq<AgentStep>) -> int
    decreases steps.len(),
{
    if steps.len() == 0 {
        0
    } else {
        begun_in(steps.drop_last()) + if steps.last() is Begin {
            1int
        } else {
            0
        }
    }
}

/// How many work items are put out of hand in some steps.
pub open spec fn finished_in(steps: Seq<AgentStep>) -> int
    decreases steps.len(),
{
    if steps.len() == 0 {
        0
    } else {
        finished_in(steps.drop_last()) + if steps.last() is Finish {
            1int
        } else {
            0
        }
    }
}

/// At every moment of a run, the agent has in hand what it has taken in hand
/// and not put out of hand yet, and never more than it may; once all that was
/// taken in hand is put out of hand, it has nothing in hand.
pub proof fn law_run_keeps_to_the_maximum(
    max_concurrent: u32,
    steps: Seq<AgentStep>,
    moment: int,
)
    requires
        AgentStateView::start(max_concurrent).can_make_all(steps),
        0 <= moment <= steps.len(),
    ensures
        ({
            let past = steps.take(moment);
            let state = AgentStateView::start(max_concurrent).made_all(past);
            &&& state.active_work_count == begun_in(past) - finished_in(past)
            &&& state.active_work_count <= max_concurrent
            &&& state.max_concurrent == max_concurrent
            &&& begun_in(past) == finished_in(past) ==> state.active_work_count == 0
        }),
    decreases steps.len(),
{
    if moment < steps.len() {
        let front = steps.drop_last();
        law_run_keeps_to_the_maximum(max_concurrent, front, moment);
        assert(front.take(moment) =~= steps.take(moment));
    } else if steps.len() > 0 {
        let front = steps.drop_last();
        law_run_keeps_to_the_maximum(max_concurrent, front, front.len() as int);
        assert(front.take(front.len() as int) =~= front);
        assert(steps.take(moment) =~= steps);
    } else {
        assert(steps.take(moment) =~= steps);
    }
}

/// A draining agent says so; of any other, it can be told whether it has work
/// in hand.
pub proof fn law_status_tells_the_state(state: AgentStateView)
    ensures
        state.status() == AgentStatus::Draining <==> state.draining,
        state.status() == AgentStatus::Idle <==> !state.draining && state.active_work_count == 0,
        state.status() == AgentStatus::Busy <==> !state.draining && state.active_work_count > 0,
{
}

/// A name that was given is used, whatever else is known; without it, an
/// identity is.
pub proof fn law_given_name_goes_first(
    given: Option<Seq<char>>,
    identity: Option<Seq<char>>,
    hostname: Option<Seq<char>>,
    fallback: Seq<char>,
)
    ensures
        given matches Some(id) ==> chosen_id(given, identity, hostname, fallback) == id,
        given is None ==> (identity matches Some(id) ==> chosen_id(
            given,
            identity,
            hostname,
            fallback,
        ) == id),
{
}

/// Whatever the agent has in hand, and whether or not its heartbeat was
/// acknowledged, a reply settles whether it drains: it does after a drain
/// signal, it does not after a continue signal or one that is not known, and
/// any other signal leaves that as it was. What ends the stream does too.
pub proof fn law_reply_settles_draining(
    state: AgentStateView,
    acknowledged: bool,
    error: String,
)
    ensures
        state.after(HeartbeatEvent::Reply { acknowledged, signal: Some(ControlSignal::Drain) })
            == (AgentStateView { draining: true, ..state }),
        state.after(HeartbeatEvent::Reply { acknowledged, signal: Some(ControlSignal::Continue) })
            == (AgentStateView { draining: false, ..state }),
        state.after(HeartbeatEvent::Reply { acknowledged, signal: None }) == (AgentStateView {
            draining: false,
            ..state
        }),
        state.after(HeartbeatEvent::Reply { acknowledged, signal: Some(ControlSignal::Shutdown) })
            == state,
        state.after(HeartbeatEvent::Reply { acknowledged, signal: Some(ControlSignal::Other) })
            == state,
        state.after(HeartbeatEvent::Failed(error)) == state,
        state.after(HeartbeatEvent::Closed) == state,
{
}

/// What the agent does next goes by the reply, and by whether it changes that
/// the agent drains: a shutdown signal stops it, any other reply does not; a
/// heartbeat that was not acknowledged is always told of; a failure stops it
/// with an error that repeats the failure.
pub proof fn law_reply_settles_the_next_step(
    state: AgentStateView,
    acknowledged: bool,
    signal: Option<ControlSignal>,
    error: String,
)
    ensures
        state.step(
            HeartbeatEvent::Reply { acknowledged, signal: Some(ControlSignal::Shutdown) },
        ) == (HeartbeatStepView::Stop { unacknowledged: !acknowledged }),
        signal != Some(ControlSignal::Shutdown) ==> (state.step(
            HeartbeatEvent::Reply { acknowledged, signal },
        ) matches HeartbeatStepView::Continue { unacknowledged, change } && unacknowledged
            == !acknowledged),
        state.step(HeartbeatEvent::Reply { acknowledged, signal: Some(ControlSignal::Drain) })
            == (HeartbeatStepView::Continue {
            unacknowledged: !acknowledged,
            change: if state.draining {
                DrainChange::Unchanged
            } else {
                DrainChange::Entered
            },
        }),
        signal is None || signal == Some(ControlSignal::Continue) ==> state.step(
            HeartbeatEvent::Reply { acknowledged, signal },
        ) == (HeartbeatStepView::Continue {
            unacknowledged: !acknowledged,
            change: if state.draining {
                DrainChange::Left
            } else {
                DrainChange::Unchanged
            },
        }),
        state.step(HeartbeatEvent::Reply { acknowledged, signal: Some(ControlSignal::Other) })
            == (HeartbeatStepView::Continue {
            unacknowledged: !acknowledged,
            change: DrainChange::Unchanged,
        }),
        state.step(HeartbeatEvent::Failed(error)) == HeartbeatStepView::Abort(
            "Heartbeat stream error: "@ + error@,
        ),
        state.step(HeartbeatEvent::Closed) == (HeartbeatStepView::Stop { unacknowledged: false }),
{
}

/// The signals in some steps, in their order.
pub open spec fn signals_of(steps: Seq<AgentStep>) -> Seq<ControlSignal>
    decreases steps.len(),
{
    if steps.len() == 0 {
        Seq::empty()
    } else {
        let before = signals_of(steps.drop_last());
        match steps.last() {
            AgentStep::Heartbeat(HeartbeatEvent::Reply { signal: Some(signal), .. }) => before.push(
                signal,
            ),
            AgentStep::Heartbeat(HeartbeatEvent::Reply { signal: None, .. }) => before.push(
                ControlSignal::Continue,
            ),
            _ => before,
        }
    }
}

/// At every moment of a run, whether the agent drains goes by the signals that
/// it was sent, and not by the work that it has taken on or finished.
pub proof fn law_draining_goes_by_the_signals_of_a_run(
    state: AgentStateView,
    steps: Seq<AgentStep>,
)
    ensures
        state.made_all(steps).draining == draining_after_all(state.draining, signals_of(steps)),
    decreases steps.len(),
{
    if steps.len() > 0 {
        let front = steps.drop_last();
        let before = signals_of(front);
        law_draining_goes_by_the_signals_of_a_run(state, front);
        match steps.last() {
            AgentStep::Heartbeat(HeartbeatEvent::Reply { signal: Some(signal), .. }) => {
                assert(before.push(signal).drop_last() =~= before);
            },
            AgentStep::Heartbeat(HeartbeatEvent::Reply { signal: None, .. }) => {
                assert(before.push(ControlSignal::Continue).drop_last() =~= before);
            },
            _ => {},
        }
    }
}

/// To take a work item in hand, or to put one out of hand, changes the count
/// by one and nothing else.
pub proof fn law_work_changes_the_count_by_one(state: AgentStateView)
    ensures
        state.active_work_count < u32::MAX ==> {
            &&& state.begun().active_work_count == state.active_work_count + 1
            &&& state.begun().draining == state.draining
            &&& state.begun().max_concurrent == state.max_concurrent
        },
        state.active_work_count > 0 ==> {
            &&& state.finished().active_work_count == state.active_work_count - 1
            &&& state.finished().draining == state.draining
            &&& state.finished().max_concurrent == state.max_concurrent
        },
        state.wf() <==> state.active_work_count <= state.max_concurrent,
{
}

/// The name of the agent is the first that there is: the given one, the proven
/// one, that of the host; only where there is none of them is it made up.
pub proof fn law_first_name_there_is_is_used(
    given: Seq<char>,
    identity: Option<Seq<char>>,
    proven: Seq<char>,
    hostname: Option<Seq<char>>,
    host: Seq<char>,
    fallback: Seq<char>,
)
    ensures
        chosen_id(Some(given), identity, hostname, fallback) == given,
        chosen_id(None, Some(proven), hostname, fallback) == proven,
        chosen_id(None, None, Some(host), fallback) == host,
        chosen_id(None, None, None, fallback) == fallback,
{
}

/// Steps and capabilities are seen with all that they hold, and an agent
/// starts with nothing in hand and takes on work, however much it may have.
pub proof fn law_agents_are_seen_as_they_are(
    unacknowledged: bool,
    change: DrainChange,
    error: String,
    capabilities: Capabilities,
    max_concurrent: u32,
)
    ensures
        (HeartbeatStep::Continue { unacknowledged, change })@ == (HeartbeatStepView::Continue {
            unacknowledged,
            change,
        }),
        (HeartbeatStep::Stop { unacknowledged })@ == (HeartbeatStepView::Stop { unacknowledged }),
        HeartbeatStep::Abort(error)@ == HeartbeatStepView::Abort(error@),
        capabilities@.supported_work_types == capabilities.supported_work_types.deep_view(),
        capabilities@.max_concurrent == capabilities.max_concurrent,
        capabilities@.available_tools == capabilities.available_tools.deep_view(),
        capabilities@.can_access_network == capabilities.can_access_network,
        capabilities@.can_write_files == capabilities.can_write_files,
        capabilities@.model_id == capabilities.model_id@,
        capabilities@.max_context_tokens == capabilities.max_context_tokens,
        !AgentStateView::start(max_concurrent).draining,
        AgentStateView::start(max_concurrent).active_work_count == 0,
        AgentStateView::start(max_concurrent).max_concurrent == max_concurrent,
{
}

} // verus!
