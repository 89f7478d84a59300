//! What a pane's runtime hands over when one server replaces another.
use crate::osc::ready::RemoteExecReadyFilter;
use crate::text;
use vstd::prelude::*;

verus! {

/// An agent's state as the interface to other programs names it.
#[derive(Debug, Clone, Copy, PartialEq, Eq, Structural)]
pub enum PaneAgentState {
    Idle,
    Working,
    Blocked,
    Unknown,
}

/// An agent's state as it was detected.
#[derive(Debug, Clone, Copy, PartialEq, Eq, Structural)]
pub enum AgentState {
    Idle,
    Working,
    Blocked,
    Unknown,
}

/// How an agent's session is named.
#[derive(Debug, Clone, Copy, PartialEq, Eq, Structural)]
pub enum AgentSessionRefKind {
    Id,
    Path,
}

/// The session that an agent reported.
#[derive(Debug, Clone, PartialEq, Eq)]
pub struct AgentSessionRef {
    pub kind: AgentSessionRefKind,
    pub value: String,
}

/// What a hook says about an agent.
#[derive(Debug, Clone, PartialEq, Eq)]
pub struct HookAuthority {
    pub source: String,
    pub agent_label: String,
    pub message: Option<String>,
    pub session_ref: Option<AgentSessionRef>,
}

/// The content of what a hook says.
pub struct HookView {
    pub source: Seq<char>,
    pub agent_label: Seq<char>,
    pub message: Option<Seq<char>>,
    pub session_ref: Option<(AgentSessionRefKind, Seq<char>)>,
}

impl View for HookAuthority {
    type V = HookView;

    open spec fn view(&self) -> HookView {
        HookView {
            source: self.source@,
            agent_label: self.agent_label@,
            message: text::opt_text(self.message),
            session_ref: match self.session_ref {
                Some(session_ref) => Some((session_ref.kind, session_ref.value@)),
                None => None,
            },
        }
    }
}

pub open spec fn hook_view(hook: Option<HookAuthority>) -> Option<HookView> {
    match hook {
        Some(hook) => Some(hook@),
        None => None,
    }
}

/// What is known of the agent in a terminal.
#[derive(Debug, Clone, PartialEq, Eq)]
pub struct TerminalAgent {
    pub effective_agent_label: Option<String>,
    pub state: AgentState,
    pub hook_authority: Option<HookAuthority>,
}

/// What is handed over of the agent in a terminal.
#[derive(Debug, Clone, PartialEq, Eq)]
pub struct HandoffAgentState {
    pub agent: Option<String>,
    pub state: PaneAgentState,
    pub seen: bool,
    pub hook: Option<HookAuthority>,
}

/// What the receiving server does to a terminal: it sets the detected agent and
/// the hook's word, where there are any.
#[derive(Debug, Clone, PartialEq, Eq)]
pub struct RestoredAgent<A> {
    pub detected: Option<(A, AgentState)>,
    pub hook: Option<(HookAuthority, AgentState)>,
    pub seen: bool,
}

pub open spec fn api_state(state: AgentState) -> PaneAgentState {
    match state {
        AgentState::Idle => PaneAgentState::Idle,
        AgentState::Working => PaneAgentState::Working,
        AgentState::Blocked => PaneAgentState::Blocked,
        AgentState::Unknown => PaneAgentState::Unknown,
    }
}

pub open spec fn detected_state(state: PaneAgentState) -> AgentState {
    match state {
        PaneAgentState::Idle => AgentState::Idle,
        PaneAgentState::Working => AgentState::Working,
        PaneAgentState::Blocked => AgentState::Blocked,
        PaneAgentState::Unknown => AgentState::Unknown,
    }
}

pub fn api_agent_state(state: AgentState) -> (named: PaneAgentState)
    ensures
        named == api_state(state),
{
    match state {
        AgentState::Idle => PaneAgentState::Idle,
        AgentState::Working => PaneAgentState::Working,
        AgentState::Blocked => PaneAgentState::Blocked,
        AgentState::Unknown => PaneAgentState::Unknown,
    }
}

pub fn detect_agent_state(state: PaneAgentState) -> (detected: AgentState)
    ensures
        detected == detected_state(state),
{
    match state {
        PaneAgentState::Idle => AgentState::Idle,
        PaneAgentState::Working => AgentState::Working,
        PaneAgentState::Blocked => AgentState::Blocked,
        PaneAgentState::Unknown => AgentState::Unknown,
    }
}

fn copied_text(text: &Option<String>) -> (copy: Option<String>)
    ensures
        text::opt_text(copy) == text::opt_text(*text),
{
    match text {
        Some(text) => Some(text.clone()),
        None => None,
    }
}

impl HookAuthority {
    /// Another copy of what the hook says.
    pub fn duplicate(&self) -> (copy: Self)
        ensures
            copy@ == self@,
    {
        HookAuthority {
            source: self.source.clone(),
            agent_label: self.agent_label.clone(),
            message: copied_text(&self.message),
            session_ref: match &self.session_ref {
                Some(session_ref) => Some(
                    AgentSessionRef { kind: session_ref.kind, value: session_ref.value.clone() },
                ),
                None => None,
            },
        }
    }
}

/// The agent that a label stands for: `parsed` is what the label parses to, and
/// means nothing where there is no label.
pub open spec fn labelled_agent<A>(label: Option<String>, parsed: Option<A>) -> Option<A> {
    match label {
        Some(_) => parsed,
        None => None,
    }
}

impl HandoffAgentState {
    /// What is handed over of a terminal's agent.
    pub fn capture(terminal: &TerminalAgent, seen: bool) -> (state: Self)
        ensures
            text::opt_text(state.agent) == text::opt_text(terminal.effective_agent_label),
            state.state == api_state(terminal.state),
            state.seen == seen,
            hook_view(state.hook) == hook_view(terminal.hook_authority),
    {
        HandoffAgentState {
            agent: copied_text(&terminal.effective_agent_label),
            state: api_agent_state(terminal.state),
            seen,
            hook: match &terminal.hook_authority {
                Some(hook) => Some(hook.duplicate()),
                None => None,
            },
        }
    }

    /// What detection starts from: the agent, its state, and whether a hook
    /// speaks for it. `parsed` is the agent that the label parses to.
    pub fn detection_seed<A>(&self, parsed: Option<A>) -> (seed: (Option<A>, AgentState, bool))
        ensures
            seed.0 == labelled_agent(self.agent, parsed),
            seed.1 == (if labelled_agent(self.agent, parsed) is Some {
                detected_state(self.state)
            } else {
                AgentState::Unknown
            }),
            seed.2 == (self.hook is Some),
    {
        let agent: Option<A> = match &self.agent {
            Some(_) => parsed,
            None => None,
        };
        let state = if agent.is_some() {
            detect_agent_state(self.state)
        } else {
            AgentState::Unknown
        };
        (agent, state, self.hook.is_some())
    }

    /// What is set in the receiving terminal. `parsed` is the agent that the
    /// label parses to.
    pub fn restore<A>(&self, parsed: Option<A>) -> (restored: RestoredAgent<A>)
        ensures
            restored.detected == (match labelled_agent(self.agent, parsed) {
                Some(agent) => Some((agent, detected_state(self.state))),
                None => None,
            }),
            match self.hook {
                Some(hook) => restored.hook matches Some((word, state)) && word@ == hook@ && state
                    == detected_state(self.state),
                None => restored.hook is None,
            },
            restored.seen == self.seen,
    {
        let state = detect_agent_state(self.state);
        let agent: Option<A> = match &self.agent {
            Some(_) => parsed,
            None => None,
        };
        RestoredAgent {
            detected: match agent {
                Some(agent) => Some((agent, state)),
                None => None,
            },
            hook: match &self.hook {
                Some(hook) => Some((hook.duplicate(), state)),
                None => None,
            },
            seen: self.seen,
        }
    }
}

/// How an agent's session is to be resumed.
#[derive(Debug, Clone, PartialEq, Eq)]
pub struct AgentResumePlan {
    pub agent: String,
    pub argv: Vec<String>,
    pub dedupe_key: String,
}

/// Long-lived pane runtime transferred during server replacement.
///
/// Handoff preserves session state that the server owns: terminals, processes,
/// agent identity and durable metadata. It does not preserve transient
/// coordination such as requests in flight, waits, subscriptions or client
/// sockets; clients reconnect and retry those.
#[derive(Clone)]
pub struct HandoffRuntimeState {
    pub pane_id: u32,
    pub child_pid: u32,
    pub rows: u16,
    pub cols: u16,
    pub cell_width_px: u32,
    pub cell_height_px: u32,
    pub remote_execution_ready: bool,
    pub remote_hostname: Option<String>,
    pub remote_exec_ready_filter: RemoteExecReadyFilter,
    pub pending_agent_resume_plan: Option<AgentResumePlan>,
    pub pending_agent_resume_attempt_pid: Option<u32>,
    pub pending_agent_resume_retired_pids: Vec<u32>,
    pub respawn_shell_on_exit: Option<bool>,
    pub keyboard_protocol_flags: u16,
    pub keyboard_protocol_ansi: Option<String>,
    pub input_state: Option<String>,
    pub terminal_title: Option<String>,
    pub initial_history_ansi: Option<String>,
    pub agent_state: Option<HandoffAgentState>,
}

impl HandoffRuntimeState {
    /// The same runtime under another pane ID.
    pub fn with_pane_id(self, pane_id: u32) -> (state: Self)
        ensures
            state == (HandoffRuntimeState { pane_id, ..self }),
    {
        let mut state = self;
        state.pane_id = pane_id;
        state
    }
}

/// The names of states lose nothing: a state is found again from its name, and
/// a name from its state.
pub proof fn law_state_names_lose_nothing(state: AgentState, named: PaneAgentState)
    ensures
        detected_state(api_state(state)) == state,
        api_state(detected_state(named)) == named,
{
}

/// A state is handed over under its own name: an agent that is idle, works, is blocked or is
/// unknown before is that after.
pub proof fn law_states_keep_their_meaning(state: AgentState)
    ensures
        api_state(state) is Idle <==> state is Idle,
        api_state(state) is Working <==> state is Working,
        api_state(state) is Blocked <==> state is Blocked,
        api_state(state) is Unknown <==> state is Unknown,
        detected_state(api_state(state)) == state,
{
}

/// An agent is taken over exactly where there is a label and the label names one.
pub proof fn law_agent_needs_a_label<A>(label: Option<String>, parsed: Option<A>)
    ensures
        labelled_agent(label, parsed) is Some <==> label is Some && parsed is Some,
        label is Some ==> labelled_agent(label, parsed) == parsed,
{
}

} // verus!
