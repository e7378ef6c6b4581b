use vstd::prelude::*;

verus! {

/// Last-known state of the supervised sidecar process: an optional process
/// handle (modelled as the identifier the surrounding shell obtained when it
/// spawned the process) and a cached `running` flag. The record is a cache of
/// the last observed transition, not a live liveness probe.
#[derive(Clone, Copy, PartialEq, Eq, Structural)]
pub struct SidecarState {
    pub child: Option<u64>,
    pub running: bool,
}

/// Status events the supervisor may hand back to the shell, at most one per
/// successful transition.
#[derive(Clone, Copy, PartialEq, Eq, Structural)]
pub enum SidecarEvent {
    Running,
    Stopped,
}

impl SidecarEvent {
    /// The payload the shell emits on the status channel for this event.
    pub fn label(&self) -> (r: &'static str)
        ensures
            *self is Running ==> r@ == "running"@,
            *self is Stopped ==> r@ == "stopped"@,
    {
        match self {
            SidecarEvent::Running => "running",
            SidecarEvent::Stopped => "stopped",
        }
    }
}

/// The name of the status channel on which events are emitted.
pub fn status_channel() -> (r: &'static str)
    ensures
        r@ == "sidecar-status"@,
{
    "sidecar-status"
}

impl SidecarState {
    /// The record's invariant: the cached flag is set exactly when a process
    /// handle is held.
    pub open spec fn wf(&self) -> bool {
        self.running <==> self.child is Some
    }

    /// The state a supervisor starts in and returns to after a stop.
    pub open spec fn spec_stopped() -> SidecarState {
        SidecarState { child: None, running: false }
    }

    /// The state after a successful spawn that returned handle `h`.
    pub open spec fn spec_running(h: u64) -> SidecarState {
        SidecarState { child: Some(h), running: true }
    }

    /// A start request spawns only when the supervisor is not already running.
    pub open spec fn spec_needs_spawn(&self) -> bool {
        !self.running
    }

    /// The state after a stop whose termination call (if one was needed)
    /// reported `kill_ok`. A failed termination leaves the record unchanged;
    /// otherwise the handle is cleared and the flag lowered.
    pub open spec fn spec_after_stop(&self, kill_ok: bool) -> SidecarState {
        if self.child is Some && !kill_ok {
            *self
        } else {
            SidecarState::spec_stopped()
        }
    }

    pub fn new() -> (r: SidecarState)
        ensures
            r == SidecarState::spec_stopped(),
            r.wf(),
    {
        SidecarState { child: None, running: false }
    }
}

impl Default for SidecarState {
    fn default() -> (r: SidecarState)
        ensures
            r == SidecarState::spec_stopped(),
            r.wf(),
    {
        SidecarState::new()
    }
}

/// Starting is idempotent: a successful start leaves the supervisor running
/// and well formed, and a second start request made in that state asks for no
/// spawn at all, so at most one spawn is attempted and exactly one transition
/// to the running state takes place.
pub proof fn lemma_start_idempotent(h: u64)
    ensures
        SidecarState::spec_running(h).running,
        SidecarState::spec_running(h).wf(),
        !SidecarState::spec_running(h).spec_needs_spawn(),
{
}

/// Stopping an already stopped supervisor succeeds without any termination
/// call and leaves the state stopped, whatever the (unused) kill outcome.
pub proof fn lemma_stop_when_stopped(st: SidecarState, kill_ok: bool)
    requires
        st.wf(),
        !st.running,
    ensures
        st.child is None,
        st.spec_after_stop(kill_ok) == SidecarState::spec_stopped(),
        !st.spec_after_stop(kill_ok).running,
{
}

/// The cached status reflects the last transition: it reads true after a
/// successful start and false after a successful stop, and nothing but the
/// next transition changes it.
pub proof fn lemma_status_reflects_last_transition(st: SidecarState, h: u64)
    ensures
        SidecarState::spec_running(h).running == true,
        st.spec_after_stop(true).running == false,
{
}

} // verus!
