//! Per-session decisions: what a browse or register callback asks for,
//! when a polling loop goes on or exits, and the teardown latch that
//! makes stopping a session idempotent.

use crate::library::{error_message, spec_error_message};
use crate::service::ServiceInfo;
use vstd::prelude::*;

verus! {

/// Flag bit set on a browse callback for an instance arriving; clear for
/// one going away.
pub const FLAG_ADD: u32 = 2;

/// What one browse callback asks the session to do.
#[derive(Debug)]
pub enum BrowseAction {
    /// Resolve this instance on a short-lived task of its own, so a slow
    /// resolve stalls neither the browse loop nor sibling discoveries.
    Resolve(ServiceInfo),
    /// Emit this minimal result as a removal, at once, with no
    /// resolution step.
    EmitLost(ServiceInfo),
}

/// Decides one browse callback: an erroneous event is dropped; an "add"
/// starts a decoupled resolution seeded with the instance's identity;
/// anything else reports the minimal removal.
pub fn browse_event_action(
    flags: u32,
    error_code: i32,
    name: String,
    service_type: String,
    domain: String,
) -> (r: Option<BrowseAction>)
    ensures
        r is None <==> error_code != 0,
        (error_code == 0 && flags & FLAG_ADD != 0) ==> (r matches Some(
            BrowseAction::Resolve(info),
        ) && info.name == name && info.service_type == service_type && info.domain == domain
            && info.is_minimal() && info.addrs_unique()),
        (error_code == 0 && flags & FLAG_ADD == 0) ==> (r matches Some(
            BrowseAction::EmitLost(info),
        ) && info.name == name && info.service_type == service_type && info.domain == domain
            && info.is_minimal() && info.addrs_unique()),
{
    if error_code != 0 {
        None
    } else if flags & FLAG_ADD != 0 {
        Some(BrowseAction::Resolve(ServiceInfo::minimal(name, service_type, domain)))
    } else {
        Some(BrowseAction::EmitLost(ServiceInfo::minimal(name, service_type, domain)))
    }
}

/// Decides one register callback: success reports the (possibly renamed)
/// service name under the registered tag; failure reports the diagnostic
/// text under the error tag.
pub fn register_event(error_code: i32, name: String) -> (r: (&'static str, String))
    ensures
        error_code == 0 ==> r.0@ == "registered"@ && r.1 == name,
        error_code != 0 ==> r.0@ == "error"@ && r.1@ == spec_error_message(error_code as int),
{
    if error_code == 0 {
        ("registered", name)
    } else {
        ("error", error_message(error_code))
    }
}

/// The event tag of a found or refined result.
pub fn tag_service_found() -> (r: &'static str)
    ensures
        r@ == "serviceFound"@,
{
    "serviceFound"
}

/// The event tag of a removed instance.
pub fn tag_service_lost() -> (r: &'static str)
    ensures
        r@ == "serviceLost"@,
{
    "serviceLost"
}

/// What one iteration of a polling loop does next.
#[derive(Debug, Clone, Copy, PartialEq, Eq, Structural)]
pub enum PollStep {
    /// Leave the loop: the session is over.
    Exit,
    /// Wait briefly for readiness and pump one unit of work.
    Poll,
}

/// Decides one iteration of a session's polling loop: exit once stop was
/// requested or the session's descriptor is gone, else poll again.
pub fn session_poll_step(stop_requested: bool, fd: i32) -> (r: PollStep)
    ensures
        r == (if stop_requested || fd < 0 {
            PollStep::Exit
        } else {
            PollStep::Poll
        }),
{
    if stop_requested || fd < 0 {
        PollStep::Exit
    } else {
        PollStep::Poll
    }
}

/// Whether a session's loop goes on after pumping one unit of native
/// work: any non-zero code ends that session's loop, and only it.
pub fn pump_continues(error_code: i32) -> (r: bool)
    ensures
        r == (error_code == 0),
{
    error_code == 0
}

/// Decides one iteration of a bounded resolution wait: exit when the
/// window elapsed, the goal was reached, or the descriptor is gone.
pub fn resolve_poll_step(elapsed_ms: u64, timeout_ms: u64, done: bool, fd: i32) -> (r: PollStep)
    ensures
        r == (if elapsed_ms >= timeout_ms || done || fd < 0 {
            PollStep::Exit
        } else {
            PollStep::Poll
        }),
{
    if elapsed_ms >= timeout_ms || done || fd < 0 {
        PollStep::Exit
    } else {
        PollStep::Poll
    }
}

/// Decides one iteration of the compatibility strategy's fixed polling
/// window over both record queries. The window normally runs to its end;
/// a caller may opt in to leaving early once both an IPv4 and an IPv6
/// address have arrived.
pub fn compat_window_step(
    elapsed_ms: u64,
    timeout_ms: u64,
    exit_early: bool,
    have_v4: bool,
    have_v6: bool,
) -> (r: PollStep)
    ensures
        r == (if elapsed_ms >= timeout_ms || (exit_early && have_v4 && have_v6) {
            PollStep::Exit
        } else {
            PollStep::Poll
        }),
{
    if elapsed_ms >= timeout_ms || (exit_early && have_v4 && have_v6) {
        PollStep::Exit
    } else {
        PollStep::Poll
    }
}

/// The bounded wait for one poll iteration: what remains of the window,
/// clamped to at least one and at most a hundred milliseconds, so a stop
/// request is seen promptly.
pub fn poll_chunk_ms(remaining_ms: u64) -> (r: i32)
    ensures
        r == (if remaining_ms < 1 {
            1int
        } else if remaining_ms > 100 {
            100int
        } else {
            remaining_ms as int
        }),
{
    if remaining_ms < 1 {
        1
    } else if remaining_ms > 100 {
        100
    } else {
        remaining_ms as i32
    }
}

/// One session's teardown latch: the first stop request wins, a repeat
/// changes nothing, so stop is safe to call twice or from a drop path.
pub struct StopState {
    stopped: bool,
}

impl StopState {
    /// Whether teardown has begun.
    pub closed spec fn is_stopped(&self) -> bool {
        self.stopped
    }

    /// A running session's latch.
    pub fn new() -> (r: StopState)
        ensures
            !r.is_stopped(),
    {
        StopState { stopped: false }
    }

    /// Whether teardown was requested: what the session's polling loop
    /// checks each iteration.
    pub fn stop_requested(&self) -> (r: bool)
        ensures
            r == self.is_stopped(),
    {
        self.stopped
    }

    /// Requests teardown. True exactly on the first request: only that
    /// caller joins the thread and frees the session's resources.
    pub fn begin_stop(&mut self) -> (first: bool)
        ensures
            final(self).is_stopped(),
            first == !old(self).is_stopped(),
    {
        let first = !self.stopped;
        self.stopped = true;
        first
    }
}

} // verus!
