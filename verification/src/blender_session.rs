use vstd::prelude::*;
use vstd::string::StringExecFns;
use crate::blender_paths::{BlenderSessionOwnership, BlenderSessionState, BlenderSessionStatus};
use crate::error::{invalid, invalid_with, McpError};
use crate::text::str_eq;

verus! {

broadcast use vstd::string::group_string_axioms;

pub const BLENDER_LAB_PROTOCOL: &'static str = "blender_lab_json_nul_v1";

/// Who a relay-owned Blender process was started for.
#[derive(Debug)]
pub struct OwnedIdentity {
    pub owner: String,
    pub project_id: String,
    pub project_root: String,
}

/// What probing the Blender bridge gave: a ready bridge, no bridge, or an incompatible one.
#[derive(Clone, Copy, Debug, PartialEq, Eq, Structural)]
pub enum ProbeOutcome {
    Ready,
    Unavailable,
    Incompatible,
}

pub open spec fn same_identity(o: OwnedIdentity, owner: Seq<char>, project_id: Seq<char>, root: Seq<char>) -> bool {
    o.owner@ == owner && o.project_id@ == project_id && o.project_root@ == root
}

/// Whether the owned session belongs to this owner, project and project root.
pub fn matches_identity(owned: &OwnedIdentity, owner: &str, project_id: &str, project_root: &str) -> (r: bool)
    ensures
        r == same_identity(*owned, owner@, project_id@, project_root@),
{
    str_eq(owned.owner.as_str(), owner) && str_eq(owned.project_id.as_str(), project_id) && str_eq(owned.project_root.as_str(), project_root)
}

pub open spec fn ownership_of(owned: Option<OwnedIdentity>, owner: Seq<char>, project_id: Seq<char>, root: Seq<char>) -> BlenderSessionOwnership {
    match owned {
        Some(o) => if same_identity(o, owner, project_id, root) { BlenderSessionOwnership::RelayOwned } else { BlenderSessionOwnership::External },
        None => BlenderSessionOwnership::External,
    }
}

/// The caller's relation to the running session: relay-owned for the caller, else external.
pub fn ownership_for(owned: &Option<OwnedIdentity>, owner: &str, project_id: &str, project_root: &str) -> (r: BlenderSessionOwnership)
    ensures
        r == ownership_of(*owned, owner@, project_id@, project_root@),
{
    match owned {
        Some(o) => if matches_identity(o, owner, project_id, project_root) { BlenderSessionOwnership::RelayOwned } else { BlenderSessionOwnership::External },
        None => BlenderSessionOwnership::External,
    }
}

/// Refuses Blender work when the operator disabled the creative capability.
pub fn ensure_enabled(enabled: bool) -> (r: Result<(), McpError>)
    ensures
        r is Ok <==> enabled,
        r matches Err(e) ==> invalid_with(e, "Creative capability is disabled by operator configuration"@),
{
    if !enabled {
        return Err(invalid("Creative capability is disabled by operator configuration"));
    }
    Ok(())
}

/// The probe errors that mean that no bridge is listening.
pub open spec fn unavailable_error(e: McpError) -> bool {
    e matches McpError::InvalidRequest(m) && (m@ == "Blender bridge is unavailable"@ || m@ == "Blender bridge connection timed out"@)
}

pub fn is_unavailable(error: &McpError) -> (r: bool)
    ensures
        r == unavailable_error(*error),
{
    match error {
        McpError::InvalidRequest(m) => str_eq(m.as_str(), "Blender bridge is unavailable") || str_eq(m.as_str(), "Blender bridge connection timed out"),
        McpError::Internal(_) => false,
    }
}

pub open spec fn opt_text(s: Option<&str>) -> Option<Seq<char>> {
    match s { Some(v) => Some(v@), None => None }
}

pub open spec fn opt_string_view(s: Option<String>) -> Option<Seq<char>> {
    match s { Some(v) => Some(v@), None => None }
}

/// A session report.
pub fn session_status(state: BlenderSessionState, ownership: Option<BlenderSessionOwnership>, port: u16, project_root: Option<&str>) -> (s: BlenderSessionStatus)
    ensures
        s.state == state,
        s.ownership == ownership,
        s.protocol@ == BLENDER_LAB_PROTOCOL@,
        s.loopback_port == port,
        opt_string_view(s.project_root) == opt_text(project_root),
{
    BlenderSessionStatus {
        state,
        ownership,
        protocol: String::from_str(BLENDER_LAB_PROTOCOL),
        loopback_port: port,
        project_root: match project_root { Some(r) => Some(r.to_owned()), None => None },
    }
}

/// The bridge timeout to use with `remaining_ms` left before a deadline: none once the
/// deadline passed, else the configured timeout capped by what remains (at least 1 ms).
pub fn config_for_deadline(timeout_ms: u64, remaining_ms: u64) -> (r: Option<u64>)
    ensures
        remaining_ms == 0 ==> r is None,
        remaining_ms > 0 ==> r == Some(if timeout_ms < remaining_ms { timeout_ms } else { remaining_ms }),
{
    if remaining_ms == 0 {
        return None;
    }
    let cap = if remaining_ms < 1 { 1 } else { remaining_ms };
    Some(if timeout_ms < cap { timeout_ms } else { cap })
}

/// The session state that a probe reports.
pub open spec fn probed_state(p: ProbeOutcome) -> BlenderSessionState {
    match p {
        ProbeOutcome::Ready => BlenderSessionState::Ready,
        ProbeOutcome::Unavailable => BlenderSessionState::Closed,
        ProbeOutcome::Incompatible => BlenderSessionState::Incompatible,
    }
}

/// The ownership that `status` reports for a probe.
pub open spec fn probed_ownership(p: ProbeOutcome, owned: Option<OwnedIdentity>, owner: Seq<char>, project_id: Seq<char>, root: Seq<char>) -> Option<BlenderSessionOwnership> {
    match p {
        ProbeOutcome::Ready => Some(ownership_of(owned, owner, project_id, root)),
        ProbeOutcome::Unavailable => None,
        ProbeOutcome::Incompatible => if owned is Some { Some(ownership_of(owned, owner, project_id, root)) } else { None },
    }
}

/// The session report for a probe outcome.
pub fn status_from_probe(probe: ProbeOutcome, owned: &Option<OwnedIdentity>, owner: &str, project_id: &str, project_root: &str, port: u16) -> (s: BlenderSessionStatus)
    ensures
        s.state == probed_state(probe),
        s.ownership == probed_ownership(probe, *owned, owner@, project_id@, project_root@),
        s.protocol@ == BLENDER_LAB_PROTOCOL@,
        s.loopback_port == port,
        opt_string_view(s.project_root) == Some(project_root@),
{
    match probe {
        ProbeOutcome::Ready => session_status(BlenderSessionState::Ready, Some(ownership_for(owned, owner, project_id, project_root)), port, Some(project_root)),
        ProbeOutcome::Unavailable => session_status(BlenderSessionState::Closed, None, port, Some(project_root)),
        ProbeOutcome::Incompatible => {
            let ownership = match owned {
                Some(_) => Some(ownership_for(owned, owner, project_id, project_root)),
                None => None,
            };
            session_status(BlenderSessionState::Incompatible, ownership, port, Some(project_root))
        },
    }
}

/// What `start` does after its first probe.
#[derive(Debug)]
pub enum StartStep {
    /// Report this status without launching anything.
    Report(BlenderSessionStatus),
    /// Launch a relay-owned Blender process for the caller.
    Launch,
}

/// Decides `start` after the first probe: a responding bridge is reported; with no bridge,
/// an owned process that is not answering is an error, and otherwise a process is launched.
pub fn start_after_probe(probe: ProbeOutcome, owned: &Option<OwnedIdentity>, owner: &str, project_id: &str, project_root: &str, port: u16) -> (r: Result<StartStep, McpError>)
    ensures
        probe != ProbeOutcome::Unavailable ==> (r matches Ok(StartStep::Report(s)) && s.state == probed_state(probe)
            && s.ownership == probed_ownership(probe, *owned, owner@, project_id@, project_root@)),
        probe == ProbeOutcome::Unavailable ==> (owned is Some <==> r is Err),
        probe == ProbeOutcome::Unavailable && owned is None ==> r matches Ok(StartStep::Launch),
        r matches Err(e) ==> invalid_with(e, match *owned {
            Some(o) => if same_identity(o, owner@, project_id@, project_root@) {
                "relay-owned Blender process exists but its bridge is unavailable"@
            } else {
                "relay-owned Blender session belongs to a different owner or project"@
            },
            None => Seq::<char>::empty(),
        }),
{
    match probe {
        ProbeOutcome::Unavailable => {},
        _ => {
            return Ok(StartStep::Report(status_from_probe(probe, owned, owner, project_id, project_root, port)));
        },
    }
    match owned {
        Some(o) => {
            if !matches_identity(o, owner, project_id, project_root) {
                return Err(invalid("relay-owned Blender session belongs to a different owner or project"));
            }
            Err(invalid("relay-owned Blender process exists but its bridge is unavailable"))
        },
        None => Ok(StartStep::Launch),
    }
}

/// What one turn of waiting for a launched process decides.
#[derive(Clone, Copy, Debug, PartialEq, Eq, Structural)]
pub enum LaunchPoll {
    /// The bridge answered: the session is ready and relay-owned.
    Ready,
    /// The deadline passed: stop the process and fail.
    TimedOut,
    /// The process exited before its bridge answered: forget it and fail.
    Exited,
    /// Poll again after a pause.
    Wait,
}

/// One turn of the wait after launching: the deadline first, then the probe, then
/// whether the process is gone.
pub fn launch_poll(deadline_passed: bool, probe_ready: bool, process_exited: bool) -> (r: LaunchPoll)
    ensures
        deadline_passed ==> r == LaunchPoll::TimedOut,
        !deadline_passed && probe_ready ==> r == LaunchPoll::Ready,
        !deadline_passed && !probe_ready && process_exited ==> r == LaunchPoll::Exited,
        !deadline_passed && !probe_ready && !process_exited ==> r == LaunchPoll::Wait,
{
    if deadline_passed {
        LaunchPoll::TimedOut
    } else if probe_ready {
        LaunchPoll::Ready
    } else if process_exited {
        LaunchPoll::Exited
    } else {
        LaunchPoll::Wait
    }
}

/// What `stop` does.
#[derive(Debug)]
pub enum StopStep {
    /// Report the session closed.
    Closed(BlenderSessionStatus),
    /// Terminate the owned process, then report the session closed.
    Terminate(BlenderSessionStatus),
}

/// Decides `stop`: without an owned process, a responding bridge belongs to someone else
/// and is left alone; an owned process is stopped only for the owner that started it.
pub fn stop_decision(owned: &Option<OwnedIdentity>, bridge_responds: bool, owner: &str, project_id: &str, project_root: &str, port: u16) -> (r: Result<StopStep, McpError>)
    ensures
        owned is None ==> (r is Err <==> bridge_responds),
        (*owned) matches Some(o) ==> (r is Err <==> !same_identity(o, owner@, project_id@, project_root@)),
        r matches Ok(StopStep::Terminate(s)) ==> owned is Some && s.state == BlenderSessionState::Closed && s.ownership is None,
        r matches Ok(StopStep::Closed(s)) ==> owned is None && s.state == BlenderSessionState::Closed && s.ownership is None,
        r matches Err(e) ==> invalid_with(e, if owned is None {
            "refusing to stop externally owned Blender session"@
        } else {
            "refusing to stop Blender session owned by a different owner or project"@
        }),
{
    match owned {
        None => {
            if bridge_responds {
                return Err(invalid("refusing to stop externally owned Blender session"));
            }
            Ok(StopStep::Closed(session_status(BlenderSessionState::Closed, None, port, Some(project_root))))
        },
        Some(o) => {
            if !matches_identity(o, owner, project_id, project_root) {
                return Err(invalid("refusing to stop Blender session owned by a different owner or project"));
            }
            Ok(StopStep::Terminate(session_status(BlenderSessionState::Closed, None, port, Some(project_root))))
        },
    }
}

} // verus!
