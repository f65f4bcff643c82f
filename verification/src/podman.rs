//! Decisions of the node agent's Podman runtime: which socket to talk to and
//! what a workload command asks for.

use crate::text::string_of;
use vstd::prelude::*;

verus! {

/// The Podman API socket used when `PODMAN_SOCKET` is not set.
pub open spec fn default_socket_path() -> Seq<char> {
    "/var/run/podman/podman.sock"@
}

/// The Podman API socket: the value of the `PODMAN_SOCKET` environment
/// variable where it is set (to valid Unicode), else the default socket.
pub fn get_socket_path(podman_socket: Option<String>) -> (path: String)
    ensures
        podman_socket matches Some(p) ==> path@ == p@,
        podman_socket is None ==> path@ == default_socket_path(),
{
    match podman_socket {
        Some(p) => p,
        None => string_of("/var/run/podman/podman.sock"),
    }
}

/// The wire value of the `Start` workload command.
pub const WORKLOAD_START: i32 = 1;

/// The wire value of the `Stop` workload command.
pub const WORKLOAD_STOP: i32 = 2;

/// The wire value of the `Restart` workload command.
pub const WORKLOAD_RESTART: i32 = 3;

/// What a workload command asks the runtime to do with a pod.
#[derive(Clone, Copy, Debug, PartialEq, Eq)]
pub enum WorkloadAction {
    /// Start the pod's containers; their ids are returned.
    Start,
    /// Stop the pod's containers.
    Stop,
    /// Restart the pod's containers.
    Restart,
}

/// A workload command the runtime does not implement.
#[derive(Clone, Copy, Debug, PartialEq, Eq)]
pub struct UnimplementedCommand {
    /// The command's wire value.
    pub command: i32,
}

impl UnimplementedCommand {
    /// The error text.
    pub fn message(&self) -> (m: &'static str)
        ensures
            m@ == "unimplemented command"@,
    {
        "unimplemented command"
    }
}

/// Decides what the workload `command` for a pod asks for: start, stop or
/// restart; every other command is refused.
pub fn handle_workload(command: i32, pod: &str) -> (res: Result<WorkloadAction, UnimplementedCommand>)
    ensures
        command == WORKLOAD_START ==> res == Ok::<WorkloadAction, UnimplementedCommand>(
            WorkloadAction::Start,
        ),
        command == WORKLOAD_STOP ==> res == Ok::<WorkloadAction, UnimplementedCommand>(
            WorkloadAction::Stop,
        ),
        command == WORKLOAD_RESTART ==> res == Ok::<WorkloadAction, UnimplementedCommand>(
            WorkloadAction::Restart,
        ),
        command != WORKLOAD_START && command != WORKLOAD_STOP && command != WORKLOAD_RESTART
            ==> res == Err::<WorkloadAction, UnimplementedCommand>(UnimplementedCommand { command }),
{
    if command == WORKLOAD_START {
        Ok(WorkloadAction::Start)
    } else if command == WORKLOAD_STOP {
        Ok(WorkloadAction::Stop)
    } else if command == WORKLOAD_RESTART {
        Ok(WorkloadAction::Restart)
    } else {
        Err(UnimplementedCommand { command })
    }
}

} // verus!
