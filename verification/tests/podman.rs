use pullpiri::podman::{
    get_socket_path, handle_workload, UnimplementedCommand, WorkloadAction, WORKLOAD_RESTART,
    WORKLOAD_START, WORKLOAD_STOP,
};

#[test]
fn test_handle_workload_unimplemented() {
    let result = handle_workload(999, "test-pod");
    assert!(result.is_err());
}

#[test]
fn workload_commands() {
    assert_eq!(handle_workload(WORKLOAD_START, "p"), Ok(WorkloadAction::Start));
    assert_eq!(handle_workload(WORKLOAD_STOP, "p"), Ok(WorkloadAction::Stop));
    assert_eq!(handle_workload(WORKLOAD_RESTART, "p"), Ok(WorkloadAction::Restart));
    assert_eq!(
        handle_workload(-4, "p"),
        Err(UnimplementedCommand { command: -4 })
    );
    assert_eq!(
        UnimplementedCommand { command: 0 }.message(),
        "unimplemented command"
    );
}

#[test]
fn socket_path_choice() {
    assert_eq!(get_socket_path(None), "/var/run/podman/podman.sock");
    assert_eq!(
        get_socket_path(Some("/tmp/p.sock".to_string())),
        "/tmp/p.sock"
    );
}
