use aether::hypervisor::qemu::QmpCall;
use aether::migration::block::BlockReplicator;
use aether::migration::converge::ConvergenceManager;
use aether::migration::memory::{completion_for_status, poll_completion, MemoryMigrator};
use aether::migration::socket::get_migration_uri;
use aether::migration::{
    migration_state_for_status, migration_state_of_reply, nbd_listen_addr, MigrationParams, MigrationStart,
    MigrationState, RealMigrationManager, StartAction, StartStage,
};

#[test]
fn test_migration_uri_generation() {
    assert_eq!(get_migration_uri("10.0.0.1", 4444, false), "tcp:10.0.0.1:4444");
    assert_eq!(get_migration_uri("10.0.0.1", 4444, true), "tls:10.0.0.1:4444");
}

#[test]
fn test_register_and_unregister_vm() {
    let mut manager = RealMigrationManager::new("127.0.0.1".to_string());
    assert_eq!(manager.get_active_migration_count(), 0);
    manager.register_vm("vm-1", "/tmp/qmp-vm1.sock").unwrap();
    assert_eq!(manager.get_active_migration_count(), 1);
    manager.register_vm("vm-2", "/tmp/qmp-vm2.sock").unwrap();
    assert_eq!(manager.get_active_migration_count(), 2);
    manager.unregister_vm("vm-1").unwrap();
    assert_eq!(manager.get_active_migration_count(), 1);
    manager.unregister_vm("nonexistent").unwrap();
    assert_eq!(manager.get_active_migration_count(), 1);
}

#[test]
fn test_register_vm_twice() {
    let mut manager = RealMigrationManager::new("127.0.0.1".to_string());
    manager.register_vm("vm-x", "/tmp/qmp-x.sock").unwrap();
    manager.register_vm("vm-x", "/tmp/qmp-x2.sock").unwrap();
    assert_eq!(manager.get_active_migration_count(), 1);
    assert_eq!(manager.qmp_socket_for("vm-x").unwrap(), "/tmp/qmp-x2.sock");
}

#[test]
fn test_multiple_vm_registration() {
    let mut manager = RealMigrationManager::new("127.0.0.1".to_string());
    for i in 0..5u32 {
        manager.register_vm(&format!("vm-{}", i), &format!("/tmp/qmp-{}.sock", i)).unwrap();
    }
    assert_eq!(manager.get_active_migration_count(), 5);
    for i in 0..5u32 {
        manager.unregister_vm(&format!("vm-{}", i)).unwrap();
    }
    assert_eq!(manager.get_active_migration_count(), 0);
}

#[test]
fn test_get_active_migration_count_empty() {
    let manager = RealMigrationManager::new("127.0.0.1".to_string());
    assert_eq!(manager.get_active_migration_count(), 0);
    assert!(manager.get_active_migrations().is_empty());
}

#[test]
fn test_unregister_nonexistent_vm_is_noop() {
    let mut manager = RealMigrationManager::new("127.0.0.1".to_string());
    assert!(manager.unregister_vm("ghost").is_ok());
}

#[test]
fn test_start_migration_vm_not_found() {
    let manager = RealMigrationManager::new("127.0.0.1".to_string());
    let err = manager.qmp_socket_for("missing").unwrap_err();
    assert!(err.contains("not found"));
    assert_eq!(err, "VM missing not found");
}

#[test]
fn test_prepare_incoming_vm_not_found() {
    let manager = RealMigrationManager::new("127.0.0.1".to_string());
    assert!(manager.prepare_incoming_socket("missing", false).unwrap_err().contains("not found"));
}

#[test]
fn prepare_incoming_tls_needs_material() {
    let mut manager = RealMigrationManager::new("127.0.0.1".to_string());
    manager.register_vm("vm", "/tmp/q.sock").unwrap();
    assert_eq!(manager.prepare_incoming_socket("vm", false).unwrap(), ("/tmp/q.sock".to_string(), false));
    // Without any certificate path the listener is plain TCP, also when TLS is asked for.
    assert_eq!(manager.prepare_incoming_socket("vm", true).unwrap(), ("/tmp/q.sock".to_string(), false));
    let mut partial = RealMigrationManager::new_full(
        "0.0.0.0".to_string(),
        b"s".to_vec(),
        "/ca.pem".to_string(),
        String::new(),
        "/key.pem".to_string(),
    );
    partial.register_vm("vm", "/tmp/q.sock").unwrap();
    assert_eq!(
        partial.prepare_incoming_socket("vm", true).unwrap_err(),
        "TLS requested but CA cert, server cert, and server key paths are empty"
    );
    let mut full = RealMigrationManager::new_full(
        "0.0.0.0".to_string(),
        b"s".to_vec(),
        "/ca.pem".to_string(),
        "/cert.pem".to_string(),
        "/key.pem".to_string(),
    );
    full.register_vm("vm", "/tmp/q.sock").unwrap();
    assert_eq!(full.prepare_incoming_socket("vm", true).unwrap(), ("/tmp/q.sock".to_string(), true));
    assert_eq!(full.prepare_incoming_socket("vm", false).unwrap(), ("/tmp/q.sock".to_string(), false));
    assert_eq!(nbd_listen_addr(4444), "127.0.0.1:4444");
    assert_eq!(full.socket_manager().ca_cert_path, "/ca.pem");
}

#[test]
fn test_prepare_incoming_with_tls() {
    let mut manager = RealMigrationManager::new("127.0.0.1".to_string());
    manager.register_vm("vm-tls-in", "/tmp/qmp-tls.sock").unwrap();
    assert!(manager.prepare_incoming_socket("vm-tls-in", true).is_ok());
}

#[test]
fn abort_stops_tracking() {
    let mut manager = RealMigrationManager::new("127.0.0.1".to_string());
    manager.register_vm("vm-abort", "/tmp/q.sock").unwrap();
    manager.record_abort("vm-abort");
    assert_eq!(manager.get_active_migration_count(), 0);
    assert!(manager.qmp_socket_for("vm-abort").is_ok());
}

#[test]
fn default_secret_is_known() {
    let manager = RealMigrationManager::new("127.0.0.1".to_string());
    assert_eq!(manager.attestation_secret, b"aether-migration-secret".to_vec());
}

#[test]
fn test_query_migration_status_completed() {
    assert_eq!(
        migration_state_of_reply("{\"return\": {\"status\": \"completed\"}}").unwrap(),
        MigrationState::Completed
    );
}

#[test]
fn test_query_migration_status_active() {
    assert_eq!(migration_state_of_reply("{\"return\": {\"status\": \"active\"}}").unwrap(), MigrationState::Active);
}

#[test]
fn test_query_migration_status_failed() {
    let reply = "{\"return\": {\"status\": \"failed\"}}";
    match migration_state_of_reply(reply).unwrap() {
        MigrationState::Failed(ref err) => {
            assert!(err.contains("failed"));
            assert_eq!(err, reply);
        }
        other => panic!("Expected Failed, got {:?}", other),
    }
}

#[test]
fn test_query_migration_status_idle() {
    assert_eq!(migration_state_of_reply("{\"return\": {}}").unwrap(), MigrationState::Idle);
    assert_eq!(migration_state_of_reply("{\"return\": {\"status\": \"setup\"}}").unwrap(), MigrationState::Idle);
    assert_eq!(migration_state_for_status("x", None), MigrationState::Idle);
}

#[test]
fn unreadable_migration_reply_is_an_error() {
    assert_eq!(
        migration_state_of_reply("not json").unwrap_err(),
        "Failed to parse QMP migration response: not json"
    );
}

#[test]
fn completion_polling_outcomes() {
    assert_eq!(poll_completion("{\"return\": {\"status\": \"completed\"}}"), Some(Ok(())));
    assert_eq!(
        poll_completion("{\"return\": {\"status\": \"failed\"}}"),
        Some(Err("Migration failed in QEMU: {\"return\": {\"status\": \"failed\"}}".to_string()))
    );
    assert_eq!(poll_completion("{\"return\": {\"status\": \"cancelled\"}}"), Some(Err("Migration was cancelled".to_string())));
    assert_eq!(poll_completion("{\"return\": {\"status\": \"active\"}}"), None);
    assert_eq!(poll_completion("garbage"), Some(Err("Failed to parse migration status: garbage".to_string())));
    assert_eq!(
        completion_for_status("r", Some("postcopy-failed")),
        Some(Err("Migration failed in post-copy phase: r".to_string()))
    );
}

fn params(max_bandwidth: u64, use_tls: bool) -> MigrationParams {
    MigrationParams {
        destination_node: "dst".to_string(),
        destination_ip: "10.0.0.2".to_string(),
        port: 4444,
        use_tls,
        max_bandwidth,
    }
}

fn call_of(a: StartAction) -> String {
    match a {
        StartAction::Call(c) => c.command(),
        StartAction::Finish(r) => panic!("finished early: {:?}", r),
    }
}

#[test]
fn test_start_migration_success() {
    let (mut st, a) = MigrationStart::begin(&params(0, false));
    assert!(call_of(a).contains("\"auto-converge\", \"state\": true"));
    let a = st.step(Ok(()));
    assert!(call_of(a).contains("\"target\": \"nbd:10.0.0.2:4444\""));
    let a = st.step(Ok(()));
    assert!(call_of(a).contains("\"uri\": \"tcp:10.0.0.2:4444\""));
    match st.step(Ok(())) {
        StartAction::Finish(Ok(())) => {}
        other => panic!("unexpected {:?}", other),
    }
    assert_eq!(st.stage, StartStage::Finished);
}

#[test]
fn test_start_migration_tls_uri() {
    let (mut st, _) = MigrationStart::begin(&params(0, true));
    st.step(Ok(()));
    let a = st.step(Ok(()));
    assert!(call_of(a).contains("\"uri\": \"tls:10.0.0.2:4444\""));
}

#[test]
fn test_start_migration_with_bandwidth() {
    let (mut st, a) = MigrationStart::begin(&params(100_000_000, false));
    assert!(call_of(a).contains("\"max-bandwidth\": 100000000"));
    let a = st.step(Ok(()));
    assert!(call_of(a).contains("auto-converge"));
}

#[test]
fn start_bandwidth_failure_stops_at_once() {
    let (mut st, _) = MigrationStart::begin(&params(5, false));
    match st.step(Err("boom".to_string())) {
        StartAction::Finish(Err(e)) => assert_eq!(e, "Failed to set migration bandwidth: boom"),
        other => panic!("unexpected {:?}", other),
    }
}

#[test]
fn start_mirror_failure_disables_auto_converge() {
    let (mut st, _) = MigrationStart::begin(&params(0, false));
    st.step(Ok(()));
    let a = st.step(Err("mirror down".to_string()));
    assert!(call_of(a).contains("\"auto-converge\", \"state\": false"));
    match st.step(Err("ignored".to_string())) {
        StartAction::Finish(Err(e)) => assert_eq!(e, "Block replication failed: mirror down"),
        other => panic!("unexpected {:?}", other),
    }
}

#[test]
fn start_memory_failure_rolls_back_both() {
    let (mut st, _) = MigrationStart::begin(&params(0, false));
    st.step(Ok(()));
    st.step(Ok(()));
    let a = st.step(Err("no route".to_string()));
    assert!(call_of(a).contains("\"state\": false"));
    let a = st.step(Ok(()));
    assert_eq!(call_of(a), "{\"execute\": \"block-job-complete\", \"arguments\": {\"device\": \"drive-root\" } }\n");
    match st.step(Ok(())) {
        StartAction::Finish(Err(e)) => assert_eq!(e, "Memory migration failed: no route"),
        other => panic!("unexpected {:?}", other),
    }
}

#[test]
fn migration_helpers_issue_commands() {
    let c = ConvergenceManager::new("/q.sock".to_string());
    assert_eq!(c.client().socket_path, "/q.sock");
    assert!(c.disable_auto_converge().command().contains("false"));
    let b = BlockReplicator::new("/q.sock".to_string());
    let cs = b.prepare_destination("drive-root", "127.0.0.1:4444");
    assert_eq!(cs.len(), 2);
    assert!(matches!(&cs[0], QmpCall::NbdServerStart(a) if a == "127.0.0.1:4444"));
    assert!(matches!(&cs[1], QmpCall::NbdServerAdd(d) if d == "drive-root"));
    let m = MemoryMigrator::new("/q.sock".to_string());
    assert_eq!(
        m.start_migration("tcp:1.2.3.4:1").command(),
        "{\"execute\": \"migrate\", \"arguments\": {\"uri\": \"tcp:1.2.3.4:1\"}} \n"
    );
}

#[test]
fn test_abort_migration_vm_not_found() {
    let manager = RealMigrationManager::new("127.0.0.1".to_string());
    assert!(manager.qmp_socket_for("nonexistent").is_err());
}

#[test]
fn test_query_migration_status_vm_not_found() {
    let manager = RealMigrationManager::new("127.0.0.1".to_string());
    assert!(manager.qmp_socket_for("nonexistent").unwrap_err().contains("not found"));
}

#[test]
fn registration_keeps_tls_material() {
    let mut m = RealMigrationManager::new_full(
        "0.0.0.0".to_string(),
        b"s".to_vec(),
        "/ca.pem".to_string(),
        "/cert.pem".to_string(),
        "/key.pem".to_string(),
    );
    m.register_vm("vm", "/q.sock").unwrap();
    m.unregister_vm("other").unwrap();
    assert_eq!(m.server_key_path, "/key.pem");
    assert_eq!(m.prepare_incoming_socket("vm", true).unwrap(), ("/q.sock".to_string(), true));
}
