use aether::csi::{CapacityRange, CsiError, CsiState};
use aether::iscsi::{check_login_status, counter_to_sdname, parse_discovery_output, MockIscsiState};
use aether::zfs::{arc_conf_line, total_memory_from_meminfo, MockZvolState, RealZvolManager};
use aether::iscsi::{ block_device_path, discovery_args, is_target_dir_name, login_timeout_error, no_block_device_error, node_args, session_matches, };

#[test]
fn sd_names_skip_sda() {
    assert_eq!(counter_to_sdname(0), "b");
    assert_eq!(counter_to_sdname(1), "c");
    assert_eq!(counter_to_sdname(24), "z");
    assert_eq!(counter_to_sdname(25), "aa");
    assert_eq!(counter_to_sdname(26), "ab");
    assert_eq!(counter_to_sdname(700), "zz");
    assert_eq!(counter_to_sdname(701), "aaa");
}

#[test]
fn test_mock_discover_returns_configured_targets() {
    let mut mgr = MockIscsiState::new();
    mgr.add_portal_targets(
        "10.0.0.1",
        vec!["iqn.2024-01.com.example:vol1".to_string(), "iqn.2024-01.com.example:vol2".to_string()],
    );
    let targets = mgr.discover_targets("10.0.0.1");
    assert_eq!(targets.len(), 2);
    assert!(targets.contains(&"iqn.2024-01.com.example:vol1".to_string()));
}

#[test]
fn test_mock_discover_unknown_portal_returns_empty() {
    let mgr = MockIscsiState::new();
    assert!(mgr.discover_targets("192.168.99.99").is_empty());
}

#[test]
fn test_mock_login_returns_device_path() {
    let mut mgr = MockIscsiState::new();
    let path = mgr.login_target("iqn.2024-01.com.example:vol1");
    assert!(path.starts_with("/dev/sd"), "Expected /dev/sdX, got: {}", path);
    assert_eq!(path, "/dev/sdb");
}

#[test]
fn test_mock_login_is_idempotent() {
    let mut mgr = MockIscsiState::new();
    let iqn = "iqn.2024-01.com.example:vol1";
    let path1 = mgr.login_target(iqn);
    let path2 = mgr.login_target(iqn);
    assert_eq!(path1, path2);
}

#[test]
fn test_mock_login_assigns_unique_devices_for_distinct_iqns() {
    let mut mgr = MockIscsiState::new();
    let path1 = mgr.login_target("iqn.2024-01.com.example:vol1");
    let path2 = mgr.login_target("iqn.2024-01.com.example:vol2");
    assert_ne!(path1, path2);
    assert_eq!(path2, "/dev/sdc");
}

#[test]
fn test_mock_logout_removes_session() {
    let mut mgr = MockIscsiState::new();
    let iqn = "iqn.2024-01.com.example:vol1";
    let path_before = mgr.login_target(iqn);
    mgr.logout_target(iqn);
    let path_after = mgr.login_target(iqn);
    assert!(path_after.starts_with("/dev/sd"));
    assert_ne!(path_before, path_after);
}

#[test]
fn discovery_output_and_login_status() {
    let out = "10.0.0.1:3260,1 iqn.2024-01.com.example:vol1\n10.0.0.1:3260,1 iqn.2024-01.com.example:vol2\n\n";
    assert_eq!(
        parse_discovery_output(out),
        vec!["iqn.2024-01.com.example:vol1".to_string(), "iqn.2024-01.com.example:vol2".to_string()]
    );
    assert!(check_login_status(true, Some(0)).is_ok());
    assert!(check_login_status(false, Some(15)).is_ok());
    assert_eq!(check_login_status(false, Some(8)).unwrap_err(), "iscsiadm login failed with exit code 8");
    assert_eq!(check_login_status(false, None).unwrap_err(), "iscsiadm login failed with exit code -1");
}

#[test]
fn zvol_paths_on_pool() {
    let z = RealZvolManager::new("tank".to_string());
    assert_eq!(z.dataset_path("vol1"), "tank/vol1");
    assert_eq!(z.device_path("vol1"), "/dev/zvol/tank/vol1");
    assert_eq!(z.snapshot_path("vol1", "s1"), "tank/vol1@s1");
    assert_eq!(z.resize_args("vol1", 2048), vec!["set", "volsize=2048", "tank/vol1"]);
    assert_eq!(arc_conf_line(123), "options zfs zfs_arc_max=123\n");
    assert_eq!(
        total_memory_from_meminfo("MemFree: 1 kB\nMemTotal:  16 kB\nMemTotal: 99 kB\n"),
        Some(16 * 1024)
    );
    assert_eq!(total_memory_from_meminfo("MemFree: 1 kB\n"), None);
}

#[test]
fn test_mock_zvol_lifecycle() {
    let mut s = MockZvolState::new();
    s.create_zvol("vol1", 1 << 30);
    assert!(s.create_snapshot("vol1", "snap1").is_ok());
    assert_eq!(s.create_snapshot("ghost", "snap1").unwrap_err(), "ZVOL not found: ghost");
    assert_eq!(s.clone_source_size("vol1@snap1").unwrap(), 1 << 30);
    assert_eq!(s.clone_source_size("vol1@nope").unwrap_err(), "Snapshot not found: vol1@nope");
    s.create_zvol("clone1", 1 << 30);
    assert!(s.rollback_zvol("vol1", "snap1").is_ok());
    assert!(s.check_resize("vol1").is_ok());
    s.create_zvol("vol1", 2 << 30);
    s.destroy_zvol("vol1");
    assert_eq!(s.rollback_zvol("vol1", "snap1").unwrap_err(), "Snapshot not found: vol1@snap1");
    assert_eq!(s.check_resize("vol1").unwrap_err(), "ZVOL not found: vol1");
    assert!(s.check_resize("clone1").is_ok());
}

#[test]
fn destroy_keeps_other_zvols_snapshots() {
    let mut s = MockZvolState::new();
    s.create_zvol("a", 1);
    s.create_zvol("ab", 1);
    s.create_snapshot("a", "x").unwrap();
    s.create_snapshot("ab", "x").unwrap();
    s.destroy_zvol("a");
    assert!(s.rollback_zvol("ab", "x").is_ok());
    assert!(s.rollback_zvol("a", "x").is_err());
    // The origin is gone: a snapshot of it can no longer be cloned.
    s.create_zvol("c", 5);
    s.create_snapshot("c", "y").unwrap();
    s.zvols.remove("c");
    assert_eq!(s.clone_source_size("c@y").unwrap_err(), "Origin ZVOL not found: c");
}

fn invalid(r: Result<(), CsiError>) -> String {
    match r {
        Err(CsiError::InvalidArgument(m)) => m,
        other => panic!("unexpected {:?}", other),
    }
}

#[test]
fn test_create_volume_empty_name() {
    let mut d = CsiState::new("test-node".to_string());
    match d.create_volume("", None) {
        Err(CsiError::InvalidArgument(m)) => assert_eq!(m, "Volume name is required"),
        other => panic!("unexpected {:?}", other),
    }
    assert!(d.list_volumes().is_empty());
    assert_eq!(d.name_to_id.len(), 0);
}

#[test]
fn test_create_volume_default_capacity() {
    let mut d = CsiState::new("test-node".to_string());
    let vol = d.create_volume("default-cap-vol", None).unwrap();
    assert_eq!(vol.capacity_bytes, 10 * 1024 * 1024 * 1024);
    assert!(vol.volume_id.starts_with("vol-"));
    assert_eq!(vol.volume_id.len(), 40);
}

#[test]
fn test_create_volume_limit_bytes_fallback() {
    let mut d = CsiState::new("test-node".to_string());
    let vol = d
        .create_volume(
            "limit-fallback-vol",
            Some(CapacityRange { required_bytes: 0, limit_bytes: 2 * 1024 * 1024 * 1024 }),
        )
        .unwrap();
    assert_eq!(vol.capacity_bytes, 2 * 1024 * 1024 * 1024);
}

#[test]
fn test_create_volume_same_name_compatible_size() {
    let mut d = CsiState::new("test-node".to_string());
    let range = Some(CapacityRange { required_bytes: 1024 * 1024 * 1024, limit_bytes: 0 });
    let first = d.create_volume("idem-vol", range).unwrap();
    let second = d.create_volume("idem-vol", range).unwrap();
    assert_eq!(first.volume_id, second.volume_id);
    let bigger = Some(CapacityRange { required_bytes: 2 * 1024 * 1024 * 1024, limit_bytes: 0 });
    match d.create_volume("idem-vol", bigger) {
        Err(CsiError::AlreadyExists(m)) => {
            assert_eq!(m, "Volume idem-vol exists but with smaller size 1073741824 than requested 2147483648")
        }
        other => panic!("unexpected {:?}", other),
    }
}

#[test]
fn test_delete_volume_empty_id() {
    let mut d = CsiState::new("test-node".to_string());
    assert_eq!(invalid(d.delete_volume("")), "Volume ID is required");
}

#[test]
fn test_delete_volume_nonexistent() {
    let mut d = CsiState::new("test-node".to_string());
    assert!(d.delete_volume("vol-does-not-exist").is_ok());
}

#[test]
fn delete_frees_the_name() {
    let mut d = CsiState::new("test-node".to_string());
    let a = d.create_volume_with_id("n", None, "vol-a".to_string()).unwrap();
    d.delete_volume(&a.volume_id).unwrap();
    let b = d.create_volume_with_id("n", None, "vol-b".to_string()).unwrap();
    assert_eq!(b.volume_id, "vol-b");
}

#[test]
fn test_controller_publish_empty_volume_id() {
    let mut d = CsiState::new("test-node".to_string());
    match d.controller_publish_volume("", "node-1") {
        Err(CsiError::InvalidArgument(m)) => assert_eq!(m, "Volume ID is required"),
        other => panic!("unexpected {:?}", other),
    }
}

#[test]
fn test_controller_publish_empty_node_id() {
    let mut d = CsiState::new("test-node".to_string());
    match d.controller_publish_volume("vol-123", "") {
        Err(CsiError::InvalidArgument(m)) => assert_eq!(m, "Node ID is required"),
        other => panic!("unexpected {:?}", other),
    }
}

#[test]
fn test_controller_publish_not_found() {
    let mut d = CsiState::new("test-node".to_string());
    match d.controller_publish_volume("nonexistent-vol", "node-1") {
        Err(CsiError::NotFound(m)) => assert_eq!(m, "Volume nonexistent-vol not found"),
        other => panic!("unexpected {:?}", other),
    }
}

#[test]
fn test_controller_publish_returns_device_path() {
    let mut d = CsiState::new("test-node".to_string());
    let vol = d.create_volume_with_id("pub-vol", None, "vol-1".to_string()).unwrap();
    assert_eq!(d.controller_publish_volume(&vol.volume_id, "test-node").unwrap(), "/dev/zvol/tank/vol-1");
    assert!(d.controller_unpublish_volume(&vol.volume_id, "test-node").is_ok());
}

#[test]
fn test_controller_unpublish_empty_volume_id() {
    let mut d = CsiState::new("test-node".to_string());
    assert_eq!(invalid(d.controller_unpublish_volume("", "n")), "Volume ID is required");
}

#[test]
fn test_validate_empty_volume_id() {
    let d = CsiState::new("test-node".to_string());
    assert_eq!(invalid(d.validate_volume_capabilities("")), "Volume ID is required");
}

#[test]
fn test_validate_not_found() {
    let d = CsiState::new("test-node".to_string());
    assert!(matches!(d.validate_volume_capabilities("nonexistent"), Err(CsiError::NotFound(_))));
}

#[test]
fn test_validate_volume_capabilities_valid() {
    let mut d = CsiState::new("test-node".to_string());
    let vol = d.create_volume("v", None).unwrap();
    assert!(d.validate_volume_capabilities(&vol.volume_id).is_ok());
}

#[test]
fn test_list_volumes_empty() {
    let d = CsiState::new("test-node".to_string());
    assert!(d.list_volumes().is_empty());
}

#[test]
fn test_list_volumes_shows_created() {
    let mut d = CsiState::new("test-node".to_string());
    let vol = d.create_volume("listed", Some(CapacityRange { required_bytes: 5, limit_bytes: 0 })).unwrap();
    let list = d.list_volumes();
    assert_eq!(list.len(), 1);
    assert_eq!(list[0].volume_id, vol.volume_id);
    assert_eq!(list[0].capacity_bytes, 5);
}

#[test]
fn test_node_stage_empty_volume_id() {
    let mut d = CsiState::new("test-node".to_string());
    assert_eq!(invalid(d.node_stage_volume("", "/tmp/stage")), "Volume ID is required");
}

#[test]
fn test_node_stage_empty_staging_path() {
    let mut d = CsiState::new("test-node".to_string());
    assert_eq!(invalid(d.node_stage_volume("vol-1", "")), "Staging target path is required");
}

#[test]
fn test_node_stage_not_found() {
    let mut d = CsiState::new("test-node".to_string());
    assert!(matches!(d.node_stage_volume("nonexistent", "/tmp/x"), Err(CsiError::NotFound(_))));
}

#[test]
fn test_node_unstage_empty_volume_id() {
    let mut d = CsiState::new("test-node".to_string());
    assert_eq!(invalid(d.node_unstage_volume("", "/tmp/stage")), "Volume ID is required");
}

#[test]
fn test_node_unstage_empty_path() {
    let mut d = CsiState::new("test-node".to_string());
    assert_eq!(invalid(d.node_unstage_volume("vol-1", "")), "Staging target path is required");
}

#[test]
fn test_node_publish_empty_volume_id() {
    let mut d = CsiState::new("test-node".to_string());
    assert_eq!(invalid(d.node_publish_volume("", "/tmp/publish")), "Volume ID is required");
}

#[test]
fn test_node_publish_empty_target_path() {
    let mut d = CsiState::new("test-node".to_string());
    assert_eq!(invalid(d.node_publish_volume("vol-1", "")), "Target path is required");
}

#[test]
fn test_node_publish_not_found() {
    let mut d = CsiState::new("test-node".to_string());
    assert!(matches!(d.node_publish_volume("nonexistent", "/tmp/p"), Err(CsiError::NotFound(_))));
}

#[test]
fn test_node_unpublish_empty_volume_id() {
    let mut d = CsiState::new("test-node".to_string());
    assert_eq!(invalid(d.node_unpublish_volume("", "/tmp/publish")), "Volume ID is required");
}

#[test]
fn test_node_unpublish_empty_target_path() {
    let mut d = CsiState::new("test-node".to_string());
    assert_eq!(invalid(d.node_unpublish_volume("vol-1", "")), "Target path is required");
}

#[test]
fn stage_publish_flags_round_trip() {
    let mut d = CsiState::new("test-node".to_string());
    let vol = d.create_volume_with_id("f", None, "vol-f".to_string()).unwrap();
    assert!(d.node_stage_volume(&vol.volume_id, "/s").is_ok());
    assert!(d.node_publish_volume(&vol.volume_id, "/t").is_ok());
    assert!(d.volumes.get("vol-f").unwrap().staged);
    assert!(d.volumes.get("vol-f").unwrap().published);
    assert!(d.node_unpublish_volume(&vol.volume_id, "/t").is_ok());
    assert!(d.node_unstage_volume(&vol.volume_id, "/s").is_ok());
    assert!(!d.volumes.get("vol-f").unwrap().staged);
    assert!(!d.volumes.get("vol-f").unwrap().published);
    // Unknown volumes are ignored when unstaging.
    assert!(d.node_unstage_volume("vol-zzz", "/s").is_ok());
}

#[test]
fn iscsiadm_arguments_and_sysfs_matching() {
    assert_eq!(discovery_args("10.0.0.1"), vec!["-m", "discovery", "-t", "st", "-p", "10.0.0.1"]);
    assert_eq!(
        node_args("iqn.x", Some("10.0.0.1"), "--login"),
        vec!["-m", "node", "-T", "iqn.x", "-p", "10.0.0.1", "--login"]
    );
    assert_eq!(node_args("iqn.x", None, "--logout"), vec!["-m", "node", "-T", "iqn.x", "--logout"]);
    assert!(is_target_dir_name("target2:0:0", true));
    assert!(!is_target_dir_name("targetname", false));
    assert!(!is_target_dir_name("target2:0:0", false));
    assert!(session_matches("iqn.2024-01.com.example:vol1\n", "iqn.2024-01.com.example:vol1"));
    assert!(!session_matches("iqn.2024-01.com.example:vol2\n", "iqn.2024-01.com.example:vol1"));
    assert_eq!(block_device_path("sdb"), "/dev/sdb");
    assert_eq!(no_block_device_error("iqn.x"), "No block device found for iSCSI target: iqn.x");
    assert_eq!(login_timeout_error("iqn.x"), "Block device not found for iSCSI target 'iqn.x' after 2000ms");
}

#[test]
fn test_get_capacity() {
    assert!(aether::csi::AVAILABLE_CAPACITY_BYTES > 0);
}

#[test]
fn test_node_get_info() {
    let d = CsiState::new("test-node".to_string());
    assert_eq!(d.node_id, "test-node");
    assert_eq!(aether::csi::MAX_VOLUMES_PER_NODE, 100);
}
