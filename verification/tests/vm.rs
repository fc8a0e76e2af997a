use std::io;

use aether::bridge::{filter_chain_name, is_permission_error, parse_mac_address, tenant_bridge_name};
use aether::cloud_init::{iso_failure, CloudInitConfig, CloudInitIsoBuilder};
use aether::hypervisor::firecracker::{
    BootSource, Drive, FirecrackerConfig, FirecrackerHypervisor, JailerConfig, MachineConfig, NetworkInterface,
};
use aether::hypervisor::qemu::{
    nbd_server_start_command, reply_outcome, set_capability_command, status_of_reply, QemuConfig, QemuHypervisor,
    QmpCall,
};
use aether::hypervisor::{pid_for_status, pid_for_stop};
use aether::node::{
    finish_teardown_vm, firecracker_vm_config, qemu_vm_config, running_vm_details, uses_firecracker, AetherNodeImpl,
    LaunchStage, NodeError,
};
use aether::telemetry::{parse_df_output, parse_meminfo_content, TelemetryCollector, TelemetryConfig};
use aether::token::TokenManager;
use aether::vsock::VsockConnector;
use aether::telemetry::{df_in_range, meminfo_in_range};

fn permission(err: &io::Error) -> bool {
    is_permission_error(
        err.kind() == io::ErrorKind::PermissionDenied,
        &err.to_string(),
        &format!("{:?}", err),
        err.raw_os_error(),
    )
}

#[test]
fn test_is_permission_error_kind() {
    let err = io::Error::new(io::ErrorKind::PermissionDenied, "access denied");
    assert!(permission(&err));
}

#[test]
fn test_is_permission_error_raw_os_eperm() {
    let err = io::Error::from_raw_os_error(1);
    assert!(permission(&err));
}

#[test]
fn test_is_permission_error_raw_os_eacces() {
    let err = io::Error::from_raw_os_error(13);
    assert!(permission(&err));
}

#[test]
fn test_is_permission_error_string_permission_denied() {
    let err = io::Error::other("Permission denied");
    assert!(permission(&err));
}

#[test]
fn test_is_permission_error_string_operation_not_permitted() {
    let err = io::Error::other("Operation not permitted");
    assert!(permission(&err));
}

#[test]
fn test_is_permission_error_non_permission() {
    let err = io::Error::new(io::ErrorKind::NotFound, "file not found");
    assert!(!permission(&err));
}

#[test]
fn test_is_permission_error_io_busy() {
    let err = io::Error::new(io::ErrorKind::WouldBlock, "resource busy");
    assert!(!permission(&err));
}

#[test]
fn permission_error_netlink_codes() {
    assert!(is_permission_error(false, "netlink error", "ErrorMessage { code: Some(-13) }", None));
    assert!(!is_permission_error(false, "netlink error", "ErrorMessage { code: Some(-16) }", Some(16)));
}

#[test]
fn bridge_names_and_mac() {
    assert_eq!(tenant_bridge_name(42), "br-tenant-42");
    assert_eq!(filter_chain_name("tap-mock-42"), "filter-tap-mock-42");
    assert_eq!(parse_mac_address("52:54:00:12:34:56").unwrap(), vec![0x52, 0x54, 0x00, 0x12, 0x34, 0x56]);
    assert!(parse_mac_address("52:54:00:12:34").is_err());
    assert!(parse_mac_address("52:54:00:12:34:zz").is_err());
}

fn sample_firecracker_config() -> FirecrackerConfig {
    FirecrackerConfig {
        boot_source: BootSource {
            kernel_image_path: "/path/to/vmlinux".to_string(),
            boot_args: "console=ttyS0 reboot=k panic=1 pci=off".to_string(),
        },
        drives: vec![Drive {
            drive_id: "rootfs".to_string(),
            path_on_host: "/path/to/rootfs".to_string(),
            is_root_device: true,
            is_read_only: false,
        }],
        machine_config: MachineConfig { vcpu_count: 2, mem_size_mib: 1024, smt: Some(false) },
        network_interfaces: vec![NetworkInterface { iface_id: "eth0".to_string(), host_dev_name: "tap0".to_string() }],
    }
}

#[test]
fn test_jailer_config_args() {
    let config = sample_firecracker_config();
    let mut hypervisor = FirecrackerHypervisor::new(
        "test-vm".to_string(),
        "/usr/bin/firecracker".to_string(),
        "vm.json".to_string(),
        "vm.log".to_string(),
        config,
    );
    let jc = JailerConfig { uid: 1000, gid: 1000, chroot_base_dir: "/srv/jailer".to_string(), node_index: Some(0) };
    hypervisor.jailer_config = Some(jc);
    assert_eq!(hypervisor.id, "test-vm");
    assert_eq!(hypervisor.bin_path, "/usr/bin/firecracker");
    assert_eq!(hypervisor.jailer_config.as_ref().unwrap().uid, 1000);
    assert_eq!(hypervisor.jailer_config.as_ref().unwrap().chroot_base_dir, "/srv/jailer");
}

#[test]
fn jailer_launch_arguments() {
    let mut hypervisor = FirecrackerHypervisor::new(
        "test-vm".to_string(),
        "/usr/bin/firecracker".to_string(),
        "/tmp/vm.json".to_string(),
        "/tmp/vm.log".to_string(),
        sample_firecracker_config(),
    );
    assert_eq!(hypervisor.launch_program(), "/usr/bin/firecracker");
    assert_eq!(hypervisor.launch_args(), vec!["--config-file", "/tmp/vm.json"]);
    assert_eq!(hypervisor.pid_path(), "/tmp/vm.pid");
    hypervisor.jailer_config =
        Some(JailerConfig { uid: 1000, gid: 1001, chroot_base_dir: "/srv/jailer".to_string(), node_index: Some(0) });
    assert_eq!(hypervisor.launch_program(), "jailer");
    assert_eq!(
        hypervisor.launch_args(),
        vec![
            "--id", "test-vm", "--exec-file", "/usr/bin/firecracker", "--uid", "1000", "--gid", "1001",
            "--chroot-base-dir", "/srv/jailer", "--", "--config-file", "/tmp/vm.json", "--node", "0"
        ]
    );
    hypervisor.extra_args = vec!["10".to_string()];
    assert_eq!(hypervisor.launch_args(), vec!["10"]);
}

fn sample_qemu_config() -> QemuConfig {
    QemuConfig {
        vcpu_count: 4,
        mem_size_mib: 4096,
        disk_image_path: "/var/lib/aether/db.img".to_string(),
        qmp_socket_path: "/var/run/aether/qmp.sock".to_string(),
        host_tap_device: Some("tap1".to_string()),
    }
}

#[test]
fn test_qemu_config_args_generation() {
    let log_path = "/tmp/aether-qemu-test/qemu.log".to_string();
    let hypervisor = QemuHypervisor::new(
        "test-vm-qemu".to_string(),
        "qemu-system-x86_64".to_string(),
        log_path,
        sample_qemu_config(),
    );
    assert_eq!(hypervisor.id, "test-vm-qemu");
    assert_eq!(hypervisor.bin_path, "qemu-system-x86_64");
    assert_eq!(hypervisor.pid_path(), hypervisor.log_path.replace(".log", ".pid"));
}

#[test]
fn qemu_launch_arguments() {
    let hypervisor = QemuHypervisor::new("vm".to_string(), "qemu".to_string(), "q.log".to_string(), sample_qemu_config());
    assert_eq!(
        hypervisor.launch_args(),
        vec![
            "-enable-kvm", "-cpu", "host", "-m", "4096", "-smp", "4", "-drive",
            "file=/var/lib/aether/db.img,format=raw,media=disk", "-qmp", "unix:/var/run/aether/qmp.sock,server,nowait",
            "-netdev", "tap,id=net0,ifname=tap1,script=no,downscript=no", "-device", "virtio-net-pci,netdev=net0",
            "-nographic"
        ]
    );
    assert_eq!(hypervisor.get_qmp_socket_path().unwrap(), "/var/run/aether/qmp.sock");
}

#[test]
fn pid_file_interpretation() {
    assert_eq!(pid_for_status(None).unwrap(), None);
    assert_eq!(pid_for_status(Some("  \n")).unwrap(), None);
    assert_eq!(pid_for_status(Some("1234\n")).unwrap(), Some(1234));
    assert_eq!(pid_for_status(Some("abc")).unwrap_err(), "Failed to parse PID: invalid digit found in string");
    assert_eq!(pid_for_stop(" 77 ").unwrap(), 77);
    assert_eq!(pid_for_stop("").unwrap_err(), "Failed to parse PID '': cannot parse integer from empty string");
}

#[test]
fn qmp_replies_and_commands() {
    assert_eq!(status_of_reply("{\"return\": {\"status\": \"running\"}}"), "RUNNING");
    assert_eq!(status_of_reply("{\"return\": {\"status\":\"paused\"}}"), "PAUSED");
    assert_eq!(status_of_reply("{\"return\": {}}"), "STOPPED");
    assert_eq!(
        reply_outcome("{\"error\": {\"desc\": \"x\"}}", "Migration failed: ").unwrap_err(),
        "Migration failed: {\"error\": {\"desc\": \"x\"}}"
    );
    assert!(reply_outcome("{\"return\": {}}", "Migration failed: ").is_ok());
    assert_eq!(
        set_capability_command("auto-converge", true),
        "{\"execute\": \"migrate-set-capabilities\", \"arguments\": {\"capabilities\": [{ \"capability\": \"auto-converge\", \"state\": true }] }}\n"
    );
    assert_eq!(
        nbd_server_start_command("127.0.0.1:4444"),
        "{\"execute\": \"nbd-server-start\", \"arguments\": {\"addr\": { \"type\": \"inet\", \"data\": { \"host\": \"127.0.0.1\", \"port\": \"4444\" } } } }\n"
    );
    assert!(nbd_server_start_command("10.0.0.1").contains("\"port\": \"10809\""));
    let call = QmpCall::SetMaxBandwidth(100_000_000);
    assert_eq!(
        call.command(),
        "{\"execute\": \"migrate-set-parameters\", \"arguments\": {\"max-bandwidth\": 100000000 } }\n"
    );
    assert_eq!(call.outcome("{\"error\": 1}").unwrap_err(), "Failed to set migration parameters: {\"error\": 1}");
}

#[test]
fn test_telemetry_config_default() {
    let config = TelemetryConfig::default();
    assert_eq!(config.loadavg_path, "/proc/loadavg");
    assert_eq!(config.meminfo_path, "/proc/meminfo");
}

#[test]
fn telemetry_collector_keeps_config() {
    let collector = TelemetryCollector::new(TelemetryConfig::default());
    assert_eq!(collector.config.mount_point, "/");
}

#[test]
fn test_meminfo_parsing() {
    let mem = parse_meminfo_content(
        "MemTotal:        16324024 kB\nMemFree:          9124028 kB\nMemAvailable:    12324908 kB\n",
    )
    .unwrap();
    assert_eq!(mem.total_bytes, 16324024 * 1024);
    assert_eq!(mem.available_bytes, 12324908 * 1024);
}

#[test]
fn test_meminfo_parsing_fallback_free() {
    let mem = parse_meminfo_content("MemTotal:        16324024 kB\nMemFree:          9124028 kB\n").unwrap();
    assert_eq!(mem.total_bytes, 16324024 * 1024);
    assert_eq!(mem.available_bytes, 9124028 * 1024);
}

#[test]
fn meminfo_errors() {
    assert_eq!(parse_meminfo_content("MemFree: 1 kB\n").unwrap_err(), "MemTotal not found");
    assert_eq!(parse_meminfo_content("MemTotal: 1 kB\n").unwrap_err(), "MemAvailable or MemFree not found");
    assert_eq!(parse_meminfo_content("MemTotal: x kB\n").unwrap_err(), "invalid digit found in string");
}

#[test]
fn df_output_parsing() {
    let d = parse_df_output(
        "Filesystem     1K-blocks    Used Available Use% Mounted on\n/dev/sda1      102400   2048     100352   2% /\n",
    )
    .unwrap();
    assert_eq!(d.total_bytes, 102400 * 1024);
    assert_eq!(d.available_bytes, 100352 * 1024);
    assert_eq!(parse_df_output("").unwrap_err(), "Empty df output");
    assert_eq!(parse_df_output("Filesystem\n").unwrap_err(), "Missing data line in df output");
    assert_eq!(parse_df_output("h\n/dev/x 1 2\n").unwrap_err(), "Malformed df output line: /dev/x 1 2");
}

#[test]
fn cloud_init_meta_data_and_tool() {
    let builder = CloudInitIsoBuilder::new(CloudInitConfig {
        instance_id: "i-test1234".to_string(),
        hostname: "test-host".to_string(),
        user_data: "#cloud-config\n".to_string(),
    });
    assert_eq!(builder.meta_data(), "instance-id: i-test1234\nlocal-hostname: test-host\n");
    let (prog, args) = builder.iso_command(true, true, "/t/seed.iso", "/t/input").unwrap();
    assert_eq!(prog, "xorriso");
    assert_eq!(args, vec!["-as", "mkisofs", "-R", "-V", "config-2", "-o", "/t/seed.iso", "/t/input"]);
    let (prog, args) = builder.iso_command(false, true, "/t/seed.iso", "/t/input").unwrap();
    assert_eq!(prog, "mkisofs");
    assert_eq!(args.len(), 6);
    assert!(builder.iso_command(false, false, "/t/seed.iso", "/t/input").is_none());
    assert_eq!(iso_failure("bad"), "ISO compilation failed: bad");
}

#[test]
fn vsock_handshake_lines() {
    let c = VsockConnector::new("/tmp/v.sock".to_string());
    assert_eq!(c.connect_request(1024), "CONNECT 1024\n");
    assert!(c.handshake_outcome("OK 1024\n").is_ok());
    let e = c.handshake_outcome("ERR Port not listening\n").unwrap_err();
    assert_eq!(e, "Handshake rejected by Firecracker multiplexer: ERR Port not listening");
}

#[test]
fn node_vm_configuration() {
    assert!(uses_firecracker("COMPUTE"));
    assert!(!uses_firecracker("INFRA"));
    let fc = firecracker_vm_config("/dev/shm/seed.iso".to_string(), 2, 2 * 1024 * 1024 * 1024);
    assert_eq!(fc.machine_config.vcpu_count, 2);
    assert_eq!(fc.machine_config.mem_size_mib, 2048);
    assert_eq!(fc.drives[1].path_on_host, "/dev/shm/seed.iso");
    let q = qemu_vm_config("/tmp/qmp.sock".to_string(), -1, 1536 * 1024);
    assert_eq!(q.vcpu_count, u32::MAX);
    assert_eq!(q.mem_size_mib, 1);
    let d = running_vm_details("u-1".to_string(), "web".to_string());
    assert_eq!(d.state, "RUNNING");
    assert_eq!(d.ip_address, "192.168.1.100");
}

#[test]
fn node_vm_table() {
    let secret = b"node-secret".to_vec();
    let issuer = TokenManager::new(secret.clone());
    let mut node: AetherNodeImpl<u32> =
        AetherNodeImpl::new("blade-01".to_string(), "COMPUTE".to_string(), TokenManager::new(secret));
    let token = issuer.generate_token_at("blade-01", 500);
    assert!(node.authorize_at(&token, 510).is_ok());
    assert_eq!(node.authorize_at(&token, 510).unwrap_err(), "Replayed token detected");
    node.add_vm("u-1".to_string(), running_vm_details("u-1".to_string(), "a".to_string()), 11);
    node.add_vm("u-2".to_string(), running_vm_details("u-2".to_string(), "b".to_string()), 22);
    assert_eq!(node.vm_ids(), vec!["u-1".to_string(), "u-2".to_string()]);
    let vm = node.take_vm("u-1").unwrap();
    assert_eq!(vm.hypervisor, 11);
    assert_eq!(vm.details.name, "a");
    assert_eq!(node.take_vm("u-1").err().unwrap(), "VM not found");
    assert_eq!(node.list_vms().len(), 1);
}

#[test]
fn range_checks_before_parsing() {
    assert!(meminfo_in_range("MemTotal: 16 kB\nMemFree: 8 kB\n"));
    assert!(!meminfo_in_range("MemTotal: 18446744073709551615 kB\n"));
    // After a line that does not parse, later values are never multiplied.
    assert!(meminfo_in_range("MemFree: x kB\nMemTotal: 18446744073709551615 kB\n"));
    assert!(df_in_range("h\n/dev/x 100 2 50 1% /\n"));
    assert!(!df_in_range("h\n/dev/x 18446744073709551615 2 50 1% /\n"));
}

#[test]
fn test_query_status_empty_pid_file() {
    assert_eq!(pid_for_status(Some("")).unwrap(), None);
}

#[test]
fn test_stop_no_pid_file() {
    assert_eq!(pid_for_status(None).unwrap(), None);
}

#[test]
fn test_vsock_handshake_failure() {
    let connector = VsockConnector::new("/tmp/v.sock".to_string());
    let res = connector.handshake_outcome("ERR Port not listening\n");
    assert!(res.is_err());
    assert!(res.unwrap_err().contains("Handshake rejected"));
}

#[test]
fn node_workload_steps() {
    let secret = b"node-secret".to_vec();
    let issuer = TokenManager::new(secret.clone());
    let mut node: AetherNodeImpl<u32> =
        AetherNodeImpl::new("blade-01".to_string(), "COMPUTE".to_string(), TokenManager::new(secret));
    let token = issuer.generate_token_at("blade-01", 100);
    let (launch, seed) = node.begin_execute_vm(&token, "u-9", "web", 110).unwrap();
    assert_eq!(launch.stage, LaunchStage::BuildIso);
    assert_eq!(seed.instance_id, "u-9");
    assert_eq!(seed.hostname, "web");
    assert_eq!(seed.user_data, "#cloud-config\n");
    // The token is used up.
    assert!(matches!(node.begin_execute_vm(&token, "u-9", "web", 111), Err(NodeError::Unauthenticated(m)) if m == "Replayed token detected"));
    let launch = launch.iso_built(Ok(())).unwrap();
    assert_eq!(launch.stage, LaunchStage::Spawn);
    let (ip, mac) = node.finish_execute_vm(launch, Ok(7)).unwrap();
    assert_eq!((ip.as_str(), mac.as_str()), ("192.168.1.100", "52:54:00:12:34:56"));
    assert_eq!(node.list_vms()[0].state, "RUNNING");
    // A failed ISO build or start is an internal error and records nothing.
    let t2 = issuer.generate_token_at("blade-01", 120);
    let (l2, _) = node.begin_execute_vm(&t2, "u-10", "db", 120).unwrap();
    assert!(matches!(l2.iso_built(Err("disk full".to_string())), Err(NodeError::Internal(m)) if m == "disk full"));
    let t3 = issuer.generate_token_at("blade-01", 130);
    let (l3, _) = node.begin_execute_vm(&t3, "u-11", "db", 130).unwrap();
    let l3 = l3.iso_built(Ok(())).unwrap();
    assert!(matches!(node.finish_execute_vm(l3, Err("spawn failed".to_string())), Err(NodeError::Internal(_))));
    assert_eq!(node.vm_ids(), vec!["u-9".to_string()]);
    // Teardown: a refused token, an unknown VM, then the VM itself.
    assert!(matches!(node.begin_teardown_vm("bad", "u-9", 140), Err(NodeError::Unauthenticated(_))));
    let t4 = issuer.generate_token_at("blade-01", 140);
    assert!(matches!(node.begin_teardown_vm(&t4, "u-404", 140), Err(NodeError::NotFound(m)) if m == "VM not found"));
    let t5 = issuer.generate_token_at("blade-01", 141);
    assert_eq!(node.begin_teardown_vm(&t5, "u-9", 141).ok().unwrap().hypervisor, 7);
    assert!(finish_teardown_vm(Ok(())).is_ok());
    assert!(matches!(finish_teardown_vm(Err("kill".to_string())), Err(NodeError::Internal(_))));
}
