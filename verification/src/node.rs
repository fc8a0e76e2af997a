//! The node daemon's workload service: which hypervisor runs a VM, how it is
//! configured from a request, and the table of running VMs.
use vstd::prelude::*;

use crate::hypervisor::firecracker::{BootSource, Drive, FirecrackerConfig, MachineConfig};
use crate::hypervisor::qemu::QemuConfig;
use crate::strmap::StrMap;
use crate::cloud_init::CloudInitConfig;
use crate::text::{decimal, lacks, split_on, str_eq};
use crate::token::{
    seen_after, spec_payload, spec_signature, spec_token, validate_outcome, TokenManager,
};

verus! {

/// Details of a VM reported to callers.
#[derive(Debug)]
pub struct VmDetails {
    pub uuid: String,
    pub name: String,
    pub state: String,
    pub ip_address: String,
    pub mac_address: String,
}

impl Clone for VmDetails {
    fn clone(&self) -> (r: Self)
        ensures
            r == *self,
    {
        VmDetails {
            uuid: self.uuid.clone(),
            name: self.name.clone(),
            state: self.state.clone(),
            ip_address: self.ip_address.clone(),
            mac_address: self.mac_address.clone(),
        }
    }
}

/// A running VM: its details and the handle that controls its process.
pub struct ActiveVm<H> {
    /// Details returned to callers.
    pub details: VmDetails,
    /// Controls the hypervisor process.
    pub hypervisor: H,
}

/// Memory of a request in MiB (`bytes / 1 MiB`, rounded toward zero, cast to `u32` as the
/// request is read).
pub open spec fn spec_mem_mib(memory_limit_bytes: i64) -> u32 {
    let q: int = if memory_limit_bytes >= 0 {
        memory_limit_bytes as int / 1048576
    } else {
        -((-(memory_limit_bytes as int)) / 1048576)
    };
    (q % 0x1_0000_0000) as u32
}

/// vCPUs of a request (`cpu_limit` cast to `u32`).
pub open spec fn spec_vcpus(cpu_limit: i32) -> u32 {
    ((cpu_limit as int) % 0x1_0000_0000) as u32
}

/// Converts the request's CPU limit as the request is read: two's complement for
/// negative values.
fn vcpus_of(cpu_limit: i32) -> (v: u32)
    ensures
        v == spec_vcpus(cpu_limit),
{
    if cpu_limit >= 0 {
        cpu_limit as u32
    } else {
        let w: i64 = cpu_limit as i64 + 4294967296;
        w as u32
    }
}

/// Converts the request's memory limit to MiB as the request is read: the quotient
/// rounded toward zero, two's complement for negative values.
fn mem_mib_of(memory_limit_bytes: i64) -> (v: u32)
    ensures
        v == spec_mem_mib(memory_limit_bytes),
{
    let m: i128 = memory_limit_bytes as i128;
    let q: i128 = if m >= 0 {
        m / 1048576
    } else {
        0 - (0 - m) / 1048576
    };
    let w: i128 = if q >= 0 {
        q % 4294967296
    } else {
        let p: i128 = (0 - q) % 4294967296;
        if p == 0 {
            0
        } else {
            4294967296 - p
        }
    };
    proof {
        if q < 0 {
            let p = (0 - q) % 4294967296;
            assert(((q as int) % 0x1_0000_0000) == if p == 0 { 0 } else { 4294967296 - p }) by (nonlinear_arith)
                requires
                    q < 0,
                    p == (0 - q) % 4294967296,
            ;
        }
    }
    w as u32
}

/// Compute nodes run Firecracker microVMs; others run QEMU.
pub fn uses_firecracker(pool: &str) -> (r: bool)
    ensures
        r == (pool@ == "COMPUTE"@),
{
    str_eq(pool, "COMPUTE")
}

/// The Firecracker configuration of a workload: the kernel and root filesystem images,
/// the cloud-init seed as a read-only drive, and the requested vCPUs and memory.
pub fn firecracker_vm_config(iso_path: String, cpu_limit: i32, memory_limit_bytes: i64) -> (c:
    FirecrackerConfig)
    ensures
        c.boot_source.kernel_image_path@ == "/path/to/kernel"@,
        c.boot_source.boot_args@ == "console=ttyS0 reboot=k panic=1 pci=off"@,
        c.drives@.len() == 2,
        c.drives@[0].drive_id@ == "rootfs"@ && c.drives@[0].path_on_host@ == "/path/to/rootfs"@
            && c.drives@[0].is_root_device && !c.drives@[0].is_read_only,
        c.drives@[1].drive_id@ == "cloudinit"@ && c.drives@[1].path_on_host == iso_path
            && !c.drives@[1].is_root_device && c.drives@[1].is_read_only,
        c.machine_config.vcpu_count == spec_vcpus(cpu_limit),
        c.machine_config.mem_size_mib == spec_mem_mib(memory_limit_bytes),
        c.machine_config.smt == Some(false),
        c.network_interfaces@.len() == 0,
{
    let mut drives: Vec<Drive> = Vec::new();
    drives.push(
        Drive {
            drive_id: String::from_str("rootfs"),
            path_on_host: String::from_str("/path/to/rootfs"),
            is_root_device: true,
            is_read_only: false,
        },
    );
    drives.push(
        Drive {
            drive_id: String::from_str("cloudinit"),
            path_on_host: iso_path,
            is_root_device: false,
            is_read_only: true,
        },
    );
    FirecrackerConfig {
        boot_source: BootSource {
            kernel_image_path: String::from_str("/path/to/kernel"),
            boot_args: String::from_str("console=ttyS0 reboot=k panic=1 pci=off"),
        },
        drives,
        machine_config: MachineConfig {
            vcpu_count: vcpus_of(cpu_limit),
            mem_size_mib: mem_mib_of(memory_limit_bytes),
            smt: Some(false),
        },
        network_interfaces: Vec::new(),
    }
}

/// The QEMU configuration of a workload: the disk image, the VM's QMP socket, and the
/// requested vCPUs and memory, without a TAP device.
pub fn qemu_vm_config(qmp_socket_path: String, cpu_limit: i32, memory_limit_bytes: i64) -> (c:
    QemuConfig)
    ensures
        c.vcpu_count == spec_vcpus(cpu_limit),
        c.mem_size_mib == spec_mem_mib(memory_limit_bytes),
        c.disk_image_path@ == "/path/to/disk.img"@,
        c.qmp_socket_path == qmp_socket_path,
        c.host_tap_device is None,
{
    QemuConfig {
        vcpu_count: vcpus_of(cpu_limit),
        mem_size_mib: mem_mib_of(memory_limit_bytes),
        disk_image_path: String::from_str("/path/to/disk.img"),
        qmp_socket_path,
        host_tap_device: None,
    }
}

/// The details of a VM just started.
pub fn running_vm_details(uuid: String, name: String) -> (d: VmDetails)
    ensures
        d.uuid == uuid,
        d.name == name,
        d.state@ == "RUNNING"@,
        d.ip_address@ == "192.168.1.100"@,
        d.mac_address@ == "52:54:00:12:34:56"@,
{
    VmDetails {
        uuid,
        name,
        state: String::from_str("RUNNING"),
        ip_address: String::from_str("192.168.1.100"),
        mac_address: String::from_str("52:54:00:12:34:56"),
    }
}

/// Why a workload call failed, by gRPC status class.
#[derive(Debug)]
pub enum NodeError {
    /// The caller's token was refused.
    Unauthenticated(String),
    /// A step on the host failed.
    Internal(String),
    /// No such VM runs here.
    NotFound(String),
}

/// Where a VM launch stands: its cloud-init seed is being built, or its hypervisor
/// started.
#[derive(Debug, Clone, Copy, PartialEq, Eq, Structural)]
pub enum LaunchStage {
    BuildIso,
    Spawn,
}

/// A VM launch in progress.
#[derive(Debug)]
pub struct VmLaunch {
    pub stage: LaunchStage,
    pub uuid: String,
    pub name: String,
}

/// The cloud-init seed of a workload: its UUID as instance ID, its name as hostname, and
/// an empty cloud-config.
pub open spec fn launch_seed(c: CloudInitConfig, uuid: Seq<char>, name: Seq<char>) -> bool {
    c.instance_id@ == uuid && c.hostname@ == name && c.user_data@ == "#cloud-config\n"@
}

impl VmLaunch {
    /// The seed is built, or its failure ends the launch as an internal error.
    pub fn iso_built(self, outcome: Result<(), String>) -> (r: Result<VmLaunch, NodeError>)
        requires
            self.stage == LaunchStage::BuildIso,
        ensures
            match outcome {
                Ok(()) => r matches Ok(l) && l.stage == LaunchStage::Spawn && l.uuid == self.uuid
                    && l.name == self.name,
                Err(e) => r matches Err(NodeError::Internal(m)) && m == e,
            },
    {
        match outcome {
            Ok(()) => Ok(VmLaunch { stage: LaunchStage::Spawn, uuid: self.uuid, name: self.name }),
            Err(e) => Err(NodeError::Internal(e)),
        }
    }
}

/// The node daemon's state: its identity, the token manager that checks callers, and
/// the VMs it runs, each with a handle of type `H`.
pub struct AetherNodeImpl<H> {
    /// Unique identifier for the node.
    pub node_id: String,
    /// Allocated pool: "COMPUTE" or "INFRA".
    pub pool: String,
    /// Authenticator for token verification.
    pub token_manager: TokenManager,
    /// Active VMs by UUID.
    pub active_vms: StrMap<ActiveVm<H>>,
}

impl<H> AetherNodeImpl<H> {
    /// The parts are well formed.
    pub open spec fn wf(&self) -> bool {
        self.token_manager.wf() && self.active_vms.wf()
    }

    /// Creates a node with no VMs.
    pub fn new(node_id: String, pool: String, token_manager: TokenManager) -> (n: Self)
        requires
            token_manager.wf(),
        ensures
            n.wf(),
            n.node_id == node_id,
            n.pool == pool,
            n.token_manager == token_manager,
            n.active_vms@ == Map::<Seq<char>, ActiveVm<H>>::empty(),
    {
        AetherNodeImpl { node_id, pool, token_manager, active_vms: StrMap::new() }
    }

    /// Checks a caller's token for this node at `now`. An accepted token is used up: its
    /// signature is remembered, so the same token is refused for the rest of its minute.
    pub fn authorize_at(&mut self, token: &str, now: u64) -> (r: Result<(), String>)
        requires
            old(self).wf(),
        ensures
            final(self).wf(),
            final(self).node_id == old(self).node_id,
            final(self).pool == old(self).pool,
            final(self).active_vms == old(self).active_vms,
            final(self).token_manager.secret() == old(self).token_manager.secret(),
            match validate_outcome(
                old(self).token_manager.secret(),
                old(self).token_manager.seen(),
                token@,
                old(self).node_id@,
                now,
            ) {
                Ok(ts) => r is Ok && final(self).token_manager.seen() == seen_after(
                    old(self).token_manager.seen(),
                    split_on(token@, ':')[2],
                    ts,
                    now,
                ),
                Err(m) => r matches Err(e) && e@ == m && final(self).token_manager.seen() == old(self).token_manager.seen(),
            },
    {
        self.token_manager.validate_token_at(token, self.node_id.as_str(), now)
    }

    /// Records a started VM under its UUID.
    pub fn add_vm(&mut self, uuid: String, details: VmDetails, hypervisor: H)
        requires
            old(self).wf(),
        ensures
            final(self).wf(),
            final(self).node_id == old(self).node_id,
            final(self).pool == old(self).pool,
            final(self).token_manager == old(self).token_manager,
            final(self).active_vms@ == old(self).active_vms@.insert(
                uuid@,
                ActiveVm { details, hypervisor },
            ),
    {
        self.active_vms.insert(uuid, ActiveVm { details, hypervisor });
    }

    /// Takes a VM out of the table to tear it down.
    pub fn take_vm(&mut self, uuid: &str) -> (r: Result<ActiveVm<H>, String>)
        requires
            old(self).wf(),
        ensures
            final(self).wf(),
            final(self).node_id == old(self).node_id,
            final(self).pool == old(self).pool,
            final(self).token_manager == old(self).token_manager,
            final(self).active_vms@ == old(self).active_vms@.remove(uuid@),
            match r {
                Ok(vm) => old(self).active_vms@.contains_key(uuid@) && vm == old(self).active_vms@[uuid@],
                Err(e) => !old(self).active_vms@.contains_key(uuid@) && e@ == "VM not found"@,
            },
    {
        match self.active_vms.remove(uuid) {
            Some(vm) => Ok(vm),
            None => Err(String::from_str("VM not found")),
        }
    }

    /// Starts launching a workload at `now`: the caller's token is checked (and used up),
    /// then the seed to build is given. A refused token is `Unauthenticated`.
    pub fn begin_execute_vm(
        &mut self,
        token: &str,
        workload_uuid: &str,
        name: &str,
        now: u64,
    ) -> (r: Result<(VmLaunch, CloudInitConfig), NodeError>)
        requires
            old(self).wf(),
        ensures
            final(self).wf(),
            final(self).node_id == old(self).node_id,
            final(self).pool == old(self).pool,
            final(self).active_vms == old(self).active_vms,
            final(self).token_manager.secret() == old(self).token_manager.secret(),
            match validate_outcome(
                old(self).token_manager.secret(),
                old(self).token_manager.seen(),
                token@,
                old(self).node_id@,
                now,
            ) {
                Ok(ts) => (r matches Ok((l, c)) && l.stage == LaunchStage::BuildIso && l.uuid@
                    == workload_uuid@ && l.name@ == name@ && launch_seed(c, workload_uuid@, name@))
                    && final(self).token_manager.seen() == seen_after(
                    old(self).token_manager.seen(),
                    split_on(token@, ':')[2],
                    ts,
                    now,
                ),
                Err(m) => (r matches Err(NodeError::Unauthenticated(e)) && e@ == m) && final(self).token_manager.seen() == old(self).token_manager.seen(),
            },
    {
        match self.authorize_at(token, now) {
            Err(e) => Err(NodeError::Unauthenticated(e)),
            Ok(()) => {
                let seed = CloudInitConfig {
                    instance_id: workload_uuid.to_owned(),
                    hostname: name.to_owned(),
                    user_data: String::from_str("#cloud-config\n"),
                };
                let launch = VmLaunch {
                    stage: LaunchStage::BuildIso,
                    uuid: workload_uuid.to_owned(),
                    name: name.to_owned(),
                };
                Ok((launch, seed))
            },
        }
    }

    /// Ends a launch with the hypervisor's start: a started VM is recorded as running and
    /// its addresses given; a failed start is an internal error and records nothing.
    pub fn finish_execute_vm(&mut self, launch: VmLaunch, spawned: Result<H, String>) -> (r: Result<
        (String, String),
        NodeError,
    >)
        requires
            old(self).wf(),
            launch.stage == LaunchStage::Spawn,
        ensures
            final(self).wf(),
            final(self).node_id == old(self).node_id,
            final(self).pool == old(self).pool,
            final(self).token_manager == old(self).token_manager,
            match spawned {
                Ok(h) => (r matches Ok((ip, mac)) && ip@ == "192.168.1.100"@ && mac@
                    == "52:54:00:12:34:56"@) && final(self).active_vms@ == old(self).active_vms@.insert(
                    launch.uuid@,
                    final(self).active_vms@[launch.uuid@],
                ) && ({
                    let v = final(self).active_vms@[launch.uuid@];
                    &&& v.hypervisor == h
                    &&& v.details.uuid == launch.uuid
                    &&& v.details.name == launch.name
                    &&& v.details.state@ == "RUNNING"@
                    &&& v.details.ip_address@ == "192.168.1.100"@
                    &&& v.details.mac_address@ == "52:54:00:12:34:56"@
                }),
                Err(e) => (r matches Err(NodeError::Internal(m)) && m == e) && final(self).active_vms == old(self).active_vms,
            },
    {
        match spawned {
            Err(e) => Err(NodeError::Internal(e)),
            Ok(h) => {
                let details = running_vm_details(launch.uuid.clone(), launch.name);
                let ip = details.ip_address.clone();
                let mac = details.mac_address.clone();
                self.add_vm(launch.uuid, details, h);
                Ok((ip, mac))
            },
        }
    }

    /// Starts tearing down a VM at `now`: the caller's token is checked (and used up),
    /// then the VM leaves the table. A refused token is `Unauthenticated`, an unknown VM
    /// `NotFound`.
    pub fn begin_teardown_vm(&mut self, token: &str, workload_uuid: &str, now: u64) -> (r: Result<
        ActiveVm<H>,
        NodeError,
    >)
        requires
            old(self).wf(),
        ensures
            final(self).wf(),
            final(self).node_id == old(self).node_id,
            final(self).pool == old(self).pool,
            final(self).token_manager.secret() == old(self).token_manager.secret(),
            match validate_outcome(
                old(self).token_manager.secret(),
                old(self).token_manager.seen(),
                token@,
                old(self).node_id@,
                now,
            ) {
                Ok(ts) => final(self).token_manager.seen() == seen_after(
                    old(self).token_manager.seen(),
                    split_on(token@, ':')[2],
                    ts,
                    now,
                ) && final(self).active_vms@ == old(self).active_vms@.remove(workload_uuid@) && (
                if old(self).active_vms@.contains_key(workload_uuid@) {
                    r matches Ok(vm) && vm == old(self).active_vms@[workload_uuid@]
                } else {
                    r matches Err(NodeError::NotFound(e)) && e@ == "VM not found"@
                }),
                Err(m) => (r matches Err(NodeError::Unauthenticated(e)) && e@ == m) && final(self).token_manager.seen() == old(self).token_manager.seen() && final(self).active_vms
                    == old(self).active_vms,
            },
    {
        match self.authorize_at(token, now) {
            Err(e) => Err(NodeError::Unauthenticated(e)),
            Ok(()) => match self.take_vm(workload_uuid) {
                Ok(vm) => Ok(vm),
                Err(e) => Err(NodeError::NotFound(e)),
            },
        }
    }

    /// The UUIDs of the running VMs, in table order.
    pub fn vm_ids(&self) -> (v: Vec<String>)
        requires
            self.wf(),
        ensures
            v@.len() == self.active_vms.entries().len(),
            forall|i: int| 0 <= i < v@.len() ==> #[trigger] v@[i]@ == self.active_vms.entries()[i].0,
    {
        let n = self.active_vms.len();
        let mut v: Vec<String> = Vec::new();
        let mut i: usize = 0;
        while i < n
            invariant
                i <= n,
                n == self.active_vms.entries().len(),
                v@.len() == i,
                forall|j: int| 0 <= j < i ==> #[trigger] v@[j]@ == self.active_vms.entries()[j].0,
            decreases n - i,
        {
            v.push(self.active_vms.key_at(i).clone());
            i = i + 1;
        }
        v
    }

    /// The details of the running VMs, in table order.
    pub fn list_vms(&self) -> (v: Vec<VmDetails>)
        requires
            self.wf(),
        ensures
            v@.len() == self.active_vms.values().len(),
            forall|i: int| 0 <= i < v@.len() ==> #[trigger] v@[i] == self.active_vms.values()[i].details,
    {
        let n = self.active_vms.len();
        let mut v: Vec<VmDetails> = Vec::new();
        let mut i: usize = 0;
        while i < n
            invariant
                i <= n,
                n == self.active_vms.values().len(),
                v@.len() == i,
                forall|j: int| 0 <= j < i ==> #[trigger] v@[j] == self.active_vms.values()[j].details,
            decreases n - i,
        {
            v.push(self.active_vms.value_at(i).details.clone());
            i = i + 1;
        }
        v
    }
}

/// Ends a teardown with the hypervisor's stop: a failed stop is an internal error.
pub fn finish_teardown_vm(stopped: Result<(), String>) -> (r: Result<(), NodeError>)
    ensures
        match stopped {
            Ok(()) => r is Ok,
            Err(e) => r matches Err(NodeError::Internal(m)) && m == e,
        },
{
    match stopped {
        Ok(()) => Ok(()),
        Err(e) => Err(NodeError::Internal(e)),
    }
}

/// A token the node issued for itself at `t` and accepted at `now` is refused as a replay
/// when presented again within its minute, so a workload call cannot be repeated with it
/// (node IDs hold no `:`).
pub proof fn lemma_node_token_single_use(
    secret: Seq<u8>,
    seen: Map<Seq<char>, u64>,
    node_id: Seq<char>,
    t: u64,
    now: u64,
    later: u64,
)
    requires
        lacks(node_id, ':'),
        t <= now <= t + 60,
        t <= later <= t + 60,
        !seen.contains_key(spec_signature(secret, spec_payload(node_id, decimal(t as nat)))),
    ensures
        validate_outcome(secret, seen, spec_token(secret, node_id, t), node_id, now) == Ok::<
            u64,
            Seq<char>,
        >(t),
        validate_outcome(
            secret,
            seen_after(seen, split_on(spec_token(secret, node_id, t), ':')[2], t, now),
            spec_token(secret, node_id, t),
            node_id,
            later,
        ) == Err::<u64, Seq<char>>("Replayed token detected"@),
{
    crate::token::lemma_fresh_token_accepted(secret, seen, node_id, t, now);
    crate::token::lemma_replay_rejected(secret, seen, node_id, t, now, later);
}

/// A request's limits become the VM's: a non-negative CPU limit is the vCPU count, and
/// a non-negative memory limit below 4 PiB becomes the whole MiB it holds.
pub proof fn lemma_request_limits(cpu_limit: i32, memory_limit_bytes: i64)
    ensures
        cpu_limit >= 0 ==> spec_vcpus(cpu_limit) == cpu_limit,
        0 <= memory_limit_bytes < 0x1_0000_0000 * 1048576 ==> {
            &&& spec_mem_mib(memory_limit_bytes) as int * 1048576 <= memory_limit_bytes
            &&& memory_limit_bytes < (spec_mem_mib(memory_limit_bytes) as int + 1) * 1048576
        },
{
    if 0 <= memory_limit_bytes < 0x1_0000_0000 * 1048576 {
        let m = memory_limit_bytes as int;
        assert(m / 1048576 < 0x1_0000_0000) by (nonlinear_arith)
            requires
                0 <= m < 0x1_0000_0000 * 1048576,
        ;
        assert((m / 1048576) * 1048576 <= m < (m / 1048576 + 1) * 1048576) by (nonlinear_arith)
            requires
                0 <= m,
        ;
    }
}

} // verus!
