//! Firecracker microVM configuration and launch command.
use vstd::prelude::*;

use crate::hypervisor::replace_in;
use crate::text::{clone_strings, decimal, replace_all};

verus! {

/// Configuration for the boot source (kernel image and parameters).
#[derive(Debug)]
pub struct BootSource {
    /// Host filesystem path to the kernel image.
    pub kernel_image_path: String,
    /// Kernel command line arguments.
    pub boot_args: String,
}

/// Configuration for a block device (drive) attached to the microVM.
#[derive(Debug)]
pub struct Drive {
    /// Unique identifier for the drive.
    pub drive_id: String,
    /// Host filesystem path to the backing file or block device.
    pub path_on_host: String,
    /// Whether this drive represents the root filesystem.
    pub is_root_device: bool,
    /// Whether this drive should be mounted read-only.
    pub is_read_only: bool,
}

/// Configuration for the microVM's virtual hardware resources.
#[derive(Debug, Clone, Copy, PartialEq, Eq, Structural)]
pub struct MachineConfig {
    /// Number of virtual CPUs to allocate.
    pub vcpu_count: u32,
    /// Memory allocation in megabytes.
    pub mem_size_mib: u32,
    /// SMT (hyperthreading) option.
    pub smt: Option<bool>,
}

/// Configuration for a virtual network interface.
#[derive(Debug)]
pub struct NetworkInterface {
    /// Unique identifier for the network interface.
    pub iface_id: String,
    /// Name of the TAP device on the host system.
    pub host_dev_name: String,
}

/// The overall configuration layout matching the Firecracker API schema.
#[derive(Debug)]
pub struct FirecrackerConfig {
    /// Boot source configuration.
    pub boot_source: BootSource,
    /// Drives to attach.
    pub drives: Vec<Drive>,
    /// CPU and Memory limits.
    pub machine_config: MachineConfig,
    /// Network interface mappings.
    pub network_interfaces: Vec<NetworkInterface>,
}

/// Configuration for the Firecracker jailer sandbox.
#[derive(Debug)]
pub struct JailerConfig {
    /// UID that Firecracker will run as.
    pub uid: u32,
    /// GID that Firecracker will run as.
    pub gid: u32,
    /// Directory where the chroot jail will be built.
    pub chroot_base_dir: String,
    /// NUMA node index where the process will be pinned.
    pub node_index: Option<u32>,
}

/// Hypervisor implementation managing a single Firecracker microVM process.
pub struct FirecrackerHypervisor {
    /// Unique identifier for the microVM instance.
    pub id: String,
    /// Path to the Firecracker binary.
    pub bin_path: String,
    /// Destination path where the JSON configuration will be written.
    pub config_path: String,
    /// Log file path where console output will be redirected.
    pub log_path: String,
    /// Firecracker configuration spec.
    pub config: FirecrackerConfig,
    /// Optional command arguments override for testing/mocking.
    pub extra_args: Vec<String>,
    /// Optional jailer sandbox configuration.
    pub jailer_config: Option<JailerConfig>,
}

/// The arguments that start Firecracker through the jailer.
pub open spec fn spec_jailer_args(
    id: Seq<char>,
    bin_path: Seq<char>,
    config_path: Seq<char>,
    jc: JailerConfig,
) -> Seq<Seq<char>> {
    let base = seq![
        "--id"@,
        id,
        "--exec-file"@,
        bin_path,
        "--uid"@,
        decimal(jc.uid as nat),
        "--gid"@,
        decimal(jc.gid as nat),
        "--chroot-base-dir"@,
        jc.chroot_base_dir@,
        "--"@,
        "--config-file"@,
        config_path,
    ];
    match jc.node_index {
        Some(node) => base + seq!["--node"@, decimal(node as nat)],
        None => base,
    }
}

impl FirecrackerHypervisor {
    /// Creates a new instance of `FirecrackerHypervisor`.
    pub fn new(
        id: String,
        bin_path: String,
        config_path: String,
        log_path: String,
        config: FirecrackerConfig,
    ) -> (h: Self)
        ensures
            h.id == id,
            h.bin_path == bin_path,
            h.config_path == config_path,
            h.log_path == log_path,
            h.config == config,
            h.extra_args@.len() == 0,
            h.jailer_config is None,
    {
        FirecrackerHypervisor {
            id,
            bin_path,
            config_path,
            log_path,
            config,
            extra_args: Vec::new(),
            jailer_config: None,
        }
    }

    /// The PID file: the config path with every `.json` replaced by `.pid`.
    pub fn pid_path(&self) -> (p: String)
        ensures
            p@ == replace_all(self.config_path@, ".json"@, ".pid"@),
    {
        proof {
            reveal_strlit(".json");
        }
        replace_in(self.config_path.as_str(), ".json", ".pid")
    }

    /// The program to start: the jailer when a jailer configuration is set, else the binary.
    pub fn launch_program(&self) -> (p: String)
        ensures
            p@ == (if self.jailer_config is Some {
                "jailer"@
            } else {
                self.bin_path@
            }),
    {
        if self.jailer_config.is_some() {
            String::from_str("jailer")
        } else {
            self.bin_path.clone()
        }
    }

    /// The arguments to start with: the override when one is set, else the jailer
    /// arguments, else `--config-file <config_path>`.
    pub fn launch_args(&self) -> (args: Vec<String>)
        ensures
            crate::text::string_views(args@) == (if self.extra_args@.len() > 0 {
                crate::text::string_views(self.extra_args@)
            } else {
                match self.jailer_config {
                    Some(jc) => spec_jailer_args(self.id@, self.bin_path@, self.config_path@, jc),
                    None => seq!["--config-file"@, self.config_path@],
                }
            }),
    {
        if self.extra_args.len() > 0 {
            return clone_strings(&self.extra_args);
        }
        match &self.jailer_config {
            Some(jc) => {
                let mut args: Vec<String> = Vec::new();
                args.push(String::from_str("--id"));
                args.push(self.id.clone());
                args.push(String::from_str("--exec-file"));
                args.push(self.bin_path.clone());
                args.push(String::from_str("--uid"));
                args.push(decimal_u32(jc.uid));
                args.push(String::from_str("--gid"));
                args.push(decimal_u32(jc.gid));
                args.push(String::from_str("--chroot-base-dir"));
                args.push(jc.chroot_base_dir.clone());
                args.push(String::from_str("--"));
                args.push(String::from_str("--config-file"));
                args.push(self.config_path.clone());
                if let Some(node) = jc.node_index {
                    args.push(String::from_str("--node"));
                    args.push(decimal_u32(node));
                }
                proof {
                    assert(crate::text::string_views(args@) =~= spec_jailer_args(
                        self.id@,
                        self.bin_path@,
                        self.config_path@,
                        *jc,
                    ));
                }
                args
            },
            None => {
                let mut args: Vec<String> = Vec::new();
                args.push(String::from_str("--config-file"));
                args.push(self.config_path.clone());
                proof {
                    assert(crate::text::string_views(args@) =~= seq![
                        "--config-file"@,
                        self.config_path@,
                    ]);
                }
                args
            },
        }
    }
}

fn decimal_u32(n: u32) -> (s: String)
    ensures
        s@ == decimal(n as nat),
{
    crate::text::decimal_string(n as u64)
}

/// For every jailer configuration, the jailer gets the VM's ID after `--id`, the
/// Firecracker binary after `--exec-file`, the UID after `--uid`, the GID after `--gid`
/// and the chroot base after `--chroot-base-dir`; after `--` Firecracker gets
/// `--config-file` and the config path; a NUMA node, when set, follows as `--node`.
pub proof fn lemma_jailer_args(id: Seq<char>, bin_path: Seq<char>, config_path: Seq<char>, jc: JailerConfig)
    ensures
        ({
            let a = spec_jailer_args(id, bin_path, config_path, jc);
            &&& a.len() == if jc.node_index is Some { 15int } else { 13int }
            &&& a[0] == "--id"@ && a[1] == id
            &&& a[2] == "--exec-file"@ && a[3] == bin_path
            &&& a[4] == "--uid"@ && a[5] == decimal(jc.uid as nat)
            &&& a[6] == "--gid"@ && a[7] == decimal(jc.gid as nat)
            &&& a[8] == "--chroot-base-dir"@ && a[9] == jc.chroot_base_dir@
            &&& a[10] == "--"@ && a[11] == "--config-file"@ && a[12] == config_path
            &&& match jc.node_index {
                Some(node) => a[13] == "--node"@ && a[14] == decimal(node as nat),
                None => true,
            }
        }),
{
}

} // verus!
