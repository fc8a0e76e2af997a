//! QEMU-KVM virtual machines: launch arguments and the QMP commands and replies.
use vstd::prelude::*;

use crate::hypervisor::replace_in;
use crate::text::{
    lacks, lemma_contains_middle, lemma_split_join, lemma_split_single,
    chars_of, chars_split, concat3, clone_strings, contains, decimal, extend_chars, extend_str,
    push_decimal, replace_all, split_on, str_contains, string_of, string_views, views,
};

verus! {

/// Configuration for the QEMU-KVM virtual machine hardware and devices.
#[derive(Debug)]
pub struct QemuConfig {
    /// Number of virtual CPUs.
    pub vcpu_count: u32,
    /// Memory size in Megabytes.
    pub mem_size_mib: u32,
    /// Path to the backing disk image on the host.
    pub disk_image_path: String,
    /// Path to the QMP Unix socket on the host.
    pub qmp_socket_path: String,
    /// Name of the host TAP network interface device.
    pub host_tap_device: Option<String>,
}

/// Hypervisor implementation managing a single QEMU VM process.
pub struct QemuHypervisor {
    /// Unique identifier for the VM instance.
    pub id: String,
    /// Path to the QEMU binary.
    pub bin_path: String,
    /// Path to redirect console logs.
    pub log_path: String,
    /// Configuration for the VM.
    pub config: QemuConfig,
    /// Optional command arguments override for testing/mocking.
    pub extra_args: Vec<String>,
}

/// The QEMU arguments for a configuration.
pub open spec fn spec_qemu_args(c: QemuConfig) -> Seq<Seq<char>> {
    let base = seq![
        "-enable-kvm"@,
        "-cpu"@,
        "host"@,
        "-m"@,
        decimal(c.mem_size_mib as nat),
        "-smp"@,
        decimal(c.vcpu_count as nat),
        "-drive"@,
        "file="@ + c.disk_image_path@ + ",format=raw,media=disk"@,
        "-qmp"@,
        "unix:"@ + c.qmp_socket_path@ + ",server,nowait"@,
    ];
    let net = match c.host_tap_device {
        Some(tap) => seq![
            "-netdev"@,
            "tap,id=net0,ifname="@ + tap@ + ",script=no,downscript=no"@,
            "-device"@,
            "virtio-net-pci,netdev=net0"@,
        ],
        None => Seq::<Seq<char>>::empty(),
    };
    base + net + seq!["-nographic"@]
}

impl QemuHypervisor {
    /// Creates a new instance of `QemuHypervisor`.
    pub fn new(id: String, bin_path: String, log_path: String, config: QemuConfig) -> (h: Self)
        ensures
            h.id == id,
            h.bin_path == bin_path,
            h.log_path == log_path,
            h.config == config,
            h.extra_args@.len() == 0,
    {
        QemuHypervisor { id, bin_path, log_path, config, extra_args: Vec::new() }
    }

    /// The PID file: the log path with every `.log` replaced by `.pid`.
    pub fn pid_path(&self) -> (p: String)
        ensures
            p@ == replace_all(self.log_path@, ".log"@, ".pid"@),
    {
        proof {
            reveal_strlit(".log");
        }
        replace_in(self.log_path.as_str(), ".log", ".pid")
    }

    /// The QMP socket of the VM.
    pub fn get_qmp_socket_path(&self) -> (p: Option<String>)
        ensures
            p == Some(self.config.qmp_socket_path),
    {
        Some(self.config.qmp_socket_path.clone())
    }

    /// The arguments to start QEMU with: the override when one is set, else those of the
    /// configuration.
    pub fn launch_args(&self) -> (args: Vec<String>)
        ensures
            string_views(args@) == (if self.extra_args@.len() > 0 {
                string_views(self.extra_args@)
            } else {
                spec_qemu_args(self.config)
            }),
    {
        if self.extra_args.len() > 0 {
            return clone_strings(&self.extra_args);
        }
        let c = &self.config;
        let mut args: Vec<String> = Vec::new();
        args.push(String::from_str("-enable-kvm"));
        args.push(String::from_str("-cpu"));
        args.push(String::from_str("host"));
        args.push(String::from_str("-m"));
        args.push(crate::text::decimal_string(c.mem_size_mib as u64));
        args.push(String::from_str("-smp"));
        args.push(crate::text::decimal_string(c.vcpu_count as u64));
        args.push(String::from_str("-drive"));
        args.push(concat3("file=", c.disk_image_path.as_str(), ",format=raw,media=disk"));
        args.push(String::from_str("-qmp"));
        args.push(concat3("unix:", c.qmp_socket_path.as_str(), ",server,nowait"));
        let ghost base = string_views(args@);
        match &c.host_tap_device {
            Some(tap) => {
                args.push(String::from_str("-netdev"));
                args.push(concat3("tap,id=net0,ifname=", tap.as_str(), ",script=no,downscript=no"));
                args.push(String::from_str("-device"));
                args.push(String::from_str("virtio-net-pci,netdev=net0"));
            },
            None => {},
        }
        args.push(String::from_str("-nographic"));
        proof {
            assert(string_views(args@) =~= spec_qemu_args(self.config));
        }
        args
    }
}

/// Client helper for QEMU Machine Protocol (QMP) over a Unix socket.
pub struct QmpClient {
    pub socket_path: String,
}

impl QmpClient {
    /// Creates a new QMP client instance.
    pub fn new(socket_path: String) -> (c: Self)
        ensures
            c.socket_path == socket_path,
    {
        QmpClient { socket_path }
    }
}

/// The capability negotiation command.
pub fn capabilities_command() -> (s: String)
    ensures
        s@ == "{\"execute\": \"qmp_capabilities\"}\n"@,
{
    String::from_str("{\"execute\": \"qmp_capabilities\"}\n")
}

/// The capability negotiation succeeded: the reply holds `"return"`.
pub fn negotiation_succeeded(resp: &str) -> (r: bool)
    ensures
        r == contains(resp@, "\"return\""@),
{
    str_contains(resp, "\"return\"")
}

/// The reply reports an error: it holds `"error"`.
pub fn reply_has_error(resp: &str) -> (r: bool)
    ensures
        r == contains(resp@, "\"error\""@),
{
    str_contains(resp, "\"error\"")
}

/// The outcome of a command: an error reply gives `<failure><reply>`.
pub fn reply_outcome(resp: &str, failure: &str) -> (r: Result<(), String>)
    ensures
        match r {
            Ok(()) => !contains(resp@, "\"error\""@),
            Err(e) => contains(resp@, "\"error\""@) && e@ == failure@ + resp@,
        },
{
    if reply_has_error(resp) {
        let mut v = chars_of(failure);
        extend_str(&mut v, resp);
        Err(string_of(&v))
    } else {
        Ok(())
    }
}

/// The VM status that a `query-status` reply reports.
pub open spec fn spec_status_of(resp: Seq<char>) -> Seq<char> {
    if contains(resp, "\"status\":\"paused\""@) || contains(resp, "\"status\": \"paused\""@) {
        "PAUSED"@
    } else if contains(resp, "\"status\":\"running\""@) || contains(
        resp,
        "\"status\": \"running\""@,
    ) || contains(resp, "\"running\":true"@) || contains(resp, "\"running\": true"@) {
        "RUNNING"@
    } else {
        "STOPPED"@
    }
}

/// Reads the VM status from a `query-status` reply.
pub fn status_of_reply(resp: &str) -> (s: String)
    ensures
        s@ == spec_status_of(resp@),
{
    if str_contains(resp, "\"status\":\"paused\"") || str_contains(resp, "\"status\": \"paused\"") {
        String::from_str("PAUSED")
    } else if str_contains(resp, "\"status\":\"running\"") || str_contains(
        resp,
        "\"status\": \"running\"",
    ) || str_contains(resp, "\"running\":true") || str_contains(resp, "\"running\": true") {
        String::from_str("RUNNING")
    } else {
        String::from_str("STOPPED")
    }
}

/// A command without arguments: `query-status`.
pub fn query_status_command() -> (s: String)
    ensures
        s@ == "{\"execute\": \"query-status\"}\n"@,
{
    String::from_str("{\"execute\": \"query-status\"}\n")
}

/// A command without arguments: `query-migrate`.
pub fn query_migrate_command() -> (s: String)
    ensures
        s@ == "{\"execute\": \"query-migrate\"}\n"@,
{
    String::from_str("{\"execute\": \"query-migrate\"}\n")
}

/// A command without arguments: `query-block-jobs`.
pub fn query_block_jobs_command() -> (s: String)
    ensures
        s@ == "{\"execute\": \"query-block-jobs\"}\n"@,
{
    String::from_str("{\"execute\": \"query-block-jobs\"}\n")
}

/// A command without arguments: `migrate_cancel`.
pub fn migrate_cancel_command() -> (s: String)
    ensures
        s@ == "{\"execute\": \"migrate_cancel\"}\n"@,
{
    String::from_str("{\"execute\": \"migrate_cancel\"}\n")
}

/// The `migrate` command for a destination URI.
pub fn migrate_command(uri: &str) -> (s: String)
    ensures
        s@ == "{\"execute\": \"migrate\", \"arguments\": {\"uri\": \""@ + uri@ + "\"}} \n"@,
{
    concat3("{\"execute\": \"migrate\", \"arguments\": {\"uri\": \"", uri, "\"}} \n")
}

/// The `migrate-set-capabilities` command for one capability.
pub fn set_capability_command(capability: &str, state: bool) -> (s: String)
    ensures
        s@ == "{\"execute\": \"migrate-set-capabilities\", \"arguments\": {\"capabilities\": [{ \"capability\": \""@
            + capability@ + "\", \"state\": "@ + (if state {
            "true"@
        } else {
            "false"@
        }) + " }] }}\n"@,
{
    let mut v = chars_of(
        "{\"execute\": \"migrate-set-capabilities\", \"arguments\": {\"capabilities\": [{ \"capability\": \"",
    );
    extend_str(&mut v, capability);
    extend_str(&mut v, "\", \"state\": ");
    if state {
        extend_str(&mut v, "true");
    } else {
        extend_str(&mut v, "false");
    }
    extend_str(&mut v, " }] }}\n");
    string_of(&v)
}

/// The host part of a listen address: the text before the first `:`.
pub open spec fn addr_host(addr: Seq<char>) -> Seq<char> {
    split_on(addr, ':')[0]
}

/// The port part of a listen address: the text between the first and second `:`, or 10809.
pub open spec fn addr_port(addr: Seq<char>) -> Seq<char> {
    if split_on(addr, ':').len() >= 2 {
        split_on(addr, ':')[1]
    } else {
        "10809"@
    }
}

/// The `nbd-server-start` command for a listen address `host:port`.
pub fn nbd_server_start_command(addr: &str) -> (s: String)
    ensures
        s@ == "{\"execute\": \"nbd-server-start\", \"arguments\": {\"addr\": { \"type\": \"inet\", \"data\": { \"host\": \""@
            + addr_host(addr@) + "\", \"port\": \""@ + addr_port(addr@) + "\" } } } }\n"@,
{
    let av = chars_of(addr);
    let parts = chars_split(&av, ':');
    proof {
        crate::text::lemma_split_nonempty(addr@, ':');
        assert(views(parts@).len() == parts@.len());
        assert(views(parts@)[0] == parts@[0]@);
    }
    let mut v = chars_of(
        "{\"execute\": \"nbd-server-start\", \"arguments\": {\"addr\": { \"type\": \"inet\", \"data\": { \"host\": \"",
    );
    extend_chars(&mut v, &parts[0]);
    extend_str(&mut v, "\", \"port\": \"");
    if parts.len() >= 2 {
        proof {
            assert(views(parts@)[1] == parts@[1]@);
        }
        extend_chars(&mut v, &parts[1]);
    } else {
        extend_str(&mut v, "10809");
    }
    extend_str(&mut v, "\" } } } }\n");
    string_of(&v)
}

/// The `nbd-server-add` command for a device.
pub fn nbd_server_add_command(device: &str) -> (s: String)
    ensures
        s@ == "{\"execute\": \"nbd-server-add\", \"arguments\": {\"device\": \""@ + device@
            + "\", \"writable\": true } }\n"@,
{
    concat3(
        "{\"execute\": \"nbd-server-add\", \"arguments\": {\"device\": \"",
        device,
        "\", \"writable\": true } }\n",
    )
}

/// The `drive-mirror` command for a device and target.
pub fn drive_mirror_command(device: &str, target: &str) -> (s: String)
    ensures
        s@ == "{\"execute\": \"drive-mirror\", \"arguments\": {\"device\": \""@ + device@
            + "\", \"target\": \""@ + target@ + "\", \"sync\": \"full\", \"mode\": \"existing\" } }\n"@,
{
    let mut v = chars_of("{\"execute\": \"drive-mirror\", \"arguments\": {\"device\": \"");
    extend_str(&mut v, device);
    extend_str(&mut v, "\", \"target\": \"");
    extend_str(&mut v, target);
    extend_str(&mut v, "\", \"sync\": \"full\", \"mode\": \"existing\" } }\n");
    string_of(&v)
}

/// The `block-job-complete` command for a device.
pub fn block_job_complete_command(device: &str) -> (s: String)
    ensures
        s@ == "{\"execute\": \"block-job-complete\", \"arguments\": {\"device\": \""@ + device@
            + "\" } }\n"@,
{
    concat3(
        "{\"execute\": \"block-job-complete\", \"arguments\": {\"device\": \"",
        device,
        "\" } }\n",
    )
}

/// The `migrate-set-parameters` command for a bandwidth limit.
pub fn set_max_bandwidth_command(max_bandwidth: u64) -> (s: String)
    ensures
        s@ == "{\"execute\": \"migrate-set-parameters\", \"arguments\": {\"max-bandwidth\": "@
            + decimal(max_bandwidth as nat) + " } }\n"@,
{
    let mut v = chars_of("{\"execute\": \"migrate-set-parameters\", \"arguments\": {\"max-bandwidth\": ");
    push_decimal(&mut v, max_bandwidth);
    extend_str(&mut v, " } }\n");
    string_of(&v)
}

/// A QMP command that changes the VM's migration or block state.
#[derive(Debug)]
pub enum QmpCall {
    /// `migrate-set-parameters` with a bandwidth limit.
    SetMaxBandwidth(u64),
    /// `migrate-set-capabilities` for one capability and state.
    SetCapability(String, bool),
    /// `nbd-server-start` on a listen address.
    NbdServerStart(String),
    /// `nbd-server-add` for a device.
    NbdServerAdd(String),
    /// `drive-mirror` of a device to a target.
    DriveMirror(String, String),
    /// `migrate` to a destination URI.
    Migrate(String),
    /// `block-job-complete` for a device.
    BlockJobComplete(String),
    /// `migrate_cancel`.
    MigrateCancel,
}

/// A QMP command with its arguments taken as text.
pub enum QmpCallView {
    SetMaxBandwidth(u64),
    SetCapability(Seq<char>, bool),
    NbdServerStart(Seq<char>),
    NbdServerAdd(Seq<char>),
    DriveMirror(Seq<char>, Seq<char>),
    Migrate(Seq<char>),
    BlockJobComplete(Seq<char>),
    MigrateCancel,
}

impl View for QmpCall {
    type V = QmpCallView;

    open spec fn view(&self) -> QmpCallView {
        match self {
            QmpCall::SetMaxBandwidth(b) => QmpCallView::SetMaxBandwidth(*b),
            QmpCall::SetCapability(c, s) => QmpCallView::SetCapability(c@, *s),
            QmpCall::NbdServerStart(a) => QmpCallView::NbdServerStart(a@),
            QmpCall::NbdServerAdd(d) => QmpCallView::NbdServerAdd(d@),
            QmpCall::DriveMirror(d, t) => QmpCallView::DriveMirror(d@, t@),
            QmpCall::Migrate(u) => QmpCallView::Migrate(u@),
            QmpCall::BlockJobComplete(d) => QmpCallView::BlockJobComplete(d@),
            QmpCall::MigrateCancel => QmpCallView::MigrateCancel,
        }
    }
}

/// The line sent for a QMP command.
pub open spec fn spec_call_command(c: QmpCallView) -> Seq<char> {
    match c {
        QmpCallView::SetMaxBandwidth(b) => "{\"execute\": \"migrate-set-parameters\", \"arguments\": {\"max-bandwidth\": "@
            + decimal(b as nat) + " } }\n"@,
        QmpCallView::SetCapability(cap, state) => "{\"execute\": \"migrate-set-capabilities\", \"arguments\": {\"capabilities\": [{ \"capability\": \""@
            + cap + "\", \"state\": "@ + (if state {
            "true"@
        } else {
            "false"@
        }) + " }] }}\n"@,
        QmpCallView::NbdServerStart(addr) => "{\"execute\": \"nbd-server-start\", \"arguments\": {\"addr\": { \"type\": \"inet\", \"data\": { \"host\": \""@
            + addr_host(addr) + "\", \"port\": \""@ + addr_port(addr) + "\" } } } }\n"@,
        QmpCallView::NbdServerAdd(device) => "{\"execute\": \"nbd-server-add\", \"arguments\": {\"device\": \""@
            + device + "\", \"writable\": true } }\n"@,
        QmpCallView::DriveMirror(device, target) => "{\"execute\": \"drive-mirror\", \"arguments\": {\"device\": \""@
            + device + "\", \"target\": \""@ + target
            + "\", \"sync\": \"full\", \"mode\": \"existing\" } }\n"@,
        QmpCallView::Migrate(uri) => "{\"execute\": \"migrate\", \"arguments\": {\"uri\": \""@ + uri
            + "\"}} \n"@,
        QmpCallView::BlockJobComplete(device) => "{\"execute\": \"block-job-complete\", \"arguments\": {\"device\": \""@
            + device + "\" } }\n"@,
        QmpCallView::MigrateCancel => "{\"execute\": \"migrate_cancel\"}\n"@,
    }
}

/// The text that an error reply to a QMP command is reported after.
pub open spec fn spec_call_failure(c: QmpCallView) -> Seq<char> {
    match c {
        QmpCallView::SetMaxBandwidth(_) => "Failed to set migration parameters: "@,
        QmpCallView::SetCapability(_, _) => "Failed to set migration capability: "@,
        QmpCallView::NbdServerStart(_) => "NBD server start failed: "@,
        QmpCallView::NbdServerAdd(_) => "NBD server add failed: "@,
        QmpCallView::DriveMirror(_, _) => "Drive mirror failed: "@,
        QmpCallView::Migrate(_) => "Migration failed: "@,
        QmpCallView::BlockJobComplete(_) => "Block job complete failed: "@,
        QmpCallView::MigrateCancel => "Migrate cancel failed: "@,
    }
}

impl QmpCall {
    /// The line to send for this command.
    pub fn command(&self) -> (s: String)
        ensures
            s@ == spec_call_command(self@),
    {
        match self {
            QmpCall::SetMaxBandwidth(b) => set_max_bandwidth_command(*b),
            QmpCall::SetCapability(c, st) => set_capability_command(c.as_str(), *st),
            QmpCall::NbdServerStart(a) => nbd_server_start_command(a.as_str()),
            QmpCall::NbdServerAdd(d) => nbd_server_add_command(d.as_str()),
            QmpCall::DriveMirror(d, t) => drive_mirror_command(d.as_str(), t.as_str()),
            QmpCall::Migrate(u) => migrate_command(u.as_str()),
            QmpCall::BlockJobComplete(d) => block_job_complete_command(d.as_str()),
            QmpCall::MigrateCancel => migrate_cancel_command(),
        }
    }

    /// The outcome of this command given QEMU's reply: an error reply is reported after
    /// the command's failure text.
    pub fn outcome(&self, resp: &str) -> (r: Result<(), String>)
        ensures
            match r {
                Ok(()) => !contains(resp@, "\"error\""@),
                Err(e) => contains(resp@, "\"error\""@) && e@ == spec_call_failure(self@) + resp@,
            },
    {
        let failure = match self {
            QmpCall::SetMaxBandwidth(_) => "Failed to set migration parameters: ",
            QmpCall::SetCapability(_, _) => "Failed to set migration capability: ",
            QmpCall::NbdServerStart(_) => "NBD server start failed: ",
            QmpCall::NbdServerAdd(_) => "NBD server add failed: ",
            QmpCall::DriveMirror(_, _) => "Drive mirror failed: ",
            QmpCall::Migrate(_) => "Migration failed: ",
            QmpCall::BlockJobComplete(_) => "Block job complete failed: ",
            QmpCall::MigrateCancel => "Migrate cancel failed: ",
        };
        reply_outcome(resp, failure)
    }
}

/// For every configuration, QEMU gets KVM with the host CPU, `-m` followed by the memory
/// in MiB and `-smp` followed by the vCPU count, the disk image as a raw drive and the QMP
/// socket as a server; a TAP device adds a virtio NIC on it; the arguments end with
/// `-nographic`.
pub proof fn lemma_qemu_args(c: QemuConfig)
    ensures
        ({
            let a = spec_qemu_args(c);
            &&& a.len() == if c.host_tap_device is Some { 16int } else { 12int }
            &&& a[0] == "-enable-kvm"@ && a[1] == "-cpu"@ && a[2] == "host"@
            &&& a[3] == "-m"@ && a[4] == decimal(c.mem_size_mib as nat)
            &&& a[5] == "-smp"@ && a[6] == decimal(c.vcpu_count as nat)
            &&& a[7] == "-drive"@ && a[8] == "file="@ + c.disk_image_path@ + ",format=raw,media=disk"@
            &&& a[9] == "-qmp"@ && a[10] == "unix:"@ + c.qmp_socket_path@ + ",server,nowait"@
            &&& a[a.len() - 1] == "-nographic"@
            &&& match c.host_tap_device {
                Some(tap) => a[11] == "-netdev"@ && a[12] == "tap,id=net0,ifname="@ + tap@
                    + ",script=no,downscript=no"@ && a[13] == "-device"@ && a[14]
                    == "virtio-net-pci,netdev=net0"@,
                None => true,
            }
        }),
{
}

/// Every QMP command carries its arguments under their own keys: the bandwidth under
/// `max-bandwidth`, the capability with its state, the NBD host and port, the device
/// (and for a mirror the target after it), the migration URI under `uri`.
pub proof fn lemma_call_arguments(c: QmpCallView)
    ensures
        match c {
            QmpCallView::SetMaxBandwidth(b) => contains(
                spec_call_command(c),
                "\"max-bandwidth\": "@ + decimal(b as nat) + " }"@,
            ),
            QmpCallView::SetCapability(cap, state) => contains(
                spec_call_command(c),
                "\"capability\": \""@ + cap + "\", \"state\": "@ + (if state { "true"@ } else { "false"@ }) + " }"@,
            ),
            QmpCallView::NbdServerStart(addr) => contains(
                spec_call_command(c),
                "\"host\": \""@ + addr_host(addr) + "\", \"port\": \""@ + addr_port(addr) + "\" }"@,
            ),
            QmpCallView::NbdServerAdd(device) => contains(
                spec_call_command(c),
                "\"device\": \""@ + device + "\", \"writable\": true }"@,
            ),
            QmpCallView::DriveMirror(device, target) => contains(
                spec_call_command(c),
                "\"device\": \""@ + device + "\", \"target\": \""@ + target + "\", \"sync\": \"full\""@,
            ),
            QmpCallView::Migrate(uri) => contains(
                spec_call_command(c),
                "\"uri\": \""@ + uri + "\"}"@,
            ),
            QmpCallView::BlockJobComplete(device) => contains(
                spec_call_command(c),
                "\"device\": \""@ + device + "\" }"@,
            ),
            QmpCallView::MigrateCancel => true,
        },
{
    reveal_strlit(" } } }\n");
    reveal_strlit(" } }\n");
    reveal_strlit(" }");
    reveal_strlit(" }\n");
    reveal_strlit(" }] }}\n");
    reveal_strlit(", \"mode\": \"existing\" } }\n");
    reveal_strlit("\" } } } }\n");
    reveal_strlit("\" } }\n");
    reveal_strlit("\" }");
    reveal_strlit("\", \"port\": \"");
    reveal_strlit("\", \"state\": ");
    reveal_strlit("\", \"sync\": \"full\"");
    reveal_strlit("\", \"sync\": \"full\", \"mode\": \"existing\" } }\n");
    reveal_strlit("\", \"target\": \"");
    reveal_strlit("\", \"writable\": true } }\n");
    reveal_strlit("\", \"writable\": true }");
    reveal_strlit("\"capability\": \"");
    reveal_strlit("\"device\": \"");
    reveal_strlit("\"host\": \"");
    reveal_strlit("\"max-bandwidth\": ");
    reveal_strlit("\"uri\": \"");
    reveal_strlit("\"}");
    reveal_strlit("\"}} \n");
    reveal_strlit("] }}\n");
    reveal_strlit("{\"execute\": \"block-job-complete\", \"arguments\": {");
    reveal_strlit("{\"execute\": \"block-job-complete\", \"arguments\": {\"device\": \"");
    reveal_strlit("{\"execute\": \"drive-mirror\", \"arguments\": {");
    reveal_strlit("{\"execute\": \"drive-mirror\", \"arguments\": {\"device\": \"");
    reveal_strlit("{\"execute\": \"migrate-set-capabilities\", \"arguments\": {\"capabilities\": [{ ");
    reveal_strlit("{\"execute\": \"migrate-set-capabilities\", \"arguments\": {\"capabilities\": [{ \"capability\": \"");
    reveal_strlit("{\"execute\": \"migrate-set-parameters\", \"arguments\": {");
    reveal_strlit("{\"execute\": \"migrate-set-parameters\", \"arguments\": {\"max-bandwidth\": ");
    reveal_strlit("{\"execute\": \"migrate\", \"arguments\": {");
    reveal_strlit("{\"execute\": \"migrate\", \"arguments\": {\"uri\": \"");
    reveal_strlit("{\"execute\": \"nbd-server-add\", \"arguments\": {");
    reveal_strlit("{\"execute\": \"nbd-server-add\", \"arguments\": {\"device\": \"");
    reveal_strlit("{\"execute\": \"nbd-server-start\", \"arguments\": {\"addr\": { \"type\": \"inet\", \"data\": { ");
    reveal_strlit("{\"execute\": \"nbd-server-start\", \"arguments\": {\"addr\": { \"type\": \"inet\", \"data\": { \"host\": \"");
    reveal_strlit("} \n");
    reveal_strlit("true");
    reveal_strlit("false");
    match c {
        QmpCallView::SetMaxBandwidth(b) => {
            assert(spec_call_command(c) =~= "{\"execute\": \"migrate-set-parameters\", \"arguments\": {"@ + ("\"max-bandwidth\": "@ + decimal(b as nat) + " }"@) + " }\n"@);
            lemma_contains_middle("{\"execute\": \"migrate-set-parameters\", \"arguments\": {"@, "\"max-bandwidth\": "@ + decimal(b as nat) + " }"@, " }\n"@);
        },
        QmpCallView::SetCapability(cap, state) => {
            assert(spec_call_command(c) =~= "{\"execute\": \"migrate-set-capabilities\", \"arguments\": {\"capabilities\": [{ "@ + ("\"capability\": \""@ + cap + "\", \"state\": "@ + (if state { "true"@ } else { "false"@ }) + " }"@) + "] }}\n"@);
            lemma_contains_middle("{\"execute\": \"migrate-set-capabilities\", \"arguments\": {\"capabilities\": [{ "@, "\"capability\": \""@ + cap + "\", \"state\": "@ + (if state { "true"@ } else { "false"@ }) + " }"@, "] }}\n"@);
        },
        QmpCallView::NbdServerStart(addr) => {
            assert(spec_call_command(c) =~= "{\"execute\": \"nbd-server-start\", \"arguments\": {\"addr\": { \"type\": \"inet\", \"data\": { "@ + ("\"host\": \""@ + addr_host(addr) + "\", \"port\": \""@ + addr_port(addr) + "\" }"@) + " } } }\n"@);
            lemma_contains_middle("{\"execute\": \"nbd-server-start\", \"arguments\": {\"addr\": { \"type\": \"inet\", \"data\": { "@, "\"host\": \""@ + addr_host(addr) + "\", \"port\": \""@ + addr_port(addr) + "\" }"@, " } } }\n"@);
        },
        QmpCallView::NbdServerAdd(device) => {
            assert(spec_call_command(c) =~= "{\"execute\": \"nbd-server-add\", \"arguments\": {"@ + ("\"device\": \""@ + device + "\", \"writable\": true }"@) + " }\n"@);
            lemma_contains_middle("{\"execute\": \"nbd-server-add\", \"arguments\": {"@, "\"device\": \""@ + device + "\", \"writable\": true }"@, " }\n"@);
        },
        QmpCallView::DriveMirror(device, target) => {
            assert(spec_call_command(c) =~= "{\"execute\": \"drive-mirror\", \"arguments\": {"@ + ("\"device\": \""@ + device + "\", \"target\": \""@ + target + "\", \"sync\": \"full\""@) + ", \"mode\": \"existing\" } }\n"@);
            lemma_contains_middle("{\"execute\": \"drive-mirror\", \"arguments\": {"@, "\"device\": \""@ + device + "\", \"target\": \""@ + target + "\", \"sync\": \"full\""@, ", \"mode\": \"existing\" } }\n"@);
        },
        QmpCallView::Migrate(uri) => {
            assert(spec_call_command(c) =~= "{\"execute\": \"migrate\", \"arguments\": {"@ + ("\"uri\": \""@ + uri + "\"}"@) + "} \n"@);
            lemma_contains_middle("{\"execute\": \"migrate\", \"arguments\": {"@, "\"uri\": \""@ + uri + "\"}"@, "} \n"@);
        },
        QmpCallView::BlockJobComplete(device) => {
            assert(spec_call_command(c) =~= "{\"execute\": \"block-job-complete\", \"arguments\": {"@ + ("\"device\": \""@ + device + "\" }"@) + " }\n"@);
            lemma_contains_middle("{\"execute\": \"block-job-complete\", \"arguments\": {"@, "\"device\": \""@ + device + "\" }"@, " }\n"@);
        },
        QmpCallView::MigrateCancel => {},
    }
}

/// A listen address `host:port` gives the NBD server that host and that port.
pub proof fn lemma_listen_addr_parts(host: Seq<char>, port: Seq<char>)
    requires
        lacks(host, ':'),
        lacks(port, ':'),
    ensures
        addr_host(host + seq![':'] + port) == host,
        addr_port(host + seq![':'] + port) == port,
{
    lemma_split_join(host, ':', port);
    lemma_split_single(port, ':');
    assert(seq![host] + seq![port] =~= seq![host, port]);
}

} // verus!
