//! Live migration of QEMU virtual machines between nodes.
use vstd::prelude::*;

use crate::hypervisor::qemu::{QmpCall, QmpCallView};
use crate::migration::converge::{auto_converge, auto_converge_call};
use crate::migration::socket::{get_migration_uri, spec_migration_uri, MigrationSocketManager};
use crate::strmap::StrMap;
use vstd::string::{StrSliceExecFns, StringSliceAdditionalSpecFns};
use crate::text::{chars_of, concat2, concat3, decimal, extend_str, push_decimal, str_eq, string_of};

pub mod block;
pub mod converge;
pub mod memory;
pub mod socket;

verus! {

/// Current state of a migration operation.
#[derive(Debug, Clone, PartialEq)]
pub enum MigrationState {
    /// No migration active.
    Idle,
    /// Preparing destination resources (ZVOLs, sockets).
    Preparing,
    /// Destination is listening for incoming data.
    Listening,
    /// Data transfer in progress.
    Active,
    /// Migration completed successfully.
    Completed,
    /// Migration failed.
    Failed(String),
    /// Migration cancelled by user.
    Cancelled,
}

/// Parameters for a migration request.
#[derive(Debug, Clone)]
pub struct MigrationParams {
    /// Destination node ID.
    pub destination_node: String,
    /// Destination IP address for the migration socket.
    pub destination_ip: String,
    /// Port for the migration socket.
    pub port: u16,
    /// Whether to enable TLS.
    pub use_tls: bool,
    /// Maximum bandwidth in bits per second.
    pub max_bandwidth: u64,
}

/// The `return.status` string of a QMP reply read as JSON: `None` when the reply is not
/// JSON, `Some(None)` when it has no such string.
pub uninterp spec fn spec_qmp_return_status(resp: Seq<char>) -> Option<Option<Seq<char>>>;

/// The view of a status read from a reply.
pub open spec fn status_view(r: Option<Option<String>>) -> Option<Option<Seq<char>>> {
    match r {
        None => None,
        Some(None) => Some(None),
        Some(Some(s)) => Some(Some(s@)),
    }
}

/// Reads `return.status` from a QMP reply with `serde_json`.
#[verifier::external_body]
pub(crate) fn qmp_return_status(resp: &str) -> (r: Option<Option<String>>)
    ensures
        status_view(r) == spec_qmp_return_status(resp@),
{
    let json: serde_json::Value = match serde_json::from_str(resp) {
        Ok(v) => v,
        Err(_) => return None,
    };
    let status = match json.get("return") {
        Some(ret) => ret.get("status"),
        None => None,
    };
    match status {
        Some(s) => Some(s.as_str().map(String::from)),
        None => Some(None),
    }
}

/// The migration state that a `query-migrate` reply with the given status reports.
pub open spec fn reports_state(st: MigrationState, resp: Seq<char>, status: Option<Seq<char>>) -> bool {
    if status == Some("completed"@) {
        st is Completed
    } else if status == Some("active"@) {
        st is Active
    } else if status == Some("failed"@) {
        st matches MigrationState::Failed(e) && e@ == resp
    } else {
        st is Idle
    }
}

/// The migration state for the status read from a `query-migrate` reply.
pub fn migration_state_for_status(resp: &str, status: Option<&str>) -> (st: MigrationState)
    ensures
        reports_state(st, resp@, match status {
            Some(s) => Some(s@),
            None => None,
        }),
{
    match status {
        None => MigrationState::Idle,
        Some(s) => {
            if str_eq(s, "completed") {
                MigrationState::Completed
            } else if str_eq(s, "active") {
                MigrationState::Active
            } else if str_eq(s, "failed") {
                MigrationState::Failed(resp.to_owned())
            } else {
                MigrationState::Idle
            }
        },
    }
}

/// The migration state that a `query-migrate` reply reports, the reply read as JSON.
pub fn migration_state_of_reply(resp: &str) -> (r: Result<MigrationState, String>)
    ensures
        match spec_qmp_return_status(resp@) {
            None => r matches Err(e) && e@ == "Failed to parse QMP migration response: "@ + resp@,
            Some(status) => r matches Ok(st) && reports_state(st, resp@, status),
        },
{
    match qmp_return_status(resp) {
        None => Err(concat2("Failed to parse QMP migration response: ", resp)),
        Some(None) => Ok(migration_state_for_status(resp, None)),
        Some(Some(s)) => Ok(migration_state_for_status(resp, Some(s.as_str()))),
    }
}

/// The error for a VM that is not registered.
pub open spec fn not_found(vm_id: Seq<char>) -> Seq<char> {
    "VM "@ + vm_id + " not found"@
}

/// Tracks the VMs that can migrate, with their QMP sockets, and the migration secret.
pub struct RealMigrationManager {
    /// Bind address for incoming migrations.
    pub bind_addr: String,
    /// HMAC secret for validating attestation tokens from source nodes.
    pub attestation_secret: Vec<u8>,
    /// Path to CA certificate PEM for mTLS (empty for plain TCP).
    pub ca_cert_path: String,
    /// Path to server certificate PEM for mTLS (empty for plain TCP).
    pub server_cert_path: String,
    /// Path to server private key PEM for mTLS (empty for plain TCP).
    pub server_key_path: String,
    /// Map of VM ID to QMP socket path.
    pub qmp_sockets: StrMap<String>,
    /// Tracks VMs currently undergoing migration.
    pub active_migrations: StrMap<()>,
}

impl RealMigrationManager {
    /// The QMP socket of each registered VM.
    pub open spec fn sockets(&self) -> Map<Seq<char>, Seq<char>> {
        self.qmp_sockets@.map_values(|s: String| s@)
    }

    /// The VMs tracked as migrating.
    pub open spec fn active(&self) -> Set<Seq<char>> {
        self.active_migrations@.dom()
    }

    /// The tables are well formed.
    pub open spec fn wf(&self) -> bool {
        self.qmp_sockets.wf() && self.active_migrations.wf()
    }

    /// Creates a manager with the default migration secret.
    pub fn new(bind_addr: String) -> (m: Self)
        ensures
            m.wf(),
            m.bind_addr == bind_addr,
            m.attestation_secret@ == "aether-migration-secret".spec_bytes(),
            m.ca_cert_path@ == Seq::<char>::empty(),
            m.server_cert_path@ == Seq::<char>::empty(),
            m.server_key_path@ == Seq::<char>::empty(),
            m.sockets() == Map::<Seq<char>, Seq<char>>::empty(),
            m.active() == Set::<Seq<char>>::empty(),
    {
        RealMigrationManager::new_with_defaults(bind_addr, "aether-migration-secret".as_bytes_vec())
    }

    /// Creates a manager with the given secret and no TLS material.
    pub fn new_with_defaults(bind_addr: String, attestation_secret: Vec<u8>) -> (m: Self)
        ensures
            m.wf(),
            m.bind_addr == bind_addr,
            m.attestation_secret == attestation_secret,
            m.ca_cert_path@ == Seq::<char>::empty(),
            m.server_cert_path@ == Seq::<char>::empty(),
            m.server_key_path@ == Seq::<char>::empty(),
            m.sockets() == Map::<Seq<char>, Seq<char>>::empty(),
            m.active() == Set::<Seq<char>>::empty(),
    {
        RealMigrationManager::new_full(
            bind_addr,
            attestation_secret,
            String::new(),
            String::new(),
            String::new(),
        )
    }

    /// Creates a manager with the given secret and TLS material.
    pub fn new_full(
        bind_addr: String,
        attestation_secret: Vec<u8>,
        ca_cert_path: String,
        server_cert_path: String,
        server_key_path: String,
    ) -> (m: Self)
        ensures
            m.wf(),
            m.bind_addr == bind_addr,
            m.attestation_secret == attestation_secret,
            m.ca_cert_path == ca_cert_path,
            m.server_cert_path == server_cert_path,
            m.server_key_path == server_key_path,
            m.sockets() == Map::<Seq<char>, Seq<char>>::empty(),
            m.active() == Set::<Seq<char>>::empty(),
    {
        let m = RealMigrationManager {
            bind_addr,
            attestation_secret,
            ca_cert_path,
            server_cert_path,
            server_key_path,
            qmp_sockets: StrMap::new(),
            active_migrations: StrMap::new(),
        };
        proof {
            assert(m.sockets() =~= Map::<Seq<char>, Seq<char>>::empty());
            assert(m.active() =~= Set::<Seq<char>>::empty());
        }
        m
    }

    /// Creates a manager with the given secret (for tests).
    pub fn new_with_secret(bind_addr: String, secret: Vec<u8>) -> (m: Self)
        ensures
            m.wf(),
            m.bind_addr == bind_addr,
            m.attestation_secret == secret,
            m.ca_cert_path@ == Seq::<char>::empty(),
            m.server_cert_path@ == Seq::<char>::empty(),
            m.server_key_path@ == Seq::<char>::empty(),
            m.sockets() == Map::<Seq<char>, Seq<char>>::empty(),
            m.active() == Set::<Seq<char>>::empty(),
    {
        RealMigrationManager::new_with_defaults(bind_addr, secret)
    }

    /// Registers a VM with its QMP socket (replacing an earlier registration) and tracks it.
    pub fn register_vm(&mut self, vm_id: &str, qmp_socket: &str) -> (r: Result<(), String>)
        requires
            old(self).wf(),
        ensures
            final(self).wf(),
            r is Ok,
            final(self).sockets() == old(self).sockets().insert(vm_id@, qmp_socket@),
            final(self).active() == old(self).active().insert(vm_id@),
            final(self).bind_addr == old(self).bind_addr,
            final(self).attestation_secret == old(self).attestation_secret,
            final(self).ca_cert_path == old(self).ca_cert_path,
            final(self).server_cert_path == old(self).server_cert_path,
            final(self).server_key_path == old(self).server_key_path,
    {
        let ghost s0 = self.qmp_sockets@;
        self.qmp_sockets.insert(vm_id.to_owned(), qmp_socket.to_owned());
        self.active_migrations.insert(vm_id.to_owned(), ());
        proof {
            assert(self.sockets() =~= old(self).sockets().insert(vm_id@, qmp_socket@));
            assert(self.active() =~= old(self).active().insert(vm_id@));
        }
        Ok(())
    }

    /// Unregisters a VM; unknown VMs are ignored.
    pub fn unregister_vm(&mut self, vm_id: &str) -> (r: Result<(), String>)
        requires
            old(self).wf(),
        ensures
            final(self).wf(),
            r is Ok,
            final(self).sockets() == old(self).sockets().remove(vm_id@),
            final(self).active() == old(self).active().remove(vm_id@),
            final(self).bind_addr == old(self).bind_addr,
            final(self).attestation_secret == old(self).attestation_secret,
            final(self).ca_cert_path == old(self).ca_cert_path,
            final(self).server_cert_path == old(self).server_cert_path,
            final(self).server_key_path == old(self).server_key_path,
    {
        self.qmp_sockets.remove(vm_id);
        self.active_migrations.remove(vm_id);
        proof {
            assert(self.sockets() =~= old(self).sockets().remove(vm_id@));
            assert(self.active() =~= old(self).active().remove(vm_id@));
        }
        Ok(())
    }

    /// The QMP socket of a registered VM.
    pub fn qmp_socket_for(&self, vm_id: &str) -> (r: Result<String, String>)
        requires
            self.wf(),
        ensures
            match r {
                Ok(s) => self.sockets().contains_key(vm_id@) && s@ == self.sockets()[vm_id@],
                Err(e) => !self.sockets().contains_key(vm_id@) && e@ == not_found(vm_id@),
            },
    {
        match self.qmp_sockets.get(vm_id) {
            Some(s) => Ok(s.clone()),
            None => Err(concat3("VM ", vm_id, " not found")),
        }
    }

    /// Returns the number of VMs tracked as migrating.
    pub fn get_active_migration_count(&self) -> (n: u32)
        requires
            self.wf(),
        ensures
            self.active().finite(),
            n == self.active().len() as u32,
    {
        let k = self.active_migrations.len();
        k as u32
    }

    /// Returns the VMs tracked as migrating, each once.
    pub fn get_active_migrations(&self) -> (v: Vec<String>)
        requires
            self.wf(),
        ensures
            forall|i: int| 0 <= i < v@.len() ==> self.active().contains(#[trigger] v@[i]@),
            forall|k: Seq<char>| self.active().contains(k) ==> exists|i: int|
                0 <= i < v@.len() && #[trigger] v@[i]@ == k,
            forall|i: int, j: int| 0 <= i < j < v@.len() ==> v@[i]@ != v@[j]@,
    {
        let n = self.active_migrations.len();
        let mut v: Vec<String> = Vec::new();
        let mut i: usize = 0;
        while i < n
            invariant
                i <= n,
                n == self.active_migrations.entries().len(),
                self.wf(),
                v@.len() == i,
                forall|j: int| 0 <= j < i ==> v@[j]@ == self.active_migrations.entries()[j].0,
            decreases n - i,
        {
            v.push(self.active_migrations.key_at(i).clone());
            i = i + 1;
        }
        proof {
            let es = self.active_migrations.entries();
            assert forall|j: int| 0 <= j < v@.len() implies self.active().contains(
                #[trigger] v@[j]@,
            ) by {
                crate::strmap::lemma_entries_lookup(es, j);
            }
            assert forall|k: Seq<char>| self.active().contains(k) implies exists|j: int|
                0 <= j < v@.len() && #[trigger] v@[j]@ == k by {
                if forall|j: int| 0 <= j < v@.len() ==> v@[j]@ != k {
                    assert forall|j: int| 0 <= j < es.len() implies es[j].0 != k by {
                        assert(v@[j]@ == es[j].0);
                    }
                    crate::strmap::lemma_entries_absent(es, k);
                }
            }
        }
        v
    }

    /// Stops tracking a VM whose migration was cancelled.
    pub fn record_abort(&mut self, vm_id: &str)
        requires
            old(self).wf(),
        ensures
            final(self).wf(),
            final(self).sockets() == old(self).sockets(),
            final(self).active() == old(self).active().remove(vm_id@),
            final(self).bind_addr == old(self).bind_addr,
            final(self).attestation_secret == old(self).attestation_secret,
            final(self).ca_cert_path == old(self).ca_cert_path,
            final(self).server_cert_path == old(self).server_cert_path,
            final(self).server_key_path == old(self).server_key_path,
    {
        self.active_migrations.remove(vm_id);
        proof {
            assert(self.active() =~= old(self).active().remove(vm_id@));
        }
    }

    /// The socket manager for incoming migrations, with this manager's address, secret
    /// and TLS material.
    pub fn socket_manager(&self) -> (s: MigrationSocketManager)
        ensures
            s.bind_addr == self.bind_addr,
            s.attestation_secret@ == self.attestation_secret@,
            s.ca_cert_path == self.ca_cert_path,
            s.server_cert_path == self.server_cert_path,
            s.server_key_path == self.server_key_path,
    {
        MigrationSocketManager::new(
            self.bind_addr.clone(),
            self.attestation_secret.clone(),
            self.ca_cert_path.clone(),
            self.server_cert_path.clone(),
            self.server_key_path.clone(),
        )
    }

    /// The TLS material is complete: all three certificate paths are set.
    pub open spec fn tls_material_set(&self) -> bool {
        self.ca_cert_path@.len() > 0 && self.server_cert_path@.len() > 0
            && self.server_key_path@.len() > 0
    }

    /// No TLS material is configured: all three certificate paths are empty (plain TCP).
    pub open spec fn no_tls_material(&self) -> bool {
        self.ca_cert_path@.len() == 0 && self.server_cert_path@.len() == 0
            && self.server_key_path@.len() == 0
    }

    /// The checks that precede preparing an incoming migration, and how to listen. The VM
    /// must be registered. Empty certificate paths mean plain TCP, so a TLS request is
    /// served by a TLS listener when all three paths are set and by a plain listener
    /// when none is (the stream's TLS is then QEMU's own); a TLS request with only some
    /// paths set is refused. Gives the VM's QMP socket and whether to listen with TLS.
    pub fn prepare_incoming_socket(&self, vm_id: &str, use_tls: bool) -> (r: Result<
        (String, bool),
        String,
    >)
        requires
            self.wf(),
        ensures
            !self.sockets().contains_key(vm_id@) ==> (r matches Err(e) && e@ == not_found(vm_id@)),
            self.sockets().contains_key(vm_id@) ==> (r is Err <==> (use_tls
                && !self.tls_material_set() && !self.no_tls_material())),
            self.sockets().contains_key(vm_id@) && r is Err ==> (r matches Err(e) && e@
                == "TLS requested but CA cert, server cert, and server key paths are empty"@),
            r matches Ok((s, tls)) ==> s@ == self.sockets()[vm_id@] && tls == (use_tls
                && self.tls_material_set()),
    {
        let s = self.qmp_socket_for(vm_id)?;
        if !use_tls {
            return Ok((s, false));
        }
        let ca_empty = self.ca_cert_path.as_str().is_empty();
        let cert_empty = self.server_cert_path.as_str().is_empty();
        let key_empty = self.server_key_path.as_str().is_empty();
        if !ca_empty && !cert_empty && !key_empty {
            Ok((s, true))
        } else if ca_empty && cert_empty && key_empty {
            Ok((s, false))
        } else {
            Err(
                String::from_str(
                    "TLS requested but CA cert, server cert, and server key paths are empty",
                ),
            )
        }
    }
}

/// The address the destination's NBD server listens on: `127.0.0.1:port`.
pub fn nbd_listen_addr(port: u16) -> (a: String)
    ensures
        a@ == "127.0.0.1:"@ + decimal(port as nat),
{
    let mut v = chars_of("127.0.0.1:");
    push_decimal(&mut v, port as u64);
    string_of(&v)
}

/// The stage a migration start has reached: the command awaiting its outcome.
#[derive(Debug, Clone, Copy, PartialEq, Eq, Structural)]
pub enum StartStage {
    /// Setting the bandwidth limit.
    Bandwidth,
    /// Enabling auto-converge.
    EnableConverge,
    /// Starting the drive mirror.
    Mirror,
    /// Starting the memory migration.
    Memory,
    /// Disabling auto-converge after the mirror failed.
    UndoConvergeAfterMirror,
    /// Disabling auto-converge after the memory migration failed.
    UndoConvergeAfterMemory,
    /// Completing the block job after the memory migration failed.
    CompleteBlockJob,
    /// Done: the outcome was given.
    Finished,
}

/// What to do next in a migration start.
#[derive(Debug)]
pub enum StartAction {
    /// Run a QMP command and report its outcome.
    Call(QmpCall),
    /// The start is over, with this outcome.
    Finish(Result<(), String>),
}

/// A next step, with text taken as sequences.
pub enum StartActionView {
    Call(QmpCallView),
    Finish(Result<(), Seq<char>>),
}

impl View for StartAction {
    type V = StartActionView;

    open spec fn view(&self) -> StartActionView {
        match self {
            StartAction::Call(c) => StartActionView::Call(c@),
            StartAction::Finish(Ok(())) => StartActionView::Finish(Ok(())),
            StartAction::Finish(Err(e)) => StartActionView::Finish(Err(e@)),
        }
    }
}

/// A migration start in progress, as text.
pub struct StartView {
    pub stage: StartStage,
    pub uri: Seq<char>,
    pub nbd_uri: Seq<char>,
    pub error: Seq<char>,
}

/// A migration start in progress on the source node: bandwidth limit, auto-converge,
/// drive mirror, memory migration, with the rollback that a failure calls for.
pub struct MigrationStart {
    /// The command awaiting its outcome.
    pub stage: StartStage,
    /// The memory migration URI.
    pub uri: String,
    /// The NBD target of the drive mirror.
    pub nbd_uri: String,
    /// The error reported once the rollback is done.
    pub error: String,
}

impl View for MigrationStart {
    type V = StartView;

    open spec fn view(&self) -> StartView {
        StartView { stage: self.stage, uri: self.uri@, nbd_uri: self.nbd_uri@, error: self.error@ }
    }
}

/// The view of a command's outcome.
pub open spec fn outcome_view(o: Result<(), String>) -> Result<(), Seq<char>> {
    match o {
        Ok(()) => Ok(()),
        Err(e) => Err(e@),
    }
}

/// The device mirrored during migration.
pub open spec fn root_drive() -> Seq<char> {
    "drive-root"@
}

/// The NBD target for a migration: `nbd:ip:port`.
pub open spec fn spec_nbd_uri(ip: Seq<char>, port: u16) -> Seq<char> {
    "nbd:"@ + ip + seq![':'] + decimal(port as nat)
}

/// The state after a stage, keeping the URIs and the error.
pub open spec fn at_stage(s: StartView, stage: StartStage, error: Seq<char>) -> StartView {
    StartView { stage, uri: s.uri, nbd_uri: s.nbd_uri, error }
}

/// How a migration start begins.
pub open spec fn spec_begin(p: MigrationParams) -> (StartView, StartActionView) {
    let s = StartView {
        stage: if p.max_bandwidth > 0 {
            StartStage::Bandwidth
        } else {
            StartStage::EnableConverge
        },
        uri: spec_migration_uri(p.destination_ip@, p.port, p.use_tls),
        nbd_uri: spec_nbd_uri(p.destination_ip@, p.port),
        error: Seq::empty(),
    };
    (s, if p.max_bandwidth > 0 {
        StartActionView::Call(QmpCallView::SetMaxBandwidth(p.max_bandwidth))
    } else {
        StartActionView::Call(auto_converge(true))
    })
}

/// One step of a migration start: the outcome of the awaited command gives the next
/// stage and action. A failed drive mirror disables auto-converge; a failed memory
/// migration disables auto-converge and completes the block job; the outcomes of those
/// rollback commands are ignored.
pub open spec fn spec_step(s: StartView, o: Result<(), Seq<char>>) -> (StartView, StartActionView) {
    match s.stage {
        StartStage::Bandwidth => match o {
            Ok(()) => (
                at_stage(s, StartStage::EnableConverge, s.error),
                StartActionView::Call(auto_converge(true)),
            ),
            Err(e) => (
                at_stage(s, StartStage::Finished, s.error),
                StartActionView::Finish(Err("Failed to set migration bandwidth: "@ + e)),
            ),
        },
        StartStage::EnableConverge => match o {
            Ok(()) => (
                at_stage(s, StartStage::Mirror, s.error),
                StartActionView::Call(QmpCallView::DriveMirror(root_drive(), s.nbd_uri)),
            ),
            Err(e) => (
                at_stage(s, StartStage::Finished, s.error),
                StartActionView::Finish(Err("Failed to enable auto-converge: "@ + e)),
            ),
        },
        StartStage::Mirror => match o {
            Ok(()) => (
                at_stage(s, StartStage::Memory, s.error),
                StartActionView::Call(QmpCallView::Migrate(s.uri)),
            ),
            Err(e) => (
                at_stage(s, StartStage::UndoConvergeAfterMirror, "Block replication failed: "@ + e),
                StartActionView::Call(auto_converge(false)),
            ),
        },
        StartStage::Memory => match o {
            Ok(()) => (at_stage(s, StartStage::Finished, s.error), StartActionView::Finish(Ok(()))),
            Err(e) => (
                at_stage(s, StartStage::UndoConvergeAfterMemory, "Memory migration failed: "@ + e),
                StartActionView::Call(auto_converge(false)),
            ),
        },
        StartStage::UndoConvergeAfterMirror => (
            at_stage(s, StartStage::Finished, s.error),
            StartActionView::Finish(Err(s.error)),
        ),
        StartStage::UndoConvergeAfterMemory => (
            at_stage(s, StartStage::CompleteBlockJob, s.error),
            StartActionView::Call(QmpCallView::BlockJobComplete(root_drive())),
        ),
        StartStage::CompleteBlockJob => (
            at_stage(s, StartStage::Finished, s.error),
            StartActionView::Finish(Err(s.error)),
        ),
        StartStage::Finished => (s, StartActionView::Finish(Err(s.error))),
    }
}

/// How many more commands a start can issue from a stage, at most.
pub open spec fn stage_budget(stage: StartStage) -> nat {
    match stage {
        StartStage::Bandwidth => 5,
        StartStage::EnableConverge => 4,
        StartStage::Mirror => 3,
        StartStage::Memory => 2,
        StartStage::UndoConvergeAfterMemory => 1,
        StartStage::UndoConvergeAfterMirror => 0,
        StartStage::CompleteBlockJob => 0,
        StartStage::Finished => 0,
    }
}

impl MigrationStart {
    /// Begins a migration start: the first command is the bandwidth limit when one is
    /// set, else enabling auto-converge.
    pub fn begin(params: &MigrationParams) -> (r: (MigrationStart, StartAction))
        ensures
            (r.0@, r.1@) == spec_begin(*params),
    {
        let uri = get_migration_uri(params.destination_ip.as_str(), params.port, params.use_tls);
        let mut nbd = chars_of("nbd:");
        extend_str(&mut nbd, params.destination_ip.as_str());
        nbd.push(':');
        push_decimal(&mut nbd, params.port as u64);
        proof {
            assert(nbd@ =~= spec_nbd_uri(params.destination_ip@, params.port));
        }
        let nbd_uri = string_of(&nbd);
        if params.max_bandwidth > 0 {
            (
                MigrationStart { stage: StartStage::Bandwidth, uri, nbd_uri, error: String::new() },
                StartAction::Call(QmpCall::SetMaxBandwidth(params.max_bandwidth)),
            )
        } else {
            (
                MigrationStart {
                    stage: StartStage::EnableConverge,
                    uri,
                    nbd_uri,
                    error: String::new(),
                },
                StartAction::Call(auto_converge_call(true)),
            )
        }
    }

    /// Takes the outcome of the awaited command and gives the next action.
    pub fn step(&mut self, outcome: Result<(), String>) -> (a: StartAction)
        requires
            old(self).stage != StartStage::Finished,
        ensures
            (final(self)@, a@) == spec_step(old(self)@, outcome_view(outcome)),
    {
        match self.stage {
            StartStage::Bandwidth => match outcome {
                Ok(()) => {
                    self.stage = StartStage::EnableConverge;
                    StartAction::Call(auto_converge_call(true))
                },
                Err(e) => {
                    self.stage = StartStage::Finished;
                    StartAction::Finish(Err(concat2("Failed to set migration bandwidth: ", e.as_str())))
                },
            },
            StartStage::EnableConverge => match outcome {
                Ok(()) => {
                    self.stage = StartStage::Mirror;
                    StartAction::Call(
                        QmpCall::DriveMirror(String::from_str("drive-root"), self.nbd_uri.clone()),
                    )
                },
                Err(e) => {
                    self.stage = StartStage::Finished;
                    StartAction::Finish(Err(concat2("Failed to enable auto-converge: ", e.as_str())))
                },
            },
            StartStage::Mirror => match outcome {
                Ok(()) => {
                    self.stage = StartStage::Memory;
                    StartAction::Call(QmpCall::Migrate(self.uri.clone()))
                },
                Err(e) => {
                    self.stage = StartStage::UndoConvergeAfterMirror;
                    self.error = concat2("Block replication failed: ", e.as_str());
                    StartAction::Call(auto_converge_call(false))
                },
            },
            StartStage::Memory => match outcome {
                Ok(()) => {
                    self.stage = StartStage::Finished;
                    StartAction::Finish(Ok(()))
                },
                Err(e) => {
                    self.stage = StartStage::UndoConvergeAfterMemory;
                    self.error = concat2("Memory migration failed: ", e.as_str());
                    StartAction::Call(auto_converge_call(false))
                },
            },
            StartStage::UndoConvergeAfterMirror => {
                self.stage = StartStage::Finished;
                StartAction::Finish(Err(self.error.clone()))
            },
            StartStage::UndoConvergeAfterMemory => {
                self.stage = StartStage::CompleteBlockJob;
                StartAction::Call(QmpCall::BlockJobComplete(String::from_str("drive-root")))
            },
            StartStage::CompleteBlockJob => {
                self.stage = StartStage::Finished;
                StartAction::Finish(Err(self.error.clone()))
            },
            StartStage::Finished => StartAction::Finish(Err(self.error.clone())),
        }
    }
}

/// Every step of a migration start either finishes it or leaves fewer commands to issue:
/// a start ends after at most five commands, whatever their outcomes.
pub proof fn lemma_start_terminates(s: StartView, o: Result<(), Seq<char>>)
    requires
        s.stage != StartStage::Finished,
    ensures
        spec_step(s, o).1 is Finish <==> spec_step(s, o).0.stage == StartStage::Finished,
        spec_step(s, o).0.stage != StartStage::Finished ==> stage_budget(spec_step(s, o).0.stage)
            < stage_budget(s.stage),
{
}

/// When every command succeeds, a start sets the bandwidth limit (if one is given),
/// enables auto-converge, mirrors the root drive to `nbd:ip:port`, migrates memory to the
/// migration URI, and succeeds.
pub proof fn lemma_start_all_ok(p: MigrationParams)
    ensures
        ({
            let (s0, a0) = spec_begin(p);
            let s1 = if p.max_bandwidth > 0 {
                spec_step(s0, Ok(())).0
            } else {
                s0
            };
            let (s2, a2) = spec_step(s1, Ok(()));
            let (s3, a3) = spec_step(s2, Ok(()));
            let (s4, a4) = spec_step(s3, Ok(()));
            &&& p.max_bandwidth > 0 ==> a0 == StartActionView::Call(
                QmpCallView::SetMaxBandwidth(p.max_bandwidth),
            ) && spec_step(s0, Ok(())).1 == StartActionView::Call(auto_converge(true))
            &&& p.max_bandwidth == 0 ==> a0 == StartActionView::Call(auto_converge(true))
            &&& a2 == StartActionView::Call(
                QmpCallView::DriveMirror(root_drive(), spec_nbd_uri(p.destination_ip@, p.port)),
            )
            &&& a3 == StartActionView::Call(
                QmpCallView::Migrate(spec_migration_uri(p.destination_ip@, p.port, p.use_tls)),
            )
            &&& a4 == StartActionView::Finish(Ok(()))
            &&& s4.stage == StartStage::Finished
        }),
{
}

/// A failed drive mirror is rolled back: auto-converge is disabled, and then, whatever
/// that gives, the start fails with the mirror's error.
pub proof fn lemma_mirror_failure_rolls_back(
    s: StartView,
    e: Seq<char>,
    o: Result<(), Seq<char>>,
)
    requires
        s.stage == StartStage::Mirror,
    ensures
        ({
            let (s1, a1) = spec_step(s, Err(e));
            let (s2, a2) = spec_step(s1, o);
            &&& a1 == StartActionView::Call(auto_converge(false))
            &&& a2 == StartActionView::Finish(Err("Block replication failed: "@ + e))
            &&& s2.stage == StartStage::Finished
        }),
{
}

/// A failed memory migration is rolled back: auto-converge is disabled and the root
/// drive's block job completed, and then, whatever those give, the start fails with the
/// migration's error.
pub proof fn lemma_memory_failure_rolls_back(
    s: StartView,
    e: Seq<char>,
    o1: Result<(), Seq<char>>,
    o2: Result<(), Seq<char>>,
)
    requires
        s.stage == StartStage::Memory,
    ensures
        ({
            let (s1, a1) = spec_step(s, Err(e));
            let (s2, a2) = spec_step(s1, o1);
            let (s3, a3) = spec_step(s2, o2);
            &&& a1 == StartActionView::Call(auto_converge(false))
            &&& a2 == StartActionView::Call(QmpCallView::BlockJobComplete(root_drive()))
            &&& a3 == StartActionView::Finish(Err("Memory migration failed: "@ + e))
            &&& s3.stage == StartStage::Finished
        }),
{
}

/// A failure before auto-converge is enabled needs no rollback: the start fails at once.
pub proof fn lemma_early_failure_no_rollback(s: StartView, e: Seq<char>)
    requires
        s.stage == StartStage::Bandwidth || s.stage == StartStage::EnableConverge,
    ensures
        spec_step(s, Err(e)).1 is Finish,
        spec_step(s, Err(e)).1 matches StartActionView::Finish(r) && r is Err,
{
}

/// A registered VM is found with the socket it was registered with, and tracked; once
/// unregistered it is found no more.
pub proof fn lemma_registered_vm_found(
    sockets: Map<Seq<char>, Seq<char>>,
    active: Set<Seq<char>>,
    vm_id: Seq<char>,
    qmp_socket: Seq<char>,
)
    ensures
        sockets.insert(vm_id, qmp_socket).contains_key(vm_id),
        sockets.insert(vm_id, qmp_socket)[vm_id] == qmp_socket,
        active.insert(vm_id).contains(vm_id),
        !sockets.insert(vm_id, qmp_socket).remove(vm_id).contains_key(vm_id),
        !active.insert(vm_id).remove(vm_id).contains(vm_id),
{
}

/// The NBD target of a migration reads back as its parts: split at `:` it is `nbd`, the
/// destination IP and the port (IPs hold no `:`).
pub proof fn lemma_nbd_uri_parts(ip: Seq<char>, port: u16)
    requires
        crate::text::lacks(ip, ':'),
    ensures
        crate::text::split_on(spec_nbd_uri(ip, port), ':') == seq!["nbd"@, ip, decimal(port as nat)],
{
    reveal_strlit("nbd:");
    reveal_strlit("nbd");
    let d = decimal(port as nat);
    crate::text::lemma_decimal_lacks(port as nat, ':');
    assert(spec_nbd_uri(ip, port) =~= "nbd"@ + seq![':'] + (ip + seq![':'] + d));
    crate::text::lemma_split_join("nbd"@, ':', ip + seq![':'] + d);
    crate::text::lemma_split_join(ip, ':', d);
    crate::text::lemma_split_single(d, ':');
    assert(seq!["nbd"@] + (seq![ip] + seq![d]) =~= seq!["nbd"@, ip, d]);
}

} // verus!
