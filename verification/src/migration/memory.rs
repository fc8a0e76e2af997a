//! Memory pre-copy migration.
use vstd::prelude::*;

use crate::hypervisor::qemu::{QmpCall, QmpCallView, QmpClient};
use crate::migration::{qmp_return_status, spec_qmp_return_status};
use crate::text::{concat2, str_eq};

verus! {

/// What a `query-migrate` reply with the given status tells the poller: `None` to keep
/// polling, else how the migration ended.
pub open spec fn spec_completion(resp: Seq<char>, status: Option<Seq<char>>) -> Option<
    Result<(), Seq<char>>,
> {
    if status == Some("completed"@) {
        Some(Ok(()))
    } else if status == Some("failed"@) {
        Some(Err("Migration failed in QEMU: "@ + resp))
    } else if status == Some("cancelled"@) {
        Some(Err("Migration was cancelled"@))
    } else if status == Some("postcopy-failed"@) {
        Some(Err("Migration failed in post-copy phase: "@ + resp))
    } else {
        None
    }
}

/// What a `query-migrate` reply tells the poller, the reply read as JSON: an unreadable
/// reply ends the wait with an error.
pub open spec fn spec_poll(resp: Seq<char>) -> Option<Result<(), Seq<char>>> {
    match spec_qmp_return_status(resp) {
        None => Some(Err("Failed to parse migration status: "@ + resp)),
        Some(status) => spec_completion(resp, status),
    }
}

/// The view of a poll outcome.
pub open spec fn poll_view(r: Option<Result<(), String>>) -> Option<Result<(), Seq<char>>> {
    match r {
        None => None,
        Some(Ok(())) => Some(Ok(())),
        Some(Err(e)) => Some(Err(e@)),
    }
}

/// Decides, from the status in a `query-migrate` reply, whether the migration has ended.
pub fn completion_for_status(resp: &str, status: Option<&str>) -> (r: Option<Result<(), String>>)
    ensures
        poll_view(r) == spec_completion(resp@, match status {
            Some(s) => Some(s@),
            None => None,
        }),
{
    match status {
        None => None,
        Some(s) => {
            if str_eq(s, "completed") {
                Some(Ok(()))
            } else if str_eq(s, "failed") {
                Some(Err(concat2("Migration failed in QEMU: ", resp)))
            } else if str_eq(s, "cancelled") {
                Some(Err(String::from_str("Migration was cancelled")))
            } else if str_eq(s, "postcopy-failed") {
                Some(Err(concat2("Migration failed in post-copy phase: ", resp)))
            } else {
                None
            }
        },
    }
}

/// Decides, from a `query-migrate` reply, whether the migration has ended.
pub fn poll_completion(resp: &str) -> (r: Option<Result<(), String>>)
    ensures
        poll_view(r) == spec_poll(resp@),
{
    match qmp_return_status(resp) {
        None => Some(Err(concat2("Failed to parse migration status: ", resp))),
        Some(None) => completion_for_status(resp, None),
        Some(Some(s)) => completion_for_status(resp, Some(s.as_str())),
    }
}

/// Orchestrates memory pre-copy migration.
pub struct MemoryMigrator {
    qmp_socket: String,
}

impl MemoryMigrator {
    /// The QMP socket of the VM.
    pub closed spec fn socket(&self) -> Seq<char> {
        self.qmp_socket@
    }

    /// Creates a new MemoryMigrator instance.
    pub fn new(qmp_socket: String) -> (m: Self)
        ensures
            m.socket() == qmp_socket@,
    {
        MemoryMigrator { qmp_socket }
    }

    /// A QMP client on the VM's socket.
    pub fn client(&self) -> (c: QmpClient)
        ensures
            c.socket_path@ == self.socket(),
    {
        QmpClient::new(self.qmp_socket.clone())
    }

    /// The command that starts the memory migration to the destination URI.
    pub fn start_migration(&self, destination_uri: &str) -> (c: QmpCall)
        ensures
            c@ == QmpCallView::Migrate(destination_uri@),
    {
        QmpCall::Migrate(destination_uri.to_owned())
    }
}

} // verus!
