//! Block-level replication with NBD and QMP drive-mirror.
use vstd::prelude::*;

use crate::hypervisor::qemu::{QmpCall, QmpCallView, QmpClient};

verus! {

/// Orchestrates block level replication using NBD and QMP drive-mirror.
pub struct BlockReplicator {
    qmp_socket: String,
}

impl BlockReplicator {
    /// The QMP socket of the VM.
    pub closed spec fn socket(&self) -> Seq<char> {
        self.qmp_socket@
    }

    /// Creates a new BlockReplicator instance.
    pub fn new(qmp_socket: String) -> (b: Self)
        ensures
            b.socket() == qmp_socket@,
    {
        BlockReplicator { qmp_socket }
    }

    /// A QMP client on the VM's socket.
    pub fn client(&self) -> (c: QmpClient)
        ensures
            c.socket_path@ == self.socket(),
    {
        QmpClient::new(self.qmp_socket.clone())
    }

    /// The commands that prepare the destination to receive a block stream, in order:
    /// start an NBD server on `listen_addr`, then export the device on it.
    pub fn prepare_destination(&self, device_id: &str, listen_addr: &str) -> (cs: Vec<QmpCall>)
        ensures
            cs@.len() == 2,
            cs@[0]@ == QmpCallView::NbdServerStart(listen_addr@),
            cs@[1]@ == QmpCallView::NbdServerAdd(device_id@),
    {
        let mut cs: Vec<QmpCall> = Vec::new();
        cs.push(QmpCall::NbdServerStart(listen_addr.to_owned()));
        cs.push(QmpCall::NbdServerAdd(device_id.to_owned()));
        cs
    }

    /// The command that starts mirroring a device to the remote NBD target.
    pub fn start_mirroring(&self, device_id: &str, remote_nbd_uri: &str) -> (c: QmpCall)
        ensures
            c@ == QmpCallView::DriveMirror(device_id@, remote_nbd_uri@),
    {
        QmpCall::DriveMirror(device_id.to_owned(), remote_nbd_uri.to_owned())
    }
}

} // verus!
