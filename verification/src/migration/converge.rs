//! Auto-convergence throttling for migration.
use vstd::prelude::*;

use crate::hypervisor::qemu::{QmpCall, QmpCallView, QmpClient};

verus! {

/// The capability that throttles the guest's vCPUs until migration converges.
pub open spec fn auto_converge(enable: bool) -> QmpCallView {
    QmpCallView::SetCapability("auto-converge"@, enable)
}

/// The command that enables or disables auto-converge.
pub fn auto_converge_call(enable: bool) -> (c: QmpCall)
    ensures
        c@ == auto_converge(enable),
{
    QmpCall::SetCapability(String::from_str("auto-converge"), enable)
}

/// Manages auto-convergence throttling for migration.
pub struct ConvergenceManager {
    qmp_socket: String,
}

impl ConvergenceManager {
    /// The QMP socket of the VM.
    pub closed spec fn socket(&self) -> Seq<char> {
        self.qmp_socket@
    }

    /// Creates a new ConvergenceManager instance.
    pub fn new(qmp_socket: String) -> (m: Self)
        ensures
            m.socket() == qmp_socket@,
    {
        ConvergenceManager { qmp_socket }
    }

    /// A QMP client on the VM's socket.
    pub fn client(&self) -> (c: QmpClient)
        ensures
            c.socket_path@ == self.socket(),
    {
        QmpClient::new(self.qmp_socket.clone())
    }

    /// The command that enables auto-converge for the current migration.
    pub fn enable_auto_converge(&self) -> (c: QmpCall)
        ensures
            c@ == auto_converge(true),
    {
        auto_converge_call(true)
    }

    /// The command that disables auto-converge.
    pub fn disable_auto_converge(&self) -> (c: QmpCall)
        ensures
            c@ == auto_converge(false),
    {
        auto_converge_call(false)
    }
}

} // verus!
