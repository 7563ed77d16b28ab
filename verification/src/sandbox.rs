//! Sandbox handles and the capability interface over one isolation
//! technology (a container engine today, a VM backend tomorrow).

use vstd::prelude::*;
use crate::errors::OrchestratorError;

verus! {

/// Where a sandbox stands in its life: allocated, running, stopped, or gone.
#[derive(Clone, Copy, Debug, PartialEq, Eq, Structural)]
pub enum LifecycleState {
    Created,
    Running,
    Stopped,
    Destroyed,
}

/// An ephemeral resource bound 1:1 to a running executor: one isolated
/// execution environment, identified by whatever id the backend issued.
/// It is owned exclusively by the executor that provisioned it and is
/// destroyed unconditionally when that executor exits.
#[derive(Clone, Debug)]
pub struct SandboxHandle {
    /// Opaque identifier from the isolation technology, e.g. a container id.
    pub backend_id: String,
    /// Where the sandbox stands in its life.
    pub lifecycle_state: LifecycleState,
}

impl SandboxHandle {
    /// A freshly allocated sandbox.
    pub fn new(backend_id: String) -> (r: SandboxHandle)
        ensures
            r.backend_id == backend_id,
            r.lifecycle_state is Created,
    {
        SandboxHandle { backend_id, lifecycle_state: LifecycleState::Created }
    }

    /// Whether the sandbox may still be started.
    pub open spec fn startable(self) -> bool {
        self.lifecycle_state is Created || self.lifecycle_state is Stopped
    }

    /// Marks the sandbox running. Only an allocated or stopped sandbox can
    /// be started; a destroyed one is gone for good.
    pub fn mark_started(&mut self)
        requires
            old(self).startable(),
        ensures
            final(self).lifecycle_state is Running,
            final(self).backend_id == old(self).backend_id,
    {
        self.lifecycle_state = LifecycleState::Running;
    }

    /// Marks the sandbox stopped.
    pub fn mark_stopped(&mut self)
        requires
            old(self).lifecycle_state is Running,
        ensures
            final(self).lifecycle_state is Stopped,
            final(self).backend_id == old(self).backend_id,
    {
        self.lifecycle_state = LifecycleState::Stopped;
    }

    /// Marks the sandbox destroyed. Safe to call in any state — tearing down
    /// an already-stopped or already-destroyed sandbox is a no-op, never an
    /// error — so release logic need not track how the sandbox got here.
    pub fn mark_destroyed(&mut self)
        ensures
            final(self).lifecycle_state is Destroyed,
            final(self).backend_id == old(self).backend_id,
    {
        self.lifecycle_state = LifecycleState::Destroyed;
    }
}

/// A generic interface over virtualization systems. One concrete
/// implementation (e.g. a container engine adapter) is selected at startup;
/// the core relies only on these transitions. An implementation may fail any
/// call, but when it reports success the machine is in the stated state.
pub trait VirtualMachine {
    /// Where the implementation's machine stands in its life.
    spec fn lifecycle(&self) -> LifecycleState;

    /// Starts the virtual machine.
    fn start(&mut self) -> (r: Result<(), OrchestratorError>)
        ensures
            r is Ok ==> final(self).lifecycle() is Running,
    ;

    /// Stops the virtual machine gracefully.
    fn stop(&mut self) -> (r: Result<(), OrchestratorError>)
        ensures
            r is Ok ==> final(self).lifecycle() is Stopped,
    ;

    /// Restarts the virtual machine.
    fn restart(&mut self) -> (r: Result<(), OrchestratorError>)
        ensures
            r is Ok ==> final(self).lifecycle() is Running,
    ;
}

/// The library's own in-memory implementation: a sandbox handle driven
/// through its model transitions. It backs tests and stands in for an
/// engine-backed machine wherever no real isolation is wanted.
impl VirtualMachine for SandboxHandle {
    open spec fn lifecycle(&self) -> LifecycleState {
        self.lifecycle_state
    }

    fn start(&mut self) -> (r: Result<(), OrchestratorError>)
        ensures
            r is Ok ==> final(self).lifecycle() is Running,
    {
        if self.lifecycle_state == LifecycleState::Destroyed {
            Err(OrchestratorError::ProvisionFailed)
        } else {
            self.lifecycle_state = LifecycleState::Running;
            Ok(())
        }
    }

    fn stop(&mut self) -> (r: Result<(), OrchestratorError>)
        ensures
            r is Ok ==> final(self).lifecycle() is Stopped,
    {
        if self.lifecycle_state == LifecycleState::Destroyed {
            Err(OrchestratorError::ProvisionFailed)
        } else {
            self.lifecycle_state = LifecycleState::Stopped;
            Ok(())
        }
    }

    fn restart(&mut self) -> (r: Result<(), OrchestratorError>)
        ensures
            r is Ok ==> final(self).lifecycle() is Running,
    {
        if self.lifecycle_state == LifecycleState::Destroyed {
            Err(OrchestratorError::ProvisionFailed)
        } else {
            self.lifecycle_state = LifecycleState::Running;
            Ok(())
        }
    }
}

} // verus!
