//! The engine instance: the root resource of the hierarchy.
//!
//! A runtime wraps one native engine-runtime handle. The process that
//! talks to the engine allocates the handle and hands it in as a plain
//! integer; the null handle stands for a failed allocation and never
//! becomes a runtime.

use vstd::prelude::*;

verus! {

/// Creating an engine runtime failed: the native allocator returned the
/// null handle. No resource was created; the caller may retry.
#[derive(Debug)]
pub enum RuntimeError {
    NewFailed,
}

/// The owned native runtime handle.
#[derive(Clone, Copy, Debug)]
pub struct RuntimeInternal {
    c_rt: u64,
}

impl RuntimeInternal {
    /// The native handle, as a plain integer.
    pub closed spec fn handle(self) -> u64 {
        self.c_rt
    }

    /// A live runtime never wraps the null handle.
    pub open spec fn wf(self) -> bool {
        self.handle() != 0
    }

    /// Wraps the handle the native runtime allocator returned; the null
    /// handle means the allocation failed and yields the error instead.
    pub fn new(raw: u64) -> (r: Result<Self, RuntimeError>)
        ensures
            raw == 0 ==> (r matches Err(RuntimeError::NewFailed)),
            raw != 0 ==> (r matches Ok(rt) && rt.handle() == raw && rt.wf()),
    {
        if raw == 0 {
            Err(RuntimeError::NewFailed)
        } else {
            Ok(RuntimeInternal { c_rt: raw })
        }
    }

    /// Wraps a raw handle a trusted internal caller already knows is live.
    pub fn from_raw(c_rt: u64) -> (r: Self)
        requires
            c_rt != 0,
        ensures
            r.handle() == c_rt,
            r.wf(),
    {
        RuntimeInternal { c_rt }
    }

    /// The raw handle, for the trusted caller that makes the native calls.
    pub fn as_ptr(&self) -> (r: u64)
        ensures
            r == self.handle(),
    {
        self.c_rt
    }
}

/// An engine instance. Everything evaluated lives under some instance; an
/// instance is destroyed natively only when its own holder and every
/// context created from it are gone.
pub struct Runtime {
    internal: RuntimeInternal,
}

impl Runtime {
    /// The native handle of the wrapped runtime.
    pub closed spec fn handle(self) -> u64 {
        self.internal.handle()
    }

    /// A live instance never wraps the null handle.
    pub open spec fn wf(self) -> bool {
        self.handle() != 0
    }

    /// Wraps the handle the native runtime allocator returned; the null
    /// handle means the allocation failed and yields the error instead.
    pub fn new(raw: u64) -> (r: Result<Self, RuntimeError>)
        ensures
            raw == 0 ==> (r matches Err(RuntimeError::NewFailed)),
            raw != 0 ==> (r matches Ok(rt) && rt.handle() == raw && rt.wf()),
    {
        match RuntimeInternal::new(raw) {
            Ok(internal) => Ok(Runtime { internal }),
            Err(e) => Err(e),
        }
    }

    pub(crate) fn internal(&self) -> (r: RuntimeInternal)
        ensures
            r.handle() == self.handle(),
    {
        self.internal
    }
}

} // verus!
