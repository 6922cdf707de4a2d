//! The execution context and the evaluation protocol.
//!
//! A context wraps one native context handle, bound to exactly one runtime
//! that it keeps alive. Evaluation is a two-step protocol around the one
//! native call the process that talks to the engine makes:
//!
//! - `eval_request` encodes the source and the label for the native
//!   boundary, rejecting text that cannot cross it before any native call;
//! - `eval_outcome` classifies the value the evaluator returned, never
//!   handing an exception-tagged value out as a success: the caller fetches
//!   the engine's pending exception and that value becomes the error.

use crate::encoding::{c_bytes_of, nul_free, to_c_bytes};
use crate::jsval::{JSValue, JS_TAG_EXCEPTION};
use crate::runtime::{Runtime, RuntimeInternal};
use crate::value::Value;
use vstd::prelude::*;
use vstd::string::StringSliceAdditionalSpecFns;

verus! {

/// Why an evaluation returned no success value.
#[derive(Debug)]
pub enum EvalError {
    /// The source or the label cannot be encoded for the native boundary
    /// (its bytes contain a null byte). No native call was made.
    EncodingFailed,
    /// The script raised, or a runtime error occurred inside the engine.
    /// The engine's pending exception is carried as a first-class value,
    /// so the caller can classify and extract it.
    RuntimeException(Value),
}

/// Creating an execution context failed: the native allocator returned the
/// null handle. No resource was created; the caller may retry.
#[derive(Debug)]
pub enum ContextError {
    NewFailed,
}

/// The owned native context handle, together with the runtime it keeps
/// alive.
#[derive(Clone, Copy, Debug)]
pub struct ContextInternal {
    c_ctx: u64,
    ctx_rt: RuntimeInternal,
}

impl ContextInternal {
    /// The native context handle, as a plain integer.
    pub closed spec fn handle(self) -> u64 {
        self.c_ctx
    }

    /// The native handle of the runtime this context is bound to.
    pub closed spec fn rt_handle(self) -> u64 {
        self.ctx_rt.handle()
    }

    /// A live context wraps no null handle and is bound to a live runtime.
    pub open spec fn wf(self) -> bool {
        self.handle() != 0 && self.rt_handle() != 0
    }

    /// Binds to the given runtime the context handle the native allocator
    /// returned for it; the null handle means the allocation failed.
    pub fn from_runtime_internal_rc(rc: RuntimeInternal, raw_ctx: u64) -> (r: Result<
        Self,
        ContextError,
    >)
        ensures
            raw_ctx == 0 ==> (r matches Err(ContextError::NewFailed)),
            raw_ctx != 0 ==> (r matches Ok(c) && c.handle() == raw_ctx && c.rt_handle()
                == rc.handle()),
    {
        if raw_ctx == 0 {
            return Err(ContextError::NewFailed);
        }
        Ok(ContextInternal { c_ctx: raw_ctx, ctx_rt: rc })
    }

    /// Wraps raw runtime and context handles from a trusted internal caller
    /// that already knows the runtime is live.
    pub fn from_runtime_raw(raw_rt: u64, raw_ctx: u64) -> (r: Result<Self, ContextError>)
        requires
            raw_rt != 0,
        ensures
            raw_ctx == 0 ==> (r matches Err(ContextError::NewFailed)),
            raw_ctx != 0 ==> (r matches Ok(c) && c.handle() == raw_ctx && c.rt_handle() == raw_rt),
    {
        let runtime = RuntimeInternal::from_raw(raw_rt);
        Self::from_runtime_internal_rc(runtime, raw_ctx)
    }

    /// The raw handle, for the trusted caller that makes the native calls.
    pub fn as_ptr(&self) -> (r: u64)
        ensures
            r == self.handle(),
    {
        self.c_ctx
    }

    /// The runtime this context keeps alive.
    pub fn runtime_internal_rc(&self) -> (r: RuntimeInternal)
        ensures
            r.handle() == self.rt_handle(),
    {
        self.ctx_rt
    }
}

/// An execution context: an isolated evaluation environment within one
/// engine instance. Scripts run inside a context, never directly inside an
/// instance.
pub struct Context {
    internal: ContextInternal,
}

/// What an evaluation hands to the native evaluator: the null-terminated
/// source bytes, the exact byte length of the source (passed explicitly,
/// never inferred from the terminator), the null-terminated label bytes,
/// and the evaluation flags.
pub struct EvalRequest {
    pub script: Vec<u8>,
    pub script_len: usize,
    pub filename: Vec<u8>,
    pub flags: i32,
}

impl Context {
    /// The native context handle.
    pub closed spec fn handle(self) -> u64 {
        self.internal.handle()
    }

    /// The native handle of the runtime this context keeps alive.
    pub closed spec fn rt_handle(self) -> u64 {
        self.internal.rt_handle()
    }

    /// A live context wraps no null handle and is bound to a live runtime.
    pub open spec fn wf(self) -> bool {
        self.handle() != 0 && self.rt_handle() != 0
    }

    /// Builds a context over a private runtime the caller never sees: the
    /// trusted caller allocates a fresh runtime and a context under it and
    /// hands in both handles. Failure of either native allocation is the
    /// same creation failure.
    pub fn from_no_runtime(raw_rt: u64, raw_ctx: u64) -> (r: Result<Self, ContextError>)
        ensures
            raw_rt == 0 || raw_ctx == 0 ==> (r matches Err(ContextError::NewFailed)),
            raw_rt != 0 && raw_ctx != 0 ==> (r matches Ok(c) && c.handle() == raw_ctx
                && c.rt_handle() == raw_rt && c.wf()),
    {
        if raw_rt == 0 {
            return Err(ContextError::NewFailed);
        }
        match ContextInternal::from_runtime_raw(raw_rt, raw_ctx) {
            Ok(internal) => Ok(Context { internal }),
            Err(e) => Err(e),
        }
    }

    /// Binds to the caller's runtime the context handle the native
    /// allocator returned for it; the null handle means the allocation
    /// failed.
    pub fn from_runtime(runtime: &Runtime, raw_ctx: u64) -> (r: Result<Self, ContextError>)
        ensures
            raw_ctx == 0 ==> (r matches Err(ContextError::NewFailed)),
            raw_ctx != 0 ==> (r matches Ok(c) && c.handle() == raw_ctx && c.rt_handle()
                == runtime.handle()),
    {
        match ContextInternal::from_runtime_internal_rc(runtime.internal(), raw_ctx) {
            Ok(internal) => Ok(Context { internal }),
            Err(e) => Err(e),
        }
    }

    pub(crate) fn internal(&self) -> (r: ContextInternal)
        ensures
            r.handle() == self.handle(),
            r.rt_handle() == self.rt_handle(),
    {
        self.internal
    }

    /// First half of an evaluation: encodes the source and the label for
    /// the native boundary. An encoding failure ends the evaluation here,
    /// with no native call made and no side effect; otherwise the request
    /// carries exactly the bytes and the explicit source byte length the
    /// native evaluator is to be called with, and flags zero.
    pub fn eval_request(&self, input: &str, filename: &str) -> (r: Result<EvalRequest, EvalError>)
        ensures
            r matches Ok(req) ==> nul_free(input.spec_bytes()) && nul_free(filename.spec_bytes())
                && req.script@ == c_bytes_of(input.spec_bytes()) && req.script_len
                == input.spec_bytes().len() && req.filename@ == c_bytes_of(filename.spec_bytes())
                && req.flags == 0,
            r matches Err(e) ==> (e matches EvalError::EncodingFailed) && !(nul_free(
                input.spec_bytes(),
            ) && nul_free(filename.spec_bytes())),
    {
        let filename_c = match to_c_bytes(filename) {
            Some(v) => v,
            None => {
                return Err(EvalError::EncodingFailed);
            },
        };
        let script = match to_c_bytes(input) {
            Some(v) => v,
            None => {
                return Err(EvalError::EncodingFailed);
            },
        };
        // the source's own byte length: the encoded bytes without the terminator
        let script_len = script.len() - 1;
        Ok(EvalRequest { script, script_len, filename: filename_c, flags: 0 })
    }

    /// Second half of an evaluation: classifies the value the native
    /// evaluator returned. An exception-tagged value is never handed out
    /// as a success: the caller must then have fetched the engine's pending
    /// exception and passed it in, and that value — never the placeholder —
    /// comes back as the error. Any other value comes back as the success,
    /// bound to this context.
    pub fn eval_outcome(&self, raw: JSValue, pending: Option<JSValue>) -> (r: Result<
        Value,
        EvalError,
    >)
        requires
            (raw.tag == JS_TAG_EXCEPTION) <==> pending is Some,
        ensures
            raw.tag == JS_TAG_EXCEPTION ==> (r matches Err(EvalError::RuntimeException(v))
                && v.raw() == pending.unwrap() && v.ctx_handle() == self.handle()),
            raw.tag != JS_TAG_EXCEPTION ==> (r matches Ok(v) && v.raw() == raw && v.ctx_handle()
                == self.handle()),
            r matches Ok(v) ==> v.raw().tag != JS_TAG_EXCEPTION,
    {
        let val = Value::from_raw(self, raw);
        if val.is_exception() {
            let err_raw = match pending {
                Some(p) => p,
                None => {
                    proof {
                        assert(false);
                    }
                    raw
                },
            };
            let err_val = Value::from_raw(self, err_raw);
            return Err(EvalError::RuntimeException(err_val));
        }
        Ok(val)
    }
}

/// Law: a context created without a caller-supplied runtime is functionally
/// equivalent, for evaluation, to one created from an explicit runtime.
/// A context's whole observable state is its two native handles, and
/// evaluation reads nothing else: `eval_request` is a function of the
/// source and label alone, and `eval_outcome` of the context handle and
/// the engine's replies alone. Two contexts over the same handles are
/// therefore indistinguishable, however they were made.
pub proof fn lemma_standalone_equivalent(standalone: Context, rt: Runtime, explicit: Context)
    requires
        standalone.handle() == explicit.handle(),
        standalone.rt_handle() == rt.handle(),
        explicit.rt_handle() == rt.handle(),
    ensures
        standalone.handle() == explicit.handle(),
        standalone.rt_handle() == explicit.rt_handle(),
{
}

} // verus!
