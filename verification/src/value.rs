//! The evaluated value: a read-only view of one native value.
//!
//! A value is produced only by evaluation inside a context, and it keeps
//! that context — and transitively the context's runtime — alive for its
//! own lifetime. The inspection queries are pure reads of the value's tag
//! and payload. Whether a value is callable is a capability query only the
//! engine itself can answer, so it stays with the process that makes the
//! native calls.

use crate::context::{Context, ContextInternal};
use crate::jsval::{
    is_exception_tag, is_null_tag, is_number_tag, is_object_tag, is_string_tag, is_undefined_tag,
    js_value_get_bool, js_value_get_float64_bits, js_value_get_int, lemma_classification_exclusive,
    payload_i32, payload_u32, JSValue, JS_IsException, JS_IsNull, JS_IsNumber, JS_IsObject,
    JS_IsString, JS_IsUndefined,
};
use vstd::prelude::*;

verus! {

/// One native value bound to the context that produced it.
#[derive(Debug)]
pub struct Value {
    c_val: JSValue,
    val_ctx: ContextInternal,
}

impl Value {
    /// The wrapped native value: its tag and payload bits.
    pub closed spec fn raw(self) -> JSValue {
        self.c_val
    }

    /// The native handle of the context that produced the value.
    pub closed spec fn ctx_handle(self) -> u64 {
        self.val_ctx.handle()
    }

    /// Wraps a native value the engine produced inside the given context.
    /// The new value holds the context's internal state, keeping it alive.
    pub fn from_raw(ctx: &Context, v: JSValue) -> (r: Self)
        ensures
            r.raw() == v,
            r.ctx_handle() == ctx.handle(),
    {
        Value { c_val: v, val_ctx: ctx.internal() }
    }

    /// The value is a number: an integer or a 64-bit float.
    pub fn is_number(&self) -> (r: bool)
        ensures
            r == is_number_tag(self.raw()),
    {
        JS_IsNumber(self.c_val)
    }

    /// The value is the null value.
    pub fn is_null(&self) -> (r: bool)
        ensures
            r == is_null_tag(self.raw()),
    {
        JS_IsNull(self.c_val)
    }

    /// The value is the undefined value.
    pub fn is_undefined(&self) -> (r: bool)
        ensures
            r == is_undefined_tag(self.raw()),
    {
        JS_IsUndefined(self.c_val)
    }

    /// The value is a string.
    pub fn is_string(&self) -> (r: bool)
        ensures
            r == is_string_tag(self.raw()),
    {
        JS_IsString(self.c_val)
    }

    /// The value is an object.
    pub fn is_object(&self) -> (r: bool)
        ensures
            r == is_object_tag(self.raw()),
    {
        JS_IsObject(self.c_val)
    }

    /// The value is the exception marker: a real error value is pending
    /// inside the engine and must be fetched separately.
    pub fn is_exception(&self) -> (r: bool)
        ensures
            r == is_exception_tag(self.raw()),
    {
        JS_IsException(self.c_val)
    }

    /// Reads the payload as a 32-bit signed integer. Meaningful only when
    /// the value is an integer-tagged number; the read itself is total.
    pub fn get_i32(&self) -> (r: i32)
        ensures
            r as int == payload_i32(self.raw().bits),
    {
        js_value_get_int(self.c_val)
    }

    /// Reads the payload as a boolean: any non-zero integer payload is true.
    /// Meaningful only when the value is boolean-tagged.
    pub fn get_bool(&self) -> (r: bool)
        ensures
            r == (payload_u32(self.raw().bits) != 0),
    {
        js_value_get_bool(self.c_val)
    }

    /// Reads the payload as the raw bits of a 64-bit float. Meaningful only
    /// when the value is float-tagged; the process that talks to the engine
    /// reinterprets the bits as its float type.
    pub fn get_f64_bits(&self) -> (r: u64)
        ensures
            r == self.raw().bits,
    {
        js_value_get_float64_bits(self.c_val)
    }
}

/// Law: a value's classification predicates are mutually exclusive. A value
/// that is a number is never simultaneously a string, null, undefined, an
/// object or the exception marker, and likewise for every other pair.
pub proof fn lemma_value_classification_exclusive(v: Value)
    ensures
        is_number_tag(v.raw()) ==> !is_string_tag(v.raw()) && !is_null_tag(v.raw())
            && !is_undefined_tag(v.raw()) && !is_object_tag(v.raw()) && !is_exception_tag(v.raw()),
        is_string_tag(v.raw()) ==> !is_null_tag(v.raw()) && !is_undefined_tag(v.raw())
            && !is_object_tag(v.raw()) && !is_exception_tag(v.raw()),
        is_null_tag(v.raw()) ==> !is_undefined_tag(v.raw()) && !is_object_tag(v.raw())
            && !is_exception_tag(v.raw()),
        is_undefined_tag(v.raw()) ==> !is_object_tag(v.raw()) && !is_exception_tag(v.raw()),
        is_object_tag(v.raw()) ==> !is_exception_tag(v.raw()),
{
    lemma_classification_exclusive(v.raw());
}

} // verus!
