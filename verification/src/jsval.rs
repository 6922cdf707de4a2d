//! The engine's tagged value representation.
//!
//! A native value is a pair of a tag and an eight-byte payload union. The
//! tag alone decides the classification queries; the payload carries the
//! integer, boolean or floating-point bits that the extraction queries
//! read. This module models the pair as plain integers and gives the
//! tag predicates and payload reads exact contracts.

use vstd::prelude::*;

verus! {

// The engine's tag values. Tags with a reference-counted payload are
// negative; primitive tags are non-negative.
pub const JS_TAG_BIG_DECIMAL: i64 = -11;
pub const JS_TAG_BIG_INT: i64 = -10;
pub const JS_TAG_BIG_FLOAT: i64 = -9;
pub const JS_TAG_SYMBOL: i64 = -8;
pub const JS_TAG_STRING: i64 = -7;
pub const JS_TAG_MODULE: i64 = -3;
pub const JS_TAG_FUNCTION_BYTECODE: i64 = -2;
pub const JS_TAG_OBJECT: i64 = -1;
pub const JS_TAG_INT: i64 = 0;
pub const JS_TAG_BOOL: i64 = 1;
pub const JS_TAG_NULL: i64 = 2;
pub const JS_TAG_UNDEFINED: i64 = 3;
pub const JS_TAG_UNINITIALIZED: i64 = 4;
pub const JS_TAG_CATCH_OFFSET: i64 = 5;
pub const JS_TAG_EXCEPTION: i64 = 6;
pub const JS_TAG_FLOAT64: i64 = 7;

/// One native value: a tag and the raw bits of the payload union.
///
/// The first four bytes of the union hold the 32-bit integer payload;
/// all eight bytes hold the floating-point payload.
#[derive(Clone, Copy, PartialEq, Eq, Structural, Debug)]
pub struct JSValue {
    pub tag: i64,
    pub bits: u64,
}

/// The low 32 bits of a payload.
pub open spec fn payload_u32(bits: u64) -> u32 {
    (bits % 0x1_0000_0000) as u32
}

/// The low 32 bits of a payload read as a two's-complement signed integer.
pub open spec fn payload_i32(bits: u64) -> int {
    if payload_u32(bits) < 0x8000_0000 {
        payload_u32(bits) as int
    } else {
        payload_u32(bits) as int - 0x1_0000_0000
    }
}

pub open spec fn is_number_tag(v: JSValue) -> bool {
    v.tag == JS_TAG_INT || v.tag == JS_TAG_FLOAT64
}

pub open spec fn is_big_int_tag(v: JSValue) -> bool {
    v.tag == JS_TAG_BIG_INT
}

pub open spec fn is_big_float_tag(v: JSValue) -> bool {
    v.tag == JS_TAG_BIG_FLOAT
}

pub open spec fn is_big_decimal_tag(v: JSValue) -> bool {
    v.tag == JS_TAG_BIG_DECIMAL
}

pub open spec fn is_bool_tag(v: JSValue) -> bool {
    v.tag == JS_TAG_BOOL
}

pub open spec fn is_null_tag(v: JSValue) -> bool {
    v.tag == JS_TAG_NULL
}

pub open spec fn is_undefined_tag(v: JSValue) -> bool {
    v.tag == JS_TAG_UNDEFINED
}

pub open spec fn is_exception_tag(v: JSValue) -> bool {
    v.tag == JS_TAG_EXCEPTION
}

pub open spec fn is_uninitialized_tag(v: JSValue) -> bool {
    v.tag == JS_TAG_UNINITIALIZED
}

pub open spec fn is_string_tag(v: JSValue) -> bool {
    v.tag == JS_TAG_STRING
}

pub open spec fn is_symbol_tag(v: JSValue) -> bool {
    v.tag == JS_TAG_SYMBOL
}

pub open spec fn is_object_tag(v: JSValue) -> bool {
    v.tag == JS_TAG_OBJECT
}

/// A float payload is a NaN when its exponent bits are all set and its
/// mantissa is not zero, ignoring the sign bit.
pub open spec fn is_nan_bits(bits: u64) -> bool {
    (bits & 0x7fff_ffff_ffff_ffff) > 0x7ff0_0000_0000_0000
}

#[allow(non_snake_case)]
pub fn JS_VALUE_IS_NAN(v: JSValue) -> (r: bool)
    ensures
        r == (v.tag == JS_TAG_FLOAT64 && is_nan_bits(v.bits)),
{
    if v.tag != JS_TAG_FLOAT64 {
        return false;
    }
    (v.bits & 0x7fff_ffff_ffff_ffff) > 0x7ff0_0000_0000_0000
}

#[allow(non_snake_case)]
pub fn JS_IsNumber(v: JSValue) -> (r: bool)
    ensures
        r == is_number_tag(v),
{
    v.tag == JS_TAG_INT || v.tag == JS_TAG_FLOAT64
}

#[allow(non_snake_case)]
pub fn JS_IsBigInt(v: JSValue) -> (r: bool)
    ensures
        r == is_big_int_tag(v),
{
    v.tag == JS_TAG_BIG_INT
}

#[allow(non_snake_case)]
pub fn JS_IsBigFloat(v: JSValue) -> (r: bool)
    ensures
        r == is_big_float_tag(v),
{
    v.tag == JS_TAG_BIG_FLOAT
}

#[allow(non_snake_case)]
pub fn JS_IsBigDecimal(v: JSValue) -> (r: bool)
    ensures
        r == is_big_decimal_tag(v),
{
    v.tag == JS_TAG_BIG_DECIMAL
}

#[allow(non_snake_case)]
pub fn JS_IsBool(v: JSValue) -> (r: bool)
    ensures
        r == is_bool_tag(v),
{
    v.tag == JS_TAG_BOOL
}

#[allow(non_snake_case)]
pub fn JS_IsNull(v: JSValue) -> (r: bool)
    ensures
        r == is_null_tag(v),
{
    v.tag == JS_TAG_NULL
}

#[allow(non_snake_case)]
pub fn JS_IsUndefined(v: JSValue) -> (r: bool)
    ensures
        r == is_undefined_tag(v),
{
    v.tag == JS_TAG_UNDEFINED
}

#[allow(non_snake_case)]
pub fn JS_IsException(v: JSValue) -> (r: bool)
    ensures
        r == is_exception_tag(v),
{
    v.tag == JS_TAG_EXCEPTION
}

#[allow(non_snake_case)]
pub fn JS_IsUninitialized(v: JSValue) -> (r: bool)
    ensures
        r == is_uninitialized_tag(v),
{
    v.tag == JS_TAG_UNINITIALIZED
}

#[allow(non_snake_case)]
pub fn JS_IsString(v: JSValue) -> (r: bool)
    ensures
        r == is_string_tag(v),
{
    v.tag == JS_TAG_STRING
}

#[allow(non_snake_case)]
pub fn JS_IsSymbol(v: JSValue) -> (r: bool)
    ensures
        r == is_symbol_tag(v),
{
    v.tag == JS_TAG_SYMBOL
}

#[allow(non_snake_case)]
pub fn JS_IsObject(v: JSValue) -> (r: bool)
    ensures
        r == is_object_tag(v),
{
    v.tag == JS_TAG_OBJECT
}

/// Builds a value from a tag and a 32-bit integer payload, as the engine
/// does for its integer-carrying tags.
#[allow(non_snake_case)]
pub fn JS_MKVAL(tag: i64, val: i32) -> (r: JSValue)
    ensures
        r.tag == tag,
        payload_i32(r.bits) == val as int,
{
    let bits: u64 = if val >= 0 {
        val as u64
    } else {
        (val as i64 + 0x1_0000_0000i64) as u64
    };
    JSValue { tag, bits }
}

/// Reads the payload as a 32-bit signed integer. Well-defined at the native
/// layer only for integer-tagged values; the read itself is total here.
pub fn js_value_get_int(v: JSValue) -> (r: i32)
    ensures
        r as int == payload_i32(v.bits),
{
    let lo: u32 = (v.bits % 0x1_0000_0000) as u32;
    if lo < 0x8000_0000 {
        lo as i32
    } else {
        ((lo as i64) - 0x1_0000_0000i64) as i32
    }
}

/// Reads the payload as a boolean: any non-zero integer payload is true.
pub fn js_value_get_bool(v: JSValue) -> (r: bool)
    ensures
        r == (payload_u32(v.bits) != 0),
{
    let lo: u32 = (v.bits % 0x1_0000_0000) as u32;
    lo != 0
}

/// Reads the payload as the raw bits of a 64-bit float. The caller that
/// talks to the native engine reinterprets these bits as its float type.
pub fn js_value_get_float64_bits(v: JSValue) -> (r: u64)
    ensures
        r == v.bits,
{
    v.bits
}

/// Law: the classification predicates are mutually exclusive. A value whose
/// tag classifies it one way is classified no other way; in particular a
/// number is never simultaneously a string, null, undefined, an object or
/// the exception marker.
pub proof fn lemma_classification_exclusive(v: JSValue)
    ensures
        is_number_tag(v) ==> !is_string_tag(v) && !is_null_tag(v) && !is_undefined_tag(v)
            && !is_object_tag(v) && !is_exception_tag(v) && !is_bool_tag(v) && !is_symbol_tag(v)
            && !is_uninitialized_tag(v),
        is_string_tag(v) ==> !is_null_tag(v) && !is_undefined_tag(v) && !is_object_tag(v)
            && !is_exception_tag(v) && !is_bool_tag(v) && !is_symbol_tag(v)
            && !is_uninitialized_tag(v),
        is_null_tag(v) ==> !is_undefined_tag(v) && !is_object_tag(v) && !is_exception_tag(v)
            && !is_bool_tag(v) && !is_symbol_tag(v) && !is_uninitialized_tag(v),
        is_undefined_tag(v) ==> !is_object_tag(v) && !is_exception_tag(v) && !is_bool_tag(v)
            && !is_symbol_tag(v) && !is_uninitialized_tag(v),
        is_object_tag(v) ==> !is_exception_tag(v) && !is_bool_tag(v) && !is_symbol_tag(v)
            && !is_uninitialized_tag(v),
        is_exception_tag(v) ==> !is_bool_tag(v) && !is_symbol_tag(v) && !is_uninitialized_tag(v),
        is_bool_tag(v) ==> !is_symbol_tag(v) && !is_uninitialized_tag(v),
        is_symbol_tag(v) ==> !is_uninitialized_tag(v),
{
}

} // verus!
