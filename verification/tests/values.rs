// Tag classification and payload extraction on concrete values.

use rusty_quickjs::context::Context;
use rusty_quickjs::jsval::{
    js_value_get_bool, js_value_get_int, JSValue, JS_IsBigDecimal, JS_IsBigFloat, JS_IsBigInt,
    JS_IsBool, JS_IsException, JS_IsNull, JS_IsNumber, JS_IsObject, JS_IsString, JS_IsSymbol,
    JS_IsUndefined, JS_IsUninitialized, JS_MKVAL, JS_VALUE_IS_NAN, JS_TAG_BOOL, JS_TAG_EXCEPTION,
    JS_TAG_FLOAT64, JS_TAG_INT, JS_TAG_NULL, JS_TAG_OBJECT, JS_TAG_STRING, JS_TAG_UNDEFINED,
};
use rusty_quickjs::runtime::Runtime;
use rusty_quickjs::value::Value;

fn ctx() -> Context {
    let rt = Runtime::new(0x1000).expect("Runtime new failed.");
    Context::from_runtime(&rt, 0x2000).expect("Context from failed.")
}

#[test]
fn classification_is_mutually_exclusive() {
    // a number-tagged value answers no other classification query
    let c = ctx();
    let v = Value::from_raw(&c, JS_MKVAL(JS_TAG_INT, 7));
    assert!(v.is_number());
    assert!(!v.is_string());
    assert!(!v.is_null());
    assert!(!v.is_undefined());
    assert!(!v.is_object());
    assert!(!v.is_exception());

    let s = Value::from_raw(&c, JSValue { tag: JS_TAG_STRING, bits: 0 });
    assert!(s.is_string());
    assert!(!s.is_number());
    assert!(!s.is_null());
    assert!(!s.is_undefined());
    assert!(!s.is_object());
    assert!(!s.is_exception());

    let n = Value::from_raw(&c, JSValue { tag: JS_TAG_NULL, bits: 0 });
    assert!(n.is_null());
    assert!(!n.is_number());
    assert!(!n.is_undefined());

    let u = Value::from_raw(&c, JSValue { tag: JS_TAG_UNDEFINED, bits: 0 });
    assert!(u.is_undefined());
    assert!(!u.is_null());

    let o = Value::from_raw(&c, JSValue { tag: JS_TAG_OBJECT, bits: 0 });
    assert!(o.is_object());
    assert!(!o.is_number());

    let e = Value::from_raw(&c, JSValue { tag: JS_TAG_EXCEPTION, bits: 0 });
    assert!(e.is_exception());
    assert!(!e.is_number());
    assert!(!e.is_object());
}

#[test]
fn float_tag_counts_as_number() {
    let c = ctx();
    let v = Value::from_raw(&c, JSValue { tag: JS_TAG_FLOAT64, bits: 0x4000_0000_0000_0000 });
    assert!(v.is_number());
    assert_eq!(v.get_f64_bits(), 0x4000_0000_0000_0000);
    assert_eq!(f64::from_bits(v.get_f64_bits()), 2.0);
}

#[test]
fn integer_payload_round_trips() {
    assert_eq!(js_value_get_int(JS_MKVAL(JS_TAG_INT, 0)), 0);
    assert_eq!(js_value_get_int(JS_MKVAL(JS_TAG_INT, 2)), 2);
    assert_eq!(js_value_get_int(JS_MKVAL(JS_TAG_INT, -1)), -1);
    assert_eq!(js_value_get_int(JS_MKVAL(JS_TAG_INT, i32::MAX)), i32::MAX);
    assert_eq!(js_value_get_int(JS_MKVAL(JS_TAG_INT, i32::MIN)), i32::MIN);
}

#[test]
fn boolean_payload_reads_any_nonzero_as_true() {
    assert!(!js_value_get_bool(JS_MKVAL(JS_TAG_BOOL, 0)));
    assert!(js_value_get_bool(JS_MKVAL(JS_TAG_BOOL, 1)));
    assert!(js_value_get_bool(JS_MKVAL(JS_TAG_BOOL, -3)));
    let c = ctx();
    let v = Value::from_raw(&c, JS_MKVAL(JS_TAG_BOOL, 1));
    assert!(v.get_bool());
}

#[test]
fn nan_check_needs_float_tag_and_nan_bits() {
    // a quiet NaN: exponent all ones, mantissa non-zero
    let nan_bits: u64 = 0x7ff8_0000_0000_0000;
    assert!(JS_VALUE_IS_NAN(JSValue { tag: JS_TAG_FLOAT64, bits: nan_bits }));
    assert!(f64::from_bits(nan_bits).is_nan());
    // an ordinary float is no NaN
    assert!(!JS_VALUE_IS_NAN(JSValue { tag: JS_TAG_FLOAT64, bits: 0x3ff0_0000_0000_0000 }));
    // infinity is no NaN
    assert!(!JS_VALUE_IS_NAN(JSValue { tag: JS_TAG_FLOAT64, bits: 0x7ff0_0000_0000_0000 }));
    // NaN bits under another tag are not a NaN value
    assert!(!JS_VALUE_IS_NAN(JSValue { tag: JS_TAG_INT, bits: nan_bits }));
}

#[test]
fn sys_predicates_follow_the_tag() {
    let int_v = JS_MKVAL(JS_TAG_INT, 5);
    assert!(JS_IsNumber(int_v));
    assert!(!JS_IsBigInt(int_v));
    assert!(!JS_IsBigFloat(int_v));
    assert!(!JS_IsBigDecimal(int_v));
    assert!(!JS_IsBool(int_v));
    assert!(!JS_IsNull(int_v));
    assert!(!JS_IsUndefined(int_v));
    assert!(!JS_IsException(int_v));
    assert!(!JS_IsUninitialized(int_v));
    assert!(!JS_IsString(int_v));
    assert!(!JS_IsSymbol(int_v));
    assert!(!JS_IsObject(int_v));

    assert!(JS_IsBool(JS_MKVAL(JS_TAG_BOOL, 1)));
    assert!(JS_IsNull(JSValue { tag: JS_TAG_NULL, bits: 0 }));
    assert!(JS_IsUndefined(JSValue { tag: JS_TAG_UNDEFINED, bits: 0 }));
    assert!(JS_IsException(JSValue { tag: JS_TAG_EXCEPTION, bits: 0 }));
    assert!(JS_IsString(JSValue { tag: JS_TAG_STRING, bits: 0 }));
    assert!(JS_IsObject(JSValue { tag: JS_TAG_OBJECT, bits: 0 }));
    assert!(JS_IsNumber(JSValue { tag: JS_TAG_FLOAT64, bits: 0 }));
}
