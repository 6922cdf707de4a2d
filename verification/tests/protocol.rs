// The evaluation protocol: encoding for the native boundary, the request's
// contents, and the equivalence of standalone and explicit contexts.

use rusty_quickjs::context::{Context, ContextInternal, EvalError};
use rusty_quickjs::encoding::to_c_bytes;
use rusty_quickjs::jsval::{JSValue, JS_MKVAL, JS_TAG_EXCEPTION, JS_TAG_INT};
use rusty_quickjs::runtime::{Runtime, RuntimeInternal};

fn ctx() -> Context {
    let rt = Runtime::new(0x1000).expect("Runtime new failed.");
    Context::from_runtime(&rt, 0x2000).expect("Context from failed.")
}

#[test]
fn source_with_embedded_null_is_rejected_before_any_native_call() {
    let c = ctx();
    let r = c.eval_request("1 +\0 1", "main.js");
    match r {
        Err(EvalError::EncodingFailed) => {}
        _ => panic!("an embedded null byte must fail the encoding"),
    }
}

#[test]
fn label_with_embedded_null_is_rejected_before_any_native_call() {
    let c = ctx();
    let r = c.eval_request("1 + 1", "main\0.js");
    match r {
        Err(EvalError::EncodingFailed) => {}
        _ => panic!("an embedded null byte must fail the encoding"),
    }
}

#[test]
fn request_carries_terminated_bytes_and_exact_length() {
    let c = ctx();
    let req = c.eval_request("1 + 1", "main.js").expect("Eval failed.");
    assert_eq!(req.script, b"1 + 1\0".to_vec());
    assert_eq!(req.script_len, 5);
    assert_eq!(req.filename, b"main.js\0".to_vec());
    assert_eq!(req.flags, 0);
}

#[test]
fn empty_source_is_encodable() {
    let c = ctx();
    let req = c.eval_request("", "main.js").expect("Eval failed.");
    assert_eq!(req.script, b"\0".to_vec());
    assert_eq!(req.script_len, 0);
}

#[test]
fn to_c_bytes_appends_one_terminator() {
    assert_eq!(to_c_bytes("ab"), Some(b"ab\0".to_vec()));
    assert_eq!(to_c_bytes(""), Some(b"\0".to_vec()));
    assert_eq!(to_c_bytes("a\0b"), None);
    assert_eq!(to_c_bytes("\0"), None);
}

#[test]
fn creation_fails_only_on_null_handles() {
    assert!(Runtime::new(0).is_err());
    let rt = Runtime::new(0x1000).expect("Runtime new failed.");
    assert!(Context::from_runtime(&rt, 0).is_err());
    assert!(Context::from_no_runtime(0, 0x2000).is_err());
    assert!(Context::from_no_runtime(0x1000, 0).is_err());
    assert!(Context::from_no_runtime(0x1000, 0x2000).is_ok());
}

#[test]
fn internal_wrappers_carry_their_handles() {
    let rti = RuntimeInternal::new(0x1000).expect("Runtime new failed.");
    assert_eq!(rti.as_ptr(), 0x1000);
    let rti2 = RuntimeInternal::from_raw(0x1000);
    assert_eq!(rti2.as_ptr(), 0x1000);
    assert!(RuntimeInternal::new(0).is_err());
    let ci = ContextInternal::from_runtime_internal_rc(rti, 0x2000).expect("Context from failed.");
    assert_eq!(ci.as_ptr(), 0x2000);
    assert_eq!(ci.runtime_internal_rc().as_ptr(), 0x1000);
    let ci2 = ContextInternal::from_runtime_raw(0x1000, 0x2000).expect("Context from failed.");
    assert_eq!(ci2.as_ptr(), 0x2000);
    assert!(ContextInternal::from_runtime_internal_rc(rti, 0).is_err());
}

#[test]
fn standalone_context_evaluates_like_an_explicit_one() {
    // same native handles, one context over a private runtime, one over an
    // explicit runtime: the whole protocol answers identically
    let standalone = Context::from_no_runtime(0x1000, 0x2000).expect("Context from failed.");
    let rt = Runtime::new(0x1000).expect("Runtime new failed.");
    let explicit = Context::from_runtime(&rt, 0x2000).expect("Context from failed.");

    let req_a = standalone.eval_request("1 + 1", "main.js").expect("Eval failed.");
    let req_b = explicit.eval_request("1 + 1", "main.js").expect("Eval failed.");
    assert_eq!(req_a.script, req_b.script);
    assert_eq!(req_a.script_len, req_b.script_len);
    assert_eq!(req_a.filename, req_b.filename);
    assert_eq!(req_a.flags, req_b.flags);

    let raw = JS_MKVAL(JS_TAG_INT, 2);
    let val_a = standalone.eval_outcome(raw, None).expect("Eval failed.");
    let val_b = explicit.eval_outcome(raw, None).expect("Eval failed.");
    assert_eq!(val_a.is_number(), val_b.is_number());
    assert_eq!(val_a.get_i32(), val_b.get_i32());

    let marker = JSValue { tag: JS_TAG_EXCEPTION, bits: 0 };
    let pending = JS_MKVAL(JS_TAG_INT, 3);
    let err_a = standalone.eval_outcome(marker, Some(pending));
    let err_b = explicit.eval_outcome(marker, Some(pending));
    match (err_a, err_b) {
        (Err(EvalError::RuntimeException(a)), Err(EvalError::RuntimeException(b))) => {
            assert_eq!(a.get_i32(), b.get_i32());
        }
        _ => panic!("both contexts must surface the pending exception"),
    }
}
