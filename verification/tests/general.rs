// The two canonical evaluation scenarios, driven through the evaluation
// protocol: the caller builds the request, stands in for the engine's
// answer, and hands the answer back for classification.

use rusty_quickjs::context::{Context, EvalError};
use rusty_quickjs::jsval::{JSValue, JS_MKVAL, JS_TAG_EXCEPTION, JS_TAG_INT};
use rusty_quickjs::runtime::Runtime;

#[test]
fn test_one_and_one() {
    let rt = Runtime::new(0x1000).expect("Runtime new failed.");
    let ctx = Context::from_runtime(&rt, 0x2000).expect("Context from failed.");
    let req = ctx.eval_request("1 + 1", "simpletest.js").expect("Eval failed.");
    assert_eq!(req.script_len, "1 + 1".len());
    // evaluating "1 + 1" makes the engine answer the integer-tagged value two
    let raw = JS_MKVAL(JS_TAG_INT, 2);
    let val = ctx.eval_outcome(raw, None).expect("Eval failed.");
    assert!(val.is_number());
    assert_eq!(val.get_i32(), 2);
}

#[test]
fn test_throw() {
    let rt = Runtime::new(0x1000).expect("Runtime new failed.");
    let ctx = Context::from_runtime(&rt, 0x2000).expect("Context from failed.");
    let req = ctx.eval_request("throw 1", "simpletest.js");
    assert!(req.is_ok());
    // evaluating "throw 1" makes the engine answer the exception marker,
    // with the number one pending as the real exception value
    let marker = JSValue { tag: JS_TAG_EXCEPTION, bits: 0 };
    let pending = JS_MKVAL(JS_TAG_INT, 1);
    let val = ctx.eval_outcome(marker, Some(pending));
    assert!(val.is_err());
    match val {
        Err(err) => match err {
            EvalError::RuntimeException(err) => {
                assert!(err.is_number());
                assert_eq!(err.get_i32(), 1);
            }
            _ => unreachable!(),
        },
        _ => unreachable!(),
    }
}
