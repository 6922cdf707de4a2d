// The ownership ledger: deferred frees, exactly-once destruction, and
// values keeping their context alive.

use rusty_quickjs::ledger::Ledger;

const RT: u64 = 0x1000;
const CTX: u64 = 0x2000;
const CTX2: u64 = 0x2100;

#[test]
fn runtime_outlives_its_wrapper_while_a_context_lives() {
    let mut l = Ledger::new();
    l.runtime_created(RT);
    l.context_created(CTX, RT);
    // dropping the runtime's wrapper while the context is alive frees nothing
    let ops = l.runtime_dropped(RT);
    assert!(ops.free_runtime.is_none());
    assert!(ops.free_context.is_none());
    assert!(l.is_tracked_runtime(RT));
    assert!(l.is_tracked_context(CTX));
    // releasing the last context frees the context, then the runtime
    let ops = l.context_dropped(CTX);
    assert_eq!(ops.free_context, Some(CTX));
    assert_eq!(ops.free_runtime, Some(RT));
    assert!(!l.is_tracked_runtime(RT));
    assert!(!l.is_tracked_context(CTX));
}

#[test]
fn values_keep_their_context_alive() {
    let mut l = Ledger::new();
    l.runtime_created(RT);
    l.context_created(CTX, RT);
    l.value_created(CTX);
    l.value_created(CTX);
    // the context's wrapper goes away first: both values still read it
    let ops = l.context_dropped(CTX);
    assert!(ops.free_context.is_none());
    assert!(ops.free_runtime.is_none());
    assert!(l.is_tracked_context(CTX));
    // one sibling value goes: the other still keeps the context alive
    let ops = l.value_dropped(CTX);
    assert!(ops.free_context.is_none());
    assert!(l.is_tracked_context(CTX));
    // the last value goes: the context's handle is freed, the runtime's is
    // still held by its own wrapper
    let ops = l.value_dropped(CTX);
    assert_eq!(ops.free_context, Some(CTX));
    assert!(ops.free_runtime.is_none());
    assert!(!l.is_tracked_context(CTX));
    assert!(l.is_tracked_runtime(RT));
    let ops = l.runtime_dropped(RT);
    assert_eq!(ops.free_runtime, Some(RT));
}

#[test]
fn freed_handles_leave_the_ledger_and_can_be_reused() {
    // exactly-once: the step that reports a handle freed also stops
    // tracking it, so no later release can free it again; the native
    // allocator may hand the same address out afresh
    let mut l = Ledger::new();
    l.runtime_created(RT);
    let ops = l.runtime_dropped(RT);
    assert_eq!(ops.free_runtime, Some(RT));
    assert!(!l.is_tracked_runtime(RT));
    // the address comes back from the allocator: a new, distinct resource
    l.runtime_created(RT);
    assert!(l.is_tracked_runtime(RT));
    let ops = l.runtime_dropped(RT);
    assert_eq!(ops.free_runtime, Some(RT));
}

#[test]
fn standalone_context_frees_its_private_runtime() {
    let mut l = Ledger::new();
    l.context_created_standalone(CTX, RT);
    assert!(l.is_tracked_runtime(RT));
    assert!(l.is_tracked_context(CTX));
    // nobody holds the private runtime's wrapper: the last context release
    // frees both handles, the context's first
    let ops = l.context_dropped(CTX);
    assert_eq!(ops.free_context, Some(CTX));
    assert_eq!(ops.free_runtime, Some(RT));
    assert!(!l.is_tracked_runtime(RT));
    assert!(!l.is_tracked_context(CTX));
}

#[test]
fn value_counts_follow_creation_and_release() {
    let mut l = Ledger::new();
    assert_eq!(l.value_ref_count(CTX), None);
    l.runtime_created(RT);
    l.context_created(CTX, RT);
    assert_eq!(l.value_ref_count(CTX), Some(0));
    l.value_created(CTX);
    l.value_created(CTX);
    assert_eq!(l.value_ref_count(CTX), Some(2));
    l.value_dropped(CTX);
    assert_eq!(l.value_ref_count(CTX), Some(1));
}

#[test]
fn a_sibling_context_keeps_the_shared_runtime_alive() {
    let mut l = Ledger::new();
    l.runtime_created(RT);
    l.context_created(CTX, RT);
    l.context_created(CTX2, RT);
    l.runtime_dropped(RT);
    // the first context goes: its handle is freed, but the second context
    // still needs the runtime
    let ops = l.context_dropped(CTX);
    assert_eq!(ops.free_context, Some(CTX));
    assert!(ops.free_runtime.is_none());
    assert!(l.is_tracked_runtime(RT));
    // the second context was the last holder: the runtime goes with it
    let ops = l.context_dropped(CTX2);
    assert_eq!(ops.free_context, Some(CTX2));
    assert_eq!(ops.free_runtime, Some(RT));
}
