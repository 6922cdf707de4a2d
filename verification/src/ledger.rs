//! The three-tier ownership ledger.
//!
//! The engine's resources form a chain: a runtime owns everything created
//! under it, a context is bound to one runtime, and a value is bound to
//! the context that produced it. Each native handle must be freed exactly
//! once, and only when nothing above it in the chain still needs it: a
//! runtime's native destruction is deferred until its last referencing
//! context is gone, and a context's until its last referencing value is
//! gone.
//!
//! This module makes that discipline explicit. The process that owns the
//! native handles reports every creation and every release here, and the
//! ledger answers with the native frees that are now owed. A handle leaves
//! the ledger in the same step that reports it free, and every release
//! operation demands a tracked handle, so a free is owed at most once per
//! handle and never while a dependent resource is alive.

use vstd::prelude::*;

verus! {

/// One tracked engine runtime. `owner_held` says whether the caller still
/// holds the runtime's own wrapper; contexts bound to the runtime are
/// tracked separately and also keep it alive.
#[derive(Clone, Copy)]
pub struct RuntimeEntry {
    pub handle: u64,
    pub owner_held: bool,
}

/// One tracked execution context: its own handle, the runtime it is bound
/// to, whether the caller still holds the context's wrapper, and how many
/// values produced by the context are still held.
#[derive(Clone, Copy)]
pub struct ContextEntry {
    pub handle: u64,
    pub rt: u64,
    pub owner_held: bool,
    pub value_refs: u64,
}

/// The native frees a release operation makes owed: at most one context
/// handle and at most one runtime handle, the context's always before the
/// runtime's.
pub struct FreeOps {
    pub free_context: Option<u64>,
    pub free_runtime: Option<u64>,
}

pub open spec fn rt_tracked(s: Seq<RuntimeEntry>, h: u64) -> bool {
    exists|i: int| 0 <= i < s.len() && (#[trigger] s[i]).handle == h
}

pub open spec fn rt_idx(s: Seq<RuntimeEntry>, h: u64) -> int {
    choose|i: int| 0 <= i < s.len() && (#[trigger] s[i]).handle == h
}

pub open spec fn rt_owner_held(s: Seq<RuntimeEntry>, h: u64) -> bool {
    exists|i: int|
        0 <= i < s.len() && (#[trigger] s[i]).handle == h && s[i].owner_held
}

pub open spec fn ctx_tracked(s: Seq<ContextEntry>, h: u64) -> bool {
    exists|i: int| 0 <= i < s.len() && (#[trigger] s[i]).handle == h
}

pub open spec fn ctx_idx(s: Seq<ContextEntry>, h: u64) -> int {
    choose|i: int| 0 <= i < s.len() && (#[trigger] s[i]).handle == h
}

pub open spec fn ctx_owner_held(s: Seq<ContextEntry>, h: u64) -> bool {
    exists|i: int|
        0 <= i < s.len() && (#[trigger] s[i]).handle == h && s[i].owner_held
}

pub open spec fn some_ctx_references(s: Seq<ContextEntry>, rt: u64) -> bool {
    exists|i: int| 0 <= i < s.len() && (#[trigger] s[i]).rt == rt
}

/// Some context other than `c` is bound to `rt`.
pub open spec fn other_ctx_references(s: Seq<ContextEntry>, c: u64, rt: u64) -> bool {
    exists|i: int| 0 <= i < s.len() && (#[trigger] s[i]).rt == rt && s[i].handle != c
}

pub open spec fn rt_handles_distinct(s: Seq<RuntimeEntry>) -> bool {
    forall|i: int, j: int|
        #![trigger s[i], s[j]]
        0 <= i < s.len() && 0 <= j < s.len() && i != j ==> s[i].handle != s[j].handle
}

pub open spec fn ctx_handles_distinct(s: Seq<ContextEntry>) -> bool {
    forall|i: int, j: int|
        #![trigger s[i], s[j]]
        0 <= i < s.len() && 0 <= j < s.len() && i != j ==> s[i].handle != s[j].handle
}

proof fn lemma_rt_at(s: Seq<RuntimeEntry>, i: int, h: u64)
    requires
        rt_handles_distinct(s),
        0 <= i < s.len(),
        s[i].handle == h,
    ensures
        rt_tracked(s, h),
        rt_idx(s, h) == i,
        rt_owner_held(s, h) == s[i].owner_held,
{
    assert(rt_tracked(s, h));
    let j = rt_idx(s, h);
    assert(0 <= j < s.len() && s[j].handle == h);
    if rt_owner_held(s, h) {
        let k = choose|k: int|
            0 <= k < s.len() && (#[trigger] s[k]).handle == h && s[k].owner_held;
        assert(k == i);
    }
}

proof fn lemma_ctx_at(s: Seq<ContextEntry>, i: int, h: u64)
    requires
        ctx_handles_distinct(s),
        0 <= i < s.len(),
        s[i].handle == h,
    ensures
        ctx_tracked(s, h),
        ctx_idx(s, h) == i,
        ctx_owner_held(s, h) == s[i].owner_held,
{
    assert(ctx_tracked(s, h));
    let j = ctx_idx(s, h);
    assert(0 <= j < s.len() && s[j].handle == h);
    if ctx_owner_held(s, h) {
        let k = choose|k: int|
            0 <= k < s.len() && (#[trigger] s[k]).handle == h && s[k].owner_held;
        assert(k == i);
    }
}

proof fn lemma_rt_remove(s: Seq<RuntimeEntry>, i: int, x: u64)
    requires
        0 <= i < s.len(),
    ensures
        rt_tracked(s.remove(i), x) ==> rt_tracked(s, x),
        rt_tracked(s, x) && s[i].handle != x ==> rt_tracked(s.remove(i), x),
        rt_owner_held(s.remove(i), x) ==> rt_owner_held(s, x),
        rt_owner_held(s, x) && s[i].handle != x ==> rt_owner_held(s.remove(i), x),
{
    let t = s.remove(i);
    if rt_tracked(t, x) {
        let j = choose|j: int| 0 <= j < t.len() && (#[trigger] t[j]).handle == x;
        if j < i {
            assert(s[j].handle == x);
        } else {
            assert(s[j + 1].handle == x);
        }
    }
    if rt_tracked(s, x) && s[i].handle != x {
        let j = choose|j: int| 0 <= j < s.len() && (#[trigger] s[j]).handle == x;
        if j < i {
            assert(t[j].handle == x);
        } else {
            assert(t[j - 1].handle == x);
        }
    }
    if rt_owner_held(t, x) {
        let j = choose|j: int|
            0 <= j < t.len() && (#[trigger] t[j]).handle == x && t[j].owner_held;
        if j < i {
            assert(s[j].handle == x && s[j].owner_held);
        } else {
            assert(s[j + 1].handle == x && s[j + 1].owner_held);
        }
    }
    if rt_owner_held(s, x) && s[i].handle != x {
        let j = choose|j: int|
            0 <= j < s.len() && (#[trigger] s[j]).handle == x && s[j].owner_held;
        if j < i {
            assert(t[j].handle == x && t[j].owner_held);
        } else {
            assert(t[j - 1].handle == x && t[j - 1].owner_held);
        }
    }
}

proof fn lemma_ctx_remove(s: Seq<ContextEntry>, i: int, x: u64)
    requires
        0 <= i < s.len(),
    ensures
        ctx_tracked(s.remove(i), x) ==> ctx_tracked(s, x),
        ctx_tracked(s, x) && s[i].handle != x ==> ctx_tracked(s.remove(i), x),
        ctx_owner_held(s.remove(i), x) ==> ctx_owner_held(s, x),
        ctx_owner_held(s, x) && s[i].handle != x ==> ctx_owner_held(s.remove(i), x),
        some_ctx_references(s.remove(i), x) ==> some_ctx_references(s, x),
        other_ctx_references(s, s[i].handle, x) ==> some_ctx_references(s.remove(i), x),
{
    let t = s.remove(i);
    if ctx_tracked(t, x) {
        let j = choose|j: int| 0 <= j < t.len() && (#[trigger] t[j]).handle == x;
        if j < i {
            assert(s[j].handle == x);
        } else {
            assert(s[j + 1].handle == x);
        }
    }
    if ctx_tracked(s, x) && s[i].handle != x {
        let j = choose|j: int| 0 <= j < s.len() && (#[trigger] s[j]).handle == x;
        if j < i {
            assert(t[j].handle == x);
        } else {
            assert(t[j - 1].handle == x);
        }
    }
    if ctx_owner_held(t, x) {
        let j = choose|j: int|
            0 <= j < t.len() && (#[trigger] t[j]).handle == x && t[j].owner_held;
        if j < i {
            assert(s[j].handle == x && s[j].owner_held);
        } else {
            assert(s[j + 1].handle == x && s[j + 1].owner_held);
        }
    }
    if ctx_owner_held(s, x) && s[i].handle != x {
        let j = choose|j: int|
            0 <= j < s.len() && (#[trigger] s[j]).handle == x && s[j].owner_held;
        if j < i {
            assert(t[j].handle == x && t[j].owner_held);
        } else {
            assert(t[j - 1].handle == x && t[j - 1].owner_held);
        }
    }
    if some_ctx_references(t, x) {
        let j = choose|j: int| 0 <= j < t.len() && (#[trigger] t[j]).rt == x;
        if j < i {
            assert(s[j].rt == x);
        } else {
            assert(s[j + 1].rt == x);
        }
    }
    if other_ctx_references(s, s[i].handle, x) {
        let j = choose|j: int|
            0 <= j < s.len() && (#[trigger] s[j]).rt == x && s[j].handle != s[i].handle;
        if j < i {
            assert(t[j].rt == x);
        } else {
            assert(j != i);
            assert(t[j - 1].rt == x);
        }
    }
}

proof fn lemma_ctx_update_frame(pre: Seq<ContextEntry>, e: ContextEntry, i: int, x: u64)
    requires
        0 <= i < pre.len(),
        e.handle == pre[i].handle,
        ctx_handles_distinct(pre),
        x != e.handle,
    ensures
        ctx_tracked(pre.update(i, e), x) == ctx_tracked(pre, x),
        ctx_owner_held(pre.update(i, e), x) == ctx_owner_held(pre, x),
        ctx_tracked(pre, x) ==> (ctx_idx(pre.update(i, e), x) == ctx_idx(pre, x)
            && pre.update(i, e)[ctx_idx(pre, x)] == pre[ctx_idx(pre, x)]),
{
    let s = pre.update(i, e);
    assert forall|j: int| 0 <= j < s.len() implies (#[trigger] s[j]).handle == pre[j].handle by {
    }
    assert forall|a: int, b: int|
        #![trigger s[a], s[b]]
        0 <= a < s.len() && 0 <= b < s.len() && a != b implies s[a].handle != s[b].handle by {
        assert(s[a].handle == pre[a].handle);
        assert(s[b].handle == pre[b].handle);
    }
    if ctx_tracked(pre, x) {
        let j = ctx_idx(pre, x);
        lemma_ctx_at(pre, j, x);
        assert(j != i);
        assert(s[j] == pre[j]);
        lemma_ctx_at(s, j, x);
    }
    if ctx_tracked(s, x) {
        let j = choose|j: int| 0 <= j < s.len() && (#[trigger] s[j]).handle == x;
        assert(pre[j].handle == x);
    }
    if ctx_owner_held(pre, x) {
        let j = choose|j: int|
            0 <= j < pre.len() && (#[trigger] pre[j]).handle == x && pre[j].owner_held;
        assert(j != i);
        assert(s[j].handle == x && s[j].owner_held);
    }
    if ctx_owner_held(s, x) {
        let j = choose|j: int|
            0 <= j < s.len() && (#[trigger] s[j]).handle == x && s[j].owner_held;
        assert(j != i);
        assert(pre[j].handle == x && pre[j].owner_held);
    }
}

/// The runtime handle is tracked the same way, with the same owner mark,
/// in both ledgers.
pub open spec fn runtime_state_eq(a: Ledger, b: Ledger, h: u64) -> bool {
    &&& a.tracks_runtime(h) == b.tracks_runtime(h)
    &&& a.runtime_owner_held(h) == b.runtime_owner_held(h)
}

/// The context handle is tracked the same way, with the same binding,
/// owner mark and value count, in both ledgers.
pub open spec fn context_state_eq(a: Ledger, b: Ledger, h: u64) -> bool {
    &&& a.tracks_context(h) == b.tracks_context(h)
    &&& a.context_owner_held(h) == b.context_owner_held(h)
    &&& (a.tracks_context(h) ==> a.context_rt(h) == b.context_rt(h)
        && a.context_value_refs(h) == b.context_value_refs(h))
}

/// The ledger of live native handles.
pub struct Ledger {
    runtimes: Vec<RuntimeEntry>,
    contexts: Vec<ContextEntry>,
}

impl Ledger {
    pub closed spec fn rts(self) -> Seq<RuntimeEntry> {
        self.runtimes@
    }

    pub closed spec fn ctxs(self) -> Seq<ContextEntry> {
        self.contexts@
    }

    /// The runtime handle has been reported created and not yet freed.
    pub open spec fn tracks_runtime(self, h: u64) -> bool {
        rt_tracked(self.rts(), h)
    }

    /// The caller still holds the runtime's own wrapper.
    pub open spec fn runtime_owner_held(self, h: u64) -> bool {
        rt_owner_held(self.rts(), h)
    }

    /// The context handle has been reported created and not yet freed.
    pub open spec fn tracks_context(self, h: u64) -> bool {
        ctx_tracked(self.ctxs(), h)
    }

    /// The runtime a tracked context is bound to.
    pub open spec fn context_rt(self, h: u64) -> u64 {
        self.ctxs()[ctx_idx(self.ctxs(), h)].rt
    }

    /// The caller still holds the context's own wrapper.
    pub open spec fn context_owner_held(self, h: u64) -> bool {
        ctx_owner_held(self.ctxs(), h)
    }

    /// How many values produced by the context are still held.
    pub open spec fn context_value_refs(self, h: u64) -> u64 {
        self.ctxs()[ctx_idx(self.ctxs(), h)].value_refs
    }

    /// Some tracked context is bound to this runtime.
    pub open spec fn context_referencing(self, rt: u64) -> bool {
        some_ctx_references(self.ctxs(), rt)
    }

    /// Some tracked context other than `c` is bound to this runtime.
    pub open spec fn other_context_referencing(self, c: u64, rt: u64) -> bool {
        other_ctx_references(self.ctxs(), c, rt)
    }

    /// Well-formedness: handles are non-null and tracked at most once, a
    /// tracked context is still needed by someone, and every tracked
    /// context is bound to a tracked runtime — the runtime of a live
    /// context is never freed.
    pub closed spec fn wf(self) -> bool {
        &&& rt_handles_distinct(self.rts())
        &&& ctx_handles_distinct(self.ctxs())
        &&& (forall|i: int| 0 <= i < self.rts().len() ==> (#[trigger] self.rts()[i]).handle != 0)
        &&& (forall|i: int| 0 <= i < self.ctxs().len() ==> (#[trigger] self.ctxs()[i]).handle != 0)
        &&& (forall|i: int|
            0 <= i < self.ctxs().len() ==> rt_tracked(
                self.rts(),
                (#[trigger] self.ctxs()[i]).rt,
            ))
        &&& (forall|i: int|
            0 <= i < self.ctxs().len() ==> (#[trigger] self.ctxs()[i]).owner_held
                || self.ctxs()[i].value_refs >= 1)
    }

    /// Law: while any context is tracked, the runtime it is bound to is
    /// tracked too, so using the context can never reach a freed runtime.
    pub proof fn lemma_contexts_hold_runtimes_alive(self, c: u64)
        requires
            self.wf(),
            self.tracks_context(c),
        ensures
            self.tracks_runtime(self.context_rt(c)),
    {
        let i = ctx_idx(self.ctxs(), c);
        assert(0 <= i < self.ctxs().len() && self.ctxs()[i].handle == c);
    }

    /// Law (exactly-once free): a handle leaves the ledger in the same step
    /// that reports it freed, and once it is untracked no release operation
    /// accepts it — an untracked runtime is not owner-held, and an
    /// untracked context is not owner-held either, so every release demands
    /// a handle whose free is still owed.
    pub proof fn lemma_untracked_cannot_be_released(self, h: u64)
        ensures
            !self.tracks_runtime(h) ==> !self.runtime_owner_held(h),
            !self.tracks_context(h) ==> !self.context_owner_held(h),
    {
    }

    /// An empty ledger: nothing tracked, nothing owed.
    pub fn new() -> (r: Ledger)
        ensures
            r.wf(),
            forall|h: u64| !r.tracks_runtime(h),
            forall|h: u64| !r.tracks_context(h),
    {
        Ledger { runtimes: Vec::new(), contexts: Vec::new() }
    }

    fn find_runtime(&self, h: u64) -> (r: Option<usize>)
        ensures
            match r {
                Some(i) => i < self.rts().len() && self.rts()[i as int].handle == h,
                None => !rt_tracked(self.rts(), h),
            },
    {
        let mut i: usize = 0;
        while i < self.runtimes.len()
            invariant
                0 <= i <= self.rts().len(),
                forall|j: int| 0 <= j < i ==> (#[trigger] self.rts()[j]).handle != h,
            decreases self.rts().len() - i,
        {
            if self.runtimes[i].handle == h {
                return Some(i);
            }
            i = i + 1;
        }
        None
    }

    fn find_context(&self, h: u64) -> (r: Option<usize>)
        ensures
            match r {
                Some(i) => i < self.ctxs().len() && self.ctxs()[i as int].handle == h,
                None => !ctx_tracked(self.ctxs(), h),
            },
    {
        let mut i: usize = 0;
        while i < self.contexts.len()
            invariant
                0 <= i <= self.ctxs().len(),
                forall|j: int| 0 <= j < i ==> (#[trigger] self.ctxs()[j]).handle != h,
            decreases self.ctxs().len() - i,
        {
            if self.contexts[i].handle == h {
                return Some(i);
            }
            i = i + 1;
        }
        None
    }

    fn any_context_referencing(&self, rt: u64) -> (r: bool)
        ensures
            r == some_ctx_references(self.ctxs(), rt),
    {
        let mut i: usize = 0;
        while i < self.contexts.len()
            invariant
                0 <= i <= self.ctxs().len(),
                forall|j: int| 0 <= j < i ==> (#[trigger] self.ctxs()[j]).rt != rt,
            decreases self.ctxs().len() - i,
        {
            if self.contexts[i].rt == rt {
                return true;
            }
            i = i + 1;
        }
        false
    }

    /// The caller allocated a fresh native runtime and holds its wrapper.
    /// The native allocator never hands out a handle that is still live,
    /// so the handle cannot already be tracked.
    pub fn runtime_created(&mut self, h: u64)
        requires
            old(self).wf(),
            h != 0,
            !old(self).tracks_runtime(h),
        ensures
            final(self).wf(),
            final(self).tracks_runtime(h),
            final(self).runtime_owner_held(h),
            forall|x: u64| x != h ==> runtime_state_eq(*old(self), *final(self), x),
            final(self).ctxs() == old(self).ctxs(),
            forall|x: u64| context_state_eq(*old(self), *final(self), x),
    {
        let ghost pre = *self;
        self.runtimes.push(RuntimeEntry { handle: h, owner_held: true });
        proof {
            let s = self.rts();
            let n = pre.rts().len() as int;
            assert(s[n].handle == h && s[n].owner_held);
            assert forall|x: u64| x != h implies runtime_state_eq(pre, *self, x) by {
                if rt_tracked(pre.rts(), x) {
                    let j = choose|j: int|
                        0 <= j < pre.rts().len() && (#[trigger] pre.rts()[j]).handle == x;
                    assert(s[j].handle == x);
                }
                if rt_tracked(s, x) {
                    let j = choose|j: int| 0 <= j < s.len() && (#[trigger] s[j]).handle == x;
                    assert(j != n);
                    assert(pre.rts()[j].handle == x);
                }
                if rt_owner_held(pre.rts(), x) {
                    let j = choose|j: int|
                        0 <= j < pre.rts().len() && (#[trigger] pre.rts()[j]).handle == x
                            && pre.rts()[j].owner_held;
                    assert(s[j].handle == x && s[j].owner_held);
                }
                if rt_owner_held(s, x) {
                    let j = choose|j: int|
                        0 <= j < s.len() && (#[trigger] s[j]).handle == x && s[j].owner_held;
                    assert(j != n);
                    assert(pre.rts()[j].handle == x && pre.rts()[j].owner_held);
                }
            }
            assert forall|i: int| 0 <= i < self.ctxs().len() implies rt_tracked(
                s,
                (#[trigger] self.ctxs()[i]).rt,
            ) by {
                let j = choose|j: int|
                    0 <= j < pre.rts().len() && (#[trigger] pre.rts()[j]).handle
                        == self.ctxs()[i].rt;
                assert(s[j].handle == self.ctxs()[i].rt);
            }
        }
    }

    /// The caller created a native context bound to a tracked runtime and
    /// holds its wrapper. The context keeps the runtime alive from here on.
    pub fn context_created(&mut self, c: u64, rt: u64)
        requires
            old(self).wf(),
            c != 0,
            !old(self).tracks_context(c),
            old(self).tracks_runtime(rt),
        ensures
            final(self).wf(),
            final(self).tracks_context(c),
            final(self).context_owner_held(c),
            final(self).context_rt(c) == rt,
            final(self).context_value_refs(c) == 0,
            final(self).context_referencing(rt),
            forall|x: u64| x != c ==> context_state_eq(*old(self), *final(self), x),
            final(self).rts() == old(self).rts(),
            forall|x: u64| runtime_state_eq(*old(self), *final(self), x),
    {
        let ghost pre = *self;
        self.contexts.push(ContextEntry { handle: c, rt, owner_held: true, value_refs: 0 });
        proof {
            let s = self.ctxs();
            let n = pre.ctxs().len() as int;
            assert(s[n].handle == c && s[n].owner_held && s[n].rt == rt && s[n].value_refs == 0);
            lemma_ctx_at(s, n, c);
            assert forall|x: u64| x != c implies context_state_eq(pre, *self, x) by {
                self.lemma_ctx_push_frame(pre, x);
            }
            assert forall|i: int| 0 <= i < s.len() implies rt_tracked(
                self.rts(),
                (#[trigger] s[i]).rt,
            ) by {
                if i < n {
                    assert(rt_tracked(pre.rts(), pre.ctxs()[i].rt));
                }
            }
        }
    }

    /// The caller created a context over a private runtime it never holds a
    /// wrapper for: the runtime was freshly allocated and only the context
    /// keeps it alive.
    pub fn context_created_standalone(&mut self, c: u64, rt: u64)
        requires
            old(self).wf(),
            c != 0,
            rt != 0,
            !old(self).tracks_context(c),
            !old(self).tracks_runtime(rt),
        ensures
            final(self).wf(),
            final(self).tracks_context(c),
            final(self).context_owner_held(c),
            final(self).context_rt(c) == rt,
            final(self).context_value_refs(c) == 0,
            final(self).tracks_runtime(rt),
            !final(self).runtime_owner_held(rt),
            final(self).context_referencing(rt),
            forall|x: u64| x != c ==> context_state_eq(*old(self), *final(self), x),
            forall|x: u64| x != rt ==> runtime_state_eq(*old(self), *final(self), x),
    {
        let ghost pre = *self;
        self.runtimes.push(RuntimeEntry { handle: rt, owner_held: false });
        let ghost mid = *self;
        self.contexts.push(ContextEntry { handle: c, rt, owner_held: true, value_refs: 0 });
        proof {
            let s = self.ctxs();
            let n = pre.ctxs().len() as int;
            let sr = self.rts();
            let nr = pre.rts().len() as int;
            assert(sr[nr].handle == rt && !sr[nr].owner_held);
            assert(s[n].handle == c && s[n].owner_held && s[n].rt == rt && s[n].value_refs == 0);
            assert(rt_handles_distinct(sr));
            lemma_rt_at(sr, nr, rt);
            lemma_ctx_at(s, n, c);
            assert forall|x: u64| x != c implies context_state_eq(pre, *self, x) by {
                self.lemma_ctx_push_frame(pre, x);
            }
            assert forall|x: u64| x != rt implies runtime_state_eq(pre, *self, x) by {
                if rt_tracked(pre.rts(), x) {
                    let j = choose|j: int|
                        0 <= j < pre.rts().len() && (#[trigger] pre.rts()[j]).handle == x;
                    assert(sr[j].handle == x);
                }
                if rt_tracked(sr, x) {
                    let j = choose|j: int| 0 <= j < sr.len() && (#[trigger] sr[j]).handle == x;
                    assert(j != nr);
                    assert(pre.rts()[j].handle == x);
                }
                if rt_owner_held(pre.rts(), x) {
                    let j = choose|j: int|
                        0 <= j < pre.rts().len() && (#[trigger] pre.rts()[j]).handle == x
                            && pre.rts()[j].owner_held;
                    assert(sr[j].handle == x && sr[j].owner_held);
                }
                if rt_owner_held(sr, x) {
                    let j = choose|j: int|
                        0 <= j < sr.len() && (#[trigger] sr[j]).handle == x && sr[j].owner_held;
                    assert(j != nr);
                    assert(pre.rts()[j].handle == x && pre.rts()[j].owner_held);
                }
            }
            assert forall|i: int| 0 <= i < s.len() implies rt_tracked(
                sr,
                (#[trigger] s[i]).rt,
            ) by {
                if i < n {
                    assert(rt_tracked(pre.rts(), pre.ctxs()[i].rt));
                    let j = choose|j: int|
                        0 <= j < pre.rts().len() && (#[trigger] pre.rts()[j]).handle == s[i].rt;
                    assert(sr[j].handle == s[i].rt);
                } else {
                    assert(sr[nr].handle == rt);
                }
            }
        }
    }

    /// Frame proof for a push onto the context table: every other context
    /// handle keeps its state.
    proof fn lemma_ctx_push_frame(self, pre: Ledger, x: u64)
        requires
            pre.ctxs().len() < self.ctxs().len(),
            self.ctxs() == pre.ctxs().push(self.ctxs()[pre.ctxs().len() as int]),
            ctx_handles_distinct(pre.ctxs()),
            ctx_handles_distinct(self.ctxs()),
            self.ctxs()[pre.ctxs().len() as int].handle != x,
        ensures
            context_state_eq(pre, self, x),
    {
        let s = self.ctxs();
        let n = pre.ctxs().len() as int;
        if ctx_tracked(pre.ctxs(), x) {
            let j = ctx_idx(pre.ctxs(), x);
            lemma_ctx_at(pre.ctxs(), j, x);
            assert(s[j].handle == x);
            lemma_ctx_at(s, j, x);
        }
        if ctx_tracked(s, x) {
            let j = choose|j: int| 0 <= j < s.len() && (#[trigger] s[j]).handle == x;
            assert(j != n);
            assert(pre.ctxs()[j].handle == x);
        }
        if ctx_owner_held(pre.ctxs(), x) {
            let j = choose|j: int|
                0 <= j < pre.ctxs().len() && (#[trigger] pre.ctxs()[j]).handle == x
                    && pre.ctxs()[j].owner_held;
            assert(s[j].handle == x && s[j].owner_held);
        }
        if ctx_owner_held(s, x) {
            let j = choose|j: int|
                0 <= j < s.len() && (#[trigger] s[j]).handle == x && s[j].owner_held;
            assert(j != n);
            assert(pre.ctxs()[j].handle == x && pre.ctxs()[j].owner_held);
        }
    }

    /// The context produced a value the caller now holds; the value keeps
    /// the context alive.
    pub fn value_created(&mut self, c: u64)
        requires
            old(self).wf(),
            old(self).tracks_context(c),
            old(self).context_value_refs(c) < u64::MAX,
        ensures
            final(self).wf(),
            final(self).tracks_context(c),
            final(self).context_owner_held(c) == old(self).context_owner_held(c),
            final(self).context_rt(c) == old(self).context_rt(c),
            final(self).context_value_refs(c) == old(self).context_value_refs(c) + 1,
            forall|x: u64| x != c ==> context_state_eq(*old(self), *final(self), x),
            final(self).rts() == old(self).rts(),
            forall|x: u64| runtime_state_eq(*old(self), *final(self), x),
    {
        let ghost pre = *self;
        let idx: usize = match self.find_context(c) {
            Some(i) => i,
            None => {
                proof {
                    assert(false);
                }
                0
            },
        };
        proof {
            lemma_ctx_at(pre.ctxs(), idx as int, c);
        }
        let refs = self.contexts[idx].value_refs;
        self.contexts[idx].value_refs = refs + 1;
        proof {
            let s = self.ctxs();
            let i = idx as int;
            assert(s == pre.ctxs().update(i, s[i]));
            assert(s[i].handle == c);
            assert(s[i].rt == pre.ctxs()[i].rt);
            assert(s[i].owner_held == pre.ctxs()[i].owner_held);
            assert(s[i].value_refs == pre.ctxs()[i].value_refs + 1);
            assert(ctx_handles_distinct(s));
            lemma_ctx_at(s, i, c);
            if ctx_owner_held(pre.ctxs(), c) {
                lemma_ctx_at(pre.ctxs(), i, c);
            }
            assert forall|x: u64| x != c implies context_state_eq(pre, *self, x) by {
                if ctx_tracked(pre.ctxs(), x) {
                    let j = ctx_idx(pre.ctxs(), x);
                    lemma_ctx_at(pre.ctxs(), j, x);
                    assert(j != i);
                    assert(s[j] == pre.ctxs()[j]);
                    lemma_ctx_at(s, j, x);
                }
                if ctx_tracked(s, x) {
                    let j = choose|j: int| 0 <= j < s.len() && (#[trigger] s[j]).handle == x;
                    assert(j != i);
                    assert(pre.ctxs()[j].handle == x);
                }
                if ctx_owner_held(pre.ctxs(), x) {
                    let j = choose|j: int|
                        0 <= j < pre.ctxs().len() && (#[trigger] pre.ctxs()[j]).handle == x
                            && pre.ctxs()[j].owner_held;
                    assert(j != i);
                    assert(s[j].handle == x && s[j].owner_held);
                }
                if ctx_owner_held(s, x) {
                    let j = choose|j: int|
                        0 <= j < s.len() && (#[trigger] s[j]).handle == x && s[j].owner_held;
                    assert(j != i);
                    assert(pre.ctxs()[j].handle == x && pre.ctxs()[j].owner_held);
                }
            }
            assert forall|j: int| 0 <= j < s.len() implies rt_tracked(
                self.rts(),
                (#[trigger] s[j]).rt,
            ) by {
                assert(s[j].rt == pre.ctxs()[j].rt);
                assert(rt_tracked(pre.rts(), pre.ctxs()[j].rt));
            }
        }
    }

    /// Frees the runtime's native handle if and only if nothing needs it
    /// any more: its wrapper was released and no tracked context is bound
    /// to it. Otherwise the runtime stays tracked, untouched.
    fn maybe_free_runtime(&mut self, rt: u64) -> (r: Option<u64>)
        requires
            old(self).wf(),
        ensures
            final(self).wf(),
            final(self).ctxs() == old(self).ctxs(),
            forall|x: u64| context_state_eq(*old(self), *final(self), x),
            (old(self).tracks_runtime(rt) && !old(self).runtime_owner_held(rt) && !old(self).context_referencing(rt)) ==> r == Some(rt) && !final(self).tracks_runtime(rt),
            !(old(self).tracks_runtime(rt) && !old(self).runtime_owner_held(rt) && !old(self).context_referencing(rt)) ==> r is None && final(self).rts() == old(self).rts(),
            forall|x: u64| x != rt ==> runtime_state_eq(*old(self), *final(self), x),
    {
        let ghost pre = *self;
        let idx: usize = match self.find_runtime(rt) {
            Some(i) => i,
            None => {
                return None;
            },
        };
        proof {
            lemma_rt_at(pre.rts(), idx as int, rt);
        }
        if self.runtimes[idx].owner_held {
            return None;
        }
        if self.any_context_referencing(rt) {
            return None;
        }
        self.runtimes.remove(idx);
        proof {
            let s = self.rts();
            let i = idx as int;
            assert(s == pre.rts().remove(i));
            assert forall|a: int, b: int|
                #![trigger s[a], s[b]]
                0 <= a < s.len() && 0 <= b < s.len() && a != b implies s[a].handle
                != s[b].handle by {
                let a0 = if a < i { a } else { a + 1 };
                let b0 = if b < i { b } else { b + 1 };
                assert(s[a] == pre.rts()[a0]);
                assert(s[b] == pre.rts()[b0]);
            }
            if rt_tracked(s, rt) {
                let j = choose|j: int| 0 <= j < s.len() && (#[trigger] s[j]).handle == rt;
                let j0 = if j < i { j } else { j + 1 };
                assert(pre.rts()[j0].handle == rt);
                assert(pre.rts()[i].handle == rt);
                assert(false);
            }
            assert forall|x: u64| x != rt implies runtime_state_eq(pre, *self, x) by {
                lemma_rt_remove(pre.rts(), i, x);
            }
            assert forall|j: int| 0 <= j < self.ctxs().len() implies rt_tracked(
                s,
                (#[trigger] self.ctxs()[j]).rt,
            ) by {
                assert(self.ctxs()[j].rt != rt);
                assert(rt_tracked(pre.rts(), self.ctxs()[j].rt));
                lemma_rt_remove(pre.rts(), i, self.ctxs()[j].rt);
            }
        }
        Some(rt)
    }

    /// The caller released the runtime's own wrapper. The native handle is
    /// freed now only if no tracked context is bound to the runtime; while
    /// one is, the runtime stays tracked and its free is deferred to the
    /// release of that last context.
    pub fn runtime_dropped(&mut self, h: u64) -> (r: FreeOps)
        requires
            old(self).wf(),
            old(self).tracks_runtime(h),
            old(self).runtime_owner_held(h),
        ensures
            final(self).wf(),
            r.free_context is None,
            old(self).context_referencing(h) ==> r.free_runtime is None && final(self).tracks_runtime(h) && !final(self).runtime_owner_held(h),
            !old(self).context_referencing(h) ==> r.free_runtime == Some(h) && !final(self).tracks_runtime(h),
            r.free_runtime matches Some(fr) ==> fr == h && !final(self).tracks_runtime(fr),
            forall|x: u64| x != h ==> runtime_state_eq(*old(self), *final(self), x),
            final(self).ctxs() == old(self).ctxs(),
            forall|x: u64| context_state_eq(*old(self), *final(self), x),
    {
        let ghost pre = *self;
        let idx: usize = match self.find_runtime(h) {
            Some(i) => i,
            None => {
                proof {
                    assert(false);
                }
                0
            },
        };
        proof {
            lemma_rt_at(pre.rts(), idx as int, h);
        }
        self.runtimes[idx] = RuntimeEntry { handle: h, owner_held: false };
        let ghost mid = *self;
        proof {
            let s = mid.rts();
            let i = idx as int;
            assert(s == pre.rts().update(i, RuntimeEntry { handle: h, owner_held: false }));
            assert(forall|j: int|
                0 <= j < s.len() ==> (#[trigger] s[j]).handle == pre.rts()[j].handle);
            assert forall|a: int, b: int|
                #![trigger s[a], s[b]]
                0 <= a < s.len() && 0 <= b < s.len() && a != b implies s[a].handle
                != s[b].handle by {
                assert(s[a].handle == pre.rts()[a].handle);
                assert(s[b].handle == pre.rts()[b].handle);
            }
            lemma_rt_at(s, i, h);
            assert(!mid.runtime_owner_held(h));
            assert(mid.tracks_runtime(h));
            assert forall|x: u64| x != h implies runtime_state_eq(pre, mid, x) by {
                if rt_tracked(pre.rts(), x) {
                    let j = choose|j: int|
                        0 <= j < pre.rts().len() && (#[trigger] pre.rts()[j]).handle == x;
                    assert(s[j].handle == x);
                }
                if rt_tracked(s, x) {
                    let j = choose|j: int| 0 <= j < s.len() && (#[trigger] s[j]).handle == x;
                    assert(pre.rts()[j].handle == x);
                }
                if rt_owner_held(pre.rts(), x) {
                    let j = choose|j: int|
                        0 <= j < pre.rts().len() && (#[trigger] pre.rts()[j]).handle == x
                            && pre.rts()[j].owner_held;
                    assert(j != i);
                    assert(s[j].handle == x && s[j].owner_held);
                }
                if rt_owner_held(s, x) {
                    let j = choose|j: int|
                        0 <= j < s.len() && (#[trigger] s[j]).handle == x && s[j].owner_held;
                    assert(j != i);
                    assert(pre.rts()[j].handle == x && pre.rts()[j].owner_held);
                }
            }
            assert forall|j: int| 0 <= j < mid.ctxs().len() implies rt_tracked(
                s,
                (#[trigger] mid.ctxs()[j]).rt,
            ) by {
                assert(rt_tracked(pre.rts(), mid.ctxs()[j].rt));
                let k = choose|k: int|
                    0 <= k < pre.rts().len() && (#[trigger] pre.rts()[k]).handle
                        == mid.ctxs()[j].rt;
                assert(s[k].handle == mid.ctxs()[j].rt);
            }
            assert(mid.wf());
        }
        let freed = self.maybe_free_runtime(h);
        proof {
            assert forall|x: u64| x != h implies runtime_state_eq(pre, *self, x) by {
                assert(runtime_state_eq(pre, mid, x));
                assert(runtime_state_eq(mid, *self, x));
            }
            assert forall|x: u64| context_state_eq(pre, *self, x) by {
                assert(mid.ctxs() == pre.ctxs());
                assert(context_state_eq(mid, *self, x));
            }
        }
        FreeOps { free_context: None, free_runtime: freed }
    }

    /// Removes the context entry at `i` and frees whatever that leaves
    /// unneeded: the context's own handle always, and its runtime's handle
    /// exactly when no wrapper and no other context still needs it.
    fn free_context_entry(&mut self, i: usize) -> (r: FreeOps)
        requires
            old(self).wf(),
            i < old(self).ctxs().len(),
        ensures
            final(self).wf(),
            r.free_context == Some(old(self).ctxs()[i as int].handle),
            !final(self).tracks_context(old(self).ctxs()[i as int].handle),
            forall|x: u64|
                x != old(self).ctxs()[i as int].handle ==> context_state_eq(
                    *old(self),
                    *final(self),
                    x,
                ),
            ({
                let c = old(self).ctxs()[i as int].handle;
                let rt = old(self).ctxs()[i as int].rt;
                &&& (!old(self).runtime_owner_held(rt) && !old(self).other_context_referencing(
                    c,
                    rt,
                )) ==> r.free_runtime == Some(rt) && !final(self).tracks_runtime(rt)
                &&& (old(self).runtime_owner_held(rt) || old(self).other_context_referencing(
                    c,
                    rt,
                )) ==> r.free_runtime is None && final(self).rts() == old(self).rts()
                &&& forall|x: u64| x != rt ==> runtime_state_eq(*old(self), *final(self), x)
            }),
    {
        let ghost pre = *self;
        let c = self.contexts[i].handle;
        let rt = self.contexts[i].rt;
        self.contexts.remove(i);
        let ghost mid = *self;
        proof {
            let s = mid.ctxs();
            let ii = i as int;
            assert(s == pre.ctxs().remove(ii));
            assert forall|a: int, b: int|
                #![trigger s[a], s[b]]
                0 <= a < s.len() && 0 <= b < s.len() && a != b implies s[a].handle
                != s[b].handle by {
                let a0 = if a < ii { a } else { a + 1 };
                let b0 = if b < ii { b } else { b + 1 };
                assert(s[a] == pre.ctxs()[a0]);
                assert(s[b] == pre.ctxs()[b0]);
            }
            if ctx_tracked(s, c) {
                let j = choose|j: int| 0 <= j < s.len() && (#[trigger] s[j]).handle == c;
                let j0 = if j < ii { j } else { j + 1 };
                assert(pre.ctxs()[j0].handle == c);
                assert(pre.ctxs()[ii].handle == c);
                assert(false);
            }
            assert forall|x: u64| x != c implies context_state_eq(pre, mid, x) by {
                lemma_ctx_remove(pre.ctxs(), ii, x);
                if ctx_tracked(pre.ctxs(), x) {
                    let j = ctx_idx(pre.ctxs(), x);
                    lemma_ctx_at(pre.ctxs(), j, x);
                    assert(j != ii);
                    let j2 = if j < ii { j } else { j - 1 };
                    assert(s[j2] == pre.ctxs()[j]);
                    lemma_ctx_at(s, j2, x);
                }
            }
            // what the removed entry leaves behind still references only
            // tracked runtimes, and stays needed
            assert forall|j: int| 0 <= j < s.len() implies rt_tracked(
                mid.rts(),
                (#[trigger] s[j]).rt,
            ) && (s[j].owner_held || s[j].value_refs >= 1) by {
                let j0 = if j < ii { j } else { j + 1 };
                assert(s[j] == pre.ctxs()[j0]);
                assert(rt_tracked(pre.rts(), pre.ctxs()[j0].rt));
            }
            assert(mid.wf());
            // the runtime of the removed context is still tracked, and the
            // contexts now bound to it are exactly the others before
            assert(rt_tracked(mid.rts(), rt));
            if some_ctx_references(s, rt) {
                let j = choose|j: int| 0 <= j < s.len() && (#[trigger] s[j]).rt == rt;
                let j0 = if j < ii { j } else { j + 1 };
                assert(pre.ctxs()[j0].rt == rt && pre.ctxs()[j0].handle != c);
                assert(other_ctx_references(pre.ctxs(), c, rt));
            }
            if other_ctx_references(pre.ctxs(), c, rt) {
                lemma_ctx_remove(pre.ctxs(), ii, rt);
            }
            assert(some_ctx_references(s, rt) == other_ctx_references(pre.ctxs(), c, rt));
        }
        let freed = self.maybe_free_runtime(rt);
        proof {
            assert(mid.rts() == pre.rts());
            assert forall|x: u64| x != c implies context_state_eq(pre, *self, x) by {
                assert(context_state_eq(pre, mid, x));
                assert(context_state_eq(mid, *self, x));
            }
            assert(!ctx_tracked(mid.ctxs(), c));
            assert(context_state_eq(mid, *self, c));
            assert(!self.tracks_context(c));
            assert forall|x: u64| x != rt implies runtime_state_eq(pre, *self, x) by {
                assert(runtime_state_eq(pre, mid, x));
                assert(runtime_state_eq(mid, *self, x));
            }
        }
        FreeOps { free_context: Some(c), free_runtime: freed }
    }

    /// The caller released the context's own wrapper. While values produced
    /// by the context are still held, the context stays tracked and nothing
    /// is freed; otherwise its handle is freed now, and its runtime's too
    /// if no wrapper and no other context still needs that.
    pub fn context_dropped(&mut self, c: u64) -> (r: FreeOps)
        requires
            old(self).wf(),
            old(self).tracks_context(c),
            old(self).context_owner_held(c),
        ensures
            final(self).wf(),
            old(self).context_value_refs(c) >= 1 ==> r.free_context is None && r.free_runtime
                is None && final(self).tracks_context(c) && !final(self).context_owner_held(c)
                && final(self).context_rt(c) == old(self).context_rt(c) && final(self).context_value_refs(c) == old(self).context_value_refs(c) && final(self).rts() == old(self).rts(),
            old(self).context_value_refs(c) == 0 ==> r.free_context == Some(c) && !final(self).tracks_context(c) && ({
                let rt = old(self).context_rt(c);
                &&& (!old(self).runtime_owner_held(rt) && !old(self).other_context_referencing(
                    c,
                    rt,
                )) ==> r.free_runtime == Some(rt) && !final(self).tracks_runtime(rt)
                &&& (old(self).runtime_owner_held(rt) || old(self).other_context_referencing(
                    c,
                    rt,
                )) ==> r.free_runtime is None && final(self).rts() == old(self).rts()
            }),
            r.free_context matches Some(fc) ==> fc == c && !final(self).tracks_context(fc),
            r.free_runtime matches Some(fr) ==> fr == old(self).context_rt(c) && !final(self).tracks_runtime(fr),
            forall|x: u64| x != c ==> context_state_eq(*old(self), *final(self), x),
            forall|x: u64|
                x != old(self).context_rt(c) ==> runtime_state_eq(*old(self), *final(self), x),
    {
        let ghost pre = *self;
        let idx: usize = match self.find_context(c) {
            Some(i) => i,
            None => {
                proof {
                    assert(false);
                }
                0
            },
        };
        proof {
            lemma_ctx_at(pre.ctxs(), idx as int, c);
        }
        let refs = self.contexts[idx].value_refs;
        let rt = self.contexts[idx].rt;
        if refs >= 1 {
            let e = ContextEntry { handle: c, rt, owner_held: false, value_refs: refs };
            self.contexts[idx] = e;
            proof {
                let s = self.ctxs();
                let i = idx as int;
                assert(s == pre.ctxs().update(i, e));
                assert forall|j: int| 0 <= j < s.len() implies (#[trigger] s[j]).handle
                    == pre.ctxs()[j].handle && s[j].rt == pre.ctxs()[j].rt by {
                    if j != i {
                        assert(s[j] == pre.ctxs()[j]);
                    }
                }
                assert forall|a: int, b: int|
                    #![trigger s[a], s[b]]
                    0 <= a < s.len() && 0 <= b < s.len() && a != b implies s[a].handle
                    != s[b].handle by {
                    assert(s[a].handle == pre.ctxs()[a].handle);
                    assert(s[b].handle == pre.ctxs()[b].handle);
                }
                lemma_ctx_at(s, i, c);
                assert forall|x: u64| x != c implies context_state_eq(pre, *self, x) by {
                    lemma_ctx_update_frame(pre.ctxs(), e, i, x);
                    if ctx_tracked(pre.ctxs(), x) {
                        let j = ctx_idx(pre.ctxs(), x);
                        lemma_ctx_at(pre.ctxs(), j, x);
                    }
                }
                assert forall|j: int| 0 <= j < s.len() implies rt_tracked(
                    self.rts(),
                    (#[trigger] s[j]).rt,
                ) by {
                    assert(s[j].rt == pre.ctxs()[j].rt);
                    assert(rt_tracked(pre.rts(), pre.ctxs()[j].rt));
                }
            }
            FreeOps { free_context: None, free_runtime: None }
        } else {
            self.free_context_entry(idx)
        }
    }

    /// The caller dropped a value produced by the context. The context's
    /// native handle — and, transitively, its runtime's — is freed only
    /// when this was the last value and the context's wrapper is gone too;
    /// sibling values or the live wrapper keep the context tracked.
    pub fn value_dropped(&mut self, c: u64) -> (r: FreeOps)
        requires
            old(self).wf(),
            old(self).tracks_context(c),
            old(self).context_value_refs(c) >= 1,
        ensures
            final(self).wf(),
            (old(self).context_value_refs(c) >= 2 || old(self).context_owner_held(c))
                ==> r.free_context is None && r.free_runtime is None && final(self).tracks_context(c) && final(self).context_owner_held(c) == old(self).context_owner_held(c) && final(self).context_rt(c) == old(self).context_rt(c)
                && final(self).context_value_refs(c) == old(self).context_value_refs(c) - 1
                && final(self).rts() == old(self).rts(),
            (old(self).context_value_refs(c) == 1 && !old(self).context_owner_held(c))
                ==> r.free_context == Some(c) && !final(self).tracks_context(c) && ({
                let rt = old(self).context_rt(c);
                &&& (!old(self).runtime_owner_held(rt) && !old(self).other_context_referencing(
                    c,
                    rt,
                )) ==> r.free_runtime == Some(rt) && !final(self).tracks_runtime(rt)
                &&& (old(self).runtime_owner_held(rt) || old(self).other_context_referencing(
                    c,
                    rt,
                )) ==> r.free_runtime is None && final(self).rts() == old(self).rts()
            }),
            r.free_context matches Some(fc) ==> fc == c && !final(self).tracks_context(fc),
            r.free_runtime matches Some(fr) ==> fr == old(self).context_rt(c) && !final(self).tracks_runtime(fr),
            forall|x: u64| x != c ==> context_state_eq(*old(self), *final(self), x),
            forall|x: u64|
                x != old(self).context_rt(c) ==> runtime_state_eq(*old(self), *final(self), x),
    {
        let ghost pre = *self;
        let idx: usize = match self.find_context(c) {
            Some(i) => i,
            None => {
                proof {
                    assert(false);
                }
                0
            },
        };
        proof {
            lemma_ctx_at(pre.ctxs(), idx as int, c);
        }
        let refs = self.contexts[idx].value_refs;
        let rt = self.contexts[idx].rt;
        let own = self.contexts[idx].owner_held;
        if refs >= 2 || own {
            let e = ContextEntry { handle: c, rt, owner_held: own, value_refs: refs - 1 };
            self.contexts[idx] = e;
            proof {
                let s = self.ctxs();
                let i = idx as int;
                assert(s == pre.ctxs().update(i, e));
                assert forall|j: int| 0 <= j < s.len() implies (#[trigger] s[j]).handle
                    == pre.ctxs()[j].handle && s[j].rt == pre.ctxs()[j].rt by {
                    if j != i {
                        assert(s[j] == pre.ctxs()[j]);
                    }
                }
                assert forall|a: int, b: int|
                    #![trigger s[a], s[b]]
                    0 <= a < s.len() && 0 <= b < s.len() && a != b implies s[a].handle
                    != s[b].handle by {
                    assert(s[a].handle == pre.ctxs()[a].handle);
                    assert(s[b].handle == pre.ctxs()[b].handle);
                }
                lemma_ctx_at(s, i, c);
                if ctx_owner_held(pre.ctxs(), c) {
                    lemma_ctx_at(pre.ctxs(), i, c);
                }
                assert forall|x: u64| x != c implies context_state_eq(pre, *self, x) by {
                    lemma_ctx_update_frame(pre.ctxs(), e, i, x);
                    if ctx_tracked(pre.ctxs(), x) {
                        let j = ctx_idx(pre.ctxs(), x);
                        lemma_ctx_at(pre.ctxs(), j, x);
                    }
                }
                assert forall|j: int| 0 <= j < s.len() implies rt_tracked(
                    self.rts(),
                    (#[trigger] s[j]).rt,
                ) by {
                    assert(s[j].rt == pre.ctxs()[j].rt);
                    assert(rt_tracked(pre.rts(), pre.ctxs()[j].rt));
                }
            }
            FreeOps { free_context: None, free_runtime: None }
        } else {
            self.free_context_entry(idx)
        }
    }

    /// Whether the runtime handle is tracked (still alive natively).
    pub fn is_tracked_runtime(&self, h: u64) -> (r: bool)
        ensures
            r == self.tracks_runtime(h),
    {
        self.find_runtime(h).is_some()
    }

    /// Whether the context handle is tracked (still alive natively).
    pub fn is_tracked_context(&self, h: u64) -> (r: bool)
        ensures
            r == self.tracks_context(h),
    {
        self.find_context(h).is_some()
    }

    /// How many values the context has outstanding, or nothing if the
    /// context is not tracked.
    pub fn value_ref_count(&self, c: u64) -> (r: Option<u64>)
        requires
            self.wf(),
        ensures
            match r {
                Some(n) => self.tracks_context(c) && n == self.context_value_refs(c),
                None => !self.tracks_context(c),
            },
    {
        match self.find_context(c) {
            Some(i) => {
                proof {
                    lemma_ctx_at(self.ctxs(), i as int, c);
                }
                Some(self.contexts[i].value_refs)
            },
            None => None,
        }
    }
}

} // verus!
