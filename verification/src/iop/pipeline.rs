//! The railway runner: steps in order, stopping at the first error.
use vstd::prelude::*;
use crate::errors::DomainError;

verus! {

/// `trace` is a run of the first `trace.len() - 1` steps from `trace[0]`:
/// each step, given the context before it, can return the context after it.
pub open spec fn ok_trace<Ctx, F: Fn(Ctx) -> Result<Ctx, DomainError>>(
    steps: Seq<F>,
    trace: Seq<Ctx>,
) -> bool {
    &&& trace.len() >= 1
    &&& trace.len() <= steps.len() + 1
    &&& forall|i: int| 0 <= i < trace.len() - 1 ==> call_ensures(
        #[trigger] steps[i],
        (trace[i],),
        Ok(trace[i + 1]),
    )
}

/// `r` is what a run of `steps` from `ctx` can answer: the context that the
/// last step returned, each step having taken the one before it; or the
/// error of the first step that failed, the steps before it having passed.
pub open spec fn run_outcome<Ctx, F: Fn(Ctx) -> Result<Ctx, DomainError>>(
    steps: Seq<F>,
    ctx: Ctx,
    r: Result<Ctx, DomainError>,
) -> bool {
    match r {
        Ok(out) => exists|trace: Seq<Ctx>|
            {
                &&& #[trigger] ok_trace(steps, trace)
                &&& trace.len() == steps.len() + 1
                &&& trace[0] == ctx
                &&& trace.last() == out
            },
        Err(e) => exists|trace: Seq<Ctx>|
            {
                &&& #[trigger] ok_trace(steps, trace)
                &&& trace.len() <= steps.len()
                &&& trace[0] == ctx
                &&& call_ensures(steps[trace.len() - 1], (trace.last(),), Err(e))
            },
    }
}

/// Runs the steps in order on `ctx`, each on the context the previous one
/// returned, and stops at the first error, which it returns; the steps after
/// it are not run.
pub fn run<Ctx, F: Fn(Ctx) -> Result<Ctx, DomainError>>(steps: &[F], ctx: Ctx) -> (r: Result<Ctx, DomainError>)
    requires
        forall|i: int, c: Ctx| 0 <= i < steps@.len() ==> #[trigger] call_requires(steps@[i], (c,)),
    ensures
        run_outcome(steps@, ctx, r),
{
    let ghost mut trace: Seq<Ctx> = seq![ctx];
    let mut current = ctx;
    let mut i: usize = 0;
    while i < steps.len()
        invariant
            i <= steps.len(),
            forall|i: int, c: Ctx| 0 <= i < steps@.len() ==> #[trigger] call_requires(steps@[i], (c,)),
            ok_trace(steps@, trace),
            trace.len() == i + 1,
            trace[0] == ctx,
            trace.last() == current,
        decreases steps.len() - i,
    {
        let step = &steps[i];
        let out = step(current);
        match out {
            Ok(next) => {
                proof {
                    let old_trace = trace;
                    trace = trace.push(next);
                    assert forall|k: int| 0 <= k < trace.len() - 1 implies call_ensures(
                        #[trigger] steps@[k],
                        (trace[k],),
                        Ok(trace[k + 1]),
                    ) by {
                        if k < old_trace.len() - 1 {
                            assert(trace[k] == old_trace[k]);
                            assert(trace[k + 1] == old_trace[k + 1]);
                        }
                    }
                }
                current = next;
            },
            Err(e) => {
                assert(ok_trace(steps@, trace));
                return Err(e);
            },
        }
        i = i + 1;
    }
    assert(ok_trace(steps@, trace));
    Ok(current)
}

/// A trace of the steps `a ++ b` that has not gone past `a` is a trace of `a`.
proof fn lemma_trace_prefix<Ctx, F: Fn(Ctx) -> Result<Ctx, DomainError>>(a: Seq<F>, b: Seq<F>, t: Seq<Ctx>)
    requires
        1 <= t.len() <= a.len() + 1,
    ensures
        ok_trace(a + b, t) <==> ok_trace(a, t),
{
    assert forall|i: int| 0 <= i < t.len() - 1 implies (a + b)[i] == a[i] by {}
    if ok_trace(a + b, t) {
        assert forall|i: int| 0 <= i < t.len() - 1 implies call_ensures(#[trigger] a[i], (t[i],), Ok(t[i + 1])) by {
            assert((a + b)[i] == a[i]);
        }
    }
    if ok_trace(a, t) {
        assert forall|i: int| 0 <= i < t.len() - 1 implies call_ensures(#[trigger] (a + b)[i], (t[i],), Ok(t[i + 1])) by {
            assert((a + b)[i] == a[i]);
        }
    }
}

/// A trace of `a ++ b` that has gone through `a` splits at the context after
/// `a`: its first part is a whole trace of `a`, its rest a trace of `b`.
proof fn lemma_trace_split<Ctx, F: Fn(Ctx) -> Result<Ctx, DomainError>>(a: Seq<F>, b: Seq<F>, t: Seq<Ctx>)
    requires
        a.len() + 1 <= t.len() <= a.len() + b.len() + 1,
    ensures
        ok_trace(a + b, t) <==> (ok_trace(a, t.take(a.len() + 1int)) && ok_trace(b, t.skip(a.len() as int))),
{
    let n = a.len() as int;
    let t1 = t.take(n + 1);
    let t2 = t.skip(n);
    if ok_trace(a + b, t) {
        assert forall|i: int| 0 <= i < t1.len() - 1 implies call_ensures(#[trigger] a[i], (t1[i],), Ok(t1[i + 1])) by {
            assert((a + b)[i] == a[i]);
            assert(call_ensures((a + b)[i], (t[i],), Ok(t[i + 1])));
        }
        assert forall|i: int| 0 <= i < t2.len() - 1 implies call_ensures(#[trigger] b[i], (t2[i],), Ok(t2[i + 1])) by {
            assert((a + b)[n + i] == b[i]);
            assert(call_ensures((a + b)[n + i], (t[n + i],), Ok(t[n + i + 1])));
        }
    }
    if ok_trace(a, t1) && ok_trace(b, t2) {
        assert forall|i: int| 0 <= i < t.len() - 1 implies call_ensures(#[trigger] (a + b)[i], (t[i],), Ok(t[i + 1])) by {
            if i < n {
                assert((a + b)[i] == a[i]);
                assert(call_ensures(a[i], (t1[i],), Ok(t1[i + 1])));
            } else {
                assert((a + b)[i] == b[i - n]);
                assert(call_ensures(b[i - n], (t2[i - n],), Ok(t2[i - n + 1])));
            }
        }
    }
}

/// Running no step answers the context itself.
pub proof fn lemma_run_nothing<Ctx, F: Fn(Ctx) -> Result<Ctx, DomainError>>(ctx: Ctx, r: Result<Ctx, DomainError>)
    ensures
        run_outcome(Seq::<F>::empty(), ctx, r) <==> r == Ok::<Ctx, DomainError>(ctx),
{
    if r == Ok::<Ctx, DomainError>(ctx) {
        assert(ok_trace(Seq::<F>::empty(), seq![ctx]));
    }
}

/// Running `a ++ b` answers what running `a` and then, on its context,
/// running `b` answers: each step takes its predecessor's context, and once
/// a step fails its error is the answer and no later step runs.
pub proof fn lemma_run_concat<Ctx, F: Fn(Ctx) -> Result<Ctx, DomainError>>(
    a: Seq<F>,
    b: Seq<F>,
    ctx: Ctx,
    r: Result<Ctx, DomainError>,
)
    ensures
        run_outcome(a + b, ctx, r) <==> ((exists|mid: Ctx|
            run_outcome(a, ctx, Ok(mid)) && #[trigger] run_outcome(b, mid, r)) || (r is Err && run_outcome(a, ctx, r))),
{
    let n = a.len() as int;
    if run_outcome(a + b, ctx, r) {
        let t = match r {
            Ok(out) => choose|t: Seq<Ctx>| {
                &&& #[trigger] ok_trace(a + b, t)
                &&& t.len() == (a + b).len() + 1
                &&& t[0] == ctx
                &&& t.last() == out
            },
            Err(e) => choose|t: Seq<Ctx>| {
                &&& #[trigger] ok_trace(a + b, t)
                &&& t.len() <= (a + b).len()
                &&& t[0] == ctx
                &&& call_ensures((a + b)[t.len() - 1], (t.last(),), Err(e))
            },
        };
        if t.len() <= n {
            lemma_trace_prefix(a, b, t);
            assert((a + b)[t.len() - 1] == a[t.len() - 1]);
            assert(r is Err && run_outcome(a, ctx, r));
        } else {
            lemma_trace_split(a, b, t);
            let t1 = t.take(n + 1);
            let t2 = t.skip(n);
            let mid = t[n];
            assert(t1.last() == mid);
            assert(run_outcome(a, ctx, Ok(mid)));
            match r {
                Ok(out) => {
                    assert(t2.last() == out);
                    assert(run_outcome(b, mid, r));
                },
                Err(e) => {
                    assert((a + b)[t.len() - 1] == b[t2.len() - 1]);
                    assert(t2.last() == t.last());
                    assert(run_outcome(b, mid, r));
                },
            }
        }
    }
    if r is Err && run_outcome(a, ctx, r) {
        let e = r->Err_0;
        let t = choose|t: Seq<Ctx>| {
            &&& #[trigger] ok_trace(a, t)
            &&& t.len() <= a.len()
            &&& t[0] == ctx
            &&& call_ensures(a[t.len() - 1], (t.last(),), Err(e))
        };
        lemma_trace_prefix(a, b, t);
        assert((a + b)[t.len() - 1] == a[t.len() - 1]);
        assert(run_outcome(a + b, ctx, r));
    }
    if exists|mid: Ctx| run_outcome(a, ctx, Ok(mid)) && #[trigger] run_outcome(b, mid, r) {
        let mid = choose|mid: Ctx| run_outcome(a, ctx, Ok(mid)) && #[trigger] run_outcome(b, mid, r);
        let t1 = choose|t: Seq<Ctx>| {
            &&& #[trigger] ok_trace(a, t)
            &&& t.len() == a.len() + 1
            &&& t[0] == ctx
            &&& t.last() == mid
        };
        match r {
            Ok(out) => {
                let t2 = choose|t: Seq<Ctx>| {
                    &&& #[trigger] ok_trace(b, t)
                    &&& t.len() == b.len() + 1
                    &&& t[0] == mid
                    &&& t.last() == out
                };
                let t = t1 + t2.skip(1);
                assert(t.take(n + 1) =~= t1);
                assert(t.skip(n) =~= t2);
                lemma_trace_split(a, b, t);
                assert(run_outcome(a + b, ctx, r));
            },
            Err(e) => {
                let t2 = choose|t: Seq<Ctx>| {
                    &&& #[trigger] ok_trace(b, t)
                    &&& t.len() <= b.len()
                    &&& t[0] == mid
                    &&& call_ensures(b[t.len() - 1], (t.last(),), Err(e))
                };
                let t = t1 + t2.skip(1);
                assert(t.take(n + 1) =~= t1);
                assert(t.skip(n) =~= t2);
                lemma_trace_split(a, b, t);
                assert((a + b)[t.len() - 1] == b[t2.len() - 1]);
                assert(t.last() == t2.last());
                assert(run_outcome(a + b, ctx, r));
            },
        }
    }
}

} // verus!
