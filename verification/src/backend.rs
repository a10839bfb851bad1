//! Backends: the sinks that are told when a context has finished.

use vstd::prelude::*;
use crate::context::Context;
use crate::time::Timestamp;

verus! {

/// A sink for finished contexts. It reads the tree and does not change it.
pub trait Backend {
    /// Takes note of a finished context. The frame on top of `ctx` has ended.
    fn context_ended(&self, ctx: &Context)
        requires
            ctx@.depth() > 0 ==> ctx@.top().ended(),
    ;
}

/// Ends `ctx` at `now` and tells each of `backends` once, in their order.
pub fn end_context_at<B: Backend>(ctx: &mut Context, backends: &Vec<B>, now: Timestamp)
    ensures
        final(ctx)@ == old(ctx)@.finalise(now@),
        old(ctx)@.wf() ==> final(ctx)@.wf(),
{
    ctx.finalise_at(now);
    let mut i: usize = 0;
    while i < backends.len()
        invariant
            i <= backends.len(),
            ctx@ == old(ctx)@.finalise(now@),
            old(ctx)@.wf() ==> ctx@.wf(),
            ctx@.depth() > 0 ==> ctx@.top().ended(),
        decreases backends.len() - i,
    {
        backends[i].context_ended(ctx);
        i = i + 1;
    }
}

/// Ends `ctx` now and tells each of `backends` once, in their order.
pub fn end_context<B: Backend>(ctx: &mut Context, backends: &Vec<B>)
    ensures
        old(ctx)@.wf() ==> final(ctx)@.wf(),
        exists|now: int| #[trigger] old(ctx)@.finalise(now) == final(ctx)@,
{
    let now = Timestamp::now();
    end_context_at(ctx, backends, now);
}

} // verus!
