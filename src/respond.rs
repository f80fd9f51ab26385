//! The behaviour of a dynamic handler: a response computed from the request.
use vstd::prelude::*;

verus! {

/// Computes a response of type `Out` from a request context of type `Ctx`.
///
/// Every closure `Fn(&Ctx) -> Out` is one, with its precondition as `accepts`
/// and its postcondition as `gives`; that serves callers outside verified
/// code. Verified callers use a type of their own (or one of this crate, such
/// as the echo behaviours of `grpc` and `http`) whose `accepts` they can show.
pub trait Respond<Ctx, Out> {
    /// The context is one that this responder may be called on.
    spec fn accepts(&self, ctx: &Ctx) -> bool;

    /// `out` is a response that this responder may give for `ctx`.
    spec fn gives(&self, ctx: &Ctx, out: &Out) -> bool;

    fn respond(&self, ctx: &Ctx) -> (out: Out)
        requires
            self.accepts(ctx),
        ensures
            self.gives(ctx, &out),
    ;
}

impl<Ctx, Out, F: Fn(&Ctx) -> Out> Respond<Ctx, Out> for F {
    open spec fn accepts(&self, ctx: &Ctx) -> bool {
        call_requires(*self, (ctx,))
    }

    open spec fn gives(&self, ctx: &Ctx, out: &Out) -> bool {
        call_ensures(*self, (ctx,), *out)
    }

    fn respond(&self, ctx: &Ctx) -> (out: Out) {
        (self)(ctx)
    }
}

/// The behaviour of handlers that are never dynamic. It cannot be built outside
/// this crate (and is built nowhere in it), so a handler typed with it always
/// holds a fixed response; its impls accept every context and promise
/// nothing of the answer.
#[derive(Debug, Clone, Copy)]
pub struct Fixed {
    unbuildable: (),
}

} // verus!
