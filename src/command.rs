//! Commands and their last-in first-out composition.
use vstd::prelude::*;

verus! {

/// A Command is an action over a context that may fail with an error of type `E`.
///
/// Its behaviour is a function of the command and the context alone: `effect`
/// gives the context as the command leaves it and the command's result.
pub trait Command<Ctx, E>: Sized {
    spec fn effect(&self, ctx: Ctx) -> (Ctx, Result<(), E>);

    fn execute(&self, ctx: &mut Ctx) -> (r: Result<(), E>)
        ensures
            (*final(ctx), r) == self.effect(*old(ctx)),
    ;
}

/// The command that does nothing and always succeeds: the base of every chain.
pub struct NoopCommand;

impl<Ctx, E> Command<Ctx, E> for NoopCommand {
    open spec fn effect(&self, ctx: Ctx) -> (Ctx, Result<(), E>) {
        (ctx, Ok(()))
    }

    fn execute(&self, ctx: &mut Ctx) -> (r: Result<(), E>) {
        Ok(())
    }
}

/// A last-in first-out chain of commands: `value` (the newest) runs first, then `head`.
pub struct LiFoChain<C, H> {
    pub head: H,
    pub value: C,
}

impl<Ctx, E, C: Command<Ctx, E>, H: Command<Ctx, E>> Command<Ctx, E> for LiFoChain<C, H> {
    open spec fn effect(&self, ctx: Ctx) -> (Ctx, Result<(), E>) {
        let (mid, r) = self.value.effect(ctx);
        match r {
            Ok(()) => self.head.effect(mid),
            Err(e) => (mid, Err(e)),
        }
    }

    fn execute(&self, ctx: &mut Ctx) -> (r: Result<(), E>) {
        match self.value.execute(ctx) {
            Ok(()) => self.head.execute(ctx),
            Err(e) => Err(e),
        }
    }
}

} // verus!
