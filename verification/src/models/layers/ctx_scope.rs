//! The stack of execution contexts: the innermost pushed one is in force.

use vstd::prelude::*;

verus! {

/// Proof of a push, to be given back when its scope ends.
pub struct Guard {
    _priv: (),
}

/// The pushed contexts, innermost last.
pub struct CtxStack<C> {
    stack: Vec<C>,
}

impl<C> View for CtxStack<C> {
    type V = Seq<C>;

    closed spec fn view(&self) -> Seq<C> {
        self.stack@
    }
}

impl<C> CtxStack<C> {
    /// No context is in force.
    pub fn new() -> (r: Self)
        ensures
            r@ == Seq::<C>::empty(),
    {
        CtxStack { stack: Vec::new() }
    }

    /// Puts a context in force.
    pub fn push(&mut self, ctx: C) -> (r: Guard)
        ensures
            final(self)@ == old(self)@.push(ctx),
    {
        self.stack.push(ctx);
        Guard { _priv: () }
    }

    /// Ends the scope of the innermost push.
    pub fn pop(&mut self, guard: Guard)
        ensures
            final(self)@ == if old(self)@.len() > 0 {
                old(self)@.drop_last()
            } else {
                old(self)@
            },
    {
        let _ = guard;
        let _ = self.stack.pop();
    }

    /// The context in force. Without one the caller makes an eager one.
    pub fn current(&self) -> (r: Option<&C>)
        ensures
            match r {
                Some(c) => self@.len() > 0 && *c == self@.last(),
                None => self@.len() == 0,
            },
    {
        if self.stack.len() == 0 {
            None
        } else {
            Some(&self.stack[self.stack.len() - 1])
        }
    }
}

/// The end of a scope puts the context in force that was before it.
pub proof fn law_scope_restores<C>(stack: Seq<C>, ctx: C)
    ensures
        stack.push(ctx).last() == ctx,
        stack.push(ctx).drop_last() == stack,
{
    assert(stack.push(ctx).drop_last() =~= stack);
}

} // verus!
