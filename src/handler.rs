//! The event handler abstraction and two standard handlers built on closures.

use std::marker::PhantomData;
use vstd::prelude::*;

verus! {

/// A handler that can be registered with an event. It reacts to each event
/// argument and may change state of its own while doing so.
pub trait EventHandler<A>: Send {
    /// The arguments that this handler has reacted to so far, oldest first.
    spec fn reactions(&self) -> Seq<A>;

    /// Reacts to one event argument.
    fn on_event(&mut self, arg: A)
        ensures
            final(self).reactions() == old(self).reactions().push(arg),
    ;
}

/// A boxed handler reacts as the handler inside the box does, so handlers of
/// different kinds can share one event as `Box<dyn EventHandler<A>>`.
impl<A, H: EventHandler<A> + ?Sized> EventHandler<A> for Box<H> {
    open spec fn reactions(&self) -> Seq<A> {
        (**self).reactions()
    }

    fn on_event(&mut self, arg: A) {
        (**self).on_event(arg)
    }
}

/// A closure over an argument, with the promise that it accepts every
/// argument.
struct PlainReactor<A, F: Fn(A)> {
    f: F,
    arg_type: PhantomData<A>,
}

impl<A, F: Fn(A)> PlainReactor<A, F> {
    #[verifier::type_invariant]
    spec fn accepts_all(&self) -> bool {
        forall|a: A| self.f.requires((a,))
    }

    fn react(&self, arg: A)
        ensures
            self.f.ensures((arg,), ()),
    {
        proof {
            use_type_invariant(self);
        }
        (self.f)(arg)
    }
}

/// A handler that runs a closure on each event argument and keeps no state.
pub struct StatelessEventHandler<A, F: Fn(A) + Send> {
    func: PlainReactor<A, F>,
    seen: Ghost<Seq<A>>,
}

impl<A, F: Fn(A) + Send> StatelessEventHandler<A, F> {
    /// The arguments that the handler has reacted to so far, oldest first.
    pub closed spec fn history(&self) -> Seq<A> {
        self.seen@
    }

    /// The closure that reacts to events.
    pub closed spec fn func(&self) -> F {
        self.func.f
    }

    /// Creates a stateless handler from a closure that consumes the argument.
    pub fn new(f: F) -> (r: StatelessEventHandler<A, F>) where A: Send
        requires
            forall|a: A| f.requires((a,)),
        ensures
            r.func() == f,
            r.reactions() == Seq::<A>::empty(),
    {
        StatelessEventHandler {
            func: PlainReactor { f, arg_type: PhantomData },
            seen: Ghost(Seq::empty()),
        }
    }
}

impl<A: Send, F: Fn(A) + Send> EventHandler<A> for StatelessEventHandler<A, F> {
    open spec fn reactions(&self) -> Seq<A> {
        self.history()
    }

    /// The closure stays, and it has run on the argument.
    fn on_event(&mut self, arg: A)
        ensures
            final(self).func() == old(self).func(),
            old(self).func().ensures((arg,), ()),
    {
        self.seen = Ghost(self.seen@.push(arg));
        self.func.react(arg)
    }
}

/// A closure over an argument and a mutable state, with the promise that it
/// accepts every argument and state.
struct StateReactor<A, S, F: Fn(A, &mut S)> {
    f: F,
    arg_type: PhantomData<A>,
    state_type: PhantomData<S>,
}

impl<A, S, F: Fn(A, &mut S)> StateReactor<A, S, F> {
    #[verifier::type_invariant]
    spec fn accepts_all(&self) -> bool {
        forall|a: A, s: &mut S| self.f.requires((a, s))
    }

    fn react(&self, arg: A, state: &mut S)
        ensures
            exists|m: &mut S|
                *m == *old(state) && *final(m) == *final(state) && self.f.ensures((arg, m), ()),
    {
        proof {
            use_type_invariant(self);
        }
        (self.f)(arg, state)
    }
}

/// A handler that runs a closure on each event argument together with a
/// state of its own, which the closure may change and callers may read.
pub struct StatefulEventHandler<A, S: Send, F: Fn(A, &mut S) + Send> {
    func: StateReactor<A, S, F>,
    state: S,
    seen: Ghost<Seq<A>>,
}

impl<A, S: Send, F: Fn(A, &mut S) + Send> StatefulEventHandler<A, S, F> {
    /// The arguments that the handler has reacted to so far, oldest first.
    pub closed spec fn history(&self) -> Seq<A> {
        self.seen@
    }

    /// The closure that reacts to events.
    pub closed spec fn func(&self) -> F {
        self.func.f
    }

    /// The state that the handler holds now.
    pub closed spec fn current_state(&self) -> S {
        self.state
    }

    /// Creates a stateful handler from a closure and the state that the
    /// first event finds.
    pub fn new(f: F, initial_state: S) -> (r: StatefulEventHandler<A, S, F>) where A: Send
        requires
            forall|a: A, s: &mut S| f.requires((a, s)),
        ensures
            r.func() == f,
            r.current_state() == initial_state,
            r.reactions() == Seq::<A>::empty(),
    {
        StatefulEventHandler {
            func: StateReactor { f, arg_type: PhantomData, state_type: PhantomData },
            state: initial_state,
            seen: Ghost(Seq::empty()),
        }
    }

    /// The current state.
    pub fn state(&self) -> (r: &S)
        ensures
            *r == self.current_state(),
    {
        &self.state
    }
}

impl<A: Send, S: Send, F: Fn(A, &mut S) + Send> EventHandler<A> for StatefulEventHandler<
    A,
    S,
    F,
> {
    open spec fn reactions(&self) -> Seq<A> {
        self.history()
    }

    /// The closure stays, and the new state is the one that the closure left
    /// when it ran on the argument and the old state.
    fn on_event(&mut self, arg: A)
        ensures
            final(self).func() == old(self).func(),
            exists|m: &mut S|
                *m == old(self).current_state() && *final(m) == final(self).current_state()
                    && old(self).func().ensures((arg, m), ()),
    {
        self.seen = Ghost(self.seen@.push(arg));
        self.func.react(arg, &mut self.state)
    }
}

} // verus!
