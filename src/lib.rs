//! An event that runs all of its registered handlers concurrently on each
//! emission. Each handler is registered under a random identifier, by which
//! its state can be inspected afterwards.

pub mod handler;
pub mod id;
pub mod dispatch;

use std::marker::PhantomData;
use vstd::prelude::*;

use crate::dispatch::dispatch;
use crate::handler::EventHandler;
use crate::id::HandlerId;

verus! {

/// An event holds the handlers registered with it, each under its own
/// identifier, and runs them all whenever it is emitted.
///
/// To register handlers of different kinds with one event, use
/// `Box<dyn EventHandler<A>>` as the handler type.
pub struct Event<A: Copy + Send, H: EventHandler<A>> {
    arg_type: PhantomData<A>,
    ids: Vec<HandlerId>,
    handlers: Vec<H>,
}

impl<A: Copy + Send, H: EventHandler<A>> View for Event<A, H> {
    type V = Map<Seq<u8>, H>;

    /// The registered handlers, keyed by the bytes of their identifiers.
    closed spec fn view(&self) -> Map<Seq<u8>, H> {
        Map::new(
            |k: Seq<u8>| exists|i: int| 0 <= i < self.ids@.len() && self.ids@[i]@ == k,
            |k: Seq<u8>|
                self.handlers@[choose|i: int| 0 <= i < self.ids@.len() && self.ids@[i]@ == k],
        )
    }
}

impl<A: Copy + Send, H: EventHandler<A>> Event<A, H> {
    /// Each identifier has exactly one handler, and no identifier is there twice.
    pub closed spec fn wf(&self) -> bool {
        &&& self.ids@.len() == self.handlers@.len()
        &&& forall|i: int, j: int|
            0 <= i < j < self.ids@.len() ==> self.ids@[i]@ != self.ids@[j]@
    }

    proof fn lemma_entry(&self, i: int)
        requires
            self.wf(),
            0 <= i < self.ids@.len(),
        ensures
            self@.contains_key(self.ids@[i]@),
            self@[self.ids@[i]@] == self.handlers@[i],
    {
        let k = self.ids@[i]@;
        assert(exists|j: int| 0 <= j < self.ids@.len() && self.ids@[j]@ == k);
        let c = choose|j: int| 0 <= j < self.ids@.len() && self.ids@[j]@ == k;
        if c != i {
            if c < i {
                assert(self.ids@[c]@ != self.ids@[i]@);
            } else {
                assert(self.ids@[i]@ != self.ids@[c]@);
            }
        }
    }

    proof fn lemma_finite(&self)
        ensures
            self@.dom().finite(),
    {
        let keys = self.ids@.map_values(|id: HandlerId| id@);
        assert forall|k: Seq<u8>| #[trigger] self@.dom().contains(k) implies keys.to_set().contains(
            k,
        ) by {
            let i = choose|i: int| 0 <= i < self.ids@.len() && self.ids@[i]@ == k;
            assert(keys[i] == k);
        }
        assert forall|k: Seq<u8>| #[trigger] keys.to_set().contains(k) implies self@.dom().contains(
            k,
        ) by {
            let i = choose|i: int| 0 <= i < keys.len() && keys[i] == k;
            assert(self.ids@[i]@ == k);
        }
        assert(self@.dom() =~= keys.to_set());
        vstd::seq_lib::seq_to_set_is_finite(keys);
    }

    /// Creates an event without handlers.
    pub fn new() -> (r: Event<A, H>)
        ensures
            r.wf(),
            r@ == Map::<Seq<u8>, H>::empty(),
            r@.dom().finite(),
    {
        let r = Event { arg_type: PhantomData, ids: Vec::new(), handlers: Vec::new() };
        assert(r@ =~= Map::<Seq<u8>, H>::empty());
        r
    }

    /// The position of an identifier among the registered ones, if it is there.
    fn position(&self, id: &HandlerId) -> (r: Option<usize>)
        requires
            self.wf(),
        ensures
            match r {
                Some(i) => i < self.ids@.len() && self.ids@[i as int]@ == id@,
                None => forall|i: int| 0 <= i < self.ids@.len() ==> self.ids@[i]@ != id@,
            },
    {
        let mut i: usize = 0;
        while i < self.ids.len()
            invariant
                0 <= i <= self.ids@.len(),
                forall|j: int| 0 <= j < i ==> self.ids@[j]@ != id@,
            decreases self.ids@.len() - i,
        {
            if self.ids[i].same_as(id) {
                return Some(i);
            }
            i = i + 1;
        }
        None
    }

    /// Emits an event: runs every registered handler on the argument, each on
    /// a thread of its own, and returns once all of them have finished. The
    /// result is `true` when every handler ran to completion, and then each
    /// of them has reacted to the argument exactly once. It is `false` when
    /// one or more of them panicked, or when no thread could be started for
    /// one of them; a panic in one handler keeps no other handler from
    /// running. With no handlers registered the result is `true` and nothing
    /// changes.
    pub fn emit(&mut self, arg: A) -> (r: bool)
        requires
            old(self).wf(),
        ensures
            final(self).wf(),
            final(self)@.dom() == old(self)@.dom(),
            final(self)@.dom().finite(),
            old(self)@.dom().is_empty() ==> r && final(self)@ == old(self)@,
            r ==> forall|k: Seq<u8>|
                #[trigger] old(self)@.contains_key(k) ==> {
                    &&& final(self)@[k].reactions() == old(self)@[k].reactions().push(arg)
                    &&& exists|m: &mut H|
                        #![trigger call_ensures(H::on_event, (m, arg), ())]
                        *m == old(self)@[k] && *final(m) == final(self)@[k] && call_ensures(
                            H::on_event,
                            (m, arg),
                            (),
                        )
                },
    {
        proof {
            if self.ids@.len() > 0 {
                self.lemma_entry(0);
            }
        }
        let ghost pre = *self;
        let r = dispatch(self.handlers.as_mut_slice(), arg);
        assert(self@.dom() =~= pre@.dom());
        proof {
            self.lemma_finite();
            if pre.ids@.len() == 0 {
                assert(self@ =~= pre@);
            }
            if r {
                assert forall|k: Seq<u8>| #[trigger] pre@.contains_key(k) implies {
                    &&& self@[k].reactions() == pre@[k].reactions().push(arg)
                    &&& exists|m: &mut H|
                        #![trigger call_ensures(H::on_event, (m, arg), ())]
                        *m == pre@[k] && *final(m) == self@[k] && call_ensures(
                            H::on_event,
                            (m, arg),
                            (),
                        )
                } by {
                    let j = choose|j: int| 0 <= j < pre.ids@.len() && pre.ids@[j]@ == k;
                    pre.lemma_entry(j);
                    self.lemma_entry(j);
                }
            }
        }
        r
    }

    /// Registers a handler and returns the fresh identifier it is kept under.
    /// Should the fresh identifier already be registered, the new handler
    /// takes the place of the one registered under it.
    pub fn add_handler(&mut self, handler: H) -> (r: HandlerId)
        requires
            old(self).wf(),
        ensures
            final(self).wf(),
            final(self)@ == old(self)@.insert(r@, handler),
            final(self)@.dom().finite(),
    {
        let id = HandlerId::new();
        let ghost pre = *self;
        match self.position(&id) {
            Some(i) => {
                self.handlers.set(i, handler);
                proof {
                    assert forall|k: Seq<u8>| #[trigger]
                        self@.contains_key(k) implies self@[k] == pre@.insert(id@, handler)[k] by {
                        let j = choose|j: int| 0 <= j < self.ids@.len() && self.ids@[j]@ == k;
                        self.lemma_entry(j);
                        if j != i {
                            pre.lemma_entry(j);
                        }
                    }
                    assert forall|k: Seq<u8>| #[trigger]
                        pre@.insert(id@, handler).contains_key(k) implies self@.contains_key(k) by {
                        if k != id@ {
                            let j = choose|j: int| 0 <= j < pre.ids@.len() && pre.ids@[j]@ == k;
                            assert(self.ids@[j]@ == k);
                        }
                    }
                    assert(self@ =~= pre@.insert(id@, handler));
                }
            },
            None => {
                self.ids.push(id);
                self.handlers.push(handler);
                proof {
                    let n = pre.ids@.len() as int;
                    assert forall|k: Seq<u8>| #[trigger]
                        self@.contains_key(k) implies self@[k] == pre@.insert(id@, handler)[k] by {
                        let j = choose|j: int| 0 <= j < self.ids@.len() && self.ids@[j]@ == k;
                        self.lemma_entry(j);
                        if j < n {
                            pre.lemma_entry(j);
                        }
                    }
                    assert forall|k: Seq<u8>| #[trigger]
                        pre@.insert(id@, handler).contains_key(k) implies self@.contains_key(k) by {
                        if k != id@ {
                            let j = choose|j: int| 0 <= j < pre.ids@.len() && pre.ids@[j]@ == k;
                            assert(self.ids@[j]@ == k);
                        } else {
                            assert(self.ids@[n]@ == k);
                        }
                    }
                    assert(self@ =~= pre@.insert(id@, handler));
                }
            },
        }
        proof {
            self.lemma_finite();
        }
        id
    }

    /// The handler registered under the identifier, or `None` where no
    /// handler is registered under it.
    pub fn get_handler(&self, id: HandlerId) -> (r: Option<&H>)
        requires
            self.wf(),
        ensures
            match r {
                Some(h) => self@.contains_key(id@) && *h == self@[id@],
                None => !self@.contains_key(id@),
            },
    {
        match self.position(&id) {
            Some(i) => {
                proof {
                    self.lemma_entry(i as int);
                }
                Some(&self.handlers[i])
            },
            None => None,
        }
    }
}

impl<A: Copy + Send, H: EventHandler<A>> Event<A, Box<H>> {
    /// Registers a handler in a box of its own; the same as
    /// `add_handler(Box::new(handler))`. An event whose handlers are
    /// `Box<dyn EventHandler<A>>` registers them with `add_handler` and a box
    /// of the caller's: a trait object type cannot be named in verified code,
    /// so this method serves boxes of one handler type.
    pub fn add_handler_boxed(&mut self, handler: H) -> (r: HandlerId)
        requires
            old(self).wf(),
        ensures
            final(self).wf(),
            final(self)@ == old(self)@.insert(r@, Box::new(handler)),
            final(self)@.dom().finite(),
    {
        self.add_handler(Box::new(handler))
    }
}

} // verus!
