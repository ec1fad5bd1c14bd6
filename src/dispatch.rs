//! One emission round: every handler runs on a scoped thread of its own, the
//! round waits for all of them, and their outcomes are folded into one flag.

use crate::handler::EventHandler;
use vstd::prelude::*;

verus! {

#[verifier::external_type_specification]
#[verifier::external_body]
pub struct ExScope<'env>(crossbeam::thread::Scope<'env>);

#[verifier::external_type_specification]
#[verifier::external_body]
#[verifier::reject_recursive_types(T)]
pub struct ExScopedJoinHandle<'scope, T>(crossbeam::thread::ScopedJoinHandle<'scope, T>);

/// Relies on crossbeam's Scope::builder and ScopedThreadBuilder::spawn: starts
/// a thread of the scope that runs the handler on the argument, or reports
/// that no thread could be started.
#[verifier::external_body]
fn spawn_handler<'scope, 'env, A: Copy + Send + 'env, H: EventHandler<A> + 'env>(
    s: &'scope crossbeam::thread::Scope<'env>,
    h: &'env mut H,
    arg: A,
) -> (r: Option<crossbeam::thread::ScopedJoinHandle<'scope, ()>>) {
    s.builder().spawn(move |_| h.on_event(arg)).ok()
}

/// Relies on crossbeam's ScopedJoinHandle::join: waits until the thread has
/// finished; `true` exactly when its closure returned, `false` when it
/// panicked.
#[verifier::external_body]
fn join_handler<'scope>(j: crossbeam::thread::ScopedJoinHandle<'scope, ()>) -> (r: bool) {
    j.join().is_ok()
}

/// Relies on crossbeam::thread::scope: runs the closure once with a fresh
/// scope and joins every thread of the scope before it returns; the closure's
/// result comes back (`Some`) unless a thread left unjoined panicked (`None`).
/// The closure, `run_round`, joins every thread it starts and gives the
/// outcomes in handler order, and an outcome is `true` only when that
/// handler's `on_event` returned, so that its new value is one that
/// `on_event` may leave. A slice behind `&mut` keeps its length.
#[verifier::external_body]
fn run_scoped<A: Copy + Send, H: EventHandler<A>>(handlers: &mut [H], arg: A) -> (r: Option<
    Vec<bool>,
>)
    ensures
        final(handlers)@.len() == old(handlers)@.len(),
        r matches Some(v) ==> v@.len() == old(handlers)@.len() && forall|i: int|
            0 <= i < v@.len() && #[trigger] v@[i] ==> exists|m: &mut H|
                #![trigger call_ensures(H::on_event, (m, arg), ())]
                *m == old(handlers)@[i] && *final(m) == final(handlers)@[i] && call_ensures(
                    H::on_event,
                    (m, arg),
                    (),
                ),
{
    crossbeam::thread::scope(|s| run_round(s, handlers, arg)).ok()
}

/// Starts one thread for each handler of the slice, and appends to `joins`
/// one entry per handler, in order: `None` where no thread could be started.
fn spawn_each<'scope, 'env, A: Copy + Send + 'env, H: EventHandler<A> + 'env>(
    s: &'scope crossbeam::thread::Scope<'env>,
    handlers: &'env mut [H],
    arg: A,
    joins: &mut Vec<Option<crossbeam::thread::ScopedJoinHandle<'scope, ()>>>,
)
    ensures
        final(joins)@.len() == old(joins)@.len() + old(handlers)@.len(),
        final(handlers)@.len() == old(handlers)@.len(),
    decreases old(handlers)@.len(),
{
    if handlers.len() == 0 {
        return;
    }
    let (head, tail) = handlers.split_at_mut(1);
    let first = head.first_mut().unwrap();
    joins.push(spawn_handler(s, first, arg));
    spawn_each(s, tail, arg, joins);
}

/// Runs every handler of the slice on its own thread, waits for all of them,
/// and returns one outcome per handler, in the order of the slice: `true`
/// where it ran to completion, `false` where it panicked or no thread could
/// be started for it.
fn run_round<'scope, 'env, A: Copy + Send + 'env, H: EventHandler<A> + 'env>(
    s: &'scope crossbeam::thread::Scope<'env>,
    handlers: &'env mut [H],
    arg: A,
) -> (outcomes: Vec<bool>)
    ensures
        outcomes@.len() == old(handlers)@.len(),
        final(handlers)@.len() == old(handlers)@.len(),
{
    let mut joins: Vec<Option<crossbeam::thread::ScopedJoinHandle<'scope, ()>>> = Vec::new();
    spawn_each(s, handlers, arg, &mut joins);
    let mut outcomes: Vec<bool> = Vec::new();
    while joins.len() > 0
        invariant
            outcomes@.len() + joins@.len() == old(handlers)@.len(),
        decreases joins@.len(),
    {
        let j = joins.remove(0);
        let done = match j {
            Some(handle) => join_handler(handle),
            None => false,
        };
        outcomes.push(done);
    }
    outcomes
}

/// Whether every outcome of a round is a completion.
pub fn all_completed(outcomes: &[bool]) -> (r: bool)
    ensures
        r == (forall|i: int| 0 <= i < outcomes@.len() ==> outcomes@[i]),
{
    let mut i: usize = 0;
    while i < outcomes.len()
        invariant
            0 <= i <= outcomes@.len(),
            forall|j: int| 0 <= j < i ==> outcomes@[j],
        decreases outcomes@.len() - i,
    {
        if !outcomes[i] {
            return false;
        }
        i = i + 1;
    }
    true
}

/// Runs one round over the handlers and returns, once all of them have
/// finished, whether every one of them ran to completion. Without handlers
/// no thread is started and the result is `true`. A handler for which no
/// thread could be started counts as one that did not complete.
pub fn dispatch<A: Copy + Send, H: EventHandler<A>>(handlers: &mut [H], arg: A) -> (r: bool)
    ensures
        final(handlers)@.len() == old(handlers)@.len(),
        old(handlers)@.len() == 0 ==> r && final(handlers)@ == old(handlers)@,
        r ==> forall|i: int|
            #![trigger old(handlers)@[i]]
            0 <= i < old(handlers)@.len() ==> {
                &&& final(handlers)@[i].reactions() == old(handlers)@[i].reactions().push(arg)
                &&& exists|m: &mut H|
                    #![trigger call_ensures(H::on_event, (m, arg), ())]
                    *m == old(handlers)@[i] && *final(m) == final(handlers)@[i] && call_ensures(
                        H::on_event,
                        (m, arg),
                        (),
                    )
            },
{
    if handlers.len() == 0 {
        assert(handlers@ =~= Seq::<H>::empty());
        return true;
    }
    match run_scoped(handlers, arg) {
        Some(outcomes) => {
            let r = all_completed(outcomes.as_slice());
            proof {
                if r {
                    assert forall|i: int|
                        #![trigger old(handlers)@[i]]
                        0 <= i < old(handlers)@.len() implies exists|m: &mut H|
                            #![trigger call_ensures(H::on_event, (m, arg), ())]
                            *m == old(handlers)@[i] && *final(m) == handlers@[i]
                                && call_ensures(H::on_event, (m, arg), ()) by {
                        assert(outcomes@[i]);
                    }
                }
            }
            r
        },
        None => false,
    }
}

} // verus!
