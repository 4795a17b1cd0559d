//! The single-owner variant: subscriber handles use non-atomic reference
//! counting (`Rc`), for callers that never share a publisher or a handle
//! across threads.

use crate::model::Call;
use crate::model::Identified;
use crate::model::step;
use crate::model::without;
use std::rc::Rc;
use vstd::prelude::*;

verus! {

/// A subscriber reacts to each message a publisher delivers to it. The
/// publisher hands every subscriber a shared reference to the message, in
/// registration order, and never inspects the outcome.
pub trait Subscriber<T> {
    fn update(&self, message: &T);
}

/// A shared, reference-counted handle to a subscriber.
///
/// The handle pairs the subscriber with an identity token chosen at creation.
/// Clones keep the token and point to the same subscriber, so a clone is
/// identity-equal to the original; a handle created fresh with a different
/// token is not, even when the subscribers' contents are equal. Publishers
/// remove registrations by this token, never by the subscriber's value.
pub struct Handle<S> {
    token: u64,
    inner: Rc<S>,
}

impl<S> Identified for Handle<S> {
    closed spec fn id(&self) -> u64 {
        self.token
    }
}

impl<S> Handle<S> {
    /// The subscriber the handle points to.
    pub closed spec fn sub(&self) -> S {
        *self.inner
    }

    /// Wrap `subscriber` in a new shared handle carrying `token`.
    pub fn new(token: u64, subscriber: S) -> (h: Handle<S>)
        ensures
            h.id() == token,
            h.sub() == subscriber,
    {
        Handle { token, inner: Rc::new(subscriber) }
    }

    /// Borrow the subscriber behind the handle.
    pub fn get(&self) -> (r: &S)
        ensures
            *r == self.sub(),
    {
        &*self.inner
    }
}

/// Relies on `Clone` for `Rc`: the clone points to the same allocation as the
/// original, so it holds the same value.
#[verifier::external_body]
fn clone_rc<S>(rc: &Rc<S>) -> (res: Rc<S>)
    ensures
        res == *rc,
{
    Rc::clone(rc)
}

impl<S> Clone for Handle<S> {
    /// The clone keeps the token and shares the subscriber.
    fn clone(&self) -> (res: Self)
        ensures
            res == *self,
    {
        Handle { token: self.token, inner: clone_rc(&self.inner) }
    }
}

/// A publisher: an ordered list of subscriber registrations, with fan-out
/// delivery. The same handle may be registered more than once and then
/// receives each message once per registration.
pub struct Publisher<T, S> {
    subscribers: Vec<Handle<S>>,
    message_type: core::marker::PhantomData<T>,
}

impl<T, S> Publisher<T, S> {
    /// The registrations of this publisher, in registration order.
    pub closed spec fn subs(&self) -> Seq<Handle<S>> {
        self.subscribers@
    }

    /// Create a new publisher with no subscribers.
    pub fn new() -> (p: Publisher<T, S>)
        ensures
            p.subs() == Seq::<Handle<S>>::empty(),
    {
        Self::default()
    }

    /// Check whether the publisher has any subscribers.
    pub fn has_subscribers(&self) -> (r: bool)
        ensures
            r == (self.subs().len() != 0),
    {
        self.subscribers.len() != 0
    }

    /// Append a registration for `subscriber` at the end of the list. Always
    /// succeeds; a handle already registered is registered once more.
    pub fn subscribe(&mut self, subscriber: Handle<S>)
        ensures
            final(self).subs() == old(self).subs().push(subscriber),
            final(self).subs() == step(
                old(self).subs(),
                Call::Subscribe { handle: subscriber },
            ),
    {
        self.subscribers.push(subscriber);
    }

    /// Remove every registration whose handle is identity-equal to
    /// `subscriber`, keeping the order of the rest. A handle that was never
    /// subscribed matches nothing, and the call is a silent no-op.
    pub fn unsubscribe(&mut self, subscriber: Handle<S>)
        ensures
            final(self).subs() == without(old(self).subs(), subscriber.id()),
            final(self).subs() == step(
                old(self).subs(),
                Call::Unsubscribe { token: subscriber.id() },
            ),
    {
        let ghost all = old(self).subs();
        let ghost tok = subscriber.id();
        let n = self.subscribers.len();
        let mut kept: Vec<Handle<S>> = Vec::new();
        let mut i: usize = 0;
        while i < n
            invariant
                i <= n,
                n == self.subscribers.len(),
                self.subscribers@ == all,
                tok == subscriber.id(),
                kept@ == without(all.take(i as int), tok),
            decreases n - i,
        {
            let h = &self.subscribers[i];
            if h.token != subscriber.token {
                kept.push(h.clone());
            }
            proof {
                reveal(Seq::filter);
                let pre = all.take(i as int);
                let cur = all.take(i + 1);
                assert(cur.drop_last() =~= pre);
                assert(cur.last() == all[i as int]);
            }
            i += 1;
        }
        proof {
            assert(all.take(n as int) =~= all);
        }
        self.subscribers = kept;
    }

    /// The number of registrations.
    pub fn len(&self) -> (n: usize)
        ensures
            n == self.subs().len(),
    {
        self.subscribers.len()
    }

    /// Borrow the registration at position `i`.
    pub fn get(&self, i: usize) -> (h: &Handle<S>)
        requires
            i < self.subs().len(),
        ensures
            *h == self.subs()[i as int],
    {
        &self.subscribers[i]
    }
}

impl<T, S: Subscriber<T>> Publisher<T, S> {
    /// Deliver `message`, by reference, to every registered subscriber in
    /// registration order. Subscriber `i + 1` is invoked only after
    /// subscriber `i`'s `update` call has returned; a doubly-registered
    /// handle is invoked once per registration. The postcondition of each
    /// subscriber's `update` implementation holds for every registration.
    pub fn publish(&self, message: T)
        ensures
            forall|i: int|
                #![trigger self.subs()[i]]
                0 <= i < self.subs().len() ==> call_ensures(
                    S::update,
                    (&self.subs()[i].sub(), &message),
                    (),
                ),
    {
        let n = self.subscribers.len();
        let mut i: usize = 0;
        while i < n
            invariant
                i <= n,
                n == self.subscribers.len(),
                forall|k: int|
                    #![trigger self.subs()[k]]
                    0 <= k < i ==> call_ensures(S::update, (&self.subs()[k].sub(), &message), ()),
            decreases n - i,
        {
            let h = &self.subscribers[i];
            h.get().update(&message);
            i += 1;
        }
    }
}

impl<T, S> Clone for Publisher<T, S> {
    /// Duplicating a publisher copies its registration list; the copy shares
    /// the subscribers with the original and stays functional after the
    /// original is dropped, since subscriber lifetime depends only on the
    /// handles, not on which publisher holds them.
    fn clone(&self) -> (res: Self)
        ensures
            res.subs() == self.subs(),
    {
        let n = self.subscribers.len();
        let mut subscribers: Vec<Handle<S>> = Vec::new();
        let mut i: usize = 0;
        while i < n
            invariant
                i <= n,
                n == self.subscribers.len(),
                subscribers@ == self.subs().take(i as int),
            decreases n - i,
        {
            let h = &self.subscribers[i];
            subscribers.push(h.clone());
            proof {
                assert(self.subs().take(i + 1) =~= self.subs().take(i as int).push(
                    self.subs()[i as int],
                ));
            }
            i += 1;
        }
        proof {
            assert(self.subs().take(n as int) =~= self.subs());
        }
        Publisher { subscribers, message_type: core::marker::PhantomData }
    }
}

impl<T, S> core::default::Default for Publisher<T, S> {
    /// The default publisher has no subscribers, like [`Publisher::new`].
    fn default() -> (p: Publisher<T, S>)
        ensures
            p.subs() == Seq::<Handle<S>>::empty(),
    {
        let p = Publisher { subscribers: Vec::new(), message_type: core::marker::PhantomData };
        proof {
            assert(p.subs() =~= Seq::<Handle<S>>::empty());
        }
        p
    }
}

} // verus!
