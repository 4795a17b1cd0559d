//! The shared mathematical model of a registration list.
//!
//! A handle carries an identity token, and a publisher's list is a sequence of
//! handles. Subscribing appends a handle; unsubscribing keeps exactly the
//! entries whose token differs from the one given, in order. Both publisher
//! variants state their contracts over these definitions, and the lemmas here
//! prove the laws that hold of every sequence of such calls.

use vstd::prelude::*;
use vstd::seq_lib::group_filter_ensures;

verus! {

/// A subscriber handle with an identity token. Two handles are
/// identity-equal exactly when their tokens are equal; clones of a handle
/// keep its token, so they stay identity-equal to the original.
pub trait Identified {
    /// The identity token of this handle.
    spec fn id(&self) -> u64;
}

/// The entries of `s` that do not carry the identity token `token`, in order.
pub open spec fn without<H: Identified>(s: Seq<H>, token: u64) -> Seq<H> {
    s.filter(|h: H| h.id() != token)
}

/// Some entry of `s` carries the identity token `token`.
pub open spec fn registered<H: Identified>(s: Seq<H>, token: u64) -> bool {
    exists|k: int| 0 <= k < s.len() && (#[trigger] s[k]).id() == token
}

/// Removal removes every matching registration: no entry carrying the removed
/// token remains afterwards.
pub proof fn lemma_without_removes_all<H: Identified>(s: Seq<H>, token: u64)
    ensures
        !registered(without(s, token), token),
{
    broadcast use group_filter_ensures;

}

/// Removal touches only matching registrations: a token other than the
/// removed one is registered afterwards iff it was registered before.
pub proof fn lemma_without_keeps_others<H: Identified>(s: Seq<H>, token: u64, other: u64)
    requires
        other != token,
    ensures
        registered(without(s, token), other) == registered(s, other),
    decreases s.len(),
{
    broadcast use Seq::lemma_filter_push;

    if s.len() > 0 {
        let rest = s.drop_last();
        let last = s.last();
        assert(s =~= rest.push(last));
        lemma_without_keeps_others(rest, token, other);
        lemma_registered_push(rest, last, token);
        lemma_registered_push(rest, last, other);
        if last.id() != token {
            lemma_registered_push(without(rest, token), last, other);
        }
    }
}

/// Removing a token that no entry carries changes nothing.
pub proof fn lemma_without_absent_noop<H: Identified>(s: Seq<H>, token: u64)
    requires
        !registered(s, token),
    ensures
        without(s, token) == s,
    decreases s.len(),
{
    broadcast use Seq::lemma_filter_push;

    reveal(Seq::filter);
    if s.len() > 0 {
        let rest = s.drop_last();
        let last = s.last();
        assert(s =~= rest.push(last));
        lemma_registered_push(rest, last, token);
        lemma_without_absent_noop(rest, token);
    }
}

/// After a push, a token is registered iff it was registered before or the
/// new entry carries it.
pub proof fn lemma_registered_push<H: Identified>(s: Seq<H>, h: H, token: u64)
    ensures
        registered(s.push(h), token) == (registered(s, token) || h.id() == token),
{
    let grown = s.push(h);
    if registered(s, token) {
        let k = choose|k: int| 0 <= k < s.len() && (#[trigger] s[k]).id() == token;
        assert(grown[k].id() == token);
    }
    if h.id() == token {
        assert(grown[s.len() as int].id() == token);
    }
    if registered(grown, token) && h.id() != token {
        let k = choose|k: int| 0 <= k < grown.len() && (#[trigger] grown[k]).id() == token;
        assert(s[k].id() == token);
    }
}

/// One call against a registration list: subscribing appends the handle,
/// unsubscribing removes every entry carrying the token.
pub enum Call<H> {
    Subscribe { handle: H },
    Unsubscribe { token: u64 },
}

/// The registration list that `c` leaves when applied to `s`.
pub open spec fn step<H: Identified>(s: Seq<H>, c: Call<H>) -> Seq<H> {
    match c {
        Call::Subscribe { handle } => s.push(handle),
        Call::Unsubscribe { token } => without(s, token),
    }
}

/// The registration list that a sequence of calls leaves behind, starting
/// from an empty publisher.
pub open spec fn run<H: Identified>(calls: Seq<Call<H>>) -> Seq<H>
    decreases calls.len(),
{
    if calls.len() == 0 {
        Seq::empty()
    } else {
        step(run(calls.drop_last()), calls.last())
    }
}

/// Call `i` is a subscribe that no later unsubscribe matches by identity.
pub open spec fn surviving<H: Identified>(calls: Seq<Call<H>>, i: int) -> bool {
    &&& 0 <= i < calls.len()
    &&& calls[i] is Subscribe
    &&& forall|j: int|
        i < j < calls.len() ==> !((#[trigger] calls[j]) matches Call::Unsubscribe { token }
            && token == calls[i]->handle.id())
}

/// After any sequence of calls against an initially empty publisher, a token
/// is registered iff some subscribe call brought it and no later unsubscribe
/// matched it.
pub proof fn lemma_registered_iff_surviving<H: Identified>(calls: Seq<Call<H>>, token: u64)
    ensures
        registered(run(calls), token) == (exists|i: int|
            surviving(calls, i) && (#[trigger] calls[i])->handle.id() == token),
    decreases calls.len(),
{
    if calls.len() > 0 {
        let rest = calls.drop_last();
        let last = calls.last();
        lemma_registered_iff_surviving(rest, token);
        assert forall|i: int| surviving(rest, i) implies surviving(calls, i) || ((calls[calls.len()
            - 1] matches Call::Unsubscribe { token: t } && t == rest[i]->handle.id())) by {
            assert(forall|j: int| i < j < rest.len() ==> calls[j] == rest[j]);
        }
        match last {
            Call::Subscribe { handle } => {
                lemma_registered_push(run(rest), handle, token);
                if handle.id() == token {
                    assert(surviving(calls, calls.len() - 1));
                } else if registered(run(rest), token) {
                    let i = choose|i: int|
                        surviving(rest, i) && (#[trigger] rest[i])->handle.id() == token;
                    assert(surviving(calls, i));
                }
                if exists|i: int|
                    surviving(calls, i) && (#[trigger] calls[i])->handle.id() == token {
                    let i = choose|i: int|
                        surviving(calls, i) && (#[trigger] calls[i])->handle.id() == token;
                    if i < calls.len() - 1 {
                        assert(surviving(rest, i));
                        assert(registered(run(rest), token));
                    }
                }
            },
            Call::Unsubscribe { token: removed } => {
                if removed == token {
                    lemma_without_removes_all(run(rest), token);
                    assert forall|i: int|
                        surviving(calls, i) implies calls[i]->handle.id() != token by {
                        assert(i < calls.len() - 1);
                    }
                } else {
                    lemma_without_keeps_others(run(rest), removed, token);
                    if registered(run(rest), token) {
                        let i = choose|i: int|
                            surviving(rest, i) && (#[trigger] rest[i])->handle.id() == token;
                        assert(surviving(calls, i));
                    }
                    if exists|i: int|
                        surviving(calls, i) && (#[trigger] calls[i])->handle.id() == token {
                        let i = choose|i: int|
                            surviving(calls, i) && (#[trigger] calls[i])->handle.id() == token;
                        assert(i < calls.len() - 1);
                        assert(surviving(rest, i));
                    }
                }
            },
        }
    }
}

/// The law behind `has_subscribers`: after any sequence of subscribe and
/// unsubscribe calls against an initially empty publisher, at least one
/// registration remains iff at least one subscribe occurred whose handle no
/// later unsubscribe matched by identity.
pub proof fn lemma_nonempty_iff_some_survivor<H: Identified>(calls: Seq<Call<H>>)
    ensures
        (run(calls).len() != 0) == (exists|i: int| surviving(calls, i)),
{
    if run(calls).len() != 0 {
        let present = run(calls)[0].id();
        assert(registered(run(calls), present));
        lemma_registered_iff_surviving(calls, present);
    }
    if exists|i: int| surviving(calls, i) {
        let i = choose|i: int| surviving(calls, i);
        let present = calls[i]->handle.id();
        lemma_registered_iff_surviving(calls, present);
        assert(surviving(calls, i) && calls[i]->handle.id() == present);
        let k = choose|k: int|
            0 <= k < run(calls).len() && (#[trigger] run(calls)[k]).id() == present;
    }
}

} // verus!
