//! Delivering a notification to the subscriptions registered for its type.
//!
//! A subscription is dropped by dropping its handle; delivery is what notices
//! and forgets it. Each subscription is tried once: one whose callback is
//! still alive is called and kept, one whose callback is gone is removed by
//! swapping the last subscription into its place, which is then tried in
//! turn.

use std::rc::Rc;
use vstd::prelude::*;

verus! {

/// What keeps a subscription alive.
///
/// The bus holds the callback only weakly; the handle holds it strongly, so
/// the subscription lasts as long as the handle and is forgotten by the first
/// delivery after the handle is dropped.
pub struct SubscriptionHandle<C> {
    callback: Rc<C>,
}

impl<C> SubscriptionHandle<C> {
    /// The callback the handle keeps alive.
    pub closed spec fn callback(&self) -> C {
        *self.callback
    }

    /// A handle that keeps `callback` alive.
    pub fn new(callback: Rc<C>) -> (handle: Self)
        ensures
            handle.callback() == *callback,
    {
        SubscriptionHandle { callback }
    }
}

/// Removing the element at `i` by moving the last one into its place takes
/// one copy of that element out of the multiset.
proof fn lemma_swap_remove_multiset<S>(s: Seq<S>, i: int)
    requires
        0 <= i < s.len(),
    ensures
        s.update(i, s.last()).drop_last().to_multiset() =~= s.to_multiset().remove(s[i]),
{
    broadcast use vstd::seq_lib::group_to_multiset_ensures;

    let d = s.drop_last();
    assert(s =~= d.push(s.last()));
    if i == s.len() - 1 {
        assert(s.update(i, s.last()).drop_last() =~= d);
    } else {
        let t = s.update(i, s.last()).drop_last();
        assert(t =~= d.remove(i).insert(i, s.last()));
        vstd::seq_lib::to_multiset_insert(d.remove(i), i, s.last());
        assert(d[i] == s[i]);
        assert(t.to_multiset() =~= d.to_multiset().remove(s[i]).insert(s.last()));
        assert(d.to_multiset().count(s[i]) > 0);
    }
}

/// Delivers a notification to `subscriptions` through `try_callback`, which
/// calls a subscription and says whether it is still alive. The ones that
/// are not are removed.
pub fn notify<S, F: Fn(&S) -> bool>(subscriptions: &mut Vec<S>, try_callback: F)
    requires
        forall|s: &S| #[trigger] try_callback.requires((s,)),
    ensures
        final(subscriptions)@.len() <= old(subscriptions)@.len(),
        forall|i: int|
            0 <= i < final(subscriptions)@.len() ==> try_callback.ensures(
                (&final(subscriptions)@[i],),
                true,
            ),
        exists|removed: Seq<S>|
            {
                &&& old(subscriptions)@.to_multiset() =~= final(subscriptions)@.to_multiset().add(
                    removed.to_multiset(),
                )
                &&& forall|j: int|
                    0 <= j < removed.len() ==> try_callback.ensures((&#[trigger] removed[j],), false)
            },
{
    broadcast use vstd::seq_lib::group_to_multiset_ensures, vstd::multiset::group_multiset_axioms;

    let ghost mut removed: Seq<S> = Seq::empty();
    let mut i: usize = 0;
    while i < subscriptions.len()
        invariant
            i <= subscriptions@.len(),
            subscriptions@.len() + removed.len() == old(subscriptions)@.len(),
            forall|s: &S| #[trigger] try_callback.requires((s,)),
            forall|j: int|
                0 <= j < i ==> try_callback.ensures((&subscriptions@[j],), true),
            old(subscriptions)@.to_multiset() =~= subscriptions@.to_multiset().add(
                removed.to_multiset(),
            ),
            forall|j: int| 0 <= j < removed.len() ==> try_callback.ensures((&#[trigger] removed[j],), false),
        decreases subscriptions@.len() - i,
    {
        if try_callback(&subscriptions[i]) {
            i = i + 1;
        } else {
            proof {
                let s = subscriptions@;
                lemma_swap_remove_multiset(s, i as int);
                let gone = s[i as int];
                removed.to_multiset_ensures();
                s.to_multiset_ensures();
                assert(s.contains(gone));
                assert(s.to_multiset().count(gone) > 0);
                assert(removed.push(gone).to_multiset() =~= removed.to_multiset().insert(gone));
                assert(s.to_multiset() =~= s.to_multiset().remove(gone).insert(gone));
                removed = removed.push(gone);
            }
            subscriptions.swap_remove(i);
        }
    }
}

} // verus!
