//! Channels to other threads.
use async_channel::Sender;
use vstd::prelude::*;

verus! {

/// `async_channel::Sender`, the end of a channel that messages are put into.
#[verifier::external_type_specification]
#[verifier::external_body]
#[verifier::reject_recursive_types(T)]
pub struct ExSender<T>(async_channel::Sender<T>);

/// `async_channel::Receiver`, the end of a channel that messages are taken from.
#[verifier::external_type_specification]
#[verifier::external_body]
#[verifier::reject_recursive_types(T)]
pub struct ExReceiver<T>(async_channel::Receiver<T>);

/// `async_channel::unbounded`: the two ends of a new channel without a bound. Nothing is
/// said of them: what a channel holds changes with what other threads do.
pub assume_specification<T>[ async_channel::unbounded::<T> ]() -> (r: (
    async_channel::Sender<T>,
    async_channel::Receiver<T>,
));

/// `async_channel::Sender::is_closed`: whether the channel is closed. Nothing is said of
/// the result: any thread that holds the other end can close it.
pub assume_specification<T>[ async_channel::Sender::<T>::is_closed ](
    tx: &async_channel::Sender<T>,
) -> (r: bool);

/// `async_channel::Sender::try_send`: puts a message into the channel, and says whether
/// that was possible. Nothing is said of the result: any thread that holds the other end
/// can close the channel.
#[verifier::external_body]
fn offer<T>(tx: &Sender<T>, message: T) -> (sent: bool) {
    tx.try_send(message).is_ok()
}

/// What became of a message.
#[derive(Debug, Clone, Copy, PartialEq, Eq, Structural)]
pub enum Delivery {
    Sent,
    /// It was not taken, and the channel is open.
    Refused,
    /// It was not taken, and the channel is closed.
    Closed,
}

/// What became of a message, by whether the channel took it and whether the channel is
/// closed.
pub fn delivery_of(sent: bool, closed: bool) -> (r: Delivery)
    ensures
        r == (if sent {
            Delivery::Sent
        } else if closed {
            Delivery::Closed
        } else {
            Delivery::Refused
        }),
{
    if sent {
        Delivery::Sent
    } else if closed {
        Delivery::Closed
    } else {
        Delivery::Refused
    }
}

/// What becomes of a message that is put into a channel.
pub(crate) fn deliver<T>(tx: &Sender<T>, message: T) -> (r: Delivery) {
    let sent: bool = offer(tx, message);
    delivery_of(sent, !sent && tx.is_closed())
}

/// The receivers that are left after one message to each: all but those whose channel
/// is closed, in their order.
pub open spec fn still_open<S>(all: Seq<S>, deliveries: Seq<Delivery>) -> Seq<S>
    decreases all.len(),
{
    if all.len() == 0 || all.len() != deliveries.len() {
        Seq::empty()
    } else {
        let left = still_open(all.drop_last(), deliveries.drop_last());
        if deliveries.last() == Delivery::Closed {
            left
        } else {
            left.push(all.last())
        }
    }
}

/// Forgets the receivers whose channel is closed.
pub fn keep_open<S>(all: &mut Vec<S>, deliveries: &Vec<Delivery>)
    requires
        old(all)@.len() == deliveries@.len(),
    ensures
        final(all)@ == still_open(old(all)@, deliveries@),
{
    let ghost before: Seq<S> = all@;
    let n: usize = deliveries.len();
    let mut kept: usize = 0;
    let mut i: usize = 0;
    proof {
        assert(before.take(0) =~= Seq::empty());
        assert(before.skip(0) =~= before);
        assert(still_open(before.take(0), deliveries@.take(0)) + before.skip(0) =~= before);
    }
    while i < n
        invariant
            n == deliveries@.len(),
            n == before.len(),
            kept <= i <= n,
            kept == still_open(before.take(i as int), deliveries@.take(i as int)).len(),
            all@ == still_open(before.take(i as int), deliveries@.take(i as int)) + before.skip(
                i as int,
            ),
        decreases n - i,
    {
        let ghost left = still_open(before.take(i as int), deliveries@.take(i as int));
        proof {
            assert(before.take(i + 1).drop_last() =~= before.take(i as int));
            assert(deliveries@.take(i + 1).drop_last() =~= deliveries@.take(i as int));
            assert(before.skip(i as int).drop_first() =~= before.skip(i + 1));
        }
        if deliveries[i] == Delivery::Closed {
            all.remove(kept);
            assert(all@ =~= left + before.skip(i + 1));
        } else {
            kept = kept + 1;
            assert(all@ =~= left.push(before[i as int]) + before.skip(i + 1));
        }
        i = i + 1;
    }
    proof {
        assert(before.take(n as int) =~= before);
        assert(deliveries@.take(n as int) =~= deliveries@);
        assert(all@ =~= still_open(before, deliveries@));
    }
}

/// A receiver whose channel is open is not forgotten, and none comes to be that was not
/// there.
pub proof fn law_open_receivers_stay<S>(all: Seq<S>, deliveries: Seq<Delivery>)
    requires
        all.len() == deliveries.len(),
    ensures
        forall|i: int|
            0 <= i < all.len() && deliveries[i] != Delivery::Closed ==> still_open(all, deliveries).contains(
                #[trigger] all[i],
            ),
        forall|k: int|
            0 <= k < still_open(all, deliveries).len() ==> exists|i: int|
                0 <= i < all.len() && deliveries[i] != Delivery::Closed && #[trigger] all[i]
                    == #[trigger] still_open(all, deliveries)[k],
    decreases all.len(),
{
    if all.len() > 0 {
        let front = all.drop_last();
        let past = deliveries.drop_last();
        law_open_receivers_stay(front, past);
        let left = still_open(front, past);
        let now = still_open(all, deliveries);
        assert forall|i: int| 0 <= i < all.len() && deliveries[i] != Delivery::Closed implies now.contains(
            #[trigger] all[i],
        ) by {
            if i < front.len() {
                assert(front[i] == all[i]);
                assert(left.contains(front[i]));
                let k = choose|k: int| 0 <= k < left.len() && left[k] == all[i];
                assert(now[k] == all[i]);
            } else {
                assert(now[left.len() as int] == all[i]);
            }
        }
        assert forall|k: int| 0 <= k < now.len() implies exists|i: int|
            0 <= i < all.len() && deliveries[i] != Delivery::Closed && #[trigger] all[i]
                == #[trigger] now[k] by {
            if k < left.len() {
                assert(now[k] == left[k]);
                let i = choose|i: int|
                    0 <= i < front.len() && past[i] != Delivery::Closed && #[trigger] front[i] == left[k];
                assert(all[i] == now[k]);
            } else {
                assert(all[all.len() - 1] == now[k]);
            }
        }
    }
}

/// Wakes the thread at the other end of a channel. A channel that is closed is no error:
/// there is nothing left to wake.
pub fn nudge(tx: &Sender<()>) {
    let _ = deliver(tx, ());
}

/// The receivers that are left stand in their order: one more comes last, unless its channel is
/// closed.
pub proof fn law_receivers_keep_their_order<S>(
    all: Seq<S>,
    deliveries: Seq<Delivery>,
    receiver: S,
    delivery: Delivery,
)
    requires
        all.len() == deliveries.len(),
    ensures
        still_open(Seq::<S>::empty(), Seq::empty()) == Seq::<S>::empty(),
        delivery == Delivery::Closed ==> still_open(all.push(receiver), deliveries.push(delivery))
            == still_open(all, deliveries),
        delivery != Delivery::Closed ==> still_open(all.push(receiver), deliveries.push(delivery))
            == still_open(all, deliveries).push(receiver),
{
    assert(all.push(receiver).drop_last() =~= all);
    assert(deliveries.push(delivery).drop_last() =~= deliveries);
}

} // verus!
