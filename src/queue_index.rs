use crate::communicator::CommunicateStatus;
use crate::message::{le_u64, FromParams, Message};
use vstd::prelude::*;

verus! {

/// A position in the device's command queue, as the device numbers them.
#[derive(Clone, Copy, Debug, PartialEq, Eq, Structural, PartialOrd)]
pub struct QueueIndex(pub u64);

impl QueueIndex {
    pub fn new(value: u64) -> (r: Self)
        ensures
            r.0 == value,
    {
        QueueIndex(value)
    }

    pub fn value(&self) -> (r: u64)
        ensures
            r == self.0,
    {
        self.0
    }
}

/// The waiters of `ws` whose target is still ahead of `current`, in order.
pub open spec fn still_waiting<H>(ws: Seq<(QueueIndex, H)>, current: u64) -> Seq<(QueueIndex, H)> {
    ws.filter(|w: (QueueIndex, H)| w.0.0 > current)
}

/// The handles of the waiters of `ws` whose target `current` has reached, in order.
pub open spec fn reached<H>(ws: Seq<(QueueIndex, H)>, current: u64) -> Seq<H> {
    ws.filter(|w: (QueueIndex, H)| w.0.0 <= current).map_values(|w: (QueueIndex, H)| w.1)
}

proof fn lemma_waiters_empty<H>(current: u64)
    ensures
        still_waiting(Seq::<(QueueIndex, H)>::empty(), current) == Seq::<(QueueIndex, H)>::empty(),
        reached(Seq::<(QueueIndex, H)>::empty(), current) == Seq::<H>::empty(),
{
    reveal(Seq::filter);
    assert(reached(Seq::<(QueueIndex, H)>::empty(), current) =~= Seq::<H>::empty());
}

proof fn lemma_waiters_step<H>(ws: Seq<(QueueIndex, H)>, j: int, current: u64)
    requires
        0 <= j < ws.len(),
    ensures
        still_waiting(ws.take(j + 1), current) == if ws[j].0.0 > current {
            still_waiting(ws.take(j), current).push(ws[j])
        } else {
            still_waiting(ws.take(j), current)
        },
        reached(ws.take(j + 1), current) == if ws[j].0.0 <= current {
            reached(ws.take(j), current).push(ws[j].1)
        } else {
            reached(ws.take(j), current)
        },
{
    reveal(Seq::filter);
    let s = ws.take(j + 1);
    assert(s.drop_last() =~= ws.take(j));
    assert(s.last() == ws[j]);
    let pre = ws.take(j).filter(|w: (QueueIndex, H)| w.0.0 <= current);
    assert(pre.push(ws[j]).map_values(|w: (QueueIndex, H)| w.1) =~= pre.map_values(
        |w: (QueueIndex, H)| w.1,
    ).push(ws[j].1));
}

/// Callers waiting for the device to reach a queue index, each with the
/// handle that is told when it does.
pub struct QueueTracker<H> {
    waiters: Vec<(QueueIndex, H)>,
}

impl<H> QueueTracker<H> {
    /// The waiters, in the order they registered.
    pub closed spec fn waiters(&self) -> Seq<(QueueIndex, H)> {
        self.waiters@
    }

    pub fn new() -> (r: Self)
        ensures
            r.waiters() == Seq::<(QueueIndex, H)>::empty(),
    {
        QueueTracker { waiters: Vec::new() }
    }

    /// How many waiters are pending.
    pub fn len(&self) -> (r: usize)
        ensures
            r == self.waiters().len(),
    {
        self.waiters.len()
    }

    /// Registers a wait for the device to reach `target`.
    pub fn add_waiter(&mut self, target: QueueIndex, handle: H)
        ensures
            final(self).waiters() == old(self).waiters().push((target, handle)),
    {
        self.waiters.push((target, handle));
    }

    /// Takes in a polled current index: every waiter whose target it has
    /// reached is removed and its handle returned, in registration order;
    /// the others keep waiting.
    pub fn resolve(&mut self, current: QueueIndex) -> (r: Vec<H>)
        ensures
            final(self).waiters() == still_waiting(old(self).waiters(), current.0),
            r@ == reached(old(self).waiters(), current.0),
    {
        let ghost orig = self.waiters@;
        let mut resolved: Vec<H> = Vec::new();
        let mut i: usize = 0;
        let ghost mut j: int = 0;
        assert(orig.take(0) =~= Seq::<(QueueIndex, H)>::empty());
        assert(orig.skip(0) =~= orig);
        proof {
            lemma_waiters_empty::<H>(current.0);
        }
        while i < self.waiters.len()
            invariant
                0 <= j <= orig.len(),
                i == still_waiting(orig.take(j), current.0).len(),
                self.waiters@ == still_waiting(orig.take(j), current.0) + orig.skip(j),
                resolved@ == reached(orig.take(j), current.0),
            decreases self.waiters@.len() - i,
        {
            let ghost kept = still_waiting(orig.take(j), current.0);
            assert(self.waiters@[i as int] == orig[j]);
            proof {
                lemma_waiters_step(orig, j, current.0);
            }
            if current.0 >= self.waiters[i].0.0 {
                let w = self.waiters.remove(i);
                resolved.push(w.1);
                assert(self.waiters@ =~= kept + orig.skip(j + 1));
            } else {
                i += 1;
                assert(self.waiters@ =~= kept.push(orig[j]) + orig.skip(j + 1));
            }
            proof {
                j = j + 1;
            }
        }
        assert(j == orig.len()) by {
            if j < orig.len() {
                assert(self.waiters@.len() > i);
            }
        }
        assert(orig.take(j) =~= orig);
        assert(self.waiters@ =~= still_waiting(orig, current.0));
        resolved
    }
}

/// The queue index that a queued command was given: the first eight bytes of
/// the reply's parameters, little-endian. For a command that is not queued
/// there is none. Any outcome but a reply is handed back as the error.
pub fn queued_index_of(request: &Message, status: CommunicateStatus) -> (r: Result<
    Option<QueueIndex>,
    CommunicateStatus,
>)
    ensures
        match status {
            CommunicateStatus::NoError(ack) => r == Ok::<Option<QueueIndex>, CommunicateStatus>(
                if request.is_queued != 0 {
                    Some(QueueIndex(le_u64(ack.params@) as u64))
                } else {
                    None
                },
            ),
            _ => r == Err::<Option<QueueIndex>, CommunicateStatus>(status),
        },
{
    match status {
        CommunicateStatus::NoError(ack) => {
            if request.is_queued != 0 {
                Ok(Some(QueueIndex(u64::from_params(ack.params_len as usize, ack.params))))
            } else {
                Ok(None)
            }
        },
        _ => Err(status),
    }
}

/// The device's current queue index from the reply to a current-index
/// request; any outcome but a reply is handed back as the error.
pub fn current_index_of(status: CommunicateStatus) -> (r: Result<QueueIndex, CommunicateStatus>)
    ensures
        match status {
            CommunicateStatus::NoError(ack) => r == Ok::<QueueIndex, CommunicateStatus>(
                QueueIndex(le_u64(ack.params@) as u64),
            ),
            _ => r == Err::<QueueIndex, CommunicateStatus>(status),
        },
{
    match status {
        CommunicateStatus::NoError(ack) => Ok(
            QueueIndex(u64::from_params(ack.params_len as usize, ack.params)),
        ),
        _ => Err(status),
    }
}

/// Success when the request was answered; any other outcome is the error.
pub fn acknowledged(status: CommunicateStatus) -> (r: Result<(), CommunicateStatus>)
    ensures
        status is NoError ==> r is Ok,
        !(status is NoError) ==> r == Err::<(), CommunicateStatus>(status),
{
    match status {
        CommunicateStatus::NoError(_) => Ok(()),
        _ => Err(status),
    }
}

} // verus!
