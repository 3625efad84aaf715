use vstd::prelude::*;
use crate::dispatch::{DispatchQueue, Message};

verus! {

/// The identities `1, 2, ..., count`, in increasing order.
pub open spec fn ids_up_to(count: nat) -> Seq<usize> {
    Seq::new(count, |i: int| (i + 1) as usize)
}

/// The identities that a shutdown addresses: the one named, or every worker
/// of the pool in increasing order.
pub open spec fn shutdown_targets_of(ids: Seq<usize>, target: Option<usize>) -> Seq<usize> {
    match target {
        Some(id) => seq![id],
        None => ids,
    }
}

/// One stop directive per identity, in the same order.
pub open spec fn stop_directives<J>(targets: Seq<usize>) -> Seq<Message<J>> {
    targets.map_values(|id: usize| Message::<J>::Shutdown(id))
}

/// The pool manager's record of its workers: their identities, fixed at
/// construction, and which of their threads have been joined.
pub struct Roster {
    ids: Vec<usize>,
    joined: Vec<bool>,
}

impl Roster {
    pub closed spec fn ids(&self) -> Seq<usize> {
        self.ids@
    }

    pub closed spec fn joined(&self) -> Seq<bool> {
        self.joined@
    }

    /// Worker `i` (from 0) has identity `i + 1`, and each has a join flag.
    pub open spec fn wf(&self) -> bool {
        &&& self.ids().len() <= usize::MAX
        &&& self.ids() == ids_up_to(self.ids().len())
        &&& self.joined().len() == self.ids().len()
    }

    pub open spec fn all_joined_spec(&self) -> bool {
        forall|i: int| 0 <= i < self.joined().len() ==> #[trigger] self.joined()[i]
    }

    /// A roster of `count` workers with identities `1..=count`, none joined.
    pub fn new(count: usize) -> (r: Roster)
        ensures
            r.wf(),
            r.ids() == ids_up_to(count as nat),
            forall|i: int| 0 <= i < count ==> !#[trigger] r.joined()[i],
    {
        let mut ids: Vec<usize> = Vec::new();
        let mut joined: Vec<bool> = Vec::new();
        let mut n: usize = 0;
        while n < count
            invariant
                n <= count,
                ids@ == ids_up_to(n as nat),
                joined@.len() == n,
                forall|i: int| 0 <= i < n ==> !#[trigger] joined@[i],
            decreases count - n,
        {
            ids.push(n + 1);
            joined.push(false);
            n = n + 1;
            assert(ids@ =~= ids_up_to(n as nat));
        }
        Roster { ids, joined }
    }

    pub fn worker_count(&self) -> (r: usize)
        ensures
            r == self.ids().len(),
    {
        self.ids.len()
    }

    /// The identity of the `i`-th worker, counting from 0.
    pub fn id_at(&self, i: usize) -> (r: usize)
        requires
            i < self.ids().len(),
        ensures
            r == self.ids()[i as int],
    {
        self.ids[i]
    }

    /// The identities that `shutdown(target)` sends a stop directive to.
    pub fn shutdown_targets(&self, target: Option<usize>) -> (r: Vec<usize>)
        ensures
            r@ == shutdown_targets_of(self.ids(), target),
    {
        match target {
            Some(id) => {
                let mut r: Vec<usize> = Vec::new();
                r.push(id);
                assert(r@ =~= seq![id]);
                r
            },
            None => self.ids.clone(),
        }
    }

    /// Sends the stop directives of `shutdown(target)` into the queue: one for
    /// the identity named, or one per worker in increasing identity order.
    pub fn enqueue_shutdown<J>(&self, q: &mut DispatchQueue<J>, target: Option<usize>)
        requires
            old(q).wf(),
        ensures
            final(q).wf(),
            final(q).pending() == old(q).pending() + stop_directives::<J>(
                shutdown_targets_of(self.ids(), target),
            ),
            final(q).sent() == old(q).sent() + stop_directives::<J>(
                shutdown_targets_of(self.ids(), target),
            ),
            final(q).taken() == old(q).taken(),
    {
        let targets = self.shutdown_targets(target);
        let ghost ds = stop_directives::<J>(targets@);
        let mut k: usize = 0;
        while k < targets.len()
            invariant
                k <= targets@.len(),
                ds == stop_directives::<J>(targets@),
                q.wf(),
                q.pending() == old(q).pending() + ds.subrange(0, k as int),
                q.sent() == old(q).sent() + ds.subrange(0, k as int),
                q.taken() == old(q).taken(),
            decreases targets@.len() - k,
        {
            q.send(Message::Shutdown(targets[k]));
            k = k + 1;
            assert(ds.subrange(0, k as int) =~= ds.subrange(0, k - 1 as int).push(
                Message::Shutdown(targets@[k - 1]),
            ));
            assert(q.pending() =~= old(q).pending() + ds.subrange(0, k as int));
            assert(q.sent() =~= old(q).sent() + ds.subrange(0, k as int));
        }
        assert(ds.subrange(0, k as int) =~= ds);
    }

    /// The index of the first worker, in order of creation, whose thread has
    /// not been joined yet; `None` once every one of them has been joined.
    pub fn next_to_join(&self) -> (r: Option<usize>)
        requires
            self.wf(),
        ensures
            match r {
                Some(i) => {
                    &&& i < self.joined().len()
                    &&& !self.joined()[i as int]
                    &&& forall|j: int| 0 <= j < i ==> #[trigger] self.joined()[j]
                },
                None => self.all_joined_spec(),
            },
    {
        let mut i: usize = 0;
        while i < self.joined.len()
            invariant
                i <= self.joined@.len(),
                forall|j: int| 0 <= j < i ==> #[trigger] self.joined@[j],
            decreases self.joined@.len() - i,
        {
            if !self.joined[i] {
                return Some(i);
            }
            i = i + 1;
        }
        None
    }

    /// Records that the thread of the `i`-th worker has been joined.
    pub fn mark_joined(&mut self, i: usize)
        requires
            old(self).wf(),
            i < old(self).joined().len(),
        ensures
            final(self).wf(),
            final(self).ids() == old(self).ids(),
            final(self).joined() == old(self).joined().update(i as int, true),
    {
        self.joined.set(i, true);
    }

    pub fn all_joined(&self) -> (r: bool)
        requires
            self.wf(),
        ensures
            r == self.all_joined_spec(),
    {
        self.next_to_join().is_none()
    }
}

/// A broadcast shutdown of a pool of `k` workers sends exactly `k` stop
/// directives, for the identities `1..=k` in increasing order, and each
/// worker is stopped by exactly one of them.
pub proof fn lemma_broadcast_stops_each_worker_once<J>(r: Roster)
    requires
        r.wf(),
    ensures
        stop_directives::<J>(shutdown_targets_of(r.ids(), None)).len() == r.ids().len(),
        forall|i: int|
            0 <= i < r.ids().len() ==> #[trigger] stop_directives::<J>(
                shutdown_targets_of(r.ids(), None),
            )[i] == Message::<J>::Shutdown((i + 1) as usize),
        forall|i: int, w: int|
            0 <= i < r.ids().len() && 0 <= w < r.ids().len() ==> (#[trigger] stop_directives::<J>(
                shutdown_targets_of(r.ids(), None),
            )[i].stops(#[trigger] r.ids()[w]) <==> i == w),
{
}

/// In a pool of one worker, a shutdown naming identity 1 sends a single stop
/// directive, and that directive stops the pool's only worker.
pub proof fn lemma_single_worker_targeted_shutdown<J>(r: Roster)
    requires
        r.wf(),
        r.ids().len() == 1,
    ensures
        stop_directives::<J>(shutdown_targets_of(r.ids(), Some(1usize))) == seq![
            Message::<J>::Shutdown(1usize),
        ],
        Message::<J>::Shutdown(1usize).stops(r.ids()[0]),
{
    assert(stop_directives::<J>(shutdown_targets_of(r.ids(), Some(1usize))) =~= seq![
        Message::<J>::Shutdown(1usize),
    ]);
}

/// The indices of the workers whose threads are still to be joined.
pub open spec fn unjoined(joined: Seq<bool>) -> Set<int> {
    Set::new(|j: int| 0 <= j < joined.len() && !joined[j])
}

/// Joining goes in the order of creation: once the worker that
/// `next_to_join` names is marked joined, every worker up to and including
/// it is joined, and exactly that one has left the workers still to join.
pub proof fn lemma_join_in_creation_order(r: Roster, i: int)
    requires
        r.wf(),
        0 <= i < r.joined().len(),
        !r.joined()[i],
        forall|j: int| 0 <= j < i ==> #[trigger] r.joined()[j],
    ensures
        forall|j: int| 0 <= j <= i ==> #[trigger] r.joined().update(i, true)[j],
        unjoined(r.joined().update(i, true)) == unjoined(r.joined()).remove(i),
        unjoined(r.joined()).contains(i),
{
    assert(unjoined(r.joined().update(i, true)) =~= unjoined(r.joined()).remove(i));
}

} // verus!
