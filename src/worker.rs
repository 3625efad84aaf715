use vstd::prelude::*;
use crate::dispatch::{DispatchQueue, Message};

verus! {

/// The protocol state of one worker: its identity, and whether it has left
/// its receive loop. A worker stops once, and never runs again.
pub struct WorkerState {
    pub id: usize,
    pub terminated: bool,
}

impl WorkerState {
    /// The state after taking directive `m`: a worker stops on a directive
    /// that names it, and stays as it was on any other.
    pub open spec fn after<J>(self, m: Message<J>) -> WorkerState {
        WorkerState { id: self.id, terminated: self.terminated || m.stops(self.id) }
    }

    /// A fresh worker with identity `id`, in the running state.
    pub fn new(id: usize) -> (r: WorkerState)
        ensures
            r.id == id,
            !r.terminated,
    {
        WorkerState { id, terminated: false }
    }

    pub fn is_terminated(&self) -> (r: bool)
        ensures
            r == self.terminated,
    {
        self.terminated
    }

    /// Reacts to one directive taken from the queue. A job is handed back to
    /// be run; a stop directive for this worker ends it; a stop directive for
    /// another worker is dropped, and is not passed on.
    pub fn handle<J>(&mut self, m: Message<J>) -> (r: Option<J>)
        requires
            !old(self).terminated,
        ensures
            *final(self) == old(self).after(m),
            match m {
                Message::Job(job) => r == Some(job),
                Message::Shutdown(_) => r is None,
            },
    {
        match m {
            Message::Job(job) => Some(job),
            Message::Shutdown(target) => {
                if target == self.id {
                    self.terminated = true;
                }
                None
            },
        }
    }
}

/// A stop directive is consumed by whichever worker takes it. When the only
/// waiting directive names worker `b` and a different running worker `a`
/// takes it, `a` keeps running, the queue is left empty, and so no directive
/// that follows in it can stop `b`: the directive is lost.
pub proof fn lemma_misrouted_shutdown_is_lost<J>(
    a: WorkerState,
    b: WorkerState,
    q: DispatchQueue<J>,
)
    requires
        q.wf(),
        a.id != b.id,
        !a.terminated,
        !b.terminated,
        q.pending() == seq![Message::<J>::Shutdown(b.id)],
    ensures
        !a.after(q.pending()[0]).terminated,
        b.after(q.pending()[0]).terminated,
        q.pending().drop_first().len() == 0,
        forall|i: int|
            0 <= i < q.pending().drop_first().len() ==> !b.after(
                #[trigger] q.pending().drop_first()[i],
            ).terminated,
{
    assert(q.pending().drop_first().len() == 0);
}

/// A worker that has stopped stays stopped whatever it is handed.
pub proof fn lemma_termination_is_final<J>(w: WorkerState, m: Message<J>)
    requires
        w.terminated,
    ensures
        w.after(m) == w,
{
}

} // verus!
