use std::collections::VecDeque;
use vstd::prelude::*;

verus! {

/// A directive carried by the dispatch queue: either a unit of work to run,
/// or an instruction that the worker with the given identity should stop.
pub enum Message<J> {
    Shutdown(usize),
    Job(J),
}

impl<J> Message<J> {
    /// Whether this directive asks the worker `id` to stop.
    pub open spec fn stops(self, id: usize) -> bool {
        match self {
            Message::Shutdown(target) => target == id,
            Message::Job(_) => false,
        }
    }

    /// A short description: `Shutdown(<id>)` for a stop directive, and
    /// `Job(<FnOnce>)` for a unit of work, whose contents are not shown.
    pub fn describe(&self) -> (r: String)
        ensures
            r@ == (match *self {
                Message::Shutdown(id) => seq!['S', 'h', 'u', 't', 'd', 'o', 'w', 'n', '(']
                    + decimal(id as nat) + seq![')'],
                Message::Job(_) => seq!['J', 'o', 'b', '(', '<', 'F', 'n', 'O', 'n', 'c', 'e', '>', ')'],
            }),
    {
        match self {
            Message::Shutdown(id) => shutdown_label(*id),
            Message::Job(_) => {
                let r = String::from_str("Job(<FnOnce>)");
                proof {
                    reveal_strlit("Job(<FnOnce>)");
                }
                r
            },
        }
    }
}

/// The decimal digits of `n`, most significant first, without leading zeros.
pub open spec fn decimal(n: nat) -> Seq<char>
    decreases n,
{
    if n < 10 {
        seq![digit_char(n)]
    } else {
        decimal(n / 10).push(digit_char(n % 10))
    }
}

pub open spec fn digit_char(d: nat) -> char {
    (d + '0' as nat) as char
}

/// Relies on `format!` with `{}` on a `usize`: its decimal digits.
#[verifier::external_body]
fn shutdown_label(id: usize) -> (r: String)
    ensures
        r@ == seq!['S', 'h', 'u', 't', 'd', 'o', 'w', 'n', '('] + decimal(id as nat) + seq![')'],
{
    format!("Shutdown({})", id)
}

/// The queue shared by all workers of a pool: unbounded, first in, first out,
/// and each directive is taken out by exactly one consumer.
///
/// Besides what is waiting, it records as ghost state every directive ever
/// sent into it and every directive taken out, in order.
pub struct DispatchQueue<J> {
    pending: VecDeque<Message<J>>,
    sent: Ghost<Seq<Message<J>>>,
    taken: Ghost<Seq<Message<J>>>,
}

impl<J> DispatchQueue<J> {
    /// The directives waiting, the oldest first.
    pub closed spec fn pending(&self) -> Seq<Message<J>> {
        self.pending@
    }

    /// Every directive ever sent into the queue, in the order of sending.
    pub closed spec fn sent(&self) -> Seq<Message<J>> {
        self.sent@
    }

    /// Every directive ever taken out of the queue, in the order of taking.
    pub closed spec fn taken(&self) -> Seq<Message<J>> {
        self.taken@
    }

    /// What was taken out, followed by what waits, is exactly what was sent.
    pub closed spec fn wf(&self) -> bool {
        self.taken@ + self.pending@ == self.sent@
    }

    pub fn new() -> (r: Self)
        ensures
            r.wf(),
            r.pending() == Seq::<Message<J>>::empty(),
            r.sent() == Seq::<Message<J>>::empty(),
            r.taken() == Seq::<Message<J>>::empty(),
    {
        let r = DispatchQueue { pending: VecDeque::new(), sent: Ghost(Seq::empty()), taken: Ghost(Seq::empty()) };
        assert(r.taken@ + r.pending@ =~= r.sent@);
        r
    }

    pub fn len(&self) -> (r: usize)
        ensures
            r == self.pending().len(),
    {
        self.pending.len()
    }

    pub fn is_empty(&self) -> (r: bool)
        ensures
            r == (self.pending().len() == 0),
    {
        self.pending.len() == 0
    }

    /// Appends a directive behind everything already waiting.
    pub fn send(&mut self, m: Message<J>)
        requires
            old(self).wf(),
        ensures
            final(self).wf(),
            final(self).pending() == old(self).pending().push(m),
            final(self).sent() == old(self).sent().push(m),
            final(self).taken() == old(self).taken(),
    {
        self.pending.push_back(m);
        self.sent = Ghost(self.sent@.push(m));
        assert(self.taken@ + self.pending@ =~= self.sent@);
    }

    /// Takes out the oldest waiting directive, if there is one.
    pub fn receive(&mut self) -> (r: Option<Message<J>>)
        requires
            old(self).wf(),
        ensures
            final(self).wf(),
            final(self).sent() == old(self).sent(),
            match r {
                Some(m) => {
                    &&& old(self).pending().len() > 0
                    &&& m == old(self).pending()[0]
                    &&& final(self).pending() == old(self).pending().drop_first()
                    &&& final(self).taken() == old(self).taken().push(m)
                },
                None => {
                    &&& old(self).pending().len() == 0
                    &&& final(self).pending() == old(self).pending()
                    &&& final(self).taken() == old(self).taken()
                },
            },
    {
        let r = self.pending.pop_front();
        match r {
            Some(m) => {
                proof {
                    self.taken@ = self.taken@.push(m);
                }
                assert(self.taken@ + self.pending@ =~= self.sent@);
                Some(m)
            },
            None => None,
        }
    }
}

/// Directives come out in the order in which they were sent: what has been
/// taken out so far is the beginning of what was sent, position by position.
pub proof fn lemma_delivery_in_order<J>(q: DispatchQueue<J>)
    requires
        q.wf(),
    ensures
        q.taken().len() <= q.sent().len(),
        q.taken() == q.sent().subrange(0, q.taken().len() as int),
{
    assert(q.sent().subrange(0, q.taken().len() as int) =~= q.taken());
}

/// Once nothing waits, every directive that was sent has been taken out,
/// exactly once and in the order of sending.
pub proof fn lemma_drained_delivers_each_once<J>(q: DispatchQueue<J>)
    requires
        q.wf(),
        q.pending().len() == 0,
    ensures
        q.taken() == q.sent(),
{
    assert(q.taken() =~= q.taken() + q.pending());
}

} // verus!
