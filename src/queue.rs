use std::collections::VecDeque;
use vstd::prelude::*;

verus! {

/// What a worker gets when it asks the queue for work.
pub enum Recv<J> {
    /// The oldest pending job, now owned by the caller.
    Job(J),
    /// Nothing is pending but the queue is still open: wait and ask again.
    Empty,
    /// The queue is closed and drained: no job will ever come.
    Closed,
}

/// The abstract state of a queue: every job it ever accepted, in order, how many of
/// them have been handed out, and whether it still accepts jobs.
pub ghost struct QueueModel<J> {
    pub accepted: Seq<J>,
    pub delivered: nat,
    pub open: bool,
}

impl<J> QueueModel<J> {
    /// A queue that was just created.
    pub open spec fn fresh() -> QueueModel<J> {
        QueueModel { accepted: Seq::empty(), delivered: 0, open: true }
    }

    pub open spec fn wf(self) -> bool {
        self.delivered <= self.accepted.len()
    }

    /// The jobs accepted and not yet handed out, oldest first.
    pub open spec fn pending(self) -> Seq<J> {
        self.accepted.skip(self.delivered as int)
    }

    /// The jobs handed out so far, in the order they left.
    pub open spec fn handed_out(self) -> Seq<J> {
        self.accepted.take(self.delivered as int)
    }

    pub open spec fn after_push(self, job: J) -> QueueModel<J> {
        if self.open {
            QueueModel { accepted: self.accepted.push(job), ..self }
        } else {
            self
        }
    }

    pub open spec fn recv_outcome(self) -> Recv<J> {
        if self.delivered < self.accepted.len() {
            Recv::Job(self.accepted[self.delivered as int])
        } else if self.open {
            Recv::Empty
        } else {
            Recv::Closed
        }
    }

    pub open spec fn after_recv(self) -> QueueModel<J> {
        if self.delivered < self.accepted.len() {
            QueueModel { delivered: self.delivered + 1, ..self }
        } else {
            self
        }
    }

    pub open spec fn after_close(self) -> QueueModel<J> {
        QueueModel { open: false, ..self }
    }
}

/// One call on a queue, as a step of a history.
pub enum QueueOp<J> {
    Push(J),
    Recv,
    Close,
}

impl<J> QueueModel<J> {
    pub open spec fn step(self, op: QueueOp<J>) -> QueueModel<J> {
        match op {
            QueueOp::Push(job) => self.after_push(job),
            QueueOp::Recv => self.after_recv(),
            QueueOp::Close => self.after_close(),
        }
    }
}

/// The state reached from `start` by the calls `ops`, in order.
pub open spec fn run<J>(start: QueueModel<J>, ops: Seq<QueueOp<J>>) -> QueueModel<J>
    decreases ops.len(),
{
    if ops.len() == 0 {
        start
    } else {
        run(start, ops.drop_last()).step(ops.last())
    }
}

/// The jobs that the pushes among `ops` got into the queue, in order of submission.
pub open spec fn submitted<J>(start: QueueModel<J>, ops: Seq<QueueOp<J>>) -> Seq<J>
    decreases ops.len(),
{
    if ops.len() == 0 {
        Seq::empty()
    } else {
        let earlier = submitted(start, ops.drop_last());
        match ops.last() {
            QueueOp::Push(job) => if run(start, ops.drop_last()).open {
                earlier.push(job)
            } else {
                earlier
            },
            _ => earlier,
        }
    }
}

/// The jobs that the receives among `ops` handed out, in order of dispatch.
pub open spec fn received<J>(start: QueueModel<J>, ops: Seq<QueueOp<J>>) -> Seq<J>
    decreases ops.len(),
{
    if ops.len() == 0 {
        Seq::empty()
    } else {
        let earlier = received(start, ops.drop_last());
        match ops.last() {
            QueueOp::Recv => match run(start, ops.drop_last()).recv_outcome() {
                Recv::Job(job) => earlier.push(job),
                _ => earlier,
            },
            _ => earlier,
        }
    }
}

proof fn lemma_run_from_fresh<J>(ops: Seq<QueueOp<J>>)
    ensures
        run(QueueModel::fresh(), ops).wf(),
        run(QueueModel::fresh(), ops).accepted == submitted(QueueModel::fresh(), ops),
        run(QueueModel::fresh(), ops).handed_out() == received(QueueModel::fresh(), ops),
    decreases ops.len(),
{
    let start = QueueModel::<J>::fresh();
    if ops.len() == 0 {
        assert(run(start, ops).handed_out() =~= Seq::<J>::empty());
    } else {
        let prefix = ops.drop_last();
        lemma_run_from_fresh(prefix);
        let before = run(start, prefix);
        let after = run(start, ops);
        match ops.last() {
            QueueOp::Recv => {
                if before.delivered < before.accepted.len() {
                    assert(after.handed_out() =~= before.handed_out().push(
                        before.accepted[before.delivered as int],
                    ));
                }
            },
            _ => {
                assert(after.handed_out() =~= before.handed_out());
            },
        }
    }
}

/// Starting from a new queue, whatever the calls, the jobs handed out are the first
/// of the jobs submitted, in the order they were submitted: no job leaves twice, none
/// leaves that was not submitted, and none overtakes an older one.
pub proof fn lemma_dispatch_is_fifo<J>(ops: Seq<QueueOp<J>>)
    ensures
        received(QueueModel::fresh(), ops).len() <= submitted(QueueModel::fresh(), ops).len(),
        received(QueueModel::fresh(), ops) == submitted(QueueModel::fresh(), ops).take(
            received(QueueModel::fresh(), ops).len() as int,
        ),
{
    lemma_run_from_fresh(ops);
}

/// Of two jobs submitted one after the other, the earlier is handed out no later than
/// the later one: if the job submitted in position `b` has left, so has the one in
/// position `a < b`, and before it.
pub proof fn lemma_earlier_job_leaves_first<J>(ops: Seq<QueueOp<J>>, a: int, b: int)
    requires
        0 <= a < b < submitted(QueueModel::fresh(), ops).len(),
        b < received(QueueModel::fresh(), ops).len(),
    ensures
        received(QueueModel::fresh(), ops)[a] == submitted(QueueModel::fresh(), ops)[a],
        received(QueueModel::fresh(), ops)[b] == submitted(QueueModel::fresh(), ops)[b],
{
    lemma_dispatch_is_fifo(ops);
}

/// Once a receive would report `Recv::Closed`, every job ever submitted has been
/// handed out exactly once, in order: closing the queue loses no job.
pub proof fn lemma_closed_queue_delivered_all<J>(ops: Seq<QueueOp<J>>)
    requires
        run(QueueModel::fresh(), ops).recv_outcome() is Closed,
    ensures
        received(QueueModel::fresh(), ops) == submitted(QueueModel::fresh(), ops),
{
    lemma_run_from_fresh(ops);
    let m = run(QueueModel::<J>::fresh(), ops);
    assert(m.accepted.take(m.delivered as int) =~= m.accepted);
}

/// After a close, no push is accepted: the jobs submitted stay those submitted before.
pub proof fn lemma_no_submission_after_close<J>(ops: Seq<QueueOp<J>>, job: J)
    requires
        !run(QueueModel::fresh(), ops).open,
    ensures
        submitted(QueueModel::fresh(), ops.push(QueueOp::Push(job))) == submitted(
            QueueModel::fresh(),
            ops,
        ),
        !run(QueueModel::fresh(), ops.push(QueueOp::Push(job))).open,
{
    assert(ops.push(QueueOp::Push(job)).drop_last() =~= ops);
}

/// An unbounded FIFO of pending jobs that can be closed.
///
/// Submitters push while it is open; workers take jobs from the front. Once closed it
/// refuses new jobs, still hands out the ones already pending, and then reports
/// `Recv::Closed` to every worker that asks.
pub struct JobQueue<J> {
    items: VecDeque<J>,
    open: bool,
    accepted: Ghost<Seq<J>>,
    delivered: Ghost<nat>,
}

impl<J> View for JobQueue<J> {
    type V = QueueModel<J>;

    closed spec fn view(&self) -> QueueModel<J> {
        QueueModel { accepted: self.accepted@, delivered: self.delivered@, open: self.open }
    }
}

impl<J> JobQueue<J> {
    pub closed spec fn wf(&self) -> bool {
        &&& self@.wf()
        &&& self.items@ == self@.pending()
    }

    /// An open queue with nothing in it.
    pub fn new() -> (q: JobQueue<J>)
        ensures
            q.wf(),
            q@ == QueueModel::<J>::fresh(),
    {
        let q = JobQueue {
            items: VecDeque::new(),
            open: true,
            accepted: Ghost(Seq::empty()),
            delivered: Ghost(0),
        };
        assert(q.items@ =~= q@.pending());
        q
    }

    /// Appends `job` at the back if the queue is open; a closed queue hands the job back.
    pub fn push(&mut self, job: J) -> (r: Result<(), J>)
        requires
            old(self).wf(),
        ensures
            final(self).wf(),
            final(self)@ == old(self)@.after_push(job),
            old(self)@.open ==> r is Ok,
            !old(self)@.open ==> r == Err::<(), J>(job),
    {
        if !self.open {
            return Err(job);
        }
        proof {
            self.accepted@ = self.accepted@.push(job);
        }
        self.items.push_back(job);
        assert(self.items@ =~= self@.pending());
        Ok(())
    }

    /// Takes the oldest pending job. With nothing pending, says whether to wait
    /// (still open) or to stop (closed).
    pub fn recv(&mut self) -> (r: Recv<J>)
        requires
            old(self).wf(),
        ensures
            final(self).wf(),
            final(self)@ == old(self)@.after_recv(),
            r == old(self)@.recv_outcome(),
    {
        match self.items.pop_front() {
            Some(job) => {
                proof {
                    self.delivered@ = self.delivered@ + 1;
                }
                assert(self.items@ =~= self@.pending());
                Recv::Job(job)
            },
            None => {
                if self.open {
                    Recv::Empty
                } else {
                    Recv::Closed
                }
            },
        }
    }

    /// Stops accepting jobs; those already pending stay to be handed out.
    pub fn close(&mut self)
        requires
            old(self).wf(),
        ensures
            final(self).wf(),
            final(self)@ == old(self)@.after_close(),
    {
        self.open = false;
    }

    pub fn is_open(&self) -> (r: bool)
        requires
            self.wf(),
        ensures
            r == self@.open,
    {
        self.open
    }

    /// The number of jobs accepted and not yet handed out.
    pub fn len(&self) -> (r: usize)
        requires
            self.wf(),
        ensures
            r == self@.pending().len(),
    {
        self.items.len()
    }
}

} // verus!
