use vstd::prelude::*;

verus! {

/// Returned by `ThreadPool::build` when asked for a pool without workers.
#[derive(Debug, Clone, Copy, PartialEq, Eq, Structural)]
pub struct PoolCreationError;

/// One worker of a pool: its id and, until the pool reaps it, the handle of its thread.
pub struct Worker<H> {
    id: usize,
    thread: Option<H>,
}

impl<H> Worker<H> {
    pub closed spec fn spec_id(&self) -> usize {
        self.id
    }

    pub closed spec fn spec_thread(&self) -> Option<H> {
        self.thread
    }

    pub fn id(&self) -> (r: usize)
        ensures
            r == self.spec_id(),
    {
        self.id
    }

    /// Whether this worker still holds its thread handle, that is, was not reaped.
    pub fn is_live(&self) -> (r: bool)
        ensures
            r == self.spec_thread() is Some,
    {
        self.thread.is_some()
    }
}

/// The worker threads of a pool, numbered from zero, each slot holding its thread
/// handle until the pool takes it for joining.
pub struct ThreadPool<H> {
    workers: Vec<Worker<H>>,
}

/// The `(id, handle)` pairs of the slots in `slots` that still hold a handle, by
/// ascending id.
pub open spec fn live_threads<H>(slots: Seq<Option<H>>) -> Seq<(usize, H)>
    decreases slots.len(),
{
    if slots.len() == 0 {
        Seq::empty()
    } else {
        let before = live_threads(slots.drop_last());
        match slots.last() {
            Some(h) => before.push(((slots.len() - 1) as usize, h)),
            None => before,
        }
    }
}

/// On a pool whose workers all still hold their threads, as `new` and `build` leave
/// it, shutdown takes the handle of every worker exactly once, by ascending id: worker
/// `i` is the `i`-th to be joined.
pub proof fn lemma_shutdown_reaps_every_worker<H>(slots: Seq<Option<H>>)
    requires
        forall|i: int| 0 <= i < slots.len() ==> #[trigger] slots[i] is Some,
        slots.len() <= usize::MAX + 1,
    ensures
        live_threads(slots).len() == slots.len(),
        forall|i: int|
            0 <= i < slots.len() ==> #[trigger] live_threads(slots)[i] == (
                i as usize,
                slots[i]->Some_0,
            ),
    decreases slots.len(),
{
    if slots.len() > 0 {
        let front = slots.drop_last();
        assert forall|i: int| 0 <= i < front.len() implies #[trigger] front[i] is Some by {
            assert(front[i] == slots[i]);
        }
        lemma_shutdown_reaps_every_worker(front);
    }
}

impl<H> View for ThreadPool<H> {
    /// Slot `i` is the thread handle that worker `i` still holds, if any.
    type V = Seq<Option<H>>;

    closed spec fn view(&self) -> Seq<Option<H>> {
        self.workers@.map_values(|w: Worker<H>| w.thread)
    }
}

impl<H> ThreadPool<H> {
    pub closed spec fn wf(&self) -> bool {
        forall|i: int| 0 <= i < self.workers@.len() ==> #[trigger] self.workers@[i].id == i
    }

    /// A pool of `size` workers, worker `id` running on the thread that `spawn(id)`
    /// started, for `id` from `0` up.
    pub fn new<F: Fn(usize) -> H>(size: usize, spawn: F) -> (pool: ThreadPool<H>)
        requires
            size > 0,
            forall|id: usize| id < size ==> #[trigger] spawn.requires((id,)),
        ensures
            pool.wf(),
            pool@.len() == size,
            forall|i: int|
                0 <= i < size ==> (#[trigger] pool@[i] is Some && spawn.ensures(
                    (i as usize,),
                    pool@[i]->Some_0,
                )),
    {
        let mut workers: Vec<Worker<H>> = Vec::with_capacity(size);
        let mut id: usize = 0;
        while id < size
            invariant
                id <= size,
                workers@.len() == id,
                forall|j: usize| j < size ==> #[trigger] spawn.requires((j,)),
                forall|i: int|
                    0 <= i < id ==> (#[trigger] workers@[i]).id == i && workers@[i].thread is Some
                        && spawn.ensures((i as usize,), workers@[i].thread->Some_0),
            decreases size - id,
        {
            let thread = spawn(id);
            workers.push(Worker { id, thread: Some(thread) });
            id = id + 1;
        }
        ThreadPool { workers }
    }

    /// Like `new`, but a pool without workers is refused with `PoolCreationError`,
    /// and then `spawn` is never called.
    pub fn build<F: Fn(usize) -> H>(size: usize, spawn: F) -> (r: Result<
        ThreadPool<H>,
        PoolCreationError,
    >)
        requires
            forall|id: usize| id < size ==> #[trigger] spawn.requires((id,)),
        ensures
            r is Err <==> size == 0,
            r matches Ok(pool) ==> {
                &&& pool.wf()
                &&& pool@.len() == size
                &&& forall|i: int|
                    0 <= i < size ==> (#[trigger] pool@[i] is Some && spawn.ensures(
                        (i as usize,),
                        pool@[i]->Some_0,
                    ))
            },
    {
        if size == 0 {
            Err(PoolCreationError)
        } else {
            Ok(ThreadPool::new(size, spawn))
        }
    }

    /// The number of workers, fixed when the pool was built.
    pub fn size(&self) -> (r: usize)
        ensures
            r == self@.len(),
    {
        self.workers.len()
    }

    pub fn worker(&self, id: usize) -> (r: &Worker<H>)
        requires
            self.wf(),
            id < self@.len(),
        ensures
            r.spec_id() == id,
            r.spec_thread() == self@[id as int],
    {
        &self.workers[id]
    }

    /// Takes every thread handle that is still held, by ascending worker id, leaving
    /// each worker reaped; a worker reaped earlier is skipped.
    pub fn take_threads(&mut self) -> (r: Vec<(usize, H)>)
        requires
            old(self).wf(),
        ensures
            final(self).wf(),
            final(self)@.len() == old(self)@.len(),
            forall|i: int| 0 <= i < final(self)@.len() ==> #[trigger] final(self)@[i] is None,
            r@ == live_threads(old(self)@),
    {
        let ghost slots = self@;
        assert(forall|j: int| 0 <= j < slots.len() ==> slots[j] == (#[trigger] self.workers@[j]).thread);
        let n = self.workers.len();
        let mut taken: Vec<(usize, H)> = Vec::new();
        let mut i: usize = 0;
        while i < n
            invariant
                n == self.workers@.len(),
                slots.len() == n,
                i <= n,
                self.wf(),
                forall|j: int| 0 <= j < i ==> (#[trigger] self.workers@[j]).thread is None,
                forall|j: int| i <= j < n ==> (#[trigger] self.workers@[j]).thread == slots[j],
                taken@ == live_threads(slots.take(i as int)),
            decreases n - i,
        {
            proof {
                assert(slots.take(i + 1).drop_last() =~= slots.take(i as int));
            }
            let thread = self.workers[i].thread.take();
            match thread {
                Some(h) => taken.push((i, h)),
                None => {},
            }
            i = i + 1;
        }
        assert(slots.take(n as int) =~= slots);
        assert(forall|j: int| 0 <= j < n ==> #[trigger] self@[j] == self.workers@[j].thread);
        taken
    }
}

} // verus!
