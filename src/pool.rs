//! Admission rules of the execution strategies: the counting gate that
//! bounds in-flight executions, and the worker-side pool of workers with its
//! bounded queue, which hands a freed worker to the oldest queued request.

use crate::text::{chars_of, decimal_seq, push_decimal, string_of};
use std::collections::VecDeque;
use vstd::prelude::*;

verus! {

/// How many requests the worker-side pool holds waiting.
pub const QUEUE_CAPACITY: usize = 100;

/// An operation on a gate.
pub enum GateOp {
    Acquire,
    Release,
}

/// The number in flight after one operation on a gate of `capacity`.
pub open spec fn gate_step(capacity: nat, in_flight: nat, op: GateOp) -> nat {
    match op {
        GateOp::Acquire => if in_flight < capacity {
            in_flight + 1
        } else {
            in_flight
        },
        GateOp::Release => if in_flight > 0 {
            (in_flight - 1) as nat
        } else {
            in_flight
        },
    }
}

/// The number in flight after a run of operations.
pub open spec fn gate_run(capacity: nat, in_flight: nat, ops: Seq<GateOp>) -> nat
    decreases ops.len(),
{
    if ops.len() == 0 {
        in_flight
    } else {
        gate_step(capacity, gate_run(capacity, in_flight, ops.subrange(0, ops.len() - 1)), ops[ops.len() - 1])
    }
}

/// Counting permits sized to the configured worker count.
pub struct ExecutionGate {
    capacity: usize,
    in_flight: usize,
}

impl ExecutionGate {
    pub closed spec fn capacity_spec(&self) -> nat {
        self.capacity as nat
    }

    pub closed spec fn in_flight_spec(&self) -> nat {
        self.in_flight as nat
    }

    pub closed spec fn wf(&self) -> bool {
        self.in_flight <= self.capacity
    }

    /// A gate with `capacity` permits, none taken.
    pub fn new(capacity: usize) -> (r: ExecutionGate)
        ensures
            r.wf(),
            r.capacity_spec() == capacity,
            r.in_flight_spec() == 0,
    {
        ExecutionGate { capacity, in_flight: 0 }
    }

    /// Takes a permit where one is free.
    pub fn try_acquire(&mut self) -> (r: bool)
        requires
            old(self).wf(),
        ensures
            final(self).wf(),
            r == (old(self).in_flight_spec() < old(self).capacity_spec()),
            final(self).capacity_spec() == old(self).capacity_spec(),
            final(self).in_flight_spec() == gate_step(
                old(self).capacity_spec(),
                old(self).in_flight_spec(),
                GateOp::Acquire,
            ),
    {
        if self.in_flight < self.capacity {
            self.in_flight = self.in_flight + 1;
            true
        } else {
            false
        }
    }

    /// Gives a permit back.
    pub fn release(&mut self)
        requires
            old(self).wf(),
        ensures
            final(self).wf(),
            final(self).capacity_spec() == old(self).capacity_spec(),
            final(self).in_flight_spec() == gate_step(
                old(self).capacity_spec(),
                old(self).in_flight_spec(),
                GateOp::Release,
            ),
    {
        if self.in_flight > 0 {
            self.in_flight = self.in_flight - 1;
        }
    }

    /// Executions in flight.
    pub fn in_flight(&self) -> (r: usize)
        ensures
            r == self.in_flight_spec(),
    {
        self.in_flight
    }

    /// Permits in all.
    pub fn capacity(&self) -> (r: usize)
        ensures
            r == self.capacity_spec(),
    {
        self.capacity
    }
}

/// Whatever the order of acquisitions and releases, a gate sized to `n`
/// never has more than `n` executions in flight.
pub proof fn law_in_flight_bounded(n: nat, ops: Seq<GateOp>)
    ensures
        gate_run(n, 0, ops) <= n,
    decreases ops.len(),
{
    if ops.len() > 0 {
        law_in_flight_bounded(n, ops.subrange(0, ops.len() - 1));
    }
}

/// What the pool does with a request.
pub enum Admission {
    /// Run it now on this worker, now marked busy.
    Run(usize),
    /// Hold it until a worker is freed.
    Queued,
    /// Every worker is busy and the queue is full.
    Rejected,
}

/// `k` is the first idle worker, or the number of workers where all are busy.
pub open spec fn first_idle_at(busy: Seq<bool>, k: int) -> bool {
    &&& 0 <= k <= busy.len()
    &&& forall|j: int| 0 <= j < k ==> #[trigger] busy[j]
    &&& (k == busy.len() || !busy[k])
}

/// A fixed set of workers, each idle or busy, and the requests waiting for
/// one, oldest first.
pub struct WorkerPool {
    busy: Vec<bool>,
    queue: VecDeque<u64>,
}

impl WorkerPool {
    pub closed spec fn busy_view(&self) -> Seq<bool> {
        self.busy@
    }

    pub closed spec fn queue_view(&self) -> Seq<u64> {
        self.queue@
    }

    /// The queue is bounded, and nothing waits while a worker is idle.
    pub open spec fn wf(&self) -> bool {
        &&& self.queue_view().len() <= QUEUE_CAPACITY
        &&& self.queue_view().len() > 0 ==> forall|j: int|
            0 <= j < self.busy_view().len() ==> #[trigger] self.busy_view()[j]
    }

    /// `workers` idle workers and an empty queue.
    pub fn new(workers: usize) -> (r: WorkerPool)
        ensures
            r.wf(),
            r.busy_view() == Seq::new(workers as nat, |i: int| false),
            r.queue_view().len() == 0,
    {
        let mut busy: Vec<bool> = Vec::new();
        let mut i: usize = 0;
        while i < workers
            invariant
                i <= workers,
                busy@ == Seq::new(i as nat, |j: int| false),
            decreases workers - i,
        {
            busy.push(false);
            i = i + 1;
            assert(busy@ =~= Seq::new(i as nat, |j: int| false));
        }
        WorkerPool { busy, queue: VecDeque::new() }
    }

    /// Decides where `ticket` goes: to the first idle worker, else to the
    /// back of the queue while it has room, else it is rejected.
    pub fn dispatch(&mut self, ticket: u64) -> (r: Admission)
        requires
            old(self).wf(),
        ensures
            final(self).wf(),
            match r {
                Admission::Run(i) => first_idle_at(old(self).busy_view(), i as int) && i
                    < old(self).busy_view().len() && final(self).busy_view() == old(
                    self,
                ).busy_view().update(i as int, true) && final(self).queue_view() == old(
                    self,
                ).queue_view(),
                Admission::Queued => first_idle_at(
                    old(self).busy_view(),
                    old(self).busy_view().len() as int,
                ) && old(self).queue_view().len() < QUEUE_CAPACITY && final(self).busy_view()
                    == old(self).busy_view() && final(self).queue_view() == old(
                    self,
                ).queue_view().push(ticket),
                Admission::Rejected => first_idle_at(
                    old(self).busy_view(),
                    old(self).busy_view().len() as int,
                ) && old(self).queue_view().len() == QUEUE_CAPACITY && final(self).busy_view()
                    == old(self).busy_view() && final(self).queue_view() == old(
                    self,
                ).queue_view(),
            },
    {
        let mut i: usize = 0;
        while i < self.busy.len()
            invariant
                i <= self.busy@.len(),
                self.busy@ == old(self).busy@,
                self.queue@ == old(self).queue@,
                self.wf(),
                forall|j: int| 0 <= j < i ==> #[trigger] self.busy@[j],
            decreases self.busy@.len() - i,
        {
            if !self.busy[i] {
                let ghost q = self.queue@;
                assert(q.len() == 0) by {
                    if q.len() > 0 {
                        assert(self.busy_view()[i as int]);
                    }
                }
                self.busy.set(i, true);
                return Admission::Run(i);
            }
            i = i + 1;
        }
        if self.queue.len() < QUEUE_CAPACITY {
            self.queue.push_back(ticket);
            Admission::Queued
        } else {
            Admission::Rejected
        }
    }

    /// Frees `worker` after its run. Where requests wait, the oldest takes
    /// the worker at once, which stays busy; it is returned.
    pub fn release(&mut self, worker: usize) -> (r: Option<u64>)
        requires
            old(self).wf(),
            worker < old(self).busy_view().len(),
        ensures
            final(self).wf(),
            old(self).queue_view().len() == 0 ==> r is None && final(self).busy_view() == old(
                self,
            ).busy_view().update(worker as int, false) && final(self).queue_view().len() == 0,
            old(self).queue_view().len() > 0 ==> r == Some(old(self).queue_view()[0])
                && final(self).busy_view() == old(self).busy_view() && final(self).queue_view()
                == old(self).queue_view().subrange(1, old(self).queue_view().len() as int),
    {
        if self.queue.len() == 0 {
            self.busy.set(worker, false);
            None
        } else {
            self.queue.pop_front()
        }
    }

    /// Workers in all.
    pub fn total(&self) -> (r: usize)
        ensures
            r == self.busy_view().len(),
    {
        self.busy.len()
    }

    /// Busy workers.
    pub fn busy_count(&self) -> (r: usize)
        ensures
            r == self.busy_view().filter(|b: bool| b).len(),
            r <= self.busy_view().len(),
    {
        let mut n: usize = 0;
        let mut i: usize = 0;
        while i < self.busy.len()
            invariant
                i <= self.busy@.len(),
                n == self.busy@.subrange(0, i as int).filter(|b: bool| b).len(),
                n <= i,
            decreases self.busy@.len() - i,
        {
            proof {
                assert(self.busy@.subrange(0, i + 1) =~= self.busy@.subrange(0, i as int).push(
                    self.busy@[i as int],
                ));
                self.busy@.subrange(0, i as int).lemma_filter_push(
                    self.busy@[i as int],
                    |b: bool| b,
                );
            }
            if self.busy[i] {
                n = n + 1;
            }
            i = i + 1;
        }
        assert(self.busy@.subrange(0, i as int) =~= self.busy@);
        n
    }

    /// Requests waiting.
    pub fn queued_count(&self) -> (r: usize)
        ensures
            r == self.queue_view().len(),
    {
        self.queue.len()
    }

    /// The pool's counts as a JSON object: workers in all, busy, available
    /// and requests queued.
    pub fn status_json(&self) -> (r: String)
        ensures
            ({
                let busy = self.busy_view().filter(|b: bool| b).len();
                r@ == status_text(
                    self.busy_view().len(),
                    busy,
                    (self.busy_view().len() - busy) as nat,
                    self.queue_view().len(),
                )
            }),
    {
        let total = self.total();
        let busy = self.busy_count();
        let queued = self.queued_count();
        let mut v = chars_of("{\"total_workers\":");
        push_decimal(&mut v, total as u64);
        append_chars(&mut v, ",\"busy\":");
        push_decimal(&mut v, busy as u64);
        append_chars(&mut v, ",\"available\":");
        push_decimal(&mut v, (total - busy) as u64);
        append_chars(&mut v, ",\"queued\":");
        push_decimal(&mut v, queued as u64);
        append_chars(&mut v, "}");
        string_of(v.as_slice())
    }
}

/// The status object of a pool with these counts.
pub open spec fn status_text(total: nat, busy: nat, available: nat, queued: nat) -> Seq<char> {
    "{\"total_workers\":"@ + decimal_seq(total) + ",\"busy\":"@ + decimal_seq(busy)
        + ",\"available\":"@ + decimal_seq(available) + ",\"queued\":"@ + decimal_seq(queued)
        + "}"@
}

fn append_chars(v: &mut Vec<char>, s: &str)
    ensures
        final(v)@ == old(v)@ + s@,
{
    let w = chars_of(s);
    let mut i: usize = 0;
    while i < w.len()
        invariant
            i <= w@.len(),
            v@ == old(v)@ + w@.subrange(0, i as int),
        decreases w@.len() - i,
    {
        v.push(w[i]);
        i = i + 1;
        assert(v@ =~= old(v)@ + w@.subrange(0, i as int));
    }
    assert(w@.subrange(0, i as int) =~= w@);
}

} // verus!
