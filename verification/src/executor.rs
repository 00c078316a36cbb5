//! The executor: a single-threaded cooperative scheduler over a bounded,
//! registration-ordered set of tasks, resumed once each per pass, forever.

use vstd::prelude::*;
use crate::task::{Task, lemma_no_task_termination, task_run, task_step, task_wf, toggles_now};

verus! {

/// The order in which one pass over `len` tasks resumes them: position order,
/// which is registration order.
pub open spec fn pass_order(len: int) -> Seq<int> {
    Seq::new(len as nat, |k: int| k)
}

/// The resumption history that `n` passes over `len` tasks append: `n`
/// repetitions of the pass order.
pub open spec fn passes_order(len: int, n: nat) -> Seq<int>
    decreases n,
{
    if n == 0 {
        Seq::empty()
    } else {
        passes_order(len, (n - 1) as nat) + pass_order(len)
    }
}

/// The lines toggled during one pass over the tasks `s`: the line of every
/// task whose resumption completes its cadence, in registration order.
pub open spec fn pass_toggles(s: Seq<Task>) -> Seq<u8>
    decreases s.len(),
{
    if s.len() == 0 {
        Seq::empty()
    } else {
        pass_toggles(s.drop_last()) + if toggles_now(s.last()) {
            seq![s.last().pin.line]
        } else {
            Seq::empty()
        }
    }
}

/// Why a registration was refused. Either way this is a fatal startup error:
/// the caller must not start the scheduler.
#[derive(Clone, Copy, PartialEq, Eq, Structural, Debug)]
pub enum RegisterError {
    /// The fixed task storage is already full.
    CapacityExceeded,
    /// A registered task already owns the same physical line.
    PinAlreadyClaimed,
}

/// The cooperative scheduler. It is created once, populated with tasks before
/// it first runs, and then only resumes them; the task set never changes.
pub struct Executor {
    /// The registered tasks, in registration order.
    pub tasks: Vec<Task>,
    /// How many tasks the executor can hold, fixed at creation.
    pub capacity: usize,
    /// The resumption history: the position of every task the executor has
    /// resumed, oldest first.
    pub events: Ghost<Seq<int>>,
}

/// A well-formed executor: no more tasks than the capacity, every task
/// well-formed, and no two tasks holding a handle to the same physical line.
pub open spec fn exec_wf(e: Executor) -> bool {
    &&& e.tasks@.len() <= e.capacity
    &&& forall|i: int| 0 <= i < e.tasks@.len() ==> task_wf(#[trigger] e.tasks@[i])
    &&& forall|i: int, j: int|
        0 <= i < j < e.tasks@.len() ==> (#[trigger] e.tasks@[i]).pin.line != (
        #[trigger] e.tasks@[j]).pin.line
}

impl Executor {
    /// An empty executor able to hold `capacity` tasks. The capacity is fixed
    /// for the life of the executor.
    pub fn new(capacity: usize) -> (e: Executor)
        ensures
            exec_wf(e),
            e.capacity == capacity,
            e.tasks@.len() == 0,
            e.events@ == Seq::<int>::empty(),
    {
        Executor { tasks: Vec::new(), capacity, events: Ghost(Seq::empty()) }
    }

    /// Register one task; registration order is the poll order of every later
    /// pass. Registration is refused when the fixed storage is full, and —
    /// the runtime single-claim check on pin ownership — when a registered
    /// task already holds a handle to the same line.
    pub fn register(&mut self, t: Task) -> (r: Result<(), RegisterError>)
        requires
            exec_wf(*old(self)),
            task_wf(t),
        ensures
            exec_wf(*final(self)),
            final(self).capacity == old(self).capacity,
            final(self).events@ == old(self).events@,
            r is Err ==> final(self).tasks@ == old(self).tasks@,
            old(self).tasks@.len() >= old(self).capacity ==> r == Err::<(), RegisterError>(
                RegisterError::CapacityExceeded,
            ),
            old(self).tasks@.len() < old(self).capacity && (exists|i: int|
                0 <= i < old(self).tasks@.len() && (#[trigger] old(self).tasks@[i]).pin.line
                    == t.pin.line) ==> r == Err::<(), RegisterError>(
                RegisterError::PinAlreadyClaimed,
            ),
            old(self).tasks@.len() < old(self).capacity && (forall|i: int|
                0 <= i < old(self).tasks@.len() ==> (#[trigger] old(self).tasks@[i]).pin.line
                    != t.pin.line) ==> r == Ok::<(), RegisterError>(()) && final(self).tasks@
                == old(self).tasks@.push(t),
    {
        if self.tasks.len() >= self.capacity {
            return Err(RegisterError::CapacityExceeded);
        }
        let mut i: usize = 0;
        while i < self.tasks.len()
            invariant
                *self == *old(self),
                exec_wf(*self),
                self.tasks@.len() < self.capacity,
                i <= self.tasks@.len(),
                forall|k: int| 0 <= k < i ==> (#[trigger] self.tasks@[k]).pin.line != t.pin.line,
            decreases self.tasks@.len() - i,
        {
            if self.tasks[i].pin.line == t.pin.line {
                return Err(RegisterError::PinAlreadyClaimed);
            }
            i = i + 1;
        }
        self.tasks.push(t);
        Ok(())
    }

    /// One full scheduler pass: resume every registered task exactly once, in
    /// registration order. No task is ever dropped from the schedule. Returns
    /// the lines that toggled during the pass, in that same order.
    pub fn run_pass(&mut self) -> (toggled: Vec<u8>)
        requires
            exec_wf(*old(self)),
            forall|i: int|
                0 <= i < old(self).tasks@.len() ==> (#[trigger] old(
                    self,
                ).tasks@[i]).pin.toggles < u64::MAX,
        ensures
            exec_wf(*final(self)),
            final(self).capacity == old(self).capacity,
            final(self).tasks@.len() == old(self).tasks@.len(),
            forall|i: int|
                0 <= i < old(self).tasks@.len() ==> #[trigger] final(self).tasks@[i] == task_step(
                    old(self).tasks@[i],
                ),
            final(self).events@ == old(self).events@ + pass_order(old(self).tasks@.len() as int),
            toggled@ == pass_toggles(old(self).tasks@),
    {
        let ghost orig = self.tasks@;
        let ghost orig_events = self.events@;
        let mut toggled: Vec<u8> = Vec::new();
        let n = self.tasks.len();
        let mut i: usize = 0;
        while i < n
            invariant
                i <= n,
                n == orig.len(),
                self.tasks@.len() == n,
                self.capacity == old(self).capacity,
                orig == old(self).tasks@,
                exec_wf(*old(self)),
                forall|k: int| 0 <= k < n ==> (#[trigger] orig[k]).pin.toggles < u64::MAX,
                forall|k: int| 0 <= k < i ==> #[trigger] self.tasks@[k] == task_step(orig[k]),
                forall|k: int| i <= k < n ==> #[trigger] self.tasks@[k] == orig[k],
                toggled@ == pass_toggles(orig.take(i as int)),
                self.events@ == orig_events + pass_order(i as int),
            decreases n - i,
        {
            let ghost before = self.tasks@;
            let mut t = self.tasks.remove(i);
            let did = t.resume();
            if did {
                toggled.push(t.pin.line);
            }
            self.tasks.insert(i, t);
            self.events = Ghost(self.events@ + seq![i as int]);
            proof {
                assert(self.tasks@ =~= before.update(i as int, task_step(orig[i as int])));
                assert(orig.take(i as int + 1).drop_last() =~= orig.take(i as int));
                assert(toggled@ == pass_toggles(orig.take(i as int + 1)));
                assert(orig_events + pass_order(i as int + 1) =~= orig_events + pass_order(
                    i as int,
                ) + seq![i as int]);
            }
            i = i + 1;
        }
        proof {
            assert(orig.take(n as int) =~= orig);
        }
        toggled
    }

    /// Run `n` full passes. The schedule is unchanged — no task is ever
    /// dropped and the executor always comes back for the next pass — and
    /// every task has advanced by exactly `n` resumptions.
    pub fn run_passes(&mut self, n: u64)
        requires
            exec_wf(*old(self)),
            forall|i: int|
                0 <= i < old(self).tasks@.len() ==> (#[trigger] old(
                    self,
                ).tasks@[i]).pin.toggles + n <= u64::MAX,
        ensures
            exec_wf(*final(self)),
            final(self).capacity == old(self).capacity,
            final(self).tasks@.len() == old(self).tasks@.len(),
            forall|i: int|
                0 <= i < old(self).tasks@.len() ==> #[trigger] final(self).tasks@[i] == task_run(
                    old(self).tasks@[i],
                    n as nat,
                ),
            final(self).events@ == old(self).events@ + passes_order(
                old(self).tasks@.len() as int,
                n as nat,
            ),
    {
        let ghost orig = self.tasks@;
        let ghost orig_events = self.events@;
        let len = self.tasks.len();
        let mut k: u64 = 0;
        while k < n
            invariant
                k <= n,
                orig == old(self).tasks@,
                exec_wf(*self),
                exec_wf(*old(self)),
                self.capacity == old(self).capacity,
                self.tasks@.len() == len,
                len == orig.len(),
                forall|i: int|
                    0 <= i < orig.len() ==> (#[trigger] orig[i]).pin.toggles + n <= u64::MAX,
                forall|i: int|
                    0 <= i < orig.len() ==> #[trigger] self.tasks@[i] == task_run(
                        orig[i],
                        k as nat,
                    ),
                self.events@ == orig_events + passes_order(len as int, k as nat),
            decreases n - k,
        {
            proof {
                assert forall|i: int| 0 <= i < orig.len() implies (#[trigger] self.tasks@[i]).pin.toggles
                    < u64::MAX by {
                    lemma_no_task_termination(orig[i], k as nat);
                }
            }
            let _ = self.run_pass();
            proof {
                assert(orig_events + passes_order(len as int, k as nat + 1) =~= orig_events
                    + passes_order(len as int, k as nat) + pass_order(len as int));
            }
            k = k + 1;
        }
    }
}

/// Law: pin-ownership uniqueness. In a well-formed executor no two tasks hold
/// a handle to the same physical line; `register` refuses the registration
/// that would break this, so the invariant holds from startup on.
pub proof fn lemma_pin_ownership_unique(e: Executor, i: int, j: int)
    requires
        exec_wf(e),
        0 <= i < e.tasks@.len(),
        0 <= j < e.tasks@.len(),
        i != j,
    ensures
        e.tasks@[i].pin.line != e.tasks@[j].pin.line,
{
}

/// Law: registration-order scheduling. Within every pass the task registered
/// at position `i` is resumed exactly once, at offset `i` of the pass's
/// resumption order: of two tasks registered in order, the earlier one is
/// resumed strictly before the later one in every pass.
pub proof fn lemma_registration_order(len: int, i: int, j: int)
    requires
        0 <= i < j < len,
    ensures
        pass_order(len).len() == len,
        pass_order(len)[i] == i,
        pass_order(len)[j] == j,
        forall|k: int| 0 <= k < len ==> #[trigger] pass_order(len)[k] == k,
{
}

} // verus!

