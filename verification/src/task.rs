//! Tasks: non-terminating cooperative units of work, each exclusively owning
//! one output pin and toggling it once per a fixed number of completed yields.

use vstd::prelude::*;
use vstd::arithmetic::div_mod::{
    lemma_basic_div, lemma_div_basics, lemma_fundamental_div_mod,
    lemma_fundamental_div_mod_converse, lemma_div_pos_is_pos, lemma_mod_pos_bound,
    lemma_small_mod,
};
use crate::yield_point::{YieldPoint, YieldState};

verus! {

/// Exclusive write access to one physical output line, carried as the line's
/// number together with the externally observable state of the line: its
/// current logic level and how many times the level has been flipped.
pub struct PinHandle {
    /// Which physical line this handle drives.
    pub line: u8,
    /// The current output level: `true` for high.
    pub level: bool,
    /// How many times the level has been flipped since the handle was made.
    pub toggles: u64,
}

impl PinHandle {
    /// A handle to `line`, currently at `level`, never yet toggled.
    pub fn new(line: u8, level: bool) -> (p: PinHandle)
        ensures
            p.line == line,
            p.level == level,
            p.toggles == 0,
    {
        PinHandle { line, level, toggles: 0 }
    }

    /// Flip the output level of the line. Toggling is the only externally
    /// observable effect the runtime has.
    pub fn toggle(&mut self)
        requires
            old(self).toggles < u64::MAX,
        ensures
            final(self).line == old(self).line,
            final(self).level == !old(self).level,
            final(self).toggles == old(self).toggles + 1,
    {
        self.level = !self.level;
        self.toggles = self.toggles + 1;
    }
}

/// A cooperative task: an unbounded loop that completes `cadence` suspensions
/// through the yield primitive, then toggles its pin, then repeats. Between
/// scheduler passes a task is always parked on a yield point that the
/// scheduler has observed exactly once, so the next observation completes it.
pub struct Task {
    /// The exclusively owned pin the task drives.
    pub pin: PinHandle,
    /// How many yields the task completes per toggle; at least one.
    pub cadence: u64,
    /// Yields completed since the last toggle; always below `cadence`.
    pub yields_done: u64,
    /// The suspension the task is currently parked on.
    pub suspension: YieldPoint,
}

/// A well-formed task: a positive cadence, fewer completed yields than the
/// cadence, and a suspension the scheduler has observed exactly once — the
/// state every registered task is in between passes.
pub open spec fn task_wf(t: Task) -> bool {
    &&& 1 <= t.cadence
    &&& t.yields_done < t.cadence
    &&& t.suspension.state == YieldState::ObservedOnce
}

/// Whether the next resumption of `t` toggles its pin: the suspension about
/// to complete is the last of the `cadence` yields before a toggle.
pub open spec fn toggles_now(t: Task) -> bool {
    t.yields_done + 1 == t.cadence
}

/// The task state after one resumption: the pending suspension completes; if
/// that was the last yield of the cadence the pin toggles and the count
/// restarts, otherwise the yield is merely counted; either way the task parks
/// on a fresh suspension that the scheduler has already observed once.
pub open spec fn task_step(t: Task) -> Task {
    Task {
        pin: PinHandle {
            line: t.pin.line,
            level: if toggles_now(t) {
                !t.pin.level
            } else {
                t.pin.level
            },
            toggles: if toggles_now(t) {
                (t.pin.toggles + 1) as u64
            } else {
                t.pin.toggles
            },
        },
        cadence: t.cadence,
        yields_done: if toggles_now(t) {
            0u64
        } else {
            (t.yields_done + 1) as u64
        },
        suspension: YieldPoint { state: YieldState::ObservedOnce },
    }
}

/// The task state after `n` resumptions, one per scheduler pass.
pub open spec fn task_run(t: Task, n: nat) -> Task
    decreases n,
{
    if n == 0 {
        t
    } else {
        task_step(task_run(t, (n - 1) as nat))
    }
}

impl Task {
    /// A task on `pin` that toggles once per `cadence` completed yields, run
    /// to its first suspension: creation leaves the task parked on a yield
    /// point the scheduler has observed once, like every task between passes.
    pub fn new(pin: PinHandle, cadence: u64) -> (t: Task)
        requires
            1 <= cadence,
        ensures
            task_wf(t),
            t.pin == pin,
            t.cadence == cadence,
            t.yields_done == 0,
    {
        let mut suspension = YieldPoint::new();
        let _ = suspension.poll();
        Task { pin, cadence, yields_done: 0, suspension }
    }

    /// One resumption by the scheduler: the pending suspension completes and
    /// the task runs synchronously until it suspends again — counting the
    /// completed yield, toggling its pin when the cadence is reached, and
    /// parking on a fresh, once-observed yield point. Returns whether the pin
    /// toggled.
    pub fn resume(&mut self) -> (toggled: bool)
        requires
            task_wf(*old(self)),
            old(self).pin.toggles < u64::MAX,
        ensures
            *final(self) == task_step(*old(self)),
            task_wf(*final(self)),
            toggled == toggles_now(*old(self)),
    {
        let _ = self.suspension.poll();
        let mut toggled = false;
        self.yields_done = self.yields_done + 1;
        if self.yields_done == self.cadence {
            self.pin.toggle();
            self.yields_done = 0;
            toggled = true;
        }
        self.suspension = YieldPoint::new();
        let _ = self.suspension.poll();
        toggled
    }
}

/// How a quotient and a remainder move when the dividend grows by one: the
/// remainder either steps up or wraps to zero while the quotient steps up.
proof fn lemma_div_mod_step(x: int, c: int)
    requires
        0 <= x,
        1 <= c,
    ensures
        0 <= x % c < c,
        0 <= x / c,
        x % c + 1 == c ==> (x + 1) % c == 0 && (x + 1) / c == x / c + 1,
        x % c + 1 < c ==> (x + 1) % c == x % c + 1 && (x + 1) / c == x / c,
{
    lemma_fundamental_div_mod(x, c);
    lemma_mod_pos_bound(x, c);
    lemma_div_pos_is_pos(x, c);
    if x % c + 1 == c {
        assert(x + 1 == (x / c + 1) * c + 0) by (nonlinear_arith)
            requires
                x == c * (x / c) + x % c,
                x % c + 1 == c,
        ;
        lemma_fundamental_div_mod_converse(x + 1, c, x / c + 1, 0);
    } else {
        assert(x + 1 == (x / c) * c + (x % c + 1)) by (nonlinear_arith)
            requires
                x == c * (x / c) + x % c,
        ;
        lemma_fundamental_div_mod_converse(x + 1, c, x / c, x % c + 1);
    }
}

/// Law: no task termination. However many passes the scheduler runs, a
/// well-formed task stays well-formed, keeps its line and keeps its cadence:
/// a task never finishes and never migrates to another pin. Each pass toggles
/// its pin at most once.
pub proof fn lemma_no_task_termination(t: Task, n: nat)
    requires
        task_wf(t),
        t.pin.toggles + n <= u64::MAX,
    ensures
        task_wf(task_run(t, n)),
        task_run(t, n).pin.line == t.pin.line,
        task_run(t, n).cadence == t.cadence,
        t.pin.toggles <= task_run(t, n).pin.toggles <= t.pin.toggles + n,
    decreases n,
{
    if n > 0 {
        lemma_no_task_termination(t, (n - 1) as nat);
    }
}

/// Law: toggle counting. Over any window of `n` passes a task whose yield
/// count stands at `yields_done` toggles its pin exactly
/// `(yields_done + n) / cadence` times, deterministically: the toggle count,
/// the yield count and the pin level after the window are exact functions of
/// `n`, so the toggle rates of two tasks stand in the exact inverse ratio of
/// their cadences, with no drift.
pub proof fn lemma_toggle_count(t: Task, n: nat)
    requires
        task_wf(t),
        t.pin.toggles + n <= u64::MAX,
    ensures
        task_run(t, n).pin.toggles == t.pin.toggles + (t.yields_done + n) / (t.cadence as int),
        task_run(t, n).yields_done == (t.yields_done + n) % (t.cadence as int),
        task_run(t, n).pin.level == (if ((t.yields_done + n) / (t.cadence as int)) % 2 == 0 {
            t.pin.level
        } else {
            !t.pin.level
        }),
    decreases n,
{
    let c = t.cadence as int;
    let d = t.yields_done as int;
    if n == 0 {
        lemma_basic_div(d, c);
        lemma_small_mod(t.yields_done as nat, t.cadence as nat);
    } else {
        let m = (n - 1) as nat;
        lemma_toggle_count(t, m);
        lemma_no_task_termination(t, m);
        let x = d + m;
        lemma_div_mod_step(x, c);
        lemma_div_mod_step(x / c, 2);
    }
}

/// Law: toggle ratio. Two freshly registered tasks, one toggling on every
/// completed yield and one on every second, toggle exactly `n` and `n / 2`
/// times over the same `n` passes: the observed toggle-count ratio is exactly
/// two to one.
pub proof fn lemma_toggle_ratio(a: Task, b: Task, n: nat)
    requires
        task_wf(a),
        task_wf(b),
        a.cadence == 1,
        b.cadence == 2,
        a.yields_done == 0,
        b.yields_done == 0,
        a.pin.toggles + n <= u64::MAX,
        b.pin.toggles + n <= u64::MAX,
    ensures
        task_run(a, n).pin.toggles == a.pin.toggles + n,
        task_run(b, n).pin.toggles == b.pin.toggles + n / 2,
{
    lemma_toggle_count(a, n);
    lemma_toggle_count(b, n);
    lemma_div_basics(n as int);
}

} // verus!
