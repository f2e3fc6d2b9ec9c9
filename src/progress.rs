//! Progress reporting: a finite sequence of updates, one per five seconds of
//! the requested duration, the last one reporting the whole duration.
use vstd::prelude::*;

verus! {

/// Seconds between two progress updates.
pub const PROGRESS_INTERVAL_SECONDS: i32 = 5;

/// One progress update: seconds accounted for so far, out of the total.
#[derive(Clone, Copy, Debug, PartialEq, Eq, Structural)]
pub struct Progress {
    pub spent_seconds: i32,
    pub total_seconds: i32,
}

/// Seconds reported by the update at position `i` (counted from zero).
pub open spec fn spent_at(total: int, i: int) -> int {
    if PROGRESS_INTERVAL_SECONDS * (i + 1) < total {
        PROGRESS_INTERVAL_SECONDS * (i + 1)
    } else {
        total
    }
}

/// Number of updates for a duration of `total` seconds: `total / 5` rounded up.
pub open spec fn update_count(total: int) -> int {
    (total + PROGRESS_INTERVAL_SECONDS - 1) / (PROGRESS_INTERVAL_SECONDS as int)
}

/// The whole sequence of updates for a duration of `total` seconds.
pub open spec fn schedule(total: i32) -> Seq<Progress> {
    Seq::new(
        update_count(total as int) as nat,
        |i: int| Progress { spent_seconds: spent_at(total as int, i) as i32, total_seconds: total },
    )
}

/// The state of a progress emitter: seconds reported so far, the total, and
/// whether the consumer is still there.
pub ghost struct EmitterModel {
    pub spent: int,
    pub total: int,
    pub open: bool,
}

impl EmitterModel {
    pub open spec fn start(total: int) -> EmitterModel {
        EmitterModel { spent: 0, total, open: true }
    }

    pub open spec fn wf(self) -> bool {
        &&& 1 <= self.total <= i32::MAX
        &&& 0 <= self.spent <= self.total
        &&& (self.spent == self.total || self.spent % (PROGRESS_INTERVAL_SECONDS as int) == 0)
    }

    /// No update is left to produce: the total was reported, or the consumer left.
    pub open spec fn is_done(self) -> bool {
        !self.open || self.spent >= self.total
    }

    pub open spec fn next_spent(self) -> int {
        if self.spent + PROGRESS_INTERVAL_SECONDS < self.total {
            self.spent + PROGRESS_INTERVAL_SECONDS
        } else {
            self.total
        }
    }

    /// The update that the next step produces.
    pub open spec fn next_update(self) -> Progress {
        Progress { spent_seconds: self.next_spent() as i32, total_seconds: self.total as i32 }
    }

    /// The state after one produced update.
    pub open spec fn advanced(self) -> EmitterModel {
        EmitterModel { spent: self.next_spent(), ..self }
    }

    /// The state once the consumer has gone.
    pub open spec fn closed(self) -> EmitterModel {
        EmitterModel { open: false, ..self }
    }

    /// The state after `k` steps.
    pub open spec fn after(self, k: nat) -> EmitterModel
        decreases k,
    {
        if k == 0 || self.is_done() {
            self
        } else {
            self.advanced().after((k - 1) as nat)
        }
    }

    /// The updates produced by the next `n` steps.
    pub open spec fn produce(self, n: nat) -> Seq<Progress>
        decreases n,
    {
        if n == 0 || self.is_done() {
            seq![]
        } else {
            seq![self.next_update()] + self.advanced().produce((n - 1) as nat)
        }
    }
}

/// Produces progress updates one by one, as the consumer takes them.
pub struct ProgressEmitter {
    spent: i32,
    total: i32,
    open: bool,
}

impl View for ProgressEmitter {
    type V = EmitterModel;

    closed spec fn view(&self) -> EmitterModel {
        EmitterModel { spent: self.spent as int, total: self.total as int, open: self.open }
    }
}

impl ProgressEmitter {
    /// An emitter for a duration of `total_seconds`, with nothing reported yet.
    pub fn new(total_seconds: i32) -> (r: ProgressEmitter)
        requires
            total_seconds >= 1,
        ensures
            r@ == EmitterModel::start(total_seconds as int),
            r@.wf(),
    {
        ProgressEmitter { spent: 0, total: total_seconds, open: true }
    }

    pub fn total_seconds(&self) -> (r: i32)
        ensures
            r as int == self@.total,
    {
        self.total
    }

    pub fn is_done(&self) -> (r: bool)
        ensures
            r == self@.is_done(),
    {
        !self.open || self.spent >= self.total
    }

    /// The next update, or `None` once the total was reported or the consumer
    /// left; a finished emitter stays as it is.
    pub fn next_update(&mut self) -> (r: Option<Progress>)
        requires
            old(self)@.wf(),
        ensures
            final(self)@.wf(),
            old(self)@.is_done() ==> r is None && final(self)@ == old(self)@,
            !old(self)@.is_done() ==> r == Some(old(self)@.next_update()) && final(self)@
                == old(self)@.advanced(),
    {
        if !self.open || self.spent >= self.total {
            return None;
        }
        if self.spent < self.total - PROGRESS_INTERVAL_SECONDS {
            self.spent = self.spent + PROGRESS_INTERVAL_SECONDS;
        } else {
            self.spent = self.total;
        }
        Some(Progress { spent_seconds: self.spent, total_seconds: self.total })
    }

    /// Records that the consumer has gone: no update follows, and this is no error.
    pub fn consumer_gone(&mut self)
        ensures
            final(self)@ == old(self)@.closed(),
    {
        self.open = false;
    }
}

/// The state of a fresh emitter after `k` updates, in closed form.
spec fn state_at(total: int, k: int) -> EmitterModel {
    EmitterModel { spent: if k == 0 { 0 } else { spent_at(total, k - 1) }, total, open: true }
}

proof fn lemma_count_bounds(total: int, k: int)
    requires
        total >= 1,
        k >= 0,
    ensures
        update_count(total) >= 1,
        k < update_count(total) <==> PROGRESS_INTERVAL_SECONDS * k < total,
        update_count(total) * PROGRESS_INTERVAL_SECONDS >= total,
        (update_count(total) - 1) * PROGRESS_INTERVAL_SECONDS < total,
{
}

proof fn lemma_state_step(total: int, k: int)
    requires
        1 <= total <= i32::MAX,
        0 <= k < update_count(total),
    ensures
        state_at(total, k).wf(),
        !state_at(total, k).is_done(),
        state_at(total, k).advanced() == state_at(total, k + 1),
        state_at(total, k).next_update() == schedule(total as i32)[k],
{
    lemma_count_bounds(total, k);
    lemma_count_bounds(total, k + 1);
}

proof fn lemma_state_done(total: int)
    requires
        1 <= total <= i32::MAX,
    ensures
        state_at(total, update_count(total)).is_done(),
        state_at(total, update_count(total)).wf(),
{
    lemma_count_bounds(total, update_count(total));
    lemma_count_bounds(total, update_count(total) - 1);
}

proof fn lemma_produce_from(total: int, k: int, n: nat)
    requires
        1 <= total <= i32::MAX,
        0 <= k <= update_count(total),
    ensures
        state_at(total, k).produce(n) == schedule(total as i32).subrange(
            k,
            if k + n < update_count(total) {
                k + n
            } else {
                update_count(total)
            },
        ),
    decreases n,
{
    let s = schedule(total as i32);
    let hi = if k + n < update_count(total) {
        k + n
    } else {
        update_count(total)
    };
    if k == update_count(total) {
        lemma_state_done(total);
        assert(s.subrange(k, hi) =~= seq![]);
    } else if n == 0 {
        assert(s.subrange(k, hi) =~= seq![]);
    } else {
        lemma_state_step(total, k);
        lemma_produce_from(total, k + 1, (n - 1) as nat);
        assert(s.subrange(k, hi) =~= seq![s[k]] + s.subrange(k + 1, hi));
    }
}

/// The updates for a duration of `T` seconds are strictly increasing, never
/// exceed `T`, all carry `T` as their total, and the last one reports `T`.
pub proof fn lemma_schedule_bounded(total: i32)
    requires
        total >= 1,
    ensures
        schedule(total).len() >= 1,
        forall|i: int|
            0 <= i < schedule(total).len() ==> 0 < #[trigger] schedule(total)[i].spent_seconds
                <= total && schedule(total)[i].total_seconds == total,
        forall|i: int, j: int|
            0 <= i < j < schedule(total).len() ==> #[trigger] schedule(total)[i].spent_seconds
                < #[trigger] schedule(total)[j].spent_seconds,
        schedule(total).last().spent_seconds == total,
{
    lemma_count_bounds(total as int, 0);
    let c = update_count(total as int);
    assert forall|i: int, j: int| 0 <= i < j < c implies #[trigger] schedule(total)[i].spent_seconds
        < #[trigger] schedule(total)[j].spent_seconds by {
        lemma_count_bounds(total as int, j);
    }
    lemma_count_bounds(total as int, c - 1);
}

/// A duration of `T` seconds gives exactly `T / 5` updates, rounded up.
pub proof fn lemma_schedule_count(total: i32)
    requires
        total >= 1,
    ensures
        schedule(total).len() * PROGRESS_INTERVAL_SECONDS >= total,
        (schedule(total).len() - 1) * PROGRESS_INTERVAL_SECONDS < total,
{
    lemma_count_bounds(total as int, 0);
}

/// A fresh emitter produces the schedule in order: its first `n` updates are
/// the schedule's first `n`, and it produces nothing beyond the schedule.
pub proof fn lemma_emitter_follows_schedule(total: i32, n: nat)
    requires
        total >= 1,
    ensures
        EmitterModel::start(total as int).produce(n) == schedule(total).take(
            if n < schedule(total).len() {
                n as int
            } else {
                schedule(total).len() as int
            },
        ),
{
    lemma_count_bounds(total as int, 0);
    assert(EmitterModel::start(total as int) == state_at(total as int, 0));
    lemma_produce_from(total as int, 0, n);
}

/// Once the consumer has gone after any number of updates, the emitter
/// produces nothing more.
pub proof fn lemma_disconnect_stops(total: i32, k: nat, n: nat)
    requires
        total >= 1,
    ensures
        EmitterModel::start(total as int).after(k).closed().produce(n) == Seq::<Progress>::empty(),
{
    assert(EmitterModel::start(total as int).after(k).closed().is_done());
}

/// All updates for a duration of `total_seconds`, in order.
pub fn progress_updates(total_seconds: i32) -> (r: Vec<Progress>)
    requires
        total_seconds >= 1,
    ensures
        r@ == schedule(total_seconds),
{
    let mut emitter = ProgressEmitter::new(total_seconds);
    let mut out: Vec<Progress> = Vec::new();
    let ghost total = total_seconds as int;
    let ghost mut k: int = 0;
    proof {
        lemma_count_bounds(total, 0);
    }
    while !emitter.is_done()
        invariant
            1 <= total <= i32::MAX,
            total == total_seconds as int,
            0 <= k <= update_count(total),
            emitter@ == state_at(total, k),
            emitter@.wf(),
            out@ == schedule(total_seconds).take(k),
        decreases update_count(total) - k,
    {
        proof {
            if k == update_count(total) {
                lemma_state_done(total);
            }
            lemma_state_step(total, k);
        }
        let u = emitter.next_update();
        match u {
            Some(p) => {
                out.push(p);
            },
            None => {},
        }
        proof {
            assert(schedule(total_seconds).take(k + 1) =~= schedule(total_seconds).take(k).push(
                schedule(total_seconds)[k],
            ));
            k = k + 1;
        }
    }
    proof {
        if k < update_count(total) {
            lemma_state_step(total, k);
        }
        assert(out@ =~= schedule(total_seconds));
    }
    out
}

} // verus!
