//! The decisions of one search worker: which candidates to propose next, how
//! its cursor advances, when to checkpoint and when to stop.
use crate::bignum::{key_add, key_div_u64, key_le, key_mul_u64, key_of_u64, key_sub, key_to_u64, Key};
use crate::partition::Partition;
use crate::patterns::{
    generate_key_patterns, holds_value, is_deterministic_pattern, is_digit_shuffle,
    strictly_ascending,
};
use crate::rng::FastRng;
use vstd::prelude::*;

verus! {

/// How a worker picks its candidates.
#[derive(Debug, Clone, Copy, PartialEq, Eq, Structural)]
pub enum SearchMode {
    /// One key per step, the cursor, which then moves up by one.
    Sequential,
    /// One key per step, drawn from a sub-interval that moves to a new random
    /// place every `switch_interval` processed keys.
    Random,
    /// The patterns around a base that alternates between a random key of the
    /// partition and the cursor.
    Smart,
    /// One key per step, the cursor, which then moves by a fixed stride.
    Kangaroo,
}

/// The two execution lanes: one key derivation at a time, or random batches.
#[derive(Debug, Clone, Copy, PartialEq, Eq, Structural)]
pub enum Lane {
    Direct,
    Batched,
}

/// The settings a worker runs with.
#[derive(Debug, Clone, Copy, PartialEq, Eq, Structural)]
pub struct WorkerConfig {
    pub mode: SearchMode,
    pub lane: Lane,
    /// Keys per batch in the batched lane.
    pub batch_size: usize,
    /// Processed keys between two random re-anchorings.
    pub switch_interval: u64,
    /// Width of the random mode's sub-interval, in millionths of the partition.
    pub subinterval_ppm: u64,
    /// Whether a match anywhere stops this worker.
    pub stop_on_find: bool,
    /// Processed keys between two checkpoints.
    pub checkpoint_interval: u64,
    /// Whether smart mode expands its base into patterns.
    pub smart_jump: bool,
    /// Whether a cursor that passes the partition's end goes back to its start
    /// (otherwise the worker is done).
    pub wrap_around: bool,
}

/// Width of the random mode's sub-interval for a partition of `size` keys.
pub open spec fn sub_width_of(size: nat, ppm: nat) -> nat {
    if size == 0 {
        0
    } else if size * ppm / 1_000_000 == 0 {
        1
    } else if size * ppm / 1_000_000 > size {
        size
    } else {
        size * ppm / 1_000_000
    }
}

/// Step of the kangaroo walk for a partition of `size` keys: a thousandth of
/// it, and at least one.
pub open spec fn stride_of(size: nat) -> nat {
    if size / 1000 == 0 {
        1
    } else {
        size / 1000
    }
}

/// The cursor after `cursor` moves by `step` in `[start, stop)`: past the end
/// it goes back to `start` when wrapping, else it rests at `stop`.
pub open spec fn moved_cursor(cursor: nat, step: nat, start: nat, stop: nat, wrap: bool) -> nat {
    if cursor + step < stop {
        cursor + step
    } else if wrap {
        start
    } else {
        stop
    }
}

/// Most candidates proposed in one step.
pub open spec fn max_batch(config: WorkerConfig) -> nat {
    match config.lane {
        Lane::Batched => config.batch_size as nat,
        Lane::Direct => if config.mode == SearchMode::Smart && config.smart_jump {
            31
        } else {
            1
        },
    }
}

/// A worker over one partition.
pub struct Worker {
    pub part: Partition,
    pub config: WorkerConfig,
    /// Next key of the walk; equal to the partition's stop once it is done.
    pub cursor: Key,
    /// Start of the random mode's sub-interval.
    pub sub_start: Key,
    /// Width of the random mode's sub-interval.
    pub sub_width: Key,
    /// Whether smart mode takes a random base next (else the cursor).
    pub random_turn: bool,
    pub rng: FastRng,
    pub since_switch: u64,
    pub since_checkpoint: u64,
}

/// Draws an offset below `width`.
fn random_offset(rng: &mut FastRng, width: &Key) -> (r: u64)
    requires
        width@ > 0,
    ensures
        (r as nat) < width@,
{
    match key_to_u64(width) {
        Some(w) => rng.gen_range(0, w),
        None => rng.next(),
    }
}

/// Draws a key in `[start, start + width)`.
fn random_key_in(rng: &mut FastRng, start: &Key, width: &Key) -> (r: Key)
    requires
        width@ > 0,
    ensures
        start@ <= r@ < start@ + width@,
{
    let off = random_offset(rng, width);
    key_add(start, &key_of_u64(off))
}

impl Worker {
    pub open spec fn size(&self) -> nat {
        (self.part.stop@ - self.part.start@) as nat
    }

    /// The cursor lies in `[start, stop]`, and the sub-interval of the random
    /// mode inside the partition.
    pub open spec fn wf(&self) -> bool {
        &&& self.part.start@ <= self.cursor@ <= self.part.stop@
        &&& self.sub_width@ == sub_width_of(self.size(), self.config.subinterval_ppm as nat)
        &&& self.part.start@ <= self.sub_start@
        &&& self.sub_start@ + self.sub_width@ <= self.part.stop@
    }

    /// Whether the walk has passed the end of the partition.
    pub open spec fn exhausted(&self) -> bool {
        self.cursor@ >= self.part.stop@
    }

    /// A worker that resumes at `resume` when it lies in the partition, and at
    /// the partition's start otherwise.
    pub fn new(part: Partition, config: WorkerConfig, resume: Key, seed: u64) -> (r: Self)
        requires
            part.start@ <= part.stop@,
        ensures
            r.wf(),
            r.part == part,
            r.config == config,
            r.cursor@ == if part.start@ <= resume@ < part.stop@ {
                resume@
            } else {
                part.start@
            },
            r.rng.state == seed,
            r.since_switch == 0,
            r.since_checkpoint == 0,
    {
        let size = key_sub(&part.stop, &part.start);
        let scaled = key_div_u64(&key_mul_u64(&size, config.subinterval_ppm), 1_000_000);
        let zero = key_of_u64(0);
        let one = key_of_u64(1);
        let sub_width = if key_le(&size, &zero) {
            zero
        } else if key_le(&scaled, &zero) {
            one
        } else if !key_le(&scaled, &size) {
            size
        } else {
            scaled
        };
        let cursor = if key_le(&part.start, &resume) && !key_le(&part.stop, &resume) {
            resume
        } else {
            part.start.clone()
        };
        let sub_start = part.start.clone();
        Worker {
            part,
            config,
            cursor,
            sub_start,
            sub_width,
            random_turn: true,
            rng: FastRng::new(seed),
            since_switch: 0,
            since_checkpoint: 0,
        }
    }

    /// Whether the worker stops before its next step: a match was signalled
    /// and it stops on a match, or its walk has passed the partition's end.
    pub open spec fn finished(&self, found: bool) -> bool {
        (found && self.config.stop_on_find) || self.exhausted()
    }

    pub fn is_finished(&self, found: bool) -> (r: bool)
        ensures
            r == self.finished(found),
    {
        (found && self.config.stop_on_find) || key_le(&self.part.stop, &self.cursor)
    }
}

impl Worker {
    /// Keeps the patterns of a base that lie before the partition's stop.
    fn keep_before_stop(all: Vec<Key>, stop: &Key) -> (r: Vec<Key>)
        requires
            strictly_ascending(all@),
        ensures
            strictly_ascending(r@),
            r@.len() <= all@.len(),
            forall|i: int| 0 <= i < r@.len() ==> (#[trigger] r@[i])@ < stop@,
            forall|x: nat| #[trigger] holds_value(r@, x) <==> holds_value(all@, x) && x < stop@,
    {
        let mut r: Vec<Key> = Vec::new();
        let mut i: usize = 0;
        while i < all.len()
            invariant
                i <= all@.len(),
                strictly_ascending(all@),
                strictly_ascending(r@),
                r@.len() <= i,
                forall|j: int| 0 <= j < r@.len() ==> (#[trigger] r@[j])@ < stop@,
                forall|j: int| 0 <= j < r@.len() ==> exists|m: int| 0 <= m < i && (#[trigger] r@[j])@ == all@[m]@,
                forall|x: nat| #[trigger] holds_value(r@, x) <==> (exists|m: int| 0 <= m < i && all@[m]@ == x) && x < stop@,
            decreases all@.len() - i,
        {
            if !key_le(stop, &all[i]) {
                let ghost before = r@;
                r.push(all[i].clone());
                proof {
                    assert forall|a: int, b: int| 0 <= a < b < r@.len() implies r@[a]@ < r@[b]@ by {
                        if b == r@.len() - 1 {
                            let m = choose|m: int| 0 <= m < i && r@[a]@ == all@[m]@;
                        }
                    }
                    assert forall|x: nat| #[trigger] holds_value(r@, x) <==> (exists|m: int| 0 <= m < i + 1 && all@[m]@ == x) && x < stop@ by {
                        if holds_value(r@, x) {
                            let j = choose|j: int| 0 <= j < r@.len() && r@[j]@ == x;
                            if j < before.len() {
                                assert(holds_value(before, x));
                            }
                        }
                        if (exists|m: int| 0 <= m < i + 1 && all@[m]@ == x) && x < stop@ {
                            let m = choose|m: int| 0 <= m < i + 1 && all@[m]@ == x;
                            if m < i {
                                assert(holds_value(before, x));
                                let j = choose|j: int| 0 <= j < before.len() && before[j]@ == x;
                                assert(r@[j]@ == x);
                            } else {
                                assert(r@[r@.len() - 1]@ == x);
                            }
                        }
                    }
                }
            } else {
                proof {
                    assert forall|x: nat| #[trigger] holds_value(r@, x) <==> (exists|m: int| 0 <= m < i + 1 && all@[m]@ == x) && x < stop@ by {
                        if (exists|m: int| 0 <= m < i + 1 && all@[m]@ == x) && x < stop@ {
                            let m = choose|m: int| 0 <= m < i + 1 && all@[m]@ == x;
                            if m == i {
                                assert(false);
                            }
                        }
                    }
                }
            }
            i = i + 1;
        }
        proof {
            assert forall|x: nat| #[trigger] holds_value(r@, x) <==> holds_value(all@, x) && x < stop@ by {
                if holds_value(all@, x) {
                    let m = choose|m: int| 0 <= m < all@.len() && all@[m]@ == x;
                }
            }
        }
        r
    }
}

/// The smart mode's candidates for a base `b`: strictly ascending, before the
/// partition's stop, each a pattern of `b`, and every deterministic pattern
/// of `b` before the stop among them.
pub open spec fn is_smart_batch(b: nat, stop: nat, r: Seq<Key>) -> bool {
    &&& strictly_ascending(r)
    &&& forall|i: int|
        0 <= i < r.len() ==> (#[trigger] r[i])@ < stop && (is_deterministic_pattern(b, r[i]@)
            || is_digit_shuffle(b, r[i]@))
    &&& forall|x: nat| is_deterministic_pattern(b, x) && x < stop ==> #[trigger] holds_value(r, x)
}

impl Worker {
    /// Proposes the candidates of the next step.
    pub fn next_candidates(&mut self) -> (r: Vec<Key>)
        requires
            old(self).wf(),
            !old(self).exhausted(),
        ensures
            final(self).wf(),
            final(self).part == old(self).part,
            final(self).config == old(self).config,
            final(self).cursor == old(self).cursor,
            final(self).sub_start == old(self).sub_start,
            final(self).since_switch == old(self).since_switch,
            final(self).since_checkpoint == old(self).since_checkpoint,
            r@.len() <= max_batch(old(self).config),
            old(self).config.lane == Lane::Batched ==> {
                &&& r@.len() == old(self).config.batch_size
                &&& forall|i: int|
                    0 <= i < r@.len() ==> old(self).part.holds((#[trigger] r@[i])@)
            },
            old(self).config.lane == Lane::Direct ==> match old(self).config.mode {
                SearchMode::Random => {
                    &&& r@.len() == 1
                    &&& old(self).sub_start@ <= r@[0]@ < old(self).sub_start@ + old(
                        self,
                    ).sub_width@
                },
                SearchMode::Smart => if old(self).config.smart_jump {
                    &&& final(self).random_turn == !old(self).random_turn
                    &&& exists|b: nat|
                        #![trigger is_smart_batch(b, old(self).part.stop@, r@)]
                        (if old(self).random_turn {
                            old(self).part.holds(b)
                        } else {
                            b == old(self).cursor@
                        }) && is_smart_batch(b, old(self).part.stop@, r@)
                } else {
                    r@.len() == 1 && r@[0]@ == old(self).cursor@
                },
                _ => r@.len() == 1 && r@[0]@ == old(self).cursor@,
            },
    {
        let size = key_sub(&self.part.stop, &self.part.start);
        match self.config.lane {
            Lane::Batched => {
                let mut r: Vec<Key> = Vec::new();
                let mut i: usize = 0;
                while i < self.config.batch_size
                    invariant
                        i <= self.config.batch_size,
                        size@ == old(self).size(),
                        size@ > 0,
                        r@.len() == i,
                        self.wf(),
                        self.part == old(self).part,
                        self.config == old(self).config,
                        self.cursor == old(self).cursor,
                        self.sub_start == old(self).sub_start,
                        self.sub_width == old(self).sub_width,
                        self.random_turn == old(self).random_turn,
                        self.since_switch == old(self).since_switch,
                        self.since_checkpoint == old(self).since_checkpoint,
                        forall|j: int| 0 <= j < i ==> self.part.holds((#[trigger] r@[j])@),
                    decreases self.config.batch_size - i,
                {
                    let k = random_key_in(&mut self.rng, &self.part.start, &size);
                    r.push(k);
                    i = i + 1;
                }
                r
            },
            Lane::Direct => match self.config.mode {
                SearchMode::Random => {
                    let k = random_key_in(&mut self.rng, &self.sub_start, &self.sub_width);
                    vec![k]
                },
                SearchMode::Smart => {
                    if !self.config.smart_jump {
                        return vec![self.cursor.clone()];
                    }
                    let base = if self.random_turn {
                        random_key_in(&mut self.rng, &self.part.start, &size)
                    } else {
                        self.cursor.clone()
                    };
                    self.random_turn = !self.random_turn;
                    let all = generate_key_patterns(&base);
                    let r = Self::keep_before_stop(all, &self.part.stop);
                    proof {
                        let b = base@;
                        assert forall|x: nat|
                            is_deterministic_pattern(b, x) && x < self.part.stop@ implies #[trigger] holds_value(
                            r@,
                            x,
                        ) by {
                            assert(holds_value(all@, x));
                        }
                        assert forall|i: int| 0 <= i < r@.len() implies (#[trigger] r@[i])@ < self.part.stop@
                            && (is_deterministic_pattern(b, r@[i]@) || is_digit_shuffle(b, r@[i]@)) by {
                            assert(holds_value(r@, r@[i]@));
                            assert(holds_value(all@, r@[i]@));
                            let m = choose|m: int| 0 <= m < all@.len() && all@[m]@ == r@[i]@;
                            assert(is_deterministic_pattern(b, all@[m]@) || is_digit_shuffle(b, all@[m]@));
                        }
                        assert(is_smart_batch(b, self.part.stop@, r@));
                    }
                    r
                },
                _ => vec![self.cursor.clone()],
            },
        }
    }
}

impl Worker {
    /// Moves the cursor by `step`, wrapping or resting at the stop past the end.
    fn move_cursor(&mut self, step: &Key, wrap: bool)
        requires
            old(self).wf(),
        ensures
            final(self).wf(),
            final(self).cursor@ == moved_cursor(
                old(self).cursor@,
                step@,
                old(self).part.start@,
                old(self).part.stop@,
                wrap,
            ),
            final(self).part == old(self).part,
            final(self).config == old(self).config,
            final(self).sub_start == old(self).sub_start,
            final(self).sub_width == old(self).sub_width,
            final(self).rng == old(self).rng,
            final(self).random_turn == old(self).random_turn,
            final(self).since_switch == old(self).since_switch,
            final(self).since_checkpoint == old(self).since_checkpoint,
    {
        let next = key_add(&self.cursor, step);
        if !key_le(&self.part.stop, &next) {
            self.cursor = next;
        } else if wrap {
            self.cursor = self.part.start.clone();
        } else {
            self.cursor = self.part.stop.clone();
        }
    }

    /// Counts the keys processed in the step just made, moves the cursor, and
    /// tells whether a checkpoint of the new cursor is due.
    pub fn advance(&mut self, processed: u64) -> (checkpoint_due: bool)
        requires
            old(self).wf(),
            !old(self).exhausted(),
        ensures
            final(self).wf(),
            final(self).part == old(self).part,
            final(self).config == old(self).config,
            checkpoint_due == (old(self).since_checkpoint.saturating_add(processed)
                >= old(self).config.checkpoint_interval),
            final(self).since_checkpoint == if checkpoint_due {
                0
            } else {
                old(self).since_checkpoint.saturating_add(processed)
            },
            old(self).config.lane == Lane::Batched ==> final(self).cursor == old(self).cursor,
            old(self).config.lane == Lane::Direct ==> match old(self).config.mode {
                SearchMode::Sequential => final(self).cursor@ == moved_cursor(
                    old(self).cursor@,
                    1,
                    old(self).part.start@,
                    old(self).part.stop@,
                    old(self).config.wrap_around,
                ),
                SearchMode::Kangaroo => final(self).cursor@ == moved_cursor(
                    old(self).cursor@,
                    stride_of(old(self).size()),
                    old(self).part.start@,
                    old(self).part.stop@,
                    true,
                ),
                SearchMode::Random => if old(self).since_switch.saturating_add(processed)
                    >= old(self).config.switch_interval {
                    &&& final(self).since_switch == 0
                    &&& final(self).cursor@ == final(self).sub_start@
                } else {
                    &&& final(self).since_switch == old(self).since_switch.saturating_add(
                        processed,
                    )
                    &&& final(self).sub_start == old(self).sub_start
                    &&& final(self).cursor == old(self).cursor
                },
                SearchMode::Smart => if old(self).since_switch.saturating_add(processed)
                    >= old(self).config.switch_interval {
                    &&& final(self).since_switch == 0
                    &&& old(self).part.holds(final(self).cursor@)
                } else {
                    &&& final(self).since_switch == old(self).since_switch.saturating_add(
                        processed,
                    )
                    &&& final(self).cursor@ == moved_cursor(
                        old(self).cursor@,
                        1,
                        old(self).part.start@,
                        old(self).part.stop@,
                        old(self).config.wrap_around,
                    )
                },
            },
    {
        let counted = self.since_checkpoint.saturating_add(processed);
        let due = counted >= self.config.checkpoint_interval;
        if due {
            self.since_checkpoint = 0;
        } else {
            self.since_checkpoint = counted;
        }
        let size = key_sub(&self.part.stop, &self.part.start);
        match self.config.lane {
            Lane::Batched => {},
            Lane::Direct => match self.config.mode {
                SearchMode::Sequential => {
                    let one = key_of_u64(1);
                    self.move_cursor(&one, self.config.wrap_around);
                },
                SearchMode::Kangaroo => {
                    let zero = key_of_u64(0);
                    let thousandth = key_div_u64(&size, 1000);
                    let stride = if key_le(&thousandth, &zero) {
                        key_of_u64(1)
                    } else {
                        thousandth
                    };
                    self.move_cursor(&stride, true);
                },
                SearchMode::Random => {
                    let since = self.since_switch.saturating_add(processed);
                    if since >= self.config.switch_interval {
                        let one = key_of_u64(1);
                        let room = key_add(&key_sub(&size, &self.sub_width), &one);
                        self.sub_start = random_key_in(&mut self.rng, &self.part.start, &room);
                        self.cursor = self.sub_start.clone();
                        self.since_switch = 0;
                    } else {
                        self.since_switch = since;
                    }
                },
                SearchMode::Smart => {
                    let since = self.since_switch.saturating_add(processed);
                    if since >= self.config.switch_interval {
                        self.cursor = random_key_in(&mut self.rng, &self.part.start, &size);
                        self.since_switch = 0;
                    } else {
                        self.since_switch = since;
                        let one = key_of_u64(1);
                        self.move_cursor(&one, self.config.wrap_around);
                    }
                },
            },
        }
        due
    }
}

/// Once the found flag is seen set, a worker that stops on a match takes no
/// further step; the step under way when the flag was set proposes at most
/// `max_batch` candidates.
pub proof fn lemma_stop_on_find(w: Worker)
    requires
        w.config.stop_on_find,
    ensures
        w.finished(true),
        max_batch(w.config) <= if w.config.lane == Lane::Batched {
            w.config.batch_size as nat
        } else {
            31
        },
{
}

/// A sequential cursor inside the partition moves to the next key, or, past
/// the end, back to the partition's start when wrapping and to the stop (the
/// worker is then done) otherwise; it never leaves `[start, stop]`.
pub proof fn lemma_sequential_in_partition(cursor: nat, start: nat, stop: nat, wrap: bool)
    requires
        start <= cursor < stop,
    ensures
        ({
            let next = moved_cursor(cursor, 1, start, stop, wrap);
            &&& start <= next <= stop
            &&& next == stop ==> !wrap
            &&& next != cursor + 1 ==> (wrap && next == start) || (!wrap && next == stop)
        }),
{
}

} // verus!
