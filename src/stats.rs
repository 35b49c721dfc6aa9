//! Throughput counters per lane, and the rates derived from them.
use vstd::prelude::*;

verus! {

/// Keys per second for `count` keys over `elapsed_ms` milliseconds, rounded
/// down; zero when no time has passed.
pub open spec fn rate_of(count: nat, elapsed_ms: nat) -> nat {
    if elapsed_ms == 0 {
        0
    } else {
        (count * 1000) / elapsed_ms
    }
}

/// Counters of processed keys: a total, one per lane (direct and batched),
/// and the number of matches found.
pub struct Statistics {
    pub keys_checked: u64,
    pub found_count: u64,
    pub cpu_keys_checked: u64,
    pub gpu_keys_checked: u64,
}

/// Keys per second, rounded down, for a count and a duration in milliseconds.
pub fn rate_per_second(count: u64, elapsed_ms: u64) -> (r: u128)
    ensures
        r == rate_of(count as nat, elapsed_ms as nat),
{
    if elapsed_ms == 0 {
        0
    } else {
        assert(count as u128 * 1000 <= u64::MAX as u128 * 1000) by (nonlinear_arith);
        (count as u128 * 1000) / (elapsed_ms as u128)
    }
}

impl Statistics {
    /// Every lane counter is at most the total.
    pub open spec fn wf(&self) -> bool {
        self.cpu_keys_checked + self.gpu_keys_checked <= self.keys_checked
    }

    pub fn new() -> (r: Self)
        ensures
            r.keys_checked == 0,
            r.found_count == 0,
            r.cpu_keys_checked == 0,
            r.gpu_keys_checked == 0,
            r.wf(),
    {
        Statistics { keys_checked: 0, found_count: 0, cpu_keys_checked: 0, gpu_keys_checked: 0 }
    }

    /// Counts keys that belong to no lane.
    pub fn add_keys(&mut self, count: u64)
        requires
            old(self).keys_checked + count <= u64::MAX,
        ensures
            final(self).keys_checked == old(self).keys_checked + count,
            final(self).cpu_keys_checked == old(self).cpu_keys_checked,
            final(self).gpu_keys_checked == old(self).gpu_keys_checked,
            final(self).found_count == old(self).found_count,
            old(self).wf() ==> final(self).wf(),
    {
        self.keys_checked = self.keys_checked + count;
    }

    /// Counts keys processed by the direct lane.
    pub fn add_cpu_keys(&mut self, count: u64)
        requires
            old(self).keys_checked + count <= u64::MAX,
            old(self).wf(),
        ensures
            final(self).keys_checked == old(self).keys_checked + count,
            final(self).cpu_keys_checked == old(self).cpu_keys_checked + count,
            final(self).gpu_keys_checked == old(self).gpu_keys_checked,
            final(self).found_count == old(self).found_count,
            final(self).wf(),
    {
        self.cpu_keys_checked = self.cpu_keys_checked + count;
        self.keys_checked = self.keys_checked + count;
    }

    /// Counts keys processed by the batched lane.
    pub fn add_gpu_keys(&mut self, count: u64)
        requires
            old(self).keys_checked + count <= u64::MAX,
            old(self).wf(),
        ensures
            final(self).keys_checked == old(self).keys_checked + count,
            final(self).gpu_keys_checked == old(self).gpu_keys_checked + count,
            final(self).cpu_keys_checked == old(self).cpu_keys_checked,
            final(self).found_count == old(self).found_count,
            final(self).wf(),
    {
        self.gpu_keys_checked = self.gpu_keys_checked + count;
        self.keys_checked = self.keys_checked + count;
    }

    /// Counts one match.
    pub fn add_found(&mut self)
        requires
            old(self).found_count < u64::MAX,
        ensures
            final(self).found_count == old(self).found_count + 1,
            final(self).keys_checked == old(self).keys_checked,
            final(self).cpu_keys_checked == old(self).cpu_keys_checked,
            final(self).gpu_keys_checked == old(self).gpu_keys_checked,
    {
        self.found_count = self.found_count + 1;
    }

    /// Lifetime average of all keys per second.
    pub fn get_rate(&self, elapsed_ms: u64) -> (r: u128)
        ensures
            r == rate_of(self.keys_checked as nat, elapsed_ms as nat),
    {
        rate_per_second(self.keys_checked, elapsed_ms)
    }

    /// Lifetime average of the direct lane's keys per second.
    pub fn get_cpu_rate(&self, elapsed_ms: u64) -> (r: u128)
        ensures
            r == rate_of(self.cpu_keys_checked as nat, elapsed_ms as nat),
    {
        rate_per_second(self.cpu_keys_checked, elapsed_ms)
    }

    /// Lifetime average of the batched lane's keys per second.
    pub fn get_gpu_rate(&self, elapsed_ms: u64) -> (r: u128)
        ensures
            r == rate_of(self.gpu_keys_checked as nat, elapsed_ms as nat),
    {
        rate_per_second(self.gpu_keys_checked, elapsed_ms)
    }

    /// Keys per second over a window: the growth of the total since an
    /// earlier snapshot, over the window's length.
    pub fn instant_rate(&self, earlier: &Statistics, window_ms: u64) -> (r: u128)
        requires
            earlier.keys_checked <= self.keys_checked,
        ensures
            r == rate_of((self.keys_checked - earlier.keys_checked) as nat, window_ms as nat),
    {
        rate_per_second(self.keys_checked - earlier.keys_checked, window_ms)
    }
}

/// When every processed key was counted in a lane, the total rate is the sum
/// of the lane rates, up to the rounding of each lane's rate.
pub proof fn lemma_total_rate_is_lane_sum(s: Statistics, elapsed_ms: nat)
    requires
        s.keys_checked == s.cpu_keys_checked + s.gpu_keys_checked,
    ensures
        rate_of(s.cpu_keys_checked as nat, elapsed_ms) + rate_of(s.gpu_keys_checked as nat, elapsed_ms)
            <= rate_of(s.keys_checked as nat, elapsed_ms),
        rate_of(s.keys_checked as nat, elapsed_ms) <= rate_of(s.cpu_keys_checked as nat, elapsed_ms)
            + rate_of(s.gpu_keys_checked as nat, elapsed_ms) + 1,
{
    if elapsed_ms > 0 {
        let a = s.cpu_keys_checked as int * 1000;
        let b = s.gpu_keys_checked as int * 1000;
        let t = elapsed_ms as int;
        vstd::arithmetic::div_mod::lemma_fundamental_div_mod(a, t);
        vstd::arithmetic::div_mod::lemma_fundamental_div_mod(b, t);
        vstd::arithmetic::div_mod::lemma_fundamental_div_mod(a + b, t);
        vstd::arithmetic::div_mod::lemma_mod_pos_bound(a, t);
        vstd::arithmetic::div_mod::lemma_mod_pos_bound(b, t);
        vstd::arithmetic::div_mod::lemma_mod_pos_bound(a + b, t);
        let qa = a / t;
        let qb = b / t;
        let q = (a + b) / t;
        assert(q * t + (a + b) % t == qa * t + a % t + qb * t + b % t);
        assert(qa + qb <= q) by (nonlinear_arith)
            requires
                q * t + (a + b) % t == qa * t + a % t + qb * t + b % t,
                0 <= (a + b) % t < t,
                0 <= a % t,
                0 <= b % t,
                t > 0,
        ;
        assert(q <= qa + qb + 1) by (nonlinear_arith)
            requires
                q * t + (a + b) % t == qa * t + a % t + qb * t + b % t,
                0 <= (a + b) % t,
                a % t < t,
                b % t < t,
                t > 0,
        ;
        assert((s.keys_checked as nat * 1000) == a + b);
    }
}

} // verus!
