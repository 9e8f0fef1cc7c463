//! Benchmark bookkeeping: the DWT cycle counter's enable rule, running
//! totals, and the statistics and message formats of the benchmark and
//! IPC test applications.
use vstd::prelude::*;
use vstd::arithmetic::div_mod::{lemma_add_mod_noop, lemma_div_is_ordered_by_denominator, lemma_mod_bound};

verus! {

/// DWT control register.
pub const DWT_CTRL: u32 = 0xE000_1000;
/// DWT cycle count register.
pub const DWT_CYCCNT: u32 = 0xE000_1004;
/// The cycle counter enable bit of DWT control.
pub const DWT_CTRL_CYCCNTENA: u32 = 1;

/// The DWT cycle counter.
pub struct CycleCounter;

impl CycleCounter {
    /// The value to write to DWT control to start the counter, if it is not
    /// running already; the count itself is then reset to 0.
    pub fn enable_write(dwt_ctrl: u32) -> (r: Option<u32>)
        ensures
            dwt_ctrl & 1 == 0 ==> r == Some(dwt_ctrl | 1),
            dwt_ctrl & 1 != 0 ==> r is None,
    {
        if (dwt_ctrl & DWT_CTRL_CYCCNTENA) == 0 {
            Some(dwt_ctrl | DWT_CTRL_CYCCNTENA)
        } else {
            None
        }
    }

    /// Cycles between two readings of the counter, across a wrap.
    pub fn elapsed(start: u32, end: u32) -> (r: u32)
        ensures
            r == (end as int - start as int) % 0x1_0000_0000,
    {
        end.wrapping_sub(start)
    }
}

/// Cycle totals of the measured operations.
pub struct BenchmarkTotals {
    pub mpu_region_cycles: u32,
    pub context_switch_cycles: u32,
}

impl BenchmarkTotals {
    pub fn new() -> (r: Self)
        ensures
            r.mpu_region_cycles == 0,
            r.context_switch_cycles == 0,
    {
        BenchmarkTotals { mpu_region_cycles: 0, context_switch_cycles: 0 }
    }

    /// Add the cycles of one MPU region setup.
    pub fn log_mpu_region_time(&mut self, cycles: u32)
        requires
            old(self).mpu_region_cycles + cycles <= u32::MAX,
        ensures
            final(self).mpu_region_cycles == old(self).mpu_region_cycles + cycles,
            final(self).context_switch_cycles == old(self).context_switch_cycles,
    {
        self.mpu_region_cycles = self.mpu_region_cycles + cycles;
    }

    /// Add the cycles of one context switch.
    pub fn log_context_switch_time(&mut self, cycles: u32)
        requires
            old(self).context_switch_cycles + cycles <= u32::MAX,
        ensures
            final(self).context_switch_cycles == old(self).context_switch_cycles + cycles,
            final(self).mpu_region_cycles == old(self).mpu_region_cycles,
    {
        self.context_switch_cycles = self.context_switch_cycles + cycles;
    }

    /// The totals worth reporting: those that are not zero.
    pub fn final_results(&self) -> (r: (Option<u32>, Option<u32>))
        ensures
            r.0 == (if self.mpu_region_cycles > 0 { Some(self.mpu_region_cycles) } else { None::<u32> }),
            r.1 == (if self.context_switch_cycles > 0 { Some(self.context_switch_cycles) } else { None::<u32> }),
    {
        (
            if self.mpu_region_cycles > 0 { Some(self.mpu_region_cycles) } else { None },
            if self.context_switch_cycles > 0 { Some(self.context_switch_cycles) } else { None },
        )
    }
}

/// The smallest sample, or `u32::MAX` for none.
pub open spec fn min_of(s: Seq<u32>) -> u32
    decreases s.len(),
{
    if s.len() == 0 {
        u32::MAX
    } else if s.last() < min_of(s.drop_last()) {
        s.last()
    } else {
        min_of(s.drop_last())
    }
}

/// The largest sample, or 0 for none.
pub open spec fn max_of(s: Seq<u32>) -> u32
    decreases s.len(),
{
    if s.len() == 0 {
        0
    } else if s.last() > max_of(s.drop_last()) {
        s.last()
    } else {
        max_of(s.drop_last())
    }
}

/// The sum of the samples.
pub open spec fn sum_of(s: Seq<u32>) -> int
    decreases s.len(),
{
    if s.len() == 0 {
        0
    } else {
        sum_of(s.drop_last()) + s.last()
    }
}

/// The samples that record a measurement (a zero marks a failed one).
pub open spec fn nonzero_samples(s: Seq<u32>) -> Seq<u32> {
    s.filter(|x: u32| x > 0)
}

/// A sum is at most the count times the largest value.
pub proof fn lemma_sum_bound(s: Seq<u32>)
    ensures
        0 <= sum_of(s) <= s.len() * 0xFFFF_FFFF,
    decreases s.len(),
{
    if s.len() > 0 {
        lemma_sum_bound(s.drop_last());
    }
}

/// Every sample lies between the minimum and the maximum.
pub proof fn lemma_min_max_bound(s: Seq<u32>, i: int)
    requires
        0 <= i < s.len(),
    ensures
        min_of(s) <= s[i] <= max_of(s),
    decreases s.len(),
{
    if i < s.len() - 1 {
        lemma_min_max_bound(s.drop_last(), i);
    }
}

proof fn lemma_sum_between(s: Seq<u32>, lo: int, hi: int)
    requires
        forall|i: int| 0 <= i < s.len() ==> lo <= #[trigger] s[i] <= hi,
    ensures
        s.len() * lo <= sum_of(s) <= s.len() * hi,
    decreases s.len(),
{
    if s.len() > 0 {
        assert forall|i: int| 0 <= i < s.drop_last().len() implies lo <= #[trigger] s.drop_last()[i] <= hi by {
            assert(s.drop_last()[i] == s[i]);
        }
        lemma_sum_between(s.drop_last(), lo, hi);
        assert(lo <= s[s.len() - 1] <= hi);
        let n = s.len() as int;
        assert(s.drop_last().len() == n - 1);
        assert(n * lo == (n - 1) * lo + lo) by (nonlinear_arith);
        assert(n * hi == (n - 1) * hi + hi) by (nonlinear_arith);
    } else {
        assert(s.len() * lo == 0 && s.len() * hi == 0) by (nonlinear_arith)
            requires
                s.len() == 0,
        ;
    }
}

/// Of a non-empty set of samples, the mean lies between the minimum and
/// the maximum.
pub proof fn lemma_mean_between_min_max(s: Seq<u32>)
    requires
        s.len() > 0,
    ensures
        min_of(s) <= sum_of(s) / (s.len() as int) <= max_of(s),
{
    assert forall|i: int| 0 <= i < s.len() implies min_of(s) <= #[trigger] s[i] <= max_of(s) by {
        lemma_min_max_bound(s, i);
    }
    lemma_sum_between(s, min_of(s) as int, max_of(s) as int);
    let n = s.len() as int;
    let lo = min_of(s) as int;
    let hi = max_of(s) as int;
    let t = sum_of(s);
    assert(lo <= t / n <= hi) by (nonlinear_arith)
        requires
            n > 0,
            n * lo <= t <= n * hi,
    ;
}

/// With no failed measurement, the valid samples are all the samples.
pub proof fn lemma_all_valid(s: Seq<u32>)
    requires
        forall|i: int| 0 <= i < s.len() ==> #[trigger] s[i] > 0,
    ensures
        nonzero_samples(s) == s,
    decreases s.len(),
{
    reveal_with_fuel(Seq::filter, 1);
    if s.len() > 0 {
        lemma_all_valid(s.drop_last());
        assert(s.drop_last().push(s.last()) =~= s);
    } else {
        assert(s =~= Seq::<u32>::empty());
    }
}

/// Minimum, maximum and mean of a set of cycle counts.
#[derive(Copy, Clone, Debug, PartialEq, Eq, Structural)]
pub struct CycleStats {
    pub min: u32,
    pub max: u32,
    pub avg: u32,
}

/// The mean, rounded down, of a sum over `n` samples of 32-bit values.
fn mean(total: u64, n: u64, Ghost(s): Ghost<Seq<u32>>) -> (r: u32)
    requires
        n > 0,
        n == s.len(),
        total == sum_of(s),
    ensures
        r == sum_of(s) / (n as int),
{
    proof {
        lemma_sum_bound(s);
        assert(total / n <= (n * 0xFFFF_FFFF) / (n as int)) by (nonlinear_arith)
            requires
                total <= n * 0xFFFF_FFFF,
                n > 0,
        ;
        assert((n * 0xFFFF_FFFF) / (n as int) == 0xFFFF_FFFF) by (nonlinear_arith)
            requires
                n > 0,
        ;
    }
    (total / n) as u32
}

/// Statistics over all samples.
pub fn cycle_stats(samples: &[u32]) -> (r: CycleStats)
    requires
        0 < samples.len() <= u32::MAX,
    ensures
        r.min == min_of(samples@),
        r.max == max_of(samples@),
        r.avg == sum_of(samples@) / (samples.len() as int),
{
    let mut min: u32 = u32::MAX;
    let mut max: u32 = 0;
    let mut total: u64 = 0;
    let mut i: usize = 0;
    while i < samples.len()
        invariant
            0 <= i <= samples.len(),
            samples.len() <= u32::MAX,
            min == min_of(samples@.subrange(0, i as int)),
            max == max_of(samples@.subrange(0, i as int)),
            total == sum_of(samples@.subrange(0, i as int)),
        decreases samples.len() - i,
    {
        let x = samples[i];
        proof {
            assert(samples@.subrange(0, i as int + 1).drop_last() =~= samples@.subrange(0, i as int));
            lemma_sum_bound(samples@.subrange(0, i as int));
            assert(i * 0xFFFF_FFFF + 0xFFFF_FFFF <= 0xFFFF_FFFF * 0x1_0000_0000) by (nonlinear_arith)
                requires
                    i < 0x1_0000_0000,
            ;
        }
        if x < min {
            min = x;
        }
        if x > max {
            max = x;
        }
        total = total + x as u64;
        i = i + 1;
    }
    assert(samples@.subrange(0, samples.len() as int) =~= samples@);
    let avg = mean(total, samples.len() as u64, Ghost(samples@));
    CycleStats { min, max, avg }
}

/// Statistics over the samples that record a measurement, and how many
/// there are; with none, the minimum stays `u32::MAX` and the rest are 0.
pub fn valid_cycle_stats(samples: &[u32]) -> (r: (CycleStats, u32))
    requires
        samples.len() <= u32::MAX,
    ensures
        r.1 == nonzero_samples(samples@).len(),
        r.0.min == min_of(nonzero_samples(samples@)),
        r.0.max == max_of(nonzero_samples(samples@)),
        r.0.avg == if r.1 > 0 { sum_of(nonzero_samples(samples@)) / (r.1 as int) } else { 0 },
{
    let mut min: u32 = u32::MAX;
    let mut max: u32 = 0;
    let mut total: u64 = 0;
    let mut valid: u32 = 0;
    let mut i: usize = 0;
    while i < samples.len()
        invariant
            0 <= i <= samples.len(),
            samples.len() <= u32::MAX,
            valid == nonzero_samples(samples@.subrange(0, i as int)).len(),
            valid <= i,
            min == min_of(nonzero_samples(samples@.subrange(0, i as int))),
            max == max_of(nonzero_samples(samples@.subrange(0, i as int))),
            total == sum_of(nonzero_samples(samples@.subrange(0, i as int))),
        decreases samples.len() - i,
    {
        let x = samples[i];
        let ghost pre = samples@.subrange(0, i as int);
        let ghost post = samples@.subrange(0, i as int + 1);
        proof {
            assert(post.drop_last() =~= pre);
            reveal_with_fuel(Seq::filter, 1);
            assert(nonzero_samples(post) == if x > 0 { nonzero_samples(pre).push(x) } else { nonzero_samples(pre) });
            lemma_sum_bound(nonzero_samples(pre));
            assert(valid * 0xFFFF_FFFF + 0xFFFF_FFFF <= 0xFFFF_FFFF * 0x1_0000_0000) by (nonlinear_arith)
                requires
                    valid < 0x1_0000_0000,
            ;
            if x > 0 {
                assert(nonzero_samples(pre).push(x).drop_last() =~= nonzero_samples(pre));
            }
        }
        if x > 0 {
            if x < min {
                min = x;
            }
            if x > max {
                max = x;
            }
            total = total + x as u64;
            valid = valid + 1;
        }
        i = i + 1;
    }
    assert(samples@.subrange(0, samples.len() as int) =~= samples@);
    let avg = if valid > 0 {
        mean(total, valid as u64, Ghost(nonzero_samples(samples@)))
    } else {
        0
    };
    (CycleStats { min, max, avg }, valid)
}

/// The benchmark keeps `total` samples: the ones it measured, then the
/// first measurement repeated.
pub open spec fn padded_samples(measured: Seq<u32>, total: nat) -> Seq<u32> {
    Seq::new(total, |i: int| if i < measured.len() { measured[i] } else { measured[0] })
}

/// Fill the sample buffer past the measured ones with the first measurement.
pub fn pad_with_first(measured: &[u32], total: usize) -> (r: Vec<u32>)
    requires
        0 < measured.len() <= total,
    ensures
        r@ == padded_samples(measured@, total as nat),
{
    let mut r: Vec<u32> = Vec::new();
    let mut i: usize = 0;
    while i < total
        invariant
            0 <= i <= total,
            0 < measured.len() <= total,
            r@ == padded_samples(measured@, total as nat).subrange(0, i as int),
        decreases total - i,
    {
        if i < measured.len() {
            r.push(measured[i]);
        } else {
            r.push(measured[0]);
        }
        i = i + 1;
        assert(r@ =~= padded_samples(measured@, total as nat).subrange(0, i as int));
    }
    assert(padded_samples(measured@, total as nat).subrange(0, total as int) =~= padded_samples(
        measured@,
        total as nat,
    ));
    r
}

/// How many samples a context-switch phase keeps.
pub const CONTEXT_SWITCH_SAMPLES: usize = 100;

/// The statistics of one context-switch phase: the measured yields padded
/// to a hundred samples with the first.
pub fn context_switch_phase_stats(measured: &[u32]) -> (r: CycleStats)
    requires
        0 < measured.len() <= CONTEXT_SWITCH_SAMPLES,
    ensures
        r.min == min_of(padded_samples(measured@, 100)),
        r.max == max_of(padded_samples(measured@, 100)),
        r.avg == sum_of(padded_samples(measured@, 100)) / 100,
{
    let samples = pad_with_first(measured, CONTEXT_SWITCH_SAMPLES);
    cycle_stats(samples.as_slice())
}

/// The extra cycles a context switch costs with the MPU on, as a signed
/// difference of the two averages.
pub fn mpu_overhead_cycles(avg_on: u32, avg_off: u32) -> (r: i32)
    requires
        i32::MIN <= (avg_on as i32) - (avg_off as i32) <= i32::MAX,
    ensures
        r == (avg_on as i32) - (avg_off as i32),
{
    avg_on as i32 - avg_off as i32
}

/// The sum, wrapping at 32 bits, of the samples.
pub open spec fn wrapping_sum(s: Seq<u32>) -> u32 {
    (sum_of(s) % 0x1_0000_0000) as u32
}

/// Add up `data` at the positions `index(0)`, `index(1)`, ... of a pattern,
/// wrapping at 32 bits.
fn pattern_sum(data: &[u32], positions: &Vec<usize>, Ghost(picked): Ghost<Seq<u32>>) -> (r: u32)
    requires
        forall|k: int| 0 <= k < positions.len() ==> positions@[k] < data.len(),
        picked.len() == positions.len(),
        forall|k: int| 0 <= k < positions.len() ==> picked[k] == data@[positions@[k] as int],
    ensures
        r == wrapping_sum(picked),
{
    let mut sum: u32 = 0;
    let mut k: usize = 0;
    while k < positions.len()
        invariant
            0 <= k <= positions.len(),
            picked.len() == positions.len(),
            forall|j: int| 0 <= j < positions.len() ==> positions@[j] < data.len(),
            forall|j: int| 0 <= j < positions.len() ==> picked[j] == data@[positions@[j] as int],
            sum == wrapping_sum(picked.subrange(0, k as int)),
        decreases positions.len() - k,
    {
        let v = data[positions[k]];
        proof {
            let pre = picked.subrange(0, k as int);
            let post = picked.subrange(0, k as int + 1);
            assert(post.drop_last() =~= pre);
            assert(post.last() == v);
            lemma_add_mod_noop(sum_of(pre), v as int, 0x1_0000_0000);
            lemma_mod_bound(sum_of(pre), 0x1_0000_0000);
            lemma_mod_bound(sum_of(post), 0x1_0000_0000);
            lemma_mod_bound(v as int, 0x1_0000_0000);
            assert((v as int) % 0x1_0000_0000 == v as int);
        }
        sum = sum.wrapping_add(v);
        k = k + 1;
        proof {
            let pre = picked.subrange(0, k as int - 1);
            lemma_mod_bound(sum_of(pre) % 0x1_0000_0000 + v as int, 0x1_0000_0000);
            assert((sum_of(pre) % 0x1_0000_0000 + v as int) % 0x1_0000_0000 == (sum_of(pre) % 0x1_0000_0000 + v as int) % 0x1_0000_0000);
        }
    }
    assert(picked.subrange(0, positions.len() as int) =~= picked);
    sum
}

/// The elements the sequential pattern reads: all of them, in order.
pub open spec fn sequential_pattern(data: Seq<u32>) -> Seq<u32> {
    data
}

/// The elements the pseudo-random pattern reads: position `(7 i) mod 64`
/// for `i` from 0 to 63.
pub open spec fn scattered_pattern(data: Seq<u32>) -> Seq<u32> {
    Seq::new(64, |i: int| data[(i * 7) % 64])
}

/// The elements the strided pattern reads: every fourth one.
pub open spec fn strided_pattern(data: Seq<u32>) -> Seq<u32> {
    Seq::new(16, |i: int| data[4 * i])
}

/// The three memory access pattern sums of the IPC benchmark over its
/// 64-word test array: sequential, pseudo-random and strided.
pub fn access_pattern_sums(data: &[u32]) -> (r: (u32, u32, u32))
    requires
        data.len() == 64,
    ensures
        r.0 == wrapping_sum(sequential_pattern(data@)),
        r.1 == wrapping_sum(scattered_pattern(data@)),
        r.2 == wrapping_sum(strided_pattern(data@)),
{
    let mut seq_pos: Vec<usize> = Vec::new();
    let mut rnd_pos: Vec<usize> = Vec::new();
    let mut i: usize = 0;
    while i < 64
        invariant
            0 <= i <= 64,
            seq_pos.len() == i,
            rnd_pos.len() == i,
            forall|k: int| 0 <= k < i ==> seq_pos@[k] == k,
            forall|k: int| 0 <= k < i ==> rnd_pos@[k] == (k * 7) % 64,
        decreases 64 - i,
    {
        seq_pos.push(i);
        rnd_pos.push((i * 7) % 64);
        i = i + 1;
    }
    let mut str_pos: Vec<usize> = Vec::new();
    let mut j: usize = 0;
    while j < 64
        invariant
            0 <= j <= 64,
            j % 4 == 0,
            str_pos.len() == j / 4,
            forall|k: int| 0 <= k < str_pos.len() ==> str_pos@[k] == 4 * k,
        decreases 64 - j,
    {
        str_pos.push(j);
        j = j + 4;
    }
    proof {
        assert forall|k: int| 0 <= k < 64 implies rnd_pos@[k] < 64 by {
            lemma_mod_bound(k * 7, 64);
        }
    }
    let a = pattern_sum(data, &seq_pos, Ghost(sequential_pattern(data@)));
    let b = pattern_sum(data, &rnd_pos, Ghost(scattered_pattern(data@)));
    let c = pattern_sum(data, &str_pos, Ghost(strided_pattern(data@)));
    (a, b, c)
}

/// The little-endian bytes of a word.
pub open spec fn le_bytes(x: u32) -> Seq<u8> {
    seq![(x & 0xFF) as u8, ((x >> 8) & 0xFF) as u8, ((x >> 16) & 0xFF) as u8, ((x >> 24) & 0xFF) as u8]
}

/// The word four little-endian bytes spell.
pub open spec fn le_word(b0: u8, b1: u8, b2: u8, b3: u8) -> u32 {
    (b0 as u32) | ((b1 as u32) << 8) | ((b2 as u32) << 16) | ((b3 as u32) << 24)
}

/// A word as four little-endian bytes, as the producer and the shared
/// counter send their counts.
pub fn u32_to_le_bytes(x: u32) -> (r: Vec<u8>)
    ensures
        r@ == le_bytes(x),
{
    let mut r: Vec<u8> = Vec::new();
    r.push((x & 0xFF) as u8);
    r.push(((x >> 8) & 0xFF) as u8);
    r.push(((x >> 16) & 0xFF) as u8);
    r.push(((x >> 24) & 0xFF) as u8);
    assert(r@ =~= le_bytes(x));
    r
}

/// The word in the first four bytes of a message, as the consumer reads
/// the producer's count.
pub fn u32_from_le_bytes(payload: &[u8]) -> (r: u32)
    requires
        payload.len() >= 4,
    ensures
        r == le_word(payload@[0], payload@[1], payload@[2], payload@[3]),
{
    (payload[0] as u32) | ((payload[1] as u32) << 8) | ((payload[2] as u32) << 16) | ((payload[3] as u32) << 24)
}

/// Reading back the bytes of a word gives the word.
pub proof fn lemma_le_round_trip(x: u32)
    ensures
        le_word(le_bytes(x)[0], le_bytes(x)[1], le_bytes(x)[2], le_bytes(x)[3]) == x,
{
    assert((((x & 0xFF) as u8) as u32) | ((((x >> 8) & 0xFF) as u8 as u32) << 8) | ((((x >> 16) & 0xFF) as u8 as u32)
        << 16) | ((((x >> 24) & 0xFF) as u8 as u32) << 24) == x) by (bit_vector);
}

/// The IPC benchmark's message: two marker words, the message index and
/// the iteration, each little-endian.
pub fn benchmark_message(index: u32, iteration: u32) -> (r: Vec<u8>)
    ensures
        r@ == le_bytes(0xCAFE_BABE) + le_bytes(0xDEAD_BEEF) + le_bytes(index) + le_bytes(iteration),
{
    let mut r = u32_to_le_bytes(0xCAFE_BABE);
    let mut b = u32_to_le_bytes(0xDEAD_BEEF);
    r.append(&mut b);
    let mut c = u32_to_le_bytes(index);
    r.append(&mut c);
    let mut d = u32_to_le_bytes(iteration);
    r.append(&mut d);
    r
}

/// The three words the producer writes into shared memory for an
/// iteration: the iteration, twice it and three times it.
pub open spec fn shared_record_of(iteration: u32) -> (u32, u32, u32) {
    (iteration, (iteration * 2) as u32, (iteration * 3) as u32)
}

/// The consumer's test of three shared words against an iteration number.
pub open spec fn record_intact(iteration: u32, v1: u32, v2: u32, v3: u32) -> bool {
    v1 == iteration && v2 == iteration * 2 && v3 == iteration * 3
}

/// The three words the producer writes into shared memory for an iteration.
pub fn shared_record(iteration: u32) -> (r: (u32, u32, u32))
    requires
        iteration * 3 <= u32::MAX,
    ensures
        r == shared_record_of(iteration),
{
    (iteration, iteration * 2, iteration * 3)
}

/// The consumer's integrity check of the three shared words against the
/// iteration number the message carried.
pub fn shared_record_intact(iteration: u32, v1: u32, v2: u32, v3: u32) -> (r: bool)
    requires
        iteration * 3 <= u32::MAX,
    ensures
        r == record_intact(iteration, v1, v2, v3),
{
    v1 == iteration && v2 == iteration * 2 && v3 == iteration * 3
}

/// What the producer writes for an iteration, the consumer accepts for
/// that iteration, and for no other.
pub proof fn lemma_shared_record_accepted(iteration: u32, other: u32)
    requires
        iteration * 3 <= u32::MAX,
    ensures
        record_intact(iteration, shared_record_of(iteration).0, shared_record_of(iteration).1, shared_record_of(iteration).2),
        other != iteration ==> !record_intact(
            other,
            shared_record_of(iteration).0,
            shared_record_of(iteration).1,
            shared_record_of(iteration).2,
        ),
{
}

/// The shared counter reports its count every 500 increments.
pub fn status_due(local_increments: u32) -> (r: bool)
    ensures
        r == (local_increments % 500 == 0 && local_increments > 0),
{
    local_increments % 500 == 0 && local_increments > 0
}

/// The consumer acknowledges every 25 processed messages, with the low byte
/// of the count.
pub fn ack_payload(processed: u32) -> (r: Option<u8>)
    ensures
        processed % 25 == 0 ==> r == Some((processed & 0xFF) as u8),
        processed % 25 != 0 ==> r is None,
{
    if processed % 25 == 0 {
        Some((processed & 0xFF) as u8)
    } else {
        None
    }
}

} // verus!
