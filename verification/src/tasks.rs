//! One step of each sample application's loop: the counters it keeps and
//! when it reports, computes or acts. The loops themselves run on the
//! target, between yields.
use vstd::prelude::*;

verus! {

/// Advance a wrapping counter and say whether the new count is a multiple
/// of `period` (a milestone to report).
pub fn milestone_tick(count: u32, period: u32) -> (r: (u32, bool))
    requires
        period > 0,
    ensures
        r.0 == (count as int + 1) % 0x1_0000_0000,
        r.1 == (r.0 % period == 0),
{
    let c = count.wrapping_add(1);
    (c, c % period == 0)
}

/// The Fibonacci task's step: the pair moves one place along the
/// sequence, wrapping at 32 bits.
pub fn fibonacci_step(a: u32, b: u32) -> (r: (u32, u32))
    ensures
        r.0 == b,
        r.1 == (a as int + b as int) % 0x1_0000_0000,
{
    (b, a.wrapping_add(b))
}

/// The wrapping Fibonacci sequence from 0, 1.
pub open spec fn fib_wrapping(n: nat) -> u32
    decreases n,
{
    if n == 0 {
        0
    } else if n == 1 {
        1
    } else {
        ((fib_wrapping((n - 2) as nat) as int + fib_wrapping((n - 1) as nat) as int) % 0x1_0000_0000) as u32
    }
}

/// A step from the `n`-th and `n+1`-th numbers gives the `n+1`-th and
/// `n+2`-th: from (0, 1), the pair stays on the sequence.
pub proof fn lemma_fibonacci_steps(n: nat, a: u32, b: u32)
    requires
        a == fib_wrapping(n),
        b == fib_wrapping(n + 1),
    ensures
        b == fib_wrapping(n + 1),
        ((a as int + b as int) % 0x1_0000_0000) as u32 == fib_wrapping(n + 2),
{
}

/// The calculator task's step.
pub fn math_step(result: u32) -> (r: u32)
    ensures
        r == ((result as int * 2 + 1) % 0x1_0000_0000) % 1000,
{
    assert(result.wrapping_mul(2) == (result as int * 2) % 0x1_0000_0000) by (bit_vector);
    result.wrapping_mul(2).wrapping_add(1) % 1000
}

/// The network task's step: one more 64-byte packet; a milestone every
/// thousand packets.
pub fn network_step(packets: u32, bytes: u32) -> (r: (u32, u32, bool))
    ensures
        r.0 == (packets as int + 1) % 0x1_0000_0000,
        r.1 == (bytes as int + 64) % 0x1_0000_0000,
        r.2 == (r.0 % 1000 == 0),
{
    let p = packets.wrapping_add(1);
    let b = bytes.wrapping_add(64);
    (p, b, p % 1000 == 0)
}

/// The GPIO monitor's step: every thousandth check counts a state change,
/// and every third change is reported.
pub fn gpio_monitor_step(count: u32, changes: u32) -> (r: (u32, u32, bool))
    ensures
        r.0 == (count as int + 1) % 0x1_0000_0000,
        r.0 % 1000 == 0 ==> r.1 == (changes as int + 1) % 0x1_0000_0000 && r.2 == (r.1 % 3 == 0),
        r.0 % 1000 != 0 ==> r.1 == changes && !r.2,
{
    let c = count.wrapping_add(1);
    if c % 1000 == 0 {
        let ch = changes.wrapping_add(1);
        (c, ch, ch % 3 == 0)
    } else {
        (c, changes, false)
    }
}

/// The power manager's step: a battery report every 15 checks and a
/// power-saving assessment every 50.
pub fn power_manager_step(checks: u32) -> (r: (u32, bool, bool))
    ensures
        r.0 == (checks as int + 1) % 0x1_0000_0000,
        r.1 == (r.0 % 15 == 0),
        r.2 == (r.0 % 50 == 0),
{
    let c = checks.wrapping_add(1);
    (c, c % 15 == 0, c % 50 == 0)
}

/// The memory violator's step: three attempts, then the count restarts.
pub fn violator_step(test_count: u32) -> (r: (u32, bool))
    requires
        test_count < 3,
    ensures
        test_count + 1 >= 3 ==> r == (0u32, true),
        test_count + 1 < 3 ==> r == ((test_count + 1) as u32, false),
{
    let t = test_count + 1;
    if t >= 3 {
        (0, true)
    } else {
        (t, false)
    }
}

/// The MMIO test's step: toggle LED pin 5 through the driver every ten
/// thousand iterations, and try a direct register write every fifty thousand.
pub fn mmio_test_step(counter: u32) -> (r: (u32, bool, bool))
    ensures
        r.0 == (counter as int + 1) % 0x1_0000_0000,
        r.1 == (r.0 % 10000 == 0),
        r.2 == (r.0 % 50000 == 0),
{
    let c = counter.wrapping_add(1);
    (c, c % 10000 == 0, c % 50000 == 0)
}

/// The kernel's idle loop step: a status line every million rounds, and
/// the first context switch pended at round ten thousand.
pub fn idle_step(counter: u32) -> (r: (u32, bool, bool))
    ensures
        r.0 == (counter as int + 1) % 0x1_0000_0000,
        r.1 == (r.0 % 1000000 == 0),
        r.2 == (r.0 == 10000),
{
    let c = counter.wrapping_add(1);
    (c, c % 1000000 == 0, c == 10000)
}

} // verus!
