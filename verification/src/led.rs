//! Status LED signalling: the output data register values that switch the
//! LED, and the blink patterns the kernel shows in each situation.
use vstd::prelude::*;

verus! {

/// The output data register the status LED is driven through.
pub const LED_ODR_ADDR: u32 = 0x4000_0014;
/// The LED's bit in that register.
pub const LED_BIT: u32 = 5;

/// The register value that lights the LED, the other bits kept.
pub fn led_on_value(odr: u32) -> (r: u32)
    ensures
        r == odr | (1u32 << 5u32),
{
    odr | (1u32 << LED_BIT)
}

/// The register value that darkens the LED, the other bits kept.
pub fn led_off_value(odr: u32) -> (r: u32)
    ensures
        r == odr & !(1u32 << 5u32),
{
    odr & !(1u32 << LED_BIT)
}

/// Switching the LED on then off leaves the other bits as they were, and
/// so does switching it off then on.
pub proof fn lemma_led_bit_only(odr: u32)
    ensures
        (odr | (1u32 << 5u32)) & !(1u32 << 5u32) == odr & !(1u32 << 5u32),
        (odr & !(1u32 << 5u32)) | (1u32 << 5u32) == odr | (1u32 << 5u32),
        (odr | (1u32 << 5u32)) & (1u32 << 5u32) != 0,
        (odr & !(1u32 << 5u32)) & (1u32 << 5u32) == 0,
{
    assert((odr | (1u32 << 5u32)) & !(1u32 << 5u32) == odr & !(1u32 << 5u32)) by (bit_vector);
    assert((odr & !(1u32 << 5u32)) | (1u32 << 5u32) == odr | (1u32 << 5u32)) by (bit_vector);
    assert((odr | (1u32 << 5u32)) & (1u32 << 5u32) != 0) by (bit_vector);
    assert((odr & !(1u32 << 5u32)) & (1u32 << 5u32) == 0) by (bit_vector);
}

/// One step of a blink pattern: switch the LED on or off, then wait
/// `delay_cycles` no-op cycles.
#[derive(Copy, Clone, Debug, PartialEq, Eq, Structural)]
pub struct BlinkStep {
    pub on: bool,
    pub delay_cycles: u32,
}

/// `period` played `n` times over.
pub open spec fn repeated(period: Seq<BlinkStep>, n: nat) -> Seq<BlinkStep>
    decreases n,
{
    if n == 0 {
        Seq::empty()
    } else {
        repeated(period, (n - 1) as nat) + period
    }
}

/// On and off with the same wait.
pub open spec fn flash(cycles: u32) -> Seq<BlinkStep> {
    seq![BlinkStep { on: true, delay_cycles: cycles }, BlinkStep { on: false, delay_cycles: cycles }]
}

/// The memory fault period: three short flashes and a long pause.
pub open spec fn memory_fault_period() -> Seq<BlinkStep> {
    seq![
        BlinkStep { on: true, delay_cycles: 100000 },
        BlinkStep { on: false, delay_cycles: 100000 },
        BlinkStep { on: true, delay_cycles: 100000 },
        BlinkStep { on: false, delay_cycles: 100000 },
        BlinkStep { on: true, delay_cycles: 100000 },
        BlinkStep { on: false, delay_cycles: 300000 },
    ]
}

/// Play `period` `n` times.
fn repeat_pattern(period: &Vec<BlinkStep>, n: u32) -> (r: Vec<BlinkStep>)
    ensures
        r@ == repeated(period@, n as nat),
{
    let mut r: Vec<BlinkStep> = Vec::new();
    let mut k: u32 = 0;
    while k < n
        invariant
            0 <= k <= n,
            r@ == repeated(period@, k as nat),
        decreases n - k,
    {
        let mut j: usize = 0;
        let ghost start = r@;
        while j < period.len()
            invariant
                0 <= j <= period.len(),
                r@ == start + period@.subrange(0, j as int),
            decreases period.len() - j,
        {
            r.push(period[j]);
            j = j + 1;
            assert(r@ =~= start + period@.subrange(0, j as int));
        }
        assert(period@.subrange(0, period.len() as int) =~= period@);
        k = k + 1;
    }
    r
}

/// The flash pattern for `cycles`.
fn flash_steps(cycles: u32) -> (r: Vec<BlinkStep>)
    ensures
        r@ == flash(cycles),
{
    let mut r: Vec<BlinkStep> = Vec::new();
    r.push(BlinkStep { on: true, delay_cycles: cycles });
    r.push(BlinkStep { on: false, delay_cycles: cycles });
    assert(r@ =~= flash(cycles));
    r
}

/// "The demo task is alive": two flashes.
pub fn signal_demo_alive() -> (r: Vec<BlinkStep>)
    ensures
        r@ == repeated(flash(50000), 2),
{
    repeat_pattern(&flash_steps(50000), 2)
}

/// "The counter task is alive": three flashes.
pub fn signal_counter_alive() -> (r: Vec<BlinkStep>)
    ensures
        r@ == repeated(flash(50000), 3),
{
    repeat_pattern(&flash_steps(50000), 3)
}

/// "The Fibonacci task is alive": one long flash.
pub fn signal_fibonacci_alive() -> (r: Vec<BlinkStep>)
    ensures
        r@ == seq![BlinkStep { on: true, delay_cycles: 800000 }, BlinkStep { on: false, delay_cycles: 0 }],
{
    let mut r: Vec<BlinkStep> = Vec::new();
    r.push(BlinkStep { on: true, delay_cycles: 800000 });
    r.push(BlinkStep { on: false, delay_cycles: 0 });
    assert(r@ =~= seq![BlinkStep { on: true, delay_cycles: 800000 }, BlinkStep { on: false, delay_cycles: 0 }]);
    r
}

/// "A memory management fault happened": three times three short flashes
/// and a pause.
pub fn signal_memory_fault() -> (r: Vec<BlinkStep>)
    ensures
        r@ == repeated(memory_fault_period(), 3),
{
    let mut period: Vec<BlinkStep> = Vec::new();
    period.push(BlinkStep { on: true, delay_cycles: 100000 });
    period.push(BlinkStep { on: false, delay_cycles: 100000 });
    period.push(BlinkStep { on: true, delay_cycles: 100000 });
    period.push(BlinkStep { on: false, delay_cycles: 100000 });
    period.push(BlinkStep { on: true, delay_cycles: 100000 });
    period.push(BlinkStep { on: false, delay_cycles: 300000 });
    assert(period@ =~= memory_fault_period());
    repeat_pattern(&period, 3)
}

/// "A hard fault happened": a fast flash, repeated without end; this is
/// one period of it.
pub fn signal_hard_fault() -> (r: Vec<BlinkStep>)
    ensures
        r@ == flash(25000),
{
    flash_steps(25000)
}

/// The scheduler's heartbeat: one short flash.
pub fn heartbeat_led() -> (r: Vec<BlinkStep>)
    ensures
        r@ == seq![BlinkStep { on: true, delay_cycles: 25000 }, BlinkStep { on: false, delay_cycles: 0 }],
{
    let mut r: Vec<BlinkStep> = Vec::new();
    r.push(BlinkStep { on: true, delay_cycles: 25000 });
    r.push(BlinkStep { on: false, delay_cycles: 0 });
    assert(r@ =~= seq![BlinkStep { on: true, delay_cycles: 25000 }, BlinkStep { on: false, delay_cycles: 0 }]);
    r
}

} // verus!
