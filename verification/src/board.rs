//! The board layer: GPIO register values for the STM32F4 ports, the pins
//! the kernel drives, and the board's millisecond clock.
use vstd::prelude::*;

verus! {

/// Pins that applications may drive.
#[derive(Copy, Clone, Debug, PartialEq, Eq, Structural)]
pub enum GpioPin {
    Led1,
}

/// The index of a pin.
pub fn gpio_pin_to_idx(pin: GpioPin) -> (r: u32)
    ensures
        pin == GpioPin::Led1 ==> r == 0,
{
    match pin {
        GpioPin::Led1 => 0,
    }
}

/// The system calls an application sees.
pub trait Syscalls {
    fn gpio_write(&mut self, pin: GpioPin, high: bool);

    fn gpio_toggle(&mut self, pin: GpioPin);

    fn sleep_ms(&mut self, ms: u32);

    fn now_ms(&self) -> u64;
}

/// Clock enable register of the AHB1 bus.
pub const RCC_AHB1ENR: u32 = 0x4002_3830;
/// GPIO port A.
pub const GPIOA_BASE: u32 = 0x4002_0000;
/// GPIO port C.
pub const GPIOC_BASE: u32 = 0x4002_0800;
/// Register offsets within a GPIO port.
pub const MODER_OFF: u32 = 0x00;
pub const OTYPER_OFF: u32 = 0x04;
pub const PUPDR_OFF: u32 = 0x0C;
pub const IDR_OFF: u32 = 0x10;
pub const ODR_OFF: u32 = 0x14;
pub const BSRR_OFF: u32 = 0x18;

/// A value to store into a memory-mapped register.
#[derive(Copy, Clone, Debug, PartialEq, Eq, Structural)]
pub struct RegisterWrite {
    pub addr: u32,
    pub value: u32,
}

/// The two-bit field of pin `p` in a mode or pull register.
pub open spec fn field2(v: u32, p: u32) -> u32 {
    (v >> (2 * p) as u32) & 3
}

/// Bit `p` of a register.
pub open spec fn bit(v: u32, p: u32) -> u32 {
    (v >> p) & 1
}

/// The clock enable bit of a port: 0 for port A, 2 for port C.
pub open spec fn clock_bit(port_base: u32) -> u32 {
    if port_base == GPIOA_BASE { 0 } else { 2 }
}

/// The clock enable register with port `port_base`'s clock switched on
/// (only ports A and C are used).
pub fn gpio_enable_clock(port_base: u32, ahb1enr: u32) -> (r: u32)
    requires
        port_base == GPIOA_BASE || port_base == GPIOC_BASE,
    ensures
        r == ahb1enr | (1u32 << clock_bit(port_base)),
{
    let b: u32 = if port_base == GPIOA_BASE { 0 } else { 2 };
    ahb1enr | (1u32 << b)
}

/// The mode, output type and pull registers after making pin `pin` a
/// push-pull output without pull: mode field 01, type bit 0, pull field 00;
/// every other pin keeps its settings.
pub fn gpio_set_output(pin: u8, moder: u32, otyper: u32, pupdr: u32) -> (r: (u32, u32, u32))
    requires
        pin < 16,
    ensures
        field2(r.0, pin as u32) == 1,
        bit(r.1, pin as u32) == 0,
        field2(r.2, pin as u32) == 0,
        forall|q: u32| q < 16 && q != pin ==> field2(r.0, q) == field2(moder, q) && bit(r.1, q) == bit(otyper, q)
            && field2(r.2, q) == field2(pupdr, q),
{
    let shift: u32 = (pin as u32) * 2;
    let p: u32 = pin as u32;
    let new_moder = (moder & !(3u32 << shift)) | (1u32 << shift);
    let new_otyper = otyper & !(1u32 << p);
    let new_pupdr = pupdr & !(3u32 << shift);
    assert({
        &&& (((new_moder >> shift) & 3u32) == 1u32)
        &&& (((new_otyper >> p) & 1u32) == 0u32)
        &&& (((new_pupdr >> shift) & 3u32) == 0u32)
    }) by (bit_vector)
        requires
            p < 16,
            shift == p * 2,
            new_moder == (moder & !(3u32 << shift)) | (1u32 << shift),
            new_otyper == otyper & !(1u32 << p),
            new_pupdr == pupdr & !(3u32 << shift),
    ;
    assert forall|q: u32| q < 16 && q != pin implies field2(new_moder, q) == field2(moder, q) && bit(new_otyper, q)
        == bit(otyper, q) && field2(new_pupdr, q) == field2(pupdr, q) by {
        let sq = (2 * q) as u32;
        assert({
            &&& ((new_moder >> sq) & 3u32) == ((moder >> sq) & 3u32)
            &&& ((new_otyper >> q) & 1u32) == ((otyper >> q) & 1u32)
            &&& ((new_pupdr >> sq) & 3u32) == ((pupdr >> sq) & 3u32)
        }) by (bit_vector)
            requires
                p < 16,
                q < 16,
                q != p,
                shift == p * 2,
                sq == q * 2,
                new_moder == (moder & !(3u32 << shift)) | (1u32 << shift),
                new_otyper == otyper & !(1u32 << p),
                new_pupdr == pupdr & !(3u32 << shift),
        ;
    }
    (new_moder, new_otyper, new_pupdr)
}

/// The mode and pull registers after making pin `pin` an input with
/// pull-up: mode field 00, pull field 01; every other pin keeps its settings.
pub fn gpio_set_input_pullup(pin: u8, moder: u32, pupdr: u32) -> (r: (u32, u32))
    requires
        pin < 16,
    ensures
        field2(r.0, pin as u32) == 0,
        field2(r.1, pin as u32) == 1,
        forall|q: u32| q < 16 && q != pin ==> field2(r.0, q) == field2(moder, q) && field2(r.1, q) == field2(pupdr, q),
{
    let shift: u32 = (pin as u32) * 2;
    let p: u32 = pin as u32;
    let new_moder = moder & !(3u32 << shift);
    let new_pupdr = (pupdr & !(3u32 << shift)) | (1u32 << shift);
    assert((((new_moder >> shift) & 3u32) == 0u32) && (((new_pupdr >> shift) & 3u32) == 1u32)) by (bit_vector)
        requires
            p < 16,
            shift == p * 2,
            new_moder == moder & !(3u32 << shift),
            new_pupdr == (pupdr & !(3u32 << shift)) | (1u32 << shift),
    ;
    assert forall|q: u32| q < 16 && q != pin implies field2(new_moder, q) == field2(moder, q) && field2(new_pupdr, q)
        == field2(pupdr, q) by {
        let sq = (2 * q) as u32;
        assert(((new_moder >> sq) & 3u32) == ((moder >> sq) & 3u32) && ((new_pupdr >> sq) & 3u32) == ((pupdr
            >> sq) & 3u32)) by (bit_vector)
            requires
                p < 16,
                q < 16,
                q != p,
                shift == p * 2,
                sq == q * 2,
                new_moder == moder & !(3u32 << shift),
                new_pupdr == (pupdr & !(3u32 << shift)) | (1u32 << shift),
        ;
    }
    (new_moder, new_pupdr)
}

/// The bit-set/reset store that drives pin `pin` high (set bit `pin`) or low
/// (reset bit `pin + 16`).
pub fn gpio_write(port_base: u32, pin: u8, high: bool) -> (r: RegisterWrite)
    requires
        pin < 16,
        port_base + BSRR_OFF <= u32::MAX,
    ensures
        r.addr == port_base + BSRR_OFF,
        r.value == if high { 1u32 << pin } else { 1u32 << (pin + 16) },
{
    let value = if high {
        1u32 << pin
    } else {
        1u32 << (pin + 16)
    };
    RegisterWrite { addr: port_base + BSRR_OFF, value }
}

/// The store that toggles pin `pin`, given the port's output data register:
/// drive it high when it is low, low when it is high.
pub fn gpio_toggle(port_base: u32, pin: u8, odr: u32) -> (r: RegisterWrite)
    requires
        pin < 16,
        port_base + BSRR_OFF <= u32::MAX,
    ensures
        r.addr == port_base + BSRR_OFF,
        r.value == if bit(odr, pin as u32) == 0 { 1u32 << pin } else { 1u32 << (pin + 16) },
{
    gpio_write(port_base, pin, ((odr >> pin) & 1) == 0)
}

/// A pin of a GPIO port.
#[derive(Copy, Clone, Debug, PartialEq, Eq, Structural)]
pub struct RawPin {
    pub port_base: u32,
    pub pin: u8,
}

impl RawPin {
    pub fn new(port_base: u32, pin: u8) -> (r: Self)
        ensures
            r.port_base == port_base,
            r.pin == pin,
    {
        Self { port_base, pin }
    }

    /// A pin the kernel can drive: pin 0 to 15 of port A or C.
    pub open spec fn is_valid(self) -> bool {
        &&& self.pin < 16
        &&& (self.port_base == GPIOA_BASE || self.port_base == GPIOC_BASE)
    }
}

/// The board: the LED, the button and a millisecond clock kept by busy waiting.
#[derive(Copy, Clone, Debug)]
pub struct BoardSyscalls {
    pub led1: RawPin,
    pub btn: RawPin,
    pub time_ms: u64,
    pub cycles_per_ms: u32,
}

impl BoardSyscalls {
    pub fn new(led1: RawPin, btn: RawPin, cycles_per_ms: u32) -> (r: Self)
        ensures
            r.led1 == led1,
            r.btn == btn,
            r.time_ms == 0,
            r.cycles_per_ms == cycles_per_ms,
    {
        Self { led1, btn, time_ms: 0, cycles_per_ms }
    }

    /// Sleep `ms` milliseconds: the clock advances by `ms` (wrapping), and
    /// the busy wait takes `ms * cycles_per_ms` no-op cycles, which this returns.
    pub fn spin_delay(&mut self, ms: u32) -> (cycles: u64)
        ensures
            final(self).time_ms == (old(self).time_ms as int + ms as int) % 0x1_0000_0000_0000_0000,
            cycles == ms as int * old(self).cycles_per_ms as int,
            final(self).led1 == old(self).led1,
            final(self).btn == old(self).btn,
            final(self).cycles_per_ms == old(self).cycles_per_ms,
    {
        let mut i: u32 = 0;
        while i < ms
            invariant
                0 <= i <= ms,
                self.time_ms == (old(self).time_ms as int + i as int) % 0x1_0000_0000_0000_0000,
                self.led1 == old(self).led1,
                self.btn == old(self).btn,
                self.cycles_per_ms == old(self).cycles_per_ms,
            decreases ms - i,
        {
            self.time_ms = self.time_ms.wrapping_add(1);
            i = i + 1;
        }
        assert(ms as int * self.cycles_per_ms as int <= 0xFFFF_FFFF * 0xFFFF_FFFF) by (nonlinear_arith)
            requires
                ms <= 0xFFFF_FFFF,
                self.cycles_per_ms <= 0xFFFF_FFFF,
        ;
        (ms as u64) * (self.cycles_per_ms as u64)
    }

    /// Milliseconds since boot.
    pub fn now_ms(&self) -> (r: u64)
        ensures
            r == self.time_ms,
    {
        self.time_ms
    }
}

/// A privileged handle on one pin; only the kernel holds these.
#[derive(Copy, Clone, Debug, PartialEq, Eq, Structural)]
pub struct GpioPriv {
    pub port_base: u32,
    pub pin: u8,
}

impl GpioPriv {
    pub fn new_privileged_const(port_base: u32, pin: u8) -> (r: Self)
        ensures
            r.port_base == port_base,
            r.pin == pin,
    {
        Self { port_base, pin }
    }

    /// The store that drives the pin.
    pub fn write(&self, high: bool) -> (r: RegisterWrite)
        requires
            self.pin < 16,
            self.port_base + BSRR_OFF <= u32::MAX,
        ensures
            r.addr == self.port_base + BSRR_OFF,
            r.value == if high { 1u32 << self.pin } else { 1u32 << (self.pin + 16) },
    {
        gpio_write(self.port_base, self.pin, high)
    }

    /// The store that toggles the pin, given the output data register.
    pub fn toggle(&self, odr: u32) -> (r: RegisterWrite)
        requires
            self.pin < 16,
            self.port_base + BSRR_OFF <= u32::MAX,
        ensures
            r.addr == self.port_base + BSRR_OFF,
            r.value == if bit(odr, self.pin as u32) == 0 { 1u32 << self.pin } else { 1u32 << (self.pin + 16) },
    {
        gpio_toggle(self.port_base, self.pin, odr)
    }
}

/// Routes pin requests to the privileged pin handles.
pub struct MuxGpio {
    pub led1: &'static GpioPriv,
    pub led2: &'static GpioPriv,
}

impl MuxGpio {
    pub fn new(led1: &'static GpioPriv, led2: &'static GpioPriv) -> (r: Self)
        ensures
            *r.led1 == *led1,
            *r.led2 == *led2,
    {
        Self { led1, led2 }
    }

    /// Drive a pin (LED 1 is the first handle).
    pub fn write(&self, pin: GpioPin, high: bool) -> (r: RegisterWrite)
        requires
            self.led1.pin < 16,
            self.led1.port_base + BSRR_OFF <= u32::MAX,
        ensures
            pin == GpioPin::Led1 ==> r.addr == self.led1.port_base + BSRR_OFF && r.value == if high {
                1u32 << self.led1.pin
            } else {
                1u32 << (self.led1.pin + 16)
            },
    {
        match pin {
            GpioPin::Led1 => self.led1.write(high),
        }
    }

    /// Toggle a pin, given its port's output data register.
    pub fn toggle(&self, pin: GpioPin, odr: u32) -> (r: RegisterWrite)
        requires
            self.led1.pin < 16,
            self.led1.port_base + BSRR_OFF <= u32::MAX,
        ensures
            pin == GpioPin::Led1 ==> r.addr == self.led1.port_base + BSRR_OFF && r.value == if bit(
                odr,
                self.led1.pin as u32,
            ) == 0 {
                1u32 << self.led1.pin
            } else {
                1u32 << (self.led1.pin + 16)
            },
    {
        match pin {
            GpioPin::Led1 => self.led1.toggle(odr),
        }
    }
}

} // verus!
