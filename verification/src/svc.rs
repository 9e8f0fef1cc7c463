//! The supervisor-call interface: the call numbers, the frame the hardware
//! stacks, and the kernel's dispatcher over the board and the drivers.
use vstd::prelude::*;
use crate::board::{gpio_write, BoardSyscalls, RegisterWrite, BSRR_OFF};
use crate::drivers::{
    access_granted, access_released, gpio_syscall, mediated_result, release_peripheral_access,
    request_peripheral_access, DriverRegistry, GpioDriver, GpioHandle, has_empty,
};

verus! {

pub const NOW_MS: u8 = 1;
pub const GPIO_WRITE: u8 = 2;
pub const GPIO_TOGGLE: u8 = 3;
pub const SLEEP_MS: u8 = 4;
pub const YIELD_CPU: u8 = 5;
pub const DRIVER_GPIO_OPERATION: u8 = 6;
pub const DRIVER_REQUEST_ACCESS: u8 = 7;
pub const DRIVER_RELEASE_ACCESS: u8 = 8;

/// What a failed call returns.
pub const SVC_ERROR: u32 = 0xFFFF_FFFF;

/// The largest operation buffer a task may pass.
pub const MAX_OPERATION_BYTES: u32 = 16;

/// The operation buffer an application passes to toggle `pin` of `port`
/// through the GPIO driver: the toggle code, then the port and the pin.
pub fn gpio_toggle_operation(port: u8, pin: u8) -> (r: [u8; 3])
    ensures
        r@ == seq![3u8, port, pin],
{
    [3u8, port, pin]
}

/// What an application makes of the value a driver call returned: the
/// error value is a failure, with the message `failure`; anything else is
/// success.
pub fn driver_call_outcome(result: u32, failure: &'static str) -> (r: Result<(), &'static str>)
    ensures
        result == SVC_ERROR ==> r == Err::<(), &'static str>(failure),
        result != SVC_ERROR ==> r is Ok,
{
    if result == SVC_ERROR {
        Err(failure)
    } else {
        Ok(())
    }
}

/// The registers that the hardware stacks on exception entry.
#[derive(Copy, Clone, Debug, PartialEq, Eq, Structural)]
pub struct ExceptionFrame {
    pub r0: u32,
    pub r1: u32,
    pub r2: u32,
    pub r3: u32,
    pub r12: u32,
    pub lr: u32,
    pub pc: u32,
    pub xpsr: u32,
}

/// Hardware work that a call leaves for the caller to carry out.
#[derive(Copy, Clone, Debug, PartialEq, Eq, Structural)]
pub enum HwAction {
    /// Nothing.
    Nothing,
    /// Store a value into a register.
    Store(RegisterWrite),
    /// Read the output data register of `port_base`, then store what
    /// `board::gpio_toggle` computes for `pin`.
    TogglePin { port_base: u32, pin: u8 },
    /// Busy-wait this many no-op cycles.
    Spin(u64),
    /// Pend a context switch.
    PendSv,
}

/// The kernel state that supervisor calls act on.
pub struct SvcKernel {
    pub board: BoardSyscalls,
    pub registry: DriverRegistry,
    pub gpio: GpioDriver,
    pub svc_counter: u32,
    pub now_count: u32,
}

/// The value a GPIO operation returns to the task: 1 or 0 for a read,
/// 0 for other successes, the error value for a refusal.
pub open spec fn gpio_return_value(r: Result<GpioHandle, crate::drivers::DriverError>) -> u32 {
    match r {
        Ok(GpioHandle::ReadResult(v)) => if v { 1 } else { 0 },
        Ok(_) => 0,
        Err(_) => SVC_ERROR,
    }
}

/// The operation buffer a call hands the GPIO driver, if its arguments are
/// valid: a non-null address and a length of 1 to 16 bytes.
pub open spec fn operation_buffer(user_buffer: Option<Seq<u8>>, len: u32) -> Option<Seq<u8>> {
    match user_buffer {
        Some(b) => if 0 < len <= MAX_OPERATION_BYTES { Some(b.subrange(0, len as int)) } else { None },
        None => None,
    }
}

/// The bytes of an optional buffer.
pub open spec fn buffer_view(b: Option<&[u8]>) -> Option<Seq<u8>> {
    match b {
        Some(x) => Some(x@),
        None => None,
    }
}

impl SvcKernel {
    pub open spec fn wf(&self) -> bool {
        &&& self.registry.wf()
        &&& self.board.led1.is_valid()
    }

    /// The kernel for a board, with its drivers not yet initialized.
    pub fn new(board: BoardSyscalls) -> (r: Self)
        ensures
            r.board == board,
            r.registry.wf(),
            !r.registry.spec_initialized(),
            !r.gpio.spec_initialized(),
            r.svc_counter == 0,
            r.now_count == 0,
    {
        SvcKernel {
            board,
            registry: DriverRegistry::new(),
            gpio: GpioDriver::new(),
            svc_counter: 0,
            now_count: 0,
        }
    }

    /// The outcome of call `call_id` with arguments `a0`..`a3` on this
    /// kernel: the new kernel `new` and the result `r` (value for the task,
    /// hardware work).
    pub open spec fn dispatch_outcome(
        &self,
        call_id: u8,
        a0: u32,
        a1: u32,
        a2: u32,
        a3: u32,
        user_buffer: Option<Seq<u8>>,
        new: SvcKernel,
        r: (u32, HwAction),
    ) -> bool {
        &&& new.svc_counter == self.svc_counter
        &&& new.now_count == self.now_count
        &&& if call_id == NOW_MS {
            r == (self.board.time_ms as u32, HwAction::Nothing) && new == *self
        } else if call_id == GPIO_WRITE {
            r == (0u32, HwAction::Store(RegisterWrite {
                addr: (self.board.led1.port_base + BSRR_OFF) as u32,
                value: if a1 != 0 { 1u32 << self.board.led1.pin } else { 1u32 << (self.board.led1.pin + 16) },
            })) && new == *self
        } else if call_id == GPIO_TOGGLE {
            r == (0u32, HwAction::TogglePin { port_base: self.board.led1.port_base, pin: self.board.led1.pin })
                && new == *self
        } else if call_id == SLEEP_MS {
            &&& r == (0u32, HwAction::Spin((a0 as int * self.board.cycles_per_ms as int) as u64))
            &&& new.board.time_ms == (self.board.time_ms as int + a0 as int) % 0x1_0000_0000_0000_0000
            &&& new.board.led1 == self.board.led1
            &&& new.board.btn == self.board.btn
            &&& new.board.cycles_per_ms == self.board.cycles_per_ms
            &&& new.registry == self.registry
            &&& new.gpio == self.gpio
        } else if call_id == YIELD_CPU {
            r == (0u32, HwAction::PendSv) && new == *self
        } else if call_id == DRIVER_GPIO_OPERATION {
            &&& r.1 == HwAction::Nothing
            &&& new.board == self.board
            &&& new.registry == self.registry
            &&& match operation_buffer(user_buffer, a2) {
                None => r.0 == SVC_ERROR && new.gpio == self.gpio,
                Some(buf) => {
                    &&& r.0 == gpio_return_value(
                        mediated_result(self.gpio.spec_initialized(), self.gpio.spec_authorized(), a0 as usize, buf),
                    )
                    &&& new.gpio.spec_initialized() == self.gpio.spec_initialized()
                    &&& new.gpio.spec_authorized() == self.gpio.spec_authorized()
                    &&& new.gpio.spec_configs() == self.gpio.configs_after(a0 as usize, buf)
                },
            }
        } else if call_id == DRIVER_REQUEST_ACCESS {
            &&& r.1 == HwAction::Nothing
            &&& new.board == self.board
            &&& new.gpio == self.gpio
            &&& new.registry.wf()
            &&& new.registry.spec_initialized() == self.registry.spec_initialized()
            &&& (r.0 == 0 <==> (self.registry.spec_initialized() && a0 < 16 && (
            self.registry.spec_resources()[a0 as int] matches Some(ra) && if a2 != 0 {
                ra.owner_task is None
            } else {
                has_empty(ra.shared_tasks@)
            })))
            &&& (r.0 != 0 ==> r.0 == SVC_ERROR && new.registry == self.registry)
            &&& (r.0 == 0 ==> new.registry.spec_check_access(a0 as usize, a1 as usize))
            &&& (r.0 == 0 ==> access_granted(self.registry, new.registry, a0 as usize, a1 as usize, a2 != 0))
        } else if call_id == DRIVER_RELEASE_ACCESS {
            &&& r.1 == HwAction::Nothing
            &&& new.board == self.board
            &&& new.gpio == self.gpio
            &&& new.registry.wf()
            &&& new.registry.spec_initialized() == self.registry.spec_initialized()
            &&& (r.0 == 0 <==> self.registry.spec_check_access(a0 as usize, a1 as usize))
            &&& (r.0 != 0 ==> r.0 == SVC_ERROR && new.registry == self.registry)
            &&& (r.0 == 0 ==> access_released(self.registry, new.registry, a0 as usize, a1 as usize))
        } else {
            r == (SVC_ERROR, HwAction::Nothing) && new == *self
        }
    }

    /// Carry out call `call_id` with arguments `a0`..`a3`. For the GPIO
    /// operation, `a1` is the address of the task's buffer and
    /// `user_buffer` its bytes (at least `min(a2, 16)` of them), `None` when
    /// the address is null. Returns the value for the task and the hardware
    /// work to do.
    pub fn kernel_dispatch(
        &mut self,
        call_id: u8,
        a0: u32,
        a1: u32,
        a2: u32,
        a3: u32,
        user_buffer: Option<&[u8]>,
    ) -> (r: (u32, HwAction))
        requires
            old(self).wf(),
            user_buffer matches Some(b) ==> (a2 <= MAX_OPERATION_BYTES ==> b.len() >= a2),
        ensures
            final(self).wf(),
            old(self).dispatch_outcome(call_id, a0, a1, a2, a3, buffer_view(user_buffer), *final(self), r),
    {
        match call_id {
            NOW_MS => (self.board.now_ms() as u32, HwAction::Nothing),
            GPIO_WRITE => {
                let w = gpio_write(self.board.led1.port_base, self.board.led1.pin, a1 != 0);
                (0, HwAction::Store(w))
            },
            GPIO_TOGGLE => (0, HwAction::TogglePin { port_base: self.board.led1.port_base, pin: self.board.led1.pin }),
            SLEEP_MS => {
                let cycles = self.board.spin_delay(a0);
                (0, HwAction::Spin(cycles))
            },
            YIELD_CPU => (0, HwAction::PendSv),
            DRIVER_GPIO_OPERATION => {
                let task_id = a0 as usize;
                let buffer_len = a2 as usize;
                match user_buffer {
                    None => (SVC_ERROR, HwAction::Nothing),
                    Some(b) => {
                        if buffer_len == 0 || buffer_len > 16 {
                            return (SVC_ERROR, HwAction::Nothing);
                        }
                        let mut operation_buffer: Vec<u8> = Vec::new();
                        let mut i: usize = 0;
                        while i < buffer_len
                            invariant
                                0 <= i <= buffer_len,
                                buffer_len <= b.len(),
                                operation_buffer@ == b@.subrange(0, i as int),
                            decreases buffer_len - i,
                        {
                            operation_buffer.push(b[i]);
                            i = i + 1;
                        }
                        match gpio_syscall(&mut self.gpio, task_id, operation_buffer.as_slice()) {
                            Ok(GpioHandle::ReadResult(value)) => (if value { 1 } else { 0 }, HwAction::Nothing),
                            Ok(_) => (0, HwAction::Nothing),
                            Err(_) => (SVC_ERROR, HwAction::Nothing),
                        }
                    },
                }
            },
            DRIVER_REQUEST_ACCESS => {
                let peripheral_index = a0 as usize;
                let task_id = a1 as usize;
                let exclusive = a2 != 0;
                match request_peripheral_access(&mut self.registry, peripheral_index, task_id, exclusive) {
                    Ok(()) => (0, HwAction::Nothing),
                    Err(_) => (SVC_ERROR, HwAction::Nothing),
                }
            },
            DRIVER_RELEASE_ACCESS => {
                let peripheral_index = a0 as usize;
                let task_id = a1 as usize;
                match release_peripheral_access(&mut self.registry, peripheral_index, task_id) {
                    Ok(()) => (0, HwAction::Nothing),
                    Err(_) => (SVC_ERROR, HwAction::Nothing),
                }
            },
            _ => (SVC_ERROR, HwAction::Nothing),
        }
    }

    /// The supervisor-call handler: count the call (and the clock reads),
    /// dispatch on the low byte of r0 with r1, r2, r3 and r12 as arguments,
    /// and return the result in r0.
    pub fn svcall(&mut self, frame: &mut ExceptionFrame, user_buffer: Option<&[u8]>) -> (act: HwAction)
        requires
            old(self).wf(),
            user_buffer matches Some(b) ==> (old(frame).r3 <= MAX_OPERATION_BYTES ==> b.len() >= old(frame).r3),
        ensures
            final(self).wf(),
            final(self).svc_counter == (old(self).svc_counter as int + 1) % 0x1_0000_0000,
            final(self).now_count == if ((old(frame).r0 & 0xFF) as u8) == NOW_MS {
                (old(self).now_count as int + 1) % 0x1_0000_0000
            } else {
                old(self).now_count as int
            },
            *final(frame) == (ExceptionFrame { r0: final(frame).r0, ..*old(frame) }),
            (SvcKernel { svc_counter: final(self).svc_counter, now_count: final(self).now_count, ..*old(self) }).dispatch_outcome(
                (old(frame).r0 & 0xFF) as u8,
                old(frame).r1,
                old(frame).r2,
                old(frame).r3,
                old(frame).r12,
                buffer_view(user_buffer),
                *final(self),
                (final(frame).r0, act),
            ),
    {
        let call_id = (frame.r0 & 0xFF) as u8;
        self.svc_counter = self.svc_counter.wrapping_add(1);
        if call_id == NOW_MS {
            self.now_count = self.now_count.wrapping_add(1);
        }
        let (ret, act) = self.kernel_dispatch(call_id, frame.r1, frame.r2, frame.r3, frame.r12, user_buffer);
        frame.r0 = ret;
        act
    }

    /// Calls made, and clock reads among them.
    pub fn svc_stats(&self) -> (r: (u32, u32))
        ensures
            r == (self.svc_counter, self.now_count),
    {
        (self.svc_counter, self.now_count)
    }
}

} // verus!
