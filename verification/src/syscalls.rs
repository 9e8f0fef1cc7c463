//! The calls an application makes: each one traps into the kernel's
//! supervisor-call handler with the call number and its arguments in the
//! stacked registers, and reads the answer back from r0.
use vstd::prelude::*;
use crate::board::{GpioPin, RegisterWrite, BSRR_OFF};
use crate::drivers::{access_granted, mediated_result, GpioHandle, has_empty};
use crate::svc::{
    ExceptionFrame, HwAction, SvcKernel, buffer_view, DRIVER_GPIO_OPERATION, DRIVER_REQUEST_ACCESS, GPIO_TOGGLE,
    GPIO_WRITE, SVC_ERROR, YIELD_CPU,
};

verus! {

/// The kernel state a call leaves alone: the board, the drivers and the
/// clock-read count stay, and the call count advances by one.
pub open spec fn only_counted(old_k: SvcKernel, new_k: SvcKernel) -> bool {
    &&& new_k.svc_counter == (old_k.svc_counter as int + 1) % 0x1_0000_0000
    &&& new_k.now_count == old_k.now_count
    &&& new_k.board == old_k.board
    &&& new_k.registry == old_k.registry
    &&& new_k.gpio == old_k.gpio
}

/// The value the kernel answers a GPIO driver operation with.
pub open spec fn gpio_answer(k: SvcKernel, task_id: usize, op: Seq<u8>) -> u32 {
    match mediated_result(k.gpio.spec_initialized(), k.gpio.spec_authorized(), task_id, op) {
        Ok(GpioHandle::ReadResult(v)) => if v { 1 } else { 0 },
        Ok(_) => 0,
        Err(_) => SVC_ERROR,
    }
}

/// The write operation buffer: opcode 1, the level, the port and the pin.
pub open spec fn write_operation(port: u8, pin: u8, value: bool) -> Seq<u8> {
    seq![1u8, if value { 1u8 } else { 0u8 }, port, pin]
}

/// The read operation buffer: opcode 0, the port and the pin.
pub open spec fn read_operation(port: u8, pin: u8) -> Seq<u8> {
    seq![0u8, port, pin]
}

/// The toggle operation buffer: opcode 3, the port and the pin.
pub open spec fn toggle_operation(port: u8, pin: u8) -> Seq<u8> {
    seq![3u8, port, pin]
}

/// The GPIO driver after an operation by `task_id`: its state and
/// authorizations stay and its configurations follow the operation; the rest
/// of the kernel is left as `only_counted` says, but for the driver.
pub open spec fn gpio_operated(old_k: SvcKernel, new_k: SvcKernel, task_id: usize, op: Seq<u8>) -> bool {
    &&& new_k.svc_counter == (old_k.svc_counter as int + 1) % 0x1_0000_0000
    &&& new_k.now_count == old_k.now_count
    &&& new_k.board == old_k.board
    &&& new_k.registry == old_k.registry
    &&& new_k.gpio.spec_initialized() == old_k.gpio.spec_initialized()
    &&& new_k.gpio.spec_authorized() == old_k.gpio.spec_authorized()
    &&& new_k.gpio.spec_configs() == old_k.gpio.configs_after(task_id, op)
}

/// Trap into the kernel with call `call_id` and arguments `a0`..`a3`.
fn trap(kernel: &mut SvcKernel, call_id: u8, a0: u32, a1: u32, a2: u32, a3: u32, user_buffer: Option<&[u8]>) -> (r: (
    u32,
    HwAction,
))
    requires
        old(kernel).wf(),
        user_buffer matches Some(b) ==> (a2 <= 16 ==> b.len() >= a2),
    ensures
        final(kernel).wf(),
        final(kernel).svc_counter == (old(kernel).svc_counter as int + 1) % 0x1_0000_0000,
        final(kernel).now_count == if call_id == crate::svc::NOW_MS {
            (old(kernel).now_count as int + 1) % 0x1_0000_0000
        } else {
            old(kernel).now_count as int
        },
        (SvcKernel { svc_counter: final(kernel).svc_counter, now_count: final(kernel).now_count, ..*old(kernel) }).dispatch_outcome(
            call_id,
            a0,
            a1,
            a2,
            a3,
            buffer_view(user_buffer),
            *final(kernel),
            r,
        ),
{
    let mut frame = ExceptionFrame { r0: call_id as u32, r1: a0, r2: a1, r3: a2, r12: a3, lr: 0, pc: 0, xpsr: 0 };
    assert(((call_id as u32) & 0xFF) as u8 == call_id) by (bit_vector);
    let act = kernel.svcall(&mut frame, user_buffer);
    (frame.r0, act)
}

/// Drive a pin high or low. The kernel drives LED 1 whatever the pin;
/// returns the register store it asks for.
pub fn gpio_write(kernel: &mut SvcKernel, pin: GpioPin, value: bool) -> (r: HwAction)
    requires
        old(kernel).wf(),
    ensures
        final(kernel).wf(),
        only_counted(*old(kernel), *final(kernel)),
        r == HwAction::Store(RegisterWrite {
            addr: (old(kernel).board.led1.port_base + BSRR_OFF) as u32,
            value: if value { 1u32 << old(kernel).board.led1.pin } else { 1u32 << (old(kernel).board.led1.pin + 16) },
        }),
{
    let (_, act) = trap(kernel, GPIO_WRITE, 0, if value { 1 } else { 0 }, 0, 0, None);
    act
}

/// Toggle a pin. The kernel toggles LED 1 whatever the pin; returns the
/// read-modify-write it asks for.
pub fn gpio_toggle(kernel: &mut SvcKernel, pin: GpioPin) -> (r: HwAction)
    requires
        old(kernel).wf(),
    ensures
        final(kernel).wf(),
        only_counted(*old(kernel), *final(kernel)),
        r == (HwAction::TogglePin { port_base: old(kernel).board.led1.port_base, pin: old(kernel).board.led1.pin }),
{
    let (_, act) = trap(kernel, GPIO_TOGGLE, 0, 0, 0, 0, None);
    act
}

/// Debug output from an application; it is discarded.
pub fn debug_print(app_id: u32, message: &str) {
}

/// Give up the processor: the kernel pends a context switch.
pub fn yield_cpu(kernel: &mut SvcKernel) -> (r: HwAction)
    requires
        old(kernel).wf(),
    ensures
        final(kernel).wf(),
        only_counted(*old(kernel), *final(kernel)),
        r == HwAction::PendSv,
{
    let (_, act) = trap(kernel, YIELD_CPU, 0, 0, 0, 0, None);
    act
}

/// The application tick counter: each reading advances it by one (wrapping)
/// and returns the new count.
pub fn get_system_ticks(ticks: &mut u32) -> (r: u32)
    ensures
        r == (*old(ticks) as int + 1) % 0x1_0000_0000,
        *final(ticks) == r,
{
    *ticks = ticks.wrapping_add(1);
    *ticks
}

/// Hand an operation buffer to the GPIO driver on behalf of `task_id`.
fn driver_operation(kernel: &mut SvcKernel, task_id: usize, op: &Vec<u8>) -> (ret: u32)
    requires
        old(kernel).wf(),
        1 <= op.len() <= 16,
    ensures
        final(kernel).wf(),
        gpio_operated(*old(kernel), *final(kernel), (task_id as u32) as usize, op@),
        ret == gpio_answer(*old(kernel), (task_id as u32) as usize, op@),
{
    let len = op.len() as u32;
    let (ret, _) = trap(kernel, DRIVER_GPIO_OPERATION, task_id as u32, 0, len, 0, Some(op.as_slice()));
    assert(op@.subrange(0, len as int) =~= op@);
    ret
}

/// Drive a pin through the GPIO driver; refused as the driver refuses it.
pub fn driver_gpio_write(kernel: &mut SvcKernel, task_id: usize, port: u8, pin: u8, value: bool) -> (r: Result<
    (),
    &'static str,
>)
    requires
        old(kernel).wf(),
    ensures
        final(kernel).wf(),
        gpio_operated(*old(kernel), *final(kernel), (task_id as u32) as usize, write_operation(port, pin, value)),
        r is Ok <==> mediated_result(
            old(kernel).gpio.spec_initialized(),
            old(kernel).gpio.spec_authorized(),
            (task_id as u32) as usize,
            write_operation(port, pin, value),
        ) is Ok,
        r matches Err(m) ==> m@ == "GPIO write failed"@,
{
    let mut op: Vec<u8> = Vec::new();
    op.push(1);
    op.push(if value { 1 } else { 0 });
    op.push(port);
    op.push(pin);
    assert(op@ =~= write_operation(port, pin, value));
    let ret = driver_operation(kernel, task_id, &op);
    if ret == SVC_ERROR {
        Err("GPIO write failed")
    } else {
        Ok(())
    }
}

/// Read a pin through the GPIO driver.
pub fn driver_gpio_read(kernel: &mut SvcKernel, task_id: usize, port: u8, pin: u8) -> (r: Result<bool, &'static str>)
    requires
        old(kernel).wf(),
    ensures
        final(kernel).wf(),
        gpio_operated(*old(kernel), *final(kernel), (task_id as u32) as usize, read_operation(port, pin)),
        match mediated_result(
            old(kernel).gpio.spec_initialized(),
            old(kernel).gpio.spec_authorized(),
            (task_id as u32) as usize,
            read_operation(port, pin),
        ) {
            Ok(GpioHandle::ReadResult(v)) => r == Ok::<bool, &'static str>(v),
            Ok(_) => r == Ok::<bool, &'static str>(false),
            Err(_) => r matches Err(m) && m@ == "GPIO read failed"@,
        },
{
    let mut op: Vec<u8> = Vec::new();
    op.push(0);
    op.push(port);
    op.push(pin);
    assert(op@ =~= read_operation(port, pin));
    let ret = driver_operation(kernel, task_id, &op);
    if ret == SVC_ERROR {
        Err("GPIO read failed")
    } else {
        Ok(ret != 0)
    }
}

/// Toggle a pin through the GPIO driver.
pub fn driver_gpio_toggle(kernel: &mut SvcKernel, task_id: usize, port: u8, pin: u8) -> (r: Result<
    (),
    &'static str,
>)
    requires
        old(kernel).wf(),
    ensures
        final(kernel).wf(),
        gpio_operated(*old(kernel), *final(kernel), (task_id as u32) as usize, toggle_operation(port, pin)),
        r is Ok <==> mediated_result(
            old(kernel).gpio.spec_initialized(),
            old(kernel).gpio.spec_authorized(),
            (task_id as u32) as usize,
            toggle_operation(port, pin),
        ) is Ok,
        r matches Err(m) ==> m@ == "GPIO toggle failed"@,
{
    let mut op: Vec<u8> = Vec::new();
    op.push(3);
    op.push(port);
    op.push(pin);
    assert(op@ =~= toggle_operation(port, pin));
    let ret = driver_operation(kernel, task_id, &op);
    if ret == SVC_ERROR {
        Err("GPIO toggle failed")
    } else {
        Ok(())
    }
}

/// Ask the kernel for access to peripheral `peripheral_index`, exclusive or
/// shared. Granted when the registry is up and the peripheral exists and is
/// free for the kind of access asked; the task can then use it.
pub fn request_peripheral_access(kernel: &mut SvcKernel, peripheral_index: usize, task_id: usize, exclusive: bool) -> (r:
    Result<(), &'static str>)
    requires
        old(kernel).wf(),
    ensures
        final(kernel).wf(),
        final(kernel).svc_counter == (old(kernel).svc_counter as int + 1) % 0x1_0000_0000,
        final(kernel).now_count == old(kernel).now_count,
        final(kernel).board == old(kernel).board,
        final(kernel).gpio == old(kernel).gpio,
        final(kernel).registry.spec_initialized() == old(kernel).registry.spec_initialized(),
        r is Ok <==> (old(kernel).registry.spec_initialized() && (peripheral_index as u32) < 16 && (
        old(kernel).registry.spec_resources()[(peripheral_index as u32) as int] matches Some(ra) && if exclusive {
            ra.owner_task is None
        } else {
            has_empty(ra.shared_tasks@)
        })),
        r is Ok ==> final(kernel).registry.spec_check_access(
            (peripheral_index as u32) as usize,
            (task_id as u32) as usize,
        ),
        r is Ok ==> access_granted(
            old(kernel).registry,
            final(kernel).registry,
            (peripheral_index as u32) as usize,
            (task_id as u32) as usize,
            exclusive,
        ),
        r is Err ==> final(kernel).registry == old(kernel).registry,
        r matches Err(m) ==> m@ == "Peripheral access request failed"@,
{
    let (ret, _) = trap(
        kernel,
        DRIVER_REQUEST_ACCESS,
        peripheral_index as u32,
        task_id as u32,
        if exclusive { 1 } else { 0 },
        0,
        None,
    );
    if ret == SVC_ERROR {
        Err("Peripheral access request failed")
    } else {
        Ok(())
    }
}

/// The calling task's identifier; every application runs as task 0.
pub fn get_current_task_id() -> (r: usize)
    ensures
        r == 0,
{
    0
}

} // verus!
