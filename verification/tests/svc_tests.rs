use mini_os::board::{
    gpio_enable_clock, gpio_pin_to_idx, gpio_set_input_pullup, gpio_set_output, gpio_toggle, gpio_write, BoardSyscalls,
    GpioPin, GpioPriv, MuxGpio, RawPin, RegisterWrite, GPIOA_BASE, GPIOC_BASE,
};
use mini_os::drivers::{grant_gpio_access, init_gpio_driver};
use mini_os::svc::{
    ExceptionFrame, HwAction, SvcKernel, DRIVER_GPIO_OPERATION, DRIVER_RELEASE_ACCESS, DRIVER_REQUEST_ACCESS,
    GPIO_TOGGLE, GPIO_WRITE, NOW_MS, SLEEP_MS, SVC_ERROR, YIELD_CPU,
};
use mini_os::syscalls::{
    debug_print, driver_gpio_read, driver_gpio_toggle, driver_gpio_write, get_current_task_id, get_system_ticks,
    gpio_toggle as app_gpio_toggle, gpio_write as app_gpio_write, request_peripheral_access, yield_cpu,
};

fn kernel() -> SvcKernel {
    SvcKernel::new(BoardSyscalls::new(RawPin::new(GPIOA_BASE, 5), RawPin::new(GPIOC_BASE, 13), 16_000))
}

fn frame(r0: u32, r1: u32, r2: u32, r3: u32, r12: u32) -> ExceptionFrame {
    ExceptionFrame { r0, r1, r2, r3, r12, lr: 0xFFFF_FFFD, pc: 0x0800_1234, xpsr: 0x0100_0000 }
}

#[test]
fn board_register_values() {
    assert_eq!(gpio_pin_to_idx(GpioPin::Led1), 0);
    assert_eq!(gpio_enable_clock(GPIOA_BASE, 0x0000_0010), 0x0000_0011);
    assert_eq!(gpio_enable_clock(GPIOC_BASE, 0), 4);
    assert_eq!(gpio_set_output(5, 0xFFFF_FFFF, 0xFFFF, 0xFFFF_FFFF), (0xFFFF_F7FF, 0xFFDF, 0xFFFF_F3FF));
    assert_eq!(gpio_set_input_pullup(13, 0xFFFF_FFFF, 0), (0xF3FF_FFFF, 0x0400_0000));
    assert_eq!(gpio_write(GPIOA_BASE, 5, true), RegisterWrite { addr: 0x4002_0018, value: 0x20 });
    assert_eq!(gpio_write(GPIOA_BASE, 5, false), RegisterWrite { addr: 0x4002_0018, value: 0x20_0000 });
    assert_eq!(gpio_toggle(GPIOA_BASE, 5, 0x20), RegisterWrite { addr: 0x4002_0018, value: 0x20_0000 });
    assert_eq!(gpio_toggle(GPIOA_BASE, 5, 0), RegisterWrite { addr: 0x4002_0018, value: 0x20 });
}

#[test]
fn privileged_pins_and_mux() {
    let led1: &'static GpioPriv = Box::leak(Box::new(GpioPriv { port_base: GPIOA_BASE, pin: 5 }));
    let led2: &'static GpioPriv = Box::leak(Box::new(GpioPriv { port_base: GPIOC_BASE, pin: 7 }));
    let p = GpioPriv::new_privileged_const(GPIOA_BASE, 5);
    assert_eq!(p.write(true), RegisterWrite { addr: 0x4002_0018, value: 0x20 });
    assert_eq!(p.toggle(0x20), RegisterWrite { addr: 0x4002_0018, value: 0x20_0000 });
    let mux = MuxGpio::new(led1, led2);
    assert_eq!(mux.write(GpioPin::Led1, false), RegisterWrite { addr: 0x4002_0018, value: 0x20_0000 });
    assert_eq!(mux.toggle(GpioPin::Led1, 0), RegisterWrite { addr: 0x4002_0018, value: 0x20 });
}

#[test]
fn board_clock_advances_by_sleeping() {
    let mut b = BoardSyscalls::new(RawPin::new(GPIOA_BASE, 5), RawPin::new(GPIOC_BASE, 13), 16_000);
    assert_eq!(b.now_ms(), 0);
    assert_eq!(b.spin_delay(250), 4_000_000);
    assert_eq!(b.now_ms(), 250);
}

#[test]
fn dispatch_board_calls() {
    let mut k = kernel();
    assert_eq!(k.kernel_dispatch(NOW_MS, 0, 0, 0, 0, None), (0, HwAction::Nothing));
    assert_eq!(k.kernel_dispatch(SLEEP_MS, 5, 0, 0, 0, None), (0, HwAction::Spin(80_000)));
    assert_eq!(k.kernel_dispatch(NOW_MS, 0, 0, 0, 0, None), (5, HwAction::Nothing));
    assert_eq!(
        k.kernel_dispatch(GPIO_WRITE, 0, 1, 0, 0, None),
        (0, HwAction::Store(RegisterWrite { addr: 0x4002_0018, value: 0x20 }))
    );
    assert_eq!(
        k.kernel_dispatch(GPIO_WRITE, 0, 0, 0, 0, None),
        (0, HwAction::Store(RegisterWrite { addr: 0x4002_0018, value: 0x20_0000 }))
    );
    assert_eq!(
        k.kernel_dispatch(GPIO_TOGGLE, 0, 0, 0, 0, None),
        (0, HwAction::TogglePin { port_base: GPIOA_BASE, pin: 5 })
    );
    assert_eq!(k.kernel_dispatch(YIELD_CPU, 0, 0, 0, 0, None), (0, HwAction::PendSv));
    assert_eq!(k.kernel_dispatch(99, 0, 0, 0, 0, None), (SVC_ERROR, HwAction::Nothing));
    assert_eq!(k.kernel_dispatch(0, 0, 0, 0, 0, None), (SVC_ERROR, HwAction::Nothing));
}

#[test]
fn dispatch_driver_calls() {
    let mut k = kernel();
    let read_pin2: [u8; 3] = [0, 0, 2];
    assert_eq!(k.kernel_dispatch(DRIVER_GPIO_OPERATION, 1, 0x2000_0100, 3, 0, Some(&read_pin2)), (SVC_ERROR, HwAction::Nothing));
    init_gpio_driver(&mut k.gpio).unwrap();
    grant_gpio_access(&mut k.gpio, 1).unwrap();
    assert_eq!(k.kernel_dispatch(DRIVER_GPIO_OPERATION, 1, 0x2000_0100, 3, 0, Some(&read_pin2)), (1, HwAction::Nothing));
    let read_pin3: [u8; 3] = [0, 0, 3];
    assert_eq!(k.kernel_dispatch(DRIVER_GPIO_OPERATION, 1, 0x2000_0100, 3, 0, Some(&read_pin3)), (0, HwAction::Nothing));
    assert_eq!(k.kernel_dispatch(DRIVER_GPIO_OPERATION, 1, 0, 3, 0, None), (SVC_ERROR, HwAction::Nothing));
    assert_eq!(k.kernel_dispatch(DRIVER_GPIO_OPERATION, 1, 0x2000_0100, 0, 0, Some(&read_pin2)), (SVC_ERROR, HwAction::Nothing));
    let long = [0u8; 20];
    assert_eq!(k.kernel_dispatch(DRIVER_GPIO_OPERATION, 1, 0x2000_0100, 17, 0, Some(&long)), (SVC_ERROR, HwAction::Nothing));
    assert_eq!(k.kernel_dispatch(DRIVER_GPIO_OPERATION, 2, 0x2000_0100, 3, 0, Some(&read_pin2)), (SVC_ERROR, HwAction::Nothing));

    assert_eq!(k.kernel_dispatch(DRIVER_REQUEST_ACCESS, 0, 1, 1, 0, None), (SVC_ERROR, HwAction::Nothing));
    k.registry.init().unwrap();
    assert_eq!(k.kernel_dispatch(DRIVER_REQUEST_ACCESS, 0, 1, 1, 0, None), (0, HwAction::Nothing));
    assert!(k.registry.check_access(0, 1));
    assert_eq!(k.kernel_dispatch(DRIVER_REQUEST_ACCESS, 0, 2, 1, 0, None), (SVC_ERROR, HwAction::Nothing));
    assert_eq!(k.kernel_dispatch(DRIVER_RELEASE_ACCESS, 0, 1, 0, 0, None), (0, HwAction::Nothing));
    assert!(!k.registry.check_access(0, 1));
    assert_eq!(k.kernel_dispatch(DRIVER_RELEASE_ACCESS, 0, 1, 0, 0, None), (SVC_ERROR, HwAction::Nothing));
}

#[test]
fn svcall_counts_and_answers_in_r0() {
    let mut k = kernel();
    let mut f = frame(0x0000_0101, 0, 0, 0, 0);
    assert_eq!(k.svcall(&mut f, None), HwAction::Nothing);
    assert_eq!(f.r0, 0);
    assert_eq!(f.pc, 0x0800_1234);
    assert_eq!(k.svc_stats(), (1, 1));
    let mut g = frame(YIELD_CPU as u32, 0, 0, 0, 0);
    assert_eq!(k.svcall(&mut g, None), HwAction::PendSv);
    assert_eq!(g.r0, 0);
    assert_eq!(k.svc_stats(), (2, 1));
    let mut h = frame(0x42, 0, 0, 0, 0);
    assert_eq!(k.svcall(&mut h, None), HwAction::Nothing);
    assert_eq!(h.r0, SVC_ERROR);
    assert_eq!(k.svc_stats(), (3, 1));
}

#[test]
fn svc_counter_wraps() {
    let mut k = kernel();
    k.svc_counter = u32::MAX;
    let mut f = frame(NOW_MS as u32, 0, 0, 0, 0);
    k.svcall(&mut f, None);
    assert_eq!(k.svc_stats(), (0, 1));
}

#[test]
fn application_calls_reach_the_board() {
    let mut k = kernel();
    assert_eq!(
        app_gpio_write(&mut k, GpioPin::Led1, true),
        HwAction::Store(RegisterWrite { addr: 0x4002_0018, value: 0x20 })
    );
    assert_eq!(app_gpio_toggle(&mut k, GpioPin::Led1), HwAction::TogglePin { port_base: GPIOA_BASE, pin: 5 });
    assert_eq!(yield_cpu(&mut k), HwAction::PendSv);
    assert_eq!(k.svc_stats(), (3, 0));
    debug_print(1, "ignored");
    assert_eq!(get_current_task_id(), 0);
}

#[test]
fn application_driver_calls_match_the_driver() {
    let mut k = kernel();
    assert_eq!(driver_gpio_write(&mut k, 1, 0, 5, true), Err("GPIO write failed"));
    assert_eq!(driver_gpio_read(&mut k, 1, 0, 2), Err("GPIO read failed"));
    assert_eq!(driver_gpio_toggle(&mut k, 1, 0, 5), Err("GPIO toggle failed"));
    init_gpio_driver(&mut k.gpio).unwrap();
    grant_gpio_access(&mut k.gpio, 1).unwrap();
    assert_eq!(driver_gpio_write(&mut k, 1, 0, 5, true), Ok(()));
    assert_eq!(driver_gpio_write(&mut k, 1, 9, 5, true), Err("GPIO write failed"));
    assert_eq!(driver_gpio_read(&mut k, 1, 0, 2), Ok(true));
    assert_eq!(driver_gpio_read(&mut k, 1, 0, 3), Ok(false));
    assert_eq!(driver_gpio_read(&mut k, 1, 0, 16), Err("GPIO read failed"));
    assert_eq!(driver_gpio_toggle(&mut k, 1, 0, 5), Ok(()));
    assert_eq!(driver_gpio_toggle(&mut k, 2, 0, 5), Err("GPIO toggle failed"));
    assert_eq!(k.svc_stats(), (10, 0));
}

#[test]
fn application_access_requests() {
    let mut k = kernel();
    assert_eq!(request_peripheral_access(&mut k, 0, 1, true), Err("Peripheral access request failed"));
    k.registry.init().unwrap();
    assert_eq!(request_peripheral_access(&mut k, 0, 1, true), Ok(()));
    assert!(k.registry.check_access(0, 1));
    assert_eq!(request_peripheral_access(&mut k, 0, 2, true), Err("Peripheral access request failed"));
    assert_eq!(request_peripheral_access(&mut k, 0, 2, false), Ok(()));
    assert_eq!(request_peripheral_access(&mut k, 7, 2, false), Err("Peripheral access request failed"));
}

#[test]
fn tick_counter_wraps() {
    let mut t = 0u32;
    assert_eq!(get_system_ticks(&mut t), 1);
    assert_eq!(get_system_ticks(&mut t), 2);
    let mut m = u32::MAX;
    assert_eq!(get_system_ticks(&mut m), 0);
    assert_eq!(m, 0);
}

#[test]
fn application_side_driver_helpers() {
    assert_eq!(mini_os::svc::gpio_toggle_operation(0, 5), [3, 0, 5]);
    assert_eq!(mini_os::svc::gpio_toggle_operation(2, 13), [3, 2, 13]);
    assert_eq!(mini_os::svc::driver_call_outcome(0xFFFF_FFFF, "GPIO toggle failed"), Err("GPIO toggle failed"));
    assert_eq!(mini_os::svc::driver_call_outcome(0, "GPIO toggle failed"), Ok(()));
    assert_eq!(mini_os::svc::driver_call_outcome(1, "x"), Ok(()));
}
