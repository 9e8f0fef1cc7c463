use mini_os::appdecl::{app_declaration, app_stack_layout, parse_app_args, ArgsError, DeclError};
use mini_os::bench::{
    access_pattern_sums, ack_payload, benchmark_message, context_switch_phase_stats, cycle_stats, mpu_overhead_cycles,
    pad_with_first, shared_record, shared_record_intact, status_due, u32_from_le_bytes, u32_to_le_bytes,
    valid_cycle_stats, BenchmarkTotals, CycleCounter, CycleStats,
};
use mini_os::fault::{
    analyze_hard_fault, classify_pc, decode_cfsr, execution_state, privilege_state, usage_fault_flags, ExecutionState,
    PcRegion,
};
use mini_os::led::{
    heartbeat_led, led_off_value, led_on_value, signal_counter_alive, signal_demo_alive, signal_fibonacci_alive,
    signal_hard_fault, signal_memory_fault, BlinkStep,
};
use mini_os::registry::{builtin_apps, AppEntryPoints, AppMetadata, AppRegistry};
use mini_os::tasks::{
    fibonacci_step, gpio_monitor_step, idle_step, math_step, milestone_tick, mmio_test_step, network_step,
    power_manager_step, violator_step,
};
use mini_os::{
    APP_STACK_POOL_BYTES, APP_STACK_POOL_WORDS, GRANT_REGION_SIZE, KERNEL_RAM_SIZE, MAX_APPS, MAX_PROCESSES,
    PROCESS_RAM_BASE, PROCESS_RAM_SIZE, PROCESS_SLOT_SIZE,
};

#[test]
fn layout_constants() {
    assert_eq!(MAX_APPS, 16);
    assert_eq!(APP_STACK_POOL_WORDS * 4, APP_STACK_POOL_BYTES);
    assert_eq!(PROCESS_RAM_BASE, 0x2000_8000);
    assert_eq!(PROCESS_RAM_SIZE, 96 * 1024);
    assert_eq!(KERNEL_RAM_SIZE, 32 * 1024);
    assert_eq!(MAX_PROCESSES as u32 * PROCESS_SLOT_SIZE, PROCESS_RAM_SIZE);
    assert_eq!(GRANT_REGION_SIZE, 1024);
}

#[test]
fn pc_regions() {
    assert_eq!(classify_pc(0x0800_1234), PcRegion::Flash);
    assert_eq!(classify_pc(0x0807_FFFF), PcRegion::Flash);
    assert_eq!(classify_pc(0x0808_0000), PcRegion::Invalid);
    assert_eq!(classify_pc(0x2000_0100), PcRegion::Ram);
    assert_eq!(classify_pc(0x2002_0000), PcRegion::Invalid);
    assert_eq!(classify_pc(0x1000_0000), PcRegion::Invalid);
}

#[test]
fn cfsr_fields() {
    let s = decode_cfsr(0x0001_0082);
    assert_eq!(s.mmfsr, 0x82);
    assert!(s.mmfar_valid);
    assert_eq!(s.bfsr, 0);
    assert!(!s.bfar_valid);
    assert_eq!(s.ufsr, 1);
    let t = decode_cfsr(0x0200_8200);
    assert_eq!(t.mmfsr, 0);
    assert_eq!(t.bfsr, 0x82);
    assert!(t.bfar_valid);
    assert_eq!(t.ufsr, 0x0200);
    let whole = 0xDEAD_BEEFu32;
    let w = decode_cfsr(whole);
    assert_eq!((w.mmfsr as u32) | ((w.bfsr as u32) << 8) | ((w.ufsr as u32) << 16), whole);
}

#[test]
fn usage_fault_causes() {
    let f = usage_fault_flags(0x0301);
    assert!(f.undefinstr);
    assert!(!f.invstate);
    assert!(!f.invpc);
    assert!(!f.nocp);
    assert!(f.unaligned);
    assert!(f.divbyzero);
    let g = usage_fault_flags(0x000E);
    assert!(!g.undefinstr && g.invstate && g.invpc && g.nocp && !g.unaligned && !g.divbyzero);
}

#[test]
fn privilege_and_execution_state() {
    let p = privilege_state(3);
    assert!(!p.privileged);
    assert!(p.uses_psp);
    assert_eq!(execution_state(3), ExecutionState::UnprivilegedThread);
    assert_eq!(execution_state(2), ExecutionState::PrivilegedThread);
    assert_eq!(execution_state(0), ExecutionState::Handler);
    assert_eq!(execution_state(1), ExecutionState::Handler);
}

#[test]
fn hard_fault_analysis() {
    let r = analyze_hard_fault(0x2000_0100, 0x0001_0000, 3);
    assert_eq!(r.pc_region, PcRegion::Ram);
    assert_eq!(r.status.ufsr, 1);
    assert!(r.usage.undefinstr);
    assert!(r.privileged_instruction_suspected);
    let q = analyze_hard_fault(0x0800_0400, 0x0001_0000, 2);
    assert_eq!(q.pc_region, PcRegion::Flash);
    assert!(!q.privileged_instruction_suspected);
    let z = analyze_hard_fault(0x0800_0400, 0x0000_0082, 3);
    assert!(!z.privileged_instruction_suspected);
    assert!(z.status.mmfar_valid);
}

#[test]
fn led_register_values() {
    assert_eq!(led_on_value(0), 0x20);
    assert_eq!(led_on_value(0x20), 0x20);
    assert_eq!(led_off_value(0xFF), 0xDF);
    assert_eq!(led_off_value(led_on_value(0x1234_0001)), 0x1234_0001);
}

#[test]
fn blink_patterns() {
    let on = |c| BlinkStep { on: true, delay_cycles: c };
    let off = |c| BlinkStep { on: false, delay_cycles: c };
    assert_eq!(signal_demo_alive(), vec![on(50000), off(50000), on(50000), off(50000)]);
    assert_eq!(signal_counter_alive().len(), 6);
    assert_eq!(signal_counter_alive()[5], off(50000));
    assert_eq!(signal_fibonacci_alive(), vec![on(800000), off(0)]);
    let m = signal_memory_fault();
    assert_eq!(m.len(), 18);
    assert_eq!(m[5], off(300000));
    assert_eq!(m[6], on(100000));
    assert_eq!(m[17], off(300000));
    assert_eq!(signal_hard_fault(), vec![on(25000), off(25000)]);
    assert_eq!(heartbeat_led(), vec![on(25000), off(0)]);
}

#[test]
fn cycle_counter_rules() {
    assert_eq!(CycleCounter::enable_write(0), Some(1));
    assert_eq!(CycleCounter::enable_write(1), None);
    assert_eq!(CycleCounter::enable_write(0x4000_0000), Some(0x4000_0001));
    assert_eq!(CycleCounter::elapsed(10, 30), 20);
    assert_eq!(CycleCounter::elapsed(0xFFFF_FFF0, 0x10), 0x20);
}

#[test]
fn benchmark_totals() {
    let mut t = BenchmarkTotals::new();
    assert_eq!(t.final_results(), (None, None));
    t.log_mpu_region_time(100);
    t.log_mpu_region_time(20);
    assert_eq!(t.final_results(), (Some(120), None));
    t.log_context_switch_time(50);
    assert_eq!(t.final_results(), (Some(120), Some(50)));
}

#[test]
fn statistics_of_all_samples() {
    assert_eq!(cycle_stats(&[5, 3, 9, 7]), CycleStats { min: 3, max: 9, avg: 6 });
    assert_eq!(cycle_stats(&[4]), CycleStats { min: 4, max: 4, avg: 4 });
    assert_eq!(cycle_stats(&[1, 2]), CycleStats { min: 1, max: 2, avg: 1 });
    assert_eq!(
        cycle_stats(&[u32::MAX, u32::MAX]),
        CycleStats { min: u32::MAX, max: u32::MAX, avg: u32::MAX }
    );
}

#[test]
fn statistics_of_valid_samples() {
    assert_eq!(valid_cycle_stats(&[0, 4, 0, 8]), (CycleStats { min: 4, max: 8, avg: 6 }, 2));
    assert_eq!(valid_cycle_stats(&[0, 0]), (CycleStats { min: u32::MAX, max: 0, avg: 0 }, 0));
    assert_eq!(valid_cycle_stats(&[]), (CycleStats { min: u32::MAX, max: 0, avg: 0 }, 0));
    let all = [5, 3, 9, 7];
    assert_eq!(valid_cycle_stats(&all), (cycle_stats(&all), 4));
}

#[test]
fn context_switch_phase() {
    assert_eq!(pad_with_first(&[7, 3], 5), vec![7, 3, 7, 7, 7]);
    assert_eq!(context_switch_phase_stats(&[100, 200, 300, 400, 500]), CycleStats { min: 100, max: 500, avg: 110 });
    assert_eq!(mpu_overhead_cycles(120, 100), 20);
    assert_eq!(mpu_overhead_cycles(100, 120), -20);
}

#[test]
fn access_patterns() {
    let same = [0x1234_5678u32; 64];
    assert_eq!(access_pattern_sums(&same), (0x8D15_9E00, 0x8D15_9E00, 0x2345_6780));
    let mut ramp = [0u32; 64];
    for i in 0..64 {
        ramp[i] = i as u32;
    }
    assert_eq!(access_pattern_sums(&ramp), (2016, 2016, 480));
    let mut one = [0u32; 64];
    one[7] = 1000;
    one[8] = 1;
    assert_eq!(access_pattern_sums(&one), (1001, 1001, 1));
}

#[test]
fn message_formats() {
    assert_eq!(u32_to_le_bytes(0x1234_5678), vec![0x78, 0x56, 0x34, 0x12]);
    assert_eq!(u32_from_le_bytes(&[0x78, 0x56, 0x34, 0x12, 0xFF]), 0x1234_5678);
    assert_eq!(u32_from_le_bytes(&u32_to_le_bytes(0xCAFE_0001)), 0xCAFE_0001);
    assert_eq!(
        benchmark_message(2, 7),
        vec![0xBE, 0xBA, 0xFE, 0xCA, 0xEF, 0xBE, 0xAD, 0xDE, 2, 0, 0, 0, 7, 0, 0, 0]
    );
}

#[test]
fn shared_memory_records() {
    assert_eq!(shared_record(5), (5, 10, 15));
    let (a, b, c) = shared_record(1000);
    assert!(shared_record_intact(1000, a, b, c));
    assert!(!shared_record_intact(999, a, b, c));
    assert!(!shared_record_intact(5, 5, 10, 16));
}

#[test]
fn reporting_schedules() {
    assert!(status_due(500));
    assert!(status_due(1000));
    assert!(!status_due(0));
    assert!(!status_due(499));
    assert_eq!(ack_payload(25), Some(25));
    assert_eq!(ack_payload(300), Some(44));
    assert_eq!(ack_payload(26), None);
    assert_eq!(ack_payload(0), Some(0));
}

#[test]
fn app_args_parse() {
    let a = parse_app_args(b"id = 20, stack_size = 2048, name = \"benchmark_context_switch\"").unwrap();
    assert_eq!(a.id, Some(20));
    assert_eq!(a.stack_size, Some(2048));
    assert_eq!(a.name, Some(b"benchmark_context_switch".to_vec()));
    let e = parse_app_args(b"").unwrap();
    assert_eq!(e.id, None);
    assert_eq!(e.stack_size, None);
    assert_eq!(e.name, None);
    let b = parse_app_args(b"  id=1 stack_size=2_048usize\n").unwrap();
    assert_eq!(b.id, Some(1));
    assert_eq!(b.stack_size, Some(2048));
    let c = parse_app_args(b"id = 1, id = 2,").unwrap();
    assert_eq!(c.id, Some(2));
}

#[test]
fn app_args_errors() {
    assert_eq!(parse_app_args(b"id = 1, color = 2").err(), Some(ArgsError::UnknownParameter));
    assert_eq!(parse_app_args(b"id 1").err(), Some(ArgsError::ExpectedEquals));
    assert_eq!(parse_app_args(b"= 1").err(), Some(ArgsError::ExpectedIdent));
    assert_eq!(parse_app_args(b"id = 1,,").err(), Some(ArgsError::ExpectedIdent));
    assert_eq!(parse_app_args(b"id = x").err(), Some(ArgsError::ExpectedInteger));
    assert_eq!(parse_app_args(b"id =").err(), Some(ArgsError::ExpectedInteger));
    assert_eq!(parse_app_args(b"id = 4294967296").err(), Some(ArgsError::IntegerTooLarge));
    assert_eq!(parse_app_args(b"id = 4294967295").unwrap().id, Some(u32::MAX));
    assert_eq!(parse_app_args(b"name = 5").err(), Some(ArgsError::ExpectedString));
    assert_eq!(parse_app_args(b"name = \"abc").err(), Some(ArgsError::UnterminatedString));
}

#[test]
fn stack_layouts() {
    assert_eq!(app_stack_layout(2048), Some((2048, 512)));
    assert_eq!(app_stack_layout(100), Some((512, 128)));
    assert_eq!(app_stack_layout(1001), Some((1008, 252)));
    assert_eq!(app_stack_layout(0xFFFF_FFF8), Some((0xFFFF_FFF8, 0x3FFF_FFFE)));
    assert_eq!(app_stack_layout(0xFFFF_FFFF), None);
}

#[test]
fn app_declarations() {
    let d = app_declaration(b"id = 3, stack_size = 1000", b"timer").unwrap();
    assert_eq!(d.id, 3);
    assert_eq!(d.name, b"timer".to_vec());
    assert_eq!(d.stack_bytes, 1000);
    assert_eq!(d.stack_words, 250);
    let n = app_declaration(b"id = 2, name = \"blink\"", b"led_blinker").unwrap();
    assert_eq!(n.name, b"blink".to_vec());
    assert_eq!(n.stack_bytes, 512);
    assert_eq!(n.stack_words, 128);
    assert_eq!(app_declaration(b"stack_size = 2048", b"x").err(), Some(DeclError::MissingId));
    assert_eq!(app_declaration(b"id = 1, stack_size = 4294967295", b"x").err(), Some(DeclError::StackTooLarge));
    assert_eq!(app_declaration(b"id = 1, foo = 1", b"x").err(), Some(DeclError::Args(ArgsError::UnknownParameter)));
}

fn entries() -> AppEntryPoints {
    AppEntryPoints { counter: 0x0800_1001, timer: 0x0800_2001, network_stack: 0x0800_3001, demo: 0x0800_4001, fibonacci: 0x0800_5001 }
}

#[test]
fn empty_metadata() {
    let e = AppMetadata::empty();
    assert_eq!(e.id, 0);
    assert_eq!(e.name, "");
    assert_eq!(e.entry, 0);
    assert_eq!(e.entry_fn, None);
    assert_eq!(e.stack_ptr, 0);
    assert_eq!(e.stack_size, 0);
    assert_eq!(e.stack_ptr_fn, None);
}

#[test]
fn builtin_application_table() {
    let apps = builtin_apps(entries());
    assert_eq!(apps.len(), 5);
    let names: Vec<&str> = apps.iter().map(|a| a.name).collect();
    assert_eq!(names, vec!["counter", "timer", "network_stack", "demo", "fibonacci"]);
    let ids: Vec<u32> = apps.iter().map(|a| a.id).collect();
    assert_eq!(ids, vec![1, 2, 3, 4, 5]);
    assert_eq!(apps[4].stack_size, 4096);
    assert_eq!(apps[0].stack_size, 2048);
    assert_eq!(apps[1].entry, 0x0800_2001);
    assert_eq!(apps[1].entry_fn, Some(0x0800_2001));
    assert_eq!(apps[3].stack_ptr_fn, None);
}

#[test]
fn registry_fills_once() {
    let mut reg = AppRegistry::new();
    let first = reg.get_registered_apps(entries());
    assert_eq!(first.len(), 5);
    assert_eq!(first[2].name, "network_stack");
    let other = AppEntryPoints { counter: 1, timer: 2, network_stack: 3, demo: 4, fibonacci: 5 };
    reg.initialize_app_registry(other);
    let again = reg.get_registered_apps(other);
    assert_eq!(again.len(), 5);
    assert_eq!(again[0].entry, 0x0800_1001);
}

#[test]
fn discovery_reports_the_count() {
    let mut reg = AppRegistry::new();
    assert_eq!(reg.discover_linker_registered_apps(entries()), 5);
}

#[test]
fn task_steps() {
    assert_eq!(milestone_tick(9999, 10000), (10000, true));
    assert_eq!(milestone_tick(5, 10000), (6, false));
    assert_eq!(milestone_tick(u32::MAX, 7), (0, true));
    let (mut a, mut b) = (0u32, 1u32);
    for _ in 0..10 {
        let (x, y) = fibonacci_step(a, b);
        a = x;
        b = y;
    }
    assert_eq!((a, b), (55, 89));
    assert_eq!(fibonacci_step(u32::MAX, 1), (1, 0));
    assert_eq!(math_step(1), 3);
    assert_eq!(math_step(999), 999);
    assert_eq!(math_step(0x8000_0000), 1);
    assert_eq!(network_step(999, 0), (1000, 64, true));
    assert_eq!(network_step(0, u32::MAX - 10), (1, 53, false));
    assert_eq!(gpio_monitor_step(999, 2), (1000, 3, true));
    assert_eq!(gpio_monitor_step(999, 0), (1000, 1, false));
    assert_eq!(gpio_monitor_step(5, 0), (6, 0, false));
    assert_eq!(power_manager_step(14), (15, true, false));
    assert_eq!(power_manager_step(49), (50, false, true));
    assert_eq!(power_manager_step(149), (150, true, true));
    assert_eq!(violator_step(0), (1, false));
    assert_eq!(violator_step(2), (0, true));
    assert_eq!(mmio_test_step(9999), (10000, true, false));
    assert_eq!(mmio_test_step(49999), (50000, true, true));
    assert_eq!(idle_step(9999), (10000, false, true));
    assert_eq!(idle_step(999_999), (1_000_000, true, false));
}
