use mini_os::mpu::{configure_region, rasr_value, MpuRegisters, RegionRegisters};
use mini_os::process::{disable_process_mpu, switch_process_mpu, ProcessSlot, ProcessState, ProcessTable};
use mini_os::registry::AppMetadata;
use mini_os::sched::{Scheduler, TaskState};

fn app(id: u32) -> AppMetadata {
    AppMetadata { id, name: "proc", entry: 0, entry_fn: Some(0x0800_1001), stack_ptr: 0, stack_size: 1024, stack_ptr_fn: None }
}

#[test]
fn new_table_has_twelve_unused_slots() {
    let t = ProcessTable::new();
    assert_eq!(t.slots.len(), 12);
    assert_eq!(t.get_current_process(), None);
    assert_eq!(t.get_process_state(11), Some(ProcessState::Inactive));
    assert_eq!(t.get_process_state(12), None);
    assert!(t.get_process_slot(12).is_none());
}

#[test]
fn init_process_slot_standard_layout() {
    let mut t = ProcessTable::new();
    assert_eq!(t.init_process_slot(2, &app(7)), Ok(()));
    let s: ProcessSlot = t.get_process_slot(2).unwrap();
    assert_eq!(s.slot_id, 2);
    assert_eq!(s.state, ProcessState::Loading);
    assert_eq!(s.slot_base, 0x2000_C000);
    assert_eq!(s.slot_size, 8192);
    assert_eq!(s.data_base, 0x2000_C000);
    assert_eq!(s.data_size, 4096);
    assert_eq!(s.stack_base, 0x2000_D000);
    assert_eq!(s.stack_size, 3072);
    assert_eq!(s.grant_base, 0x2000_DC00);
    assert_eq!(s.grant_size, 1024);
    assert_eq!(s.sp, 0x2000_DC00);
    assert_eq!(s.app_id, 7);
    assert_eq!(s.name, "proc");
    assert_eq!(t.init_process_slot(12, &app(7)), Err("Invalid slot ID"));
}

#[test]
fn slots_do_not_overlap() {
    let mut t = ProcessTable::new();
    for i in 0..12 {
        t.init_process_slot(i, &app(i as u32)).unwrap();
    }
    for i in 0..11 {
        let a = t.get_process_slot(i).unwrap();
        let b = t.get_process_slot(i + 1).unwrap();
        assert_eq!(a.slot_base + a.slot_size, b.slot_base);
    }
    let last = t.get_process_slot(11).unwrap();
    assert_eq!(last.slot_base + last.slot_size, 0x2002_0000);
    assert!(t.verify_slot_isolation());
}

#[test]
fn process_state_reads_back_what_was_written() {
    let mut t = ProcessTable::new();
    t.init_process_slot(0, &app(1)).unwrap();
    assert_eq!(t.set_process_state(0, ProcessState::Faulted), Ok(()));
    assert_eq!(t.get_process_state(0), Some(ProcessState::Faulted));
    assert_eq!(t.set_process_state(12, ProcessState::Ready), Err("Invalid slot ID"));
    t.set_current_process(Some(0));
    assert_eq!(t.get_current_process(), Some(0));
    t.set_current_process(None);
    assert_eq!(t.get_current_process(), None);
}

#[test]
fn process_mpu_regions_describe_the_slot() {
    let mut t = ProcessTable::new();
    t.init_process_slot(1, &app(1)).unwrap();
    assert_eq!(t.init_process_mpu_regions(1), Ok(()));
    let s = t.get_process_slot(1).unwrap();
    assert_eq!(s.state, ProcessState::Ready);
    assert_eq!(s.ram_region.region_num, 2);
    assert_eq!(s.ram_region.base_addr, 0x2000_A000);
    assert_eq!(s.ram_region.size_encoding, 12);
    assert_eq!(s.ram_region.access_permission, 3);
    assert!(s.ram_region.execute_never);
    assert!(s.ram_region.enabled);
    assert_eq!(s.grant_region.region_num, 3);
    assert_eq!(s.grant_region.base_addr, 0x2000_BC00);
    assert_eq!(s.grant_region.size_encoding, 9);
    assert_eq!(s.grant_region.access_permission, 1);
    assert!(t.verify_grant_access());
    assert_eq!(t.init_process_mpu_regions(12), Err("Invalid slot ID"));
}

#[test]
fn unlaid_slot_regions_are_refused() {
    let mut t = ProcessTable::new();
    t.set_process_state(0, ProcessState::Loading).unwrap();
    assert_eq!(t.init_process_mpu_regions(0), Err("Region too small (minimum 32 bytes)"));
}

#[test]
fn configure_process_mpu_programs_regions_two_and_three() {
    let mut t = ProcessTable::new();
    let mut mpu = MpuRegisters::new();
    assert_eq!(t.configure_process_mpu(&mut mpu, 0), Err("Process slot not active"));
    assert_eq!(t.configure_process_mpu(&mut mpu, 12), Err("Invalid slot ID"));
    t.init_process_slot(0, &app(1)).unwrap();
    assert_eq!(t.configure_process_mpu(&mut mpu, 0), Ok(()));
    assert_eq!(mpu.regions[2], RegionRegisters { rbar: 0x2000_8000, rasr: rasr_value(12, 3, true) });
    assert_eq!(mpu.regions[3], RegionRegisters { rbar: 0x2000_9C00, rasr: rasr_value(9, 1, true) });
}

#[test]
fn switching_disables_then_programs() {
    let mut t = ProcessTable::new();
    let mut mpu = MpuRegisters::new();
    configure_region(&mut mpu, 0, 0x0800_0000, 18, 2, false).unwrap();
    configure_region(&mut mpu, 6, 0x2001_0000, 9, 3, true).unwrap();
    t.init_process_slot(3, &app(3)).unwrap();
    assert_eq!(switch_process_mpu(&t, &mut mpu, Some(0), 3), Ok(()));
    assert_eq!(mpu.regions[0], RegionRegisters { rbar: 0x0800_0000, rasr: rasr_value(18, 2, false) });
    assert_eq!(mpu.regions[6], RegionRegisters { rbar: 0x2001_0000, rasr: 0 });
    assert_eq!(mpu.regions[2], RegionRegisters { rbar: 0x2000_E000, rasr: rasr_value(12, 3, true) });
    assert_eq!(mpu.regions[3], RegionRegisters { rbar: 0x2000_FC00, rasr: rasr_value(9, 1, true) });
    assert_eq!(switch_process_mpu(&t, &mut mpu, Some(3), 4), Err("Process slot not active"));
    assert_eq!(mpu.regions[2], RegionRegisters { rbar: 0x2000_E000, rasr: 0 });
}

#[test]
fn disable_process_mpu_keeps_kernel_regions() {
    let mut mpu = MpuRegisters::new();
    configure_region(&mut mpu, 1, 0x2000_0000, 14, 3, true).unwrap();
    configure_region(&mut mpu, 4, 0x2000_4000, 9, 3, true).unwrap();
    assert_eq!(disable_process_mpu(&mut mpu), Ok(()));
    assert_eq!(mpu.regions[1], RegionRegisters { rbar: 0x2000_0000, rasr: rasr_value(14, 3, true) });
    assert_eq!(mpu.regions[4], RegionRegisters { rbar: 0x2000_4000, rasr: 0 });
}

#[test]
fn grant_region_accesses_stay_inside() {
    let mut t = ProcessTable::new();
    assert_eq!(t.get_process_grant_region(0), None);
    assert_eq!(t.allocate_grant_memory(0, 16), None);
    assert_eq!(t.write_to_grant(0, 0, &[1, 2, 3]), Err("Invalid process slot or grant region"));
    t.init_process_slot(0, &app(1)).unwrap();
    assert_eq!(t.get_process_grant_region(0), Some((0x2000_9C00, 1024)));
    assert_eq!(t.allocate_grant_memory(0, 1024), Some(0x2000_9C00));
    assert_eq!(t.allocate_grant_memory(0, 1025), None);
    assert_eq!(t.write_to_grant(0, 16, &[1, 2, 3, 4]), Ok(0x2000_9C10));
    assert_eq!(t.read_from_grant(0, 16, 4), Ok(0x2000_9C10));
    assert_eq!(t.write_to_grant(0, 1020, &[1, 2, 3, 4]), Ok(0x2000_9FFC));
    assert_eq!(t.write_to_grant(0, 1021, &[1, 2, 3, 4]), Err("Grant write would exceed region bounds"));
    assert_eq!(t.read_from_grant(0, 1021, 4), Err("Grant read would exceed region bounds"));
}

#[test]
fn slots_and_control_blocks_sync_both_ways() {
    let mut t = ProcessTable::new();
    let mut s = Scheduler::new(0x2000_8000);
    let mut mpu = MpuRegisters::new();
    s.task_spawn(&mut mpu, 0x0800_1001, "t0", None).unwrap();
    t.init_process_slot(0, &app(0)).unwrap();
    assert_eq!(t.sync_process_slot_with_tcb(&s, 0), Ok(()));
    let slot = t.get_process_slot(0).unwrap();
    assert_eq!(slot.sp, s.tcbs[0].sp);
    assert_eq!(slot.state, ProcessState::Ready);
    assert_eq!(t.sync_process_slot_with_tcb(&s, 1), Err("Invalid task ID"));
    t.set_process_state(0, ProcessState::Yielded).unwrap();
    assert_eq!(t.sync_tcb_with_process_slot(&mut s, 0), Ok(()));
    assert_eq!(s.tcbs[0].state, TaskState::Blocked);
    t.set_process_state(0, ProcessState::Faulted).unwrap();
    assert_eq!(t.sync_tcb_with_process_slot(&mut s, 0), Err("Invalid process state for TCB sync"));
    assert_eq!(t.sync_tcb_with_process_slot(&mut s, 5), Err("Process slot not active"));
}

#[test]
fn verification_report() {
    let mut t = ProcessTable::new();
    let s = Scheduler::new(0x2000_8000);
    assert_eq!(t.generate_tock_system_report(), (32, 0, 0));
    t.init_process_slot(0, &app(0)).unwrap();
    t.init_process_mpu_regions(0).unwrap();
    t.init_process_slot(1, &app(1)).unwrap();
    t.init_process_mpu_regions(1).unwrap();
    assert_eq!(t.generate_tock_system_report(), (32, 16, 2));
    assert!(t.verify_memory_boundaries());
    assert!(t.verify_mpu_switching());
    t.set_current_process(Some(0));
    assert!(t.verify_mpu_switching());
    assert!(t.run_tock_verification(&s));
    t.set_current_process(Some(12));
    assert!(!t.verify_mpu_switching());
    assert!(!t.run_tock_verification(&s));
}

#[test]
fn isolation_check_detects_a_moved_slot() {
    let mut t = ProcessTable::new();
    t.init_process_slot(0, &app(0)).unwrap();
    t.slots[0].slot_base = 0x2000_9000;
    assert!(!t.verify_slot_isolation());
}

#[test]
fn current_process_memory_report() {
    let mut t = ProcessTable::new();
    assert!(t.show_current_process_memory().is_none());
    t.set_current_process(Some(4));
    assert!(t.show_current_process_memory().is_none());
    t.init_process_slot(4, &app(9)).unwrap();
    let s = t.show_current_process_memory().unwrap();
    assert_eq!(s.slot_base, 0x2001_0000);
    assert_eq!(s.app_id, 9);
    t.set_current_process(Some(12));
    assert!(t.show_current_process_memory().is_none());
}

#[test]
fn programmed_process_regions_decode_as_isolation() {
    let mut t = ProcessTable::new();
    let mut mpu = MpuRegisters::new();
    t.init_process_slot(5, &app(5)).unwrap();
    t.configure_process_mpu(&mut mpu, 5).unwrap();
    let ram = mini_os::mpu::decode_region(mpu.regions[2]).unwrap();
    assert_eq!(ram.base_addr, 0x2001_2000);
    assert_eq!(ram.access_permission, 3);
    assert!(ram.execute_never);
    assert!(ram.size_bytes >= 7168);
    let grant = mini_os::mpu::decode_region(mpu.regions[3]).unwrap();
    assert_eq!(grant.base_addr, 0x2001_3C00);
    assert_eq!(grant.access_permission, 1);
    assert!(grant.execute_never);
    assert_eq!(grant.size_bytes, 1024);
}
