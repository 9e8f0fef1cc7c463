use mini_os::board::RegisterWrite;
use mini_os::mpu::{rasr_value, MpuRegisters, RegionRegisters};
use mini_os::process::{ProcessState, ProcessTable};
use mini_os::registry::AppMetadata;
use mini_os::sched::{
    align_up_words, canary_intact, compute_stack_words, enable_systick_interrupt, init_kernel_and_tasks, init_systick_1s,
    metadata_stack_bytes, resolve_app_entry, resolve_app_entry_dynamic, spawn_demo_tasks, static_stack_from,
    systick_tick, Fatal, Scheduler, SpawnError, StackRegion, TaskState, Tcb, SYST_CSR, SYST_CVR, SYST_RVR,
};

const POOL: u32 = 0x2000_8000;

fn app(id: u32, stack_size: u32, entry: usize) -> AppMetadata {
    AppMetadata {
        id,
        name: "app",
        entry: 0,
        entry_fn: Some(entry),
        stack_ptr: 0,
        stack_size,
        stack_ptr_fn: None,
    }
}

#[test]
fn align_up_words_rounds_to_multiple() {
    assert_eq!(align_up_words(5, 2), 6);
    assert_eq!(align_up_words(6, 2), 6);
    assert_eq!(align_up_words(5, 4), 8);
    assert_eq!(align_up_words(0, 8), 0);
    assert_eq!(align_up_words(9, 8), 16);
    assert_eq!(align_up_words(17, 16), 32);
    assert_eq!(align_up_words(7, 1), 7);
    assert_eq!(align_up_words(usize::MAX - 7, 8), usize::MAX - 7);
}

#[test]
fn metadata_stack_bytes_rounds_and_enforces_minimum() {
    assert_eq!(metadata_stack_bytes(&app(1, 0, 0x0800_1001)), 1024);
    assert_eq!(metadata_stack_bytes(&app(1, 1000, 0x0800_1001)), 1024);
    assert_eq!(metadata_stack_bytes(&app(1, 2050, 0x0800_1001)), 2056);
    assert_eq!(metadata_stack_bytes(&app(1, 4096, 0x0800_1001)), 4096);
}

#[test]
fn compute_stack_words_is_bytes_over_four() {
    assert_eq!(compute_stack_words(&app(1, 2050, 0x0800_1001)), 514);
    assert_eq!(compute_stack_words(&app(1, 4096, 0x0800_1001)), 1024);
    assert_eq!(compute_stack_words(&app(1, 0, 0x0800_1001)), 256);
}

#[test]
fn new_scheduler_is_empty() {
    let s = Scheduler::new(POOL);
    assert_eq!(s.get_task_count(), 0);
    assert_eq!(s.get_stack_pool_usage(), (0, 16384));
    assert_eq!(s.get_stack_pool_bounds(), (POOL, 65536));
    assert_eq!(s.tcbs.len(), 16);
    assert_eq!(s.tcbs[3].control, 2);
    assert_eq!(s.tcbs[3].state, TaskState::Ready);
}

#[test]
fn pool_stacks_are_region_aligned_and_disjoint() {
    let mut s = Scheduler::new(POOL);
    let a = s.allocate_app_stack_dynamic(256, 1, "a").unwrap();
    assert_eq!(a, StackRegion { base_addr: 0x2000_8000, words: 256 });
    assert_eq!(s.stack_pool_offset, 256);
    let b = s.allocate_app_stack_dynamic(300, 2, "b").unwrap();
    assert_eq!(b, StackRegion { base_addr: 0x2000_8800, words: 300 });
    assert_eq!(s.stack_pool_offset, 1024);
    assert_eq!(s.allocations.len(), 2);
    assert_eq!(s.allocations[1].start_offset, 512);
    assert_eq!(s.allocations[1].region_size_words, 512);
    assert_eq!(s.allocations[1].base_addr % 2048, 0);
    assert!(s.allocations[0].base_addr + 1024 <= s.allocations[1].base_addr);
}

#[test]
fn pool_allocation_errors() {
    let mut s = Scheduler::new(POOL);
    assert_eq!(s.allocate_app_stack_dynamic(7, 1, "tiny"), Err(Fatal::InvalidStackSize));
    assert_eq!(s.allocate_app_stack_dynamic(16385, 1, "huge"), Err(Fatal::StackPoolExhausted));
    assert_eq!(s.allocate_app_stack_dynamic(16384, 1, "whole"), Err(Fatal::StackPoolExhausted));
    assert_eq!(s.stack_pool_offset, 0);
    assert_eq!(s.allocations.len(), 0);
}

#[test]
fn whole_pool_fits_when_aligned() {
    let mut s = Scheduler::new(0x2001_0000);
    assert_eq!(s.allocate_app_stack_dynamic(16384, 1, "whole"), Ok(StackRegion { base_addr: 0x2001_0000, words: 16384 }));
    assert_eq!(s.allocate_app_stack_dynamic(8, 2, "more"), Err(Fatal::StackPoolExhausted));
}

#[test]
fn deallocate_frees_first_live_stack() {
    let mut s = Scheduler::new(POOL);
    s.allocate_app_stack_dynamic(256, 1, "a").unwrap();
    assert!(s.deallocate_app_stack(1));
    assert!(s.allocations[0].is_free);
    assert!(!s.deallocate_app_stack(1));
    assert_eq!(s.stack_pool_offset, 256);
}

#[test]
fn task_spawn_sets_up_first_frame() {
    let mut s = Scheduler::new(POOL);
    let mut mpu = MpuRegisters::new();
    let (id, image) = s.task_spawn(&mut mpu, 0x0800_1001, "t0", None).unwrap();
    assert_eq!(id, 0);
    assert_eq!(s.get_task_count(), 1);
    assert_eq!(image.canary_addr, 0x2000_8000);
    assert_eq!(image.sp, 0x2000_83E0);
    assert_eq!(
        image.frame,
        [0, 0x0101_0101, 0x0202_0202, 0x0303_0303, 0x1212_1212, 0xFFFF_FFFE, 0x0800_1001, 0x0100_0000]
    );
    let t: Tcb = s.tcbs[0];
    assert_eq!(t.sp, 0x2000_83E0);
    assert_eq!(t.r4, 0x4444_4444);
    assert_eq!(t.r11, 0xBBBB_BBBB);
    assert_eq!(t.control, 2);
    assert_eq!(t.state, TaskState::Ready);
    assert_eq!(t.name, "t0");
    assert_eq!(t.stack_base, 0x2000_8000);
    assert_eq!(t.stack_size, 1024);
    assert_eq!(mpu.regions[2], RegionRegisters { rbar: 0x2000_8000, rasr: rasr_value(9, 3, true) });
}

#[test]
fn task_spawn_clears_thumb_bit_and_sets_it_again() {
    let mut s = Scheduler::new(POOL);
    let mut mpu = MpuRegisters::new();
    let (_, image) = s.task_spawn(&mut mpu, 0x0800_2000, "even", Some(2048)).unwrap();
    assert_eq!(image.frame[6], 0x0800_2001);
    assert_eq!(image.sp, 0x2000_8000 + (512 - 8) * 4);
}

#[test]
fn task_spawn_refusals() {
    let mut s = Scheduler::new(POOL);
    let mut mpu = MpuRegisters::new();
    assert_eq!(s.task_spawn(&mut mpu, 0x0800_1001, "small", Some(512)).err(), Some(SpawnError::StackSizeTooSmall));
    assert_eq!(
        s.task_spawn(&mut mpu, 0x0900_0001, "far", None).err(),
        Some(SpawnError::Halted(Fatal::InvalidEntryPoint))
    );
    assert_eq!(
        s.task_spawn(&mut mpu, 0x080F_0001, "ram", None).err(),
        Some(SpawnError::Halted(Fatal::PcOutsideFlash))
    );
    assert_eq!(s.get_task_count(), 0);
    assert_eq!(SpawnError::StackSizeTooSmall.message(), Some("Stack size too small"));
    assert_eq!(SpawnError::MaximumTasks.message(), Some("Maximum tasks reached"));
    assert_eq!(SpawnError::Halted(Fatal::TooManyApps).message(), None);
}

#[test]
fn task_spawn_stops_at_sixteen_tasks() {
    let mut s = Scheduler::new(POOL);
    let mut mpu = MpuRegisters::new();
    for i in 0..16u32 {
        let (id, _) = s.task_spawn_simple(&mut mpu, 0x0800_1001, "t").unwrap();
        assert_eq!(id, i);
    }
    assert_eq!(s.task_spawn_simple(&mut mpu, 0x0800_1001, "t").err(), Some(SpawnError::MaximumTasks));
    assert_eq!(s.get_task_count(), 16);
}

#[test]
fn task_sp_and_state_read_back_what_was_written() {
    let mut s = Scheduler::new(POOL);
    let mut mpu = MpuRegisters::new();
    s.task_spawn(&mut mpu, 0x0800_1001, "t0", None).unwrap();
    s.task_spawn(&mut mpu, 0x0800_1001, "t1", None).unwrap();
    let other = s.get_task_sp(1).unwrap();
    assert_eq!(s.set_task_sp(0, 0x2000_8100), Ok(()));
    assert_eq!(s.get_task_sp(0), Ok(0x2000_8100));
    assert_eq!(s.get_task_sp(1), Ok(other));
    assert_eq!(s.set_task_state(0, TaskState::Blocked), Ok(()));
    assert_eq!(s.get_task_state(0), Ok(TaskState::Blocked));
    assert_eq!(s.get_task_state(1), Ok(TaskState::Ready));
    assert_eq!(s.get_task_sp(2), Err("Invalid task ID"));
    assert_eq!(s.set_task_sp(2, 0), Err("Invalid task ID"));
    assert_eq!(s.get_task_state(9), Err("Invalid task ID"));
    assert_eq!(s.set_task_state(9, TaskState::Ready), Err("Invalid task ID"));
}

#[test]
fn task_kill_blocks_and_frees() {
    let mut s = Scheduler::new(POOL);
    let mut mpu = MpuRegisters::new();
    s.task_spawn(&mut mpu, 0x0800_1001, "t0", None).unwrap();
    let offset = s.stack_pool_offset;
    let psp = s.next_task_psp;
    let first = s.first_switch;
    assert_eq!(s.task_kill(0), Ok(()));
    assert_eq!(s.tcbs[0].state, TaskState::Blocked);
    assert_eq!(s.tcbs[0].name, "killed");
    assert!(s.allocations[0].is_free);
    assert_eq!(s.stack_pool_offset, offset);
    assert_eq!(s.next_task_psp, psp);
    assert_eq!(s.first_switch, first);
    assert_eq!(s.get_task_count(), 1);
    assert_eq!(s.task_kill(0), Ok(()));
    assert_eq!(s.allocations.len(), 1);
    assert!(s.allocations[0].is_free);
    assert_eq!(s.task_kill(99), Err("Task not found"));
}

#[test]
fn save_context_checks_pointers() {
    let mut s = Scheduler::new(POOL);
    let mut mpu = MpuRegisters::new();
    s.task_spawn(&mut mpu, 0x0800_1001, "t0", None).unwrap();
    assert_eq!(s.save_current_context(0x1000_0000, 1, 2, 3, 4, 5, 6, 7, 8, 0), Err(Fatal::InvalidSavedStackPointer));
    assert_eq!(
        s.save_current_context(0x2000_8200, 1, 2, 3, 4, 5, 6, 7, 8, 0x2000_0000),
        Err(Fatal::CorruptedSavedProgramCounter)
    );
    assert_eq!(s.save_current_context(0x2000_8200, 1, 2, 3, 4, 5, 6, 7, 8, 0x0800_1000), Ok(()));
    assert_eq!(s.tcbs[0].sp, 0x2000_8200);
    assert_eq!(s.tcbs[0].r4, 1);
    assert_eq!(s.tcbs[0].r11, 8);
}

#[test]
fn context_switch_round_robin() {
    let mut s = Scheduler::new(POOL);
    let mut mpu = MpuRegisters::new();
    let mut procs = ProcessTable::new();
    s.task_spawn(&mut mpu, 0x0800_1001, "t0", None).unwrap();
    s.task_spawn(&mut mpu, 0x0800_1001, "t1", None).unwrap();
    procs.init_process_slot(0, &app(0, 1024, 0x0800_1001)).unwrap();
    procs.init_process_slot(1, &app(1, 1024, 0x0800_1001)).unwrap();
    assert_eq!(s.prepare_switch(), Ok(None));
    assert_eq!(s.pend_sv_switch(&mut procs, &mut mpu, 0), Ok(0));
    assert_eq!(procs.get_current_process(), Some(0));
    assert_eq!(s.next_task_psp, s.tcbs[0].sp);
    assert_eq!(s.tcbs[0].state, TaskState::Running);
    let sp1 = s.tcbs[1].sp;
    assert_eq!(s.prepare_switch(), Ok(Some((1, sp1))));
    assert_eq!(s.pend_sv_switch(&mut procs, &mut mpu, 0x0800_1001), Ok(1));
    assert_eq!(s.curr, 1);
    assert_eq!(s.tcbs[1].state, TaskState::Running);
    assert_eq!(procs.get_current_process(), Some(1));
    assert_eq!(procs.slots[1].sp, s.tcbs[1].sp);
    assert_eq!(s.next_task_psp, sp1);
    assert_eq!(s.pend_sv_switch(&mut procs, &mut mpu, 0x0900_0000), Err(Fatal::InvalidNextProgramCounter));
}

#[test]
fn canary_targets_are_the_tasks_with_stacks() {
    let mut s = Scheduler::new(POOL);
    let mut mpu = MpuRegisters::new();
    s.task_spawn(&mut mpu, 0x0800_1001, "t0", None).unwrap();
    s.task_spawn(&mut mpu, 0x0800_1001, "t1", None).unwrap();
    let targets = s.canary_check_targets();
    assert_eq!(targets, vec![(0, 0x2000_8000), (1, 0x2000_8400)]);
    assert!(canary_intact(0xDEAD_BEEF, 0xDEAD_BEEF));
    assert!(!canary_intact(0xDEAD_BEEF, 0));
    assert!(!canary_intact(0, 0xDEAD_BEEF));
}

#[test]
fn systick_checks_canaries_every_tenth_tick() {
    assert_eq!(systick_tick(0), (1, false));
    assert_eq!(systick_tick(9), (10, true));
    assert_eq!(systick_tick(19), (20, true));
    assert_eq!(systick_tick(20), (21, false));
}

#[test]
fn systick_register_values() {
    assert_eq!(
        init_systick_1s(),
        vec![
            RegisterWrite { addr: SYST_RVR, value: 15_999_999 },
            RegisterWrite { addr: SYST_CVR, value: 0 },
            RegisterWrite { addr: SYST_CSR, value: 5 },
        ]
    );
    assert_eq!(enable_systick_interrupt(), RegisterWrite { addr: 0xE000_E010, value: 7 });
}

#[test]
fn entry_resolution() {
    let mut a = app(1, 2048, 0x0800_3001);
    assert_eq!(resolve_app_entry(&a), Ok(0x0800_3001));
    a.entry = 0x0800_4001;
    assert_eq!(resolve_app_entry(&a), Ok(0x0800_4001));
    a.entry = 0;
    a.entry_fn = None;
    assert_eq!(resolve_app_entry(&a), Err(Fatal::NoEntryFunction));
    assert_eq!(resolve_app_entry_dynamic("counter"), Err(Fatal::SymbolResolutionUnavailable));
}

#[test]
fn static_stack_checks() {
    assert_eq!(static_stack_from(0, 2048), Err(Fatal::NullStackPointer));
    assert_eq!(static_stack_from(0x2000_1000, 512), Err(Fatal::StaticStackTooSmall));
    assert_eq!(static_stack_from(0x2000_1000, 1028), Err(Fatal::StaticStackMisaligned));
    assert_eq!(static_stack_from(0x2000_1000, 2048), Ok(StackRegion { base_addr: 0x2000_1000, words: 512 }));
}

#[test]
fn init_kernel_sets_up_every_app() {
    let mut s = Scheduler::new(POOL);
    let mut mpu = MpuRegisters::new();
    let mut apps = vec![app(1, 2048, 0x0800_1001), app(2, 2048, 0x0800_2001)];
    let images = init_kernel_and_tasks(&mut s, &mut mpu, &mut apps).unwrap();
    assert_eq!(images.len(), 2);
    assert_eq!(s.get_task_count(), 2);
    assert_eq!(s.curr, 0);
    assert_eq!(images[0].canary_addr, 0x2000_8000);
    assert_eq!(images[1].canary_addr, 0x2000_8800);
    assert_eq!(images[1].frame[6], 0x0800_2001);
    assert_eq!(s.tcbs[1].app_id, 2);
    assert_eq!(apps[0].entry, 0x0800_1001);
    assert_eq!(apps[0].stack_ptr, 0x2000_8000);
    assert_eq!(apps[0].stack_size, 2048);
}

#[test]
fn init_kernel_refuses_too_many_apps() {
    let mut s = Scheduler::new(POOL);
    let mut mpu = MpuRegisters::new();
    let mut apps: Vec<AppMetadata> = (0..17).map(|i| app(i, 1024, 0x0800_1001)).collect();
    assert_eq!(init_kernel_and_tasks(&mut s, &mut mpu, &mut apps).err(), Some(Fatal::TooManyApps));
}

#[test]
fn spawn_demo_tasks_skips_apps_without_entry_or_stack() {
    let mut s = Scheduler::new(POOL);
    let mut mpu = MpuRegisters::new();
    let mut procs = ProcessTable::new();
    let mut no_entry = app(3, 2048, 0);
    no_entry.entry_fn = None;
    let apps = vec![app(1, 2048, 0x0800_1001), no_entry, app(2, 512, 0x0800_1001), app(4, 1024, 0x0800_1001)];
    let (count, images) = spawn_demo_tasks(&mut s, &mut procs, &mut mpu, &apps).unwrap();
    assert_eq!(count, 2);
    assert_eq!(images.len(), 2);
    assert_eq!(images[0].0, 0);
    assert_eq!(images[1].0, 1);
    assert_eq!(s.get_task_count(), 2);
}

#[test]
fn init_kernel_stops_at_first_failing_app() {
    let mut s = Scheduler::new(POOL);
    let mut mpu = MpuRegisters::new();
    let mut bad_stack = app(2, 2048, 0x0800_2001);
    bad_stack.stack_ptr_fn = Some(0);
    let mut apps = vec![app(1, 2048, 0x0800_1001), bad_stack, app(3, 2048, 0x0900_0001)];
    assert_eq!(init_kernel_and_tasks(&mut s, &mut mpu, &mut apps).err(), Some(Fatal::NullStackPointer));
    let mut s2 = Scheduler::new(POOL);
    let mut apps2 = vec![app(1, 2048, 0x0800_1001), app(3, 2048, 0x0900_0001)];
    assert_eq!(init_kernel_and_tasks(&mut s2, &mut mpu, &mut apps2).err(), Some(Fatal::InvalidEntryPoint));
    let mut s3 = Scheduler::new(POOL);
    let mut own = app(4, 2048, 0x0800_1001);
    own.stack_ptr = 0x2000_0400;
    let mut apps3 = vec![own];
    let images = init_kernel_and_tasks(&mut s3, &mut mpu, &mut apps3).unwrap();
    assert_eq!(images[0].canary_addr, 0x2000_0400);
    assert_eq!(s3.stack_pool_offset, 0);
}

#[test]
fn provided_stack_gets_the_metadata_size() {
    let mut s = Scheduler::new(POOL);
    let mut small = app(5, 512, 0x0800_1001);
    small.stack_ptr = 0x2000_0400;
    assert_eq!(s.acquire_app_stack(&small), Ok(StackRegion { base_addr: 0x2000_0400, words: 256 }));
    let mut odd = app(6, 1020, 0x0800_1001);
    odd.stack_ptr_fn = Some(0x2000_0800);
    assert_eq!(s.acquire_app_stack(&odd), Ok(StackRegion { base_addr: 0x2000_0800, words: 256 }));
    let mut big = app(7, 4096, 0x0800_1001);
    big.stack_ptr_fn = Some(0x2000_1000);
    assert_eq!(s.acquire_app_stack(&big), Ok(StackRegion { base_addr: 0x2000_1000, words: 1024 }));
    let mut null = app(8, 2048, 0x0800_1001);
    null.stack_ptr_fn = Some(0);
    assert_eq!(s.acquire_app_stack(&null), Err(Fatal::NullStackPointer));
    assert_eq!(s.stack_pool_offset, 0);
}

#[test]
fn spawn_demo_tasks_halts_on_bad_entry() {
    let mut s = Scheduler::new(POOL);
    let mut mpu = MpuRegisters::new();
    let mut procs = ProcessTable::new();
    let apps = vec![app(1, 2048, 0x0800_1001), app(2, 2048, 0x0900_0001), app(3, 2048, 0x0800_1001)];
    assert_eq!(spawn_demo_tasks(&mut s, &mut procs, &mut mpu, &apps).err(), Some(Fatal::InvalidEntryPoint));
    assert_eq!(s.get_task_count(), 1);
}

#[test]
fn context_switch_restores_incoming_and_writes_back_outgoing() {
    let mut s = Scheduler::new(POOL);
    let mut mpu = MpuRegisters::new();
    let mut procs = ProcessTable::new();
    s.task_spawn(&mut mpu, 0x0800_1001, "t0", None).unwrap();
    s.task_spawn(&mut mpu, 0x0800_1001, "t1", None).unwrap();
    procs.init_process_slot(0, &app(0, 1024, 0x0800_1001)).unwrap();
    procs.init_process_slot(1, &app(1, 1024, 0x0800_1001)).unwrap();
    assert_eq!(s.pend_sv_switch(&mut procs, &mut mpu, 0), Ok(0));
    let before = s.tcbs[1];
    procs.slots[0].sp = 0x2000_8100;
    assert_eq!(s.pend_sv_switch(&mut procs, &mut mpu, 0x0800_1001), Ok(1));
    assert_eq!(s.tcbs[0].sp, 0x2000_8100);
    assert_eq!(s.tcbs[0].state, TaskState::Running);
    assert_eq!(s.tcbs[1].sp, before.sp);
    assert_eq!(s.tcbs[1].r4, before.r4);
    assert_eq!(s.tcbs[1].r11, before.r11);
    assert_eq!(s.tcbs[1].state, TaskState::Running);
    assert_eq!(s.next_task_psp, before.sp);
}

#[test]
fn spawn_demo_tasks_images_and_slots() {
    let mut s = Scheduler::new(POOL);
    let mut mpu = MpuRegisters::new();
    let mut procs = ProcessTable::new();
    let apps = vec![app(7, 2048, 0x0800_1001), app(9, 1024, 0x0800_3001)];
    let (count, images) = spawn_demo_tasks(&mut s, &mut procs, &mut mpu, &apps).unwrap();
    assert_eq!(count, 2);
    assert_eq!(images[0].1.canary_addr, 0x2000_8000);
    assert_eq!(images[0].1.sp, 0x2000_8000 + (512 - 8) * 4);
    assert_eq!(images[0].1.frame[6], 0x0800_1001);
    assert_eq!(images[1].1.canary_addr, 0x2000_8800);
    assert_eq!(images[1].1.sp, 0x2000_8800 + (256 - 8) * 4);
    assert_eq!(images[1].1.frame[6], 0x0800_3001);
    assert_eq!(s.tcbs[1].sp, images[1].1.sp);
    assert_eq!(s.tcbs[1].app_id, 1);
    assert_eq!(s.tcbs[1].state, TaskState::Ready);
    let slot = procs.slots[1];
    assert_eq!(slot.app_id, 9);
    assert_eq!(slot.state, ProcessState::Ready);
    assert_eq!(slot.slot_base, 0x2000_8000 + 8192);
    assert_eq!(slot.data_base, slot.slot_base);
    assert_eq!(slot.stack_base, slot.slot_base + 4096);
    assert_eq!(slot.grant_base, slot.stack_base + 3072);
    assert_eq!(slot.sp, slot.stack_base + 3072);
    assert_eq!(slot.ram_region.region_num, 2);
    assert_eq!(slot.ram_region.base_addr, slot.data_base);
    assert_eq!(slot.ram_region.size_encoding, 12);
    assert!(slot.ram_region.enabled);
    assert_eq!(slot.grant_region.region_num, 3);
    assert_eq!(slot.grant_region.base_addr, slot.grant_base);
    assert_eq!(slot.grant_region.size_encoding, 9);
    assert_eq!(slot.grant_region.access_permission, 1);
}
