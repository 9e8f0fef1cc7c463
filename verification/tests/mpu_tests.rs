use mini_os::mpu::{
    align_to_region_size, configure_region, configure_task_stack_protection, decode_region, disable_region, init_mpu,
    permission_name, rasr_value, region_count, region_size_encoding, MpuRegisters, RegionInfo, RegionRegisters,
};
use mini_os::sched::StackAllocation;

#[test]
fn region_size_encoding_smallest_power_of_two() {
    assert_eq!(region_size_encoding(32), Ok(4));
    assert_eq!(region_size_encoding(33), Ok(5));
    assert_eq!(region_size_encoding(64), Ok(5));
    assert_eq!(region_size_encoding(1024), Ok(9));
    assert_eq!(region_size_encoding(1025), Ok(10));
    assert_eq!(region_size_encoding(512 * 1024), Ok(18));
    assert_eq!(region_size_encoding(32 * 1024), Ok(14));
}

#[test]
fn region_size_encoding_upper_bound() {
    assert_eq!(region_size_encoding(0x8000_0000), Ok(30));
    let largest: u64 = 0x1_0000_0000;
    if usize::BITS == 64 {
        assert_eq!(region_size_encoding(0x8000_0001), Ok(31));
        assert_eq!(region_size_encoding(largest as usize), Ok(31));
        assert_eq!(region_size_encoding((largest + 1) as usize), Err("Region too large"));
        assert_eq!(region_size_encoding(usize::MAX), Err("Region too large"));
    }
}

#[test]
fn region_size_encoding_too_small() {
    assert_eq!(region_size_encoding(31), Err("Region too small (minimum 32 bytes)"));
    assert_eq!(region_size_encoding(0), Err("Region too small (minimum 32 bytes)"));
}

#[test]
fn rasr_value_fields() {
    assert_eq!(rasr_value(4, 3, true), 0x1300_0009);
    assert_eq!(rasr_value(18, 2, false), 0x0200_0025);
    assert_eq!(rasr_value(14, 3, true), 0x1300_001D);
}

#[test]
fn configured_region_decodes_to_its_fields() {
    let mut mpu = MpuRegisters::new();
    assert_eq!(configure_region(&mut mpu, 3, 0x2000_8000, 9, 3, true), Ok(()));
    assert_eq!(mpu.regions[3], RegionRegisters { rbar: 0x2000_8000, rasr: 0x1300_0013 });
    assert_eq!(
        decode_region(mpu.regions[3]),
        Some(RegionInfo { base_addr: 0x2000_8000, size_bytes: 1024, access_permission: 3, execute_never: true })
    );
    assert_eq!(mpu.regions[2], RegionRegisters { rbar: 0, rasr: 0 });
    assert_eq!(mpu.ctrl, 0);
}

#[test]
fn configure_region_refuses_region_eight() {
    let mut mpu = MpuRegisters::new();
    assert_eq!(configure_region(&mut mpu, 8, 0x2000_8000, 9, 3, true), Err("Invalid region number"));
    for i in 0..8 {
        assert_eq!(mpu.regions[i], RegionRegisters { rbar: 0, rasr: 0 });
    }
}

#[test]
fn disabled_region_decodes_to_none() {
    let mut mpu = MpuRegisters::new();
    configure_region(&mut mpu, 5, 0x2000_4000, 9, 1, false).unwrap();
    assert_eq!(disable_region(&mut mpu, 5), Ok(()));
    assert_eq!(mpu.regions[5], RegionRegisters { rbar: 0x2000_4000, rasr: 0 });
    assert_eq!(decode_region(mpu.regions[5]), None);
    assert_eq!(disable_region(&mut mpu, 9), Err("Invalid region number"));
}

#[test]
fn decode_region_rounds_base_to_granule() {
    let info = decode_region(RegionRegisters { rbar: 0x2000_801F, rasr: rasr_value(4, 1, false) }).unwrap();
    assert_eq!(info.base_addr, 0x2000_8000);
    assert_eq!(info.size_bytes, 32);
    assert_eq!(info.access_permission, 1);
    assert!(!info.execute_never);
}

#[test]
fn init_mpu_without_regions_is_refused() {
    let mut mpu = MpuRegisters::new();
    assert_eq!(init_mpu(&mut mpu, 0), Err("MPU not available"));
    assert_eq!(mpu.ctrl, 0);
    assert_eq!(mpu.regions[0], RegionRegisters { rbar: 0, rasr: 0 });
}

#[test]
fn init_mpu_programs_flash_and_kernel_ram() {
    let mut mpu = MpuRegisters::new();
    assert_eq!(init_mpu(&mut mpu, 0x0000_0800), Ok(()));
    assert_eq!(mpu.ctrl, 7);
    assert_eq!(mpu.regions[0], RegionRegisters { rbar: 0x0800_0000, rasr: 0x0200_0025 });
    assert_eq!(mpu.regions[1], RegionRegisters { rbar: 0x2000_0000, rasr: 0x1300_001D });
    let flash = decode_region(mpu.regions[0]).unwrap();
    assert_eq!(flash.size_bytes, 512 * 1024);
    let kram = decode_region(mpu.regions[1]).unwrap();
    assert_eq!(kram.size_bytes, 32 * 1024);
    assert!(kram.execute_never);
}

#[test]
fn permission_names() {
    assert_eq!(permission_name(0), "NO_ACCESS");
    assert_eq!(permission_name(1), "PRIV_RW");
    assert_eq!(permission_name(2), "PRIV_RW/USER_RO");
    assert_eq!(permission_name(3), "PRIV_RW/USER_RW");
    assert_eq!(permission_name(4), "UNKNOWN");
    assert_eq!(permission_name(5), "PRIV_RO");
    assert_eq!(permission_name(6), "PRIV_RO/USER_RO");
    assert_eq!(permission_name(7), "UNKNOWN");
}

#[test]
fn region_count_is_capped_at_eight() {
    assert_eq!(region_count(0x0000_0800), 8);
    assert_eq!(region_count(0x0000_0400), 4);
    assert_eq!(region_count(0x0000_FF00), 8);
    assert_eq!(region_count(0x0000_00FF), 0);
}

#[test]
fn align_to_region_size_rounds_up() {
    assert_eq!(align_to_region_size(0x2000_0104, 0x100), 0x2000_0200);
    assert_eq!(align_to_region_size(0x2000_0100, 0x100), 0x2000_0100);
    assert_eq!(align_to_region_size(1, 32), 32);
}

#[test]
fn stack_protection_uses_the_given_stack_without_allocation() {
    let mut mpu = MpuRegisters::new();
    let allocations: Vec<StackAllocation> = Vec::new();
    assert_eq!(configure_task_stack_protection(&mut mpu, 2, 0x2000_9000, 2048, 7, &allocations), Ok(()));
    assert_eq!(mpu.regions[2], RegionRegisters { rbar: 0x2000_9000, rasr: 0x1300_0015 });
}

#[test]
fn stack_protection_uses_the_live_allocation() {
    let mut mpu = MpuRegisters::new();
    let allocations = vec![
        StackAllocation {
            start_offset: 0,
            size_words: 256,
            region_size_words: 256,
            base_addr: 0x2000_A000,
            task_id: 7,
            name: "old",
            is_free: true,
        },
        StackAllocation {
            start_offset: 256,
            size_words: 300,
            region_size_words: 512,
            base_addr: 0x2000_A800,
            task_id: 7,
            name: "live",
            is_free: false,
        },
    ];
    assert_eq!(configure_task_stack_protection(&mut mpu, 4, 0x2000_9000, 64, 7, &allocations), Ok(()));
    assert_eq!(mpu.regions[4], RegionRegisters { rbar: 0x2000_A800, rasr: rasr_value(10, 3, true) });
}

#[test]
fn stack_protection_refuses_tiny_stack() {
    let mut mpu = MpuRegisters::new();
    let allocations: Vec<StackAllocation> = Vec::new();
    assert_eq!(
        configure_task_stack_protection(&mut mpu, 2, 0x2000_9000, 16, 1, &allocations),
        Err("Region too small (minimum 32 bytes)")
    );
    assert_eq!(mpu.regions[2], RegionRegisters { rbar: 0, rasr: 0 });
}

#[test]
fn memmanage_fault_enable_sets_only_its_bit() {
    assert_eq!(mini_os::mpu::memmanage_fault_enabled(0), 0x0001_0000);
    assert_eq!(mini_os::mpu::memmanage_fault_enabled(0x0007_0000), 0x0007_0000);
    assert_eq!(mini_os::mpu::memmanage_fault_enabled(0x0000_0400), 0x0001_0400);
}
