//! Memory Protection Unit: region size encoding and region register values.
use vstd::prelude::*;
use crate::sched::StackAllocation;

verus! {

broadcast use vstd::array::group_array_axioms;

/// Control register: MPU enable.
pub const MPU_CTRL_ENABLE: u32 = 1;
/// Control register: MPU active during fault handlers.
pub const MPU_CTRL_HFNMIENA: u32 = 2;
/// Control register: privileged default memory map.
pub const MPU_CTRL_PRIVDEFENA: u32 = 4;
/// Attribute register: region enable.
pub const MPU_RASR_ENABLE: u32 = 1;
/// Attribute register: position of the size field.
pub const MPU_RASR_SIZE_SHIFT: u32 = 1;
/// Attribute register: position of the access permission field.
pub const MPU_RASR_AP_SHIFT: u32 = 24;
/// Attribute register: execute never.
pub const MPU_RASR_XN: u32 = 0x1000_0000;

/// No access at all.
pub const MPU_AP_NO_ACCESS: u32 = 0;
/// Privileged read/write, no unprivileged access.
pub const MPU_AP_PRIV_RW: u32 = 1;
/// Privileged read/write, unprivileged read-only.
pub const MPU_AP_PRIV_RW_USER_RO: u32 = 2;
/// Privileged and unprivileged read/write.
pub const MPU_AP_PRIV_RW_USER_RW: u32 = 3;

/// The number of regions this MPU programs.
pub const MPU_REGION_COUNT: u8 = 8;

/// The attribute word of an enabled region.
pub open spec fn rasr_word(size_encoding: u32, access_permission: u32, execute_never: bool) -> u32 {
    let base = MPU_RASR_ENABLE | (size_encoding << MPU_RASR_SIZE_SHIFT) | (access_permission
        << MPU_RASR_AP_SHIFT);
    if execute_never {
        base | MPU_RASR_XN
    } else {
        base
    }
}

/// The attribute word of an enabled region with the given size encoding,
/// access permission and execute-never flag.
pub fn rasr_value(size_encoding: u32, access_permission: u32, execute_never: bool) -> (r: u32)
    ensures
        r == rasr_word(size_encoding, access_permission, execute_never),
{
    let mut rasr = MPU_RASR_ENABLE | (size_encoding << MPU_RASR_SIZE_SHIFT) | (access_permission
        << MPU_RASR_AP_SHIFT);
    if execute_never {
        rasr = rasr | MPU_RASR_XN;
    }
    rasr
}

/// The base address, rounded down to the 32-byte granule, that the base register holds.
pub open spec fn rbar_base(rbar: u32) -> u32 {
    rbar & 0xFFFF_FFE0
}

/// Size field of an attribute word.
pub open spec fn rasr_size_field(rasr: u32) -> u32 {
    (rasr >> MPU_RASR_SIZE_SHIFT) & 0x1F
}

/// Access permission field of an attribute word.
pub open spec fn rasr_ap_field(rasr: u32) -> u32 {
    (rasr >> MPU_RASR_AP_SHIFT) & 0x7
}

/// Execute-never flag of an attribute word.
pub open spec fn rasr_xn_flag(rasr: u32) -> bool {
    rasr & MPU_RASR_XN != 0
}

/// Enable flag of an attribute word.
pub open spec fn rasr_enabled(rasr: u32) -> bool {
    rasr & MPU_RASR_ENABLE != 0
}

/// Reading an attribute word back gives the fields it was built from.
pub proof fn lemma_rasr_fields(size_encoding: u32, access_permission: u32, execute_never: bool)
    requires
        size_encoding < 32,
        access_permission < 8,
    ensures
        rasr_enabled(rasr_word(size_encoding, access_permission, execute_never)),
        rasr_size_field(rasr_word(size_encoding, access_permission, execute_never)) == size_encoding,
        rasr_ap_field(rasr_word(size_encoding, access_permission, execute_never)) == access_permission,
        rasr_xn_flag(rasr_word(size_encoding, access_permission, execute_never)) == execute_never,
{
    let w = rasr_word(size_encoding, access_permission, execute_never);
    if execute_never {
        assert(w == 1u32 | (size_encoding << 1u32) | (access_permission << 24u32) | 0x1000_0000u32);
        assert({
            let w = 1u32 | (size_encoding << 1u32) | (access_permission << 24u32) | 0x1000_0000u32;
            &&& w & 1 != 0
            &&& (w >> 1u32) & 0x1F == size_encoding
            &&& (w >> 24u32) & 0x7 == access_permission
            &&& w & 0x1000_0000 != 0
        }) by (bit_vector)
            requires
                size_encoding < 32,
                access_permission < 8,
        ;
    } else {
        assert(w == 1u32 | (size_encoding << 1u32) | (access_permission << 24u32));
        assert({
            let w = 1u32 | (size_encoding << 1u32) | (access_permission << 24u32);
            &&& w & 1 != 0
            &&& (w >> 1u32) & 0x1F == size_encoding
            &&& (w >> 24u32) & 0x7 == access_permission
            &&& w & 0x1000_0000 == 0
        }) by (bit_vector)
            requires
                size_encoding < 32,
                access_permission < 8,
        ;
    }
}

/// A region whose attribute register is cleared reads as disabled.
pub proof fn lemma_cleared_region_disabled()
    ensures
        !rasr_enabled(0),
{
    assert(0u32 & 1u32 == 0) by (bit_vector);
}

/// A 32-byte aligned base address reads back unchanged.
pub proof fn lemma_aligned_base(base: u32)
    requires
        base % 32 == 0,
    ensures
        rbar_base(base) == base,
{
    assert(base % 32 == 0 ==> base & 0xFFFF_FFE0 == base) by (bit_vector);
}

/// The programmable state of one region: its base and attribute registers.
#[derive(Debug, Clone, Copy, PartialEq, Eq, Structural)]
pub struct RegionRegisters {
    pub rbar: u32,
    pub rasr: u32,
}

/// The programmable state of the MPU: the control register and eight regions.
#[derive(Debug, Clone, Copy)]
pub struct MpuRegisters {
    pub ctrl: u32,
    pub regions: [RegionRegisters; 8],
}

impl MpuRegisters {
    /// The state after reset: disabled, every region off.
    pub fn new() -> (r: Self)
        ensures
            r.ctrl == 0,
            forall|i: int| 0 <= i < 8 ==> r.regions@[i] == (RegionRegisters { rbar: 0, rasr: 0 }),
    {
        MpuRegisters { ctrl: 0, regions: [RegionRegisters { rbar: 0, rasr: 0 }; 8] }
    }
}

/// Program region `region_num`; regions 8 and above do not exist.
pub fn configure_region(
    mpu: &mut MpuRegisters,
    region_num: u8,
    base_addr: u32,
    size_encoding: u32,
    access_permission: u32,
    execute_never: bool,
) -> (r: Result<(), &'static str>)
    ensures
        region_num >= 8 ==> *final(mpu) == *old(mpu) && (r matches Err(m) && m@ == "Invalid region number"@),
        region_num < 8 ==> r is Ok && final(mpu).ctrl == old(mpu).ctrl && final(mpu).regions@
            == old(mpu).regions@.update(
            region_num as int,
            RegionRegisters {
                rbar: base_addr,
                rasr: rasr_word(size_encoding, access_permission, execute_never),
            },
        ),
{
    if region_num >= 8 {
        proof { reveal_strlit("Invalid region number"); }
        return Err("Invalid region number");
    }
    let rasr = rasr_value(size_encoding, access_permission, execute_never);
    mpu.regions[region_num as usize] = RegionRegisters { rbar: base_addr, rasr };
    Ok(())
}

/// Switch region `region_num` off by clearing its attribute register.
pub fn disable_region(mpu: &mut MpuRegisters, region_num: u8) -> (r: Result<(), &'static str>)
    ensures
        region_num >= 8 ==> *final(mpu) == *old(mpu) && (r matches Err(m) && m@ == "Invalid region number"@),
        region_num < 8 ==> r is Ok && final(mpu).ctrl == old(mpu).ctrl && final(mpu).regions@
            == old(mpu).regions@.update(
            region_num as int,
            RegionRegisters { rbar: old(mpu).regions@[region_num as int].rbar, rasr: 0 },
        ),
{
    if region_num >= 8 {
        proof { reveal_strlit("Invalid region number"); }
        return Err("Invalid region number");
    }
    let rbar = mpu.regions[region_num as usize].rbar;
    mpu.regions[region_num as usize] = RegionRegisters { rbar, rasr: 0 };
    Ok(())
}

/// Flash: 512 KiB at 0x0800_0000.
pub const FLASH_BASE: u32 = 0x0800_0000;
/// The size encoding of the flash region (2^19 bytes).
pub const FLASH_SIZE_ENCODING: u32 = 18;
/// The size encoding of the kernel RAM region (2^15 bytes).
pub const KERNEL_RAM_SIZE_ENCODING: u32 = 14;

/// The two fixed regions: flash (privileged read/write, unprivileged
/// read-only, executable) and kernel RAM (read/write for all, execute never:
/// unprivileged tasks write the RTT buffers that live there).
pub open spec fn basic_regions_set(before: Seq<RegionRegisters>, after: Seq<RegionRegisters>) -> bool {
    after == before.update(
        0,
        RegionRegisters {
            rbar: FLASH_BASE,
            rasr: rasr_word(FLASH_SIZE_ENCODING, MPU_AP_PRIV_RW_USER_RO, false),
        },
    ).update(
        1,
        RegionRegisters {
            rbar: crate::KERNEL_RAM_BASE,
            rasr: rasr_word(KERNEL_RAM_SIZE_ENCODING, MPU_AP_PRIV_RW_USER_RW, true),
        },
    )
}

/// Program the flash and kernel RAM regions.
fn configure_basic_regions(mpu: &mut MpuRegisters) -> (r: Result<(), &'static str>)
    ensures
        r is Ok,
        final(mpu).ctrl == old(mpu).ctrl,
        basic_regions_set(old(mpu).regions@, final(mpu).regions@),
{
    let flash = region_size_encoding(512 * 1024);
    let flash_enc = match flash {
        Ok(e) => e,
        Err(m) => {
            return Err(m);
        },
    };
    proof {
        lemma_two_pow_values();
        lemma_encoding_unique(512 * 1024, flash_enc as nat, 18);
    }
    let r0 = configure_region(mpu, 0, FLASH_BASE, flash_enc, MPU_AP_PRIV_RW_USER_RO, false);
    if r0.is_err() {
        return r0;
    }
    let kram = region_size_encoding(crate::KERNEL_RAM_SIZE as usize);
    let kram_enc = match kram {
        Ok(e) => e,
        Err(m) => {
            return Err(m);
        },
    };
    proof {
        lemma_two_pow_values();
        lemma_encoding_unique(32 * 1024, kram_enc as nat, 14);
    }
    let r1 = configure_region(mpu, 1, crate::KERNEL_RAM_BASE, kram_enc, MPU_AP_PRIV_RW_USER_RW, true);
    if r1.is_err() {
        return r1;
    }
    Ok(())
}

/// The encoding of a size is unique.
pub proof fn lemma_encoding_unique(size: nat, e1: nat, e2: nat)
    requires
        is_size_encoding_for(size, e1),
        is_size_encoding_for(size, e2),
    ensures
        e1 == e2,
{
    if e1 < e2 {
        lemma_two_pow_monotonic(e1 + 1, e2);
    } else if e2 < e1 {
        lemma_two_pow_monotonic(e2 + 1, e1);
    }
}

/// The MemManage fault enable bit (MEMFAULTENA) of the system handler
/// control and state register.
pub const SHCSR_MEMFAULTENA: u32 = 0x1_0000;

/// The system handler control and state register value that MPU start-up
/// writes, given the value read: the same with the MemManage fault enabled,
/// so that an MPU violation raises MemManage rather than HardFault.
pub fn memmanage_fault_enabled(shcsr: u32) -> (r: u32)
    ensures
        r == shcsr | SHCSR_MEMFAULTENA,
{
    shcsr | SHCSR_MEMFAULTENA
}

/// Bring the MPU up, given the value of its type register: refused when
/// the type register reports no regions; otherwise the fixed regions are
/// programmed and the MPU is enabled with the privileged default map and
/// during fault handlers.
pub fn init_mpu(mpu: &mut MpuRegisters, mpu_type: u32) -> (r: Result<(), &'static str>)
    ensures
        (mpu_type >> 8u32) & 0xFF == 0 ==> *final(mpu) == *old(mpu) && (r matches Err(m) && m@
            == "MPU not available"@),
        (mpu_type >> 8u32) & 0xFF != 0 ==> r is Ok && final(mpu).ctrl == MPU_CTRL_ENABLE
            | MPU_CTRL_HFNMIENA | MPU_CTRL_PRIVDEFENA && basic_regions_set(
            old(mpu).regions@,
            final(mpu).regions@,
        ),
{
    let num_regions = (mpu_type >> 8) & 0xFF;
    if num_regions == 0 {
        proof { reveal_strlit("MPU not available"); }
        return Err("MPU not available");
    }
    mpu.ctrl = 0;
    let r = configure_basic_regions(mpu);
    if r.is_err() {
        return r;
    }
    mpu.ctrl = MPU_CTRL_ENABLE | MPU_CTRL_HFNMIENA | MPU_CTRL_PRIVDEFENA;
    Ok(())
}

/// `2^e`.
pub open spec fn two_pow(e: nat) -> nat
    decreases e,
{
    if e == 0 {
        1
    } else {
        2 * two_pow((e - 1) as nat)
    }
}

/// `two_pow` grows with its exponent.
pub proof fn lemma_two_pow_monotonic(a: nat, b: nat)
    requires
        a <= b,
    ensures
        two_pow(a) <= two_pow(b),
    decreases b,
{
    if a < b {
        lemma_two_pow_monotonic(a, (b - 1) as nat);
    }
}

/// The powers of two that the region sizes use.
pub proof fn lemma_two_pow_values()
    ensures
        two_pow(5) == 32,
        two_pow(14) == 16384,
        two_pow(15) == 32768,
        two_pow(18) == 262144,
        two_pow(19) == 524288,
        two_pow(31) == 0x8000_0000,
        two_pow(32) == 0x1_0000_0000,
{
    reveal_with_fuel(two_pow, 33);
}

/// The encoding the MPU gets for a region that must hold `size` bytes:
/// the smallest `e` in `4..=31` whose region of `2^(e+1)` bytes covers `size`
/// (a size of at most 4 GiB).
pub open spec fn is_size_encoding_for(size: nat, e: nat) -> bool {
    &&& 4 <= e <= 31
    &&& size <= two_pow(e + 1)
    &&& (e == 4 || two_pow(e) < size)
}

/// The MPU size encoding that a region must have to hold `size` bytes.
pub open spec fn encoding_search(size: nat, e: nat) -> nat
    decreases 31 - e,
{
    if e >= 31 || size <= two_pow(e + 1) {
        e
    } else {
        encoding_search(size, e + 1)
    }
}

/// The search finds the encoding.
pub proof fn lemma_encoding_search(size: nat, e: nat)
    requires
        size >= 32,
        size <= 0x1_0000_0000,
        4 <= e <= 31,
        e == 4 || two_pow(e) < size,
    ensures
        is_size_encoding_for(size, encoding_search(size, e)),
    decreases 31 - e,
{
    lemma_two_pow_values();
    if e >= 31 || size <= two_pow(e + 1) {
    } else {
        lemma_encoding_search(size, e + 1);
    }
}

/// Convert a size in bytes to the MPU region size encoding
/// (region size = 2^(encoding + 1); regions span 32 bytes to 4 GiB).
pub fn region_size_encoding(size_bytes: usize) -> (r: Result<u32, &'static str>)
    ensures
        size_bytes < 32 ==> (r matches Err(msg) && msg@ == "Region too small (minimum 32 bytes)"@),
        size_bytes > 0x1_0000_0000 ==> (r matches Err(msg) && msg@ == "Region too large"@),
        32 <= size_bytes <= 0x1_0000_0000 ==> (r matches Ok(e) && is_size_encoding_for(size_bytes as nat, e as nat)
            && e as nat == encoding_search(size_bytes as nat, 4)),
{
    if size_bytes < 32 {
        proof { reveal_strlit("Region too small (minimum 32 bytes)"); }
        return Err("Region too small (minimum 32 bytes)");
    }
    if size_bytes as u64 > 0x1_0000_0000 {
        return Err("Region too large");
    }
    let mut encoding: u32 = 4;
    let mut region_size: u64 = 32;
    proof { lemma_two_pow_values(); }
    while region_size < size_bytes as u64 && encoding < 31
        invariant
            4 <= encoding <= 31,
            region_size == two_pow(encoding as nat + 1),
            size_bytes >= 32,
            size_bytes <= 0x1_0000_0000,
            encoding == 4 || two_pow(encoding as nat) < size_bytes,
        decreases 31 - encoding,
    {
        proof {
            lemma_two_pow_monotonic(encoding as nat + 1, 31);
            lemma_two_pow_values();
        }
        encoding = encoding + 1;
        region_size = region_size * 2;
        assert(region_size == two_pow(encoding as nat + 1));
    }
    proof {
        lemma_encoding_search(size_bytes as nat, 4);
        lemma_encoding_unique(size_bytes as nat, encoding as nat, encoding_search(size_bytes as nat, 4));
    }
    Ok(encoding)
}


/// `1 << n` is `2^n`.
pub proof fn lemma_shl_is_two_pow(n: u64)
    requires
        n < 64,
    ensures
        (1u64 << n) as nat == two_pow(n as nat),
    decreases n,
{
    if n == 0 {
        assert((1u64 << 0u64) == 1u64) by (bit_vector);
    } else {
        lemma_shl_is_two_pow((n - 1) as u64);
        assert((1u64 << n) == 2 * (1u64 << ((n - 1) as u64))) by (bit_vector)
            requires
                1 <= n < 64,
        ;
    }
}

/// Round `addr` up to a multiple of `size`, by the mask `!(size - 1)`;
/// for a power-of-two `size` this is the first multiple of `size` at or above `addr`.
pub fn align_to_region_size(addr: u32, size: u32) -> (r: u32)
    requires
        size >= 1,
        addr + size <= u32::MAX,
    ensures
        r == (((addr + size - 1) as u32) & !((size - 1) as u32)),
        forall|k: u32|
            k < 32 && size == (1u32 << k) ==> r % size == 0 && addr <= r && r < addr + size,
{
    let alignment = size;
    let r = (addr + alignment - 1) & !(alignment - 1);
    assert forall|k: u32| k < 32 && size == (1u32 << k) implies r % size == 0 && addr <= r && r
        < addr + size by {
        let x = (addr + size - 1) as u32;
        assert(r == x & !((size - 1) as u32));
        assert((x & !((size - 1) as u32)) % size == 0 && (x & !((size - 1) as u32)) <= x && x - (x
            & !((size - 1) as u32)) < size) by (bit_vector)
            requires
                k < 32,
                size == (1u32 << k),
        ;
    }
    r
}

/// A live allocation of task `t`.
pub open spec fn is_live_allocation_of(a: StackAllocation, t: u32) -> bool {
    !a.is_free && a.task_id == t
}

/// `i` is the first live allocation of task `t` in `s`.
pub open spec fn is_first_live_allocation(s: Seq<StackAllocation>, i: int, t: u32) -> bool {
    &&& 0 <= i < s.len()
    &&& is_live_allocation_of(s[i], t)
    &&& forall|j: int| 0 <= j < i ==> !is_live_allocation_of(s[j], t)
}

/// The index of the first live allocation of task `t`.
pub fn find_live_allocation(allocations: &Vec<StackAllocation>, task_id: u32) -> (r: Option<usize>)
    ensures
        r matches Some(i) ==> is_first_live_allocation(allocations@, i as int, task_id),
        r is None ==> forall|i: int|
            0 <= i < allocations.len() ==> !is_live_allocation_of(allocations@[i], task_id),
{
    let mut i: usize = 0;
    while i < allocations.len()
        invariant
            0 <= i <= allocations.len(),
            forall|j: int| 0 <= j < i ==> !is_live_allocation_of(allocations@[j], task_id),
        decreases allocations.len() - i,
    {
        if !allocations[i].is_free && allocations[i].task_id == task_id {
            return Some(i);
        }
        i = i + 1;
    }
    None
}

/// `new` differs from `old` at most in region `num`: the control register
/// and every other region are as they were.
pub open spec fn only_region_changed(old: MpuRegisters, new: MpuRegisters, num: int) -> bool {
    &&& new.ctrl == old.ctrl
    &&& forall|j: int| 0 <= j < 8 && j != num ==> #[trigger] new.regions@[j] == old.regions@[j]
}

/// `mpu` went to `new`, with result `r`, by programming region `region_num`
/// to cover `size` bytes at `base` read/write for all and execute-never.
#[verifier::opaque]
pub open spec fn stack_region_programmed(
    old_mpu: MpuRegisters,
    new_mpu: MpuRegisters,
    r: Result<(), &'static str>,
    region_num: u8,
    base: u32,
    size: nat,
) -> bool {
    if size < 32 {
        new_mpu == old_mpu && (r matches Err(m) && m@ == "Region too small (minimum 32 bytes)"@)
    } else if size > 0x1_0000_0000 {
        new_mpu == old_mpu && (r matches Err(m) && m@ == "Region too large"@)
    } else if region_num >= 8 {
        new_mpu == old_mpu && (r matches Err(m) && m@ == "Invalid region number"@)
    } else {
        &&& r is Ok
        &&& new_mpu.ctrl == old_mpu.ctrl
        &&& new_mpu.regions@ == old_mpu.regions@.update(
            region_num as int,
            RegionRegisters {
                rbar: base,
                rasr: rasr_word(encoding_search(size, 4) as u32, MPU_AP_PRIV_RW_USER_RW, true),
            },
        )
    }
}

/// Protect a task's stack with region `region_num`. The base and size come
/// from the task's first live allocation when there is one (the MPU-aligned
/// base and the power-of-two region size), else from the arguments.
pub fn configure_task_stack_protection(
    mpu: &mut MpuRegisters,
    region_num: u8,
    stack_base: u32,
    stack_size: u32,
    task_id: u32,
    allocations: &Vec<StackAllocation>,
) -> (r: Result<(), &'static str>)
    requires
        forall|i: int|
            0 <= i < allocations.len() ==> allocations@[i].region_size_words * 4 <= usize::MAX,
    ensures
        only_region_changed(*old(mpu), *final(mpu), region_num as int),
        forall|i: int|
            is_first_live_allocation(allocations@, i, task_id) ==> stack_region_programmed(
                *old(mpu),
                *final(mpu),
                r,
                region_num,
                allocations@[i].base_addr,
                (allocations@[i].region_size_words * 4) as nat,
            ),
        (forall|i: int|
            0 <= i < allocations.len() ==> !is_live_allocation_of(allocations@[i], task_id))
            ==> stack_region_programmed(
            *old(mpu),
            *final(mpu),
            r,
            region_num,
            stack_base,
            stack_size as nat,
        ),
{
    proof {
        reveal(stack_region_programmed);
    }
    let (aligned_base, region_size_bytes) = match find_live_allocation(allocations, task_id) {
        Some(i) => (allocations[i].base_addr, allocations[i].region_size_words * 4),
        None => (stack_base, stack_size as usize),
    };
    let size_encoding = match region_size_encoding(region_size_bytes) {
        Ok(e) => e,
        Err(m) => {
            return Err(m);
        },
    };
    configure_region(mpu, region_num, aligned_base, size_encoding, MPU_AP_PRIV_RW_USER_RW, true)
}

/// What a region's registers say, when the region is enabled.
#[derive(Debug, Clone, Copy, PartialEq, Eq, Structural)]
pub struct RegionInfo {
    pub base_addr: u32,
    pub size_bytes: u64,
    pub access_permission: u32,
    pub execute_never: bool,
}

/// Decode a region's registers; `None` for a disabled region.
pub fn decode_region(regs: RegionRegisters) -> (r: Option<RegionInfo>)
    ensures
        r is None <==> !rasr_enabled(regs.rasr),
        r matches Some(info) ==> {
            &&& info.base_addr == rbar_base(regs.rbar)
            &&& info.size_bytes as nat == two_pow(rasr_size_field(regs.rasr) as nat + 1)
            &&& info.access_permission == rasr_ap_field(regs.rasr)
            &&& info.execute_never == rasr_xn_flag(regs.rasr)
        },
{
    let rasr = regs.rasr;
    if rasr & MPU_RASR_ENABLE == 0 {
        return None;
    }
    let size_encoding = (rasr >> MPU_RASR_SIZE_SHIFT) & 0x1F;
    assert(((rasr >> 1u32) & 0x1Fu32) < 32) by (bit_vector);
    let shift = (size_encoding + 1) as u64;
    proof { lemma_shl_is_two_pow(shift); }
    Some(
        RegionInfo {
            base_addr: regs.rbar & 0xFFFF_FFE0,
            size_bytes: 1u64 << shift,
            access_permission: (rasr >> MPU_RASR_AP_SHIFT) & 0x7,
            execute_never: rasr & MPU_RASR_XN != 0,
        },
    )
}

/// The name of an access permission field value.
pub open spec fn permission_text(ap: u32) -> &'static str {
    if ap == 0 {
        "NO_ACCESS"
    } else if ap == 1 {
        "PRIV_RW"
    } else if ap == 2 {
        "PRIV_RW/USER_RO"
    } else if ap == 3 {
        "PRIV_RW/USER_RW"
    } else if ap == 5 {
        "PRIV_RO"
    } else if ap == 6 {
        "PRIV_RO/USER_RO"
    } else {
        "UNKNOWN"
    }
}

/// The name of an access permission field value, as the region dump shows it.
pub fn permission_name(ap: u32) -> (s: &'static str)
    ensures
        s@ == permission_text(ap)@,
{
    match ap {
        0 => "NO_ACCESS",
        1 => "PRIV_RW",
        2 => "PRIV_RW/USER_RO",
        3 => "PRIV_RW/USER_RW",
        5 => "PRIV_RO",
        6 => "PRIV_RO/USER_RO",
        _ => "UNKNOWN",
    }
}

/// How many regions to show, given the type register: at most eight.
pub fn region_count(mpu_type: u32) -> (n: u8)
    ensures
        n as u32 == if (mpu_type >> 8u32) & 0xFF < 8 { (mpu_type >> 8u32) & 0xFF } else { 8 },
{
    let num = (mpu_type >> 8) & 0xFF;
    if num < 8 {
        num as u8
    } else {
        8
    }
}

} // verus!
