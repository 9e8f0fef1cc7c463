//! Fault diagnosis: what the hard-fault handler reads off the fault status
//! registers, the stacked program counter and the CONTROL register.
use vstd::prelude::*;

verus! {

/// Start of the on-chip flash.
pub const FAULT_FLASH_START: u32 = 0x0800_0000;
/// End of the on-chip flash (512 KiB).
pub const FAULT_FLASH_END: u32 = 0x0808_0000;
/// Start of SRAM.
pub const FAULT_RAM_START: u32 = 0x2000_0000;
/// End of SRAM (128 KiB).
pub const FAULT_RAM_END: u32 = 0x2002_0000;

/// Address of the configurable fault status register.
pub const SCB_CFSR: u32 = 0xE000_ED28;
/// Address of the hard fault status register.
pub const SCB_HFSR: u32 = 0xE000_ED2C;
/// Address of the memory management fault address register.
pub const SCB_MMFAR: u32 = 0xE000_ED34;
/// Address of the bus fault address register.
pub const SCB_BFAR: u32 = 0xE000_ED38;
/// Address of the system handler control and state register.
pub const SCB_SHCSR: u32 = 0xE000_ED24;
/// Writing this to the memory management fault status byte clears every flag.
pub const MMFSR_CLEAR_ALL: u8 = 0xFF;

/// Where a faulting program counter points.
#[derive(Copy, Clone, Debug, PartialEq, Eq, Structural)]
pub enum PcRegion {
    /// In flash: application or kernel code.
    Flash,
    /// In RAM: corrupted execution or a stack overflow.
    Ram,
    /// Nowhere valid.
    Invalid,
}

/// The region a program counter points into.
pub open spec fn pc_region(pc: u32) -> PcRegion {
    if FAULT_FLASH_START <= pc < FAULT_FLASH_END {
        PcRegion::Flash
    } else if FAULT_RAM_START <= pc < FAULT_RAM_END {
        PcRegion::Ram
    } else {
        PcRegion::Invalid
    }
}

/// Classify a faulting program counter.
pub fn classify_pc(pc: u32) -> (r: PcRegion)
    ensures
        r == pc_region(pc),
{
    if pc >= FAULT_FLASH_START && pc < FAULT_FLASH_END {
        PcRegion::Flash
    } else if pc >= FAULT_RAM_START && pc < FAULT_RAM_END {
        PcRegion::Ram
    } else {
        PcRegion::Invalid
    }
}

/// A faulting program counter in on-chip flash (`0x0800_0000` up to
/// `0x0808_0000`) is classified as flash, one in SRAM (`0x2000_0000` up to
/// `0x2002_0000`) as RAM, and every other one as invalid.
pub proof fn lemma_pc_classification(pc: u32)
    ensures
        0x0800_0000 <= pc < 0x0808_0000 ==> pc_region(pc) == PcRegion::Flash,
        0x2000_0000 <= pc < 0x2002_0000 ==> pc_region(pc) == PcRegion::Ram,
        !(0x0800_0000 <= pc < 0x0808_0000) && !(0x2000_0000 <= pc < 0x2002_0000) ==> pc_region(pc)
            == PcRegion::Invalid,
{
}

/// The three fault status fields packed in CFSR, and whether the fault
/// address registers hold a valid address.
#[derive(Copy, Clone, Debug, PartialEq, Eq, Structural)]
pub struct FaultStatus {
    /// Memory management fault status (bits 0 to 7).
    pub mmfsr: u8,
    /// Bus fault status (bits 8 to 15).
    pub bfsr: u8,
    /// Usage fault status (bits 16 to 31).
    pub ufsr: u16,
    /// MMFAR holds the faulting address (MMFSR bit 7).
    pub mmfar_valid: bool,
    /// BFAR holds the faulting address (BFSR bit 7).
    pub bfar_valid: bool,
}

/// Split CFSR into its fields.
pub fn decode_cfsr(cfsr: u32) -> (r: FaultStatus)
    ensures
        r.mmfsr == cfsr & 0xFF,
        r.bfsr == (cfsr >> 8) & 0xFF,
        r.ufsr == (cfsr >> 16) & 0xFFFF,
        r.mmfar_valid == (cfsr & 0x80 != 0),
        r.bfar_valid == ((cfsr >> 8) & 0x80 != 0),
{
    let mmfsr = (cfsr & 0xFF) as u8;
    let bfsr = ((cfsr >> 8) & 0xFF) as u8;
    let ufsr = ((cfsr >> 16) & 0xFFFF) as u16;
    assert((cfsr & 0xFF) as u8 == cfsr & 0xFF && ((cfsr & 0xFF) as u8) & 0x80 == cfsr & 0x80) by (bit_vector);
    assert(((cfsr >> 8) & 0xFF) as u8 == (cfsr >> 8) & 0xFF && (((cfsr >> 8) & 0xFF) as u8) & 0x80 == (cfsr >> 8)
        & 0x80) by (bit_vector);
    assert(((cfsr >> 16) & 0xFFFF) as u16 == (cfsr >> 16) & 0xFFFF) by (bit_vector);
    FaultStatus { mmfsr, bfsr, ufsr, mmfar_valid: (mmfsr & 0x80) != 0, bfar_valid: (bfsr & 0x80) != 0 }
}

/// The three fields put back together give CFSR again.
pub proof fn lemma_cfsr_fields(cfsr: u32)
    ensures
        (cfsr & 0xFF) | (((cfsr >> 8) & 0xFF) << 8) | (((cfsr >> 16) & 0xFFFF) << 16) == cfsr,
{
    assert((cfsr & 0xFF) | (((cfsr >> 8) & 0xFF) << 8) | (((cfsr >> 16) & 0xFFFF) << 16) == cfsr) by (bit_vector);
}

/// The usage fault causes set in UFSR.
#[derive(Copy, Clone, Debug, PartialEq, Eq, Structural)]
pub struct UsageFaultFlags {
    /// Undefined instruction.
    pub undefinstr: bool,
    /// Invalid state, such as a cleared Thumb bit.
    pub invstate: bool,
    /// Invalid PC load.
    pub invpc: bool,
    /// No coprocessor.
    pub nocp: bool,
    /// Unaligned access.
    pub unaligned: bool,
    /// Division by zero.
    pub divbyzero: bool,
}

/// The causes a UFSR value reports.
pub fn usage_fault_flags(ufsr: u16) -> (r: UsageFaultFlags)
    ensures
        r.undefinstr == (ufsr & 0x0001 != 0),
        r.invstate == (ufsr & 0x0002 != 0),
        r.invpc == (ufsr & 0x0004 != 0),
        r.nocp == (ufsr & 0x0008 != 0),
        r.unaligned == (ufsr & 0x0100 != 0),
        r.divbyzero == (ufsr & 0x0200 != 0),
{
    UsageFaultFlags {
        undefinstr: (ufsr & 0x0001) != 0,
        invstate: (ufsr & 0x0002) != 0,
        invpc: (ufsr & 0x0004) != 0,
        nocp: (ufsr & 0x0008) != 0,
        unaligned: (ufsr & 0x0100) != 0,
        divbyzero: (ufsr & 0x0200) != 0,
    }
}

/// What the CONTROL register says of the running code.
#[derive(Copy, Clone, Debug, PartialEq, Eq, Structural)]
pub struct PrivilegeState {
    /// nPRIV (bit 0) is clear.
    pub privileged: bool,
    /// SPSEL (bit 1) is set: the process stack is in use.
    pub uses_psp: bool,
}

/// Read the privilege and stack selection out of CONTROL.
pub fn privilege_state(control: u32) -> (r: PrivilegeState)
    ensures
        r.privileged == (control & 0x01 == 0),
        r.uses_psp == (control & 0x02 != 0),
{
    PrivilegeState { privileged: (control & 0x01) == 0, uses_psp: (control & 0x02) != 0 }
}

/// The execution model a CONTROL value stands for.
#[derive(Copy, Clone, Debug, PartialEq, Eq, Structural)]
pub enum ExecutionState {
    /// Unprivileged thread mode on the process stack: the intended model
    /// for applications.
    UnprivilegedThread,
    /// Privileged thread mode on the process stack: trust is not separated.
    PrivilegedThread,
    /// On the main stack: handler (kernel or interrupt) context.
    Handler,
}

/// The execution model of a privilege state.
pub open spec fn execution_state_of(p: PrivilegeState) -> ExecutionState {
    if p.uses_psp && !p.privileged {
        ExecutionState::UnprivilegedThread
    } else if p.uses_psp && p.privileged {
        ExecutionState::PrivilegedThread
    } else {
        ExecutionState::Handler
    }
}

/// Classify the current execution state from CONTROL.
pub fn execution_state(control: u32) -> (r: ExecutionState)
    ensures
        r == execution_state_of(
            PrivilegeState { privileged: control & 0x01 == 0, uses_psp: control & 0x02 != 0 },
        ),
{
    let p = privilege_state(control);
    if p.uses_psp && !p.privileged {
        ExecutionState::UnprivilegedThread
    } else if p.uses_psp && p.privileged {
        ExecutionState::PrivilegedThread
    } else {
        ExecutionState::Handler
    }
}

/// What the hard-fault handler concludes from the registers it reads.
#[derive(Copy, Clone, Debug, PartialEq, Eq, Structural)]
pub struct HardFaultReport {
    pub pc_region: PcRegion,
    pub status: FaultStatus,
    pub usage: UsageFaultFlags,
    pub privilege: PrivilegeState,
    /// Unprivileged code ran an undefined (privileged) instruction.
    pub privileged_instruction_suspected: bool,
}

/// Analyze a hard fault from the stacked program counter, CFSR and CONTROL.
pub fn analyze_hard_fault(pc: u32, cfsr: u32, control: u32) -> (r: HardFaultReport)
    ensures
        r.pc_region == pc_region(pc),
        r.status.mmfsr == cfsr & 0xFF,
        r.status.bfsr == (cfsr >> 8) & 0xFF,
        r.status.ufsr == (cfsr >> 16) & 0xFFFF,
        r.status.mmfar_valid == (cfsr & 0x80 != 0),
        r.status.bfar_valid == ((cfsr >> 8) & 0x80 != 0),
        r.usage.undefinstr == ((cfsr >> 16) & 0x0001 != 0),
        r.usage.invstate == ((cfsr >> 16) & 0x0002 != 0),
        r.usage.invpc == ((cfsr >> 16) & 0x0004 != 0),
        r.usage.nocp == ((cfsr >> 16) & 0x0008 != 0),
        r.usage.unaligned == ((cfsr >> 16) & 0x0100 != 0),
        r.usage.divbyzero == ((cfsr >> 16) & 0x0200 != 0),
        r.privilege.privileged == (control & 0x01 == 0),
        r.privilege.uses_psp == (control & 0x02 != 0),
        r.privileged_instruction_suspected == (control & 0x01 != 0 && (cfsr >> 16) & 0x0001 != 0),
{
    let status = decode_cfsr(cfsr);
    let usage = usage_fault_flags(status.ufsr);
    let privilege = privilege_state(control);
    let u = status.ufsr;
    assert(u == (cfsr >> 16) & 0xFFFF ==> (u & 0x0001 == (cfsr >> 16) & 0x0001 && u & 0x0002 == (cfsr >> 16) & 0x0002
        && u & 0x0004 == (cfsr >> 16) & 0x0004 && u & 0x0008 == (cfsr >> 16) & 0x0008 && u & 0x0100 == (cfsr >> 16)
        & 0x0100 && u & 0x0200 == (cfsr >> 16) & 0x0200)) by (bit_vector);
    HardFaultReport {
        pc_region: classify_pc(pc),
        status,
        usage,
        privilege,
        privileged_instruction_suspected: !privilege.privileged && usage.undefinstr,
    }
}

} // verus!
