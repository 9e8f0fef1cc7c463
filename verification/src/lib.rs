//! A small Cortex-M kernel core: MPU region bookkeeping, process slots,
//! a round-robin task scheduler, a supervisor-call dispatcher and a
//! mediated peripheral driver framework.
use vstd::prelude::*;

pub mod appdecl;
pub mod bench;
pub mod board;
pub mod drivers;
pub mod fault;
pub mod led;
pub mod mpu;
pub mod process;
pub mod registry;
pub mod sched;
pub mod svc;
pub mod syscalls;
pub mod tasks;

verus! {

/// The most applications the registry and the scheduler hold.
pub const MAX_APPS: usize = 16;
/// Bytes in the shared application stack pool.
pub const APP_STACK_POOL_BYTES: usize = 65536;
/// Words in the shared application stack pool.
pub const APP_STACK_POOL_WORDS: usize = 16384;
/// The smallest application stack, in bytes.
pub const MIN_APP_STACK_BYTES: usize = 1024;
/// The smallest application stack, in words.
pub const MIN_STACK_WORDS: usize = 256;
/// Stack sizes are kept to a multiple of this many words.
pub const STACK_ALIGNMENT_WORDS: usize = 2;
/// Stack sizes are kept to a multiple of this many bytes.
pub const STACK_ALIGNMENT_BYTES: usize = 8;

/// SRAM size of the board (128 KiB).
pub const TOTAL_SRAM_SIZE: u32 = 131072;
/// Start of SRAM.
pub const SRAM_BASE: u32 = 0x2000_0000;
/// The kernel's RAM starts the SRAM.
pub const KERNEL_RAM_BASE: u32 = 0x2000_0000;
/// 32 KiB of kernel RAM.
pub const KERNEL_RAM_SIZE: u32 = 32768;
/// Process RAM follows the kernel's.
pub const PROCESS_RAM_BASE: u32 = 0x2000_8000;
/// 96 KiB of process RAM.
pub const PROCESS_RAM_SIZE: u32 = 98304;
/// Each process gets an 8 KiB slot.
pub const PROCESS_SLOT_SIZE: u32 = 8192;
/// Twelve slots fill the process RAM.
pub const MAX_PROCESSES: usize = 12;
/// Each slot ends in a 1 KiB grant region that only the kernel may touch.
pub const GRANT_REGION_SIZE: u32 = 1024;

/// The constants agree with each other.
pub proof fn lemma_layout_constants()
    ensures
        APP_STACK_POOL_WORDS * 4 == APP_STACK_POOL_BYTES,
        MIN_STACK_WORDS * 4 == MIN_APP_STACK_BYTES,
        STACK_ALIGNMENT_WORDS * 4 == STACK_ALIGNMENT_BYTES,
        PROCESS_RAM_BASE == KERNEL_RAM_BASE + KERNEL_RAM_SIZE,
        PROCESS_RAM_SIZE == TOTAL_SRAM_SIZE - KERNEL_RAM_SIZE,
        MAX_PROCESSES as u32 * PROCESS_SLOT_SIZE == PROCESS_RAM_SIZE,
{
}

} // verus!
