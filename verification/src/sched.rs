//! The task scheduler: task control blocks, the MPU-aligned stack pool,
//! initial exception frames and round-robin switching.
use vstd::prelude::*;
use crate::mpu::{
    encoding_search, is_size_encoding_for, lemma_encoding_search, lemma_encoding_unique,
    lemma_shl_is_two_pow, lemma_two_pow_monotonic, lemma_two_pow_values, region_size_encoding, two_pow,
};
use crate::registry::AppMetadata;
use crate::{APP_STACK_POOL_BYTES, APP_STACK_POOL_WORDS, MAX_APPS, MIN_APP_STACK_BYTES, MIN_STACK_WORDS};

verus! {

/// What stops the system: the kernel halts on each of these.
#[derive(Debug, Clone, Copy, PartialEq, Eq, Structural)]
pub enum Fatal {
    /// A pool stack of fewer than eight words has no MPU region.
    InvalidStackSize,
    /// No region-aligned place for the stack is left in the pool.
    StackPoolExhausted,
    /// The application gives neither an entry address nor an entry function.
    NoEntryFunction,
    /// Entry points are not resolved by symbol name.
    SymbolResolutionUnavailable,
    /// The entry point lies outside the code area.
    InvalidEntryPoint,
    /// The stack cannot hold an exception frame.
    StackTooSmall,
    /// The program counter of the first frame would be zero.
    NullProgramCounter,
    /// The program counter of the first frame lies outside flash.
    PcOutsideFlash,
    /// A statically provided stack is at address zero.
    NullStackPointer,
    /// A statically provided stack is smaller than the minimum.
    StaticStackTooSmall,
    /// A statically provided stack is not a multiple of the alignment.
    StaticStackMisaligned,
    /// More registered applications than task control blocks.
    TooManyApps,
    /// The next task's stack pointer lies outside SRAM.
    InvalidNextStackPointer,
    /// The next task's saved program counter lies outside flash.
    InvalidNextProgramCounter,
    /// The stack pointer being saved lies outside SRAM.
    InvalidSavedStackPointer,
    /// The program counter in the frame being saved lies outside flash.
    CorruptedSavedProgramCounter,
    /// The process slot of the task could not be synchronized.
    ProcessSyncFailed,
    /// The MPU could not be set up for the task's process.
    ProcessMpuFailed,
}

/// Scheduling state of a task.
#[derive(Debug, Clone, Copy, PartialEq, Eq, Structural)]
pub enum TaskState {
    Ready,
    Running,
    Blocked,
}

/// A task control block: the saved context and the task's identity and stack.
#[derive(Clone, Copy)]
pub struct Tcb {
    pub sp: u32,
    pub r4: u32,
    pub r5: u32,
    pub r6: u32,
    pub r7: u32,
    pub r8: u32,
    pub r9: u32,
    pub r10: u32,
    pub r11: u32,
    pub control: u32,
    pub state: TaskState,
    pub app_id: u32,
    pub name: &'static str,
    pub stack_base: u32,
    pub stack_size: u32,
}

/// CONTROL value of a thread that runs on the process stack.
pub const CONTROL_USE_PSP: u32 = 2;

impl Tcb {
    /// A blank control block, ready, using the process stack.
    pub open spec fn is_blank(self) -> bool {
        &&& self.sp == 0
        &&& self.r4 == 0 && self.r5 == 0 && self.r6 == 0 && self.r7 == 0
        &&& self.r8 == 0 && self.r9 == 0 && self.r10 == 0 && self.r11 == 0
        &&& self.control == CONTROL_USE_PSP
        &&& self.state == TaskState::Ready
        &&& self.app_id == 0
        &&& self.name@ == ""@
        &&& self.stack_base == 0
        &&& self.stack_size == 0
    }

    pub fn blank() -> (r: Self)
        ensures
            r.is_blank(),
    {
        proof { reveal_strlit(""); }
        Tcb {
            sp: 0,
            r4: 0,
            r5: 0,
            r6: 0,
            r7: 0,
            r8: 0,
            r9: 0,
            r10: 0,
            r11: 0,
            control: CONTROL_USE_PSP,
            state: TaskState::Ready,
            app_id: 0,
            name: "",
            stack_base: 0,
            stack_size: 0,
        }
    }
}

impl Default for Tcb {
    fn default() -> (r: Self)
        ensures
            r.is_blank(),
    {
        Tcb::blank()
    }
}

/// One stack handed out from the pool, placed so that an MPU region covers it.
#[derive(Debug, Clone, Copy)]
pub struct StackAllocation {
    pub start_offset: usize,
    pub size_words: usize,
    pub region_size_words: usize,
    pub base_addr: u32,
    pub task_id: u32,
    pub name: &'static str,
    pub is_free: bool,
}

/// A stack: its lowest address and its length in words.
#[derive(Debug, Clone, Copy, PartialEq, Eq, Structural)]
pub struct StackRegion {
    pub base_addr: u32,
    pub words: usize,
}

/// Round `v` up to a multiple of `a` by the mask `!(a - 1)`.
pub open spec fn align_up_spec(v: usize, a: usize) -> usize {
    ((v + a - 1) as usize) & !((a - 1) as usize)
}

/// Round `value` up to a multiple of `align_words` (a power of two): the
/// least multiple of `align_words` that is at least `value`.
pub fn align_up_words(value: usize, align_words: usize) -> (r: usize)
    requires
        align_words >= 1,
        value + align_words - 1 <= usize::MAX,
    ensures
        r == align_up_spec(value, align_words),
        forall|k: usize|
            k < usize::BITS && align_words == (1usize << k) ==> r % align_words == 0 && value <= r && r
                < value + align_words,
        align_words == 2 ==> r == value + value % 2,
{
    let r = (value + (align_words - 1)) & !(align_words - 1);
    assert forall|k: usize| k < usize::BITS && align_words == (1usize << k) implies r % align_words == 0 && value
        <= r && r < value + align_words by {
        let x = (value + align_words - 1) as usize;
        let m = (align_words - 1) as usize;
        vstd::bits::lemma_usize_pow2_no_overflow(k as nat);
        vstd::bits::lemma_usize_shl_is_mul(1, k);
        vstd::bits::lemma_usize_low_bits_mask_is_mod(x, k as nat);
        assert(align_words == vstd::arithmetic::power2::pow2(k as nat));
        assert(m == vstd::bits::low_bits_mask(k as nat) as usize);
        assert(x & m == x % align_words);
        assert(x & !m == x - (x & m)) by (bit_vector);
        assert(r == x & !m);
        assert(r == x - x % align_words);
        vstd::arithmetic::div_mod::lemma_fundamental_div_mod(x as int, align_words as int);
        vstd::arithmetic::div_mod::lemma_mod_multiples_basic(x as int / align_words as int, align_words as int);
        vstd::arithmetic::mul::lemma_mul_is_commutative(align_words as int, x as int / align_words as int);
        assert(r == (x as int / align_words as int) * align_words);
        assert(r % align_words == 0);
        assert(x % align_words < align_words);
        assert(x == value + align_words - 1);
    }
    if align_words == 2 {
        let w = (value + 1) as usize;
        assert(w & !1usize == w - w % 2) by (bit_vector);
    }
    r
}

/// The stack size in bytes that metadata asks for: zero means the minimum,
/// sizes are rounded up to 8 bytes, and never below the minimum.
pub open spec fn stack_bytes_for(stack_size: u32) -> nat {
    let raw: nat = if stack_size == 0 { MIN_APP_STACK_BYTES as nat } else { stack_size as nat };
    let aligned: nat = if raw % 8 == 0 { raw } else { ((raw + 7) / 8 * 8) as nat };
    if aligned < MIN_APP_STACK_BYTES { MIN_APP_STACK_BYTES as nat } else { aligned }
}

/// The stack size in bytes of an application.
pub fn metadata_stack_bytes(app: &AppMetadata) -> (r: usize)
    requires
        app.stack_size as nat + 7 <= usize::MAX,
    ensures
        r as nat == stack_bytes_for(app.stack_size),
        r % 8 == 0,
        r >= MIN_APP_STACK_BYTES,
{
    let raw = if app.stack_size == 0 {
        MIN_APP_STACK_BYTES
    } else {
        app.stack_size as usize
    };
    let aligned = if raw % 8 == 0 {
        raw
    } else {
        ((raw + 8 - 1) / 8) * 8
    };
    if aligned < MIN_APP_STACK_BYTES {
        MIN_APP_STACK_BYTES
    } else {
        aligned
    }
}

/// The stack size in words of an application: its byte size over four.
pub fn compute_stack_words(app: &AppMetadata) -> (r: usize)
    requires
        app.stack_size as nat + 7 <= usize::MAX,
    ensures
        r as nat * 4 == stack_bytes_for(app.stack_size),
        r >= MIN_STACK_WORDS,
        r % 2 == 0,
{
    let bytes = metadata_stack_bytes(app);
    assert((bytes + 3) / 4 == bytes / 4 && (bytes / 4) % 2 == 0 && bytes / 4 * 4 == bytes) by (nonlinear_arith)
        requires
            bytes % 8 == 0,
    ;
    let words = align_up_words((bytes + 3) / 4, 2);
    if words < MIN_STACK_WORDS {
        MIN_STACK_WORDS
    } else {
        words
    }
}

/// The size in bytes of the MPU region that holds `size` bytes.
pub open spec fn region_bytes_for(size: nat) -> nat {
    two_pow(encoding_search(size, 4) + 1)
}

/// Round `x` up to a multiple of the power of two `r`, by masking.
pub open spec fn round_up_pow2(x: u32, r: u32) -> u32 {
    ((x + r - 1) as u32) & !((r - 1) as u32)
}

/// Rounding up by masking: the result is a multiple of `r`, at or above
/// `x` and below `x + r`, and it grows with `x`.
#[verifier::rlimit(40)]
pub proof fn lemma_round_up_pow2(x: u32, y: u32, r: u32, k: u32)
    requires
        k < 32,
        r == (1u32 << k),
        x <= y,
        y + r <= u32::MAX,
    ensures
        round_up_pow2(x, r) % r == 0,
        x <= round_up_pow2(x, r) < x + r,
        round_up_pow2(x, r) <= round_up_pow2(y, r),
        k >= 5 ==> round_up_pow2(x, r) % 32 == 0,
{
    let ax = ((x + r - 1) as u32) & !((r - 1) as u32);
    let ay = ((y + r - 1) as u32) & !((r - 1) as u32);
    assert(ax % r == 0 && x <= ax && ax < x + r) by (bit_vector)
        requires
            k < 32,
            r == (1u32 << k),
            x <= y,
            y + r <= 0xFFFF_FFFFu32,
            ax == ((x + r - 1) as u32) & !((r - 1) as u32),
    ;
    assert(ax <= ay) by (bit_vector)
        requires
            k < 32,
            r == (1u32 << k),
            x <= y,
            y + r <= 0xFFFF_FFFFu32,
            ax == ((x + r - 1) as u32) & !((r - 1) as u32),
            ay == ((y + r - 1) as u32) & !((r - 1) as u32),
    ;
    assert(k >= 5 ==> ax % 32 == 0) by (bit_vector)
        requires
            k < 32,
            r == (1u32 << k),
            x <= y,
            y + r <= 0xFFFF_FFFFu32,
            ax == ((x + r - 1) as u32) & !((r - 1) as u32),
    ;
}

/// Why a spawn did not produce a task.
#[derive(Debug, Clone, Copy, PartialEq, Eq, Structural)]
pub enum SpawnError {
    /// Every task control block is taken.
    MaximumTasks,
    /// The requested stack is below the minimum.
    StackSizeTooSmall,
    /// The kernel halts.
    Halted(Fatal),
}

impl SpawnError {
    /// The message of a refused spawn; `None` when the kernel halts instead.
    pub fn message(&self) -> (r: Option<&'static str>)
        ensures
            *self == SpawnError::MaximumTasks ==> (r matches Some(m) && m@ == "Maximum tasks reached"@),
            *self == SpawnError::StackSizeTooSmall ==> (r matches Some(m) && m@ == "Stack size too small"@),
            *self is Halted ==> r is None,
    {
        proof {
            reveal_strlit("Maximum tasks reached");
            reveal_strlit("Stack size too small");
        }
        match self {
            SpawnError::MaximumTasks => Some("Maximum tasks reached"),
            SpawnError::StackSizeTooSmall => Some("Stack size too small"),
            SpawnError::Halted(_) => None,
        }
    }
}

/// The word written twice at the bottom of every stack to detect overflows.
pub const STACK_CANARY: u32 = 0xDEAD_BEEF;
/// Entry points must lie in this code area.
pub const CODE_AREA_START: u32 = 0x0800_0000;
pub const CODE_AREA_END: u32 = 0x0810_0000;
/// Program counters must lie in flash.
pub const FLASH_START: u32 = 0x0800_0000;
pub const FLASH_END: u32 = 0x0808_0000;
/// Stack pointers must lie in SRAM.
pub const SRAM_START: u32 = 0x2000_0000;
pub const SRAM_END: u32 = 0x2002_0000;
/// Exception return value for thread mode that the first frame carries in LR.
pub const INITIAL_LR: u32 = 0xFFFF_FFFE;
/// xPSR with only the Thumb bit set.
pub const INITIAL_XPSR: u32 = 0x0100_0000;

/// What a new task's stack receives: the canary words at its base and the
/// hardware exception frame at its stack pointer.
#[derive(Debug, Clone, Copy)]
pub struct StackImage {
    pub canary_addr: u32,
    pub sp: u32,
    pub frame: [u32; 8],
}

/// The first exception frame of a task that starts at `pc`:
/// r0-r3, r12, LR, PC, xPSR.
pub open spec fn initial_frame(pc: u32) -> Seq<u32> {
    seq![0u32, 0x0101_0101u32, 0x0202_0202u32, 0x0303_0303u32, 0x1212_1212u32, INITIAL_LR, pc, INITIAL_XPSR]
}

/// The stack pointer of a new task: eight words below the top of its stack.
pub open spec fn initial_sp(stack: StackRegion) -> u32 {
    ((stack.base_addr as int + (stack.words as int - 8) * 4) % 0x1_0000_0000) as u32
}

/// The entry point an application resolves to: its entry address when set,
/// else the address of its entry function.
pub open spec fn resolved_entry(app: AppMetadata) -> Option<usize> {
    if app.entry != 0 {
        Some(app.entry)
    } else {
        match app.entry_fn {
            Some(f) => Some(f),
            None => None,
        }
    }
}

/// The outcome of the checks that starting a task makes, in order: the
/// entry point resolves, lies in the code area, the stack holds a frame,
/// and the program counter (Thumb bit cleared) is non-zero and in flash.
/// On success, the program counter with the Thumb bit set.
pub open spec fn start_check(app: AppMetadata, stack: StackRegion) -> Result<u32, Fatal> {
    match resolved_entry(app) {
        None => Err(Fatal::NoEntryFunction),
        Some(entry) => {
            let e = entry as u32;
            if e < CODE_AREA_START || e >= CODE_AREA_END {
                Err(Fatal::InvalidEntryPoint)
            } else if stack.words < 8 {
                Err(Fatal::StackTooSmall)
            } else if e & !1u32 == 0 {
                Err(Fatal::NullProgramCounter)
            } else if (e & !1u32) < FLASH_START || (e & !1u32) >= FLASH_END {
                Err(Fatal::PcOutsideFlash)
            } else {
                Ok((e & !1u32) | 1u32)
            }
        },
    }
}

/// The control block of a task just set up on `stack`: the stack pointer,
/// recognizable patterns in r4-r11, the process stack, ready.
pub open spec fn is_initial_tcb(t: Tcb, sp: u32, app_id: u32, name: &'static str) -> bool {
    &&& t.sp == sp
    &&& t.r4 == 0x4444_4444 && t.r5 == 0x5555_5555 && t.r6 == 0x6666_6666 && t.r7 == 0x7777_7777
    &&& t.r8 == 0x8888_8888 && t.r9 == 0x9999_9999 && t.r10 == 0xAAAA_AAAA && t.r11 == 0xBBBB_BBBB
    &&& t.control == CONTROL_USE_PSP
    &&& t.state == TaskState::Ready
    &&& t.app_id == app_id
    &&& t.name == name
}

/// The pool has room for at most this much: the pool lies well inside the address space.
pub const MAX_POOL_BASE: u32 = 0xFFFC_0000;

/// Scan the pool from word `start0` in steps of 32 words for a place where
/// a region of `region_size_bytes` fits at an address that is a multiple of
/// its size. Since the first candidate rounds up to the lowest such address,
/// only it can fit.
#[verifier::rlimit(40)]
fn search_region_slot(base: u32, start0: usize, region_size_bytes: u32, Ghost(k): Ghost<u32>) -> (r: Option<(usize, u32)>)
    requires
        base <= MAX_POOL_BASE,
        base % 8 == 0,
        start0 <= APP_STACK_POOL_WORDS,
        5 <= k < 32,
        region_size_bytes == (1u32 << k),
        32 <= region_size_bytes <= 65536,
        region_size_bytes % 32 == 0,
    ensures
        ({
            let a = round_up_pow2((base + start0 * 4) as u32, region_size_bytes);
            let off = (a - base) / 4;
            &&& (r is Some <==> off + region_size_bytes / 4 <= APP_STACK_POOL_WORDS)
            &&& (r matches Some((o, addr)) ==> {
                &&& o == off
                &&& addr == a
                &&& addr == base + o * 4
                &&& addr as int % region_size_bytes as int == 0
                &&& o >= start0
            })
        }),
{
    let region_size_words: usize = (region_size_bytes / 4) as usize;
    let mut search_offset = start0;
    let ghost first_aligned = round_up_pow2((base + start0 * 4) as u32, region_size_bytes);
    proof {
        lemma_round_up_pow2((base + start0 * 4) as u32, (base + start0 * 4) as u32, region_size_bytes, k);
    }
    loop
        invariant_except_break
            search_offset <= APP_STACK_POOL_WORDS,
        invariant
            base <= MAX_POOL_BASE,
            base % 8 == 0,
            start0 <= search_offset <= APP_STACK_POOL_WORDS + 32,
            5 <= k < 32,
            region_size_bytes == (1u32 << k),
            32 <= region_size_bytes <= 65536,
            region_size_bytes % 32 == 0,
            region_size_words == region_size_bytes / 4,
            first_aligned == round_up_pow2((base + start0 * 4) as u32, region_size_bytes),
            first_aligned % 32 == 0,
            first_aligned >= base + start0 * 4,
            search_offset > start0 ==> (first_aligned - base) / 4 + region_size_words > APP_STACK_POOL_WORDS,
        ensures
            (first_aligned - base) / 4 + region_size_words > APP_STACK_POOL_WORDS,
        decreases APP_STACK_POOL_WORDS + 32 - search_offset,
    {
        let candidate_addr = base + (search_offset as u32) * 4;
        proof {
            lemma_round_up_pow2((base + start0 * 4) as u32, candidate_addr, region_size_bytes, k);
            lemma_round_up_pow2(candidate_addr, candidate_addr, region_size_bytes, k);
            if search_offset == start0 {
                assert(candidate_addr == (base + start0 * 4) as u32);
            }
        }
        let aligned_addr = (candidate_addr + region_size_bytes - 1) & !(region_size_bytes - 1);
        assert(aligned_addr == round_up_pow2(candidate_addr, region_size_bytes));
        let aligned_offset = ((aligned_addr - base) / 4) as usize;
        if aligned_offset + region_size_words <= APP_STACK_POOL_WORDS {
            assert(search_offset == start0);
            assert(aligned_addr == base + aligned_offset * 4);
            return Some((aligned_offset, aligned_addr));
        }
        search_offset = search_offset + 32;
        if search_offset >= APP_STACK_POOL_WORDS {
            break;
        }
    }
    None
}

/// A stack allocated from the pool is recorded with these fields.
pub open spec fn allocation_record(
    a: StackAllocation,
    start: int,
    words: usize,
    region_words: int,
    base_addr: u32,
    task_id: u32,
    name: &'static str,
) -> bool {
    &&& a.start_offset == start
    &&& a.size_words == words
    &&& a.region_size_words == region_words
    &&& a.base_addr == base_addr
    &&& a.task_id == task_id
    &&& a.name == name
    &&& !a.is_free
}

/// What allocating `words` words from the pool for task `task_id` does:
/// refused for fewer than eight words or when no region-aligned place is
/// left; otherwise the stack goes at the first multiple of its region size
/// past the pool offset, the offset moves past the region, and the
/// allocation is recorded while the record has room.
pub open spec fn pool_allocation_outcome(
    old: Scheduler,
    new: Scheduler,
    words: usize,
    task_id: u32,
    name: &'static str,
    r: Result<StackRegion, Fatal>,
) -> bool {
    &&& new.tcbs == old.tcbs
    &&& new.n_tasks == old.n_tasks
    &&& new.curr == old.curr
    &&& new.stack_pool_base == old.stack_pool_base
    &&& new.first_switch == old.first_switch
    &&& new.next_task_psp == old.next_task_psp
    &&& words < 8 ==> r == Err::<StackRegion, Fatal>(Fatal::InvalidStackSize)
    &&& words > APP_STACK_POOL_WORDS ==> r == Err::<StackRegion, Fatal>(Fatal::StackPoolExhausted)
    &&& r is Err ==> new.stack_pool_offset == old.stack_pool_offset
            && new.allocations == old.allocations
    &&& 8 <= words <= APP_STACK_POOL_WORDS ==> ({
            let (start, region_words) = old.pool_placement(words);
            if start + region_words <= APP_STACK_POOL_WORDS {
                &&& r == Ok::<StackRegion, Fatal>(StackRegion {
                    base_addr: (old.stack_pool_base + start * 4) as u32,
                    words,
                })
                &&& new.stack_pool_offset == start + region_words
                &&& start >= old.stack_pool_offset
                &&& ((old.stack_pool_base + start * 4) as int) % (region_words * 4) == 0
                &&& words <= region_words
                &&& if old.allocations.len() < MAX_APPS {
                    &&& new.allocations.len() == old.allocations.len() + 1
                    &&& new.allocations@.drop_last() == old.allocations@
                    &&& allocation_record(
                        new.allocations@.last(),
                        start,
                        words,
                        region_words,
                        (old.stack_pool_base + start * 4) as u32,
                        task_id,
                        name,
                    )
                } else {
                    new.allocations == old.allocations
                }
            } else {
                r == Err::<StackRegion, Fatal>(Fatal::StackPoolExhausted)
            }
        })
}

/// What spawning a task at `entry_fn` with the stack size asked for does:
/// refused with every control block taken or a stack below the minimum;
/// halted when the pool has no room or the entry point fails the start
/// checks; otherwise the task gets the next control block, a pool stack and
/// its first frame.
pub open spec fn spawn_outcome(
    old: Scheduler,
    new: Scheduler,
    old_mpu: crate::mpu::MpuRegisters,
    new_mpu: crate::mpu::MpuRegisters,
    entry_fn: usize,
    name: &'static str,
    stack_size_bytes: Option<usize>,
    r: Result<(u32, StackImage), SpawnError>,
) -> bool {
    &&& new.curr == old.curr
    &&& new.stack_pool_base == old.stack_pool_base
    &&& r is Err ==> new.n_tasks == old.n_tasks && new_mpu == old_mpu
    &&& old.n_tasks >= MAX_APPS ==> r == Err::<(u32, StackImage), SpawnError>(SpawnError::MaximumTasks)
        && new == old && new_mpu == old_mpu
    &&& old.n_tasks < MAX_APPS && requested_stack_bytes(stack_size_bytes) < MIN_APP_STACK_BYTES ==> r
        == Err::<(u32, StackImage), SpawnError>(SpawnError::StackSizeTooSmall) && new == old && new_mpu == old_mpu
    &&& old.n_tasks < MAX_APPS && requested_stack_bytes(stack_size_bytes) >= MIN_APP_STACK_BYTES ==> ({
        let words = spawn_stack_words(stack_size_bytes);
        let (start, region_words) = old.pool_placement(words);
        let region = StackRegion { base_addr: (old.stack_pool_base + start * 4) as u32, words };
        if words > APP_STACK_POOL_WORDS || start + region_words > APP_STACK_POOL_WORDS {
            r == Err::<(u32, StackImage), SpawnError>(SpawnError::Halted(Fatal::StackPoolExhausted))
        } else {
            match start_check(spawned_app(entry_fn, name, old.n_tasks as u32, stack_size_bytes), region) {
                Err(f) => r == Err::<(u32, StackImage), SpawnError>(SpawnError::Halted(f)),
                Ok(pc) => {
                    &&& r matches Ok((id, image))
                    &&& id == old.n_tasks
                    &&& image.canary_addr == region.base_addr
                    &&& image.sp == initial_sp(region)
                    &&& image.frame@ == initial_frame(pc)
                    &&& crate::mpu::only_region_changed(old_mpu, new_mpu, (id % 6 + 2) as int)
                    &&& new.n_tasks == old.n_tasks + 1
                    &&& is_initial_tcb(new.tcbs@[old.n_tasks as int], initial_sp(region), id, name)
                    &&& forall|j: int| 0 <= j < MAX_APPS && j != old.n_tasks ==> new.tcbs@[j] == old.tcbs@[j]
                    &&& new.stack_pool_offset == start + region_words
                    &&& forall|i: int|
                        crate::mpu::is_first_live_allocation(new.allocations@, i, id) ==> exists|res: Result<
                            (),
                            &'static str,
                        >| #[trigger] crate::mpu::stack_region_programmed(
                            old_mpu,
                            new_mpu,
                            res,
                            (id % 6 + 2) as u8,
                            new.allocations@[i].base_addr,
                            (new.allocations@[i].region_size_words * 4) as nat,
                        )
                    &&& (forall|i: int|
                        0 <= i < new.allocations.len() ==> !crate::mpu::is_live_allocation_of(new.allocations@[i], id))
                        ==> exists|res: Result<(), &'static str>| #[trigger] crate::mpu::stack_region_programmed(
                        old_mpu,
                        new_mpu,
                        res,
                        (id % 6 + 2) as u8,
                        region.base_addr,
                        (words * 4) as u32 as nat,
                    )
                },
            }
        }
    })
}

/// The task table and the stack pool.
pub struct Scheduler {
    pub tcbs: Vec<Tcb>,
    pub n_tasks: usize,
    pub curr: usize,
    pub stack_pool_offset: usize,
    pub allocations: Vec<StackAllocation>,
    pub stack_pool_base: u32,
    pub first_switch: bool,
    pub next_task_psp: u32,
}

impl Scheduler {
    /// Well-formed: a full table, a count within it, the pool offset within the
    /// pool, the pool 8-byte aligned, and every recorded allocation a
    /// region-aligned piece of the used part of the pool, in order and apart.
    pub open spec fn wf(&self) -> bool {
        &&& self.tcbs.len() == MAX_APPS
        &&& self.n_tasks <= MAX_APPS
        &&& self.curr < MAX_APPS
        &&& self.stack_pool_offset <= APP_STACK_POOL_WORDS
        &&& self.stack_pool_base % 8 == 0
        &&& self.stack_pool_base <= MAX_POOL_BASE
        &&& self.allocations.len() <= MAX_APPS
        &&& forall|i: int| 0 <= i < self.allocations.len() ==> self.allocation_ok(#[trigger] self.allocations@[i])
        &&& forall|i: int, j: int|
            0 <= i < j < self.allocations.len() ==> #[trigger] self.allocations@[i].start_offset
                + self.allocations@[i].region_size_words <= #[trigger] self.allocations@[j].start_offset
    }

    /// A recorded allocation lies in the used part of the pool, at a base
    /// that is a multiple of its region size, and its request fits its region.
    pub open spec fn allocation_ok(&self, a: StackAllocation) -> bool {
        &&& a.start_offset + a.region_size_words <= self.stack_pool_offset
        &&& a.base_addr == self.stack_pool_base + a.start_offset * 4
        &&& a.region_size_words >= 8
        &&& (a.base_addr as int) % (a.region_size_words as int * 4) == 0
        &&& a.size_words <= a.region_size_words
    }

    /// An empty scheduler over a pool that starts at `stack_pool_base`.
    pub fn new(stack_pool_base: u32) -> (r: Self)
        requires
            stack_pool_base % 8 == 0,
            stack_pool_base <= MAX_POOL_BASE,
        ensures
            r.wf(),
            r.n_tasks == 0,
            r.curr == 0,
            r.stack_pool_offset == 0,
            r.allocations@.len() == 0,
            r.stack_pool_base == stack_pool_base,
            r.first_switch,
            r.next_task_psp == 0,
            forall|i: int| 0 <= i < MAX_APPS ==> (#[trigger] r.tcbs@[i]).is_blank(),
    {
        let mut tcbs: Vec<Tcb> = Vec::new();
        let mut i: usize = 0;
        while i < MAX_APPS
            invariant
                0 <= i <= MAX_APPS,
                tcbs.len() == i,
                forall|j: int| 0 <= j < i ==> (#[trigger] tcbs@[j]).is_blank(),
            decreases MAX_APPS - i,
        {
            tcbs.push(Tcb::blank());
            i = i + 1;
        }
        Scheduler {
            tcbs,
            n_tasks: 0,
            curr: 0,
            stack_pool_offset: 0,
            allocations: Vec::new(),
            stack_pool_base,
            first_switch: true,
            next_task_psp: 0,
        }
    }

    /// Where a pool stack of `words` words would go: the region of `words * 4`
    /// bytes, placed at the first multiple of its size at or after the
    /// (even-rounded) pool offset.
    pub open spec fn pool_placement(&self, words: usize) -> (int, int) {
        let region_bytes = region_bytes_for(words as nat * 4);
        let start = self.stack_pool_offset + self.stack_pool_offset % 2;
        let aligned = round_up_pow2((self.stack_pool_base + start * 4) as u32, region_bytes as u32);
        ((aligned - self.stack_pool_base) / 4, (region_bytes / 4) as int)
    }

    /// Record a pool stack placed at `aligned_offset` and move the pool offset past its region.
    fn commit_pool_stack(
        &mut self,
        aligned_offset: usize,
        region_size_words: usize,
        aligned_addr: u32,
        words: usize,
        task_id: u32,
        name: &'static str,
    )
        requires
            old(self).wf(),
            aligned_offset >= old(self).stack_pool_offset,
            aligned_offset + region_size_words <= APP_STACK_POOL_WORDS,
            aligned_addr == old(self).stack_pool_base + aligned_offset * 4,
            (aligned_addr as int) % (region_size_words as int * 4) == 0,
            8 <= region_size_words,
            words <= region_size_words,
        ensures
            final(self).wf(),
            final(self).tcbs == old(self).tcbs,
            final(self).n_tasks == old(self).n_tasks,
            final(self).curr == old(self).curr,
            final(self).stack_pool_base == old(self).stack_pool_base,
            final(self).first_switch == old(self).first_switch,
            final(self).next_task_psp == old(self).next_task_psp,
            final(self).stack_pool_offset == aligned_offset + region_size_words,
            if old(self).allocations.len() < MAX_APPS {
                &&& final(self).allocations.len() == old(self).allocations.len() + 1
                &&& final(self).allocations@.drop_last() == old(self).allocations@
                &&& allocation_record(
                    final(self).allocations@.last(),
                    aligned_offset as int,
                    words,
                    region_size_words as int,
                    aligned_addr,
                    task_id,
                    name,
                )
            } else {
                final(self).allocations == old(self).allocations
            },
    {
        self.stack_pool_offset = aligned_offset + region_size_words;
        if self.allocations.len() < MAX_APPS {
            self.allocations.push(
                StackAllocation {
                    start_offset: aligned_offset,
                    size_words: words,
                    region_size_words,
                    base_addr: aligned_addr,
                    task_id,
                    name,
                    is_free: false,
                },
            );
        }
        assert forall|i: int| 0 <= i < self.allocations.len() implies self.allocation_ok(
            #[trigger] self.allocations@[i],
        ) by {
            if i < old(self).allocations.len() {
                assert(old(self).allocation_ok(old(self).allocations@[i]));
            }
        }
        assert forall|i: int, j: int|
            0 <= i < j < self.allocations.len() implies #[trigger] self.allocations@[i].start_offset
                + self.allocations@[i].region_size_words
                <= #[trigger] self.allocations@[j].start_offset by {
            if j >= old(self).allocations.len() {
                assert(old(self).allocation_ok(old(self).allocations@[i]));
            }
        }
        assert(self.allocations@.drop_last() =~= old(self).allocations@ || self.allocations@ == old(self).allocations@);
    }

    /// Allocate a stack of `words` words from the pool so that an MPU region
    /// of the next power-of-two size covers it exactly, and record it.
    #[verifier::rlimit(50)]
    pub fn allocate_app_stack_dynamic(&mut self, words: usize, task_id: u32, name: &'static str) -> (r:
        Result<StackRegion, Fatal>)
        requires
            old(self).wf(),
        ensures
            final(self).wf(),
            pool_allocation_outcome(*old(self), *final(self), words, task_id, name, r),
    {
        if words > APP_STACK_POOL_WORDS {
            return Err(Fatal::StackPoolExhausted);
        }
        let requested_bytes: usize = words * 4;
        let size_encoding = match region_size_encoding(requested_bytes) {
            Ok(e) => e,
            Err(_) => {
                return Err(Fatal::InvalidStackSize);
            },
        };
        assert(8 <= words <= APP_STACK_POOL_WORDS);
        let ghost region_bytes_spec = region_bytes_for(words as nat * 4);
        proof {
            lemma_two_pow_values();
            lemma_encoding_search(words as nat * 4, 4);
            lemma_encoding_unique(words as nat * 4, size_encoding as nat, encoding_search(words as nat * 4, 4));
            if size_encoding >= 16 {
                lemma_two_pow_monotonic(16, size_encoding as nat);
                assert(two_pow(16) == 65536) by { reveal_with_fuel(two_pow, 17); }
            }
            assert(size_encoding <= 15);
            lemma_two_pow_monotonic(size_encoding as nat + 1, 16);
            lemma_two_pow_monotonic(5, size_encoding as nat + 1);
            assert(two_pow(16) == 65536) by { reveal_with_fuel(two_pow, 17); }
            lemma_shl_is_two_pow((size_encoding + 1) as u64);
        }
        let region_size_bytes: u32 = (1u64 << (size_encoding as u64 + 1)) as u32;
        assert(region_size_bytes == region_bytes_spec);
        assert(32 <= region_size_bytes <= 65536);
        let region_size_words: usize = (region_size_bytes / 4) as usize;
        let base = self.stack_pool_base;
        let start0 = align_up_words(self.stack_pool_offset, 2);
        let ghost k = (size_encoding + 1) as u32;
        proof {
            assert((1u64 << (size_encoding as u64 + 1)) == (1u32 << k) as u64) by (bit_vector)
                requires
                    size_encoding <= 15,
                    k == size_encoding + 1,
            ;
            assert(5 <= k < 32 ==> (1u32 << k) % 32 == 0) by (bit_vector);
        }
        match search_region_slot(base, start0, region_size_bytes, Ghost(k)) {
            Some((aligned_offset, aligned_addr)) => {
                self.commit_pool_stack(aligned_offset, region_size_words, aligned_addr, words, task_id, name);
                Ok(StackRegion { base_addr: aligned_addr, words })
            },
            None => Err(Fatal::StackPoolExhausted),
        }
    }

    /// Free the first live stack of task `task_id` (its pool space stays used).
    pub fn deallocate_app_stack(&mut self, task_id: u32) -> (r: bool)
        requires
            old(self).wf(),
        ensures
            final(self).wf(),
            final(self).tcbs == old(self).tcbs,
            final(self).n_tasks == old(self).n_tasks,
            final(self).curr == old(self).curr,
            final(self).stack_pool_offset == old(self).stack_pool_offset,
            final(self).stack_pool_base == old(self).stack_pool_base,
            final(self).first_switch == old(self).first_switch,
            final(self).next_task_psp == old(self).next_task_psp,
            final(self).allocations.len() == old(self).allocations.len(),
            r == exists|i: int| crate::mpu::is_first_live_allocation(old(self).allocations@, i, task_id),
            forall|i: int|
                crate::mpu::is_first_live_allocation(old(self).allocations@, i, task_id) ==> final(self).allocations@
                    == old(self).allocations@.update(i, StackAllocation { is_free: true, ..old(self).allocations@[i] }),
            !r ==> final(self).allocations == old(self).allocations,
    {
        match crate::mpu::find_live_allocation(&self.allocations, task_id) {
            Some(i) => {
                let mut a = self.allocations[i];
                a.is_free = true;
                self.allocations.set(i, a);
                assert forall|j: int| 0 <= j < self.allocations.len() implies self.allocation_ok(
                    #[trigger] self.allocations@[j],
                ) by {
                    assert(old(self).allocation_ok(old(self).allocations@[j]));
                }
                assert forall|x: int, y: int|
                    0 <= x < y < self.allocations.len() implies #[trigger] self.allocations@[x].start_offset
                        + self.allocations@[x].region_size_words
                        <= #[trigger] self.allocations@[y].start_offset by {
                    assert(old(self).allocations@[x].start_offset + old(self).allocations@[x].region_size_words
                        <= old(self).allocations@[y].start_offset);
                }
                true
            },
            None => false,
        }
    }

    /// Allocate a pool stack for no particular task.
    pub fn allocate_app_stack(&mut self, words: usize) -> (r: Result<StackRegion, Fatal>)
        requires
            old(self).wf(),
        ensures
            final(self).wf(),
            pool_allocation_outcome(*old(self), *final(self), words, 0, "legacy", r),
    {
        self.allocate_app_stack_dynamic(words, 0, "legacy")
    }

    /// Set up a new task in control block `idx` on `stack`: resolve and check
    /// its entry point, lay out the first exception frame below the top of the
    /// stack, fill the control block, and protect the stack with MPU region
    /// `2 + id % 6` (at the task's pool allocation, when it has one).
    pub fn init_app_stack_and_tcb(
        &mut self,
        mpu: &mut crate::mpu::MpuRegisters,
        app: &mut AppMetadata,
        idx: usize,
        stack: StackRegion,
    ) -> (r: Result<StackImage, Fatal>)
        requires
            old(self).wf(),
            idx < MAX_APPS,
            stack.words <= 0x4000_0000,
            stack.words * 4 <= usize::MAX,
        ensures
            final(self).wf(),
            final(self).n_tasks == old(self).n_tasks,
            final(self).curr == old(self).curr,
            final(self).stack_pool_offset == old(self).stack_pool_offset,
            final(self).allocations == old(self).allocations,
            final(self).stack_pool_base == old(self).stack_pool_base,
            final(self).first_switch == old(self).first_switch,
            final(self).next_task_psp == old(self).next_task_psp,
            start_check(*old(app), stack) matches Err(f) ==> r == Err::<StackImage, Fatal>(f)
                && final(self).tcbs == old(self).tcbs,
            start_check(*old(app), stack) matches Ok(pc) ==> {
                &&& r is Ok
                &&& r->Ok_0.canary_addr == stack.base_addr
                &&& r->Ok_0.sp == initial_sp(stack)
                &&& r->Ok_0.frame@ == initial_frame(pc)
                &&& final(self).tcbs@ == old(self).tcbs@.update(idx as int, final(self).tcbs@[idx as int])
                &&& is_initial_tcb(final(self).tcbs@[idx as int], initial_sp(stack), old(app).id, old(app).name)
                &&& final(app).entry == resolved_entry(*old(app))->0
                &&& final(app).stack_ptr == stack.base_addr as usize
                &&& final(app).stack_size == (stack.words * 4) as u32
                &&& final(app).id == old(app).id
                &&& final(app).name == old(app).name
                &&& forall|i: int|
                    crate::mpu::is_first_live_allocation(old(self).allocations@, i, old(app).id) ==> {
                        &&& final(self).tcbs@[idx as int].stack_base == old(self).allocations@[i].base_addr
                        &&& final(self).tcbs@[idx as int].stack_size == (old(self).allocations@[i].region_size_words * 4) as u32
                        &&& exists|res: Result<(), &'static str>| #[trigger] crate::mpu::stack_region_programmed(
                            *old(mpu),
                            *final(mpu),
                            res,
                            (old(app).id % 6 + 2) as u8,
                            old(self).allocations@[i].base_addr,
                            (old(self).allocations@[i].region_size_words * 4) as nat,
                        )
                    }
                &&& (forall|i: int|
                    0 <= i < old(self).allocations.len() ==> !crate::mpu::is_live_allocation_of(
                        old(self).allocations@[i],
                        old(app).id,
                    )) ==> {
                    &&& final(self).tcbs@[idx as int].stack_base == stack.base_addr
                    &&& final(self).tcbs@[idx as int].stack_size == (stack.words * 4) as u32
                    &&& exists|res: Result<(), &'static str>| #[trigger] crate::mpu::stack_region_programmed(
                        *old(mpu),
                        *final(mpu),
                        res,
                        (old(app).id % 6 + 2) as u8,
                        stack.base_addr,
                        (stack.words * 4) as u32 as nat,
                    )
                }
            },
            start_check(*old(app), stack) is Err ==> *final(mpu) == *old(mpu),
            crate::mpu::only_region_changed(*old(mpu), *final(mpu), (old(app).id % 6 + 2) as int),
    {
        let entry = match resolve_app_entry(app) {
            Ok(e) => e,
            Err(f) => {
                return Err(f);
            },
        };
        app.entry = entry;
        let e32 = entry as u32;
        if e32 < CODE_AREA_START || e32 >= CODE_AREA_END {
            return Err(Fatal::InvalidEntryPoint);
        }
        if stack.words < 8 {
            return Err(Fatal::StackTooSmall);
        }
        let stack_bytes: usize = stack.words * 4;
        app.stack_ptr = stack.base_addr as usize;
        app.stack_size = stack_bytes as u32;
        let sp: u32 = ((stack.base_addr as u64 + ((stack.words - 8) as u64) * 4) % 0x1_0000_0000) as u32;
        let base_pc = e32 & !1u32;
        if base_pc == 0 {
            return Err(Fatal::NullProgramCounter);
        }
        if base_pc < FLASH_START || base_pc >= FLASH_END {
            return Err(Fatal::PcOutsideFlash);
        }
        let final_pc = base_pc | 1;
        let frame: [u32; 8] = [
            0x0000_0000,
            0x0101_0101,
            0x0202_0202,
            0x0303_0303,
            0x1212_1212,
            INITIAL_LR,
            final_pc,
            INITIAL_XPSR,
        ];
        let (stack_base, region_size_bytes) = match crate::mpu::find_live_allocation(&self.allocations, app.id) {
            Some(i) => {
                proof { assert(self.allocation_ok(self.allocations@[i as int])); }
                (self.allocations[i].base_addr, self.allocations[i].region_size_words * 4)
            },
            None => (stack.base_addr, stack_bytes),
        };
        let tcb = Tcb {
            sp,
            r4: 0x4444_4444,
            r5: 0x5555_5555,
            r6: 0x6666_6666,
            r7: 0x7777_7777,
            r8: 0x8888_8888,
            r9: 0x9999_9999,
            r10: 0xAAAA_AAAA,
            r11: 0xBBBB_BBBB,
            control: CONTROL_USE_PSP,
            state: TaskState::Ready,
            app_id: app.id,
            name: app.name,
            stack_base,
            stack_size: region_size_bytes as u32,
        };
        self.tcbs.set(idx, tcb);
        let region_num = (app.id % 6) + 2;
        proof {
            assert forall|i: int| 0 <= i < self.allocations.len() implies self.allocations@[i].region_size_words
                * 4 <= usize::MAX by {
                assert(self.allocation_ok(self.allocations@[i]));
            }
        }
        let res = crate::mpu::configure_task_stack_protection(
            mpu,
            region_num as u8,
            stack.base_addr,
            stack_bytes as u32,
            app.id,
            &self.allocations,
        );
        let image = StackImage { canary_addr: stack.base_addr, sp, frame };
        assert(image.frame@ =~= initial_frame(final_pc));
        Ok(image)
    }
}

/// A task spawned with a stack request of `b` bytes (the minimum of 1024
/// when none is given) gets a stack of exactly that size rounded up to a
/// multiple of 8 bytes, so never less than it asked for: its first stack
/// pointer, which its control block also holds, lies one 32-byte exception
/// frame below the end of that many bytes above the stack's base.
pub proof fn lemma_spawned_stack_size(
    old_s: Scheduler,
    new_s: Scheduler,
    old_mpu: crate::mpu::MpuRegisters,
    new_mpu: crate::mpu::MpuRegisters,
    entry_fn: usize,
    name: &'static str,
    b: Option<usize>,
    id: u32,
    image: StackImage,
)
    requires
        b matches Some(x) ==> x + 7 <= usize::MAX,
        spawn_outcome(old_s, new_s, old_mpu, new_mpu, entry_fn, name, b, Ok((id, image))),
    ensures
        ({
            let req: int = match b {
                Some(x) => x as int,
                None => 1024,
            };
            let bytes = (req + 7) / 8 * 8;
            &&& req >= 1024
            &&& req <= bytes < req + 8
            &&& image.sp as int == (image.canary_addr as int + bytes - 32) % 0x1_0000_0000
            &&& new_s.tcbs@[old_s.n_tasks as int].sp == image.sp
        }),
{
    let req: int = match b {
        Some(x) => x as int,
        None => 1024,
    };
    let bytes = (req + 7) / 8 * 8;
    assert(req == requested_stack_bytes(b));
    let x = requested_stack_bytes(b);
    assert(x >= MIN_APP_STACK_BYTES);
    let aligned = spawn_aligned_bytes(b);
    assert(aligned == bytes && aligned % 8 == 0 && req <= bytes < req + 8) by (nonlinear_arith)
        requires
            aligned == (if x % 8 == 0 { x as int } else { (x + 7) / 8 * 8 }),
            req == x,
            bytes == (req + 7) / 8 * 8,
            x + 7 <= usize::MAX,
    ;
    let words = spawn_stack_words(b);
    assert(words * 4 == bytes);
}

/// A pool stack of `words` words (8 to the pool size) gets a whole MPU
/// region of `region_bytes_for(words * 4)` bytes: a multiple of four bytes
/// that holds the stack.
#[verifier::spinoff_prover]
pub proof fn lemma_pool_region_holds_stack(words: usize)
    requires
        8 <= words <= APP_STACK_POOL_WORDS,
    ensures
        words * 4 <= region_bytes_for(words as nat * 4),
        region_bytes_for(words as nat * 4) % 4 == 0,
        region_bytes_for(words as nat * 4) >= 32,
{
    let size = words as nat * 4;
    lemma_two_pow_values();
    lemma_encoding_search(size, 4);
    let e = encoding_search(size, 4);
    assert(is_size_encoding_for(size, e));
    lemma_two_pow_monotonic(5, e + 1);
    let p = two_pow((e - 1) as nat);
    assert(two_pow(e + 1) == 4 * p) by {
        assert(two_pow(e + 1) == 2 * two_pow(e));
        assert(two_pow(e) == 2 * p);
    }
    assert((4 * p) % 4 == 0) by (nonlinear_arith);
    assert(region_bytes_for(size) == two_pow(e + 1));
}

/// Two stacks handed out from the pool one after the other, with no reset
/// of the pool between them (the pool offset never moves back), do not
/// overlap: each lies inside the pool, and the second starts at or after
/// the end of the whole MPU region of the first, so their MPU regions are
/// disjoint as well.
pub proof fn lemma_successive_pool_stacks_disjoint(
    s0: Scheduler,
    s1: Scheduler,
    s2: Scheduler,
    s3: Scheduler,
    w1: usize,
    w2: usize,
    t1: u32,
    t2: u32,
    n1: &'static str,
    n2: &'static str,
    st1: StackRegion,
    st2: StackRegion,
)
    requires
        s0.wf(),
        s2.wf(),
        pool_allocation_outcome(s0, s1, w1, t1, n1, Ok(st1)),
        s2.stack_pool_base == s1.stack_pool_base,
        s2.stack_pool_offset >= s1.stack_pool_offset,
        pool_allocation_outcome(s2, s3, w2, t2, n2, Ok(st2)),
    ensures
        st1.words == w1,
        st2.words == w2,
        w1 * 4 <= region_bytes_for(w1 as nat * 4),
        w2 * 4 <= region_bytes_for(w2 as nat * 4),
        s0.stack_pool_base <= st1.base_addr,
        st1.base_addr + region_bytes_for(w1 as nat * 4) <= st2.base_addr,
        st2.base_addr + region_bytes_for(w2 as nat * 4) <= s0.stack_pool_base + APP_STACK_POOL_WORDS * 4,
{
    lemma_pool_region_holds_stack(w1);
    lemma_pool_region_holds_stack(w2);
    let (start1, rw1) = s0.pool_placement(w1);
    let (start2, rw2) = s2.pool_placement(w2);
    assert(rw1 * 4 == region_bytes_for(w1 as nat * 4));
    assert(rw2 * 4 == region_bytes_for(w2 as nat * 4));
    assert(s1.stack_pool_offset == start1 + rw1);
    assert(start2 >= s2.stack_pool_offset);
}

impl Scheduler {
    /// Get a stack for an application: the stack its stack function reports,
    /// else its own stack address, else a stack from the pool. Every stack,
    /// provided or from the pool, gets the metadata size: the declared size
    /// (the minimum when zero) rounded up to 8 bytes and raised to the
    /// minimum, so a provided block smaller than the minimum is used past
    /// its end.
    pub fn acquire_app_stack(&mut self, app: &AppMetadata) -> (r: Result<StackRegion, Fatal>)
        requires
            old(self).wf(),
            app.stack_size as nat + 7 <= usize::MAX,
        ensures
            final(self).wf(),
            final(self).tcbs == old(self).tcbs,
            final(self).n_tasks == old(self).n_tasks,
            final(self).curr == old(self).curr,
            final(self).stack_pool_base == old(self).stack_pool_base,
            final(self).first_switch == old(self).first_switch,
            final(self).next_task_psp == old(self).next_task_psp,
            r matches Ok(region) ==> region.words <= 0x4000_0000 && region.words * 4 <= usize::MAX,
            app.stack_ptr_fn matches Some(base) ==> r == static_stack_result(base, stack_bytes_for(app.stack_size))
                && final(self).stack_pool_offset == old(self).stack_pool_offset
                && final(self).allocations == old(self).allocations,
            app.stack_ptr_fn is None && app.stack_ptr != 0 ==> r == static_stack_result(
                app.stack_ptr,
                stack_bytes_for(app.stack_size),
            )
                && final(self).stack_pool_offset == old(self).stack_pool_offset
                && final(self).allocations == old(self).allocations,
            app.stack_ptr_fn is None && app.stack_ptr == 0 ==> ({
                let words = (stack_bytes_for(app.stack_size) / 4) as usize;
                let (start, region_words) = old(self).pool_placement(words);
                if words <= APP_STACK_POOL_WORDS && start + region_words <= APP_STACK_POOL_WORDS {
                    &&& r == Ok::<StackRegion, Fatal>(StackRegion {
                        base_addr: (old(self).stack_pool_base + start * 4) as u32,
                        words,
                    })
                    &&& final(self).stack_pool_offset == start + region_words
                } else {
                    r == Err::<StackRegion, Fatal>(Fatal::StackPoolExhausted)
                }
            }),
    {
        match app.stack_ptr_fn {
            Some(base) => {
                let bytes = metadata_stack_bytes(app);
                static_stack_from(base, bytes)
            },
            None => {
                if app.stack_ptr != 0 {
                    let bytes = metadata_stack_bytes(app);
                    static_stack_from(app.stack_ptr, bytes)
                } else {
                    let stack_words = compute_stack_words(app);
                    self.allocate_app_stack_dynamic(stack_words, app.id, app.name)
                }
            },
        }
    }

    /// Create a task at run time: the next control block, a pool stack of the
    /// requested size (the minimum by default, rounded up to 8 bytes), and a
    /// first frame that starts it at `entry_fn`. The task id is the index of
    /// its control block.
    #[verifier::rlimit(100)]
    #[verifier::spinoff_prover]
    pub fn task_spawn(
        &mut self,
        mpu: &mut crate::mpu::MpuRegisters,
        entry_fn: usize,
        name: &'static str,
        stack_size_bytes: Option<usize>,
    ) -> (r: Result<(u32, StackImage), SpawnError>)
        requires
            old(self).wf(),
            stack_size_bytes matches Some(b) ==> b + 7 <= usize::MAX,
        ensures
            final(self).wf(),
            spawn_outcome(*old(self), *final(self), *old(mpu), *final(mpu), entry_fn, name, stack_size_bytes, r),
    {
        if self.n_tasks >= MAX_APPS {
            return Err(SpawnError::MaximumTasks);
        }
        let task_id = self.n_tasks as u32;
        let stack_bytes = match stack_size_bytes {
            Some(b) => b,
            None => MIN_APP_STACK_BYTES,
        };
        if stack_bytes < MIN_APP_STACK_BYTES {
            return Err(SpawnError::StackSizeTooSmall);
        }
        let aligned_bytes = if stack_bytes % 8 == 0 {
            stack_bytes
        } else {
            ((stack_bytes + 8 - 1) / 8) * 8
        };
        let w = align_up_words((aligned_bytes + 3) / 4, 2);
        let stack_words = if w < MIN_STACK_WORDS { MIN_STACK_WORDS } else { w };
        assert(stack_words == spawn_stack_words(stack_size_bytes));
        let stack_slice = match self.allocate_app_stack_dynamic(stack_words, task_id, name) {
            Ok(s) => s,
            Err(f) => {
                return Err(SpawnError::Halted(f));
            },
        };
        let tcb_idx = self.n_tasks;
        self.tcbs.set(tcb_idx, Tcb::blank());
        let mut dynamic_app = AppMetadata {
            id: task_id,
            name,
            entry: entry_fn,
            entry_fn: Some(entry_fn),
            stack_ptr: 0,
            stack_size: aligned_bytes as u32,
            stack_ptr_fn: None,
        };
        assert(dynamic_app == spawned_app(entry_fn, name, task_id, stack_size_bytes));
        let image = match self.init_app_stack_and_tcb(mpu, &mut dynamic_app, tcb_idx, stack_slice) {
            Ok(img) => img,
            Err(f) => {
                return Err(SpawnError::Halted(f));
            },
        };
        self.n_tasks = self.n_tasks + 1;
        Ok((task_id, image))
    }

    /// Spawn with the default stack size.
    pub fn task_spawn_simple(
        &mut self,
        mpu: &mut crate::mpu::MpuRegisters,
        entry_fn: usize,
        name: &'static str,
    ) -> (r: Result<(u32, StackImage), SpawnError>)
        requires
            old(self).wf(),
        ensures
            final(self).wf(),
            spawn_outcome(*old(self), *final(self), *old(mpu), *final(mpu), entry_fn, name, None, r),
    {
        self.task_spawn(mpu, entry_fn, name, None)
    }

    /// Stop the task with id `task_id`: free its stack and block it.
    pub fn task_kill(&mut self, task_id: u32) -> (r: Result<(), &'static str>)
        requires
            old(self).wf(),
        ensures
            final(self).wf(),
            final(self).n_tasks == old(self).n_tasks,
            final(self).curr == old(self).curr,
            (forall|i: int| 0 <= i < old(self).n_tasks ==> old(self).tcbs@[i].app_id != task_id) ==> *final(self)
                == *old(self) && (r matches Err(m) && m@ == "Task not found"@),
            forall|i: int|
                0 <= i < old(self).n_tasks && old(self).tcbs@[i].app_id == task_id && (forall|j: int|
                    0 <= j < i ==> old(self).tcbs@[j].app_id != task_id) ==> {
                    &&& r is Ok
                    &&& final(self).tcbs@[i].state == TaskState::Blocked
                    &&& final(self).tcbs@[i].name@ == "killed"@
                    &&& final(self).tcbs@ == old(self).tcbs@.update(i, final(self).tcbs@[i])
                    &&& final(self).tcbs@[i] == (Tcb { state: TaskState::Blocked, name: final(self).tcbs@[i].name, ..old(self).tcbs@[i] })
                    &&& (forall|k: int|
                        crate::mpu::is_first_live_allocation(old(self).allocations@, k, task_id) ==> final(self).allocations@
                            == old(self).allocations@.update(k, StackAllocation { is_free: true, ..old(self).allocations@[k] }))
                    &&& (forall|k: int| !crate::mpu::is_first_live_allocation(old(self).allocations@, k, task_id))
                        ==> final(self).allocations@ == old(self).allocations@
                    &&& *final(self) == (Scheduler {
                        tcbs: final(self).tcbs,
                        allocations: final(self).allocations,
                        ..*old(self)
                    })
                },
    {
        let mut i: usize = 0;
        while i < self.n_tasks
            invariant
                self.wf(),
                *self == *old(self),
                0 <= i <= self.n_tasks,
                forall|j: int| 0 <= j < i ==> self.tcbs@[j].app_id != task_id,
            decreases self.n_tasks - i,
        {
            if self.tcbs[i].app_id == task_id {
                let _ = self.deallocate_app_stack(task_id);
                let mut t = self.tcbs[i];
                t.state = TaskState::Blocked;
                t.name = "killed";
                self.tcbs.set(i, t);
                proof { reveal_strlit("killed"); }
                return Ok(());
            }
            i = i + 1;
        }
        proof { reveal_strlit("Task not found"); }
        Err("Task not found")
    }

    /// The stack pointer saved for a task.
    pub fn get_task_sp(&self, task_id: usize) -> (r: Result<u32, &'static str>)
        requires
            self.wf(),
        ensures
            task_id < self.n_tasks ==> r == Ok::<u32, &'static str>(self.tcbs@[task_id as int].sp),
            task_id >= self.n_tasks ==> (r matches Err(m) && m@ == "Invalid task ID"@),
    {
        if task_id >= self.n_tasks {
            proof { reveal_strlit("Invalid task ID"); }
            return Err("Invalid task ID");
        }
        Ok(self.tcbs[task_id].sp)
    }

    /// Set the stack pointer saved for a task.
    pub fn set_task_sp(&mut self, task_id: usize, sp: u32) -> (r: Result<(), &'static str>)
        requires
            old(self).wf(),
        ensures
            final(self).wf(),
            task_id < old(self).n_tasks ==> r is Ok && *final(self) == (Scheduler {
                tcbs: final(self).tcbs,
                ..*old(self)
            }) && final(self).tcbs@ == old(self).tcbs@.update(task_id as int, Tcb { sp, ..old(self).tcbs@[task_id as int] }),
            task_id >= old(self).n_tasks ==> *final(self) == *old(self) && (r matches Err(m) && m@ == "Invalid task ID"@),
    {
        if task_id >= self.n_tasks {
            proof { reveal_strlit("Invalid task ID"); }
            return Err("Invalid task ID");
        }
        let mut t = self.tcbs[task_id];
        t.sp = sp;
        self.tcbs.set(task_id, t);
        Ok(())
    }

    /// The scheduling state of a task.
    pub fn get_task_state(&self, task_id: usize) -> (r: Result<TaskState, &'static str>)
        requires
            self.wf(),
        ensures
            task_id < self.n_tasks ==> r == Ok::<TaskState, &'static str>(self.tcbs@[task_id as int].state),
            task_id >= self.n_tasks ==> (r matches Err(m) && m@ == "Invalid task ID"@),
    {
        if task_id >= self.n_tasks {
            proof { reveal_strlit("Invalid task ID"); }
            return Err("Invalid task ID");
        }
        Ok(self.tcbs[task_id].state)
    }

    /// Set the scheduling state of a task.
    pub fn set_task_state(&mut self, task_id: usize, state: TaskState) -> (r: Result<(), &'static str>)
        requires
            old(self).wf(),
        ensures
            final(self).wf(),
            task_id < old(self).n_tasks ==> r is Ok && *final(self) == (Scheduler {
                tcbs: final(self).tcbs,
                ..*old(self)
            }) && final(self).tcbs@ == old(self).tcbs@.update(task_id as int, Tcb { state, ..old(self).tcbs@[task_id as int] }),
            task_id >= old(self).n_tasks ==> *final(self) == *old(self) && (r matches Err(m) && m@ == "Invalid task ID"@),
    {
        if task_id >= self.n_tasks {
            proof { reveal_strlit("Invalid task ID"); }
            return Err("Invalid task ID");
        }
        let mut t = self.tcbs[task_id];
        t.state = state;
        self.tcbs.set(task_id, t);
        Ok(())
    }

    /// The number of tasks.
    pub fn get_task_count(&self) -> (r: usize)
        ensures
            r == self.n_tasks,
    {
        self.n_tasks
    }

    /// Words of the pool in use, and the pool's size in words.
    pub fn get_stack_pool_usage(&self) -> (r: (usize, usize))
        ensures
            r == (self.stack_pool_offset, APP_STACK_POOL_WORDS),
    {
        (self.stack_pool_offset, APP_STACK_POOL_WORDS)
    }

    /// The pool's base address and its size in bytes.
    pub fn get_stack_pool_bounds(&self) -> (r: (u32, u32))
        ensures
            r == (self.stack_pool_base, APP_STACK_POOL_BYTES as u32),
    {
        (self.stack_pool_base, APP_STACK_POOL_BYTES as u32)
    }

    /// Save the interrupted task's context. The stack pointer must lie in
    /// SRAM, and the program counter in its frame (when non-zero) in flash.
    pub fn save_current_context(
        &mut self,
        psp: u32,
        r4: u32,
        r5: u32,
        r6: u32,
        r7: u32,
        r8: u32,
        r9: u32,
        r10: u32,
        r11: u32,
        frame_pc: u32,
    ) -> (r: Result<(), Fatal>)
        requires
            old(self).wf(),
        ensures
            final(self).wf(),
            old(self).curr >= old(self).n_tasks ==> r is Ok && *final(self) == *old(self),
            old(self).curr < old(self).n_tasks && !(SRAM_START <= psp < SRAM_END) ==> r == Err::<(), Fatal>(
                Fatal::InvalidSavedStackPointer,
            ) && *final(self) == *old(self),
            old(self).curr < old(self).n_tasks && SRAM_START <= psp < SRAM_END && frame_pc != 0 && !(FLASH_START
                <= frame_pc < FLASH_END) ==> r == Err::<(), Fatal>(Fatal::CorruptedSavedProgramCounter)
                && *final(self) == *old(self),
            old(self).curr < old(self).n_tasks && SRAM_START <= psp < SRAM_END && (frame_pc == 0 || FLASH_START
                <= frame_pc < FLASH_END) ==> r is Ok && *final(self) == (Scheduler {
                tcbs: final(self).tcbs,
                ..*old(self)
            }) && final(self).tcbs@ == old(self).tcbs@.update(
                old(self).curr as int,
                Tcb { sp: psp, r4, r5, r6, r7, r8, r9, r10, r11, ..old(self).tcbs@[old(self).curr as int] },
            ),
    {
        if self.curr < self.n_tasks {
            let current_task = self.curr;
            if psp < SRAM_START || psp >= SRAM_END {
                return Err(Fatal::InvalidSavedStackPointer);
            }
            if frame_pc != 0 && (frame_pc < FLASH_START || frame_pc >= FLASH_END) {
                return Err(Fatal::CorruptedSavedProgramCounter);
            }
            let mut t = self.tcbs[current_task];
            t.sp = psp;
            t.r4 = r4;
            t.r5 = r5;
            t.r6 = r6;
            t.r7 = r7;
            t.r8 = r8;
            t.r9 = r9;
            t.r10 = r10;
            t.r11 = r11;
            self.tcbs.set(current_task, t);
        }
        Ok(())
    }

    /// The tasks whose stack canaries can be checked, with the base of each stack.
    pub fn canary_check_targets(&self) -> (r: Vec<(usize, u32)>)
        requires
            self.wf(),
        ensures
            forall|k: int| 0 <= k < r.len() ==> {
                let (i, base) = #[trigger] r@[k];
                &&& i < self.n_tasks
                &&& base == self.tcbs@[i as int].stack_base
                &&& base != 0
                &&& self.tcbs@[i as int].stack_size / 4 >= 2
            },
            forall|i: int|
                0 <= i < self.n_tasks && self.tcbs@[i].stack_base != 0 && self.tcbs@[i].stack_size / 4 >= 2
                    ==> exists|k: int| 0 <= k < r.len() && r@[k].0 == i,
    {
        let mut out: Vec<(usize, u32)> = Vec::new();
        let mut i: usize = 0;
        while i < self.n_tasks
            invariant
                self.wf(),
                0 <= i <= self.n_tasks,
                forall|k: int| 0 <= k < out.len() ==> {
                    let (j, base) = #[trigger] out@[k];
                    &&& j < i
                    &&& base == self.tcbs@[j as int].stack_base
                    &&& base != 0
                    &&& self.tcbs@[j as int].stack_size / 4 >= 2
                },
                forall|j: int|
                    0 <= j < i && self.tcbs@[j].stack_base != 0 && self.tcbs@[j].stack_size / 4 >= 2
                        ==> exists|k: int| 0 <= k < out.len() && out@[k].0 == j,
            decreases self.n_tasks - i,
        {
            let base = self.tcbs[i].stack_base;
            let ghost before = out@;
            if base != 0 && self.tcbs[i].stack_size / 4 >= 2 {
                out.push((i, base));
                assert(out@[out.len() - 1].0 == i);
                assert forall|j: int|
                    0 <= j < i && self.tcbs@[j].stack_base != 0 && self.tcbs@[j].stack_size / 4 >= 2
                        implies exists|k: int| 0 <= k < out.len() && out@[k].0 == j by {
                    let k = choose|k: int| 0 <= k < before.len() && before[k].0 == j;
                    assert(out@[k] == before[k]);
                }
            }
            i = i + 1;
        }
        out
    }
}

impl Scheduler {
    /// The task that runs after the current one, round robin.
    pub open spec fn spec_next_task(&self) -> int {
        (self.curr as int + 1) % (self.n_tasks as int)
    }

    /// Before a context switch: nothing to read for the first switch;
    /// otherwise the next task and its stack pointer, which must lie in SRAM
    /// (the caller then reads the program counter saved in its frame).
    pub fn prepare_switch(&self) -> (r: Result<Option<(usize, u32)>, Fatal>)
        requires
            self.wf(),
            !self.first_switch ==> self.n_tasks > 0,
        ensures
            self.first_switch ==> r == Ok::<Option<(usize, u32)>, Fatal>(None),
            !self.first_switch ==> ({
                let next = self.spec_next_task();
                let psp = self.tcbs@[next].sp;
                if SRAM_START <= psp < SRAM_END {
                    r == Ok::<Option<(usize, u32)>, Fatal>(Some((next as usize, psp)))
                } else {
                    r == Err::<Option<(usize, u32)>, Fatal>(Fatal::InvalidNextStackPointer)
                }
            }),
    {
        if self.first_switch {
            return Ok(None);
        }
        let next = (self.curr + 1) % self.n_tasks;
        let psp = self.tcbs[next].sp;
        if psp < SRAM_START || psp >= SRAM_END {
            return Err(Fatal::InvalidNextStackPointer);
        }
        Ok(Some((next, psp)))
    }

    /// The context switch decision (PendSV). The first switch starts task 0;
    /// later switches go round robin to the next task, whose stack pointer
    /// must lie in SRAM and whose saved program counter (`next_pc`, read from
    /// its frame) in flash. The outgoing process's slot is written back to
    /// its control block, the incoming one's control block to its slot, the
    /// MPU is switched to the incoming process, and the incoming task's stack
    /// pointer is what the switch restores.
    pub fn pend_sv_switch(
        &mut self,
        procs: &mut crate::process::ProcessTable,
        mpu: &mut crate::mpu::MpuRegisters,
        next_pc: u32,
    ) -> (r: Result<usize, Fatal>)
        requires
            old(self).wf(),
            old(procs).wf(),
            !old(self).first_switch ==> old(self).n_tasks > 0,
            old(self).curr < MAX_APPS,
            old(self).first_switch ==> old(procs).slots@[0].data_size + old(procs).slots@[0].stack_size <= u32::MAX,
            !old(self).first_switch && old(self).spec_next_task() < crate::MAX_PROCESSES ==> old(procs).slots@[
                old(self).spec_next_task()].data_size + old(procs).slots@[old(self).spec_next_task()].stack_size
                <= u32::MAX,
        ensures
            final(self).wf(),
            final(procs).wf(),
            final(self).n_tasks == old(self).n_tasks,
            !final(self).first_switch,
            old(self).first_switch ==> {
                &&& final(self).curr == old(self).curr
                &&& final(self).tcbs@ == old(self).tcbs@.update(0, Tcb { state: TaskState::Running, ..old(self).tcbs@[0] })
                &&& if old(self).n_tasks == 0 {
                    r == Err::<usize, Fatal>(Fatal::ProcessSyncFailed)
                } else if !slot_fits_mpu(old(procs).slots@[0]) {
                    r == Err::<usize, Fatal>(Fatal::ProcessMpuFailed)
                } else {
                    &&& r == Ok::<usize, Fatal>(0)
                    &&& final(self).tcbs@[0].state == TaskState::Running
                }
            },
            !old(self).first_switch ==> ({
                let next = old(self).spec_next_task();
                let psp = old(self).tcbs@[next].sp;
                let switched = switched_tcbs(
                    old(self).tcbs@,
                    old(self).curr as int,
                    next,
                    old(procs).current,
                    old(procs).slots@,
                    old(self).n_tasks,
                );
                if !(SRAM_START <= psp < SRAM_END) {
                    r == Err::<usize, Fatal>(Fatal::InvalidNextStackPointer) && final(self).tcbs == old(self).tcbs
                } else if !(FLASH_START <= next_pc < FLASH_END) {
                    r == Err::<usize, Fatal>(Fatal::InvalidNextProgramCounter) && final(self).tcbs == old(self).tcbs
                } else if next >= crate::MAX_PROCESSES {
                    r == Err::<usize, Fatal>(Fatal::ProcessSyncFailed) && final(self).tcbs@ == switched
                } else {
                    &&& final(self).curr == next
                    &&& final(self).tcbs@ == switched
                    &&& (old(procs).current != Some(next as usize) ==> final(self).tcbs@[next] == Tcb {
                        state: TaskState::Running,
                        ..old(self).tcbs@[next]
                    })
                    &&& if slot_fits_mpu(old(procs).slots@[next]) {
                        r == Ok::<usize, Fatal>(next as usize)
                    } else {
                        r == Err::<usize, Fatal>(Fatal::ProcessMpuFailed)
                    }
                }
            }),
            r matches Ok(t) ==> {
                &&& t < crate::MAX_PROCESSES
                &&& old(self).first_switch ==> crate::process::process_mpu_programmed(
                    old(procs).slots@[t as int],
                    *old(mpu),
                    *final(mpu),
                    Ok(()),
                )
                &&& !old(self).first_switch ==> exists|mid: crate::mpu::MpuRegisters|
                    #![trigger crate::process::process_regions_disabled(old(mpu).regions@, mid.regions@)]
                    {
                        &&& mid.ctrl == old(mpu).ctrl
                        &&& crate::process::process_regions_disabled(old(mpu).regions@, mid.regions@)
                        &&& crate::process::process_mpu_programmed(old(procs).slots@[t as int], mid, *final(mpu), Ok(()))
                    }
                &&& final(procs).current == Some(t)
                &&& final(self).next_task_psp == final(self).tcbs@[t as int].sp
                &&& final(procs).slots@[t as int].state == crate::process::process_state_of(final(self).tcbs@[t as int].state)
                &&& final(procs).slots@[t as int].sp == final(self).tcbs@[t as int].sp
            },
    {
        if self.first_switch {
            self.first_switch = false;
            let mut t0 = self.tcbs[0];
            t0.state = TaskState::Running;
            self.tcbs.set(0, t0);
            if procs.sync_process_slot_with_tcb(self, 0).is_err() {
                return Err(Fatal::ProcessSyncFailed);
            }
            if procs.configure_process_mpu(mpu, 0).is_err() {
                return Err(Fatal::ProcessMpuFailed);
            }
            procs.set_current_process(Some(0));
            self.next_task_psp = self.tcbs[0].sp;
            return Ok(0);
        }
        self.first_switch = false;
        let current_task = self.curr;
        let next_task = (current_task + 1) % self.n_tasks;
        let next_psp = self.tcbs[next_task].sp;
        if next_psp < SRAM_START || next_psp >= SRAM_END {
            return Err(Fatal::InvalidNextStackPointer);
        }
        if next_pc < FLASH_START || next_pc >= FLASH_END {
            return Err(Fatal::InvalidNextProgramCounter);
        }
        let mut tc = self.tcbs[current_task];
        tc.state = TaskState::Ready;
        self.tcbs.set(current_task, tc);
        let mut tn = self.tcbs[next_task];
        tn.state = TaskState::Running;
        self.tcbs.set(next_task, tn);
        self.curr = next_task;
        let current_process = procs.get_current_process();
        if let Some(curr_id) = current_process {
            let _ = procs.sync_tcb_with_process_slot(self, curr_id);
        }
        if procs.sync_process_slot_with_tcb(self, next_task).is_err() {
            return Err(Fatal::ProcessSyncFailed);
        }
        if crate::process::switch_process_mpu(procs, mpu, current_process, next_task).is_err() {
            return Err(Fatal::ProcessMpuFailed);
        }
        procs.set_current_process(Some(next_task));
        self.next_task_psp = self.tcbs[next_task].sp;
        Ok(next_task)
    }
}

/// A later context switch over `n > 0` tasks goes round robin: the task
/// after task `c` is `(c + 1) mod n`, always one of the `n` tasks.
pub proof fn lemma_next_task_round_robin(s: Scheduler)
    requires
        s.n_tasks > 0,
    ensures
        s.spec_next_task() == (s.curr + 1) % (s.n_tasks as int),
        0 <= s.spec_next_task() < s.n_tasks,
        s.curr + 1 < s.n_tasks ==> s.spec_next_task() == s.curr + 1,
        s.curr + 1 == s.n_tasks ==> s.spec_next_task() == 0,
{
    let n = s.n_tasks as int;
    vstd::arithmetic::div_mod::lemma_mod_bound(s.curr + 1, n);
    if s.curr + 1 < n {
        vstd::arithmetic::div_mod::lemma_small_mod((s.curr + 1) as nat, n as nat);
    }
    if s.curr + 1 == n {
        vstd::arithmetic::div_mod::lemma_mod_self_0(n);
    }
}

/// The task that runs after `k` later context switches from `s`.
pub open spec fn task_after_switches(s: Scheduler, k: nat) -> int
    decreases k,
{
    if k == 0 {
        s.curr as int
    } else {
        (Scheduler { curr: task_after_switches(s, (k - 1) as nat) as usize, ..s }).spec_next_task()
    }
}

/// After `k` later switches from task `c` among `n` tasks, task `(c + k) mod n` runs.
proof fn lemma_task_after_switches(s: Scheduler, k: nat)
    requires
        0 < s.n_tasks <= MAX_APPS,
        s.curr < s.n_tasks,
    ensures
        task_after_switches(s, k) == (s.curr + k) % (s.n_tasks as int),
    decreases k,
{
    let n = s.n_tasks as int;
    if k == 0 {
        vstd::arithmetic::div_mod::lemma_small_mod(s.curr as nat, n as nat);
    } else {
        lemma_task_after_switches(s, (k - 1) as nat);
        let x = s.curr + k - 1;
        assert(0 <= x % n < n) by {
            vstd::arithmetic::div_mod::lemma_mod_bound(x, n);
        }
        vstd::arithmetic::div_mod::lemma_add_mod_noop_right(1, x, n);
        assert(task_after_switches(s, (k - 1) as nat) == x % n);
    }
}

/// Round robin reaches every task: among `n > 0` tasks, each task runs
/// after at most `n` later switches, whichever task runs now.
pub proof fn lemma_round_robin_reaches_every_task(s: Scheduler, t: int)
    requires
        0 < s.n_tasks <= MAX_APPS,
        s.curr < s.n_tasks,
        0 <= t < s.n_tasks,
    ensures
        exists|k: nat| 1 <= k <= s.n_tasks && #[trigger] task_after_switches(s, k) == t,
{
    let n = s.n_tasks as int;
    let k: nat = if t > s.curr { (t - s.curr) as nat } else { (t - s.curr + n) as nat };
    lemma_task_after_switches(s, k);
    if t > s.curr {
        vstd::arithmetic::div_mod::lemma_small_mod(t as nat, n as nat);
    } else {
        vstd::arithmetic::div_mod::lemma_mod_add_multiples_vanish(t, n);
        vstd::arithmetic::div_mod::lemma_small_mod(t as nat, n as nat);
        assert(s.curr + k == n + t);
    }
    assert(task_after_switches(s, k) == t);
}

/// The control blocks after a later switch from task `c` to task `next`:
/// the outgoing task becomes ready and the incoming one running; then the
/// control block of the current process `p`, when it is an active slot of
/// an existing task, takes back the slot's stack pointer and, where the
/// slot's state stands for a task state, that state.
pub open spec fn switched_tcbs(
    tcbs: Seq<Tcb>,
    c: int,
    next: int,
    p: Option<usize>,
    slots: Seq<crate::process::ProcessSlot>,
    n_tasks: usize,
) -> Seq<Tcb> {
    let t1 = tcbs.update(c, Tcb { state: TaskState::Ready, ..tcbs[c] });
    let t2 = t1.update(next, Tcb { state: TaskState::Running, ..t1[next] });
    match p {
        Some(q) => if q < crate::MAX_PROCESSES && slots[q as int].state != crate::process::ProcessState::Inactive
            && q < n_tasks {
            let with_sp = Tcb { sp: slots[q as int].sp, ..t2[q as int] };
            match crate::process::task_state_of(slots[q as int].state) {
                None => t2.update(q as int, with_sp),
                Some(ts) => t2.update(q as int, Tcb { state: ts, ..with_sp }),
            }
        } else {
            t2
        },
        None => t2,
    }
}

/// The parts of a slot are large enough for MPU regions: its data and
/// stack together, and its grant region, each at least 32 bytes.
pub open spec fn slot_fits_mpu(s: crate::process::ProcessSlot) -> bool {
    s.data_size + s.stack_size >= 32 && s.grant_size >= 32
}

/// How many of `apps` a spawn loop starts: those with an entry function and
/// a stack of at least the minimum size.
pub open spec fn spawnable_apps(apps: Seq<AppMetadata>) -> nat
    decreases apps.len(),
{
    if apps.len() == 0 {
        0
    } else {
        spawnable_apps(apps.drop_last()) + if apps.last().entry_fn is Some && apps.last().stack_size
            >= MIN_APP_STACK_BYTES { 1nat } else { 0nat }
    }
}

/// One spawn of the start-up loop, for a scheduler with `n` tasks and a
/// pool at `base` used up to `offset`: an application without an entry
/// function, or refused (no control block left, stack below the minimum),
/// changes nothing; otherwise the spawn halts, or adds a task and moves
/// the pool offset. Gives the halt, if any, the task count and the offset.
pub open spec fn spawn_step(base: u32, n: usize, offset: usize, app: AppMetadata) -> (Option<Fatal>, usize, usize) {
    match app.entry_fn {
        None => (None, n, offset),
        Some(e) => {
            let b = Some(app.stack_size as usize);
            if n >= MAX_APPS || requested_stack_bytes(b) < MIN_APP_STACK_BYTES {
                (None, n, offset)
            } else {
                let words = spawn_stack_words(b);
                let (start, region_words) = placement(base, offset, words);
                let region = StackRegion { base_addr: (base + start * 4) as u32, words };
                if words > APP_STACK_POOL_WORDS || start + region_words > APP_STACK_POOL_WORDS {
                    (Some(Fatal::StackPoolExhausted), n, offset)
                } else {
                    match start_check(spawned_app(e, app.name, n as u32, b), region) {
                        Err(f) => (Some(f), n, offset),
                        Ok(_) => (None, (n + 1) as usize, (start + region_words) as usize),
                    }
                }
            }
        },
    }
}

/// The start-up spawns of `apps` in order: the first halt, if any, and the
/// task count and pool offset reached.
pub open spec fn spawn_run(base: u32, n: usize, offset: usize, apps: Seq<AppMetadata>) -> (Option<Fatal>, usize, usize)
    decreases apps.len(),
{
    if apps.len() == 0 {
        (None, n, offset)
    } else {
        let prev = spawn_run(base, n, offset, apps.drop_last());
        if prev.0 is Some {
            prev
        } else {
            spawn_step(base, prev.1, prev.2, apps.last())
        }
    }
}

/// The task a start-up spawn adds, when it adds one: its stack region, the
/// first program counter, and the application it runs.
pub open spec fn spawn_entry(base: u32, n: usize, offset: usize, app: AppMetadata) -> Option<(StackRegion, u32, AppMetadata)> {
    match app.entry_fn {
        None => None,
        Some(e) => {
            let b = Some(app.stack_size as usize);
            if n >= MAX_APPS || requested_stack_bytes(b) < MIN_APP_STACK_BYTES {
                None
            } else {
                let words = spawn_stack_words(b);
                let (start, region_words) = placement(base, offset, words);
                let region = StackRegion { base_addr: (base + start * 4) as u32, words };
                if words > APP_STACK_POOL_WORDS || start + region_words > APP_STACK_POOL_WORDS {
                    None
                } else {
                    match start_check(spawned_app(e, app.name, n as u32, b), region) {
                        Err(_) => None,
                        Ok(pc) => Some((region, pc, app)),
                    }
                }
            }
        },
    }
}

/// The tasks the start-up spawns of `apps` add, in order, up to the first halt.
pub open spec fn spawn_trace(base: u32, n: usize, offset: usize, apps: Seq<AppMetadata>) -> Seq<
    (StackRegion, u32, AppMetadata),
>
    decreases apps.len(),
{
    if apps.len() == 0 {
        Seq::empty()
    } else {
        let prev = spawn_run(base, n, offset, apps.drop_last());
        let t = spawn_trace(base, n, offset, apps.drop_last());
        if prev.0 is Some {
            t
        } else {
            match spawn_entry(base, prev.1, prev.2, apps.last()) {
                Some(x) => t.push(x),
                None => t,
            }
        }
    }
}

/// The process slot of a task started at start-up: the standard layout,
/// ready, holding the application, with its RAM described for region 2
/// and its grant memory for region 3.
pub open spec fn spawned_slot_ready(s: crate::process::ProcessSlot, id: int, app: AppMetadata) -> bool {
    &&& crate::process::standard_layout(s, id)
    &&& s.state == crate::process::ProcessState::Ready
    &&& s.sp == s.stack_base + crate::process::PROCESS_STACK_SIZE
    &&& s.app_id == app.id
    &&& s.name == app.name
    &&& crate::process::region_describes(
        s.ram_region,
        2,
        s.data_base,
        (crate::process::PROCESS_DATA_SIZE + crate::process::PROCESS_STACK_SIZE) as nat,
        crate::mpu::MPU_AP_PRIV_RW_USER_RW,
    )
    &&& crate::process::region_describes(
        s.grant_region,
        3,
        s.grant_base,
        crate::GRANT_REGION_SIZE as nat,
        crate::mpu::MPU_AP_PRIV_RW,
    )
}

/// Task `id`, started at start-up for the trace entry `entry`: its stack
/// image is the first frame at the entry's program counter, its control
/// block is the initial one for its stack, and a task with a process slot
/// has the slot set up by `spawned_slot_ready`.
#[verifier::opaque]
pub open spec fn spawned_task_ok(
    image: (u32, StackImage),
    entry: (StackRegion, u32, AppMetadata),
    tcb: Tcb,
    slot: crate::process::ProcessSlot,
    id: int,
) -> bool {
    let (region, pc, app) = entry;
    &&& image.0 == id
    &&& image.1.canary_addr == region.base_addr
    &&& image.1.sp == initial_sp(region)
    &&& image.1.frame@ == initial_frame(pc)
    &&& is_initial_tcb(tcb, initial_sp(region), id as u32, app.name)
    &&& id < crate::MAX_PROCESSES ==> spawned_slot_ready(slot, id, app)
}

/// A start-up spawn through `task_spawn` adds exactly the task that
/// `spawn_entry` names, with its stack image and control block.
proof fn lemma_spawn_matches_entry(
    old_s: Scheduler,
    new_s: Scheduler,
    old_mpu: crate::mpu::MpuRegisters,
    new_mpu: crate::mpu::MpuRegisters,
    e: usize,
    app: AppMetadata,
    r: Result<(u32, StackImage), SpawnError>,
)
    requires
        app.entry_fn == Some(e),
        spawn_outcome(old_s, new_s, old_mpu, new_mpu, e, app.name, Some(app.stack_size as usize), r),
    ensures
        r is Ok <==> spawn_entry(old_s.stack_pool_base, old_s.n_tasks, old_s.stack_pool_offset, app) is Some,
        r matches Ok((id, image)) ==> {
            let (region, pc, a) = spawn_entry(old_s.stack_pool_base, old_s.n_tasks, old_s.stack_pool_offset, app)->0;
            &&& a == app
            &&& id == old_s.n_tasks
            &&& image.canary_addr == region.base_addr
            &&& image.sp == initial_sp(region)
            &&& image.frame@ == initial_frame(pc)
            &&& crate::mpu::only_region_changed(old_mpu, new_mpu, (id % 6 + 2) as int)
            &&& is_initial_tcb(new_s.tcbs@[old_s.n_tasks as int], initial_sp(region), id, app.name)
            &&& forall|j: int| 0 <= j < MAX_APPS && j != old_s.n_tasks ==> new_s.tcbs@[j] == old_s.tcbs@[j]
        },
{
}

/// Once a start-up spawn has halted, the run stays halted with the same
/// failure however many more applications follow.
proof fn lemma_spawn_halt_persists(base: u32, n: usize, offset: usize, apps: Seq<AppMetadata>, j: int, k: int)
    requires
        0 <= j <= k <= apps.len(),
        spawn_run(base, n, offset, apps.subrange(0, j)).0 is Some,
    ensures
        spawn_run(base, n, offset, apps.subrange(0, k)).0 == spawn_run(base, n, offset, apps.subrange(0, j)).0,
    decreases k - j,
{
    if j < k {
        lemma_spawn_halt_persists(base, n, offset, apps, j, k - 1);
        assert(apps.subrange(0, k).drop_last() =~= apps.subrange(0, k - 1));
    }
}

/// Spawn every registered application that has an entry function, with the
/// stack size it registered, and give each new task its process slot and
/// the slot's MPU region descriptions. Returns how many tasks were spawned
/// and what their stacks receive.
#[verifier::rlimit(100)]
#[verifier::spinoff_prover]
pub fn spawn_demo_tasks(
    sched: &mut Scheduler,
    procs: &mut crate::process::ProcessTable,
    mpu: &mut crate::mpu::MpuRegisters,
    apps: &Vec<AppMetadata>,
) -> (r: Result<(usize, Vec<(u32, StackImage)>), Fatal>)
    requires
        old(sched).wf(),
        old(procs).wf(),
        forall|i: int| 0 <= i < apps.len() ==> apps@[i].stack_size as nat + 7 <= usize::MAX,
    ensures
        final(sched).wf(),
        final(procs).wf(),
        final(mpu).ctrl == old(mpu).ctrl,
        forall|j: int| 0 <= j < 2 ==> #[trigger] final(mpu).regions@[j] == old(mpu).regions@[j],
        match spawn_run(old(sched).stack_pool_base, old(sched).n_tasks, old(sched).stack_pool_offset, apps@).0 {
            None => r is Ok,
            Some(f) => r == Err::<(usize, Vec<(u32, StackImage)>), Fatal>(f),
        },
        r matches Ok((count, images)) ==> {
            &&& count == images.len()
            &&& count == vstd::math::min(MAX_APPS - old(sched).n_tasks, spawnable_apps(apps@) as int)
            &&& final(sched).n_tasks == old(sched).n_tasks + count
            &&& images.len() == spawn_trace(
                old(sched).stack_pool_base,
                old(sched).n_tasks,
                old(sched).stack_pool_offset,
                apps@,
            ).len()
            &&& forall|k: int| #![trigger images@[k]] 0 <= k < images.len() ==> spawned_task_ok(
                images@[k],
                spawn_trace(old(sched).stack_pool_base, old(sched).n_tasks, old(sched).stack_pool_offset, apps@)[k],
                final(sched).tcbs@[old(sched).n_tasks + k],
                final(procs).slots@[old(sched).n_tasks + k],
                old(sched).n_tasks + k,
            )
        },
{
    let mut spawned_count: usize = 0;
    let mut images: Vec<(u32, StackImage)> = Vec::new();
    let mut i: usize = 0;
    while i < apps.len()
        invariant
            sched.wf(),
            procs.wf(),
            mpu.ctrl == old(mpu).ctrl,
            forall|j: int| 0 <= j < 2 ==> #[trigger] mpu.regions@[j] == old(mpu).regions@[j],
            0 <= i <= apps.len(),
            forall|j: int| 0 <= j < apps.len() ==> apps@[j].stack_size as nat + 7 <= usize::MAX,
            spawned_count == images.len(),
            spawned_count == vstd::math::min(MAX_APPS - old(sched).n_tasks, spawnable_apps(apps@.subrange(0, i as int)) as int),
            sched.n_tasks == old(sched).n_tasks + spawned_count,
            old(sched).n_tasks <= MAX_APPS,
            spawn_trace(old(sched).stack_pool_base, old(sched).n_tasks, old(sched).stack_pool_offset, apps@.subrange(0, i as int)).len()
                == images.len(),
            forall|k: int| #![trigger images@[k]] 0 <= k < images.len() ==> spawned_task_ok(
                images@[k],
                spawn_trace(
                    old(sched).stack_pool_base,
                    old(sched).n_tasks,
                    old(sched).stack_pool_offset,
                    apps@.subrange(0, i as int),
                )[k],
                sched.tcbs@[old(sched).n_tasks + k],
                procs.slots@[old(sched).n_tasks + k],
                old(sched).n_tasks + k,
            ),
            sched.stack_pool_base == old(sched).stack_pool_base,
            spawn_run(old(sched).stack_pool_base, old(sched).n_tasks, old(sched).stack_pool_offset, apps@.subrange(0, i as int))
                == (None::<Fatal>, sched.n_tasks, sched.stack_pool_offset),
        decreases apps.len() - i,
    {
        let app = apps[i];
        let ghost base = old(sched).stack_pool_base;
        let ghost n0 = old(sched).n_tasks;
        let ghost off0 = old(sched).stack_pool_offset;
        let ghost pre = apps@.subrange(0, i as int);
        let ghost post = apps@.subrange(0, i as int + 1);
        proof {
            assert(post.drop_last() == pre);
            assert(post.last() == app);
        }
        if let Some(entry_fn) = app.entry_fn {
            let ghost s_before = *sched;
            let ghost mpu_before = *mpu;
            let ghost images_before = images@;
            let spawned = sched.task_spawn(mpu, entry_fn, app.name, Some(app.stack_size as usize));
            proof {
                lemma_spawn_matches_entry(s_before, *sched, mpu_before, *mpu, entry_fn, app, spawned);
                assert forall|j: int| 0 <= j < 2 implies #[trigger] mpu.regions@[j] == mpu_before.regions@[j] by {
                    if spawned is Ok {
                        assert(crate::mpu::only_region_changed(mpu_before, *mpu, (spawned->Ok_0.0 % 6 + 2) as int));
                    }
                }
            }
            match spawned {
                Ok((task_id, image)) => {
                    let ghost procs_before = *procs;
                    images.push((task_id, image));
                    if procs.init_process_slot(task_id as usize, &app).is_ok() {
                        let _ = procs.init_process_mpu_regions(task_id as usize);
                    }
                    spawned_count = spawned_count + 1;
                    proof {
                        let x = spawn_entry(base, s_before.n_tasks, s_before.stack_pool_offset, app)->0;
                        assert(spawn_trace(base, n0, off0, post) == spawn_trace(base, n0, off0, pre).push(x));
                        assert forall|id: int| 0 <= id < task_id implies #[trigger] procs.slots@[id]
                            == procs_before.slots@[id] by {}
                        assert(task_id < crate::MAX_PROCESSES ==> spawned_slot_ready(
                            procs.slots@[task_id as int],
                            task_id as int,
                            app,
                        ));
                        assert forall|k: int| #![trigger images@[k]] 0 <= k < images.len() implies spawned_task_ok(
                            images@[k],
                            spawn_trace(base, n0, off0, post)[k],
                            sched.tcbs@[n0 + k],
                            procs.slots@[n0 + k],
                            n0 + k,
                        ) by {
                            if k < images_before.len() {
                                assert(images@[k] == images_before[k]);
                                assert(spawn_trace(base, n0, off0, post)[k] == spawn_trace(base, n0, off0, pre)[k]);
                                assert(sched.tcbs@[n0 + k] == s_before.tcbs@[n0 + k]);
                                assert(procs.slots@[n0 + k] == procs_before.slots@[n0 + k]);
                            } else {
                                assert(k == images_before.len());
                                assert(images@[k] == (task_id, image));
                                assert(spawn_trace(base, n0, off0, post)[k] == x);
                                reveal(spawned_task_ok);
                            }
                        }
                    }
                },
                Err(SpawnError::Halted(f)) => {
                    proof {
                        let ghost post = apps@.subrange(0, i as int + 1);
                        assert(spawn_run(old(sched).stack_pool_base, old(sched).n_tasks, old(sched).stack_pool_offset, post).0
                            == Some(f));
                        lemma_spawn_halt_persists(
                            old(sched).stack_pool_base,
                            old(sched).n_tasks,
                            old(sched).stack_pool_offset,
                            apps@,
                            i as int + 1,
                            apps.len() as int,
                        );
                        assert(apps@.subrange(0, apps.len() as int) =~= apps@);
                    }
                    return Err(f);
                },
                Err(_) => {
                    assert(*sched == s_before);
                    assert(spawn_trace(base, n0, off0, post) == spawn_trace(base, n0, off0, pre));
                },
            }
        } else {
            assert(spawn_trace(base, n0, off0, post) == spawn_trace(base, n0, off0, pre));
        }
        i = i + 1;
    }
    assert(apps@.subrange(0, apps.len() as int) == apps@);
    Ok((spawned_count, images))
}

/// Where a pool stack of `words` words goes in a pool at `base` whose used
/// part ends at `offset`: the start offset and the region size in words.
pub open spec fn placement(base: u32, offset: usize, words: usize) -> (int, int) {
    let region_bytes = region_bytes_for(words as nat * 4);
    let start = offset + offset % 2;
    let aligned = round_up_pow2((base + start * 4) as u32, region_bytes as u32);
    ((aligned - base) / 4, (region_bytes / 4) as int)
}

/// The stack an application gets at boot from a pool at `base` used up to
/// `offset`, and the offset after: the stack its stack function reports,
/// else its own stack address, else a pool stack.
pub open spec fn boot_stack(base: u32, offset: usize, app: AppMetadata) -> Result<(StackRegion, usize), Fatal> {
    let bytes = stack_bytes_for(app.stack_size);
    let own = match app.stack_ptr_fn {
        Some(b) => Some(b),
        None => if app.stack_ptr != 0 { Some(app.stack_ptr) } else { None::<usize> },
    };
    match own {
        Some(b) => match static_stack_result(b, bytes) {
            Ok(st) => Ok((st, offset)),
            Err(f) => Err(f),
        },
        None => {
            let words = (bytes / 4) as usize;
            let (start, region_words) = placement(base, offset, words);
            if words <= APP_STACK_POOL_WORDS && start + region_words <= APP_STACK_POOL_WORDS {
                Ok((StackRegion { base_addr: (base + start * 4) as u32, words }, (start + region_words) as usize))
            } else {
                Err(Fatal::StackPoolExhausted)
            }
        },
    }
}

/// Setting up `apps` in order at boot from a pool at `base`: the first
/// failure, if any, and the pool offset the set-up reached.
pub open spec fn boot_run(base: u32, apps: Seq<AppMetadata>) -> (Option<Fatal>, usize)
    decreases apps.len(),
{
    if apps.len() == 0 {
        (None, 0)
    } else {
        let (failed, offset) = boot_run(base, apps.drop_last());
        if failed is Some {
            (failed, offset)
        } else {
            match boot_stack(base, offset, apps.last()) {
                Err(f) => (Some(f), offset),
                Ok((stack, next)) => match start_check(apps.last(), stack) {
                    Err(f) => (Some(f), next),
                    Ok(_) => (None, next),
                },
            }
        }
    }
}

/// The stack the application at index `i` of `apps` gets at boot, once the
/// applications before it are set up.
pub open spec fn boot_region(base: u32, apps: Seq<AppMetadata>, i: int) -> StackRegion {
    boot_stack(base, boot_run(base, apps.subrange(0, i)).1, apps[i])->Ok_0.0
}

/// An application set up at boot on `region`: its stack image is the first
/// frame at the program counter its start check gives (odd, at an address
/// in flash), and its control block is the initial one for that frame.
#[verifier::opaque]
pub open spec fn booted_task_ok(image: StackImage, app: AppMetadata, region: StackRegion, tcb: Tcb) -> bool {
    &&& image.canary_addr == region.base_addr
    &&& image.sp == initial_sp(region)
    &&& image.frame@ == initial_frame(start_check(app, region)->Ok_0)
    &&& is_initial_tcb(tcb, image.sp, app.id, app.name)
    &&& image.frame@[6] & 1 == 1
    &&& FLASH_START <= (image.frame@[6] & !1u32) < FLASH_END
}

/// Once set-up has failed, it stays failed with the same failure however
/// many more applications follow.
proof fn lemma_boot_failure_persists(base: u32, apps: Seq<AppMetadata>, j: int, k: int)
    requires
        0 <= j <= k <= apps.len(),
        boot_run(base, apps.subrange(0, j)).0 is Some,
    ensures
        boot_run(base, apps.subrange(0, k)).0 == boot_run(base, apps.subrange(0, j)).0,
    decreases k - j,
{
    if j < k {
        lemma_boot_failure_persists(base, apps, j, k - 1);
        assert(apps.subrange(0, k).drop_last() =~= apps.subrange(0, k - 1));
    }
}

/// Set up the tasks of all registered applications at boot: a fresh stack
/// pool and task table, a stack for each application (its own or from the
/// pool), and its first frame. Refused with more applications than task
/// control blocks.
#[verifier::rlimit(60)]
#[verifier::spinoff_prover]
pub fn init_kernel_and_tasks(
    sched: &mut Scheduler,
    mpu: &mut crate::mpu::MpuRegisters,
    apps: &mut Vec<AppMetadata>,
) -> (r: Result<Vec<StackImage>, Fatal>)
    requires
        old(sched).wf(),
        old(sched).allocations.len() == 0,
        forall|i: int| 0 <= i < old(apps).len() ==> old(apps)@[i].stack_size as nat + 7 <= usize::MAX,
    ensures
        final(sched).wf(),
        final(mpu).ctrl == old(mpu).ctrl,
        forall|j: int| 0 <= j < 2 ==> #[trigger] final(mpu).regions@[j] == old(mpu).regions@[j],
        old(apps).len() > MAX_APPS ==> r == Err::<Vec<StackImage>, Fatal>(Fatal::TooManyApps),
        old(apps).len() <= MAX_APPS ==> match boot_run(old(sched).stack_pool_base, old(apps)@).0 {
            None => r is Ok,
            Some(f) => r == Err::<Vec<StackImage>, Fatal>(f),
        },
        final(apps).len() == old(apps).len(),
        r matches Ok(images) ==> {
            &&& images.len() == old(apps).len()
            &&& final(sched).n_tasks == old(apps).len()
            &&& final(sched).curr == 0
            &&& forall|i: int| #![trigger images@[i]] 0 <= i < images.len() ==> booted_task_ok(
                images@[i],
                old(apps)@[i],
                boot_region(old(sched).stack_pool_base, old(apps)@, i),
                final(sched).tcbs@[i],
            )
        },
{
    sched.stack_pool_offset = 0;
    let mut idx: usize = 0;
    while idx < MAX_APPS
        invariant
            sched.wf(),
            sched.allocations.len() == 0,
            sched.stack_pool_offset == 0,
            sched.stack_pool_base == old(sched).stack_pool_base,
            0 <= idx <= MAX_APPS,
            forall|j: int| 0 <= j < idx ==> (#[trigger] sched.tcbs@[j]).is_blank(),
        decreases MAX_APPS - idx,
    {
        sched.tcbs.set(idx, Tcb::blank());
        idx = idx + 1;
    }
    if apps.len() > MAX_APPS {
        return Err(Fatal::TooManyApps);
    }
    sched.n_tasks = apps.len();
    let mut images: Vec<StackImage> = Vec::new();
    let mut i: usize = 0;
    assert(old(apps)@.subrange(0, 0) =~= Seq::<AppMetadata>::empty());
    while i < apps.len()
        invariant
            sched.wf(),
            mpu.ctrl == old(mpu).ctrl,
            forall|j: int| 0 <= j < 2 ==> #[trigger] mpu.regions@[j] == old(mpu).regions@[j],
            sched.n_tasks == old(apps).len(),
            apps.len() == old(apps).len(),
            apps.len() <= MAX_APPS,
            0 <= i <= apps.len(),
            images.len() == i,
            forall|j: int| 0 <= j < apps.len() ==> apps@[j].stack_size as nat + 7 <= usize::MAX,
            forall|j: int| i <= j < apps.len() ==> apps@[j] == old(apps)@[j],
            sched.stack_pool_base == old(sched).stack_pool_base,
            boot_run(old(sched).stack_pool_base, old(apps)@.subrange(0, i as int)) == (
                None::<Fatal>,
                sched.stack_pool_offset,
            ),
            forall|j: int| #![trigger images@[j]] 0 <= j < i ==> booted_task_ok(
                images@[j],
                old(apps)@[j],
                boot_region(old(sched).stack_pool_base, old(apps)@, j),
                sched.tcbs@[j],
            ),
        decreases apps.len() - i,
    {
        let mut app = apps[i];
        let ghost base = old(sched).stack_pool_base;
        let ghost pre = old(apps)@.subrange(0, i as int);
        let ghost post = old(apps)@.subrange(0, i as int + 1);
        proof {
            assert(post.drop_last() =~= pre);
            assert(post.last() == app);
        }
        let stack = match sched.acquire_app_stack(&app) {
            Ok(s) => s,
            Err(f) => {
                proof {
                    assert(boot_run(base, post).0 == Some(f));
                    lemma_boot_failure_persists(base, old(apps)@, i as int + 1, old(apps).len() as int);
                    assert(old(apps)@.subrange(0, old(apps).len() as int) =~= old(apps)@);
                }
                return Err(f);
            },
        };
        sched.tcbs.set(i, Tcb::blank());
        let ghost before = sched.tcbs@;
        let ghost mpu_before = *mpu;
        let image = match sched.init_app_stack_and_tcb(mpu, &mut app, i, stack) {
            Ok(img) => img,
            Err(f) => {
                proof {
                    assert(boot_run(base, post).0 == Some(f));
                    lemma_boot_failure_persists(base, old(apps)@, i as int + 1, old(apps).len() as int);
                    assert(old(apps)@.subrange(0, old(apps).len() as int) =~= old(apps)@);
                }
                return Err(f);
            },
        };
        proof {
            let pc = start_check(old(apps)@[i as int], stack)->Ok_0;
            let e = resolved_entry(old(apps)@[i as int])->0 as u32;
            assert(pc == (e & !1u32) | 1u32);
            assert(FLASH_START <= (e & !1u32) < FLASH_END);
            assert(((e & !1u32) | 1u32) & 1u32 == 1u32 && ((e & !1u32) | 1u32) & !1u32 == e & !1u32) by (bit_vector);
            assert(image.frame@[6] == pc);
            assert(stack == boot_region(base, old(apps)@, i as int));
            assert(crate::mpu::only_region_changed(mpu_before, *mpu, (app.id % 6 + 2) as int));
            assert(booted_task_ok(image, old(apps)@[i as int], stack, sched.tcbs@[i as int])) by {
                reveal(booted_task_ok);
            }
        }
        let ghost images_before = images@;
        apps.set(i, app);
        images.push(image);
        proof {
            assert forall|j: int| #![trigger images@[j]] 0 <= j < i + 1 implies booted_task_ok(
                images@[j],
                old(apps)@[j],
                boot_region(base, old(apps)@, j),
                sched.tcbs@[j],
            ) by {
                if j < i {
                    assert(images@[j] == images_before[j]);
                }
            }
        }
        i = i + 1;
    }
    sched.curr = 0;
    assert(old(apps)@.subrange(0, old(apps).len() as int) =~= old(apps)@);
    Ok(images)
}

/// Are both canary words at the bottom of a stack intact?
pub fn canary_intact(word0: u32, word1: u32) -> (r: bool)
    ensures
        r == (word0 == STACK_CANARY && word1 == STACK_CANARY),
{
    word0 == STACK_CANARY && word1 == STACK_CANARY
}

/// One SysTick: the tick count goes up, every tenth tick checks the stack
/// canaries, and every tick asks for a context switch.
pub fn systick_tick(count: u32) -> (r: (u32, bool))
    requires
        count < u32::MAX,
    ensures
        r.0 == count + 1,
        r.1 == ((count + 1) % 10 == 0),
{
    let next = count + 1;
    (next, next % 10 == 0)
}

/// Stacks allocated from the pool lie inside the pool, each at a multiple
/// of its MPU region size, and no two regions overlap.
pub proof fn lemma_pool_stacks_disjoint(s: Scheduler, i: int, j: int)
    requires
        s.wf(),
        0 <= i < s.allocations.len(),
        0 <= j < s.allocations.len(),
        i != j,
    ensures
        ({
            let a = s.allocations@[i];
            let b = s.allocations@[j];
            &&& s.stack_pool_base <= a.base_addr
            &&& a.base_addr + a.region_size_words * 4 <= s.stack_pool_base + APP_STACK_POOL_BYTES
            &&& (a.base_addr as int) % (a.region_size_words as int * 4) == 0
            &&& a.size_words <= a.region_size_words
            &&& (a.base_addr + a.region_size_words * 4 <= b.base_addr || b.base_addr + b.region_size_words * 4
                <= a.base_addr)
        }),
{
    assert(s.allocation_ok(s.allocations@[i]));
    assert(s.allocation_ok(s.allocations@[j]));
    if i < j {
        assert(s.allocations@[i].start_offset + s.allocations@[i].region_size_words <= s.allocations@[j].start_offset);
    } else {
        assert(s.allocations@[j].start_offset + s.allocations@[j].region_size_words <= s.allocations@[i].start_offset);
    }
}

/// A stack pointer or a state written for a task is what a read of that
/// task gives back, and the other tasks keep theirs.
pub proof fn lemma_task_write_read(s: Scheduler, sp_written: Scheduler, state_written: Scheduler, id: usize, sp: u32, state: TaskState, other: int)
    requires
        s.wf(),
        id < s.n_tasks,
        0 <= other < MAX_APPS,
        other != id,
        sp_written.tcbs@ == s.tcbs@.update(id as int, Tcb { sp, ..s.tcbs@[id as int] }),
        state_written.tcbs@ == s.tcbs@.update(id as int, Tcb { state, ..s.tcbs@[id as int] }),
    ensures
        sp_written.tcbs@[id as int].sp == sp,
        sp_written.tcbs@[other] == s.tcbs@[other],
        state_written.tcbs@[id as int].state == state,
        state_written.tcbs@[other] == s.tcbs@[other],
{
}

/// SysTick control and status register.
pub const SYST_CSR: u32 = 0xE000_E010;
/// SysTick reload value register.
pub const SYST_RVR: u32 = 0xE000_E014;
/// SysTick current value register.
pub const SYST_CVR: u32 = 0xE000_E018;
/// Reload value for one-second ticks at 16 MHz.
pub const SYSTICK_RELOAD_1S: u32 = 15999999;

/// The stores that set SysTick to one-second periods: the reload value,
/// a cleared count, then counting on the processor clock with the
/// interrupt still off.
pub fn init_systick_1s() -> (r: Vec<crate::board::RegisterWrite>)
    ensures
        r@ == seq![
            crate::board::RegisterWrite { addr: SYST_RVR, value: SYSTICK_RELOAD_1S },
            crate::board::RegisterWrite { addr: SYST_CVR, value: 0 },
            crate::board::RegisterWrite { addr: SYST_CSR, value: 5 },
        ],
{
    let mut r: Vec<crate::board::RegisterWrite> = Vec::new();
    r.push(crate::board::RegisterWrite { addr: SYST_RVR, value: SYSTICK_RELOAD_1S });
    r.push(crate::board::RegisterWrite { addr: SYST_CVR, value: 0 });
    r.push(crate::board::RegisterWrite { addr: SYST_CSR, value: (1u32 << 2u32) | 1u32 });
    assert((1u32 << 2u32) | 1u32 == 5) by (bit_vector);
    assert(r@ =~= seq![
        crate::board::RegisterWrite { addr: SYST_RVR, value: SYSTICK_RELOAD_1S },
        crate::board::RegisterWrite { addr: SYST_CVR, value: 0 },
        crate::board::RegisterWrite { addr: SYST_CSR, value: 5 },
    ]);
    r
}

/// The store that turns the SysTick interrupt on, counting kept on.
pub fn enable_systick_interrupt() -> (r: crate::board::RegisterWrite)
    ensures
        r == (crate::board::RegisterWrite { addr: SYST_CSR, value: 7 }),
{
    assert((1u32 << 2u32) | (1u32 << 1u32) | 1u32 == 7) by (bit_vector);
    crate::board::RegisterWrite { addr: SYST_CSR, value: (1u32 << 2u32) | (1u32 << 1u32) | 1u32 }
}

/// The stack size a spawn asks for: the minimum by default.
pub open spec fn requested_stack_bytes(b: Option<usize>) -> usize {
    match b {
        Some(x) => x,
        None => MIN_APP_STACK_BYTES,
    }
}

/// The requested stack size rounded up to 8 bytes.
pub open spec fn spawn_aligned_bytes(b: Option<usize>) -> usize {
    let x = requested_stack_bytes(b);
    if x % 8 == 0 { x } else { ((x + 7) / 8 * 8) as usize }
}

/// The stack size in words of a spawned task.
pub open spec fn spawn_stack_words(b: Option<usize>) -> usize {
    (spawn_aligned_bytes(b) / 4) as usize
}

/// The metadata a spawned task is started from.
pub open spec fn spawned_app(entry_fn: usize, name: &'static str, id: u32, b: Option<usize>) -> AppMetadata {
    AppMetadata {
        id,
        name,
        entry: entry_fn,
        entry_fn: Some(entry_fn),
        stack_ptr: 0,
        stack_size: spawn_aligned_bytes(b) as u32,
        stack_ptr_fn: None,
    }
}

/// What checking a statically provided stack of `bytes` bytes at `base` gives.
pub open spec fn static_stack_result(base: usize, bytes: nat) -> Result<StackRegion, Fatal> {
    if base == 0 {
        Err(Fatal::NullStackPointer)
    } else if bytes < MIN_APP_STACK_BYTES {
        Err(Fatal::StaticStackTooSmall)
    } else if bytes % 8 != 0 {
        Err(Fatal::StaticStackMisaligned)
    } else {
        Ok(StackRegion { base_addr: base as u32, words: (bytes / 4) as usize })
    }
}

/// Resolve an application's entry point: its entry address when set, else
/// its entry function's address.
pub fn resolve_app_entry(app: &AppMetadata) -> (r: Result<usize, Fatal>)
    ensures
        match resolved_entry(*app) {
            Some(e) => r == Ok::<usize, Fatal>(e),
            None => r == Err::<usize, Fatal>(Fatal::NoEntryFunction),
        },
{
    if app.entry != 0 {
        return Ok(app.entry);
    }
    match app.entry_fn {
        Some(f) => Ok(f),
        None => Err(Fatal::NoEntryFunction),
    }
}

/// Entry points are not looked up by name: this always halts.
pub fn resolve_app_entry_dynamic(app_name: &str) -> (r: Result<usize, Fatal>)
    ensures
        r == Err::<usize, Fatal>(Fatal::SymbolResolutionUnavailable),
{
    Err(Fatal::SymbolResolutionUnavailable)
}

/// Check a stack that an application provides itself: non-null, at least
/// the minimum size, a multiple of the alignment.
pub fn static_stack_from(base: usize, bytes: usize) -> (r: Result<StackRegion, Fatal>)
    ensures
        base == 0 ==> r == Err::<StackRegion, Fatal>(Fatal::NullStackPointer),
        base != 0 && bytes < MIN_APP_STACK_BYTES ==> r == Err::<StackRegion, Fatal>(Fatal::StaticStackTooSmall),
        base != 0 && bytes >= MIN_APP_STACK_BYTES && bytes % 8 != 0 ==> r == Err::<StackRegion, Fatal>(
            Fatal::StaticStackMisaligned,
        ),
        base != 0 && bytes >= MIN_APP_STACK_BYTES && bytes % 8 == 0 ==> r == Ok::<StackRegion, Fatal>(
            StackRegion { base_addr: base as u32, words: bytes / 4 },
        ),
{
    if base == 0 {
        return Err(Fatal::NullStackPointer);
    }
    if bytes < MIN_APP_STACK_BYTES {
        return Err(Fatal::StaticStackTooSmall);
    }
    if bytes % 8 != 0 {
        return Err(Fatal::StaticStackMisaligned);
    }
    Ok(StackRegion { base_addr: base as u32, words: bytes / 4 })
}

} // verus!
