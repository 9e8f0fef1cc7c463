//! Process slots: each process gets a fixed 8 KiB piece of process RAM,
//! split into data, stack and a kernel-only grant region, with the MPU
//! regions that isolate it.
use vstd::prelude::*;
use crate::mpu::{
    encoding_search, configure_region, disable_region, is_size_encoding_for, region_size_encoding, rasr_word,
    lemma_encoding_search, lemma_rasr_fields, lemma_two_pow_values, rasr_ap_field,
    rasr_enabled, rasr_size_field, rasr_xn_flag, two_pow, MpuRegisters, RegionRegisters, MPU_AP_PRIV_RW,
    MPU_AP_PRIV_RW_USER_RW,
};
use crate::registry::AppMetadata;
use crate::sched::{Scheduler, TaskState, Tcb};
use crate::{GRANT_REGION_SIZE, MAX_PROCESSES, PROCESS_RAM_BASE, PROCESS_RAM_SIZE, PROCESS_SLOT_SIZE};

verus! {

broadcast use vstd::array::group_array_axioms;

/// Lifecycle of a process slot.
#[derive(Copy, Clone, Debug, PartialEq, Eq, Structural)]
pub enum ProcessState {
    Inactive,
    Loading,
    Ready,
    Running,
    Yielded,
    Faulted,
}

/// The MPU region a process uses for one part of its slot.
#[derive(Copy, Clone, Debug, PartialEq, Eq, Structural)]
pub struct MpuRegion {
    pub region_num: u8,
    pub base_addr: u32,
    pub size_encoding: u32,
    pub access_permission: u32,
    pub execute_never: bool,
    pub enabled: bool,
}

impl MpuRegion {
    /// An unused region description: disabled, execute-never.
    pub open spec fn is_unused(self) -> bool {
        self == MpuRegion {
            region_num: 0,
            base_addr: 0,
            size_encoding: 0,
            access_permission: 0,
            execute_never: true,
            enabled: false,
        }
    }

    pub fn unused() -> (r: Self)
        ensures
            r.is_unused(),
    {
        MpuRegion {
            region_num: 0,
            base_addr: 0,
            size_encoding: 0,
            access_permission: 0,
            execute_never: true,
            enabled: false,
        }
    }
}

impl Default for MpuRegion {
    fn default() -> (r: Self)
        ensures
            r.is_unused(),
    {
        MpuRegion::unused()
    }
}

/// One isolated process: its state, its memory layout and its MPU regions.
#[derive(Copy, Clone, Debug)]
pub struct ProcessSlot {
    pub slot_id: u8,
    pub state: ProcessState,
    pub code_region: MpuRegion,
    pub ram_region: MpuRegion,
    pub grant_region: MpuRegion,
    pub slot_base: u32,
    pub slot_size: u32,
    pub data_base: u32,
    pub data_size: u32,
    pub stack_base: u32,
    pub stack_size: u32,
    pub grant_base: u32,
    pub grant_size: u32,
    pub sp: u32,
    pub app_id: u32,
    pub name: &'static str,
}

impl ProcessSlot {
    /// An unused slot: inactive, everything zero.
    pub open spec fn is_unused(self) -> bool {
        &&& self.slot_id == 0
        &&& self.state == ProcessState::Inactive
        &&& self.code_region.is_unused() && self.ram_region.is_unused() && self.grant_region.is_unused()
        &&& self.slot_base == 0 && self.slot_size == 0
        &&& self.data_base == 0 && self.data_size == 0
        &&& self.stack_base == 0 && self.stack_size == 0
        &&& self.grant_base == 0 && self.grant_size == 0
        &&& self.sp == 0 && self.app_id == 0
        &&& self.name@ == ""@
    }

    pub fn unused() -> (r: Self)
        ensures
            r.is_unused(),
    {
        proof { reveal_strlit(""); }
        ProcessSlot {
            slot_id: 0,
            state: ProcessState::Inactive,
            code_region: MpuRegion::unused(),
            ram_region: MpuRegion::unused(),
            grant_region: MpuRegion::unused(),
            slot_base: 0,
            slot_size: 0,
            data_base: 0,
            data_size: 0,
            stack_base: 0,
            stack_size: 0,
            grant_base: 0,
            grant_size: 0,
            sp: 0,
            app_id: 0,
            name: "",
        }
    }
}

impl Default for ProcessSlot {
    fn default() -> (r: Self)
        ensures
            r.is_unused(),
    {
        ProcessSlot::unused()
    }
}

/// A process control block: saved callee-saved registers, the slot, and scheduling data.
#[derive(Copy, Clone, Debug)]
pub struct ProcessControlBlock {
    pub r4: u32,
    pub r5: u32,
    pub r6: u32,
    pub r7: u32,
    pub r8: u32,
    pub r9: u32,
    pub r10: u32,
    pub r11: u32,
    pub control: u32,
    pub process_slot: ProcessSlot,
    pub priority: u8,
    pub time_slice: u32,
}

impl Default for ProcessControlBlock {
    fn default() -> (r: Self)
        ensures
            r.r4 == 0 && r.r5 == 0 && r.r6 == 0 && r.r7 == 0 && r.r8 == 0 && r.r9 == 0 && r.r10 == 0 && r.r11 == 0,
            r.control == 0,
            r.process_slot.is_unused(),
            r.priority == 0,
            r.time_slice == 0,
    {
        ProcessControlBlock {
            r4: 0,
            r5: 0,
            r6: 0,
            r7: 0,
            r8: 0,
            r9: 0,
            r10: 0,
            r11: 0,
            control: 0,
            process_slot: ProcessSlot::unused(),
            priority: 0,
            time_slice: 0,
        }
    }
}

/// Half of a slot holds data.
pub const PROCESS_DATA_SIZE: u32 = 4096;
/// The stack takes the other half less the grant region.
pub const PROCESS_STACK_SIZE: u32 = 3072;

/// The base of slot `i` in process RAM.
pub open spec fn slot_base_of(i: int) -> int {
    PROCESS_RAM_BASE + i * PROCESS_SLOT_SIZE
}

/// The slot is where slot `i` belongs and its parts follow each other:
/// data, then stack, then grant, ending where the slot ends.
pub open spec fn isolation_ok(s: ProcessSlot, i: int) -> bool {
    &&& s.slot_base == slot_base_of(i)
    &&& s.data_base + s.data_size == s.stack_base
    &&& s.stack_base + s.stack_size == s.grant_base
    &&& s.grant_base + s.grant_size == s.slot_base + s.slot_size
}

/// The grant region is kernel-only and lies inside the slot.
pub open spec fn grant_ok(s: ProcessSlot) -> bool {
    &&& s.grant_region.access_permission == MPU_AP_PRIV_RW
    &&& s.grant_base >= s.slot_base
    &&& s.grant_base + s.grant_size <= s.slot_base + s.slot_size
}

/// The layout `init_process_slot` gives slot `i`.
pub open spec fn standard_layout(s: ProcessSlot, i: int) -> bool {
    &&& s.slot_base == slot_base_of(i)
    &&& s.slot_size == PROCESS_SLOT_SIZE
    &&& s.data_base == s.slot_base
    &&& s.data_size == PROCESS_DATA_SIZE
    &&& s.stack_base == s.slot_base + PROCESS_DATA_SIZE
    &&& s.stack_size == PROCESS_STACK_SIZE
    &&& s.grant_base == s.stack_base + PROCESS_STACK_SIZE
    &&& s.grant_size == GRANT_REGION_SIZE
}

/// The task state that a process state stands for, where one does.
pub open spec fn task_state_of(p: ProcessState) -> Option<TaskState> {
    match p {
        ProcessState::Ready => Some(TaskState::Ready),
        ProcessState::Running => Some(TaskState::Running),
        ProcessState::Yielded => Some(TaskState::Blocked),
        _ => None,
    }
}

/// The process state that a task state stands for.
pub open spec fn process_state_of(t: TaskState) -> ProcessState {
    match t {
        TaskState::Ready => ProcessState::Ready,
        TaskState::Running => ProcessState::Running,
        TaskState::Blocked => ProcessState::Yielded,
    }
}

/// The process slots and the process that currently owns the CPU.
pub struct ProcessTable {
    pub slots: Vec<ProcessSlot>,
    pub current: Option<usize>,
}

impl ProcessTable {
    pub open spec fn wf(&self) -> bool {
        self.slots.len() == MAX_PROCESSES
    }

    /// Every slot unused, no current process.
    pub fn new() -> (r: Self)
        ensures
            r.wf(),
            r.current is None,
            forall|i: int| 0 <= i < MAX_PROCESSES ==> (#[trigger] r.slots@[i]).is_unused(),
    {
        let mut slots: Vec<ProcessSlot> = Vec::new();
        let mut i: usize = 0;
        while i < MAX_PROCESSES
            invariant
                0 <= i <= MAX_PROCESSES,
                slots.len() == i,
                forall|j: int| 0 <= j < i ==> (#[trigger] slots@[j]).is_unused(),
            decreases MAX_PROCESSES - i,
        {
            slots.push(ProcessSlot::unused());
            i = i + 1;
        }
        ProcessTable { slots, current: None }
    }

    /// Lay out slot `slot_id` for an application: 4 KiB data, 3 KiB stack
    /// and a 1 KiB grant region, the stack pointer at the top of the stack.
    pub fn init_process_slot(&mut self, slot_id: usize, app_metadata: &AppMetadata) -> (r: Result<(), &'static str>)
        requires
            old(self).wf(),
        ensures
            final(self).wf(),
            final(self).current == old(self).current,
            slot_id >= MAX_PROCESSES ==> *final(self) == *old(self) && (r matches Err(m) && m@ == "Invalid slot ID"@),
            slot_id < MAX_PROCESSES ==> {
                let s = final(self).slots@[slot_id as int];
                &&& r is Ok
                &&& final(self).slots@ == old(self).slots@.update(slot_id as int, s)
                &&& standard_layout(s, slot_id as int)
                &&& s.slot_id == slot_id as u8
                &&& s.state == ProcessState::Loading
                &&& s.sp == s.stack_base + PROCESS_STACK_SIZE
                &&& s.app_id == app_metadata.id
                &&& s.name == app_metadata.name
                &&& s.code_region == old(self).slots@[slot_id as int].code_region
                &&& s.ram_region == old(self).slots@[slot_id as int].ram_region
                &&& s.grant_region == old(self).slots@[slot_id as int].grant_region
            },
    {
        if slot_id >= MAX_PROCESSES {
            proof { reveal_strlit("Invalid slot ID"); }
            return Err("Invalid slot ID");
        }
        let slot_base = PROCESS_RAM_BASE + (slot_id as u32 * PROCESS_SLOT_SIZE);
        let data_size = PROCESS_SLOT_SIZE / 2;
        let stack_size = PROCESS_SLOT_SIZE / 2 - GRANT_REGION_SIZE;
        let grant_size = GRANT_REGION_SIZE;
        let mut slot = self.slots[slot_id];
        slot.slot_id = slot_id as u8;
        slot.state = ProcessState::Loading;
        slot.slot_base = slot_base;
        slot.slot_size = PROCESS_SLOT_SIZE;
        slot.data_base = slot_base;
        slot.data_size = data_size;
        slot.stack_base = slot_base + data_size;
        slot.stack_size = stack_size;
        slot.grant_base = slot.stack_base + stack_size;
        slot.grant_size = grant_size;
        slot.app_id = app_metadata.id;
        slot.name = app_metadata.name;
        slot.sp = slot.stack_base + stack_size;
        self.slots.set(slot_id, slot);
        Ok(())
    }

    /// A copy of slot `slot_id`, when it exists.
    pub fn get_process_slot(&self, slot_id: usize) -> (r: Option<ProcessSlot>)
        requires
            self.wf(),
        ensures
            slot_id < MAX_PROCESSES ==> r == Some(self.slots@[slot_id as int]),
            slot_id >= MAX_PROCESSES ==> r is None,
    {
        if slot_id < MAX_PROCESSES {
            Some(self.slots[slot_id])
        } else {
            None
        }
    }

    /// The process that owns the CPU.
    pub fn get_current_process(&self) -> (r: Option<usize>)
        ensures
            r == self.current,
    {
        self.current
    }

    /// Record the process that owns the CPU.
    pub fn set_current_process(&mut self, process_id: Option<usize>)
        ensures
            final(self).current == process_id,
            final(self).slots == old(self).slots,
    {
        self.current = process_id;
    }

    /// The state of slot `slot_id`, when it exists.
    pub fn get_process_state(&self, slot_id: usize) -> (r: Option<ProcessState>)
        requires
            self.wf(),
        ensures
            slot_id < MAX_PROCESSES ==> r == Some(self.slots@[slot_id as int].state),
            slot_id >= MAX_PROCESSES ==> r is None,
    {
        if slot_id < MAX_PROCESSES {
            Some(self.slots[slot_id].state)
        } else {
            None
        }
    }

    /// Set the state of slot `slot_id`.
    pub fn set_process_state(&mut self, slot_id: usize, state: ProcessState) -> (r: Result<(), &'static str>)
        requires
            old(self).wf(),
        ensures
            final(self).wf(),
            final(self).current == old(self).current,
            slot_id >= MAX_PROCESSES ==> *final(self) == *old(self) && (r matches Err(m) && m@ == "Invalid slot ID"@),
            slot_id < MAX_PROCESSES ==> r is Ok && final(self).slots@ == old(self).slots@.update(
                slot_id as int,
                ProcessSlot { state, ..old(self).slots@[slot_id as int] },
            ),
    {
        if slot_id >= MAX_PROCESSES {
            proof { reveal_strlit("Invalid slot ID"); }
            return Err("Invalid slot ID");
        }
        let mut slot = self.slots[slot_id];
        slot.state = state;
        self.slots.set(slot_id, slot);
        Ok(())
    }

    /// Program the MPU for slot `slot_id`: region 2 covers its data and stack
    /// (read/write for all, execute-never), region 3 its grant region
    /// (privileged only, execute-never).
    pub fn configure_process_mpu(&self, mpu: &mut MpuRegisters, slot_id: usize) -> (r: Result<(), &'static str>)
        requires
            self.wf(),
            slot_id < MAX_PROCESSES ==> self.slots@[slot_id as int].data_size + self.slots@[slot_id as int].stack_size
                <= u32::MAX,
        ensures
            slot_id >= MAX_PROCESSES ==> *final(mpu) == *old(mpu) && (r matches Err(m) && m@ == "Invalid slot ID"@),
            slot_id < MAX_PROCESSES && self.slots@[slot_id as int].state == ProcessState::Inactive ==> *final(mpu)
                == *old(mpu) && (r matches Err(m) && m@ == "Process slot not active"@),
            slot_id < MAX_PROCESSES && self.slots@[slot_id as int].state != ProcessState::Inactive ==> process_mpu_programmed(
                self.slots@[slot_id as int],
                *old(mpu),
                *final(mpu),
                r,
            ),
    {
        if slot_id >= MAX_PROCESSES {
            proof { reveal_strlit("Invalid slot ID"); }
            return Err("Invalid slot ID");
        }
        let slot = self.slots[slot_id];
        if slot.state == ProcessState::Inactive {
            proof { reveal_strlit("Process slot not active"); }
            return Err("Process slot not active");
        }
        let ram_size = slot.data_size + slot.stack_size;
        let ram_enc = match region_size_encoding(ram_size as usize) {
            Ok(e) => e,
            Err(m) => {
                return Err(m);
            },
        };
        let r2 = configure_region(mpu, 2, slot.data_base, ram_enc, MPU_AP_PRIV_RW_USER_RW, true);
        if r2.is_err() {
            return r2;
        }
        let grant_enc = match region_size_encoding(slot.grant_size as usize) {
            Ok(e) => e,
            Err(m) => {
                return Err(m);
            },
        };
        let r3 = configure_region(mpu, 3, slot.grant_base, grant_enc, MPU_AP_PRIV_RW, true);
        if r3.is_err() {
            return r3;
        }
        Ok(())
    }

    /// Lay down slot `slot_id`'s MPU region descriptions (RAM in region 2,
    /// grant in region 3) and make the slot ready.
    pub fn init_process_mpu_regions(&mut self, slot_id: usize) -> (r: Result<(), &'static str>)
        requires
            old(self).wf(),
            slot_id < MAX_PROCESSES ==> old(self).slots@[slot_id as int].data_size
                + old(self).slots@[slot_id as int].stack_size <= u32::MAX,
        ensures
            final(self).wf(),
            final(self).current == old(self).current,
            slot_id >= MAX_PROCESSES ==> *final(self) == *old(self) && (r matches Err(m) && m@ == "Invalid slot ID"@),
            slot_id < MAX_PROCESSES ==> ({
                let s = old(self).slots@[slot_id as int];
                let n = final(self).slots@[slot_id as int];
                let ram = s.data_size + s.stack_size;
                &&& final(self).slots@ == old(self).slots@.update(slot_id as int, n)
                &&& if ram < 32 {
                    n == s && (r matches Err(m) && m@ == "Region too small (minimum 32 bytes)"@)
                } else if s.grant_size < 32 {
                    &&& (r matches Err(m) && m@ == "Region too small (minimum 32 bytes)"@)
                    &&& n == ProcessSlot { ram_region: n.ram_region, ..s }
                    &&& region_describes(n.ram_region, 2, s.data_base, ram as nat, MPU_AP_PRIV_RW_USER_RW)
                } else {
                    &&& r is Ok
                    &&& n == ProcessSlot { ram_region: n.ram_region, grant_region: n.grant_region, state: ProcessState::Ready, ..s }
                    &&& region_describes(n.ram_region, 2, s.data_base, ram as nat, MPU_AP_PRIV_RW_USER_RW)
                    &&& region_describes(n.grant_region, 3, s.grant_base, s.grant_size as nat, MPU_AP_PRIV_RW)
                }
            }),
    {
        if slot_id >= MAX_PROCESSES {
            proof { reveal_strlit("Invalid slot ID"); }
            return Err("Invalid slot ID");
        }
        let mut slot = self.slots[slot_id];
        let ram_size = slot.data_size + slot.stack_size;
        let ram_enc = match region_size_encoding(ram_size as usize) {
            Ok(e) => e,
            Err(m) => {
                return Err(m);
            },
        };
        slot.ram_region = MpuRegion {
            region_num: 2,
            base_addr: slot.data_base,
            size_encoding: ram_enc,
            access_permission: MPU_AP_PRIV_RW_USER_RW,
            execute_never: true,
            enabled: true,
        };
        self.slots.set(slot_id, slot);
        let grant_enc = match region_size_encoding(slot.grant_size as usize) {
            Ok(e) => e,
            Err(m) => {
                return Err(m);
            },
        };
        slot.grant_region = MpuRegion {
            region_num: 3,
            base_addr: slot.grant_base,
            size_encoding: grant_enc,
            access_permission: MPU_AP_PRIV_RW,
            execute_never: true,
            enabled: true,
        };
        slot.state = ProcessState::Ready;
        self.slots.set(slot_id, slot);
        Ok(())
    }

    /// Take slot `slot_id`'s stack pointer and state from its task's control block.
    pub fn sync_process_slot_with_tcb(&mut self, sched: &Scheduler, slot_id: usize) -> (r: Result<(), &'static str>)
        requires
            old(self).wf(),
            sched.wf(),
        ensures
            final(self).wf(),
            final(self).current == old(self).current,
            slot_id >= MAX_PROCESSES ==> *final(self) == *old(self) && (r matches Err(m) && m@ == "Invalid slot ID"@),
            slot_id < MAX_PROCESSES && slot_id >= sched.n_tasks ==> *final(self) == *old(self) && (r matches Err(m)
                && m@ == "Invalid task ID"@),
            slot_id < MAX_PROCESSES && slot_id < sched.n_tasks ==> r is Ok && final(self).slots@ == old(self).slots@.update(
                slot_id as int,
                ProcessSlot {
                    sp: sched.tcbs@[slot_id as int].sp,
                    state: process_state_of(sched.tcbs@[slot_id as int].state),
                    ..old(self).slots@[slot_id as int]
                },
            ),
    {
        if slot_id >= MAX_PROCESSES {
            proof { reveal_strlit("Invalid slot ID"); }
            return Err("Invalid slot ID");
        }
        let tcb_sp = match sched.get_task_sp(slot_id) {
            Ok(sp) => sp,
            Err(m) => {
                return Err(m);
            },
        };
        let tcb_state = match sched.get_task_state(slot_id) {
            Ok(st) => st,
            Err(m) => {
                return Err(m);
            },
        };
        let mut slot = self.slots[slot_id];
        slot.sp = tcb_sp;
        slot.state = match tcb_state {
            TaskState::Ready => ProcessState::Ready,
            TaskState::Running => ProcessState::Running,
            TaskState::Blocked => ProcessState::Yielded,
        };
        self.slots.set(slot_id, slot);
        Ok(())
    }

    /// Give task `slot_id`'s control block the slot's stack pointer and state.
    pub fn sync_tcb_with_process_slot(&self, sched: &mut Scheduler, slot_id: usize) -> (r: Result<(), &'static str>)
        requires
            self.wf(),
            old(sched).wf(),
        ensures
            final(sched).wf(),
            final(sched).n_tasks == old(sched).n_tasks,
            final(sched).curr == old(sched).curr,
            final(sched).allocations == old(sched).allocations,
            final(sched).stack_pool_offset == old(sched).stack_pool_offset,
            final(sched).stack_pool_base == old(sched).stack_pool_base,
            final(sched).first_switch == old(sched).first_switch,
            final(sched).next_task_psp == old(sched).next_task_psp,
            slot_id >= MAX_PROCESSES ==> *final(sched) == *old(sched) && (r matches Err(m) && m@ == "Invalid slot ID"@),
            slot_id < MAX_PROCESSES ==> ({
                let s = self.slots@[slot_id as int];
                if s.state == ProcessState::Inactive {
                    *final(sched) == *old(sched) && (r matches Err(m) && m@ == "Process slot not active"@)
                } else if slot_id >= old(sched).n_tasks {
                    *final(sched) == *old(sched) && (r matches Err(m) && m@ == "Invalid task ID"@)
                } else {
                    let with_sp = Tcb { sp: s.sp, ..old(sched).tcbs@[slot_id as int] };
                    match task_state_of(s.state) {
                        None => (r matches Err(m) && m@ == "Invalid process state for TCB sync"@)
                            && final(sched).tcbs@ == old(sched).tcbs@.update(slot_id as int, with_sp),
                        Some(ts) => r is Ok && final(sched).tcbs@ == old(sched).tcbs@.update(
                            slot_id as int,
                            Tcb { state: ts, ..with_sp },
                        ),
                    }
                }
            }),
    {
        if slot_id >= MAX_PROCESSES {
            proof { reveal_strlit("Invalid slot ID"); }
            return Err("Invalid slot ID");
        }
        let slot = self.slots[slot_id];
        if slot.state == ProcessState::Inactive {
            proof { reveal_strlit("Process slot not active"); }
            return Err("Process slot not active");
        }
        let r1 = sched.set_task_sp(slot_id, slot.sp);
        if r1.is_err() {
            return r1;
        }
        let tcb_state = match slot.state {
            ProcessState::Ready => TaskState::Ready,
            ProcessState::Running => TaskState::Running,
            ProcessState::Yielded => TaskState::Blocked,
            _ => {
                proof { reveal_strlit("Invalid process state for TCB sync"); }
                return Err("Invalid process state for TCB sync");
            },
        };
        sched.set_task_state(slot_id, tcb_state)
    }

    /// The slot of the current process, when there is one and it is active:
    /// what the memory report shows.
    pub fn show_current_process_memory(&self) -> (r: Option<ProcessSlot>)
        requires
            self.wf(),
        ensures
            match self.current {
                Some(c) => if c < MAX_PROCESSES && self.slots@[c as int].state != ProcessState::Inactive {
                    r == Some(self.slots@[c as int])
                } else {
                    r is None
                },
                None => r is None,
            },
    {
        match self.current {
            Some(c) => {
                if c < MAX_PROCESSES && self.slots[c].state != ProcessState::Inactive {
                    Some(self.slots[c])
                } else {
                    None
                }
            },
            None => None,
        }
    }

    /// Where slot `slot_id`'s grant region is and how large it is; none for
    /// an inactive slot.
    pub fn get_process_grant_region(&self, slot_id: usize) -> (r: Option<(u32, u32)>)
        requires
            self.wf(),
        ensures
            slot_id < MAX_PROCESSES && self.slots@[slot_id as int].state != ProcessState::Inactive ==> r == Some(
                (self.slots@[slot_id as int].grant_base, self.slots@[slot_id as int].grant_size),
            ),
            !(slot_id < MAX_PROCESSES && self.slots@[slot_id as int].state != ProcessState::Inactive) ==> r is None,
    {
        if slot_id >= MAX_PROCESSES {
            return None;
        }
        let slot = self.slots[slot_id];
        if slot.state == ProcessState::Inactive {
            return None;
        }
        Some((slot.grant_base, slot.grant_size))
    }

    /// Grant memory for the kernel's use on behalf of a process: the start of
    /// the grant region, when the request fits in it.
    pub fn allocate_grant_memory(&self, slot_id: usize, size: u32) -> (r: Option<u32>)
        requires
            self.wf(),
        ensures
            slot_id < MAX_PROCESSES && self.slots@[slot_id as int].state != ProcessState::Inactive && size
                <= self.slots@[slot_id as int].grant_size ==> r == Some(self.slots@[slot_id as int].grant_base),
            !(slot_id < MAX_PROCESSES && self.slots@[slot_id as int].state != ProcessState::Inactive && size
                <= self.slots@[slot_id as int].grant_size) ==> r is None,
    {
        match self.get_process_grant_region(slot_id) {
            Some((grant_base, grant_size)) => {
                if size <= grant_size {
                    Some(grant_base)
                } else {
                    None
                }
            },
            None => None,
        }
    }

    /// Where `data` goes when the kernel writes it at `offset` into slot
    /// `slot_id`'s grant region; refused when it would not fit.
    pub fn write_to_grant(&self, slot_id: usize, offset: u32, data: &[u8]) -> (r: Result<u32, &'static str>)
        requires
            self.wf(),
            data.len() <= u32::MAX,
            offset + data.len() <= u32::MAX,
            slot_id < MAX_PROCESSES ==> self.slots@[slot_id as int].grant_base + self.slots@[slot_id as int].grant_size
                <= u32::MAX,
        ensures
            grant_access_result(self, slot_id, offset, data.len() as u32, r, "Grant write would exceed region bounds"),
    {
        match self.get_process_grant_region(slot_id) {
            Some((grant_base, grant_size)) => {
                if offset + data.len() as u32 <= grant_size {
                    Ok(grant_base + offset)
                } else {
                    proof { reveal_strlit("Grant write would exceed region bounds"); }
                    Err("Grant write would exceed region bounds")
                }
            },
            None => {
                proof { reveal_strlit("Invalid process slot or grant region"); }
                Err("Invalid process slot or grant region")
            },
        }
    }

    /// Where the kernel reads `buffer_len` bytes at `offset` from slot
    /// `slot_id`'s grant region; refused when they would not fit.
    pub fn read_from_grant(&self, slot_id: usize, offset: u32, buffer_len: usize) -> (r: Result<u32, &'static str>)
        requires
            self.wf(),
            buffer_len <= u32::MAX,
            offset + buffer_len <= u32::MAX,
            slot_id < MAX_PROCESSES ==> self.slots@[slot_id as int].grant_base + self.slots@[slot_id as int].grant_size
                <= u32::MAX,
        ensures
            grant_access_result(self, slot_id, offset, buffer_len as u32, r, "Grant read would exceed region bounds"),
    {
        match self.get_process_grant_region(slot_id) {
            Some((grant_base, grant_size)) => {
                if offset + buffer_len as u32 <= grant_size {
                    Ok(grant_base + offset)
                } else {
                    proof { reveal_strlit("Grant read would exceed region bounds"); }
                    Err("Grant read would exceed region bounds")
                }
            },
            None => {
                proof { reveal_strlit("Invalid process slot or grant region"); }
                Err("Invalid process slot or grant region")
            },
        }
    }
}

impl ProcessTable {
    /// Every active slot sits where its index puts it, with data, stack and
    /// grant following each other to the end of the slot.
    pub open spec fn spec_slot_isolation(&self) -> bool {
        forall|i: int|
            0 <= i < MAX_PROCESSES && (#[trigger] self.slots@[i]).state != ProcessState::Inactive ==> isolation_ok(
                self.slots@[i],
                i,
            )
    }

    /// The isolation check passes exactly when every active slot sits at
    /// the base of its index in process RAM and its parts follow each other
    /// with no gap and no overlap: data ends where the stack begins, the
    /// stack ends where the grant region begins, and the grant region ends
    /// where the slot ends.
    pub proof fn lemma_slot_isolation_meaning(&self)
        ensures
            self.spec_slot_isolation() <==> forall|i: int|
                0 <= i < MAX_PROCESSES && (#[trigger] self.slots@[i]).state != ProcessState::Inactive ==> {
                    let s = self.slots@[i];
                    &&& s.slot_base == PROCESS_RAM_BASE + i * PROCESS_SLOT_SIZE
                    &&& s.data_base + s.data_size == s.stack_base
                    &&& s.stack_base + s.stack_size == s.grant_base
                    &&& s.grant_base + s.grant_size == s.slot_base + s.slot_size
                },
    {
    }

    /// Every active slot's grant region is kernel-only and inside the slot.
    pub open spec fn spec_grant_access(&self) -> bool {
        forall|i: int|
            0 <= i < MAX_PROCESSES && (#[trigger] self.slots@[i]).state != ProcessState::Inactive ==> grant_ok(
                self.slots@[i],
            )
    }

    /// The current process, if any, has its RAM in region 2 and its grant in region 3.
    pub open spec fn spec_mpu_switching(&self) -> bool {
        match self.current {
            None => true,
            Some(c) => c < MAX_PROCESSES && self.slots@[c as int].ram_region.region_num == 2
                && self.slots@[c as int].grant_region.region_num == 3,
        }
    }

    /// Every active slot that has a task agrees with its control block: the
    /// stack pointer inside the slot's stack, the states corresponding.
    pub open spec fn spec_slot_tcb_sync(&self, sched: &Scheduler) -> bool {
        forall|i: int|
            0 <= i < MAX_PROCESSES && (#[trigger] self.slots@[i]).state != ProcessState::Inactive && i < sched.n_tasks
                ==> {
                let s = self.slots@[i];
                &&& s.stack_base <= s.sp <= s.stack_base + s.stack_size
                &&& task_state_of(s.state) == Some(sched.tcbs@[i].state)
            }
    }

    /// Check that the active slots are laid out in isolation.
    pub fn verify_slot_isolation(&self) -> (r: bool)
        requires
            self.wf(),
        ensures
            r == self.spec_slot_isolation(),
    {
        let mut ok = true;
        let mut i: usize = 0;
        while i < MAX_PROCESSES
            invariant
                self.wf(),
                0 <= i <= MAX_PROCESSES,
                ok == forall|j: int|
                    0 <= j < i && (#[trigger] self.slots@[j]).state != ProcessState::Inactive ==> isolation_ok(
                        self.slots@[j],
                        j,
                    ),
            decreases MAX_PROCESSES - i,
        {
            let slot = self.slots[i];
            if slot.state != ProcessState::Inactive {
                assert((i as u64) * 8192 <= 11 * 8192) by (nonlinear_arith)
                    requires
                        i < 12,
                ;
                let expected_base = PROCESS_RAM_BASE as u64 + (i as u64) * (PROCESS_SLOT_SIZE as u64);
                let data_end = slot.data_base as u64 + slot.data_size as u64;
                let stack_end = slot.stack_base as u64 + slot.stack_size as u64;
                let grant_end = slot.grant_base as u64 + slot.grant_size as u64;
                let good = slot.slot_base as u64 == expected_base && data_end == slot.stack_base as u64
                    && stack_end == slot.grant_base as u64 && grant_end == slot.slot_base as u64
                    + slot.slot_size as u64;
                if !good {
                    ok = false;
                }
            }
            i = i + 1;
        }
        ok
    }

    /// Check that every active slot's grant region is kernel-only and inside the slot.
    pub fn verify_grant_access(&self) -> (r: bool)
        requires
            self.wf(),
        ensures
            r == self.spec_grant_access(),
    {
        let mut ok = true;
        let mut i: usize = 0;
        while i < MAX_PROCESSES
            invariant
                self.wf(),
                0 <= i <= MAX_PROCESSES,
                ok == forall|j: int|
                    0 <= j < i && (#[trigger] self.slots@[j]).state != ProcessState::Inactive ==> grant_ok(self.slots@[j]),
            decreases MAX_PROCESSES - i,
        {
            let slot = self.slots[i];
            if slot.state != ProcessState::Inactive {
                if slot.grant_region.access_permission != MPU_AP_PRIV_RW {
                    ok = false;
                }
                if !(slot.grant_base >= slot.slot_base && slot.grant_base as u64 + slot.grant_size as u64
                    <= slot.slot_base as u64 + slot.slot_size as u64) {
                    ok = false;
                }
            }
            i = i + 1;
        }
        ok
    }

    /// Check the MPU region numbers of the current process.
    pub fn verify_mpu_switching(&self) -> (r: bool)
        requires
            self.wf(),
        ensures
            r == self.spec_mpu_switching(),
    {
        match self.current {
            Some(c) => {
                if c < MAX_PROCESSES {
                    let slot = self.slots[c];
                    slot.ram_region.region_num == 2 && slot.grant_region.region_num == 3
                } else {
                    false
                }
            },
            None => true,
        }
    }

    /// Check that the active slots agree with their tasks' control blocks.
    pub fn verify_slot_tcb_sync(&self, sched: &Scheduler) -> (r: bool)
        requires
            self.wf(),
            sched.wf(),
        ensures
            r == self.spec_slot_tcb_sync(sched),
    {
        let mut ok = true;
        let mut i: usize = 0;
        while i < MAX_PROCESSES
            invariant
                self.wf(),
                sched.wf(),
                0 <= i <= MAX_PROCESSES,
                ok == forall|j: int|
                    0 <= j < i && (#[trigger] self.slots@[j]).state != ProcessState::Inactive && j < sched.n_tasks
                        ==> {
                        let s = self.slots@[j];
                        &&& s.stack_base <= s.sp <= s.stack_base + s.stack_size
                        &&& task_state_of(s.state) == Some(sched.tcbs@[j].state)
                    },
            decreases MAX_PROCESSES - i,
        {
            let slot = self.slots[i];
            if slot.state != ProcessState::Inactive {
                if let Ok(_sp) = sched.get_task_sp(i) {
                    if let Ok(tcb_state) = sched.get_task_state(i) {
                        let sp_synced = slot.sp >= slot.stack_base && slot.sp as u64 <= slot.stack_base as u64
                            + slot.stack_size as u64;
                        let state_consistent = match (slot.state, tcb_state) {
                            (ProcessState::Ready, TaskState::Ready) => true,
                            (ProcessState::Running, TaskState::Running) => true,
                            (ProcessState::Yielded, TaskState::Blocked) => true,
                            _ => false,
                        };
                        if !(sp_synced && state_consistent) {
                            ok = false;
                        }
                    }
                }
            }
            i = i + 1;
        }
        ok
    }

    /// Memory boundaries are enforced by the MPU itself; this check always passes.
    pub fn verify_memory_boundaries(&self) -> (r: bool)
        ensures
            r,
    {
        true
    }

    /// Memory use: kernel KiB, process KiB (8 per active slot), active slots.
    pub fn generate_tock_system_report(&self) -> (r: (u32, u32, usize))
        requires
            self.wf(),
        ensures
            r.0 == 32,
            r.2 == active_count(self.slots@, MAX_PROCESSES as int),
            r.1 == 8 * r.2,
    {
        let mut active: usize = 0;
        let mut process_memory: u32 = 0;
        let mut i: usize = 0;
        while i < MAX_PROCESSES
            invariant
                self.wf(),
                0 <= i <= MAX_PROCESSES,
                active == active_count(self.slots@, i as int),
                active <= i,
                process_memory == 8 * active,
            decreases MAX_PROCESSES - i,
        {
            if self.slots[i].state != ProcessState::Inactive {
                process_memory = process_memory + PROCESS_SLOT_SIZE / 1024;
                active = active + 1;
            }
            i = i + 1;
        }
        (crate::KERNEL_RAM_SIZE / 1024, process_memory, active)
    }

    /// Run every isolation check; true when all pass.
    pub fn run_tock_verification(&self, sched: &Scheduler) -> (r: bool)
        requires
            self.wf(),
            sched.wf(),
        ensures
            r == (self.spec_slot_isolation() && self.spec_grant_access() && self.spec_mpu_switching()
                && self.spec_slot_tcb_sync(sched)),
    {
        let slot_isolation_ok = self.verify_slot_isolation();
        let grant_access_ok = self.verify_grant_access();
        let mpu_switching_ok = self.verify_mpu_switching();
        let tcb_sync_ok = self.verify_slot_tcb_sync(sched);
        let memory_boundaries_ok = self.verify_memory_boundaries();
        slot_isolation_ok && grant_access_ok && mpu_switching_ok && tcb_sync_ok && memory_boundaries_ok
    }
}

/// The number of active slots among the first `n`.
pub open spec fn active_count(slots: Seq<ProcessSlot>, n: int) -> nat
    decreases n,
{
    if n <= 0 {
        0
    } else {
        active_count(slots, n - 1) + if slots[n - 1].state != ProcessState::Inactive { 1nat } else { 0nat }
    }
}

/// A slot laid out by `init_process_slot` passes the isolation check, its
/// grant region lies inside it, and it lies inside process RAM.
pub proof fn lemma_standard_layout_isolated(s: ProcessSlot, i: int)
    requires
        0 <= i < MAX_PROCESSES,
        standard_layout(s, i),
    ensures
        isolation_ok(s, i),
        s.grant_base >= s.slot_base,
        s.grant_base + s.grant_size <= s.slot_base + s.slot_size,
        PROCESS_RAM_BASE <= s.slot_base,
        s.slot_base + s.slot_size <= PROCESS_RAM_BASE + PROCESS_RAM_SIZE,
{
}

/// Two different slots laid out by `init_process_slot` do not overlap.
pub proof fn lemma_standard_slots_disjoint(s1: ProcessSlot, i: int, s2: ProcessSlot, j: int)
    requires
        0 <= i < MAX_PROCESSES,
        0 <= j < MAX_PROCESSES,
        i != j,
        standard_layout(s1, i),
        standard_layout(s2, j),
    ensures
        s1.slot_base + s1.slot_size <= s2.slot_base || s2.slot_base + s2.slot_size <= s1.slot_base,
{
    if i < j {
        assert(slot_base_of(i) + PROCESS_SLOT_SIZE <= slot_base_of(j)) by (nonlinear_arith)
            requires
                i < j,
        ;
    } else {
        assert(slot_base_of(j) + PROCESS_SLOT_SIZE <= slot_base_of(i)) by (nonlinear_arith)
            requires
                j < i,
        ;
    }
}

/// `n` describes MPU region `num` at `base`, sized for `size` bytes, with
/// permission `ap`, execute-never, enabled.
pub open spec fn region_describes(n: MpuRegion, num: u8, base: u32, size: nat, ap: u32) -> bool {
    &&& n.region_num == num
    &&& n.base_addr == base
    &&& is_size_encoding_for(size, n.size_encoding as nat)
    &&& n.access_permission == ap
    &&& n.execute_never
    &&& n.enabled
}

/// The MPU went from `old` to `new`, with result `r`, by programming an
/// active slot: region 2 over data and stack, then region 3 over the grant region.
pub open spec fn process_mpu_programmed(s: ProcessSlot, old: MpuRegisters, new: MpuRegisters, r: Result<(), &'static str>) -> bool {
    let ram = s.data_size + s.stack_size;
    let mid = old.regions@.update(
        2,
        RegionRegisters {
            rbar: s.data_base,
            rasr: rasr_word(encoding_search(ram as nat, 4) as u32, MPU_AP_PRIV_RW_USER_RW, true),
        },
    );
    if ram < 32 {
        new == old && (r matches Err(m) && m@ == "Region too small (minimum 32 bytes)"@)
    } else if s.grant_size < 32 {
        new.ctrl == old.ctrl && new.regions@ == mid && (r matches Err(m) && m@ == "Region too small (minimum 32 bytes)"@)
    } else {
        &&& r is Ok
        &&& new.ctrl == old.ctrl
        &&& new.regions@ == mid.update(
            3,
            RegionRegisters {
                rbar: s.grant_base,
                rasr: rasr_word(encoding_search(s.grant_size as nat, 4) as u32, MPU_AP_PRIV_RW, true),
            },
        )
    }
}

/// The result of locating `len` bytes at `offset` in slot `slot_id`'s grant
/// region: the address where they start, when the slot is active and they fit.
pub open spec fn grant_access_result(
    t: &ProcessTable,
    slot_id: usize,
    offset: u32,
    len: u32,
    r: Result<u32, &'static str>,
    too_large: &'static str,
) -> bool {
    if slot_id < MAX_PROCESSES && t.slots@[slot_id as int].state != ProcessState::Inactive {
        let s = t.slots@[slot_id as int];
        if offset + len <= s.grant_size {
            r == Ok::<u32, &'static str>((s.grant_base + offset) as u32)
        } else {
            r matches Err(m) && m@ == too_large@
        }
    } else {
        r matches Err(m) && m@ == "Invalid process slot or grant region"@
    }
}

/// A write and a read of the same span of a slot's grant region are both
/// placed or both refused; when placed they address the same memory, which
/// lies inside the grant region.
pub proof fn lemma_grant_write_read_agree(
    t: ProcessTable,
    slot_id: usize,
    offset: u32,
    len: u32,
    written: Result<u32, &'static str>,
    read: Result<u32, &'static str>,
)
    requires
        t.wf(),
        slot_id < MAX_PROCESSES ==> t.slots@[slot_id as int].grant_base + t.slots@[slot_id as int].grant_size
            <= u32::MAX,
        grant_access_result(&t, slot_id, offset, len, written, "Grant write would exceed region bounds"),
        grant_access_result(&t, slot_id, offset, len, read, "Grant read would exceed region bounds"),
    ensures
        written is Ok <==> read is Ok,
        written is Ok ==> written == read && {
            let s = t.slots@[slot_id as int];
            &&& s.grant_base <= written->Ok_0
            &&& written->Ok_0 + len <= s.grant_base + s.grant_size
        },
{
}

/// A region of encoding `e` (in range) holds `size` bytes.
proof fn lemma_encoding_covers(size: nat)
    requires
        32 <= size <= u32::MAX,
    ensures
        two_pow(encoding_search(size, 4) + 1) >= size,
        encoding_search(size, 4) < 32,
{
    lemma_two_pow_values();
    lemma_encoding_search(size, 4);
}

/// Once the MPU is programmed for a process, region 2 covers its data and
/// stack, readable and writable by the process but never executable, and
/// region 3 covers its grant region for privileged code only.
pub proof fn lemma_programmed_process_regions(s: ProcessSlot, old: MpuRegisters, new: MpuRegisters)
    requires
        process_mpu_programmed(s, old, new, Ok(())),
        s.data_size + s.stack_size <= u32::MAX,
    ensures
        new.regions@[2].rbar == s.data_base,
        rasr_enabled(new.regions@[2].rasr),
        rasr_ap_field(new.regions@[2].rasr) == MPU_AP_PRIV_RW_USER_RW,
        rasr_xn_flag(new.regions@[2].rasr),
        two_pow(rasr_size_field(new.regions@[2].rasr) as nat + 1) >= s.data_size + s.stack_size,
        new.regions@[3].rbar == s.grant_base,
        rasr_enabled(new.regions@[3].rasr),
        rasr_ap_field(new.regions@[3].rasr) == MPU_AP_PRIV_RW,
        rasr_xn_flag(new.regions@[3].rasr),
        two_pow(rasr_size_field(new.regions@[3].rasr) as nat + 1) >= s.grant_size,
{
    let ram = (s.data_size + s.stack_size) as nat;
    lemma_encoding_covers(ram);
    lemma_encoding_covers(s.grant_size as nat);
    let e2 = encoding_search(ram, 4) as u32;
    let e3 = encoding_search(s.grant_size as nat, 4) as u32;
    lemma_rasr_fields(e2, MPU_AP_PRIV_RW_USER_RW, true);
    lemma_rasr_fields(e3, MPU_AP_PRIV_RW, true);
}

/// Switch off every process region (2 to 7); the kernel's regions 0 and 1 stay.
pub fn disable_process_mpu(mpu: &mut MpuRegisters) -> (r: Result<(), &'static str>)
    ensures
        r is Ok,
        final(mpu).ctrl == old(mpu).ctrl,
        process_regions_disabled(old(mpu).regions@, final(mpu).regions@),
{
    let mut region: u8 = 2;
    while region < 8
        invariant
            2 <= region <= 8,
            mpu.ctrl == old(mpu).ctrl,
            mpu.regions@.len() == 8,
            forall|i: int| 0 <= i < 2 || region <= i < 8 ==> mpu.regions@[i] == old(mpu).regions@[i],
            forall|i: int| 2 <= i < region ==> mpu.regions@[i] == (RegionRegisters { rbar: old(mpu).regions@[i].rbar, rasr: 0 }),
        decreases 8 - region,
    {
        let _ = disable_region(mpu, region);
        region = region + 1;
    }
    Ok(())
}

/// Regions 0 and 1 are unchanged; regions 2 to 7 keep their base and are off.
pub open spec fn process_regions_disabled(before: Seq<RegionRegisters>, after: Seq<RegionRegisters>) -> bool {
    &&& after.len() == 8
    &&& after[0] == before[0]
    &&& after[1] == before[1]
    &&& forall|i: int| 2 <= i < 8 ==> after[i] == (RegionRegisters { rbar: before[i].rbar, rasr: 0 })
}

/// Context switch of the MPU: switch off the process regions, then program
/// those of the process that runs next.
pub fn switch_process_mpu(
    table: &ProcessTable,
    mpu: &mut MpuRegisters,
    from_slot: Option<usize>,
    to_slot: usize,
) -> (r: Result<(), &'static str>)
    requires
        table.wf(),
        to_slot < MAX_PROCESSES ==> table.slots@[to_slot as int].data_size + table.slots@[to_slot as int].stack_size
            <= u32::MAX,
    ensures
        exists|mid: MpuRegisters|
            #![trigger process_regions_disabled(old(mpu).regions@, mid.regions@)]
            {
            &&& mid.ctrl == old(mpu).ctrl
            &&& process_regions_disabled(old(mpu).regions@, mid.regions@)
            &&& if to_slot >= MAX_PROCESSES {
                *final(mpu) == mid && (r matches Err(m) && m@ == "Invalid slot ID"@)
            } else if table.slots@[to_slot as int].state == ProcessState::Inactive {
                *final(mpu) == mid && (r matches Err(m) && m@ == "Process slot not active"@)
            } else {
                process_mpu_programmed(table.slots@[to_slot as int], mid, *final(mpu), r)
            }
        },
{
    let _ = disable_process_mpu(mpu);
    let ghost mid = *mpu;
    let r = table.configure_process_mpu(mpu, to_slot);
    assert(mid.ctrl == old(mpu).ctrl);
    assert(process_regions_disabled(old(mpu).regions@, mid.regions@));
    r
}

} // verus!
