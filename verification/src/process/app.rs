//! A loaded process: where its memory and flash lie, how its memory is
//! split between application and kernel, its queue of pending work, and the
//! stack frames the kernel writes and reads when it switches to it.
//!
//! The process memory is held as bytes together with the address it starts
//! at. Words in it are 32 bits wide and little-endian, as on the cores the
//! kernel runs on; a value is stored as its low 32 bits.

use vstd::prelude::*;
use crate::callback::AppId;
use crate::common::ring_buffer::RingBuffer;
use crate::common::math::{is_power_of_two, power_of_two};
use crate::process::{Error, FaultResponse, FunctionCall, IPCType, State, TbfHeader};
use crate::process::tbf_parse::le32;
use crate::returncode::{ReturnCode, rc_value};
use crate::syscall::{Syscall, syscall_of};

verus! {

/// Bytes in a word of process memory.
pub const WORD_SIZE: usize = 4;

/// Bytes in the stack frame the core pushes on entry to the kernel: the
/// words r0-r3, r12, lr, pc and xPSR.
pub const FRAME_SIZE: usize = 32;

/// Slots in the ring of pending tasks of each process.
pub const CALLBACK_LEN: usize = 10;

/// Slots in the table of memory regions a process shares with others.
pub const MPU_REGION_SLOTS: usize = 5;

/// Work waiting for a process: a callback, or a notification from another
/// process.
#[derive(Copy, Clone, Debug)]
pub enum Task {
    FunctionCall(FunctionCall),
    IPC((AppId, IPCType)),
}

/// Registers r4-r11, which the context switch saves for the process.
#[derive(Copy, Clone, Debug)]
pub struct StoredRegs {
    pub r4: usize,
    pub r5: usize,
    pub r6: usize,
    pub r7: usize,
    pub r8: usize,
    pub r9: usize,
    pub r10: usize,
    pub r11: usize,
}

/// What the kernel records about a process to report on it.
#[derive(Clone, Debug)]
pub struct ProcessDebug {
    pub app_heap_start_pointer: Option<usize>,
    pub app_stack_start_pointer: Option<usize>,
    pub min_stack_pointer: usize,
    pub syscall_count: usize,
    pub last_syscall: Option<Syscall>,
}

/// The number of tasks queued for all processes plus the number of
/// processes that are running: zero when every process is blocked.
#[derive(Copy, Clone, Debug)]
pub struct WorkCount {
    pub count: usize,
}

impl WorkCount {
    /// No work.
    pub fn new() -> (r: WorkCount)
        ensures
            r.count == 0,
    {
        WorkCount { count: 0 }
    }
}

/// Whether no process has work: no task queued and none running.
pub fn processes_blocked(work: &WorkCount) -> (r: bool)
    ensures
        r == (work.count == 0),
{
    work.count == 0
}

/// The bytes `s` with the little-endian word `v` written at `off`.
pub open spec fn put_word(s: Seq<u8>, off: int, v: u32) -> Seq<u8> {
    s.update(off, (v % 256) as u8).update(off + 1, ((v / 256) % 256) as u8).update(
        off + 2,
        ((v / 65536) % 256) as u8,
    ).update(off + 3, (v / 16777216) as u8)
}

/// Writing a word stores it where it is written and leaves the other
/// bytes alone.
pub proof fn lemma_put_word(s: Seq<u8>, off: int, v: u32)
    requires
        0 <= off,
        off + 4 <= s.len(),
    ensures
        put_word(s, off, v).len() == s.len(),
        le32(put_word(s, off, v), off) == v,
        forall|i: int|
            0 <= i < s.len() && !(off <= i < off + 4) ==> #[trigger] put_word(s, off, v)[i] == s[i],
{
    let t = put_word(s, off, v);
    assert(t[off] == v % 256);
    assert(t[off + 1] == (v / 256) % 256);
    assert(t[off + 2] == (v / 65536) % 256);
    assert(t[off + 3] == v / 16777216);
    assert(v % 256 + 256 * ((v / 256) % 256) + 65536 * ((v / 65536) % 256) + 16777216 * (v
        / 16777216) == v) by (nonlinear_arith);
}

/// A word that lies apart from the one written is read as before.
pub proof fn lemma_put_word_other(s: Seq<u8>, off: int, v: u32, other: int)
    requires
        0 <= off,
        off + 4 <= s.len(),
        0 <= other,
        other + 4 <= s.len(),
        other + 4 <= off || off + 4 <= other,
    ensures
        le32(put_word(s, off, v), other) == le32(s, other),
{
    lemma_put_word(s, off, v);
    let t = put_word(s, off, v);
    assert(t[other] == s[other]);
    assert(t[other + 1] == s[other + 1]);
    assert(t[other + 2] == s[other + 2]);
    assert(t[other + 3] == s[other + 3]);
}

/// The little-endian word at `off` in `mem`.
pub(crate) fn read_word(mem: &Vec<u8>, off: usize) -> (r: u32)
    requires
        off + 4 <= mem.len(),
    ensures
        r == le32(mem@, off as int),
{
    let b0 = mem[off] as u32;
    let b1 = mem[off + 1] as u32;
    let b2 = mem[off + 2] as u32;
    let b3 = mem[off + 3] as u32;
    b0 + b1 * 256 + b2 * 65536 + b3 * 16777216
}

/// Writes the little-endian word `v` at `off` in `mem`.
pub(crate) fn write_word(mem: &mut Vec<u8>, off: usize, v: u32)
    requires
        off + 4 <= old(mem)@.len(),
    ensures
        final(mem)@ == put_word(old(mem)@, off as int, v),
{
    let len = mem.len();
    mem.set(off, (v % 256) as u8);
    mem.set(off + 1, ((v / 256) % 256) as u8);
    mem.set(off + 2, ((v / 65536) % 256) as u8);
    mem.set(off + 3, (v / 16777216) as u8);
}

/// The size of the protected part of an application's flash.
pub open spec fn protected_size(h: TbfHeader) -> u32 {
    match h {
        TbfHeader::TbfHeaderV1(_) => crate::process::TBF_HEADER_V1_SIZE,
        TbfHeader::TbfHeaderV2(hd) => hd.main.protected_size,
        TbfHeader::Padding(_) => 0,
    }
}

/// What `brk` to `new_break` does to `p`, giving `r`, and leaving `q`.
pub open spec fn brk_outcome(p: Process, q: Process, new_break: usize, r: Result<usize, Error>) -> bool {
    if new_break < p.memory_start || new_break >= p.mem_end_addr() {
        r == Err::<usize, Error>(Error::AddressOutOfBounds) && q == p
    } else if new_break > p.kernel_memory_break {
        r == Err::<usize, Error>(Error::OutOfMemory) && q == p
    } else {
        r == Ok::<usize, Error>(p.app_break) && q == (Process { app_break: new_break, ..p })
    }
}

/// What allocating `size` bytes for the kernel in `p` does, giving `r`, and
/// leaving `q`: the kernel's break moves down over them when that keeps it
/// at or above the application's break, and their address is returned;
/// otherwise nothing changes.
pub open spec fn alloc_outcome(p: Process, q: Process, size: usize, r: Option<usize>) -> bool {
    if p.kernel_memory_break - size < p.app_break {
        r is None && q == p
    } else {
        r == Some((p.kernel_memory_break - size) as usize) && q == (Process {
            kernel_memory_break: (p.kernel_memory_break - size) as usize,
            ..p
        })
    }
}

/// Kernel allocations never overlap: one made later lies wholly below one
/// made earlier, and both lie above the application's break and inside the
/// process memory.
pub proof fn lemma_allocations_disjoint(
    p0: Process,
    p1: Process,
    p2: Process,
    size1: usize,
    size2: usize,
    a1: usize,
    a2: usize,
)
    requires
        p0.wf(),
        alloc_outcome(p0, p1, size1, Some(a1)),
        alloc_outcome(p1, p2, size2, Some(a2)),
    ensures
        a2 + size2 <= a1,
        p0.app_break <= a2,
        a1 + size1 <= p0.mem_end_addr(),
{
}

/// The first slot of `regions` from `i` on that is empty or holds `base`;
/// the number of slots if there is none.
pub open spec fn region_slot(regions: Seq<(usize, u32)>, base: usize, i: int) -> int
    decreases regions.len() - i,
{
    if i < 0 || i >= regions.len() {
        regions.len() as int
    } else if regions[i].0 == 0 || regions[i].0 == base {
        i
    } else {
        region_slot(regions, base, i + 1)
    }
}

/// The bytes `mem` with a stack frame written at `off`: r0-r3 in the first
/// four words, lr, pc and xPSR in the last three, r12 left as it was.
pub open spec fn put_frame(
    mem: Seq<u8>,
    off: int,
    psr: u32,
    pc: u32,
    lr: u32,
    r0: u32,
    r1: u32,
    r2: u32,
    r3: u32,
) -> Seq<u8> {
    put_word(
        put_word(
            put_word(
                put_word(put_word(put_word(put_word(mem, off + 28, psr), off + 24, pc), off + 20, lr), off, r0),
                off + 4,
                r1,
            ),
            off + 8,
            r2,
        ),
        off + 12,
        r3,
    )
}

/// Reading back a written frame gives its words; the word of r12 and the
/// bytes outside the frame are as before.
pub proof fn lemma_put_frame(
    mem: Seq<u8>,
    off: int,
    psr: u32,
    pc: u32,
    lr: u32,
    r0: u32,
    r1: u32,
    r2: u32,
    r3: u32,
)
    requires
        0 <= off,
        off + 32 <= mem.len(),
    ensures
        ({
            let t = put_frame(mem, off, psr, pc, lr, r0, r1, r2, r3);
            &&& t.len() == mem.len()
            &&& le32(t, off) == r0
            &&& le32(t, off + 4) == r1
            &&& le32(t, off + 8) == r2
            &&& le32(t, off + 12) == r3
            &&& le32(t, off + 16) == le32(mem, off + 16)
            &&& le32(t, off + 20) == lr
            &&& le32(t, off + 24) == pc
            &&& le32(t, off + 28) == psr
            &&& forall|i: int| 0 <= i < mem.len() && !(off <= i < off + 32) ==> #[trigger] t[i] == mem[i]
        }),
{
    let m1 = put_word(mem, off + 28, psr);
    let m2 = put_word(m1, off + 24, pc);
    let m3 = put_word(m2, off + 20, lr);
    let m4 = put_word(m3, off, r0);
    let m5 = put_word(m4, off + 4, r1);
    let m6 = put_word(m5, off + 8, r2);
    let m7 = put_word(m6, off + 12, r3);
    lemma_put_word(mem, off + 28, psr);
    lemma_put_word(m1, off + 24, pc);
    lemma_put_word(m2, off + 20, lr);
    lemma_put_word(m3, off, r0);
    lemma_put_word(m4, off + 4, r1);
    lemma_put_word(m5, off + 8, r2);
    lemma_put_word(m6, off + 12, r3);
    lemma_put_word_other(m1, off + 24, pc, off + 28);
    lemma_put_word_other(m2, off + 20, lr, off + 28);
    lemma_put_word_other(m2, off + 20, lr, off + 24);
    lemma_put_word_other(m3, off, r0, off + 28);
    lemma_put_word_other(m3, off, r0, off + 24);
    lemma_put_word_other(m3, off, r0, off + 20);
    lemma_put_word_other(m4, off + 4, r1, off + 28);
    lemma_put_word_other(m4, off + 4, r1, off + 24);
    lemma_put_word_other(m4, off + 4, r1, off + 20);
    lemma_put_word_other(m4, off + 4, r1, off);
    lemma_put_word_other(m5, off + 8, r2, off + 28);
    lemma_put_word_other(m5, off + 8, r2, off + 24);
    lemma_put_word_other(m5, off + 8, r2, off + 20);
    lemma_put_word_other(m5, off + 8, r2, off);
    lemma_put_word_other(m5, off + 8, r2, off + 4);
    lemma_put_word_other(m6, off + 12, r3, off + 28);
    lemma_put_word_other(m6, off + 12, r3, off + 24);
    lemma_put_word_other(m6, off + 12, r3, off + 20);
    lemma_put_word_other(m6, off + 12, r3, off);
    lemma_put_word_other(m6, off + 12, r3, off + 4);
    lemma_put_word_other(m6, off + 12, r3, off + 8);
    lemma_put_word_other(mem, off + 28, psr, off + 16);
    lemma_put_word_other(m1, off + 24, pc, off + 16);
    lemma_put_word_other(m2, off + 20, lr, off + 16);
    lemma_put_word_other(m3, off, r0, off + 16);
    lemma_put_word_other(m4, off + 4, r1, off + 16);
    lemma_put_word_other(m5, off + 8, r2, off + 16);
    lemma_put_word_other(m6, off + 12, r3, off + 16);
}

/// What pushing a frame for `callback` onto `p` leaves: the process
/// running, its stack pointer one frame lower, and the frame written there
/// with the callback's arguments, its entry point and, as return address,
/// the point the process yielded at (both with the Thumb bit set).
pub open spec fn pushed(p: Process, q: Process, callback: FunctionCall) -> bool {
    let sp = (p.current_stack_pointer - FRAME_SIZE) as usize;
    &&& q == (Process {
        state: State::Running,
        current_stack_pointer: sp,
        memory: q.memory,
        debug: ProcessDebug {
            min_stack_pointer: if sp < p.debug.min_stack_pointer {
                sp
            } else {
                p.debug.min_stack_pointer
            },
            ..p.debug
        },
        ..p
    })
    &&& q.memory@ == put_frame(
        p.memory@,
        sp - p.memory_start,
        p.psr as u32,
        (callback.pc as u32) | 1u32,
        (p.yield_pc as u32) | 1u32,
        callback.r0 as u32,
        callback.r1 as u32,
        callback.r2 as u32,
        callback.r3 as u32,
    )
}

/// What popping the frame at the stack pointer of `p` leaves: the process
/// resumes at the frame's pc with its xPSR, and the stack pointer is one
/// frame higher.
pub open spec fn popped(p: Process, q: Process) -> bool {
    let sp = (p.current_stack_pointer + FRAME_SIZE) as usize;
    q == (Process {
        yield_pc: p.frame_word(6) as usize,
        psr: p.frame_word(7) as usize,
        current_stack_pointer: sp,
        debug: ProcessDebug {
            min_stack_pointer: if sp < p.debug.min_stack_pointer {
                sp
            } else {
                p.debug.min_stack_pointer
            },
            ..p.debug
        },
        ..p
    })
}

/// The system call of the `svc` instruction just before the pc in the
/// frame of `p`: its number is the low byte of the instruction, which is
/// the first of its two bytes. None when the instruction is not in the
/// application's flash.
pub open spec fn svc_at(p: Process) -> Option<Syscall> {
    let pc = p.frame_word(6) as int;
    if p.text_start + 2 <= pc <= p.text_start + p.text@.len() {
        syscall_of(p.text@[pc - 2 - p.text_start])
    } else {
        None
    }
}

/// An application loaded into flash and memory.
pub struct Process {
    /// The address of the first byte of the process memory.
    pub memory_start: usize,
    /// The process memory.
    pub memory: Vec<u8>,
    /// The header of the application in flash.
    pub header: TbfHeader,
    /// The lowest address of the memory the kernel keeps for the process,
    /// which grows down from the end of the memory.
    pub kernel_memory_break: usize,
    /// The end of the memory the application may use, which grows up.
    pub app_break: usize,
    pub current_stack_pointer: usize,
    /// The address of the application's flash.
    pub text_start: usize,
    /// The application's flash.
    pub text: Vec<u8>,
    pub stored_regs: StoredRegs,
    /// Where the process resumes when it next runs.
    pub yield_pc: usize,
    pub psr: usize,
    pub state: State,
    pub fault_response: FaultResponse,
    /// Regions shared with other processes: base address (zero for an empty
    /// slot) and size.
    pub mpu_regions: Vec<(usize, u32)>,
    pub tasks: RingBuffer<Task>,
    pub package_name: Vec<u8>,
    pub debug: ProcessDebug,
}

impl Process {
    /// The address just past the process memory.
    pub open spec fn mem_end_addr(&self) -> int {
        self.memory_start + self.memory@.len()
    }

    /// The memory and flash lie in the 32-bit address space, the
    /// application's break lies at or above the start of the memory, the
    /// kernel's break inside it, and the task queue and region table have
    /// their sizes.
    pub open spec fn wf(&self) -> bool {
        &&& self.mem_end_addr() <= u32::MAX
        &&& self.memory_start <= self.app_break <= u32::MAX
        &&& self.memory_start <= self.kernel_memory_break <= self.mem_end_addr()
        &&& self.text_start + self.text@.len() <= u32::MAX
        &&& self.tasks.wf()
        &&& self.tasks.capacity() == CALLBACK_LEN - 1
        &&& self.mpu_regions@.len() == MPU_REGION_SLOTS
    }

    /// Tasks queued plus one if the process is running.
    pub open spec fn work_units(&self) -> int {
        self.tasks@.len() + if self.state == State::Running {
            1int
        } else {
            0int
        }
    }

    /// The stack frame at the stack pointer lies in the process memory.
    pub open spec fn frame_in_memory(&self) -> bool {
        &&& self.memory_start <= self.current_stack_pointer
        &&& self.current_stack_pointer + FRAME_SIZE <= self.mem_end_addr()
    }

    /// Word `k` of the stack frame at the stack pointer.
    pub open spec fn frame_word(&self, k: int) -> u32 {
        le32(self.memory@, self.current_stack_pointer - self.memory_start + WORD_SIZE * k)
    }

    /// The address of the process memory.
    pub fn mem_start(&self) -> (r: usize)
        ensures
            r == self.memory_start,
    {
        self.memory_start
    }

    /// The address just past the process memory.
    pub fn mem_end(&self) -> (r: usize)
        requires
            self.wf(),
        ensures
            r == self.mem_end_addr(),
    {
        self.memory_start + self.memory.len()
    }

    /// The address of the application's flash.
    pub fn flash_start(&self) -> (r: usize)
        ensures
            r == self.text_start,
    {
        self.text_start
    }

    /// The address of the first byte of flash the application may write:
    /// past the protected part at its start.
    pub fn flash_non_protected_start(&self) -> (r: usize)
        requires
            self.text_start + protected_size(self.header) <= usize::MAX,
        ensures
            r == self.text_start + protected_size(self.header),
    {
        self.text_start + self.header.get_protected_size() as usize
    }

    /// The address just past the application's flash.
    pub fn flash_end(&self) -> (r: usize)
        requires
            self.wf(),
        ensures
            r == self.text_start + self.text@.len(),
    {
        self.text_start + self.text.len()
    }

    /// The lowest address of the memory the kernel keeps for the process.
    pub fn kernel_memory_break(&self) -> (r: usize)
        ensures
            r == self.kernel_memory_break,
    {
        self.kernel_memory_break
    }

    /// The number of writeable flash regions the header declares.
    pub fn number_writeable_flash_regions(&self) -> (r: usize)
        ensures
            r == match self.header {
                TbfHeader::TbfHeaderV2(hd) => match hd.writeable_regions {
                    Some(wr) => wr@.len(),
                    None => 0,
                },
                _ => 0,
            },
    {
        self.header.number_writeable_flash_regions()
    }

    /// The offset and size of writeable flash region `region_index`, or
    /// `(0, 0)` when there is no such region.
    pub fn get_writeable_flash_region(&self, region_index: usize) -> (r: (u32, u32))
        ensures
            r == match self.header {
                TbfHeader::TbfHeaderV2(hd) => match hd.writeable_regions {
                    Some(wr) => if region_index < wr@.len() {
                        (
                            wr@[region_index as int].writeable_flash_region_offset,
                            wr@[region_index as int].writeable_flash_region_size,
                        )
                    } else {
                        (0u32, 0u32)
                    },
                    None => (0u32, 0u32),
                },
                _ => (0u32, 0u32),
            },
    {
        self.header.get_writeable_flash_region(region_index)
    }

    /// Records where the application's stack starts, if that lies in the
    /// process memory, and restarts the record of the lowest stack pointer
    /// there.
    pub fn update_stack_start_pointer(&mut self, stack_pointer: usize)
        requires
            old(self).wf(),
        ensures
            final(self).wf(),
            if old(self).memory_start <= stack_pointer < old(self).mem_end_addr() {
                *final(self) == (Process {
                    debug: ProcessDebug {
                        app_stack_start_pointer: Some(stack_pointer),
                        min_stack_pointer: stack_pointer,
                        ..old(self).debug
                    },
                    ..*old(self)
                })
            } else {
                *final(self) == *old(self)
            },
    {
        if stack_pointer >= self.mem_start() && stack_pointer < self.mem_end() {
            self.debug.app_stack_start_pointer = Some(stack_pointer);
            self.debug.min_stack_pointer = stack_pointer;
        }
    }

    /// Records where the application's heap starts, if that lies in the
    /// process memory.
    pub fn update_heap_start_pointer(&mut self, heap_pointer: usize)
        requires
            old(self).wf(),
        ensures
            final(self).wf(),
            if old(self).memory_start <= heap_pointer < old(self).mem_end_addr() {
                *final(self) == (Process {
                    debug: ProcessDebug { app_heap_start_pointer: Some(heap_pointer), ..old(self).debug },
                    ..*old(self)
                })
            } else {
                *final(self) == *old(self)
            },
    {
        if heap_pointer >= self.mem_start() && heap_pointer < self.mem_end() {
            self.debug.app_heap_start_pointer = Some(heap_pointer);
        }
    }

    /// Moves the application's break by `increment` bytes; see `brk`.
    pub fn sbrk(&mut self, increment: isize) -> (r: Result<usize, Error>)
        requires
            old(self).wf(),
            0 <= old(self).app_break + increment <= usize::MAX,
        ensures
            final(self).wf(),
            brk_outcome(*old(self), *final(self), (old(self).app_break + increment) as usize, r),
    {
        let new_break = if increment >= 0 {
            self.app_break + (increment as usize)
        } else {
            self.app_break - ((0 - (increment as i128)) as usize)
        };
        self.brk(new_break)
    }

    /// Sets the end of the memory the application may use. An address
    /// outside the process memory, or at its end, is refused as out of
    /// bounds; one above the kernel's break as out of memory. Otherwise the
    /// break moves there and the old break is returned.
    pub fn brk(&mut self, new_break: usize) -> (r: Result<usize, Error>)
        requires
            old(self).wf(),
        ensures
            final(self).wf(),
            brk_outcome(*old(self), *final(self), new_break, r),
    {
        if new_break < self.mem_start() || new_break >= self.mem_end() {
            Err(Error::AddressOutOfBounds)
        } else if new_break > self.kernel_memory_break {
            Err(Error::OutOfMemory)
        } else {
            let old_break = self.app_break;
            self.app_break = new_break;
            Ok(old_break)
        }
    }

    /// Whether the `size` bytes from `buf_start_addr` lie in the process
    /// memory.
    pub fn in_exposed_bounds(&self, buf_start_addr: usize, size: usize) -> (r: bool)
        requires
            self.wf(),
            buf_start_addr + size <= usize::MAX,
        ensures
            r == (self.memory_start <= buf_start_addr && buf_start_addr + size
                <= self.mem_end_addr()),
    {
        let buf_end_addr = buf_start_addr + size;
        buf_start_addr >= self.mem_start() && buf_end_addr <= self.mem_end()
    }

    /// Takes `size` bytes for the kernel from the free memory between the
    /// two breaks, moving the kernel's break down over them, and returns
    /// their address; none when the free memory is too small.
    pub fn allocate(&mut self, size: usize) -> (r: Option<usize>)
        requires
            old(self).wf(),
            size <= old(self).kernel_memory_break,
        ensures
            final(self).wf(),
            alloc_outcome(*old(self), *final(self), size, r),
    {
        let new_break = self.kernel_memory_break - size;
        if new_break < self.app_break {
            None
        } else {
            self.kernel_memory_break = new_break;
            Some(new_break)
        }
    }

    /// The offset in the process memory of the pointer of container
    /// `container_num`: the pointers sit in words at the end of the memory,
    /// the first last.
    pub open spec fn container_offset(&self, container_num: usize) -> int {
        self.memory@.len() - WORD_SIZE * (container_num + 1)
    }

    fn container_ptr(&self, container_num: usize) -> (r: usize)
        requires
            WORD_SIZE * (container_num + 1) <= self.memory@.len(),
        ensures
            r == self.container_offset(container_num),
    {
        self.memory.len() - WORD_SIZE * (container_num + 1)
    }

    /// The address of the memory of container `container_num`, zero if it
    /// has none yet.
    pub fn container_for(&self, container_num: usize) -> (r: usize)
        requires
            WORD_SIZE * (container_num + 1) <= self.memory@.len(),
        ensures
            r == le32(self.memory@, self.container_offset(container_num)) as usize,
    {
        let off = self.container_ptr(container_num);
        read_word(&self.memory, off) as usize
    }

    /// The address of the memory of container `container_num`; when it has
    /// none yet, allocates `size` bytes for it and records their address.
    /// None when the allocation fails.
    pub fn container_for_or_alloc(&mut self, container_num: usize, size: usize) -> (r: Option<
        usize,
    >)
        requires
            old(self).wf(),
            WORD_SIZE * (container_num + 1) <= old(self).memory@.len(),
            size <= old(self).kernel_memory_break,
        ensures
            final(self).wf(),
            ({
                let off = old(self).container_offset(container_num);
                let ptr = le32(old(self).memory@, off);
                let new_break = old(self).kernel_memory_break - size;
                if ptr != 0 {
                    r == Some(ptr as usize) && *final(self) == *old(self)
                } else if new_break < old(self).app_break {
                    r is None && *final(self) == *old(self)
                } else {
                    &&& r == Some(new_break as usize)
                    &&& *final(self) == (Process {
                        kernel_memory_break: new_break as usize,
                        memory: final(self).memory,
                        ..*old(self)
                    })
                    &&& final(self).memory@ == put_word(old(self).memory@, off, new_break as u32)
                }
            }),
    {
        let off = self.container_ptr(container_num);
        let ptr = read_word(&self.memory, off);
        if ptr == 0 {
            match self.allocate(size) {
                Some(root_ptr) => {
                    write_word(&mut self.memory, off, root_ptr as u32);
                    proof {
                        lemma_put_word(old(self).memory@, off as int, root_ptr as u32);
                    }
                    Some(root_ptr)
                },
                None => None,
            }
        } else {
            Some(ptr as usize)
        }
    }

    /// Shares the `size` bytes from `base` with the process. The size must
    /// be a power of two of at least 16 bytes, and the base (taken as a
    /// 32-bit address) aligned to it. The region goes into the first slot
    /// that is empty or already holds `base`; there it only grows. False,
    /// and nothing changed, when the region is refused or no slot is left.
    pub fn add_mpu_region(&mut self, base: usize, size: u32) -> (r: bool)
        requires
            old(self).wf(),
        ensures
            final(self).wf(),
            ({
                let regions = old(self).mpu_regions@;
                let slot = region_slot(regions, base, 0);
                let fits = size >= 16 && is_power_of_two(size) && (base as u32) % size == 0 && slot
                    < regions.len();
                &&& r == fits
                &&& !fits ==> *final(self) == *old(self)
                &&& fits ==> *final(self) == (Process { mpu_regions: final(self).mpu_regions, ..*old(self) })
                &&& fits ==> final(self).mpu_regions@ == if regions[slot].0 == 0 || regions[slot].1 < size {
                    regions.update(slot, (base, size))
                } else {
                    regions
                }
            }),
    {
        if size >= 16 && power_of_two(size) && (base as u32) % size == 0 {
            let mpu_size = size;
            let ghost regions = self.mpu_regions@;
            let mut i: usize = 0;
            while i < self.mpu_regions.len()
                invariant
                    i <= self.mpu_regions@.len(),
                    old(self).wf(),
                    size >= 16 && is_power_of_two(size) && (base as u32) % size == 0,
                    mpu_size == size,
                    *self == *old(self),
                    regions == self.mpu_regions@,
                    region_slot(regions, base, 0) == region_slot(regions, base, i as int),
                decreases self.mpu_regions@.len() - i,
            {
                let region = self.mpu_regions[i];
                if region.0 == 0 {
                    self.mpu_regions.set(i, (base, mpu_size));
                    return true;
                } else if region.0 == base {
                    if region.1 < mpu_size {
                        self.mpu_regions.set(i, (base, mpu_size));
                    }
                    return true;
                }
                i = i + 1;
            }
        }
        false
    }

    /// Takes the frame the core pushed when the process entered the kernel:
    /// the process will resume at its pc with its xPSR, and the stack
    /// pointer moves up past it.
    pub fn pop_syscall_stack(&mut self)
        requires
            old(self).wf(),
            old(self).frame_in_memory(),
        ensures
            final(self).wf(),
            popped(*old(self), *final(self)),
    {
        let off = self.current_stack_pointer - self.memory_start;
        self.yield_pc = read_word(&self.memory, off + 24) as usize;
        self.psr = read_word(&self.memory, off + 28) as usize;
        self.current_stack_pointer = self.current_stack_pointer + FRAME_SIZE;
        if self.current_stack_pointer < self.debug.min_stack_pointer {
            self.debug.min_stack_pointer = self.current_stack_pointer;
        }
    }

    /// Sets the process up to run `callback`: writes below the stack pointer
    /// the frame the core restores on return to the process, moves the
    /// stack pointer to it, marks the process running and counts that as
    /// work.
    #[verifier::rlimit(40)]
    #[verifier::spinoff_prover]
    pub fn push_function_call(&mut self, work: &mut WorkCount, callback: FunctionCall)
        requires
            old(self).wf(),
            old(work).count < usize::MAX,
            old(self).memory_start + FRAME_SIZE <= old(self).current_stack_pointer <= old(self).mem_end_addr(),
        ensures
            final(self).wf(),
            final(work).count == old(work).count + 1,
            pushed(*old(self), *final(self), callback),
            final(self).frame_in_memory(),
            final(self).frame_word(0) == callback.r0 as u32,
            final(self).frame_word(1) == callback.r1 as u32,
            final(self).frame_word(2) == callback.r2 as u32,
            final(self).frame_word(3) == callback.r3 as u32,
            final(self).frame_word(5) == (old(self).yield_pc as u32) | 1u32,
            final(self).frame_word(6) == (callback.pc as u32) | 1u32,
            final(self).frame_word(7) == old(self).psr as u32,
            old(self).state != State::Running ==> final(work).count - old(work).count
                == final(self).work_units() - old(self).work_units(),
    {
        work.count = work.count + 1;
        self.state = State::Running;
        let stack_bottom = self.current_stack_pointer - FRAME_SIZE;
        let off = stack_bottom - self.memory_start;
        write_word(&mut self.memory, off + 28, self.psr as u32);
        write_word(&mut self.memory, off + 24, (callback.pc as u32) | 1);
        write_word(&mut self.memory, off + 20, (self.yield_pc as u32) | 1);
        write_word(&mut self.memory, off, callback.r0 as u32);
        write_word(&mut self.memory, off + 4, callback.r1 as u32);
        write_word(&mut self.memory, off + 8, callback.r2 as u32);
        write_word(&mut self.memory, off + 12, callback.r3 as u32);
        proof {
            lemma_put_frame(
                old(self).memory@,
                off as int,
                old(self).psr as u32,
                (callback.pc as u32) | 1u32,
                (old(self).yield_pc as u32) | 1u32,
                callback.r0 as u32,
                callback.r1 as u32,
                callback.r2 as u32,
                callback.r3 as u32,
            );
        }
        self.current_stack_pointer = stack_bottom;
        if self.current_stack_pointer < self.debug.min_stack_pointer {
            self.debug.min_stack_pointer = self.current_stack_pointer;
        }
    }

    /// The system call the process made: see `svc_at`.
    pub fn svc_number(&self) -> (r: Option<Syscall>)
        requires
            self.wf(),
            self.frame_in_memory(),
        ensures
            r == svc_at(*self),
    {
        let off = self.current_stack_pointer - self.memory_start;
        let pc = read_word(&self.memory, off + 24) as usize;
        if pc >= 2 && pc - 2 >= self.text_start && pc - self.text_start <= self.text.len() {
            let svc_num = self.text[pc - 2 - self.text_start];
            if svc_num == 0 {
                Some(Syscall::YIELD)
            } else if svc_num == 1 {
                Some(Syscall::SUBSCRIBE)
            } else if svc_num == 2 {
                Some(Syscall::COMMAND)
            } else if svc_num == 3 {
                Some(Syscall::ALLOW)
            } else if svc_num == 4 {
                Some(Syscall::MEMOP)
            } else {
                None
            }
        } else {
            None
        }
    }

    /// Counts a system call and records which one it was.
    pub fn incr_syscall_count(&mut self)
        requires
            old(self).wf(),
            old(self).frame_in_memory(),
            old(self).debug.syscall_count < usize::MAX,
        ensures
            final(self).wf(),
            *final(self) == (Process {
                debug: ProcessDebug {
                    syscall_count: (old(self).debug.syscall_count + 1) as usize,
                    last_syscall: svc_at(*old(self)),
                    ..old(self).debug
                },
                ..*old(self)
            }),
    {
        let svc = self.svc_number();
        self.debug.syscall_count = self.debug.syscall_count + 1;
        self.debug.last_syscall = svc;
    }

    /// The stack pointer.
    pub fn sp(&self) -> (r: usize)
        ensures
            r == self.current_stack_pointer,
    {
        self.current_stack_pointer
    }

    fn frame_reg(&self, k: usize) -> (r: usize)
        requires
            self.wf(),
            self.frame_in_memory(),
            k < 8,
        ensures
            r == self.frame_word(k as int) as usize,
    {
        let off = self.current_stack_pointer - self.memory_start;
        read_word(&self.memory, off + WORD_SIZE * k) as usize
    }

    /// Register lr in the stack frame.
    pub fn lr(&self) -> (r: usize)
        requires
            self.wf(),
            self.frame_in_memory(),
        ensures
            r == self.frame_word(5) as usize,
    {
        self.frame_reg(5)
    }

    /// Register pc in the stack frame.
    pub fn pc(&self) -> (r: usize)
        requires
            self.wf(),
            self.frame_in_memory(),
        ensures
            r == self.frame_word(6) as usize,
    {
        self.frame_reg(6)
    }

    /// Register r0 in the stack frame.
    pub fn r0(&self) -> (r: usize)
        requires
            self.wf(),
            self.frame_in_memory(),
        ensures
            r == self.frame_word(0) as usize,
    {
        self.frame_reg(0)
    }

    /// Register r1 in the stack frame.
    pub fn r1(&self) -> (r: usize)
        requires
            self.wf(),
            self.frame_in_memory(),
        ensures
            r == self.frame_word(1) as usize,
    {
        self.frame_reg(1)
    }

    /// Register r2 in the stack frame.
    pub fn r2(&self) -> (r: usize)
        requires
            self.wf(),
            self.frame_in_memory(),
        ensures
            r == self.frame_word(2) as usize,
    {
        self.frame_reg(2)
    }

    /// Register r3 in the stack frame.
    pub fn r3(&self) -> (r: usize)
        requires
            self.wf(),
            self.frame_in_memory(),
        ensures
            r == self.frame_word(3) as usize,
    {
        self.frame_reg(3)
    }

    /// Register r12 in the stack frame.
    pub fn r12(&self) -> (r: usize)
        requires
            self.wf(),
            self.frame_in_memory(),
        ensures
            r == self.frame_word(4) as usize,
    {
        self.frame_reg(4)
    }

    /// Register xPSR in the stack frame.
    pub fn xpsr(&self) -> (r: usize)
        requires
            self.wf(),
            self.frame_in_memory(),
        ensures
            r == self.frame_word(7) as usize,
    {
        self.frame_reg(7)
    }

    /// Sets r0 in the stack frame: the value a system call returns.
    pub fn set_r0(&mut self, val: isize)
        requires
            old(self).wf(),
            old(self).frame_in_memory(),
        ensures
            final(self).wf(),
            *final(self) == (Process { memory: final(self).memory, ..*old(self) }),
            final(self).memory@ == put_word(
                old(self).memory@,
                old(self).current_stack_pointer - old(self).memory_start,
                val as u32,
            ),
            final(self).frame_word(0) == val as u32,
    {
        let off = self.current_stack_pointer - self.memory_start;
        write_word(&mut self.memory, off, val as u32);
        proof {
            lemma_put_word(old(self).memory@, off as int, val as u32);
        }
    }

    /// Sets r0 in the stack frame to the number for `return_code`.
    pub fn set_return_code(&mut self, return_code: ReturnCode)
        requires
            old(self).wf(),
            old(self).frame_in_memory(),
        ensures
            final(self).wf(),
            *final(self) == (Process { memory: final(self).memory, ..*old(self) }),
            final(self).memory@ == put_word(
                old(self).memory@,
                old(self).current_stack_pointer - old(self).memory_start,
                rc_value(return_code) as u32,
            ),
            final(self).frame_word(0) == rc_value(return_code) as u32,
    {
        let r = return_code.to_isize();
        self.set_r0(r);
    }

    /// Queues a notification from process `from`, and counts it as work
    /// whether or not the queue had room for it.
    pub fn schedule_ipc(&mut self, work: &mut WorkCount, from: AppId, cb_type: IPCType)
        requires
            old(self).wf(),
            old(work).count < usize::MAX,
        ensures
            final(self).wf(),
            final(work).count == old(work).count + 1,
            *final(self) == (Process { tasks: final(self).tasks, ..*old(self) }),
            old(self).tasks@.len() < CALLBACK_LEN - 1 ==> final(self).tasks@ == old(self).tasks@.push(
                Task::IPC((from, cb_type)),
            ),
            old(self).tasks@.len() >= CALLBACK_LEN - 1 ==> final(self).tasks@ == old(self).tasks@,
            old(self).tasks@.len() < CALLBACK_LEN - 1 ==> final(work).count - old(work).count
                == final(self).work_units() - old(self).work_units(),
    {
        work.count = work.count + 1;
        self.tasks.enqueue(Task::IPC((from, cb_type)));
    }

    /// The scheduling state.
    pub fn current_state(&self) -> (r: State)
        ensures
            r == self.state,
    {
        self.state
    }

    /// Marks a running process as yielded, which ends its running work.
    pub fn yield_state(&mut self, work: &mut WorkCount)
        requires
            old(self).wf(),
            old(self).state == State::Running ==> old(work).count >= 1,
        ensures
            final(self).wf(),
            old(self).state == State::Running ==> *final(self) == (Process {
                state: State::Yielded,
                ..*old(self)
            }) && final(work).count == old(work).count - 1,
            old(self).state != State::Running ==> *final(self) == *old(self) && *final(work)
                == *old(work),
            final(work).count - old(work).count == final(self).work_units() - old(self).work_units(),
    {
        if self.state == State::Running {
            self.state = State::Yielded;
            work.count = work.count - 1;
        }
    }

    /// Takes the oldest queued task, if any, which ends it as work.
    pub fn dequeue_task(&mut self, work: &mut WorkCount) -> (r: Option<Task>)
        requires
            old(self).wf(),
            old(self).tasks@.len() > 0 ==> old(work).count >= 1,
        ensures
            final(self).wf(),
            *final(self) == (Process { tasks: final(self).tasks, ..*old(self) }),
            old(self).tasks@.len() == 0 ==> r is None && final(self).tasks@ == old(self).tasks@
                && *final(work) == *old(work),
            old(self).tasks@.len() > 0 ==> r == Some(old(self).tasks@[0]) && final(self).tasks@
                == old(self).tasks@.drop_first() && final(work).count == old(work).count - 1,
            final(work).count - old(work).count == final(self).work_units() - old(self).work_units(),
    {
        match self.tasks.dequeue() {
            Some(cb) => {
                work.count = work.count - 1;
                Some(cb)
            },
            None => None,
        }
    }
}

/// Every loaded process in the table is well formed.
pub open spec fn procs_wf(procs: Seq<Option<Process>>) -> bool {
    forall|i: int| 0 <= i < procs.len() ==> (#[trigger] procs[i] matches Some(p) ==> p.wf())
}

/// Queues `callback` for the process `appid` names and counts it as work;
/// whether the queue had room for it. False, with nothing changed, when no
/// process is loaded there.
pub fn schedule(
    procs: &mut Vec<Option<Process>>,
    work: &mut WorkCount,
    callback: FunctionCall,
    appid: AppId,
) -> (r: bool)
    requires
        procs_wf(old(procs)@),
        old(work).count < usize::MAX,
    ensures
        procs_wf(final(procs)@),
        ({
            let idx = appid.index() as int;
            if idx >= old(procs)@.len() || old(procs)@[idx] is None {
                !r && final(procs)@ == old(procs)@ && *final(work) == *old(work)
            } else {
                let p = old(procs)@[idx]->0;
                let q = final(procs)@[idx]->0;
                &&& final(work).count == old(work).count + 1
                &&& final(procs)@.len() == old(procs)@.len()
                &&& final(procs)@[idx] is Some
                &&& final(procs)@ == old(procs)@.update(idx, Some(q))
                &&& q == (Process { tasks: q.tasks, ..p })
                &&& r == (p.tasks@.len() < CALLBACK_LEN - 1)
                &&& r ==> q.tasks@ == p.tasks@.push(Task::FunctionCall(callback))
                &&& !r ==> q.tasks@ == p.tasks@
                &&& r ==> final(work).count - old(work).count == q.work_units() - p.work_units()
            }
        }),
{
    let idx = appid.idx();
    if idx >= procs.len() {
        return false;
    }
    let slot = procs.remove(idx);
    match slot {
        None => {
            procs.insert(idx, None);
            assert(procs@ =~= old(procs)@);
            false
        },
        Some(mut p) => {
            work.count = work.count + 1;
            let queued = p.tasks.enqueue(Task::FunctionCall(callback));
            procs.insert(idx, Some(p));
            assert(procs@ =~= old(procs)@.update(idx as int, Some(p)));
            queued
        },
    }
}

/// The start and end addresses of the flash the application at `app_idx`
/// owns and may write: past its protected part up to the end of its flash.
/// `(0, 0)` when no process is loaded there.
pub fn get_editable_flash_range(procs: &Vec<Option<Process>>, app_idx: usize) -> (r: (usize, usize))
    requires
        procs_wf(procs@),
        forall|i: int|
            0 <= i < procs@.len() ==> (#[trigger] procs@[i] matches Some(p) ==> p.text_start
                + protected_size(p.header) <= usize::MAX),
    ensures
        app_idx >= procs@.len() || procs@[app_idx as int] is None ==> r == (0usize, 0usize),
        app_idx < procs@.len() && procs@[app_idx as int] is Some ==> ({
            let p = procs@[app_idx as int]->0;
            r == ((p.text_start + protected_size(p.header)) as usize, (p.text_start + p.text@.len()) as usize)
        }),
{
    if app_idx >= procs.len() {
        return (0, 0);
    }
    match &procs[app_idx] {
        None => (0, 0),
        Some(p) => {
            let start = p.flash_non_protected_start();
            let end = p.flash_end();
            (start, end)
        },
    }
}

/// Popping the frame pushed for a callback resumes the process at the
/// callback's entry point, with the xPSR it had, and puts the stack pointer
/// back where it was.
pub proof fn lemma_pop_undoes_push(p0: Process, p1: Process, p2: Process, callback: FunctionCall)
    requires
        p0.wf(),
        p0.memory_start + FRAME_SIZE <= p0.current_stack_pointer <= p0.mem_end_addr(),
        pushed(p0, p1, callback),
        popped(p1, p2),
    ensures
        p2.current_stack_pointer == p0.current_stack_pointer,
        p2.yield_pc == ((callback.pc as u32) | 1u32) as usize,
        p2.psr == (p0.psr as u32) as usize,
        p2.state == State::Running,
        p2.memory == p1.memory,
{
    let off = p0.current_stack_pointer - FRAME_SIZE - p0.memory_start;
    lemma_put_frame(
        p0.memory@,
        off,
        p0.psr as u32,
        (callback.pc as u32) | 1u32,
        (p0.yield_pc as u32) | 1u32,
        callback.r0 as u32,
        callback.r1 as u32,
        callback.r2 as u32,
        callback.r3 as u32,
    );
}

/// Setting the break and then setting it back to the break that was
/// returned leaves the process as it was and gives back the first address,
/// when the break started at or below the kernel's break.
pub proof fn lemma_brk_undone(p0: Process, p1: Process, p2: Process, new_break: usize, old_break: usize, r: Result<usize, Error>)
    requires
        p0.wf(),
        p0.app_break < p0.mem_end_addr(),
        p0.app_break <= p0.kernel_memory_break,
        brk_outcome(p0, p1, new_break, Ok(old_break)),
        brk_outcome(p1, p2, old_break, r),
    ensures
        p2 == p0,
        r == Ok::<usize, Error>(new_break),
{
}

/// The number of bytes at the start of an application's flash that only
/// the kernel may write.
pub open spec fn protected_size_of(h: TbfHeader) -> u32 {
    match h {
        TbfHeader::TbfHeaderV1(_) => crate::process::TBF_HEADER_V1_SIZE,
        TbfHeader::TbfHeaderV2(hd) => hd.main.protected_size,
        TbfHeader::Padding(_) => 0,
    }
}

/// The offset of an application's entry point in its flash.
pub open spec fn init_offset_of(h: TbfHeader) -> u32 {
    match h {
        TbfHeader::TbfHeaderV1(hd) => hd.entry_offset,
        TbfHeader::TbfHeaderV2(hd) => hd.main.init_fn_offset,
        TbfHeader::Padding(_) => 0,
    }
}

/// `a - b`, wrapping around on underflow.
pub open spec fn wsub(a: usize, b: usize) -> usize {
    if a >= b {
        (a - b) as usize
    } else {
        (a - b + usize::MAX + 1) as usize
    }
}

/// `a + b`, wrapping around on overflow.
pub open spec fn wadd(a: usize, b: usize) -> usize {
    if a + b <= usize::MAX {
        (a + b) as usize
    } else {
        (a + b - usize::MAX - 1) as usize
    }
}

/// The layout and use of a process's flash and memory, and its activity,
/// as the process's statistics report them.
pub struct ProcessStatistics {
    pub flash_start: usize,
    pub flash_end: usize,
    pub flash_protected_size: usize,
    pub flash_app_start: usize,
    pub flash_app_size: usize,
    pub flash_init_fn: usize,
    pub sram_start: usize,
    pub sram_end: usize,
    pub sram_grant_start: usize,
    pub sram_heap_end: usize,
    pub sram_heap_start: usize,
    pub sram_stack_start: usize,
    pub sram_stack_bottom: usize,
    pub sram_grant_size: usize,
    pub sram_heap_size: usize,
    pub sram_data_size: usize,
    pub sram_stack_size: usize,
    pub sram_grant_allocated: usize,
    pub sram_heap_allocated: usize,
    pub sram_stack_allocated: usize,
    pub sram_data_allocated: usize,
    pub sram_grant_exceeded: bool,
    pub sram_heap_exceeded: bool,
    pub sram_stack_exceeded: bool,
    pub events_queued: usize,
    pub syscall_count: usize,
    pub last_syscall: Option<Syscall>,
}

/// The faults a Cortex-M fault status register (`cfsr`) and hard fault
/// status register (`hfsr`) record.
pub struct FaultStatus {
    pub iaccviol: bool,
    pub daccviol: bool,
    pub munstkerr: bool,
    pub mstkerr: bool,
    pub mlsperr: bool,
    pub mmfarvalid: bool,
    pub ibuserr: bool,
    pub preciserr: bool,
    pub impreciserr: bool,
    pub unstkerr: bool,
    pub stkerr: bool,
    pub lsperr: bool,
    pub bfarvalid: bool,
    pub undefinstr: bool,
    pub invstate: bool,
    pub invpc: bool,
    pub nocp: bool,
    pub unaligned: bool,
    pub divbyzero: bool,
    pub vecttbl: bool,
    pub forced: bool,
    /// Whether any fault is recorded at all.
    pub any: bool,
}

/// Decodes the fault status registers into the faults they record.
pub fn fault_status(cfsr: u32, hfsr: u32) -> (f: FaultStatus)
    ensures
        f.iaccviol == ((cfsr & 0x01) == 0x01),
        f.daccviol == ((cfsr & 0x02) == 0x02),
        f.munstkerr == ((cfsr & 0x08) == 0x08),
        f.mstkerr == ((cfsr & 0x10) == 0x10),
        f.mlsperr == ((cfsr & 0x20) == 0x20),
        f.mmfarvalid == ((cfsr & 0x80) == 0x80),
        f.ibuserr == (((cfsr >> 8u32) & 0x01) == 0x01),
        f.preciserr == (((cfsr >> 8u32) & 0x02) == 0x02),
        f.impreciserr == (((cfsr >> 8u32) & 0x04) == 0x04),
        f.unstkerr == (((cfsr >> 8u32) & 0x08) == 0x08),
        f.stkerr == (((cfsr >> 8u32) & 0x10) == 0x10),
        f.lsperr == (((cfsr >> 8u32) & 0x20) == 0x20),
        f.bfarvalid == (((cfsr >> 8u32) & 0x80) == 0x80),
        f.undefinstr == (((cfsr >> 16u32) & 0x01) == 0x01),
        f.invstate == (((cfsr >> 16u32) & 0x02) == 0x02),
        f.invpc == (((cfsr >> 16u32) & 0x04) == 0x04),
        f.nocp == (((cfsr >> 16u32) & 0x08) == 0x08),
        f.unaligned == (((cfsr >> 16u32) & 0x100) == 0x100),
        f.divbyzero == (((cfsr >> 16u32) & 0x200) == 0x200),
        f.vecttbl == ((hfsr & 0x02) == 0x02),
        f.forced == ((hfsr & 0x4000_0000) == 0x4000_0000),
        f.any == (cfsr != 0 || hfsr != 0),
{
    FaultStatus {
        iaccviol: (cfsr & 0x01) == 0x01,
        daccviol: (cfsr & 0x02) == 0x02,
        munstkerr: (cfsr & 0x08) == 0x08,
        mstkerr: (cfsr & 0x10) == 0x10,
        mlsperr: (cfsr & 0x20) == 0x20,
        mmfarvalid: (cfsr & 0x80) == 0x80,
        ibuserr: ((cfsr >> 8) & 0x01) == 0x01,
        preciserr: ((cfsr >> 8) & 0x02) == 0x02,
        impreciserr: ((cfsr >> 8) & 0x04) == 0x04,
        unstkerr: ((cfsr >> 8) & 0x08) == 0x08,
        stkerr: ((cfsr >> 8) & 0x10) == 0x10,
        lsperr: ((cfsr >> 8) & 0x20) == 0x20,
        bfarvalid: ((cfsr >> 8) & 0x80) == 0x80,
        undefinstr: ((cfsr >> 16) & 0x01) == 0x01,
        invstate: ((cfsr >> 16) & 0x02) == 0x02,
        invpc: ((cfsr >> 16) & 0x04) == 0x04,
        nocp: ((cfsr >> 16) & 0x08) == 0x08,
        unaligned: ((cfsr >> 16) & 0x100) == 0x100,
        divbyzero: ((cfsr >> 16) & 0x200) == 0x200,
        vecttbl: (hfsr & 0x02) == 0x02,
        forced: (hfsr & 0x4000_0000) == 0x4000_0000,
        any: !(cfsr == 0 && hfsr == 0),
    }
}

impl Process {
    /// The statistics of the process: where its flash and memory regions
    /// lie, how much of each is used and allocated (the sizes wrap around
    /// where a region's bounds are out of order), which regions exceed
    /// their allocation, and its queued events and system calls.
    pub fn statistics(&self) -> (s: ProcessStatistics)
        requires
            self.wf(),
        ensures
            ({
                let flash_start = self.text_start;
                let flash_end = (self.text_start + self.text@.len()) as usize;
                let protected = protected_size_of(self.header) as usize;
                let flash_app_start = wadd(flash_start, protected);
                let sram_end = self.mem_end_addr() as usize;
                let grant_start = self.kernel_memory_break;
                let heap_end = self.app_break;
                let heap_start = match self.debug.app_heap_start_pointer {
                    Some(a) => a,
                    None => 0usize,
                };
                let stack_start = match self.debug.app_stack_start_pointer {
                    Some(a) => a,
                    None => 0usize,
                };
                let stack_bottom = self.debug.min_stack_pointer;
                &&& s.flash_start == flash_start
                &&& s.flash_end == flash_end
                &&& s.flash_protected_size == protected
                &&& s.flash_app_start == flash_app_start
                &&& s.flash_app_size == wsub(flash_end, flash_app_start)
                &&& s.flash_init_fn == wadd(flash_start, init_offset_of(self.header) as usize)
                &&& s.sram_start == self.memory_start
                &&& s.sram_end == sram_end
                &&& s.sram_grant_start == grant_start
                &&& s.sram_heap_end == heap_end
                &&& s.sram_heap_start == heap_start
                &&& s.sram_stack_start == stack_start
                &&& s.sram_stack_bottom == stack_bottom
                &&& s.sram_grant_size == wsub(sram_end, grant_start)
                &&& s.sram_heap_size == wsub(heap_end, heap_start)
                &&& s.sram_data_size == wsub(heap_start, stack_start)
                &&& s.sram_stack_size == wsub(stack_start, stack_bottom)
                &&& s.sram_grant_allocated == wsub(sram_end, grant_start)
                &&& s.sram_heap_allocated == wsub(grant_start, heap_start)
                &&& s.sram_stack_allocated == wsub(stack_start, self.memory_start)
                &&& s.sram_data_allocated == s.sram_data_size
                &&& s.sram_grant_exceeded == (s.sram_grant_size > s.sram_grant_allocated)
                &&& s.sram_heap_exceeded == (s.sram_heap_size > s.sram_heap_allocated)
                &&& s.sram_stack_exceeded == (s.sram_stack_size > s.sram_stack_allocated)
                &&& s.events_queued == self.tasks@.len()
                &&& s.syscall_count == self.debug.syscall_count
                &&& s.last_syscall == self.debug.last_syscall
            }),
    {
        // Flash
        let flash_end = self.text_start + self.text.len();
        let flash_start = self.text_start;
        let flash_protected_size = self.header.get_protected_size() as usize;
        let flash_app_start = flash_start.wrapping_add(flash_protected_size);
        let flash_app_size = flash_end.wrapping_sub(flash_app_start);
        let flash_init_fn = flash_start.wrapping_add(self.header.get_init_function_offset() as usize);
        // SRAM addresses
        let sram_end = self.memory_start + self.memory.len();
        let sram_grant_start = self.kernel_memory_break;
        let sram_heap_end = self.app_break;
        let sram_heap_start = match self.debug.app_heap_start_pointer {
            Some(a) => a,
            None => 0,
        };
        let sram_stack_start = match self.debug.app_stack_start_pointer {
            Some(a) => a,
            None => 0,
        };
        let sram_stack_bottom = self.debug.min_stack_pointer;
        let sram_start = self.memory_start;
        // SRAM sizes
        let sram_grant_size = sram_end.wrapping_sub(sram_grant_start);
        let sram_heap_size = sram_heap_end.wrapping_sub(sram_heap_start);
        let sram_data_size = sram_heap_start.wrapping_sub(sram_stack_start);
        let sram_stack_size = sram_stack_start.wrapping_sub(sram_stack_bottom);
        let sram_grant_allocated = sram_end.wrapping_sub(sram_grant_start);
        let sram_heap_allocated = sram_grant_start.wrapping_sub(sram_heap_start);
        let sram_stack_allocated = sram_stack_start.wrapping_sub(sram_start);
        let sram_data_allocated = sram_data_size;
        ProcessStatistics {
            flash_start,
            flash_end,
            flash_protected_size,
            flash_app_start,
            flash_app_size,
            flash_init_fn,
            sram_start,
            sram_end,
            sram_grant_start,
            sram_heap_end,
            sram_heap_start,
            sram_stack_start,
            sram_stack_bottom,
            sram_grant_size,
            sram_heap_size,
            sram_data_size,
            sram_stack_size,
            sram_grant_allocated,
            sram_heap_allocated,
            sram_stack_allocated,
            sram_data_allocated,
            sram_grant_exceeded: sram_grant_size > sram_grant_allocated,
            sram_heap_exceeded: sram_heap_size > sram_heap_allocated,
            sram_stack_exceeded: sram_stack_size > sram_stack_allocated,
            events_queued: self.tasks.len(),
            syscall_count: self.debug.syscall_count,
            last_syscall: self.debug.last_syscall,
        }
    }
}

} // verus!
