//! Loading an application: placing its stack, data and GOT in its memory,
//! fixing up its position-independent code, and setting up the process
//! that will run it.

use vstd::prelude::*;
use vstd::wrapping::u32_specs;
use vstd::slice::{slice_subrange, slice_to_vec};
use crate::common::math::{closest_power_of_two, pow2_ceil};
use crate::common::ring_buffer::RingBuffer;
use crate::process::{
    FaultResponse, FunctionCall, PicOption1Fields, State, TbfHeader, align8, align8_u32, v1_ram_size,
};
use crate::process::tbf_parse::{
    le32, parse_and_validate_tbf_header, tbf_parse, parsed_as, package_name_of, TbfParse,
};
use crate::process::app::{
    put_word, lemma_put_word, read_word, write_word, Process, ProcessDebug, StoredRegs, Task, WorkCount, CALLBACK_LEN,
    MPU_REGION_SLOTS, WORD_SIZE,
};

verus! {

/// Where a loaded application's stack and break start.
pub struct LoadResult {
    pub initial_stack_pointer: usize,
    pub initial_sbrk_pointer: usize,
    pub header: TbfHeader,
}

/// The size of an application's flash.
pub open spec fn header_total_size(h: TbfHeader) -> u32 {
    match h {
        TbfHeader::TbfHeaderV1(hd) => hd.total_size,
        TbfHeader::TbfHeaderV2(hd) => hd.base.total_size,
        TbfHeader::Padding(hd) => hd.total_size,
    }
}

/// Whether the header describes an application that is enabled.
pub open spec fn app_enabled(h: TbfHeader) -> bool {
    match h {
        TbfHeader::TbfHeaderV1(_) => true,
        TbfHeader::TbfHeaderV2(hd) => hd.base.flags & 1u32 == 1u32,
        TbfHeader::Padding(_) => false,
    }
}

/// Whether the kernel fixes up the application's position-independent code.
pub open spec fn header_needs_pic(h: TbfHeader) -> bool {
    match h {
        TbfHeader::TbfHeaderV1(_) => true,
        TbfHeader::TbfHeaderV2(hd) => hd.pic_values is Some,
        TbfHeader::Padding(_) => false,
    }
}

/// The PIC fields of a header.
pub open spec fn header_pic(h: TbfHeader) -> Option<PicOption1Fields> {
    match h {
        TbfHeader::TbfHeaderV1(hd) => Some(crate::process::v1_pic_fields(hd)),
        TbfHeader::TbfHeaderV2(hd) => hd.pic_values,
        TbfHeader::Padding(_) => None,
    }
}

/// The RAM an application needs.
pub open spec fn header_min_ram(h: TbfHeader) -> int {
    match h {
        TbfHeader::TbfHeaderV1(hd) => v1_ram_size(hd),
        TbfHeader::TbfHeaderV2(hd) => hd.main.minimum_ram_size as int,
        TbfHeader::Padding(_) => 0,
    }
}

/// The offset of an application's entry point in its flash.
pub open spec fn header_init_offset(h: TbfHeader) -> u32 {
    match h {
        TbfHeader::TbfHeaderV1(hd) => hd.entry_offset,
        TbfHeader::TbfHeaderV2(hd) => hd.main.init_fn_offset,
        TbfHeader::Padding(_) => 0,
    }
}

/// The stack at the bottom of the memory, its length rounded up to 8.
pub open spec fn stack_len(p: PicOption1Fields) -> int {
    align8(p.minimum_stack_length as int)
}

/// The stack, data, GOT and BSS together, rounded up to 8: where the
/// application's break starts.
pub open spec fn fixed_len(p: PicOption1Fields) -> int {
    align8(stack_len(p) + p.data_size + p.got_size + p.bss_size)
}

/// A GOT entry or relocated word made absolute: with the top bit clear it
/// is relative to the GOT in memory; with it set, the rest is relative to
/// the code in flash. Sums are taken modulo 2^32.
pub open spec fn fixup(entry: u32, got_base: u32, text_start: u32) -> u32 {
    if entry & 0x8000_0000u32 == 0 {
        u32_specs::wrapping_add(entry, got_base)
    } else {
        u32_specs::wrapping_add(entry ^ 0x8000_0000u32, text_start)
    }
}

/// The bytes `s` with `t` written from `at`.
pub open spec fn splice(s: Seq<u8>, at: int, t: Seq<u8>) -> Seq<u8> {
    s.subrange(0, at) + t + s.subrange(at + t.len(), s.len() as int)
}

/// `n` zero bytes.
pub open spec fn zeros(n: nat) -> Seq<u8> {
    Seq::new(n, |i: int| 0u8)
}

/// The first `n` words from `base` fixed up, in order.
pub open spec fn fix_got(ram: Seq<u8>, base: int, n: nat, got_base: u32, text_start: u32) -> Seq<u8>
    decreases n,
{
    if n == 0 {
        ram
    } else {
        let r = fix_got(ram, base, (n - 1) as nat, got_base, text_start);
        let off = base + 4 * (n - 1);
        put_word(r, off, fixup(le32(r, off), got_base, text_start))
    }
}

/// The offset from the GOT that relocation word `i` names.
pub open spec fn reloc_target(flash: Seq<u8>, rel_off: int, i: int) -> int {
    le32(flash, rel_off + 4 * i) as int
}

/// The first `n` relocation words applied, in order: every even-numbered
/// word names a word of memory, relative to `base`, to fix up; the odd ones
/// are skipped.
pub open spec fn apply_relocs(
    ram: Seq<u8>,
    flash: Seq<u8>,
    rel_off: int,
    n: nat,
    base: int,
    got_base: u32,
    text_start: u32,
) -> Seq<u8>
    decreases n,
{
    if n == 0 {
        ram
    } else {
        let r = apply_relocs(ram, flash, rel_off, (n - 1) as nat, base, got_base, text_start);
        let i = n - 1;
        if i % 2 == 0 {
            let off = base + reloc_target(flash, rel_off, i);
            put_word(r, off, fixup(le32(r, off), got_base, text_start))
        } else {
            r
        }
    }
}

/// The memory of an application after loading with PIC fixup: the GOT and
/// the data copied from flash above the stack, the BSS zeroed, the GOT
/// entries and then the relocated words fixed up.
pub open spec fn pic_image(
    ram: Seq<u8>,
    flash: Seq<u8>,
    p: PicOption1Fields,
    got_base: u32,
    text_start: u32,
) -> Seq<u8> {
    let sl = stack_len(p);
    let got_data = flash.subrange(p.got_offset as int, p.got_offset + p.got_size) + flash.subrange(
        p.data_offset as int,
        p.data_offset + p.data_size,
    );
    let copied = splice(ram, sl, got_data);
    let zeroed = splice(copied, sl + p.bss_memory_offset, zeros(p.bss_size as nat));
    let fixed = fix_got(zeroed, sl, (p.got_size / 4) as nat, got_base, text_start);
    apply_relocs(
        fixed,
        flash,
        p.relocation_data_offset as int,
        (p.relocation_data_size / 4) as nat,
        sl,
        got_base,
        text_start,
    )
}

/// The PIC fields can be loaded into `ram_len` bytes from the flash bytes
/// `flash`: the sizes fit in 32 bits, what is copied lies in the flash,
/// and what is written lies in the memory.
pub open spec fn pic_loadable(p: PicOption1Fields, flash: Seq<u8>, ram_len: int) -> bool {
    &&& fixed_len(p) <= u32::MAX
    &&& p.got_offset + p.got_size <= flash.len()
    &&& p.data_offset + p.data_size <= flash.len()
    &&& p.relocation_data_offset + p.relocation_data_size <= flash.len()
    &&& stack_len(p) + p.got_size + p.data_size <= ram_len
    &&& stack_len(p) + p.bss_memory_offset + p.bss_size <= ram_len
    &&& forall|i: int|
        0 <= i < p.relocation_data_size / 4 && i % 2 == 0 ==> stack_len(p) + #[trigger] reloc_target(
            flash,
            p.relocation_data_offset as int,
            i,
        ) + 4 <= ram_len
}

fn fixup_entry(entry: u32, got_base: u32, text_start: u32) -> (r: u32)
    ensures
        r == fixup(entry, got_base, text_start),
{
    if (entry & 0x8000_0000) == 0 {
        entry.wrapping_add(got_base)
    } else {
        (entry ^ 0x8000_0000).wrapping_add(text_start)
    }
}

fn copy_bytes(dst: &mut Vec<u8>, at: usize, src: &[u8], from: usize, len: usize)
    requires
        at + len <= old(dst).len(),
        from + len <= src.len(),
    ensures
        final(dst)@.len() == old(dst)@.len(),
        final(dst)@ == splice(old(dst)@, at as int, src@.subrange(from as int, from + len)),
{
    let mut i: usize = 0;
    while i < len
        invariant
            i <= len,
            at + len <= dst.len(),
            from + len <= src.len(),
            dst@.len() == old(dst)@.len(),
            dst@ == splice(old(dst)@, at as int, src@.subrange(from as int, from + i)),
        decreases len - i,
    {
        dst.set(at + i, src[from + i]);
        i = i + 1;
        assert(dst@ =~= splice(old(dst)@, at as int, src@.subrange(from as int, from + i)));
    }
}

fn zero_bytes(dst: &mut Vec<u8>, at: usize, len: usize)
    requires
        at + len <= old(dst).len(),
    ensures
        final(dst)@.len() == old(dst)@.len(),
        final(dst)@ == splice(old(dst)@, at as int, zeros(len as nat)),
{
    let mut i: usize = 0;
    while i < len
        invariant
            i <= len,
            at + len <= dst.len(),
            dst@.len() == old(dst)@.len(),
            dst@ == splice(old(dst)@, at as int, zeros(i as nat)),
        decreases len - i,
    {
        dst.set(at + i, 0);
        i = i + 1;
        assert(dst@ =~= splice(old(dst)@, at as int, zeros(i as nat)));
    }
}

fn fix_got_words(mem: &mut Vec<u8>, base: usize, n: usize, got_base: u32, text_start: u32)
    requires
        base + 4 * n <= old(mem).len(),
    ensures
        final(mem)@.len() == old(mem)@.len(),
        final(mem)@ == fix_got(old(mem)@, base as int, n as nat, got_base, text_start),
{
    let mut k: usize = 0;
    while k < n
        invariant
            k <= n,
            base + 4 * n <= mem.len(),
            mem@.len() == old(mem)@.len(),
            mem@ == fix_got(old(mem)@, base as int, k as nat, got_base, text_start),
        decreases n - k,
    {
        let off = base + 4 * k;
        let entry = read_word(mem, off);
        let fixed = fixup_entry(entry, got_base, text_start);
        write_word(mem, off, fixed);
        proof {
            lemma_put_word(fix_got(old(mem)@, base as int, k as nat, got_base, text_start), off as int, fixed);
        }
        k = k + 1;
    }
}

fn apply_relocations(
    mem: &mut Vec<u8>,
    flash: &[u8],
    rel_off: usize,
    n: usize,
    base: usize,
    got_base: u32,
    text_start: u32,
)
    requires
        rel_off + 4 * n <= flash.len(),
        forall|i: int|
            0 <= i < n && i % 2 == 0 ==> base + #[trigger] reloc_target(flash@, rel_off as int, i) + 4
                <= old(mem).len(),
    ensures
        final(mem)@.len() == old(mem)@.len(),
        final(mem)@ == apply_relocs(old(mem)@, flash@, rel_off as int, n as nat, base as int, got_base, text_start),
{
    let mut i: usize = 0;
    while i < n
        invariant
            i <= n,
            rel_off + 4 * n <= flash.len(),
            forall|j: int|
                0 <= j < n && j % 2 == 0 ==> base + #[trigger] reloc_target(flash@, rel_off as int, j) + 4
                    <= old(mem).len(),
            mem@.len() == old(mem)@.len(),
            mem@ == apply_relocs(old(mem)@, flash@, rel_off as int, i as nat, base as int, got_base, text_start),
        decreases n - i,
    {
        if i % 2 == 0 {
            let o = rel_off + 4 * i;
            let b0 = flash[o] as u32;
            let b1 = flash[o + 1] as u32;
            let b2 = flash[o + 2] as u32;
            let b3 = flash[o + 3] as u32;
            let addr = b0 + b1 * 256 + b2 * 65536 + b3 * 16777216;
            assert(addr == reloc_target(flash@, rel_off as int, i as int));
            let off = base + addr as usize;
            let entry = read_word(mem, off);
            let fixed = fixup_entry(entry, got_base, text_start);
            write_word(mem, off, fixed);
            proof {
                lemma_put_word(
                    apply_relocs(old(mem)@, flash@, rel_off as int, i as nat, base as int, got_base, text_start),
                    off as int,
                    fixed,
                );
            }
        }
        i = i + 1;
    }
}

/// What loading `h` into the memory `ram` at `mem_base` gives: where the
/// stack and the break start, and the memory. Without PIC fixup the
/// application sets itself up, starting from 64 bytes into its memory.
pub open spec fn load_outcome(
    h: TbfHeader,
    flash: Seq<u8>,
    flash_start_addr: usize,
    ram: Seq<u8>,
    mem_base: usize,
) -> Option<(int, int, Seq<u8>)> {
    if !header_needs_pic(h) {
        Some((mem_base + 64, mem_base + 64, ram))
    } else {
        match header_pic(h) {
            None => None,
            Some(p) => Some(
                (
                    mem_base + stack_len(p),
                    mem_base + fixed_len(p),
                    pic_image(
                        ram,
                        flash,
                        p,
                        (mem_base + stack_len(p)) as u32,
                        (flash_start_addr + p.text_offset) as u32,
                    ),
                ),
            ),
        }
    }
}

/// `h` can be loaded into `ram_len` bytes at `mem_base` with `mem_size`
/// bytes free there: the fixed part fits in the free memory and its parts
/// lie where `pic_loadable` asks.
pub open spec fn loadable(
    h: TbfHeader,
    flash: Seq<u8>,
    flash_start_addr: usize,
    ram_len: int,
    mem_base: usize,
    mem_size: usize,
) -> bool {
    &&& mem_base + ram_len <= u32::MAX
    &&& mem_base + mem_size <= u32::MAX
    &&& mem_base + 64 <= u32::MAX
    &&& header_needs_pic(h) ==> match header_pic(h) {
        None => true,
        Some(p) => {
            &&& pic_loadable(p, flash, ram_len)
            &&& fixed_len(p) <= mem_size
            &&& flash_start_addr + p.text_offset <= usize::MAX
        },
    }
}

/// Loads with PIC fixup: copies the GOT and the data above the stack,
/// zeroes the BSS, and fixes up the GOT and the relocated words; gives
/// where the stack and the break start.
#[verifier::rlimit(50)]
fn load_pic(
    pic_values: PicOption1Fields,
    flash: &[u8],
    flash_start_addr: usize,
    memory: &mut Vec<u8>,
    mem_base: usize,
    mem_size: usize,
) -> (r: (usize, usize))
    requires
        pic_loadable(pic_values, flash@, old(memory)@.len() as int),
        fixed_len(pic_values) <= mem_size,
        mem_base + mem_size <= u32::MAX,
        flash_start_addr + pic_values.text_offset <= usize::MAX,
    ensures
        final(memory)@.len() == old(memory)@.len(),
        r.0 == mem_base + stack_len(pic_values),
        r.1 == mem_base + fixed_len(pic_values),
        final(memory)@ == pic_image(
            old(memory)@,
            flash@,
            pic_values,
            (mem_base + stack_len(pic_values)) as u32,
            (flash_start_addr + pic_values.text_offset) as u32,
        ),
{
    let ghost ram0 = memory@;
    let ram_len = memory.len();
    let aligned_stack_len = align8_u32(pic_values.minimum_stack_length);
    let aligned_fixed_len = align8_u32(
        aligned_stack_len + pic_values.data_size + pic_values.got_size + pic_values.bss_size,
    );
    let text_start = flash_start_addr + pic_values.text_offset as usize;
    let sl = aligned_stack_len as usize;
    let got_base = mem_base + sl;
    copy_bytes(memory, sl, flash, pic_values.got_offset as usize, pic_values.got_size as usize);
    copy_bytes(
        memory,
        sl + pic_values.got_size as usize,
        flash,
        pic_values.data_offset as usize,
        pic_values.data_size as usize,
    );
    proof {
        let got_data = flash@.subrange(
            pic_values.got_offset as int,
            pic_values.got_offset + pic_values.got_size,
        ) + flash@.subrange(pic_values.data_offset as int, pic_values.data_offset + pic_values.data_size);
        assert(memory@ =~= splice(ram0, sl as int, got_data));
    }
    zero_bytes(memory, sl + pic_values.bss_memory_offset as usize, pic_values.bss_size as usize);
    fix_got_words(memory, sl, (pic_values.got_size / 4) as usize, got_base as u32, text_start as u32);
    apply_relocations(
        memory,
        flash,
        pic_values.relocation_data_offset as usize,
        (pic_values.relocation_data_size / 4) as usize,
        sl,
        got_base as u32,
        text_start as u32,
    );
    (mem_base + sl, mem_base + aligned_fixed_len as usize)
}

/// Loads the application with header `tbf_header`, whose flash `flash`
/// starts at `flash_start_addr`, into its memory `memory` at `mem_base`.
/// With PIC fixup the stack goes at the bottom of the memory, so that an
/// overflow runs out of the process memory rather than over its data; the
/// GOT and the data are copied above it, the BSS zeroed, and the GOT and
/// the relocated words fixed up. None when the header asks for PIC fixup
/// without giving the fields.
pub fn load(
    tbf_header: TbfHeader,
    flash: &[u8],
    flash_start_addr: usize,
    memory: &mut Vec<u8>,
    mem_base: usize,
    mem_size: usize,
) -> (r: Option<LoadResult>)
    requires
        loadable(tbf_header, flash@, flash_start_addr, old(memory)@.len() as int, mem_base, mem_size),
    ensures
        final(memory)@.len() == old(memory)@.len(),
        match load_outcome(tbf_header, flash@, flash_start_addr, old(memory)@, mem_base) {
            None => r is None && final(memory)@ == old(memory)@,
            Some((sp, sbrk, image)) => r matches Some(lr) && lr.initial_stack_pointer == sp
                && lr.initial_sbrk_pointer == sbrk && lr.header == tbf_header && final(memory)@
                == image,
        },
{
    if tbf_header.needs_pic_fixup() {
        match tbf_header.get_pic_fields() {
            Some(pic_values) => {
                let (sp, sbrk) = load_pic(pic_values, flash, flash_start_addr, memory, mem_base, mem_size);
                Some(LoadResult { initial_stack_pointer: sp, initial_sbrk_pointer: sbrk, header: tbf_header })
            },
            None => None,
        }
    } else {
        Some(
            LoadResult {
                initial_stack_pointer: mem_base + 64,
                initial_sbrk_pointer: mem_base + 64,
                header: tbf_header,
            },
        )
    }
}

/// The size of the flash a parsed header covers.
pub open spec fn parse_total(p: TbfParse) -> int {
    match p {
        TbfParse::V1(h) => h.total_size as int,
        TbfParse::Padding(b) => b.total_size as int,
        TbfParse::V2 { base, .. } => base.total_size as int,
        _ => 0,
    }
}

/// Whether a parsed header is an enabled application.
pub open spec fn parse_enabled(p: TbfParse) -> bool {
    match p {
        TbfParse::V1(_) => true,
        TbfParse::V2 { base, .. } => base.flags & 1u32 == 1u32,
        _ => false,
    }
}

/// The RAM a parsed header asks for.
pub open spec fn parse_min_ram(p: TbfParse) -> int {
    match p {
        TbfParse::V1(h) => v1_ram_size(h),
        TbfParse::V2 { main, .. } => main.minimum_ram_size as int,
        _ => 0,
    }
}

/// A header the parser gives has the sizes and flags the parse describes.
pub proof fn lemma_parsed_fields(h: TbfHeader, p: TbfParse)
    requires
        parsed_as(Some(h), p),
    ensures
        header_total_size(h) == parse_total(p),
        app_enabled(h) == parse_enabled(p),
        header_min_ram(h) == parse_min_ram(p),
{
}

/// Bytes the kernel keeps at the top of a new process's memory: a word for
/// the pointer of each container, and the ring of pending tasks.
pub open spec fn kernel_reserve(container_count: usize) -> int {
    WORD_SIZE * container_count + CALLBACK_LEN * vstd::layout::size_of::<Task>()
}

/// The memory of a new process for an application needing `h`: the
/// smallest power of two at least as large as what it asks for.
pub open spec fn app_ram_size(h: TbfHeader) -> nat {
    pow2_ceil(header_min_ram(h) as nat)
}

/// An enabled application with header `h`, whose flash `flash` starts at
/// `flash_addr`, can be given a process in the free memory of `mem_size`
/// bytes at `mem`, with `container_count` containers: its RAM need is at
/// least one byte and at most 2 GiB (for version 1 also computable in 32
/// bits), its memory fits in the free memory, its flash and name lie in the
/// given bytes and in the 32-bit address space, its entry point is a Thumb
/// address (odd), it can be loaded, and its memory holds what the kernel
/// keeps at its top.
#[verifier::opaque]
pub open spec fn creatable(
    h: TbfHeader,
    flash: Seq<u8>,
    flash_addr: usize,
    mem: usize,
    mem_size: usize,
    container_count: usize,
) -> bool {
    let ram = app_ram_size(h);
    &&& h matches TbfHeader::TbfHeaderV1(hd) ==> v1_ram_size(hd) <= u32::MAX && hd.pkg_name_offset
        + hd.pkg_name_size <= flash.len()
    &&& 1 <= header_min_ram(h) <= 0x8000_0000
    &&& ram <= mem_size
    &&& header_total_size(h) <= flash.len()
    &&& flash_addr + header_total_size(h) <= u32::MAX
    &&& flash_addr + header_init_offset(h) <= usize::MAX
    &&& ((flash_addr + header_init_offset(h)) as usize) & 1usize == 1usize
    &&& loadable(h, flash, flash_addr, ram as int, mem, mem_size)
    &&& kernel_reserve(container_count) <= ram
}

/// `p` is the process created for the application with header `h`: its
/// memory at `mem` is loaded as `load` does and has the container pointers
/// at its top cleared; the kernel's break lies below them and the task
/// ring; it is yielded, about to run its entry point with the addresses of
/// its memory, its break and the kernel's break as arguments.
#[verifier::opaque]
pub open spec fn created(
    p: Process,
    h: TbfHeader,
    flash: Seq<u8>,
    flash_addr: usize,
    mem: usize,
    container_count: usize,
    fault_response: FaultResponse,
) -> bool {
    let ram = app_ram_size(h);
    let lo = load_outcome(h, flash, flash_addr, zeros(ram), mem)->0;
    let sp = lo.0 as usize;
    let sbrk = lo.1 as usize;
    let kmb = (mem + ram - kernel_reserve(container_count)) as usize;
    let init_fn = (flash_addr + header_init_offset(h)) as usize;
    &&& p.wf()
    &&& p.memory_start == mem
    &&& p.memory@ == splice(lo.2, ram - WORD_SIZE * container_count, zeros((WORD_SIZE * container_count) as nat))
    &&& p.header == h
    &&& p.kernel_memory_break == kmb
    &&& p.app_break == sbrk
    &&& p.current_stack_pointer == sp
    &&& p.text_start == flash_addr
    &&& p.text@ == flash.subrange(0, header_total_size(h) as int)
    &&& p.stored_regs == (StoredRegs { r4: 0, r5: 0, r6: 0, r7: 0, r8: 0, r9: 0, r10: 0, r11: 0 })
    &&& p.yield_pc == init_fn
    &&& p.psr == 0x0100_0000
    &&& p.state == State::Yielded
    &&& p.fault_response == fault_response
    &&& p.mpu_regions@ == Seq::new(MPU_REGION_SLOTS as nat, |i: int| (0usize, 1u32))
    &&& p.tasks@ == seq![Task::FunctionCall(FunctionCall { pc: init_fn, r0: mem, r1: sbrk, r2: kmb, r3: 0 })]
    &&& p.package_name@ == package_name_of(h, flash)
    &&& p.debug == (ProcessDebug {
        app_heap_start_pointer: if header_needs_pic(h) {
            Some(sbrk)
        } else {
            None
        },
        app_stack_start_pointer: if header_needs_pic(h) {
            Some(sp)
        } else {
            None
        },
        min_stack_pointer: sp,
        syscall_count: 0,
        last_syscall: None,
    })
}

fn zeroed(n: usize) -> (r: Vec<u8>)
    ensures
        r@ == zeros(n as nat),
{
    let mut v: Vec<u8> = Vec::new();
    let mut i: usize = 0;
    while i < n
        invariant
            i <= n,
            v@ == zeros(i as nat),
        decreases n - i,
    {
        v.push(0);
        i = i + 1;
        assert(v@ =~= zeros(i as nat));
    }
    v
}

impl Process {
    /// Creates the process for the application whose flash `app_flash`
    /// starts at `app_flash_address`, in the free memory of
    /// `remaining_app_memory_size` bytes at `remaining_app_memory`, with
    /// `container_count` containers, and counts its first task as work.
    /// Gives the process, if any, and how far to advance in flash and in
    /// memory: nothing when there is no valid header; past the flash of
    /// padding or of a disabled application, with no process; else the
    /// process, past its flash and its memory.
    pub fn create(
        app_flash: &[u8],
        app_flash_address: usize,
        remaining_app_memory: usize,
        remaining_app_memory_size: usize,
        fault_response: FaultResponse,
        container_count: usize,
        work: &mut WorkCount,
    ) -> (r: (Option<Process>, usize, usize))
        requires
            !(tbf_parse(app_flash@) is Stuck),
            forall|h: TbfHeader|
                #[trigger] parsed_as(Some(h), tbf_parse(app_flash@)) && app_enabled(h) ==> creatable(
                    h,
                    app_flash@,
                    app_flash_address,
                    remaining_app_memory,
                    remaining_app_memory_size,
                    container_count,
                ),
            old(work).count < usize::MAX,
        ensures
            tbf_parse(app_flash@) is Invalid ==> r.0 is None && r.1 == 0 && r.2 == 0 && *final(work)
                == *old(work),
            !(tbf_parse(app_flash@) is Invalid) ==> r.1 == parse_total(tbf_parse(app_flash@)) && (r.0
                is Some <==> parse_enabled(tbf_parse(app_flash@))),
            r.0 is Some ==> r.2 == pow2_ceil(parse_min_ram(tbf_parse(app_flash@)) as nat)
                && final(work).count == old(work).count + 1,
            r.0 is None ==> r.2 == 0 && *final(work) == *old(work),
            r.0 matches Some(p) ==> parsed_as(Some(p.header), tbf_parse(app_flash@)) && created(
                p,
                p.header,
                app_flash@,
                app_flash_address,
                remaining_app_memory,
                container_count,
                fault_response,
            ),
    {
        match parse_and_validate_tbf_header(app_flash) {
            None => (None, 0, 0),
            Some(tbf_header) => {
                let ghost h = tbf_header;
                assert(parsed_as(Some(h), tbf_parse(app_flash@)));
                proof {
                    lemma_parsed_fields(h, tbf_parse(app_flash@));
                }
                let app_flash_size = tbf_header.get_total_size() as usize;
                if !tbf_header.is_app() || !tbf_header.enabled() {
                    return (None, app_flash_size, 0);
                }
                assert(creatable(
                    h,
                    app_flash@,
                    app_flash_address,
                    remaining_app_memory,
                    remaining_app_memory_size,
                    container_count,
                ));
                proof {
                    reveal(creatable);
                }
                let min_app_ram_size = tbf_header.get_minimum_app_ram_size();
                let package_name = tbf_header.get_package_name(app_flash);
                let init_fn = app_flash_address + tbf_header.get_init_function_offset() as usize;
                let needs_pic_fixup = tbf_header.needs_pic_fixup();
                let app_ram_size = closest_power_of_two(min_app_ram_size) as usize;
                let mut memory = zeroed(app_ram_size);
                match load(
                    tbf_header,
                    app_flash,
                    app_flash_address,
                    &mut memory,
                    remaining_app_memory,
                    remaining_app_memory_size,
                ) {
                    None => (None, 0, 0),
                    Some(load_result) => {
                        let mut kernel_memory_break = remaining_app_memory + app_ram_size;
                        let container_ptrs_size = container_count * WORD_SIZE;
                        kernel_memory_break = kernel_memory_break - container_ptrs_size;
                        zero_bytes(&mut memory, app_ram_size - container_ptrs_size, container_ptrs_size);
                        let callback_size = core::mem::size_of::<Task>();
                        let callback_offset = CALLBACK_LEN * callback_size;
                        kernel_memory_break = kernel_memory_break - callback_offset;
                        let mut ring: Vec<Task> = Vec::new();
                        let mut i: usize = 0;
                        while i < CALLBACK_LEN
                            invariant
                                i <= CALLBACK_LEN,
                                ring@.len() == i,
                            decreases CALLBACK_LEN - i,
                        {
                            ring.push(Task::FunctionCall(FunctionCall { r0: 0, r1: 0, r2: 0, r3: 0, pc: 0 }));
                            i = i + 1;
                        }
                        let tasks = RingBuffer::new(ring);
                        let mut mpu_regions: Vec<(usize, u32)> = Vec::new();
                        let mut j: usize = 0;
                        while j < MPU_REGION_SLOTS
                            invariant
                                j <= MPU_REGION_SLOTS,
                                mpu_regions@ == Seq::new(j as nat, |k: int| (0usize, 1u32)),
                            decreases MPU_REGION_SLOTS - j,
                        {
                            mpu_regions.push((0, 1));
                            j = j + 1;
                            assert(mpu_regions@ =~= Seq::new(j as nat, |k: int| (0usize, 1u32)));
                        }
                        let mut app_heap_start_pointer = None;
                        let mut app_stack_start_pointer = None;
                        if needs_pic_fixup {
                            app_heap_start_pointer = Some(load_result.initial_sbrk_pointer);
                            app_stack_start_pointer = Some(load_result.initial_stack_pointer);
                        }
                        let text = slice_to_vec(slice_subrange(app_flash, 0, app_flash_size));
                        let mut process = Process {
                            memory_start: remaining_app_memory,
                            memory,
                            header: load_result.header,
                            kernel_memory_break,
                            app_break: load_result.initial_sbrk_pointer,
                            current_stack_pointer: load_result.initial_stack_pointer,
                            text_start: app_flash_address,
                            text,
                            stored_regs: StoredRegs { r4: 0, r5: 0, r6: 0, r7: 0, r8: 0, r9: 0, r10: 0, r11: 0 },
                            yield_pc: init_fn,
                            psr: 0x0100_0000,
                            state: State::Yielded,
                            fault_response,
                            mpu_regions,
                            tasks,
                            package_name,
                            debug: ProcessDebug {
                                app_heap_start_pointer,
                                app_stack_start_pointer,
                                min_stack_pointer: load_result.initial_stack_pointer,
                                syscall_count: 0,
                                last_syscall: None,
                            },
                        };
                        let first = Task::FunctionCall(
                            FunctionCall {
                                pc: init_fn,
                                r0: process.memory_start,
                                r1: process.app_break,
                                r2: process.kernel_memory_break,
                                r3: 0,
                            },
                        );
                        process.tasks.enqueue(first);
                        assert(process.tasks@ =~= seq![first]);
                        proof {
                            reveal(created);
                        }
                        work.count = work.count + 1;
                        (Some(process), app_flash_size, app_ram_size)
                    },
                }
            },
        }
    }
}

/// The flash bytes from `off` on; none past the end.
pub open spec fn flash_from(flash: Seq<u8>, off: int) -> Seq<u8> {
    if 0 <= off <= flash.len() {
        flash.subrange(off, flash.len() as int)
    } else {
        Seq::empty()
    }
}

/// The memory a parsed header takes: its RAM when it is an enabled
/// application, else none.
pub open spec fn parse_ram(p: TbfParse) -> int {
    if parse_enabled(p) {
        pow2_ceil(parse_min_ram(p) as nat) as int
    } else {
        0
    }
}

/// Loading the applications in `flash` (at `start`) from offset `off`, into
/// process slots `i` to `n`, with `size` bytes of memory free at `mem`,
/// runs without fault: at each step the header there is one the parser can
/// process, the next application's address stays in range, and an enabled
/// application can be created. The walk stops at the first place without a
/// valid header.
#[verifier::opaque]
pub open spec fn boot_ok(
    flash: Seq<u8>,
    start: usize,
    off: int,
    mem: int,
    size: int,
    i: nat,
    n: nat,
    container_count: usize,
) -> bool
    decreases n - i,
{
    if i >= n {
        true
    } else {
        let s = flash_from(flash, off);
        let p = tbf_parse(s);
        if p is Invalid {
            true
        } else if p is Stuck {
            false
        } else {
            &&& start + off + parse_total(p) <= usize::MAX
            &&& parse_ram(p) <= size
            &&& forall|h: TbfHeader|
                #[trigger] parsed_as(Some(h), p) && app_enabled(h) ==> creatable(
                    h,
                    s,
                    (start + off) as usize,
                    mem as usize,
                    size as usize,
                    container_count,
                )
            &&& boot_ok(
                flash,
                start,
                off + parse_total(p),
                mem + parse_ram(p),
                size - parse_ram(p),
                i + 1,
                n,
                container_count,
            )
        }
    }
}

/// Where the process in slot `k` comes from when loading from offset `off`
/// into slots `i` to `n`: the flash offset and memory address of the
/// application created there, or none when the slot is left as it was.
#[verifier::opaque]
pub open spec fn boot_slot(
    flash: Seq<u8>,
    off: int,
    mem: int,
    size: int,
    i: nat,
    n: nat,
    k: nat,
) -> Option<(int, int)>
    decreases n - i,
{
    if i >= n || k < i {
        None
    } else {
        let p = tbf_parse(flash_from(flash, off));
        if p is Invalid || p is Stuck {
            None
        } else if k == i {
            if parse_enabled(p) {
                Some((off, mem))
            } else {
                None
            }
        } else {
            boot_slot(flash, off + parse_total(p), mem + parse_ram(p), size - parse_ram(p), i + 1, n, k)
        }
    }
}

/// The number of processes created when loading from offset `off` into
/// slots `i` to `n`.
#[verifier::opaque]
pub open spec fn boot_count(flash: Seq<u8>, off: int, mem: int, size: int, i: nat, n: nat) -> nat
    decreases n - i,
{
    if i >= n {
        0
    } else {
        let p = tbf_parse(flash_from(flash, off));
        if p is Invalid || p is Stuck {
            0
        } else {
            (if parse_enabled(p) {
                1nat
            } else {
                0nat
            }) + boot_count(
                flash,
                off + parse_total(p),
                mem + parse_ram(p),
                size - parse_ram(p),
                i + 1,
                n,
            )
        }
    }
}

/// What slot `entry` holds after loading, given what it held before and
/// the plan for it: as before when no application is created there, else a
/// process created for the application at the planned flash offset and
/// memory address.
#[verifier::opaque]
pub open spec fn slot_loaded(
    entry: Option<Process>,
    before: Option<Process>,
    plan: Option<(int, int)>,
    flash: Seq<u8>,
    start: usize,
    container_count: usize,
    fault_response: FaultResponse,
) -> bool {
    match plan {
        None => entry == before,
        Some((o, m)) => entry matches Some(p) && parsed_as(Some(p.header), tbf_parse(flash_from(flash, o)))
            && created(
            p,
            p.header,
            flash_from(flash, o),
            (start + o) as usize,
            m as usize,
            container_count,
            fault_response,
        ),
    }
}

/// One step of the walk past a valid header: the slot it plans, and the
/// plan and count of the rest.
proof fn lemma_boot_step(
    flash: Seq<u8>,
    start: usize,
    off: int,
    mem: int,
    size: int,
    i: nat,
    n: nat,
    container_count: usize,
)
    requires
        i < n,
        !(tbf_parse(flash_from(flash, off)) is Invalid),
        boot_ok(flash, start, off, mem, size, i, n, container_count),
    ensures
        ({
            let p = tbf_parse(flash_from(flash, off));
            let off2 = off + parse_total(p);
            let mem2 = mem + parse_ram(p);
            let size2 = size - parse_ram(p);
            &&& !(p is Stuck)
            &&& start + off + parse_total(p) <= usize::MAX
            &&& forall|h: TbfHeader|
                #[trigger] parsed_as(Some(h), p) && app_enabled(h) ==> creatable(
                    h,
                    flash_from(flash, off),
                    (start + off) as usize,
                    mem as usize,
                    size as usize,
                    container_count,
                )
            &&& boot_ok(flash, start, off2, mem2, size2, i + 1, n, container_count)
            &&& boot_slot(flash, off, mem, size, i, n, i) == if parse_enabled(p) {
                Some((off, mem))
            } else {
                None
            }
            &&& forall|k: nat|
                i < k < n ==> #[trigger] boot_slot(flash, off, mem, size, i, n, k) == boot_slot(
                    flash,
                    off2,
                    mem2,
                    size2,
                    i + 1,
                    n,
                    k,
                )
            &&& boot_count(flash, off, mem, size, i, n) == (if parse_enabled(p) {
                1nat
            } else {
                0nat
            }) + boot_count(flash, off2, mem2, size2, i + 1, n)
        }),
{
    reveal(boot_ok);
    reveal(boot_slot);
    reveal(boot_count);
}

/// The walk stops at an invalid header: nothing more is planned or created.
proof fn lemma_boot_stop(flash: Seq<u8>, off: int, mem: int, size: int, i: nat, n: nat)
    requires
        tbf_parse(flash_from(flash, off)) is Invalid,
    ensures
        boot_count(flash, off, mem, size, i, n) == 0,
        forall|k: nat| #[trigger] boot_slot(flash, off, mem, size, i, n, k) is None,
{
    reveal(boot_slot);
    reveal(boot_count);
}

/// A process the walk creates gets memory inside the free memory it starts
/// with.
pub proof fn lemma_boot_slot_in_memory(
    flash: Seq<u8>,
    start: usize,
    off: int,
    mem: int,
    size: int,
    i: nat,
    n: nat,
    container_count: usize,
    k: nat,
)
    requires
        boot_ok(flash, start, off, mem, size, i, n, container_count),
        boot_slot(flash, off, mem, size, i, n, k) is Some,
    ensures
        ({
            let (o, m) = boot_slot(flash, off, mem, size, i, n, k)->0;
            &&& mem <= m
            &&& m + parse_ram(tbf_parse(flash_from(flash, o))) <= mem + size
        }),
    decreases n - i,
{
    reveal(boot_ok);
    reveal(boot_slot);
    let p = tbf_parse(flash_from(flash, off));
    if k != i {
        lemma_boot_slot_in_memory(
            flash,
            start,
            off + parse_total(p),
            mem + parse_ram(p),
            size - parse_ram(p),
            i + 1,
            n,
            container_count,
            k,
        );
    }
}

/// The processes the walk creates get memory one after another, never
/// overlapping: the memory of an earlier slot ends before that of a later
/// one starts.
pub proof fn lemma_boot_memory_disjoint(
    flash: Seq<u8>,
    start: usize,
    off: int,
    mem: int,
    size: int,
    i: nat,
    n: nat,
    container_count: usize,
    k1: nat,
    k2: nat,
)
    requires
        boot_ok(flash, start, off, mem, size, i, n, container_count),
        k1 < k2,
        boot_slot(flash, off, mem, size, i, n, k1) is Some,
        boot_slot(flash, off, mem, size, i, n, k2) is Some,
    ensures
        ({
            let (o1, m1) = boot_slot(flash, off, mem, size, i, n, k1)->0;
            let (o2, m2) = boot_slot(flash, off, mem, size, i, n, k2)->0;
            m1 + parse_ram(tbf_parse(flash_from(flash, o1))) <= m2
        }),
    decreases n - i,
{
    reveal(boot_ok);
    reveal(boot_slot);
    let p = tbf_parse(flash_from(flash, off));
    let off2 = off + parse_total(p);
    let mem2 = mem + parse_ram(p);
    let size2 = size - parse_ram(p);
    if k1 == i {
        lemma_boot_slot_in_memory(flash, start, off2, mem2, size2, i + 1, n, container_count, k2);
    } else {
        lemma_boot_memory_disjoint(flash, start, off2, mem2, size2, i + 1, n, container_count, k1, k2);
    }
}

/// A walk with no slots left plans and creates nothing.
proof fn lemma_boot_done(flash: Seq<u8>, off: int, mem: int, size: int, n: nat)
    ensures
        boot_count(flash, off, mem, size, n, n) == 0,
{
    reveal(boot_count);
}

/// Creates a process for each application in the flash `flash`, which
/// starts at `start_of_flash`, giving each its memory in turn from the
/// `app_memory_size` bytes at `app_memory_start`, into the slots of `procs`
/// in order. Padding and disabled applications are stepped over, leaving
/// their slot as it was; the walk stops at the first place without a valid
/// header or when the slots run out.
#[verifier::rlimit(60)]
pub fn load_processes(
    flash: &[u8],
    start_of_flash: usize,
    app_memory_start: usize,
    app_memory_size: usize,
    procs: &mut Vec<Option<Process>>,
    fault_response: FaultResponse,
    container_count: usize,
    work: &mut WorkCount,
)
    requires
        boot_ok(
            flash@,
            start_of_flash,
            0,
            app_memory_start as int,
            app_memory_size as int,
            0,
            old(procs)@.len(),
            container_count,
        ),
        old(work).count + old(procs)@.len() < usize::MAX,
    ensures
        final(procs)@.len() == old(procs)@.len(),
        final(work).count == old(work).count + boot_count(
            flash@,
            0,
            app_memory_start as int,
            app_memory_size as int,
            0,
            old(procs)@.len(),
        ),
        forall|k: int|
            0 <= k < old(procs)@.len() ==> slot_loaded(
                #[trigger] final(procs)@[k],
                old(procs)@[k],
                boot_slot(
                    flash@,
                    0,
                    app_memory_start as int,
                    app_memory_size as int,
                    0,
                    old(procs)@.len(),
                    k as nat,
                ),
                flash@,
                start_of_flash,
                container_count,
                fault_response,
            ),
{
    let n = procs.len();
    let ghost init_mem = app_memory_start as int;
    let ghost init_size = app_memory_size as int;
    let ghost before = procs@;
    let mut off: usize = 0;
    let mut mem = app_memory_start;
    let mut size = app_memory_size;
    let mut i: usize = 0;
    proof {
        lemma_boot_done(flash@, 0, init_mem, init_size, n as nat);
    }
    while i < n
        invariant_except_break
            i <= n,
            n == procs@.len(),
            before == old(procs)@,
            n == before.len(),
            boot_ok(flash@, start_of_flash, off as int, mem as int, size as int, i as nat, n as nat, container_count),
            forall|k: nat|
                i <= k < n ==> boot_slot(flash@, 0, init_mem, init_size, 0, n as nat, k)
                    == #[trigger] boot_slot(flash@, off as int, mem as int, size as int, i as nat, n as nat, k),
            forall|k: int| i <= k < n ==> #[trigger] procs@[k] == before[k],
            forall|k: int|
                0 <= k < i ==> slot_loaded(
                    #[trigger] procs@[k],
                    before[k],
                    boot_slot(flash@, 0, init_mem, init_size, 0, n as nat, k as nat),
                    flash@,
                    start_of_flash,
                    container_count,
                    fault_response,
                ),
            work.count + boot_count(flash@, off as int, mem as int, size as int, i as nat, n as nat)
                == old(work).count + boot_count(flash@, 0, init_mem, init_size, 0, n as nat),
            work.count <= old(work).count + i,
            old(work).count + n < usize::MAX,
            i < n || boot_count(flash@, off as int, mem as int, size as int, i as nat, n as nat) == 0,
            start_of_flash + off <= usize::MAX,
        ensures
            procs@.len() == before.len(),
            work.count == old(work).count + boot_count(flash@, 0, init_mem, init_size, 0, n as nat),
            forall|k: int|
                0 <= k < n ==> slot_loaded(
                    #[trigger] procs@[k],
                    before[k],
                    boot_slot(flash@, 0, init_mem, init_size, 0, n as nat, k as nat),
                    flash@,
                    start_of_flash,
                    container_count,
                    fault_response,
                ),
        decreases n - i,
    {
        let rest = if off <= flash.len() {
            slice_subrange(flash, off, flash.len())
        } else {
            slice_subrange(flash, 0, 0)
        };
        assert(rest@ == flash_from(flash@, off as int));
        let ghost p = tbf_parse(rest@);
        let ghost off0 = off as int;
        let ghost mem0 = mem as int;
        let ghost size0 = size as int;
        let ghost i0 = i as nat;
        proof {
            if p is Invalid {
                lemma_boot_stop(flash@, off as int, mem as int, size as int, i as nat, n as nat);
            } else {
                lemma_boot_step(flash@, start_of_flash, off as int, mem as int, size as int, i as nat, n as nat, container_count);
            }
        }
        let (process, flash_offset, memory_offset) = Process::create(
            rest,
            start_of_flash + off,
            mem,
            size,
            fault_response,
            container_count,
            work,
        );
        proof {
            if !(p is Invalid) {
                assert(flash_offset as int == parse_total(p));
                assert(memory_offset as int == parse_ram(p));
            }
        }
        match process {
            None => {
                if flash_offset == 0 && memory_offset == 0 {
                    assert(p is Invalid);
                    assert forall|k: int| 0 <= k < n implies slot_loaded(
                        #[trigger] procs@[k],
                        before[k],
                        boot_slot(flash@, 0, init_mem, init_size, 0, n as nat, k as nat),
                        flash@,
                        start_of_flash,
                        container_count,
                        fault_response,
                    ) by {
                        if k >= i {
                            assert(boot_slot(flash@, off as int, mem as int, size as int, i as nat, n as nat, k as nat) is None);
                            reveal(slot_loaded);
                        }
                    }
                    break;
                }
            },
            Some(pr) => {
                proof {
                    lemma_parsed_fields(pr.header, p);
                    assert(creatable(
                        pr.header,
                        rest@,
                        (start_of_flash + off) as usize,
                        mem,
                        size,
                        container_count,
                    ));
                    reveal(creatable);
                }
                procs.set(i, Some(pr));
            },
        }
        proof {
            assert(boot_slot(flash@, 0, init_mem, init_size, 0, n as nat, i0) == boot_slot(
                flash@,
                off0,
                mem0,
                size0,
                i0,
                n as nat,
                i0,
            ));
            assert(slot_loaded(
                procs@[i0 as int],
                before[i0 as int],
                boot_slot(flash@, 0, init_mem, init_size, 0, n as nat, i0),
                flash@,
                start_of_flash,
                container_count,
                fault_response,
            )) by {
                reveal(slot_loaded);
            }
        }
        off = off + flash_offset;
        mem = mem + memory_offset;
        size = size - memory_offset;
        i = i + 1;
        proof {
            assert forall|k: nat| i <= k < n implies boot_slot(flash@, 0, init_mem, init_size, 0, n as nat, k)
                == #[trigger] boot_slot(flash@, off as int, mem as int, size as int, i as nat, n as nat, k) by {
                assert(boot_slot(flash@, 0, init_mem, init_size, 0, n as nat, k) == boot_slot(
                    flash@,
                    off0,
                    mem0,
                    size0,
                    i0,
                    n as nat,
                    k,
                ));
            }
            lemma_boot_done(flash@, off as int, mem as int, size as int, n as nat);
        }
    }
}

} // verus!
