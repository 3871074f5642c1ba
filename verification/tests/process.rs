use lib::callback::AppId;
use lib::common::math::{closest_power_of_two, power_of_two};
use lib::common::ring_buffer::RingBuffer;
use lib::process::app::{
    fault_status, get_editable_flash_range, processes_blocked, schedule, Process, Task, WorkCount,
};
use lib::process::load::load_processes;
use lib::process::{Error, FaultResponse, FunctionCall, IPCType, State, TbfHeader};
use lib::returncode::ReturnCode;
use lib::syscall::Syscall;

const FLASH: usize = 0x40000;
const RAM: usize = 0x2000_0000;

fn put32(v: &mut Vec<u8>, x: u32) {
    v.extend_from_slice(&x.to_le_bytes());
}

fn put16(v: &mut Vec<u8>, x: u16) {
    v.extend_from_slice(&x.to_le_bytes());
}

fn word(mem: &[u8], off: usize) -> u32 {
    u32::from_le_bytes([mem[off], mem[off + 1], mem[off + 2], mem[off + 3]])
}

fn v2_header(options: &[u8], total_size: u32, flags: u32) -> Vec<u8> {
    let header_size = (16 + options.len()) as u16;
    let mut h = Vec::new();
    put16(&mut h, 2);
    put16(&mut h, header_size);
    put32(&mut h, total_size);
    put32(&mut h, flags);
    put32(&mut h, 0);
    h.extend_from_slice(options);
    let mut checksum = 0u32;
    for (i, w) in h.chunks(4).enumerate() {
        if i != 3 {
            checksum ^= u32::from_le_bytes([w[0], w[1], w[2], w[3]]);
        }
    }
    h[12..16].copy_from_slice(&checksum.to_le_bytes());
    h
}

/// A version 2 application of 0x200 bytes, without PIC fixup, entry at
/// offset 0x41, 0x20 protected bytes, asking for 3000 bytes of RAM.
fn v2_app(flags: u32) -> Vec<u8> {
    v2_app_with_ram(flags, 3000)
}

/// As `v2_app`, asking for `min_ram` bytes of RAM.
fn v2_app_with_ram(flags: u32, min_ram: u32) -> Vec<u8> {
    let mut opts = Vec::new();
    put16(&mut opts, 1);
    put16(&mut opts, 12);
    put32(&mut opts, 0x41);
    put32(&mut opts, 0x20);
    put32(&mut opts, min_ram);
    put16(&mut opts, 3);
    put16(&mut opts, 5);
    opts.extend_from_slice(b"blink\0\0\0");
    let mut flash = v2_header(&opts, 0x200, flags);
    flash.resize(0x200, 0);
    flash
}

/// A version 1 application with a two-entry GOT, two data words, one
/// relocation and a BSS of 8 bytes.
fn v1_app() -> Vec<u8> {
    let fields: [u32; 18] = [
        1,     // version
        0x100, // total size
        0x51,  // entry offset
        0x70,  // relocation data offset
        8,     // relocation data size
        0x50,  // text offset
        0x10,  // text size
        0x60,  // GOT offset
        8,     // GOT size
        0x68,  // data offset
        8,     // data size
        16,    // BSS memory offset
        8,     // BSS size
        0x80,  // minimum stack length
        0x100, // minimum application heap
        0x100, // minimum kernel heap
        0x78,  // name offset
        4,     // name size
    ];
    let mut h = Vec::new();
    let mut checksum = 0u32;
    for f in fields.iter() {
        put32(&mut h, *f);
        checksum ^= *f;
    }
    put32(&mut h, checksum);
    h.resize(0x100, 0);
    h[0x60..0x64].copy_from_slice(&0x10u32.to_le_bytes());
    h[0x64..0x68].copy_from_slice(&0x8000_0004u32.to_le_bytes());
    h[0x68..0x6c].copy_from_slice(&0x1122_3344u32.to_le_bytes());
    h[0x6c..0x70].copy_from_slice(&8u32.to_le_bytes());
    h[0x70..0x74].copy_from_slice(&12u32.to_le_bytes());
    h[0x74..0x78].copy_from_slice(&0u32.to_le_bytes());
    h[0x78..0x7c].copy_from_slice(b"test");
    h
}

fn task_reserve() -> usize {
    10 * std::mem::size_of::<Task>()
}

fn new_v2_process(work: &mut WorkCount) -> Process {
    let flash = v2_app(1);
    let (p, flash_step, mem_step) = Process::create(&flash, FLASH, RAM, 0x10000, FaultResponse::Panic, 2, work);
    assert_eq!((flash_step, mem_step), (0x200, 4096));
    p.expect("process")
}

#[test]
fn ring_buffer_is_a_bounded_fifo() {
    let mut q = RingBuffer::new(vec![0u8; 4]);
    assert!(!q.has_elements());
    assert!(q.enqueue(1));
    assert!(q.enqueue(2));
    assert!(q.enqueue(3));
    assert!(q.is_full());
    assert!(!q.enqueue(4));
    assert_eq!(q.len(), 3);
    assert_eq!(q.dequeue(), Some(1));
    assert!(q.enqueue(4));
    assert_eq!(q.dequeue(), Some(2));
    assert_eq!(q.dequeue(), Some(3));
    assert_eq!(q.dequeue(), Some(4));
    assert_eq!(q.dequeue(), None);
    assert!(!q.has_elements());
    assert_eq!(q.len(), 0);
}

#[test]
fn powers_of_two() {
    assert_eq!(closest_power_of_two(1), 1);
    assert_eq!(closest_power_of_two(2), 2);
    assert_eq!(closest_power_of_two(3), 4);
    assert_eq!(closest_power_of_two(1000), 1024);
    assert_eq!(closest_power_of_two(4096), 4096);
    assert_eq!(closest_power_of_two(4097), 8192);
    assert_eq!(closest_power_of_two(0x8000_0000), 0x8000_0000);
    assert!(power_of_two(16));
    assert!(power_of_two(1));
    assert!(power_of_two(0x8000_0000));
    assert!(!power_of_two(24));
    assert!(!power_of_two(0));
}

#[test]
fn return_code_numbers() {
    assert_eq!(ReturnCode::SUCCESS.to_isize(), 0);
    assert_eq!(ReturnCode::FAIL.to_isize(), -1);
    assert_eq!(ReturnCode::EBUSY.to_isize(), -2);
    assert_eq!(ReturnCode::ENOMEM.to_isize(), -9);
    assert_eq!(ReturnCode::ENOACK.to_isize(), -13);
    assert_eq!(ReturnCode::SuccessWithValue { value: 42 }.to_isize(), 42);
}

#[test]
fn app_ids() {
    assert_eq!(AppId::new(3).idx(), 3);
    assert_eq!(AppId::new(3), AppId::new(3));
}

#[test]
fn create_v2_application() {
    let mut work = WorkCount::new();
    let mut p = new_v2_process(&mut work);
    assert_eq!(work.count, 1);
    assert!(!processes_blocked(&work));
    assert_eq!(p.mem_start(), RAM);
    assert_eq!(p.mem_end(), RAM + 4096);
    assert_eq!(p.memory.len(), 4096);
    assert_eq!(p.app_break, RAM + 64);
    assert_eq!(p.sp(), RAM + 64);
    let kmb = RAM + 4096 - 8 - task_reserve();
    assert_eq!(p.kernel_memory_break(), kmb);
    assert_eq!(p.yield_pc, FLASH + 0x41);
    assert_eq!(p.psr, 0x0100_0000);
    assert_eq!(p.current_state(), State::Yielded);
    assert_eq!(p.package_name, b"blink".to_vec());
    assert_eq!(p.flash_start(), FLASH);
    assert_eq!(p.flash_non_protected_start(), FLASH + 0x20);
    assert_eq!(p.flash_end(), FLASH + 0x200);
    assert_eq!(p.number_writeable_flash_regions(), 0);
    assert_eq!(p.debug.app_heap_start_pointer, None);
    assert_eq!(p.debug.min_stack_pointer, RAM + 64);
    assert!(p.memory.iter().all(|b| *b == 0));
    match p.dequeue_task(&mut work) {
        Some(Task::FunctionCall(fc)) => {
            assert_eq!(fc.pc, FLASH + 0x41);
            assert_eq!(fc.r0, RAM);
            assert_eq!(fc.r1, RAM + 64);
            assert_eq!(fc.r2, kmb);
            assert_eq!(fc.r3, 0);
        }
        _ => panic!("expected the entry call"),
    }
    assert_eq!(work.count, 0);
    assert!(processes_blocked(&work));
    assert!(p.dequeue_task(&mut work).is_none());
}

#[test]
fn create_skips_padding_disabled_and_invalid() {
    let mut work = WorkCount::new();
    let disabled = v2_app(0);
    let (p, f, m) = Process::create(&disabled, FLASH, RAM, 0x10000, FaultResponse::Panic, 2, &mut work);
    assert!(p.is_none());
    assert_eq!((f, m), (0x200, 0));
    let padding = v2_header(&[], 0x300, 0);
    let (p, f, m) = Process::create(&padding, FLASH, RAM, 0x10000, FaultResponse::Panic, 2, &mut work);
    assert!(p.is_none());
    assert_eq!((f, m), (0x300, 0));
    let (p, f, m) = Process::create(&[0xff; 64], FLASH, RAM, 0x10000, FaultResponse::Panic, 2, &mut work);
    assert!(p.is_none());
    assert_eq!((f, m), (0, 0));
    assert_eq!(work.count, 0);
}

#[test]
fn create_v1_application_with_pic_fixup() {
    let mut work = WorkCount::new();
    let flash = v1_app();
    let (p, f, m) = Process::create(&flash, FLASH, RAM, 0x10000, FaultResponse::Restart, 2, &mut work);
    let p = p.expect("process");
    // RAM: align8(8 + 8 + 8 + 0x80) + 0x100 + 0x100 = 0x298, rounded up.
    assert_eq!((f, m), (0x100, 1024));
    assert_eq!(p.sp(), RAM + 0x80);
    assert_eq!(p.app_break, RAM + 0x98);
    assert_eq!(p.debug.app_stack_start_pointer, Some(RAM + 0x80));
    assert_eq!(p.debug.app_heap_start_pointer, Some(RAM + 0x98));
    assert_eq!(p.package_name, b"test".to_vec());
    assert_eq!(p.flash_non_protected_start(), FLASH + 76);
    let got_base = (RAM + 0x80) as u32;
    let text_start = (FLASH + 0x50) as u32;
    // GOT entries: memory-relative, then code-relative.
    assert_eq!(word(&p.memory, 0x80), 0x10 + got_base);
    assert_eq!(word(&p.memory, 0x84), 4 + text_start);
    // Data: copied, and the relocated word made absolute.
    assert_eq!(word(&p.memory, 0x88), 0x1122_3344);
    assert_eq!(word(&p.memory, 0x8c), 8 + got_base);
    // BSS zeroed.
    assert_eq!(word(&p.memory, 0x90), 0);
    assert_eq!(word(&p.memory, 0x94), 0);
    assert_eq!(p.fault_response, FaultResponse::Restart);
    match &p.header {
        TbfHeader::TbfHeaderV1(_) => {}
        _ => panic!("expected a version 1 header"),
    }
}

#[test]
fn break_moves_within_bounds() {
    let mut work = WorkCount::new();
    let mut p = new_v2_process(&mut work);
    assert_eq!(p.brk(RAM + 0x100), Ok(RAM + 64));
    assert_eq!(p.app_break, RAM + 0x100);
    assert_eq!(p.brk(RAM - 1), Err(Error::AddressOutOfBounds));
    assert_eq!(p.brk(RAM + 4096), Err(Error::AddressOutOfBounds));
    let kmb = p.kernel_memory_break();
    assert_eq!(p.brk(kmb + 4), Err(Error::OutOfMemory));
    assert_eq!(p.app_break, RAM + 0x100);
    assert_eq!(p.sbrk(-0x10), Ok(RAM + 0x100));
    assert_eq!(p.app_break, RAM + 0xf0);
    assert_eq!(p.sbrk(0x10), Ok(RAM + 0xf0));
    // Setting the break back restores it.
    let old = p.brk(RAM + 0x200).unwrap();
    assert_eq!(p.brk(old), Ok(RAM + 0x200));
    assert_eq!(p.app_break, RAM + 0x100);
}

#[test]
fn kernel_allocation_and_containers() {
    let mut work = WorkCount::new();
    let mut p = new_v2_process(&mut work);
    let kmb = p.kernel_memory_break();
    assert_eq!(p.allocate(16), Some(kmb - 16));
    assert_eq!(p.kernel_memory_break(), kmb - 16);
    assert_eq!(p.allocate(kmb - 16 - RAM), None);
    assert_eq!(p.kernel_memory_break(), kmb - 16);
    assert_eq!(p.container_for(0), 0);
    assert_eq!(p.container_for_or_alloc(0, 32), Some(kmb - 48));
    assert_eq!(p.container_for(0), kmb - 48);
    assert_eq!(word(&p.memory, 4092) as usize, kmb - 48);
    assert_eq!(p.container_for_or_alloc(0, 32), Some(kmb - 48));
    assert_eq!(p.kernel_memory_break(), kmb - 48);
    assert_eq!(p.container_for(1), 0);
    assert_eq!(p.container_for_or_alloc(1, 0x10000), None);
    assert_eq!(p.container_for(1), 0);
}

#[test]
fn exposed_bounds() {
    let mut work = WorkCount::new();
    let p = new_v2_process(&mut work);
    assert!(p.in_exposed_bounds(RAM, 4096));
    assert!(p.in_exposed_bounds(RAM + 100, 10));
    assert!(!p.in_exposed_bounds(RAM, 4097));
    assert!(!p.in_exposed_bounds(RAM - 1, 1));
}

#[test]
fn shared_memory_regions() {
    let mut work = WorkCount::new();
    let mut p = new_v2_process(&mut work);
    assert!(!p.add_mpu_region(0x2000_4000, 24));
    assert!(!p.add_mpu_region(0x2000_4000, 8));
    assert!(!p.add_mpu_region(0x2000_4010, 0x100));
    assert!(p.add_mpu_region(0x2000_4000, 0x100));
    assert_eq!(p.mpu_regions[0], (0x2000_4000, 0x100));
    // The same base only grows.
    assert!(p.add_mpu_region(0x2000_4000, 0x40));
    assert_eq!(p.mpu_regions[0], (0x2000_4000, 0x100));
    assert!(p.add_mpu_region(0x2000_4000, 0x400));
    assert_eq!(p.mpu_regions[0], (0x2000_4000, 0x400));
    for i in 1..5usize {
        assert!(p.add_mpu_region(0x2001_0000 + i * 0x1000, 0x1000));
    }
    assert!(!p.add_mpu_region(0x2002_0000, 0x1000));
    assert_eq!(p.mpu_regions[4], (0x2001_4000, 0x1000));
}

#[test]
fn push_and_pop_stack_frames() {
    let mut work = WorkCount::new();
    let mut p = new_v2_process(&mut work);
    let _ = p.dequeue_task(&mut work);
    let cb = FunctionCall { r0: 1, r1: 2, r2: 3, r3: 4, pc: 0x40100 };
    p.push_function_call(&mut work, cb);
    assert_eq!(work.count, 1);
    assert_eq!(p.current_state(), State::Running);
    assert_eq!(p.sp(), RAM + 32);
    assert_eq!(p.debug.min_stack_pointer, RAM + 32);
    assert_eq!((p.r0(), p.r1(), p.r2(), p.r3()), (1, 2, 3, 4));
    assert_eq!(p.r12(), 0);
    assert_eq!(p.lr(), FLASH + 0x41);
    assert_eq!(p.pc(), 0x40101);
    assert_eq!(p.xpsr(), 0x0100_0000);
    p.set_r0(-1);
    assert_eq!(p.r0(), 0xffff_ffff);
    p.set_return_code(ReturnCode::EBUSY);
    assert_eq!(p.r0(), 0xffff_fffe);
    p.set_return_code(ReturnCode::SuccessWithValue { value: 7 });
    assert_eq!(p.r0(), 7);
    p.pop_syscall_stack();
    assert_eq!(p.sp(), RAM + 64);
    assert_eq!(p.yield_pc, 0x40101);
    assert_eq!(p.psr, 0x0100_0000);
    assert_eq!(p.debug.min_stack_pointer, RAM + 32);
    p.yield_state(&mut work);
    assert_eq!(p.current_state(), State::Yielded);
    assert_eq!(work.count, 0);
    p.yield_state(&mut work);
    assert_eq!(work.count, 0);
}

#[test]
fn system_call_numbers() {
    let mut work = WorkCount::new();
    let mut flash = v2_app(1);
    // The halfword read two bytes below the frame's pc (which has the Thumb
    // bit set): the instruction `svc 2`.
    flash[0x7f] = 2;
    flash[0x80] = 0xdf;
    let (p, _, _) = Process::create(&flash, FLASH, RAM, 0x10000, FaultResponse::Panic, 2, &mut work);
    let mut p = p.unwrap();
    p.push_function_call(&mut work, FunctionCall { r0: 0, r1: 0, r2: 0, r3: 0, pc: FLASH + 0x80 });
    assert_eq!(p.svc_number(), Some(Syscall::COMMAND));
    p.incr_syscall_count();
    assert_eq!(p.debug.syscall_count, 1);
    assert_eq!(p.debug.last_syscall, Some(Syscall::COMMAND));
    // A pc outside the application's flash names no system call.
    p.push_function_call(&mut work, FunctionCall { r0: 0, r1: 0, r2: 0, r3: 0, pc: 0x10 });
    assert_eq!(p.svc_number(), None);
    p.incr_syscall_count();
    assert_eq!(p.debug.syscall_count, 2);
    assert_eq!(p.debug.last_syscall, None);
}

#[test]
fn queued_work_is_counted() {
    let mut work = WorkCount::new();
    let mut p = new_v2_process(&mut work);
    assert_eq!(work.count, 1);
    p.schedule_ipc(&mut work, AppId::new(1), IPCType::Client);
    assert_eq!(work.count, 2);
    assert_eq!(p.tasks.len(), 2);
    assert!(matches!(p.dequeue_task(&mut work), Some(Task::FunctionCall(_))));
    match p.dequeue_task(&mut work) {
        Some(Task::IPC((from, IPCType::Client))) => assert_eq!(from.idx(), 1),
        _ => panic!("expected the notification"),
    }
    assert_eq!(work.count, 0);
    // A full queue drops the task but still counts it.
    for _ in 0..9 {
        p.schedule_ipc(&mut work, AppId::new(0), IPCType::Service);
    }
    assert_eq!(p.tasks.len(), 9);
    p.schedule_ipc(&mut work, AppId::new(0), IPCType::Service);
    assert_eq!(p.tasks.len(), 9);
    assert_eq!(work.count, 10);
}

#[test]
fn schedule_by_app_id() {
    let mut work = WorkCount::new();
    let p = new_v2_process(&mut work);
    let mut procs = vec![Some(p), None];
    let cb = FunctionCall { r0: 9, r1: 0, r2: 0, r3: 0, pc: FLASH + 0x81 };
    assert!(schedule(&mut procs, &mut work, cb, AppId::new(0)));
    assert_eq!(work.count, 2);
    assert_eq!(procs[0].as_ref().unwrap().tasks.len(), 2);
    assert!(!schedule(&mut procs, &mut work, cb, AppId::new(1)));
    assert!(!schedule(&mut procs, &mut work, cb, AppId::new(5)));
    assert_eq!(work.count, 2);
    assert_eq!(get_editable_flash_range(&procs, 0), (FLASH + 0x20, FLASH + 0x200));
    assert_eq!(get_editable_flash_range(&procs, 1), (0, 0));
    assert_eq!(get_editable_flash_range(&procs, 7), (0, 0));
}

#[test]
fn debug_pointers_update_inside_memory() {
    let mut work = WorkCount::new();
    let mut p = new_v2_process(&mut work);
    p.update_stack_start_pointer(RAM + 0x300);
    assert_eq!(p.debug.app_stack_start_pointer, Some(RAM + 0x300));
    assert_eq!(p.debug.min_stack_pointer, RAM + 0x300);
    p.update_stack_start_pointer(RAM + 0x5000);
    assert_eq!(p.debug.app_stack_start_pointer, Some(RAM + 0x300));
    p.update_heap_start_pointer(RAM + 0x400);
    assert_eq!(p.debug.app_heap_start_pointer, Some(RAM + 0x400));
    p.update_heap_start_pointer(RAM + 4096);
    assert_eq!(p.debug.app_heap_start_pointer, Some(RAM + 0x400));
}

#[test]
fn v1_package_name_must_be_utf8() {
    let mut flash = v1_app();
    flash[0x78] = 0xff;
    let header = lib::process::tbf_parse::parse_and_validate_tbf_header(&flash).unwrap();
    assert_eq!(header.get_package_name(&flash), Vec::<u8>::new());
    let header = lib::process::tbf_parse::parse_and_validate_tbf_header(&v1_app()).unwrap();
    assert_eq!(header.get_package_name(&v1_app()), b"test".to_vec());
}

#[test]
fn boot_loads_each_application_in_turn() {
    let mut flash = v2_app(1);
    let mut padding = v2_header(&[], 0x100, 0);
    padding.resize(0x100, 0);
    flash.extend_from_slice(&padding);
    flash.extend_from_slice(&v2_app(0));
    flash.extend_from_slice(&v1_app());
    flash.extend_from_slice(&[0xff; 64]);
    let mut work = WorkCount::new();
    let mut procs: Vec<Option<Process>> = (0..6).map(|_| None).collect();
    load_processes(&flash, FLASH, RAM, 0x10000, &mut procs, FaultResponse::Panic, 2, &mut work);
    assert_eq!(work.count, 2);
    let first = procs[0].as_ref().expect("first application");
    assert_eq!(first.mem_start(), RAM);
    assert_eq!(first.memory.len(), 4096);
    assert_eq!(first.flash_start(), FLASH);
    assert!(procs[1].is_none());
    assert!(procs[2].is_none());
    let second = procs[3].as_ref().expect("version 1 application");
    assert_eq!(second.mem_start(), RAM + 4096);
    assert_eq!(second.memory.len(), 1024);
    assert_eq!(second.flash_start(), FLASH + 0x500);
    assert_eq!(second.yield_pc, FLASH + 0x551);
    assert_eq!(second.sp(), RAM + 4096 + 0x80);
    assert!(procs[4].is_none());
    assert!(procs[5].is_none());
}

#[test]
fn boot_stops_when_slots_run_out() {
    let mut flash = v2_app(1);
    flash.extend_from_slice(&v2_app(1));
    let mut work = WorkCount::new();
    let mut procs: Vec<Option<Process>> = vec![None];
    load_processes(&flash, FLASH, RAM, 0x10000, &mut procs, FaultResponse::Panic, 0, &mut work);
    assert_eq!(work.count, 1);
    assert_eq!(procs[0].as_ref().unwrap().kernel_memory_break(), RAM + 4096 - task_reserve());
}

#[test]
fn process_whose_break_lies_above_the_kernel_break_is_created() {
    // Memory just large enough for the task ring and the container
    // pointers, which leave less than the 64 bytes below the initial break.
    let reserve = task_reserve();
    let ram = reserve.next_power_of_two();
    let containers = (ram - reserve - 32) / 4;
    let flash = v2_app_with_ram(1, reserve as u32);
    let mut work = WorkCount { count: 0 };
    let (p, f, m) = Process::create(&flash, FLASH, RAM, 0x10000, FaultResponse::Panic, containers, &mut work);
    assert_eq!((f, m), (0x200, ram));
    let mut p = p.expect("process");
    assert_eq!(p.app_break, RAM + 64);
    assert_eq!(p.kernel_memory_break(), RAM + ram - reserve - 4 * containers);
    assert!(p.app_break > p.kernel_memory_break());
    // The break can still be moved below the kernel's break.
    assert_eq!(p.brk(RAM + 16), Ok(RAM + 64));
    assert_eq!(p.app_break, RAM + 16);
}

#[test]
fn fault_status_decodes_each_register_bit() {
    let f = fault_status(0, 0);
    assert!(!f.any && !f.iaccviol && !f.forced);
    let f = fault_status(0x0201_8181, 0x4000_0002);
    assert!(f.any);
    assert!(f.iaccviol && !f.daccviol && f.mmfarvalid);
    assert!(f.ibuserr && f.bfarvalid && !f.preciserr);
    assert!(f.undefinstr && f.divbyzero && !f.unaligned);
    assert!(f.vecttbl && f.forced);
    let f = fault_status(0x0100_0000, 0);
    assert!(f.unaligned && !f.divbyzero && f.any);
}

#[test]
fn statistics_of_a_fresh_process() {
    let mut work = WorkCount { count: 0 };
    let p = new_v2_process(&mut work);
    let s = p.statistics();
    assert_eq!(s.flash_start, FLASH);
    assert_eq!(s.flash_end, FLASH + 0x200);
    assert_eq!(s.flash_protected_size, 0x20);
    assert_eq!(s.flash_app_start, FLASH + 0x20);
    assert_eq!(s.flash_app_size, 0x200 - 0x20);
    assert_eq!(s.flash_init_fn, FLASH + 0x41);
    assert_eq!(s.sram_start, RAM);
    assert_eq!(s.sram_end, RAM + 4096);
    assert_eq!(s.sram_grant_start, p.kernel_memory_break());
    assert_eq!(s.sram_grant_size, RAM + 4096 - p.kernel_memory_break());
    assert_eq!(s.sram_grant_allocated, s.sram_grant_size);
    assert!(!s.sram_grant_exceeded);
    // Without PIC fixup the heap and stack starts are unknown (zero).
    assert_eq!(s.sram_heap_start, 0);
    assert_eq!(s.sram_heap_size, RAM + 64);
    assert_eq!(s.sram_heap_allocated, p.kernel_memory_break());
    assert!(!s.sram_heap_exceeded);
    // The stack size wraps around below zero.
    assert_eq!(s.sram_stack_size, 0usize.wrapping_sub(RAM + 64));
    assert_eq!(s.sram_stack_allocated, 0usize.wrapping_sub(RAM));
    assert!(!s.sram_stack_exceeded);
    assert_eq!(s.events_queued, 1);
    assert_eq!(s.syscall_count, 0);
    assert!(s.last_syscall.is_none());
}
