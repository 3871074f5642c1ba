//! Processes: their states and scheduling records, and the Tock Binary
//! Format (TBF) header that describes an application in flash.

pub mod tbf_parse;
pub mod app;
pub mod load;

use vstd::prelude::*;

verus! {

/// Errors of process memory operations.
#[derive(Copy, Clone, Debug, PartialEq, Eq, Structural)]
pub enum Error {
    NoSuchApp,
    OutOfMemory,
    AddressOutOfBounds,
}

/// The scheduling state of a process.
#[derive(Copy, Clone, Debug, PartialEq, Eq, Structural)]
pub enum State {
    Running,
    Yielded,
    Fault,
}

/// What the kernel does when a process faults.
#[derive(Copy, Clone, Debug, PartialEq, Eq, Structural)]
pub enum FaultResponse {
    Panic,
    Restart,
}

/// The side of an inter-process call a process is notified on.
#[derive(Copy, Clone, Debug)]
pub enum IPCType {
    Service,
    Client,
}

/// A callback to run in a process: its arguments and entry point.
#[derive(Copy, Clone, Debug)]
pub struct FunctionCall {
    pub r0: usize,
    pub r1: usize,
    pub r2: usize,
    pub r3: usize,
    pub pc: usize,
}

/// `x` rounded up to a multiple of 8.
pub open spec fn align8(x: int) -> int {
    x + (8 - x % 8) % 8
}

/// `x` rounded up to a multiple of 4.
pub open spec fn align4(x: int) -> int {
    x + (4 - x % 4) % 4
}

/// Rounds `x` up to a multiple of 8.
pub fn align8_u32(x: u32) -> (r: u32)
    requires
        align8(x as int) <= u32::MAX,
    ensures
        r == align8(x as int),
{
    x + ((8 - (x % 8)) % 8)
}

/// Rounds `x` up to a multiple of 4.
pub fn align4_u32(x: u32) -> (r: u32)
    requires
        align4(x as int) <= u32::MAX,
    ensures
        r == align4(x as int),
{
    x + ((4 - (x % 4)) % 4)
}

/// Version 1 (legacy) TBF header.
#[derive(Copy, Clone, Debug)]
pub struct TbfHeaderV1 {
    pub version: u32,
    pub total_size: u32,
    pub entry_offset: u32,
    pub rel_data_offset: u32,
    pub rel_data_size: u32,
    pub text_offset: u32,
    pub text_size: u32,
    pub got_offset: u32,
    pub got_size: u32,
    pub data_offset: u32,
    pub data_size: u32,
    pub bss_mem_offset: u32,
    pub bss_size: u32,
    pub min_stack_len: u32,
    pub min_app_heap_len: u32,
    pub min_kernel_heap_len: u32,
    pub pkg_name_offset: u32,
    pub pkg_name_size: u32,
    pub checksum: u32,
}

/// The size of a version 1 header in bytes.
pub const TBF_HEADER_V1_SIZE: u32 = 76;

/// The fields every version 2 header starts with.
#[derive(Copy, Clone, Debug)]
pub struct TbfHeaderV2Base {
    pub version: u16,
    pub header_size: u16,
    pub total_size: u32,
    pub flags: u32,
    pub checksum: u32,
}

/// The main section of a version 2 application header.
#[derive(Copy, Clone, Debug)]
pub struct TbfHeaderV2Main {
    pub init_fn_offset: u32,
    pub protected_size: u32,
    pub minimum_ram_size: u32,
}

/// A flash region the application may write.
#[derive(Copy, Clone, Debug)]
pub struct TbfHeaderV2WriteableFlashRegion {
    pub writeable_flash_region_offset: u32,
    pub writeable_flash_region_size: u32,
}

/// Where the sections of an application lie, for the kernel to fix up
/// position-independent code.
#[derive(Copy, Clone, Debug)]
pub struct PicOption1Fields {
    pub text_offset: u32,
    pub data_offset: u32,
    pub data_size: u32,
    pub bss_memory_offset: u32,
    pub bss_size: u32,
    pub relocation_data_offset: u32,
    pub relocation_data_size: u32,
    pub got_offset: u32,
    pub got_size: u32,
    pub minimum_stack_length: u32,
}

/// A version 2 application header.
#[derive(Clone, Debug)]
pub struct TbfHeaderV2 {
    pub base: TbfHeaderV2Base,
    pub main: TbfHeaderV2Main,
    pub pic_values: Option<PicOption1Fields>,
    pub package_name: Option<Vec<u8>>,
    pub writeable_regions: Option<Vec<TbfHeaderV2WriteableFlashRegion>>,
}

/// A TBF header: a legacy application, a version 2 application, or padding
/// between applications.
#[derive(Clone, Debug)]
pub enum TbfHeader {
    TbfHeaderV1(TbfHeaderV1),
    TbfHeaderV2(TbfHeaderV2),
    Padding(TbfHeaderV2Base),
}

/// The PIC fields of a version 1 header.
pub open spec fn v1_pic_fields(hd: TbfHeaderV1) -> PicOption1Fields {
    PicOption1Fields {
        text_offset: hd.text_offset,
        data_offset: hd.data_offset,
        data_size: hd.data_size,
        bss_memory_offset: hd.bss_mem_offset,
        bss_size: hd.bss_size,
        relocation_data_offset: hd.rel_data_offset,
        relocation_data_size: hd.rel_data_size,
        got_offset: hd.got_offset,
        got_size: hd.got_size,
        minimum_stack_length: hd.min_stack_len,
    }
}

/// The RAM a version 1 application needs: its data, GOT, BSS and stack,
/// rounded up to 8 bytes, then both heaps each rounded up to 8 bytes.
pub open spec fn v1_ram_size(hd: TbfHeaderV1) -> int {
    align8(hd.data_size + hd.got_size + hd.bss_size + align8(hd.min_stack_len as int)) + align8(
        hd.min_app_heap_len as int,
    ) + align8(hd.min_kernel_heap_len as int)
}

impl TbfHeader {
    /// Whether this is an application rather than padding.
    pub fn is_app(&self) -> (r: bool)
        ensures
            r == !(self is Padding),
    {
        match self {
            TbfHeader::TbfHeaderV1(_) => true,
            TbfHeader::TbfHeaderV2(_) => true,
            TbfHeader::Padding(_) => false,
        }
    }

    /// Whether the application is enabled: always for version 1, by bit 0
    /// of the flags for version 2; padding never is.
    pub fn enabled(&self) -> (r: bool)
        ensures
            r == match self {
                TbfHeader::TbfHeaderV1(_) => true,
                TbfHeader::TbfHeaderV2(hd) => hd.base.flags & 1u32 == 1u32,
                TbfHeader::Padding(_) => false,
            },
    {
        match self {
            TbfHeader::TbfHeaderV1(_) => true,
            TbfHeader::TbfHeaderV2(hd) => hd.base.flags & 0x00000001 == 1,
            TbfHeader::Padding(_) => false,
        }
    }

    /// The size in flash of the application or padding.
    pub fn get_total_size(&self) -> (r: u32)
        ensures
            r == match self {
                TbfHeader::TbfHeaderV1(hd) => hd.total_size,
                TbfHeader::TbfHeaderV2(hd) => hd.base.total_size,
                TbfHeader::Padding(hd) => hd.total_size,
            },
    {
        match self {
            TbfHeader::TbfHeaderV1(hd) => hd.total_size,
            TbfHeader::TbfHeaderV2(hd) => hd.base.total_size,
            TbfHeader::Padding(hd) => hd.total_size,
        }
    }

    /// Whether the kernel must fix up position-independent code: always for
    /// version 1, when PIC fields are given for version 2.
    pub fn needs_pic_fixup(&self) -> (r: bool)
        ensures
            r == match self {
                TbfHeader::TbfHeaderV1(_) => true,
                TbfHeader::TbfHeaderV2(hd) => hd.pic_values is Some,
                TbfHeader::Padding(_) => false,
            },
    {
        match self {
            TbfHeader::TbfHeaderV1(_) => true,
            TbfHeader::TbfHeaderV2(hd) => hd.pic_values.is_some(),
            _ => false,
        }
    }

    /// The PIC fields in a common form.
    pub fn get_pic_fields(&self) -> (r: Option<PicOption1Fields>)
        ensures
            r == match self {
                TbfHeader::TbfHeaderV1(hd) => Some(v1_pic_fields(*hd)),
                TbfHeader::TbfHeaderV2(hd) => hd.pic_values,
                TbfHeader::Padding(_) => None,
            },
    {
        match self {
            TbfHeader::TbfHeaderV1(hd) => {
                let pic_values = PicOption1Fields {
                    text_offset: hd.text_offset,
                    data_offset: hd.data_offset,
                    data_size: hd.data_size,
                    bss_memory_offset: hd.bss_mem_offset,
                    bss_size: hd.bss_size,
                    relocation_data_offset: hd.rel_data_offset,
                    relocation_data_size: hd.rel_data_size,
                    got_offset: hd.got_offset,
                    got_size: hd.got_size,
                    minimum_stack_length: hd.min_stack_len,
                };
                Some(pic_values)
            },
            TbfHeader::TbfHeaderV2(hd) => match hd.pic_values {
                Some(pv) => Some(pv),
                None => None,
            },
            _ => None,
        }
    }

    /// The RAM the application needs: computed from the version 1 fields,
    /// given by version 2; none for padding.
    pub fn get_minimum_app_ram_size(&self) -> (r: u32)
        requires
            self matches TbfHeader::TbfHeaderV1(hd) ==> v1_ram_size(*hd) <= u32::MAX,
        ensures
            r == match self {
                TbfHeader::TbfHeaderV1(hd) => v1_ram_size(*hd) as u32,
                TbfHeader::TbfHeaderV2(hd) => hd.main.minimum_ram_size,
                TbfHeader::Padding(_) => 0,
            },
    {
        match self {
            TbfHeader::TbfHeaderV1(hd) => {
                let heap_len = align8_u32(hd.min_app_heap_len) + align8_u32(hd.min_kernel_heap_len);
                let data_len = hd.data_size + hd.got_size + hd.bss_size;
                let stack_size = align8_u32(hd.min_stack_len);
                align8_u32(data_len + stack_size) + heap_len
            },
            TbfHeader::TbfHeaderV2(hd) => hd.main.minimum_ram_size,
            _ => 0,
        }
    }

    /// The number of bytes at the start of the application's flash that only
    /// the kernel may write: the whole header for version 1.
    pub fn get_protected_size(&self) -> (r: u32)
        ensures
            r == match self {
                TbfHeader::TbfHeaderV1(_) => TBF_HEADER_V1_SIZE,
                TbfHeader::TbfHeaderV2(hd) => hd.main.protected_size,
                TbfHeader::Padding(_) => 0,
            },
    {
        match self {
            TbfHeader::TbfHeaderV1(_) => TBF_HEADER_V1_SIZE,
            TbfHeader::TbfHeaderV2(hd) => hd.main.protected_size,
            _ => 0,
        }
    }

    /// The offset of the entry point from the start of the application's
    /// flash.
    pub fn get_init_function_offset(&self) -> (r: u32)
        ensures
            r == match self {
                TbfHeader::TbfHeaderV1(hd) => hd.entry_offset,
                TbfHeader::TbfHeaderV2(hd) => hd.main.init_fn_offset,
                TbfHeader::Padding(_) => 0,
            },
    {
        match self {
            TbfHeader::TbfHeaderV1(hd) => hd.entry_offset,
            TbfHeader::TbfHeaderV2(hd) => hd.main.init_fn_offset,
            _ => 0,
        }
    }

    /// The number of writeable flash regions the header declares.
    pub fn number_writeable_flash_regions(&self) -> (r: usize)
        ensures
            r == match self {
                TbfHeader::TbfHeaderV2(hd) => match hd.writeable_regions {
                    Some(wr) => wr@.len(),
                    None => 0,
                },
                _ => 0,
            },
    {
        match self {
            TbfHeader::TbfHeaderV1(_) => 0,
            TbfHeader::TbfHeaderV2(hd) => match &hd.writeable_regions {
                Some(wr) => wr.len(),
                None => 0,
            },
            _ => 0,
        }
    }

    /// The offset and size of writeable flash region `index`, or `(0, 0)`
    /// when there is no such region.
    pub fn get_writeable_flash_region(&self, index: usize) -> (r: (u32, u32))
        ensures
            r == match self {
                TbfHeader::TbfHeaderV2(hd) => match hd.writeable_regions {
                    Some(wr) => if index < wr@.len() {
                        (
                            wr@[index as int].writeable_flash_region_offset,
                            wr@[index as int].writeable_flash_region_size,
                        )
                    } else {
                        (0u32, 0u32)
                    },
                    None => (0u32, 0u32),
                },
                _ => (0u32, 0u32),
            },
    {
        match self {
            TbfHeader::TbfHeaderV1(_) => (0, 0),
            TbfHeader::TbfHeaderV2(hd) => match &hd.writeable_regions {
                Some(wr) => if wr.len() > index {
                    (wr[index].writeable_flash_region_offset, wr[index].writeable_flash_region_size)
                } else {
                    (0, 0)
                },
                None => (0, 0),
            },
            _ => (0, 0),
        }
    }
}

/// The name of an exception or interrupt number of the IPSR register.
pub open spec fn isr_name(isr_number: usize) -> Seq<char> {
    if isr_number == 0 {
        "Thread Mode"@
    } else if isr_number == 1 {
        "Reserved"@
    } else if isr_number == 2 {
        "NMI"@
    } else if isr_number == 3 {
        "HardFault"@
    } else if isr_number == 4 {
        "MemManage"@
    } else if isr_number == 5 {
        "BusFault"@
    } else if isr_number == 6 {
        "UsageFault"@
    } else if 7 <= isr_number <= 10 {
        "Reserved"@
    } else if isr_number == 11 {
        "SVCall"@
    } else if isr_number == 12 {
        "Reserved for Debug"@
    } else if isr_number == 13 {
        "Reserved"@
    } else if isr_number == 14 {
        "PendSV"@
    } else if isr_number == 15 {
        "SysTick"@
    } else if 16 <= isr_number <= 255 {
        "IRQn"@
    } else {
        "(Unknown! Illegal value?)"@
    }
}

/// Names an exception or interrupt number of the IPSR register.
pub fn ipsr_isr_number_to_str(isr_number: usize) -> (r: &'static str)
    ensures
        r@ == isr_name(isr_number),
{
    if isr_number == 0 {
        "Thread Mode"
    } else if isr_number == 1 {
        "Reserved"
    } else if isr_number == 2 {
        "NMI"
    } else if isr_number == 3 {
        "HardFault"
    } else if isr_number == 4 {
        "MemManage"
    } else if isr_number == 5 {
        "BusFault"
    } else if isr_number == 6 {
        "UsageFault"
    } else if 7 <= isr_number && isr_number <= 10 {
        "Reserved"
    } else if isr_number == 11 {
        "SVCall"
    } else if isr_number == 12 {
        "Reserved for Debug"
    } else if isr_number == 13 {
        "Reserved"
    } else if isr_number == 14 {
        "PendSV"
    } else if isr_number == 15 {
        "SysTick"
    } else if 16 <= isr_number && isr_number <= 255 {
        "IRQn"
    } else {
        "(Unknown! Illegal value?)"
    }
}

} // verus!
