//! Parsing and validating a TBF header from the bytes of an application's
//! flash region. Multi-byte fields are little-endian.

use vstd::prelude::*;
use vstd::slice::{slice_subrange, slice_to_vec};
use vstd::utf8::valid_utf8;
use crate::process::{
    TbfHeader, TbfHeaderV1, TbfHeaderV2, TbfHeaderV2Base, TbfHeaderV2Main,
    TbfHeaderV2WriteableFlashRegion, PicOption1Fields, align4,
};

verus! {

/// The little-endian `u16` at `off`.
pub open spec fn le16(s: Seq<u8>, off: int) -> u16 {
    (s[off] + 256 * s[off + 1]) as u16
}

/// The little-endian `u32` at `off`.
pub open spec fn le32(s: Seq<u8>, off: int) -> u32 {
    (s[off] + 256 * s[off + 1] + 65536 * s[off + 2] + 16777216 * s[off + 3]) as u32
}

/// Whether `bytes` are valid UTF-8, as `std::str::from_utf8` decides it:
/// the contract claims that the standard library accepts exactly the byte
/// sequences that are well-formed UTF-8.
#[verifier::external_body]
fn is_utf8(bytes: &[u8]) -> (r: bool)
    ensures
        r == valid_utf8(bytes@),
{
    std::str::from_utf8(bytes).is_ok()
}

/// The version 1 header in the first 76 bytes.
pub open spec fn v1_from_bytes(s: Seq<u8>) -> TbfHeaderV1 {
    TbfHeaderV1 {
        version: le32(s, 0),
        total_size: le32(s, 4),
        entry_offset: le32(s, 8),
        rel_data_offset: le32(s, 12),
        rel_data_size: le32(s, 16),
        text_offset: le32(s, 20),
        text_size: le32(s, 24),
        got_offset: le32(s, 28),
        got_size: le32(s, 32),
        data_offset: le32(s, 36),
        data_size: le32(s, 40),
        bss_mem_offset: le32(s, 44),
        bss_size: le32(s, 48),
        min_stack_len: le32(s, 52),
        min_app_heap_len: le32(s, 56),
        min_kernel_heap_len: le32(s, 60),
        pkg_name_offset: le32(s, 64),
        pkg_name_size: le32(s, 68),
        checksum: le32(s, 72),
    }
}

/// The checksum of a version 1 header: the XOR of all other fields.
pub open spec fn v1_checksum(h: TbfHeaderV1) -> u32 {
    h.version ^ h.total_size ^ h.entry_offset ^ h.rel_data_offset ^ h.rel_data_size ^ h.text_offset
        ^ h.text_size ^ h.got_offset ^ h.got_size ^ h.data_offset ^ h.data_size ^ h.bss_mem_offset
        ^ h.bss_size ^ h.min_stack_len ^ h.min_app_heap_len ^ h.min_kernel_heap_len ^ h.pkg_name_offset
        ^ h.pkg_name_size
}

/// The base of a version 2 header in the first 16 bytes.
pub open spec fn v2_base_from_bytes(s: Seq<u8>) -> TbfHeaderV2Base {
    TbfHeaderV2Base {
        version: le16(s, 0),
        header_size: le16(s, 2),
        total_size: le32(s, 4),
        flags: le32(s, 8),
        checksum: le32(s, 12),
    }
}

/// The XOR of the first `n` 4-byte words, skipping word 3 (the checksum).
pub open spec fn xor_words(s: Seq<u8>, n: nat) -> u32
    decreases n,
{
    if n == 0 {
        0
    } else if n - 1 == 3 {
        xor_words(s, (n - 1) as nat)
    } else {
        xor_words(s, (n - 1) as nat) ^ le32(s, 4 * (n - 1))
    }
}

/// The main section at `off`.
pub open spec fn main_from_bytes(s: Seq<u8>, off: int) -> TbfHeaderV2Main {
    TbfHeaderV2Main {
        init_fn_offset: le32(s, off),
        protected_size: le32(s, off + 4),
        minimum_ram_size: le32(s, off + 8),
    }
}

/// The PIC option at `off`.
pub open spec fn pic_from_bytes(s: Seq<u8>, off: int) -> PicOption1Fields {
    PicOption1Fields {
        text_offset: le32(s, off),
        data_offset: le32(s, off + 4),
        data_size: le32(s, off + 8),
        bss_memory_offset: le32(s, off + 12),
        bss_size: le32(s, off + 16),
        relocation_data_offset: le32(s, off + 20),
        relocation_data_size: le32(s, off + 24),
        got_offset: le32(s, off + 28),
        got_size: le32(s, off + 32),
        minimum_stack_length: le32(s, off + 36),
    }
}

/// The `n` writeable flash regions at `off`.
pub open spec fn regions_from_bytes(s: Seq<u8>, off: int, n: nat) -> Seq<TbfHeaderV2WriteableFlashRegion> {
    Seq::new(
        n,
        |i: int|
            TbfHeaderV2WriteableFlashRegion {
                writeable_flash_region_offset: le32(s, off + 8 * i),
                writeable_flash_region_size: le32(s, off + 8 * i + 4),
            },
    )
}

/// The options gathered from the TLV blocks of a version 2 header.
pub struct TlvFields {
    pub main: Option<TbfHeaderV2Main>,
    pub pic: Option<PicOption1Fields>,
    pub regions: Option<Seq<TbfHeaderV2WriteableFlashRegion>>,
    pub name: Seq<u8>,
}

/// The outcome of walking the TLV blocks: the options, `Short` when a
/// block lies past the end of the bytes, `Stuck` when a block length runs
/// past the header (or cannot be rounded up to 4 in 16 bits).
pub enum TlvWalk {
    Done(TlvFields),
    Short,
    Stuck,
}

/// The options after the block at `off` (a 4-byte type and length, then
/// its value), given the options before it and the `rem` header bytes after
/// the type and length. Known blocks with a fitting length set their option,
/// a later block replacing an earlier one; a package name that is not UTF-8
/// is ignored.
pub open spec fn tlv_block(s: Seq<u8>, o: int, rem: int, tipe: u16, length: u16, acc: TlvFields) -> Option<TlvFields> {
    if tipe == 1 {
        if rem >= 12 && length == 12 {
            if o + 12 > s.len() { None } else { Some(TlvFields { main: Some(main_from_bytes(s, o)), ..acc }) }
        } else {
            Some(acc)
        }
    } else if tipe == 2 {
        if length % 8 == 0 {
            let n = (length / 8) as nat;
            if o + 8 * n > s.len() {
                None
            } else {
                Some(TlvFields { regions: Some(regions_from_bytes(s, o, n)), ..acc })
            }
        } else {
            Some(acc)
        }
    } else if tipe == 3 {
        if rem >= length {
            if o + length > s.len() {
                None
            } else if valid_utf8(s.subrange(o, o + length)) {
                Some(TlvFields { name: s.subrange(o, o + length), ..acc })
            } else {
                Some(acc)
            }
        } else {
            Some(acc)
        }
    } else if tipe == 4 {
        if rem >= 40 && length == 40 {
            if o + 40 > s.len() { None } else { Some(TlvFields { pic: Some(pic_from_bytes(s, o)), ..acc }) }
        } else {
            Some(acc)
        }
    } else {
        Some(acc)
    }
}

/// Walks the TLV blocks from `off`, with `remaining` header bytes left.
pub open spec fn tlv_walk(s: Seq<u8>, off: int, remaining: int, acc: TlvFields) -> TlvWalk
    decreases remaining,
{
    if remaining <= 4 {
        TlvWalk::Done(acc)
    } else if off + 4 > s.len() {
        TlvWalk::Short
    } else {
        let tipe = le16(s, off);
        let length = le16(s, off + 2);
        let o = off + 4;
        let rem = remaining - 4;
        match tlv_block(s, o, rem, tipe, length, acc) {
            None => TlvWalk::Short,
            Some(acc2) => {
                if length > 65532 || align4(length as int) > rem {
                    TlvWalk::Stuck
                } else {
                    tlv_walk(s, o + align4(length as int), rem - align4(length as int), acc2)
                }
            },
        }
    }
}

/// The blocks a walk of the options from `off` visits, with `remaining`
/// header bytes left: for each, where its value starts, the header bytes
/// left after its type and length, its type and its length.
pub open spec fn tlv_blocks(s: Seq<u8>, off: int, remaining: int) -> Seq<(int, int, u16, u16)>
    decreases remaining,
{
    if remaining <= 4 || off + 4 > s.len() {
        Seq::empty()
    } else {
        let t = le16(s, off);
        let l = le16(s, off + 2);
        let o = off + 4;
        let rem = remaining - 4;
        let here = seq![(o, rem, t, l)];
        if l > 65532 || align4(l as int) > rem {
            here
        } else {
            here + tlv_blocks(s, o + align4(l as int), rem - align4(l as int))
        }
    }
}

/// A PIC Option 1 block: type 4, length 40, inside the header.
pub open spec fn is_pic_block(b: (int, int, u16, u16)) -> bool {
    b.2 == 4 && b.3 == 40 && b.1 >= 40
}

/// The PIC option a completed walk of the options gathers is that of the
/// last PIC block it visits, read as ten little-endian words; with no PIC
/// block it is the one it started with.
pub proof fn lemma_walk_pic_is_last_pic_block(s: Seq<u8>, off: int, remaining: int, acc: TlvFields)
    requires
        tlv_walk(s, off, remaining, acc) is Done,
    ensures
        ({
            let bs = tlv_blocks(s, off, remaining);
            let f = tlv_walk(s, off, remaining, acc)->Done_0;
            &&& forall|i: int|
                0 <= i < bs.len() && is_pic_block(#[trigger] bs[i]) && (forall|j: int|
                    i < j < bs.len() ==> !is_pic_block(#[trigger] bs[j])) ==> f.pic == Some(
                    PicOption1Fields {
                text_offset: le32(s, bs[i].0),
                data_offset: le32(s, bs[i].0 + 4),
                data_size: le32(s, bs[i].0 + 8),
                bss_memory_offset: le32(s, bs[i].0 + 12),
                bss_size: le32(s, bs[i].0 + 16),
                relocation_data_offset: le32(s, bs[i].0 + 20),
                relocation_data_size: le32(s, bs[i].0 + 24),
                got_offset: le32(s, bs[i].0 + 28),
                got_size: le32(s, bs[i].0 + 32),
                minimum_stack_length: le32(s, bs[i].0 + 36),
            },
                )
            &&& (forall|i: int| 0 <= i < bs.len() ==> !is_pic_block(#[trigger] bs[i])) ==> f.pic == acc.pic
        }),
    decreases remaining,
{
    if remaining <= 4 {
    } else if off + 4 > s.len() {
    } else {
        let t = le16(s, off);
        let l = le16(s, off + 2);
        let o = off + 4;
        let rem = remaining - 4;
        let acc2 = tlv_block(s, o, rem, t, l, acc)->0;
        let next = o + align4(l as int);
        let rem2 = rem - align4(l as int);
        let bs = tlv_blocks(s, off, remaining);
        let bs2 = tlv_blocks(s, next, rem2);
        let f = tlv_walk(s, off, remaining, acc)->Done_0;
        assert(tlv_walk(s, off, remaining, acc) == tlv_walk(s, next, rem2, acc2));
        lemma_walk_pic_is_last_pic_block(s, next, rem2, acc2);
        assert(bs =~= seq![(o, rem, t, l)] + bs2);
        assert(is_pic_block(bs[0]) ==> acc2.pic == Some(pic_from_bytes(s, o)));
        assert(!is_pic_block(bs[0]) ==> acc2.pic == acc.pic);
        assert forall|i: int|
            0 <= i < bs.len() && is_pic_block(#[trigger] bs[i]) && (forall|j: int|
                i < j < bs.len() ==> !is_pic_block(#[trigger] bs[j])) implies f.pic == Some(
            PicOption1Fields {
                text_offset: le32(s, bs[i].0),
                data_offset: le32(s, bs[i].0 + 4),
                data_size: le32(s, bs[i].0 + 8),
                bss_memory_offset: le32(s, bs[i].0 + 12),
                bss_size: le32(s, bs[i].0 + 16),
                relocation_data_offset: le32(s, bs[i].0 + 20),
                relocation_data_size: le32(s, bs[i].0 + 24),
                got_offset: le32(s, bs[i].0 + 28),
                got_size: le32(s, bs[i].0 + 32),
                minimum_stack_length: le32(s, bs[i].0 + 36),
            },
        ) by {
            if i == 0 {
                assert forall|j: int| 0 <= j < bs2.len() implies !is_pic_block(#[trigger] bs2[j]) by {
                    assert(bs[j + 1] == bs2[j]);
                }
            } else {
                assert(bs[i] == bs2[i - 1]);
                assert forall|j: int| i - 1 < j < bs2.len() implies !is_pic_block(#[trigger] bs2[j]) by {
                    assert(bs[j + 1] == bs2[j]);
                }
            }
        }
        if forall|i: int| 0 <= i < bs.len() ==> !is_pic_block(#[trigger] bs[i]) {
            assert(!is_pic_block(bs[0]));
            assert forall|j: int| 0 <= j < bs2.len() implies !is_pic_block(#[trigger] bs2[j]) by {
                assert(bs[j + 1] == bs2[j]);
            }
        }
    }
}

/// What the bytes of a flash region hold.
pub enum TbfParse {
    /// No valid header: an unknown version, a bad checksum, a size out of
    /// range, a header that ends past the bytes, or no main section.
    Invalid,
    /// A header the parser cannot process: a version 2 header size that is
    /// not a multiple of 4 or smaller than the base, or a block running past
    /// the header.
    Stuck,
    V1(TbfHeaderV1),
    Padding(TbfHeaderV2Base),
    V2 {
        base: TbfHeaderV2Base,
        main: TbfHeaderV2Main,
        pic: Option<PicOption1Fields>,
        name: Seq<u8>,
        regions: Option<Seq<TbfHeaderV2WriteableFlashRegion>>,
    },
}

/// The empty set of options.
pub open spec fn no_fields() -> TlvFields {
    TlvFields { main: None, pic: None, regions: None, name: Seq::empty() }
}

/// The header a version 2 base and the walk of its options make: an
/// application when the options include a main section.
pub open spec fn v2_options_result(b: TbfHeaderV2Base, w: TlvWalk) -> TbfParse {
    match w {
        TlvWalk::Stuck => TbfParse::Stuck,
        TlvWalk::Short => TbfParse::Invalid,
        TlvWalk::Done(f) => match f.main {
            None => TbfParse::Invalid,
            Some(m) => TbfParse::V2 { base: b, main: m, pic: f.pic, name: f.name, regions: f.regions },
        },
    }
}

/// What the bytes `s` at the start of an application's flash hold. A
/// version 1 header is valid when its checksum matches. A version 2 header
/// is valid when its header is shorter than the application, the
/// application is at most 256 MiB, and the checksum (the XOR of the header's
/// words but the checksum word) matches; a bare base is padding, else the
/// header must have a main section.
pub open spec fn tbf_parse(s: Seq<u8>) -> TbfParse {
    if s.len() < 2 {
        TbfParse::Invalid
    } else if le16(s, 0) == 1 {
        if s.len() < 76 || v1_checksum(v1_from_bytes(s)) != v1_from_bytes(s).checksum {
            TbfParse::Invalid
        } else {
            TbfParse::V1(v1_from_bytes(s))
        }
    } else if le16(s, 0) == 2 {
        if s.len() < 16 {
            TbfParse::Invalid
        } else {
            let b = v2_base_from_bytes(s);
            let hs = b.header_size as int;
            if hs >= b.total_size || b.total_size > 0x1000_0000 {
                TbfParse::Invalid
            } else if hs % 4 != 0 {
                TbfParse::Stuck
            } else if s.len() < hs || xor_words(s, (hs / 4) as nat) != b.checksum {
                TbfParse::Invalid
            } else if hs < 16 {
                TbfParse::Stuck
            } else if hs == 16 {
                TbfParse::Padding(b)
            } else {
                v2_options_result(b, tlv_walk(s, 16, hs - 16, no_fields()))
            }
        }
    } else {
        TbfParse::Invalid
    }
}

/// Whether the parser's result `r` is what `p` describes.
pub open spec fn parsed_as(r: Option<TbfHeader>, p: TbfParse) -> bool {
    match p {
        TbfParse::Invalid => r is None,
        TbfParse::Stuck => false,
        TbfParse::V1(h) => r == Some(TbfHeader::TbfHeaderV1(h)),
        TbfParse::Padding(b) => r == Some(TbfHeader::Padding(b)),
        TbfParse::V2 { base, main, pic, name, regions } => {
            &&& r matches Some(TbfHeader::TbfHeaderV2(h))
            &&& (r->0)->TbfHeaderV2_0.base == base
            &&& (r->0)->TbfHeaderV2_0.main == main
            &&& (r->0)->TbfHeaderV2_0.pic_values == pic
            &&& (r->0)->TbfHeaderV2_0.package_name is Some
            &&& ((r->0)->TbfHeaderV2_0.package_name->0)@ == name
            &&& match regions {
                None => (r->0)->TbfHeaderV2_0.writeable_regions is None,
                Some(rs) => (r->0)->TbfHeaderV2_0.writeable_regions is Some && ((r->0)->TbfHeaderV2_0.writeable_regions->0)@ == rs,
            }
        },
    }
}

/// A version 2 header's PIC option is that of the last PIC Option 1 block
/// (type 4, length 40, inside the header) among its options, read as ten
/// little-endian words, and then the kernel fixes up the application's
/// position-independent code; with no such block there is none.
pub proof fn lemma_pic_values_from_last_pic_block(s: Seq<u8>, r: Option<TbfHeader>)
    requires
        parsed_as(r, tbf_parse(s)),
        r matches Some(TbfHeader::TbfHeaderV2(_)),
    ensures
        ({
            let bs = tlv_blocks(s, 16, le16(s, 2) - 16);
            let h = r->0->TbfHeaderV2_0;
            &&& forall|i: int|
                0 <= i < bs.len() && is_pic_block(#[trigger] bs[i]) && (forall|j: int|
                    i < j < bs.len() ==> !is_pic_block(#[trigger] bs[j])) ==> h.pic_values == Some(
                    PicOption1Fields {
                text_offset: le32(s, bs[i].0),
                data_offset: le32(s, bs[i].0 + 4),
                data_size: le32(s, bs[i].0 + 8),
                bss_memory_offset: le32(s, bs[i].0 + 12),
                bss_size: le32(s, bs[i].0 + 16),
                relocation_data_offset: le32(s, bs[i].0 + 20),
                relocation_data_size: le32(s, bs[i].0 + 24),
                got_offset: le32(s, bs[i].0 + 28),
                got_size: le32(s, bs[i].0 + 32),
                minimum_stack_length: le32(s, bs[i].0 + 36),
            },
                )
            &&& (forall|i: int| 0 <= i < bs.len() ==> !is_pic_block(#[trigger] bs[i])) ==> h.pic_values is None
            &&& (exists|i: int| 0 <= i < bs.len() && is_pic_block(#[trigger] bs[i])) ==> h.pic_values is Some
        }),
{
    let hs = le16(s, 2) as int;
    lemma_walk_pic_is_last_pic_block(s, 16, hs - 16, no_fields());
    let bs = tlv_blocks(s, 16, hs - 16);
    if exists|i: int| 0 <= i < bs.len() && is_pic_block(#[trigger] bs[i]) {
        let i0 = choose|i: int| 0 <= i < bs.len() && is_pic_block(#[trigger] bs[i]);
        lemma_last_pic_block_exists(bs, i0);
    }
}

/// Where some block is a PIC block, one of them is the last.
proof fn lemma_last_pic_block_exists(bs: Seq<(int, int, u16, u16)>, i0: int)
    requires
        0 <= i0 < bs.len(),
        is_pic_block(bs[i0]),
    ensures
        exists|i: int|
            0 <= i < bs.len() && is_pic_block(#[trigger] bs[i]) && (forall|j: int|
                i < j < bs.len() ==> !is_pic_block(#[trigger] bs[j])),
    decreases bs.len() - i0,
{
    if forall|j: int| i0 < j < bs.len() ==> !is_pic_block(#[trigger] bs[j]) {
    } else {
        let j0 = choose|j: int| i0 < j < bs.len() && is_pic_block(#[trigger] bs[j]);
        lemma_last_pic_block_exists(bs, j0);
    }
}

fn read_le16(s: &[u8], off: usize) -> (r: u16)
    requires
        off + 2 <= s@.len(),
    ensures
        r == le16(s@, off as int),
{
    (s[off] as u16) + (s[off + 1] as u16) * 256
}

fn read_le32(s: &[u8], off: usize) -> (r: u32)
    requires
        off + 4 <= s@.len(),
    ensures
        r == le32(s@, off as int),
{
    (s[off] as u32) + (s[off + 1] as u32) * 256 + (s[off + 2] as u32) * 65536 + (s[off + 3] as u32) * 16777216
}

fn read_main(s: &[u8], off: usize) -> (r: TbfHeaderV2Main)
    requires
        off + 12 <= s@.len(),
    ensures
        r == main_from_bytes(s@, off as int),
{
    let _l = s.len();
    TbfHeaderV2Main {
        init_fn_offset: read_le32(s, off),
        protected_size: read_le32(s, off + 4),
        minimum_ram_size: read_le32(s, off + 8),
    }
}

fn read_pic(s: &[u8], off: usize) -> (r: PicOption1Fields)
    requires
        off + 40 <= s@.len(),
    ensures
        r == pic_from_bytes(s@, off as int),
{
    let _l = s.len();
    PicOption1Fields {
        text_offset: read_le32(s, off),
        data_offset: read_le32(s, off + 4),
        data_size: read_le32(s, off + 8),
        bss_memory_offset: read_le32(s, off + 12),
        bss_size: read_le32(s, off + 16),
        relocation_data_offset: read_le32(s, off + 20),
        relocation_data_size: read_le32(s, off + 24),
        got_offset: read_le32(s, off + 28),
        got_size: read_le32(s, off + 32),
        minimum_stack_length: read_le32(s, off + 36),
    }
}

fn read_regions(s: &[u8], off: usize, n: usize) -> (r: Vec<TbfHeaderV2WriteableFlashRegion>)
    requires
        off + 8 * n <= s@.len(),
    ensures
        r@ == regions_from_bytes(s@, off as int, n as nat),
{
    let slen = s.len();
    let mut regions: Vec<TbfHeaderV2WriteableFlashRegion> = Vec::new();
    let mut i: usize = 0;
    while i < n
        invariant
            i <= n,
            slen == s@.len(),
            off + 8 * n <= slen,
            regions@ == regions_from_bytes(s@, off as int, i as nat),
        decreases n - i,
    {
        let region = TbfHeaderV2WriteableFlashRegion {
            writeable_flash_region_offset: read_le32(s, off + 8 * i),
            writeable_flash_region_size: read_le32(s, off + 8 * i + 4),
        };
        regions.push(region);
        i = i + 1;
        assert(regions@ =~= regions_from_bytes(s@, off as int, i as nat));
    }
    regions
}

/// The options gathered so far, as values.
pub open spec fn fields_of(
    main: Option<TbfHeaderV2Main>,
    pic: Option<PicOption1Fields>,
    regions: Option<Vec<TbfHeaderV2WriteableFlashRegion>>,
    name: Seq<u8>,
) -> TlvFields {
    TlvFields {
        main: main,
        pic: pic,
        regions: match regions {
            Some(v) => Some(v@),
            None => None,
        },
        name: name,
    }
}

/// Applies the block of type `tipe` and length `length` whose value starts
/// at `o` to the options gathered so far; `false` when the value lies past
/// the end of `s`.
fn apply_tlv_block(
    s: &[u8],
    o: usize,
    rem: usize,
    tipe: u16,
    length: u16,
    main: &mut Option<TbfHeaderV2Main>,
    pic: &mut Option<PicOption1Fields>,
    wfr: &mut Option<Vec<TbfHeaderV2WriteableFlashRegion>>,
    name: &mut Vec<u8>,
) -> (ok: bool)
    requires
        o + rem <= 0xffff,
    ensures
        match tlv_block(s@, o as int, rem as int, tipe, length, fields_of(*old(main), *old(pic), *old(wfr), old(name)@)) {
            None => !ok,
            Some(f) => ok && fields_of(*final(main), *final(pic), *final(wfr), final(name)@) == f,
        },
{
    let len = length as usize;
    if tipe == 1 {
        if rem >= 12 && len == 12 {
            if o + 12 > s.len() {
                return false;
            }
            *main = Some(read_main(s, o));
        }
    } else if tipe == 2 {
        if len % 8 == 0 {
            let number_regions = len / 8;
            if o + 8 * number_regions > s.len() {
                return false;
            }
            *wfr = Some(read_regions(s, o, number_regions));
        }
    } else if tipe == 3 {
        if rem >= len {
            if o + len > s.len() {
                return false;
            }
            let value = slice_subrange(s, o, o + len);
            if is_utf8(value) {
                *name = slice_to_vec(value);
            }
        }
    } else if tipe == 4 {
        if rem >= 40 && len == 40 {
            if o + 40 > s.len() {
                return false;
            }
            *pic = Some(read_pic(s, o));
        }
    }
    true
}

/// Walks the option blocks of a version 2 header from `offset`, with
/// `remaining_length` header bytes left; `None` when a block lies past the
/// end of `s`.
#[verifier::rlimit(40)]
fn walk_options(s: &[u8], offset: usize, remaining_length: usize) -> (r: Option<
    (
        Option<TbfHeaderV2Main>,
        Option<PicOption1Fields>,
        Option<Vec<TbfHeaderV2WriteableFlashRegion>>,
        Vec<u8>,
    ),
>)
    requires
        offset + remaining_length <= 0xffff,
        !(tlv_walk(s@, offset as int, remaining_length as int, no_fields()) is Stuck),
    ensures
        match tlv_walk(s@, offset as int, remaining_length as int, no_fields()) {
            TlvWalk::Short => r is None,
            TlvWalk::Done(f) => r is Some && fields_of((r->0).0, (r->0).1, (r->0).2, (r->0).3@) == f,
            TlvWalk::Stuck => false,
        },
{
    let ghost overall = tlv_walk(s@, offset as int, remaining_length as int, no_fields());
    let mut off: usize = offset;
    let mut rem: usize = remaining_length;
    let mut main_pointer: Option<TbfHeaderV2Main> = None;
    let mut pic1_pointer: Option<PicOption1Fields> = None;
    let mut wfr_pointer: Option<Vec<TbfHeaderV2WriteableFlashRegion>> = None;
    let mut app_name: Vec<u8> = Vec::new();
    assert(fields_of(main_pointer, pic1_pointer, wfr_pointer, app_name@) == no_fields());
    while rem > 4
        invariant
            off + rem <= 0xffff,
            overall == tlv_walk(
                s@,
                off as int,
                rem as int,
                fields_of(main_pointer, pic1_pointer, wfr_pointer, app_name@),
            ),
            !(overall is Stuck),
            overall == tlv_walk(s@, offset as int, remaining_length as int, no_fields()),
        decreases rem,
    {
        if off + 4 > s.len() {
            return None;
        }
        let tipe = read_le16(s, off);
        let length = read_le16(s, off + 2);
        rem = rem - 4;
        off = off + 4;
        if !apply_tlv_block(
            s,
            off,
            rem,
            tipe,
            length,
            &mut main_pointer,
            &mut pic1_pointer,
            &mut wfr_pointer,
            &mut app_name,
        ) {
            return None;
        }
        let aligned: u16 = length + ((4 - (length % 4)) % 4);
        rem = rem - aligned as usize;
        off = off + aligned as usize;
    }
    Some((main_pointer, pic1_pointer, wfr_pointer, app_name))
}

/// Parses the TBF header at the start of `header`, the bytes of an
/// application's flash region, validating its checksum; it does not check
/// that the values in it make sense.
pub fn parse_and_validate_tbf_header(header: &[u8]) -> (r: Option<TbfHeader>)
    requires
        !(tbf_parse(header@) is Stuck),
    ensures
        parsed_as(r, tbf_parse(header@)),
{
    let s = header;
    if s.len() < 2 {
        return None;
    }
    let version = read_le16(s, 0);
    if version == 1 {
        if s.len() < 76 {
            return None;
        }
        let h = TbfHeaderV1 {
            version: read_le32(s, 0),
            total_size: read_le32(s, 4),
            entry_offset: read_le32(s, 8),
            rel_data_offset: read_le32(s, 12),
            rel_data_size: read_le32(s, 16),
            text_offset: read_le32(s, 20),
            text_size: read_le32(s, 24),
            got_offset: read_le32(s, 28),
            got_size: read_le32(s, 32),
            data_offset: read_le32(s, 36),
            data_size: read_le32(s, 40),
            bss_mem_offset: read_le32(s, 44),
            bss_size: read_le32(s, 48),
            min_stack_len: read_le32(s, 52),
            min_app_heap_len: read_le32(s, 56),
            min_kernel_heap_len: read_le32(s, 60),
            pkg_name_offset: read_le32(s, 64),
            pkg_name_size: read_le32(s, 68),
            checksum: read_le32(s, 72),
        };
        let checksum = h.version ^ h.total_size ^ h.entry_offset ^ h.rel_data_offset ^ h.rel_data_size
            ^ h.text_offset ^ h.text_size ^ h.got_offset ^ h.got_size ^ h.data_offset ^ h.data_size
            ^ h.bss_mem_offset ^ h.bss_size ^ h.min_stack_len ^ h.min_app_heap_len ^ h.min_kernel_heap_len
            ^ h.pkg_name_offset ^ h.pkg_name_size;
        if checksum != h.checksum {
            None
        } else {
            Some(TbfHeader::TbfHeaderV1(h))
        }
    } else if version == 2 {
        if s.len() < 16 {
            return None;
        }
        let base = TbfHeaderV2Base {
            version: read_le16(s, 0),
            header_size: read_le16(s, 2),
            total_size: read_le32(s, 4),
            flags: read_le32(s, 8),
            checksum: read_le32(s, 12),
        };
        if base.header_size as u32 >= base.total_size || base.total_size > 0x1000_0000 {
            return None;
        }
        let hs = base.header_size as usize;
        let mut chunks: usize = hs / 4;
        let mut leftover_bytes: usize = 0;
        if chunks * 4 != hs {
            chunks = chunks + 1;
            leftover_bytes = hs - (chunks * 4);
        }
        if s.len() < hs {
            return None;
        }
        let mut checksum: u32 = 0;
        let mut i: usize = 0;
        while i < chunks
            invariant
                i <= chunks,
                chunks * 4 == hs,
                hs <= s@.len(),
                leftover_bytes == 0,
                checksum == xor_words(s@, i as nat),
            decreases chunks - i,
        {
            let chunk = read_le32(s, 4 * i);
            if i == 3 {
            } else if i == chunks - 1 && leftover_bytes != 0 {
                checksum = checksum ^ (chunk & (0xFFFF_FFFFu32 >> ((4 - leftover_bytes) as u32)));
            } else {
                checksum = checksum ^ chunk;
            }
            i = i + 1;
        }
        if checksum != base.checksum {
            return None;
        }
        let mut offset: usize = 16;
        let mut remaining_length: usize = hs - 16;
        if remaining_length == 0 {
            return Some(TbfHeader::Padding(base));
        }
        let (main_pointer, pic1_pointer, wfr_pointer, app_name) = match walk_options(s, offset, remaining_length) {
            Some(fields) => fields,
            None => { return None; },
        };
        match main_pointer {
            None => None,
            Some(mp) => Some(
                TbfHeader::TbfHeaderV2(
                    TbfHeaderV2 {
                        base: base,
                        main: mp,
                        pic_values: pic1_pointer,
                        package_name: Some(app_name),
                        writeable_regions: wfr_pointer,
                    },
                ),
            ),
        }
    } else {
        None
    }
}

/// The name of the application a header gives, as bytes: for version 1 the
/// bytes at the name's place in flash when they are UTF-8, else none; for
/// version 2 the name option, if any; none for padding.
pub open spec fn package_name_of(h: TbfHeader, flash: Seq<u8>) -> Seq<u8> {
    match h {
        TbfHeader::TbfHeaderV1(hd) => {
            let name = flash.subrange(
                hd.pkg_name_offset as int,
                hd.pkg_name_offset + hd.pkg_name_size,
            );
            if valid_utf8(name) {
                name
            } else {
                Seq::empty()
            }
        },
        TbfHeader::TbfHeaderV2(hd) => match hd.package_name {
            Some(n) => n@,
            None => Seq::empty(),
        },
        TbfHeader::Padding(_) => Seq::empty(),
    }
}

impl TbfHeader {
    /// The name of the application, from the header or, for version 1, from
    /// the application's flash `flash`.
    pub fn get_package_name(&self, flash: &[u8]) -> (r: Vec<u8>)
        requires
            self matches TbfHeader::TbfHeaderV1(hd) ==> hd.pkg_name_offset + hd.pkg_name_size
                <= flash.len(),
        ensures
            r@ == package_name_of(*self, flash@),
    {
        match self {
            TbfHeader::TbfHeaderV1(hd) => {
                let start = hd.pkg_name_offset as usize;
                let end = start + hd.pkg_name_size as usize;
                let name = slice_subrange(flash, start, end);
                if is_utf8(name) {
                    slice_to_vec(name)
                } else {
                    Vec::new()
                }
            },
            TbfHeader::TbfHeaderV2(hd) => match &hd.package_name {
                Some(n) => n.clone(),
                None => Vec::new(),
            },
            TbfHeader::Padding(_) => Vec::new(),
        }
    }
}

} // verus!
