//! What the debugger reads from a PE image: its function table and section
//! names.

use vstd::prelude::*;
use crate::structs::Arch;
use crate::commands::first_index_by;

verus! {

/// One entry of the exception directory: where a function starts and ends
/// and where its unwind information lies (all relative to the image base).
#[derive(Debug, Default, Clone, Copy, PartialEq, Eq, Structural)]
pub struct FuncEntry {
    pub begin_address: u32,
    pub end_address: u32,
    pub unwind_data: u32,
}

/// `i` is the first function that starts at `addr` (compared on its low 32
/// bits).
pub open spec fn first_func_at(funcs: Seq<FuncEntry>, addr: u64, i: int) -> bool {
    0 <= i < funcs.len() && funcs[i].begin_address == addr as u32 && forall|j: int|
        0 <= j < i ==> funcs[j].begin_address != addr as u32
}

/// The first function that starts at `addr` (low 32 bits).
pub fn find_func_by_addr(funcs: &Vec<FuncEntry>, addr: u64) -> (r: Option<usize>)
    ensures
        match r {
            Some(i) => first_func_at(funcs@, addr, i as int),
            None => forall|j: int| 0 <= j < funcs@.len() ==> funcs@[j].begin_address != addr as u32,
        },
{
    let a = addr as u32;
    let mut i: usize = 0;
    while i < funcs.len()
        invariant
            i <= funcs.len(),
            a == addr as u32,
            forall|j: int| 0 <= j < i ==> funcs@[j].begin_address != a,
        decreases funcs.len() - i,
    {
        if funcs[i].begin_address == a {
            return Some(i);
        }
        i = i + 1;
    }
    None
}


/// The little-endian 16-bit value at `o` in `b`.
pub open spec fn le16(b: Seq<u8>, o: int) -> u16 {
    (b[o] as u16) | ((b[o + 1] as u16) << 8u16)
}

/// The little-endian 32-bit value at `o` in `b`.
pub open spec fn le32(b: Seq<u8>, o: int) -> u32 {
    (b[o] as u32) | ((b[o + 1] as u32) << 8u32) | ((b[o + 2] as u32) << 16u32) | ((b[o + 3] as u32)
        << 24u32)
}

/// The little-endian 64-bit value at `o` in `b`.
pub open spec fn le64(b: Seq<u8>, o: int) -> u64 {
    (le32(b, o) as u64) | ((le32(b, o + 4) as u64) << 32u64)
}

fn read16(b: &Vec<u8>, o: usize) -> (r: u16)
    requires
        o + 2 <= b.len(),
    ensures
        r == le16(b@, o as int),
{
    (b[o] as u16) | ((b[o + 1] as u16) << 8u16)
}

fn read32(b: &Vec<u8>, o: usize) -> (r: u32)
    requires
        o + 4 <= b.len(),
    ensures
        r == le32(b@, o as int),
{
    (b[o] as u32) | ((b[o + 1] as u32) << 8u32) | ((b[o + 2] as u32) << 16u32) | ((b[o + 3] as u32)
        << 24u32)
}

fn read64(b: &Vec<u8>, o: usize) -> (r: u64)
    requires
        o + 8 <= b.len(),
    ensures
        r == le64(b@, o as int),
{
    (read32(b, o) as u64) | ((read32(b, o + 4) as u64) << 32u64)
}

/// A section header of the image.
#[derive(Debug, Clone, Copy)]
pub struct SectionHeader {
    pub name: [u8; 8],
    pub virtual_address: u32,
    pub size_of_raw_data: u32,
    pub pointer_to_raw_data: u32,
}

/// What the debugger keeps of an image's headers.
#[derive(Debug)]
pub struct PeHeaders {
    pub arch: Arch,
    pub image_base: u64,
    /// Where the string table of long section names starts in the file.
    pub string_table: u64,
    pub sections: Vec<SectionHeader>,
    /// Address and size of the exception directory (the function table).
    pub pdata_rva: u32,
    pub pdata_size: u32,
}

/// Why an image's headers cannot be read.
#[derive(Debug, Clone, Copy, PartialEq, Eq, Structural)]
pub enum PeError {
    /// The file does not start with `MZ`.
    BadDosSignature,
    /// The file ends inside a header.
    Truncated,
}

/// Where the NT headers start.
pub open spec fn nt_offset(b: Seq<u8>) -> int {
    le32(b, 0x3c) as int
}

/// The image is a 32-bit one: its optional header has the PE32 magic.
pub open spec fn is_pe32(b: Seq<u8>) -> bool {
    le16(b, nt_offset(b) + 24) == 0x10b
}

/// The bytes an image needs for its headers to be read: the DOS header, the
/// file and optional headers up to the exception directory, and the section
/// headers.
pub open spec fn headers_fit(b: Seq<u8>) -> bool {
    &&& b.len() >= 64
    &&& nt_offset(b) + 24 + 240 <= b.len()
    &&& nt_offset(b) + 24 + le16(b, nt_offset(b) + 20) + 40 * le16(b, nt_offset(b) + 6) <= b.len()
}

/// The section header at `o`.
pub open spec fn section_at(b: Seq<u8>, o: int) -> SectionHeader {
    SectionHeader {
        name: [b[o], b[o + 1], b[o + 2], b[o + 3], b[o + 4], b[o + 5], b[o + 6], b[o + 7]],
        virtual_address: le32(b, o + 12),
        size_of_raw_data: le32(b, o + 16),
        pointer_to_raw_data: le32(b, o + 20),
    }
}

/// The headers of the image `b`: the word size by the optional header's
/// magic, the image base, the exception directory and the section headers
/// (which follow the optional header).
pub open spec fn pe_headers(b: Seq<u8>) -> Result<(Arch, u64, u64, Seq<SectionHeader>, u32, u32), PeError> {
    if b.len() < 64 {
        Err(PeError::Truncated)
    } else if le16(b, 0) != 0x5a4d {
        Err(PeError::BadDosSignature)
    } else if !headers_fit(b) {
        Err(PeError::Truncated)
    } else {
        let nt = nt_offset(b);
        let opt = nt + 24;
        let first = opt + le16(b, nt + 20);
        let n = le16(b, nt + 6);
        let pe32 = is_pe32(b);
        Ok(
            (
                if pe32 {
                    Arch::X86
                } else {
                    Arch::X64
                },
                if pe32 {
                    le32(b, opt + 28) as u64
                } else {
                    le64(b, opt + 24)
                },
                (le32(b, nt + 12) as u64 + vstd::wrapping::u32_specs::wrapping_mul(le32(b, nt + 16), 18) as u64) as u64,
                Seq::new(n as nat, |i: int| section_at(b, first + 40 * i)),
                if pe32 {
                    le32(b, opt + 120)
                } else {
                    le32(b, opt + 136)
                },
                if pe32 {
                    le32(b, opt + 124)
                } else {
                    le32(b, opt + 140)
                },
            ),
        )
    }
}

/// Law: the section table of a well-formed image holds as many headers as
/// the file header's `NumberOfSections` (the 16-bit word at `nt + 6`, where
/// `nt` is the 32-bit offset at `0x3c`), and header `i` is the 40-byte
/// record at `nt + 24 + SizeOfOptionalHeader + 40 * i` (`SizeOfOptionalHeader`
/// being the word at `nt + 20`): its name is the record's first 8 bytes, its
/// virtual address, raw size and raw-data offset the little-endian words at
/// 12, 16 and 20 in it.
pub proof fn lemma_section_headers_in_order(b: Seq<u8>, i: int)
    requires
        pe_headers(b) is Ok,
    ensures
        ({
            let nt = ((b[0x3c] as int) + (b[0x3d] as int) * 0x100 + (b[0x3e] as int) * 0x10000 + (
            b[0x3f] as int) * 0x1000000);
            let count = (b[nt + 6] as int) + (b[nt + 7] as int) * 0x100;
            let o = nt + 24 + (b[nt + 20] as int) + (b[nt + 21] as int) * 0x100 + 40 * i;
            let word = |k: int|
                (b[o + k] as int) + (b[o + k + 1] as int) * 0x100 + (b[o + k + 2] as int) * 0x10000
                    + (b[o + k + 3] as int) * 0x1000000;
            match pe_headers(b) {
                Ok((_, _, _, secs, _, _)) => {
                    &&& secs.len() == count
                    &&& 0 <= i < count ==> {
                        &&& secs[i].name == [b[o], b[o + 1], b[o + 2], b[o + 3], b[o + 4], b[o + 5], b[o + 6], b[o + 7]]
                        &&& secs[i].virtual_address as int == word(12)
                        &&& secs[i].size_of_raw_data as int == word(16)
                        &&& secs[i].pointer_to_raw_data as int == word(20)
                    }
                },
                Err(_) => false,
            }
        }),
{
    let nt = nt_offset(b);
    lemma_le16_value(b, nt + 6);
    lemma_le16_value(b, nt + 20);
    lemma_le32_value(b, 0x3c);
    let o = nt + 24 + le16(b, nt + 20) + 40 * i;
    lemma_le32_value(b, o + 12);
    lemma_le32_value(b, o + 16);
    lemma_le32_value(b, o + 20);
}

/// Law: the fields of the headers of a well-formed image. With `nt` the
/// 32-bit offset at `0x3c` and the optional header at `nt + 24`: the image is
/// a 32-bit one exactly when the optional header's magic word is `0x10b`;
/// the image base is the 32-bit word at 28 in a 32-bit optional header and
/// the 64-bit word at 24 in a 64-bit one; the exception directory (entry 3
/// of the data directories, which start at 96 in a 32-bit optional header
/// and at 112 in a 64-bit one) gives the address and size of `.pdata`. An
/// image without the `MZ` signature is refused.
pub proof fn lemma_pe_header_fields(b: Seq<u8>)
    ensures
        b.len() >= 64 && !(b[0] == 0x4d && b[1] == 0x5a) ==> pe_headers(b) == Err::<
            (Arch, u64, u64, Seq<SectionHeader>, u32, u32),
            PeError,
        >(PeError::BadDosSignature),
        pe_headers(b) matches Ok((arch, image_base, _, _, pdata_rva, pdata_size)) ==> {
            let nt = ((b[0x3c] as int) + (b[0x3d] as int) * 0x100 + (b[0x3e] as int) * 0x10000 + (
            b[0x3f] as int) * 0x1000000);
            let opt = nt + 24;
            let w32 = |o: int|
                (b[o] as int) + (b[o + 1] as int) * 0x100 + (b[o + 2] as int) * 0x10000 + (b[o + 3] as int)
                    * 0x1000000;
            let pe32 = b[opt] == 0x0b && b[opt + 1] == 0x01;
            &&& b[0] == 0x4d && b[1] == 0x5a
            &&& (arch == Arch::X86) == pe32
            &&& pe32 ==> image_base as int == w32(opt + 28) && pdata_rva as int == w32(opt + 96 + 24)
                && pdata_size as int == w32(opt + 96 + 28)
            &&& !pe32 ==> image_base as int == w32(opt + 24) + w32(opt + 28) * 0x1_0000_0000 && pdata_rva as int
                == w32(opt + 112 + 24) && pdata_size as int == w32(opt + 112 + 28)
        },
{
    lemma_le16_value(b, 0);
    if pe_headers(b) is Ok {
        let nt = nt_offset(b);
        let opt = nt + 24;
        lemma_le32_value(b, 0x3c);
        lemma_le16_value(b, opt);
        lemma_le32_value(b, opt + 24);
        lemma_le32_value(b, opt + 28);
        lemma_le32_value(b, opt + 120);
        lemma_le32_value(b, opt + 124);
        lemma_le32_value(b, opt + 136);
        lemma_le32_value(b, opt + 140);
        let lo = le32(b, opt + 24);
        let hi = le32(b, opt + 28);
        assert((lo as u64) | ((hi as u64) << 32u64) == (lo as u64) + (hi as u64) * 0x1_0000_0000) by (bit_vector);
    }
}

proof fn lemma_le16_value(b: Seq<u8>, o: int)
    ensures
        le16(b, o) as int == (b[o] as int) + (b[o + 1] as int) * 0x100,
{
    let x = b[o];
    let y = b[o + 1];
    assert((x as u16) | ((y as u16) << 8u16) == (x as u16) + (y as u16) * 0x100) by (bit_vector);
}

proof fn lemma_le32_value(b: Seq<u8>, o: int)
    ensures
        le32(b, o) as int == (b[o] as int) + (b[o + 1] as int) * 0x100 + (b[o + 2] as int) * 0x10000
            + (b[o + 3] as int) * 0x1000000,
{
    let x = b[o];
    let y = b[o + 1];
    let z = b[o + 2];
    let w = b[o + 3];
    assert((x as u32) | ((y as u32) << 8u32) | ((z as u32) << 16u32) | ((w as u32) << 24u32) == (x as u32)
        + (y as u32) * 0x100 + (z as u32) * 0x10000 + (w as u32) * 0x1000000) by (bit_vector);
}

/// Reads the headers of an image (see `pe_headers`).
pub fn parse_header(b: &Vec<u8>) -> (r: Result<PeHeaders, PeError>)
    ensures
        match r {
            Ok(h) => pe_headers(b@) == Ok::<(Arch, u64, u64, Seq<SectionHeader>, u32, u32), PeError>(
                (h.arch, h.image_base, h.string_table, h.sections@, h.pdata_rva, h.pdata_size),
            ),
            Err(e) => pe_headers(b@) == Err::<(Arch, u64, u64, Seq<SectionHeader>, u32, u32), PeError>(e),
        },
{
    if b.len() < 64 {
        return Err(PeError::Truncated);
    }
    if read16(b, 0) != 0x5a4d {
        return Err(PeError::BadDosSignature);
    }
    let nt = read32(b, 0x3c) as usize;
    if nt > b.len() || b.len() - nt < 24 + 240 {
        return Err(PeError::Truncated);
    }
    let opt_size = read16(b, nt + 20) as usize;
    let n = read16(b, nt + 6) as usize;
    if opt_size > b.len() - nt - 24 {
        return Err(PeError::Truncated);
    }
    let first = nt + 24 + opt_size;
    if (b.len() - first) / 40 < n {
        return Err(PeError::Truncated);
    }
    proof {
        assert(first + 40 * n <= b@.len()) by (nonlinear_arith)
            requires
                first <= b@.len(),
                (b@.len() - first) / 40 >= n,
        {}
    }
    let opt = nt + 24;
    let pe32 = read16(b, opt) == 0x10b;
    let arch = if pe32 {
        Arch::X86
    } else {
        Arch::X64
    };
    let image_base = if pe32 {
        read32(b, opt + 28) as u64
    } else {
        read64(b, opt + 24)
    };
    let string_table = read32(b, nt + 12) as u64 + read32(b, nt + 16).wrapping_mul(18) as u64;
    let (pdata_rva, pdata_size) = if pe32 {
        (read32(b, opt + 120), read32(b, opt + 124))
    } else {
        (read32(b, opt + 136), read32(b, opt + 140))
    };
    let mut sections: Vec<SectionHeader> = Vec::new();
    let mut i: usize = 0;
    let mut o: usize = first;
    while i < n
        invariant
            i <= n,
            o == first + 40 * i,
            first + 40 * n <= b.len(),
            sections@ == Seq::new(i as nat, |k: int| section_at(b@, first + 40 * k)),
        decreases n - i,
    {
        proof {
            assert(o + 40 <= first + 40 * n) by (nonlinear_arith)
                requires
                    o == first + 40 * i,
                    i < n,
            {}
            assert(o + 40 == first + 40 * (i + 1)) by (nonlinear_arith)
                requires
                    o == first + 40 * i,
            {}
        }
        let h = SectionHeader {
            name: [b[o], b[o + 1], b[o + 2], b[o + 3], b[o + 4], b[o + 5], b[o + 6], b[o + 7]],
            virtual_address: read32(b, o + 12),
            size_of_raw_data: read32(b, o + 16),
            pointer_to_raw_data: read32(b, o + 20),
        };
        proof {
            assert(h == section_at(b@, first + 40 * i));
            assert(Seq::new((i + 1) as nat, |k: int| section_at(b@, first + 40 * k)) =~= sections@.push(h));
        }
        sections.push(h);
        i = i + 1;
        o = o + 40;
    }
    Ok(PeHeaders { arch, image_base, string_table, sections, pdata_rva, pdata_size })
}

/// The entries of a function table held in `content` (12 bytes each: start,
/// end and unwind data, little-endian), those that start at 0 left out.
pub open spec fn table_entries(content: Seq<u8>) -> Seq<FuncEntry>
    decreases content.len(),
{
    if content.len() < 12 {
        Seq::empty()
    } else {
        let e = FuncEntry {
            begin_address: le32(content, 0),
            end_address: le32(content, 4),
            unwind_data: le32(content, 8),
        };
        let rest = table_entries(content.skip(12));
        if e.begin_address != 0 {
            seq![e] + rest
        } else {
            rest
        }
    }
}

/// Law: the function table read from `c` holds no entry that starts at 0,
/// and, when no 12-byte record of `c` starts at 0, it holds one entry per
/// whole record, in order: entry `i` is the record at `12 * i`, whose
/// little-endian words at 0, 4 and 8 are the start, end and unwind data.
pub proof fn lemma_table_entries_records(c: Seq<u8>)
    ensures
        forall|i: int| 0 <= i < table_entries(c).len() ==> #[trigger] table_entries(c)[i].begin_address != 0,
        (forall|r: int| 0 <= r < c.len() / 12 ==> #[trigger] le32(c, 12 * r) != 0) ==> {
            &&& table_entries(c).len() == c.len() / 12
            &&& forall|i: int|
                0 <= i < c.len() / 12 ==> #[trigger] table_entries(c)[i] == (FuncEntry {
                    begin_address: le32(c, 12 * i),
                    end_address: le32(c, 12 * i + 4),
                    unwind_data: le32(c, 12 * i + 8),
                })
        },
    decreases c.len(),
{
    if c.len() >= 12 {
        let d = c.skip(12);
        lemma_table_entries_records(d);
        assert(d.len() / 12 == c.len() / 12 - 1);
        assert forall|r: int| 0 <= r < d.len() * 1 implies #[trigger] d[r] == c[r + 12] by {}
        if forall|r: int| 0 <= r < c.len() / 12 ==> #[trigger] le32(c, 12 * r) != 0 {
            assert forall|r: int| 0 <= r < d.len() / 12 implies #[trigger] le32(d, 12 * r) != 0 by {
                assert(le32(d, 12 * r) == le32(c, 12 * (r + 1)));
            }
            assert(le32(c, 12 * 0int) != 0);
            assert forall|i: int| 0 <= i < c.len() / 12 implies #[trigger] table_entries(c)[i] == (FuncEntry {
                begin_address: le32(c, 12 * i),
                end_address: le32(c, 12 * i + 4),
                unwind_data: le32(c, 12 * i + 8),
            }) by {
                if i > 0 {
                    assert(table_entries(c)[i] == table_entries(d)[i - 1]);
                    assert(le32(d, 12 * (i - 1)) == le32(c, 12 * i));
                    assert(le32(d, 12 * (i - 1) + 4) == le32(c, 12 * i + 4));
                    assert(le32(d, 12 * (i - 1) + 8) == le32(c, 12 * i + 8));
                }
            }
        }
    }
}

/// The function table held in a section's content (see `table_entries`).
pub fn pdata_functions(content: &Vec<u8>) -> (r: Vec<FuncEntry>)
    ensures
        r@ == table_entries(content@),
{
    let mut out: Vec<FuncEntry> = Vec::new();
    let mut o: usize = 0;
    proof {
        assert(content@.skip(0) =~= content@);
    }
    while content.len() - o >= 12
        invariant
            o <= content@.len(),
            out@ + table_entries(content@.skip(o as int)) == table_entries(content@),
        decreases content.len() - o,
    {
        let e = FuncEntry {
            begin_address: read32(content, o),
            end_address: read32(content, o + 4),
            unwind_data: read32(content, o + 8),
        };
        proof {
            let t = content@.skip(o as int);
            assert(le32(t, 0) == le32(content@, o as int));
            assert(le32(t, 4) == le32(content@, o + 4));
            assert(le32(t, 8) == le32(content@, o + 8));
            assert(t.skip(12) =~= content@.skip(o + 12));
        }
        let ghost before = out@;
        if e.begin_address != 0 {
            out.push(e);
            proof {
                assert(before + (seq![e] + table_entries(content@.skip(o + 12))) =~= out@ + table_entries(content@.skip(o + 12)));
            }
        }
        o = o + 12;
    }
    proof {
        assert(out@ + Seq::<FuncEntry>::empty() =~= out@);
    }
    out
}

/// A section read from the image: its name, content and address.
#[derive(Debug)]
pub struct Section {
    pub name: String,
    pub content: Vec<u8>,
    pub addr: u32,
}

/// The sections whose content covers the range `rva`, `rva + size`.
pub open spec fn covers(rva: u32, size: u32) -> spec_fn(Section) -> bool {
    |s: Section| s.addr <= rva && s.addr as int + s.content@.len() >= rva as int + size as int
}

/// Where the function table is: the first section covering the exception
/// directory; `None` when the directory is empty or no section covers it.
pub open spec fn pdata_section(sections: Seq<Section>, rva: u32, size: u32) -> Option<int> {
    if rva == 0 || size == 0 {
        None
    } else {
        let i = first_index_by(sections, covers(rva, size));
        if i < sections.len() {
            Some(i)
        } else {
            None
        }
    }
}

/// Law: the function table is read from the first section whose content
/// covers the whole exception directory (it starts at or before `rva` and
/// ends at or after `rva + size`); there is none when the directory is empty
/// or no section covers it.
pub proof fn lemma_pdata_section_covers(sections: Seq<Section>, rva: u32, size: u32)
    ensures
        match pdata_section(sections, rva, size) {
            Some(i) => {
                &&& rva != 0 && size != 0
                &&& 0 <= i < sections.len()
                &&& sections[i].addr <= rva
                &&& sections[i].addr + sections[i].content@.len() >= rva + size
                &&& forall|j: int|
                    0 <= j < i ==> !(#[trigger] sections[j].addr <= rva && sections[j].addr
                        + sections[j].content@.len() >= rva + size)
            },
            None => rva == 0 || size == 0 || forall|j: int|
                0 <= j < sections.len() ==> !(#[trigger] sections[j].addr <= rva && sections[j].addr
                    + sections[j].content@.len() >= rva + size),
        },
{
    crate::commands::lemma_first_index_spec(sections, covers(rva, size));
}

/// The sections named `name`.
pub open spec fn named(name: Seq<char>) -> spec_fn(Section) -> bool {
    |s: Section| s.name@ == name
}

/// The first section named `name`, where the DWARF reader finds a debug
/// section (none: it reads an empty one).
pub fn section_index(sections: &Vec<Section>, name: &str) -> (r: Option<usize>)
    ensures
        match r {
            Some(i) => i == first_index_by(sections@, named(name@)) && i < sections@.len(),
            None => first_index_by(sections@, named(name@)) == sections@.len(),
        },
{
    let ghost p = named(name@);
    let mut i: usize = 0;
    while i < sections.len()
        invariant
            i <= sections.len(),
            p == named(name@),
            forall|j: int| 0 <= j < i ==> !p(#[trigger] sections@[j]),
        decreases sections.len() - i,
    {
        if crate::text::str_eq(sections[i].name.as_str(), name) {
            proof {
                crate::commands::lemma_first_index_by(sections@, p, i as int);
            }
            return Some(i);
        }
        i = i + 1;
    }
    proof {
        crate::commands::lemma_first_index_by(sections@, p, i as int);
    }
    None
}

/// The function table of an image whose sections are `sections` (see
/// `pdata_section` and `table_entries`); `None` when it has none.
pub fn parse_pdata(sections: &Vec<Section>, rva: u32, size: u32) -> (r: Option<Vec<FuncEntry>>)
    ensures
        match pdata_section(sections@, rva, size) {
            Some(i) => r matches Some(v) && v@ == table_entries(sections@[i].content@),
            None => r is None,
        },
{
    if rva == 0 || size == 0 {
        return None;
    }
    let ghost p = covers(rva, size);
    let mut i: usize = 0;
    while i < sections.len()
        invariant
            i <= sections.len(),
            rva != 0,
            size != 0,
            p == covers(rva, size),
            forall|j: int| 0 <= j < i ==> !p(#[trigger] sections@[j]),
        decreases sections.len() - i,
    {
        let s = &sections[i];
        if s.addr <= rva && s.addr as u128 + s.content.len() as u128 >= rva as u128 + size as u128 {
            proof {
                crate::commands::lemma_first_index_by(sections@, p, i as int);
            }
            return Some(pdata_functions(&s.content));
        }
        i = i + 1;
    }
    proof {
        crate::commands::lemma_first_index_by(sections@, p, i as int);
    }
    None
}

/// The pointer size of the word size.
pub open spec fn arch_ptr_size(a: Arch) -> u64 {
    match a {
        Arch::X86 => 4,
        Arch::X64 => 8,
    }
}

/// The decoder bitness of the word size.
pub open spec fn arch_bitness(a: Arch) -> u32 {
    match a {
        Arch::X86 => 32,
        Arch::X64 => 64,
    }
}

impl Arch {
    /// See `arch_ptr_size`.
    pub fn get_size_of_arch(&self) -> (r: u64)
        ensures
            r == arch_ptr_size(*self),
    {
        match self {
            Arch::X86 => 4,
            Arch::X64 => 8,
        }
    }

    /// See `arch_bitness`.
    pub fn get_bitness(&self) -> (r: u32)
        ensures
            r == arch_bitness(*self),
    {
        match self {
            Arch::X86 => 32,
            Arch::X64 => 64,
        }
    }
}


/// Whether byte `k` of `b` exists and continues a UTF-8 sequence.
pub open spec fn utf8_cont(b: Seq<u8>, k: int) -> bool {
    b.len() > k && 0x80 <= b[k] <= 0xbf
}

/// Whether byte 1 of `b` exists and lies in `lo..=hi`.
pub open spec fn utf8_second(b: Seq<u8>, lo: u8, hi: u8) -> bool {
    b.len() > 1 && lo <= b[1] <= hi
}

/// The length of the well-formed UTF-8 sequence that starts `b` (the byte
/// sequences of table 3-7 of the Unicode standard), 0 when none does.
pub open spec fn utf8_seq_len(b: Seq<u8>) -> nat {
    if b.len() == 0 {
        0
    } else if b[0] <= 0x7f {
        1
    } else if 0xc2 <= b[0] <= 0xdf {
        if utf8_cont(b, 1) { 2 } else { 0 }
    } else if b[0] == 0xe0 {
        if utf8_second(b, 0xa0, 0xbf) && utf8_cont(b, 2) { 3 } else { 0 }
    } else if (0xe1 <= b[0] <= 0xec) || (0xee <= b[0] <= 0xef) {
        if utf8_cont(b, 1) && utf8_cont(b, 2) { 3 } else { 0 }
    } else if b[0] == 0xed {
        if utf8_second(b, 0x80, 0x9f) && utf8_cont(b, 2) { 3 } else { 0 }
    } else if b[0] == 0xf0 {
        if utf8_second(b, 0x90, 0xbf) && utf8_cont(b, 2) && utf8_cont(b, 3) { 4 } else { 0 }
    } else if 0xf1 <= b[0] <= 0xf3 {
        if utf8_cont(b, 1) && utf8_cont(b, 2) && utf8_cont(b, 3) { 4 } else { 0 }
    } else if b[0] == 0xf4 {
        if utf8_second(b, 0x80, 0x8f) && utf8_cont(b, 2) && utf8_cont(b, 3) { 4 } else { 0 }
    } else {
        0
    }
}

/// Whether `b` is valid UTF-8: a series of well-formed sequences.
pub open spec fn valid_utf8(b: Seq<u8>) -> bool
    decreases b.len(),
{
    if b.len() == 0 {
        true
    } else {
        let n = utf8_seq_len(b);
        n > 0 && valid_utf8(b.skip(n as int))
    }
}

/// The text that `String::from_utf8_lossy` makes of `b`.
pub uninterp spec fn lossy_text(b: Seq<u8>) -> Seq<char>;

/// Whether `b[from..]` is valid UTF-8. Trusted: `std::str::from_utf8`,
/// documented to succeed exactly on valid UTF-8 (`valid_utf8`).
#[verifier::external_body]
fn utf8_ok(b: &Vec<u8>, from: usize) -> (r: bool)
    requires
        from <= b@.len(),
    ensures
        r == valid_utf8(b@.skip(from as int)),
{
    std::str::from_utf8(&b[from..]).is_ok()
}

/// The text of `b`, invalid sequences replaced. Trusted:
/// `String::from_utf8_lossy`, whose result depends on the bytes alone; it is
/// not stated which text that is.
#[verifier::external_body]
pub(crate) fn lossy_string(b: &Vec<u8>) -> (r: String)
    ensures
        r@ == lossy_text(b@),
{
    String::from_utf8_lossy(b).to_string()
}

/// Where the name of a section is.
#[derive(Debug, Clone, Copy, PartialEq, Eq, Structural)]
pub enum NameRef {
    /// In the header itself.
    Inline,
    /// In the string table, at this offset from its start; the name is the
    /// part of the header before `/` followed by the table's text.
    Table(usize, u64),
    /// The offset cannot be read (its text is not UTF-8 or holds no number):
    /// reading it panics.
    Malformed,
}

/// The digits and minus signs among `b`, as characters.
pub open spec fn offset_chars(b: Seq<u8>) -> Seq<char>
    decreases b.len(),
{
    if b.len() == 0 {
        Seq::empty()
    } else {
        let rest = offset_chars(b.drop_last());
        let c = b.last();
        if (0x30 <= c <= 0x39) || c == 0x2d {
            rest.push(c as char)
        } else {
            rest
        }
    }
}

/// Where the name of a section whose header name is `name` lies: a `/`
/// followed by the decimal offset of the name in the string table (other
/// characters than digits and `-` ignored), else inline.
pub open spec fn name_ref(name: Seq<u8>) -> NameRef {
    let i = first_index_by(name, |c: u8| c == 0x2f);
    if i == name.len() {
        NameRef::Inline
    } else if !valid_utf8(name.skip(i + 1)) {
        NameRef::Malformed
    } else {
        match crate::number::str_to_spec(offset_chars(name.skip(i + 1)), crate::number::IntKind::U64) {
            Ok(v) => NameRef::Table(i as usize, v as u64),
            Err(_) => NameRef::Malformed,
        }
    }
}

/// See `name_ref`.
pub fn get_name(name: &Vec<u8>) -> (r: NameRef)
    ensures
        r == name_ref(name@),
{
    let ghost p = |c: u8| c == 0x2f;
    let mut i: usize = 0;
    while i < name.len()
        invariant
            i <= name.len(),
            p == (|c: u8| c == 0x2f),
            forall|j: int| 0 <= j < i ==> !p(#[trigger] name@[j]),
        ensures
            i <= name.len(),
            forall|j: int| 0 <= j < i ==> !p(#[trigger] name@[j]),
            i == name.len() || p(name@[i as int]),
        decreases name.len() - i,
    {
        if name[i] == 0x2f {
            break;
        }
        i = i + 1;
    }
    proof {
        crate::commands::lemma_first_index_by(name@, p, i as int);
    }
    if i == name.len() {
        return NameRef::Inline;
    }
    if !utf8_ok(name, i + 1) {
        return NameRef::Malformed;
    }
    let mut digits: Vec<char> = Vec::new();
    let mut k: usize = i + 1;
    proof {
        assert(name@.skip(i + 1).take(0) =~= Seq::<u8>::empty());
    }
    while k < name.len()
        invariant
            i + 1 <= k <= name.len(),
            digits@ == offset_chars(name@.skip(i + 1).take(k - i - 1)),
        decreases name.len() - k,
    {
        proof {
            assert(name@.skip(i + 1).take(k + 1 - i - 1).drop_last() =~= name@.skip(i + 1).take(k - i - 1));
            assert(name@.skip(i + 1).take(k + 1 - i - 1).last() == name@[k as int]);
        }
        let c = name[k];
        if (0x30 <= c && c <= 0x39) || c == 0x2d {
            digits.push(c as char);
        }
        k = k + 1;
    }
    proof {
        assert(name@.skip(i + 1).take(name.len() - i - 1) =~= name@.skip(i + 1));
    }
    match crate::number::str_to_u64_chars(&digits) {
        Ok(v) => NameRef::Table(i, v),
        Err(_) => NameRef::Malformed,
    }
}

/// `s` without the NUL characters that end it.
pub open spec fn trim_nul_end(s: Seq<char>) -> Seq<char>
    decreases s.len(),
{
    if s.len() > 0 && s.last() == '\0' {
        trim_nul_end(s.drop_last())
    } else {
        s
    }
}

/// The name bytes of a section whose name lies in the string table: the
/// header name before `/` (`prefix` bytes), then the table's text up to its
/// first NUL.
pub open spec fn joined_name(name: Seq<u8>, prefix: int, table: Seq<u8>) -> Seq<u8> {
    name.take(prefix) + table.take(first_index_by(table, |c: u8| c == 0))
}

/// See `joined_name`.
pub fn table_name(name: &Vec<u8>, prefix: usize, table: &Vec<u8>) -> (r: Vec<u8>)
    requires
        prefix <= name@.len(),
    ensures
        r@ == joined_name(name@, prefix as int, table@),
{
    let mut out: Vec<u8> = Vec::new();
    let mut i: usize = 0;
    while i < prefix
        invariant
            i <= prefix <= name@.len(),
            out@ == name@.take(i as int),
        decreases prefix - i,
    {
        out.push(name[i]);
        proof {
            assert(name@.take(i + 1) =~= name@.take(i as int).push(name@[i as int]));
        }
        i = i + 1;
    }
    let ghost p = |c: u8| c == 0;
    let ghost start = out@;
    let mut j: usize = 0;
    while j < table.len() && table[j] != 0
        invariant
            j <= table.len(),
            p == (|c: u8| c == 0),
            forall|q: int| 0 <= q < j ==> !p(#[trigger] table@[q]),
            out@ == start + table@.take(j as int),
        decreases table.len() - j,
    {
        out.push(table[j]);
        proof {
            assert(start + table@.take(j + 1) =~= (start + table@.take(j as int)).push(table@[j as int]));
        }
        j = j + 1;
    }
    proof {
        crate::commands::lemma_first_index_by(table@, p, j as int);
    }
    out
}

/// The name of a section from its name bytes: their text (invalid UTF-8
/// replaced), without the NULs that end it.
pub fn section_name(b: &Vec<u8>) -> (r: String)
    ensures
        r@ == trim_nul_end(lossy_text(b@)),
{
    let t = lossy_string(b);
    let mut v = crate::text::chars_of(t.as_str());
    while v.len() > 0 && v[v.len() - 1] == '\0'
        invariant
            trim_nul_end(v@) == trim_nul_end(lossy_text(b@)),
        decreases v.len(),
    {
        proof {
            assert(v@.drop_last() =~= v@.subrange(0, v@.len() - 1));
        }
        v.pop();
    }
    crate::text::string_from(&v)
}


/// Whether a file starts with the DOS signature `MZ`, which is all the
/// debugger asks of a file before it becomes the one to debug.
pub fn starts_with_mz(b: &Vec<u8>) -> (r: bool)
    ensures
        r == (b@.len() >= 2 && b@[0] == 0x4d && b@[1] == 0x5a),
{
    b.len() >= 2 && b[0] == 0x4d && b[1] == 0x5a
}

} // verus!
