//! Flattening an ELF firmware image into the bytes to write to flash.
//!
//! The `elf` crate parses the file; its load segments, symbols and
//! string tables are handed over as plain values, and the flattening,
//! the search for the version and the RAM accounting are done here.
use vstd::prelude::*;
use vstd::string::StringSliceAdditionalSpecFns;

use crate::protocol::wire::le_u32_at;
use crate::text::{bytes_eq, str_from_utf8};
use crate::version::{nul_index, lemma_nul_index, Version, VERSION_LEN};

use super::binformat::{BinaryInfo, ImageError};
use super::common::{read_le_u32, RAM_START};

verus! {

/// The `elf` crate's handle on a parsed file: its header, and where its
/// section and program header tables lie. Only the `elf` crate reads it.
#[verifier::external_body]
struct ElfHandle<'a> {
    elf: ::elf::ElfBytes<'a, ::elf::endian::AnyEndian>,
}

/// A parsed ELF file, with the bytes it was parsed from. Only
/// [elf_parse] makes one, so the two always agree.
pub struct ElfFile<'a> {
    data: &'a [u8],
    handle: ElfHandle<'a>,
}

impl<'a> View for ElfFile<'a> {
    type V = Seq<u8>;

    /// The bytes of the file.
    closed spec fn view(&self) -> Seq<u8> {
        self.data@
    }
}

#[verifier::external_type_specification]
#[verifier::external_body]
pub struct ExStringTable<'data>(::elf::string_table::StringTable<'data>);

/// A program header of an ELF file.
#[derive(Debug, Clone, Copy, PartialEq, Eq, PartialOrd, Ord, Hash)]
pub struct ElfSegment {
    pub p_type: u32,
    pub p_offset: u64,
    pub p_vaddr: u64,
    pub p_paddr: u64,
    pub p_filesz: u64,
    pub p_memsz: u64,
    pub p_flags: u32,
    pub p_align: u64,
}

/// An entry of an ELF symbol table.
#[derive(Debug, Clone, Copy, PartialEq, Eq, PartialOrd, Ord, Hash)]
pub struct ElfSymbol {
    /// Offset of the name in the symbol string table.
    pub st_name: u32,
    /// Index of the section the symbol is defined in.
    pub st_shndx: u16,
    /// Value of the symbol: for data, its address.
    pub st_value: u64,
}

/// Whether `ElfBytes::minimal_parse` accepts `data` as an ELF file.
pub uninterp spec fn elf_parses(data: Seq<u8>) -> bool;

/// The program headers that `ElfBytes::segments` gives for the ELF file
/// `file` (none when it has no program header table).
pub uninterp spec fn elf_segments_of(file: Seq<u8>) -> Seq<ElfSegment>;

/// The symbols of the ELF file `file` that `ElfBytes::symbol_table` gives,
/// with the bytes of the string table of their names; none when the file
/// has no symbol table or it does not parse.
pub uninterp spec fn elf_symbol_table_of(file: Seq<u8>) -> Option<(Seq<ElfSymbol>, Seq<u8>)>;

/// The name offsets of the section headers of the ELF file `file` that
/// `ElfBytes::section_headers_with_strtab` gives, with the bytes of the
/// string table of section names; none when either is missing or does
/// not parse.
pub uninterp spec fn elf_section_names_of(file: Seq<u8>) -> Option<(Seq<u32>, Seq<u8>)>;

/// The bytes of a string table of the `elf` crate.
pub uninterp spec fn strtab_bytes(table: ::elf::string_table::StringTable) -> Seq<u8>;

/// Calls `ElfBytes::<AnyEndian>::minimal_parse`, which reads the ELF
/// header and locates the section and program header tables; whether it
/// succeeds depends on the bytes alone. The file it gives holds them.
#[verifier::external_body]
fn elf_parse<'a>(data: &'a [u8]) -> (r: Option<ElfFile<'a>>)
    ensures
        r is Some == elf_parses(data@),
        r matches Some(f) ==> f@ == data@,
{
    let parsed = ::elf::ElfBytes::<::elf::endian::AnyEndian>::minimal_parse(data).ok();
    parsed.map(|elf| ElfFile { data, handle: ElfHandle { elf } })
}

/// Calls `ElfBytes::segments` and reads the program headers out of the
/// table it gives, none when there is no table: they are named by
/// [elf_segments_of] of the file's bytes.
#[verifier::external_body]
fn elf_segments<'a>(file: &ElfFile<'a>) -> (r: Vec<ElfSegment>)
    ensures
        r@ == elf_segments_of(file@),
{
    let convert = |p: ::elf::segment::ProgramHeader| ElfSegment {
        p_type: p.p_type, p_offset: p.p_offset, p_vaddr: p.p_vaddr, p_paddr: p.p_paddr,
        p_filesz: p.p_filesz, p_memsz: p.p_memsz, p_flags: p.p_flags, p_align: p.p_align,
    };
    match file.handle.elf.segments() {
        Some(table) => table.iter().map(convert).collect(),
        None => Vec::new(),
    }
}

/// The file data of a segment: `p_filesz` bytes from `p_offset`, when
/// they lie inside the file.
pub open spec fn segment_file_data(file: Seq<u8>, seg: ElfSegment) -> Option<Seq<u8>> {
    if seg.p_offset + seg.p_filesz <= file.len() {
        Some(file.subrange(seg.p_offset as int, seg.p_offset + seg.p_filesz))
    } else {
        None
    }
}

/// Calls `ElfBytes::segment_data`, which takes the file bytes from
/// `p_offset`, as many as `p_filesz` says, and fails when the range
/// overflows or runs past the end of the file.
#[verifier::external_body]
fn elf_segment_data<'a>(file: &ElfFile<'a>, seg: &ElfSegment) -> (r: Option<&'a [u8]>)
    ensures
        match r {
            Some(d) => segment_file_data(file@, *seg) == Some(d@),
            None => segment_file_data(file@, *seg) is None,
        },
{
    let p = ::elf::segment::ProgramHeader {
        p_type: seg.p_type, p_offset: seg.p_offset, p_vaddr: seg.p_vaddr, p_paddr: seg.p_paddr,
        p_filesz: seg.p_filesz, p_memsz: seg.p_memsz, p_flags: seg.p_flags, p_align: seg.p_align,
    };
    file.handle.elf.segment_data(&p).ok()
}

/// Calls `ElfBytes::symbol_table` and reads the symbols out of the table,
/// alongside the table of their names, as [elf_symbol_table_of] names
/// them; none when the file has no symbol table or it does not parse.
#[verifier::external_body]
fn elf_symbol_table<'a>(file: &ElfFile<'a>) -> (r: Option<(Vec<ElfSymbol>, ::elf::string_table::StringTable<'a>)>)
    ensures
        match r {
            Some((syms, names)) => elf_symbol_table_of(file@) == Some((syms@, strtab_bytes(names))),
            None => elf_symbol_table_of(file@) is None,
        },
{
    let convert = |s: ::elf::symbol::Symbol| ElfSymbol {
        st_name: s.st_name, st_shndx: s.st_shndx, st_value: s.st_value,
    };
    match file.handle.elf.symbol_table() {
        Ok(Some((table, names))) => Some((table.iter().map(convert).collect(), names)),
        _ => None,
    }
}

/// Calls `ElfBytes::section_headers_with_strtab` and reads the name
/// offset of each section header, alongside the table of section names,
/// as [elf_section_names_of] names them; none when either is missing or
/// does not parse.
#[verifier::external_body]
fn elf_section_names<'a>(file: &ElfFile<'a>) -> (r: Option<(Vec<u32>, ::elf::string_table::StringTable<'a>)>)
    ensures
        match r {
            Some((offsets, names)) => elf_section_names_of(file@) == Some(
                (offsets@, strtab_bytes(names)),
            ),
            None => elf_section_names_of(file@) is None,
        },
{
    match file.handle.elf.section_headers_with_strtab() {
        Ok((Some(table), Some(names))) => Some(
            (table.iter().map(|s: ::elf::section::SectionHeader| s.sh_name).collect(), names),
        ),
        _ => None,
    }
}

/// The string at `offset` of a string table with these bytes: the bytes
/// from there up to the next NUL, when there is one and they are UTF-8.
pub open spec fn strtab_entry(table: Seq<u8>, offset: int) -> Option<Seq<u8>> {
    if table.len() == 0 || offset > table.len() {
        None
    } else {
        let rest = table.subrange(offset, table.len() as int);
        let z = nul_index(rest);
        if z < rest.len() && vstd::utf8::valid_utf8(rest.take(z)) {
            Some(rest.take(z))
        } else {
            None
        }
    }
}

/// Calls `StringTable::get`, which fails on an empty table or an offset
/// past its end, finds the first NUL from `offset` on (failing when there
/// is none), and gives the bytes before it as UTF-8 text (failing when
/// they are not).
#[verifier::external_body]
fn strtab_get<'a>(table: &::elf::string_table::StringTable<'a>, offset: usize) -> (r: Option<&'a str>)
    ensures
        match r {
            Some(s) => strtab_entry(strtab_bytes(*table), offset as int) == Some(s.spec_bytes()),
            None => strtab_entry(strtab_bytes(*table), offset as int) is None,
        },
{
    table.get(offset).ok()
}

/// Segment type of a loadable segment.
pub const PT_LOAD: u32 = 1;

/// Segments this large, or placed this high, are not firmware.
pub const BIG_SIZE: u64 = 0x10000;

/// Why an ELF image could not be flattened.
#[derive(Debug, Clone, Copy, PartialEq, Eq, PartialOrd, Ord, Hash)]
pub enum ElfError {
    /// Could not open ELF image.
    NotElf,
    /// ELF file segments too large.
    SegmentsTooLarge,
    /// The data of a segment lies outside the file.
    SegmentData,
    /// The version symbol points outside the image.
    BadVersionPointer,
    /// A segment's addresses overflow.
    Overflow,
    /// The flat image has no vector table.
    Image(ImageError),
}

/// `d` written over `flat` from index `start` on.
pub open spec fn place(flat: Seq<u8>, start: int, d: Seq<u8>) -> Seq<u8> {
    Seq::new(flat.len(), |i: int| if start <= i < start + d.len() { d[i - start] } else { flat[i] })
}

/// What one program header does to the flat image built so far: a
/// loadable segment with file data grows the image with zeros to the
/// segment's end in memory, then has its data (no more than its memory
/// size) written at its physical address.
pub open spec fn flatten_step(flat: Seq<u8>, seg: ElfSegment, data: Option<Seq<u8>>) -> Result<
    Seq<u8>,
    ElfError,
> {
    if seg.p_type != PT_LOAD || seg.p_filesz == 0 {
        Ok(flat)
    } else if seg.p_filesz >= BIG_SIZE || seg.p_memsz >= BIG_SIZE || seg.p_paddr >= BIG_SIZE {
        Err(ElfError::SegmentsTooLarge)
    } else {
        match data {
            None => Err(ElfError::SegmentData),
            Some(d) => {
                let start = seg.p_paddr as int;
                let end = start + seg.p_memsz;
                let grown = if end > flat.len() {
                    flat + Seq::new((end - flat.len()) as nat, |i: int| 0u8)
                } else {
                    flat
                };
                let n = if d.len() < seg.p_memsz {
                    d.len() as int
                } else {
                    seg.p_memsz as int
                };
                Ok(place(grown, start, d.take(n)))
            },
        }
    }
}

/// The flat image after the first `k` program headers.
pub open spec fn spec_flatten(segs: Seq<ElfSegment>, datas: Seq<Option<Seq<u8>>>, k: int) -> Result<
    Seq<u8>,
    ElfError,
>
    decreases k,
{
    if k <= 0 {
        Ok(Seq::empty())
    } else {
        match spec_flatten(segs, datas, k - 1) {
            Err(e) => Err(e),
            Ok(f) => flatten_step(f, segs[k - 1], datas[k - 1]),
        }
    }
}

/// Once flattening fails, later program headers keep the failure.
proof fn lemma_flatten_err(segs: Seq<ElfSegment>, datas: Seq<Option<Seq<u8>>>, k: int, n: int)
    requires
        0 <= k <= n,
        spec_flatten(segs, datas, k) is Err,
    ensures
        spec_flatten(segs, datas, n) == spec_flatten(segs, datas, k),
    decreases n - k,
{
    if n > k {
        lemma_flatten_err(segs, datas, k, n - 1);
    }
}

/// Once the RAM accounting overflows, later program headers keep the
/// failure.
proof fn lemma_ram_none(segs: Seq<ElfSegment>, stack_top: int, k: int, n: int)
    requires
        0 <= k <= n,
        spec_ram(segs, stack_top, k) is None,
    ensures
        spec_ram(segs, stack_top, n) is None,
    decreases n - k,
{
    if n > k {
        lemma_ram_none(segs, stack_top, k, n - 1);
    }
}

/// The views of optional segment data.
pub open spec fn data_views(datas: Seq<Option<&[u8]>>) -> Seq<Option<Seq<u8>>> {
    Seq::new(
        datas.len(),
        |i: int|
            match datas[i] {
                Some(d) => Some(d@),
                None => None,
            },
    )
}

/// Flatten the loadable segments of an ELF image, each with its file
/// data (none where it lies outside the file), into the bytes of flash.
pub fn flatten_segments(segs: &[ElfSegment], datas: &[Option<&[u8]>]) -> (r: Result<
    Vec<u8>,
    ElfError,
>)
    requires
        segs@.len() == datas@.len(),
    ensures
        match r {
            Ok(flat) => spec_flatten(segs@, data_views(datas@), segs@.len() as int) == Ok::<
                Seq<u8>,
                ElfError,
            >(flat@),
            Err(e) => spec_flatten(segs@, data_views(datas@), segs@.len() as int) == Err::<
                Seq<u8>,
                ElfError,
            >(e),
        },
{
    let ghost dv = data_views(datas@);
    let mut flat: Vec<u8> = Vec::new();
    let mut k: usize = 0;
    while k < segs.len()
        invariant
            k <= segs@.len() == datas@.len(),
            dv == data_views(datas@),
            spec_flatten(segs@, dv, k as int) == Ok::<Seq<u8>, ElfError>(flat@),
            flat@.len() < 2 * BIG_SIZE,
        decreases segs@.len() - k,
    {
        let seg = segs[k];
        k += 1;
        if seg.p_type != PT_LOAD || seg.p_filesz == 0 {
            continue;
        }
        if seg.p_filesz >= BIG_SIZE || seg.p_memsz >= BIG_SIZE || seg.p_paddr >= BIG_SIZE {
            proof {
                lemma_flatten_err(segs@, dv, k as int, segs@.len() as int);
            }
            return Err(ElfError::SegmentsTooLarge);
        }
        let d = match datas[k - 1] {
            Some(d) => d,
            None => {
                proof {
                    lemma_flatten_err(segs@, dv, k as int, segs@.len() as int);
                }
                return Err(ElfError::SegmentData);
            },
        };
        let start = seg.p_paddr as usize;
        let end = start + seg.p_memsz as usize;
        let ghost before = flat@;
        if end > flat.len() {
            while flat.len() < end
                invariant
                    before.len() <= flat@.len() <= end,
                    flat@ == before + Seq::new((flat@.len() - before.len()) as nat, |i: int| 0u8),
                decreases end - flat@.len(),
            {
                flat.push(0);
                assert(flat@ =~= before + Seq::new(
                    (flat@.len() - before.len()) as nat,
                    |i: int| 0u8,
                ));
            }
        }
        let ghost grown = flat@;
        assert(grown == if end > before.len() {
            before + Seq::new((end - before.len()) as nat, |i: int| 0u8)
        } else {
            before
        });
        let n = if d.len() < seg.p_memsz as usize {
            d.len()
        } else {
            seg.p_memsz as usize
        };
        let mut i: usize = 0;
        while i < n
            invariant
                i <= n <= d@.len(),
                start + n <= end <= flat@.len() == grown.len(),
                flat@ == place(grown, start as int, d@.take(i as int)),
            decreases n - i,
        {
            flat.set(start + i, d[i]);
            i += 1;
            assert(flat@ =~= place(grown, start as int, d@.take(i as int)));
        }
        assert(dv[k - 1] == Some(d@));
    }
    Ok(flat)
}

/// The bytes spelling "VERSION".
pub const VERSION_NAME: [u8; 7] = [0x56, 0x45, 0x52, 0x53, 0x49, 0x4f, 0x4e];

/// The bytes spelling ".text".
pub const TEXT_NAME: [u8; 5] = [0x2e, 0x74, 0x65, 0x78, 0x74];

/// The bytes spelling ".rodata".
pub const RODATA_NAME: [u8; 7] = [0x2e, 0x72, 0x6f, 0x64, 0x61, 0x74, 0x61];

/// Whether `sym` is the version symbol: its name reads `VERSION` and the
/// name of its section reads `.text` or `.rodata`, in the given string
/// tables and section name offsets.
pub open spec fn is_version_symbol(
    sym: ElfSymbol,
    symstr: Seq<u8>,
    sections: Seq<u32>,
    secstr: Seq<u8>,
) -> bool {
    let idx = sym.st_shndx as int;
    let section = if idx < sections.len() {
        strtab_entry(secstr, sections[idx] as int)
    } else {
        None
    };
    &&& strtab_entry(symstr, sym.st_name as int) == Some(VERSION_NAME@)
    &&& (section == Some(TEXT_NAME@) || section == Some(RODATA_NAME@))
}

/// The value of the first version symbol from index `i` on, if any.
pub open spec fn first_version_symbol(
    symbols: Seq<ElfSymbol>,
    symstr: Seq<u8>,
    sections: Seq<u32>,
    secstr: Seq<u8>,
    i: int,
) -> Option<usize>
    decreases symbols.len() - i,
{
    if i < 0 || i >= symbols.len() {
        None
    } else if is_version_symbol(symbols[i], symstr, sections, secstr) {
        Some(symbols[i].st_value as usize)
    } else {
        first_version_symbol(symbols, symstr, sections, secstr, i + 1)
    }
}

/// Search the symbols for the first one named `VERSION` that lies in the
/// `.text` or `.rodata` section, and give its value: the address of a
/// pointer to the version string. Symbols whose name or section name
/// cannot be read are passed over.
pub fn version_symbol<'a>(
    symbols: &[ElfSymbol],
    symstr: &::elf::string_table::StringTable<'a>,
    sections: &[u32],
    secstr: &::elf::string_table::StringTable<'a>,
) -> (r: Option<usize>)
    ensures
        r == first_version_symbol(
            symbols@,
            strtab_bytes(*symstr),
            sections@,
            strtab_bytes(*secstr),
            0,
        ),
{
    let ghost syms = strtab_bytes(*symstr);
    let ghost secs = strtab_bytes(*secstr);
    let mut i: usize = 0;
    while i < symbols.len()
        invariant
            i <= symbols@.len(),
            syms == strtab_bytes(*symstr),
            secs == strtab_bytes(*secstr),
            first_version_symbol(symbols@, syms, sections@, secs, 0) == first_version_symbol(
                symbols@,
                syms,
                sections@,
                secs,
                i as int,
            ),
        decreases symbols@.len() - i,
    {
        let sym = symbols[i];
        let name = strtab_get(symstr, sym.st_name as usize);
        let idx = sym.st_shndx as usize;
        let section = if idx < sections.len() {
            strtab_get(secstr, sections[idx] as usize)
        } else {
            None
        };
        let found = match (name, section) {
            (Some(name), Some(section)) => bytes_eq(name.as_bytes(), VERSION_NAME.as_slice()) && (
            // sanity check, in case something else makes a VERSION sym
            bytes_eq(section.as_bytes(), TEXT_NAME.as_slice()) || bytes_eq(
                section.as_bytes(),
                RODATA_NAME.as_slice(),
            )),
            _ => false,
        };
        assert(found == is_version_symbol(symbols@[i as int], syms, sections@, secs));
        if found {
            return Some(sym.st_value as usize);
        }
        i += 1;
    }
    None
}

/// The version that the pointer at `ptr` in the flat image points to: a
/// NUL-terminated string of at most [VERSION_LEN] bytes, including the
/// NUL, that is UTF-8 and not empty. A pointer that points outside the
/// image is an error.
pub open spec fn spec_extract_version(flat: Seq<u8>, ptr: int) -> Result<Option<Seq<u8>>, ElfError> {
    if ptr > flat.len() {
        Err(ElfError::BadVersionPointer)
    } else if flat.len() - ptr < 4 {
        Ok(None)
    } else {
        let start = le_u32_at(flat, ptr) as int;
        if start > flat.len() {
            Err(ElfError::BadVersionPointer)
        } else {
            let end = if flat.len() - start < VERSION_LEN {
                flat.len() as int
            } else {
                start + VERSION_LEN
            };
            let window = flat.subrange(start, end);
            let z = nul_index(window);
            if z == window.len() {
                Ok(None)
            } else {
                let name = window.take(z);
                if z > 0 && vstd::utf8::valid_utf8(name) {
                    Ok(Some(name))
                } else {
                    Ok(None)
                }
            }
        }
    }
}

/// Read the version string that the pointer at `ptr` points to.
pub fn extract_version(flat: &[u8], ptr: usize) -> (r: Result<Option<Version>, ElfError>)
    ensures
        match spec_extract_version(flat@, ptr as int) {
            Err(e) => r == Err::<Option<Version>, ElfError>(e),
            Ok(None) => r == Ok::<Option<Version>, ElfError>(None),
            Ok(Some(name)) => r matches Ok(Some(v)) && v@ == name + Seq::new(
                (VERSION_LEN - name.len()) as nat,
                |i: int| 0u8,
            ),
        },
{
    if ptr > flat.len() {
        return Err(ElfError::BadVersionPointer);
    }
    let start = match read_le_u32(vstd::slice::slice_subrange(flat, ptr, flat.len())) {
        Some(s) => s as usize,
        None => return Ok(None),
    };
    assert(le_u32_at(flat@.subrange(ptr as int, flat@.len() as int), 0) == le_u32_at(flat@, ptr as int));
    if start > flat.len() {
        return Err(ElfError::BadVersionPointer);
    }
    let end = if flat.len() - start < VERSION_LEN {
        flat.len()
    } else {
        start + VERSION_LEN
    };
    let window = vstd::slice::slice_subrange(flat, start, end);
    let mut z: usize = 0;
    while z < window.len() && window[z] != 0
        invariant
            z <= window@.len(),
            forall|j: int| 0 <= j < z ==> window@[j] != 0,
        decreases window@.len() - z,
    {
        z += 1;
    }
    proof {
        lemma_nul_index(window@);
        if nul_index(window@) < z {
            assert(window@[nul_index(window@)] != 0);
        }
        if z < nul_index(window@) {
            assert(window@[z as int] != 0);
        }
    }
    if z == window.len() {
        return Ok(None);
    }
    let name = vstd::slice::slice_subrange(window, 0, z);
    assert(name@ =~= window@.take(z as int));
    if z == 0 {
        return Ok(None);
    }
    match str_from_utf8(name) {
        Ok(_) => {},
        Err(_) => return Ok(None),
    }
    match Version::new_from_bytes(name) {
        Ok(v) => Ok(Some(v)),
        Err(_) => Ok(None),
    }
}

/// What one program header adds to the RAM accounting `(ram, bottom)`:
/// a loadable segment in RAM adds its memory size to the RAM used, and
/// its end, when at or below the stack top and above the bottom so far,
/// becomes the bottom of the stack.
pub open spec fn ram_step(acc: (int, int), seg: ElfSegment, stack_top: int) -> Option<(int, int)> {
    if seg.p_type != PT_LOAD || seg.p_vaddr < RAM_START {
        Some(acc)
    } else if acc.0 + (seg.p_memsz as usize) > usize::MAX || seg.p_vaddr + seg.p_memsz > u64::MAX {
        None
    } else {
        let end = ((seg.p_vaddr + seg.p_memsz) as u64) as usize as int;
        Some(
            (
                acc.0 + (seg.p_memsz as usize),
                if end <= stack_top && end > acc.1 {
                    end
                } else {
                    acc.1
                },
            ),
        )
    }
}

/// The RAM accounting after the first `k` program headers; none when an
/// address overflows.
pub open spec fn spec_ram(segs: Seq<ElfSegment>, stack_top: int, k: int) -> Option<(int, int)>
    decreases k,
{
    if k <= 0 {
        Some((0, RAM_START as int))
    } else {
        match spec_ram(segs, stack_top, k - 1) {
            None => None,
            Some(acc) => ram_step(acc, segs[k - 1], stack_top),
        }
    }
}

/// Count up the RAM the loadable segments use, and find where the stack
/// ends: the highest segment end in RAM at or below the stack top.
pub fn ram_and_stack(segs: &[ElfSegment], stack_top: usize) -> (r: Result<(usize, usize), ElfError>)
    ensures
        match spec_ram(segs@, stack_top as int, segs@.len() as int) {
            None => r == Err::<(usize, usize), ElfError>(ElfError::Overflow),
            Some((ram, bottom)) => r matches Ok((a, b)) && a == ram && b == bottom,
        },
{
    let mut ram_len: usize = 0;
    let mut stack_bottom: usize = RAM_START;
    let mut k: usize = 0;
    while k < segs.len()
        invariant
            k <= segs@.len(),
            spec_ram(segs@, stack_top as int, k as int) == Some((ram_len as int, stack_bottom as int)),
        decreases segs@.len() - k,
    {
        let seg = segs[k];
        k += 1;
        if seg.p_type != PT_LOAD || seg.p_vaddr < RAM_START as u64 {
            continue;
        }
        let mem = seg.p_memsz as usize;
        if ram_len > usize::MAX - mem || seg.p_vaddr > u64::MAX - seg.p_memsz {
            proof {
                lemma_ram_none(segs@, stack_top as int, k as int, segs@.len() as int);
            }
            return Err(ElfError::Overflow);
        }
        ram_len += mem;
        let end = (seg.p_vaddr + seg.p_memsz) as usize;
        if end <= stack_top && end > stack_bottom {
            stack_bottom = end;
        }
    }
    Ok((ram_len, stack_bottom))
}

/// The version whose text is `name`, NUL-padded.
pub open spec fn version_of(name: Option<Seq<u8>>) -> Option<Version> {
    match name {
        Some(n) => Some(Version::from_seq(n + Seq::new((VERSION_LEN - n.len()) as nat, |i: int| 0u8))),
        None => None,
    }
}

/// What flattening an ELF image gives, from its program headers, their
/// file data and the address of its version pointer: the flat image, and
/// its info with the version, the vector table, and the RAM accounting.
pub open spec fn spec_flatten_image(
    segs: Seq<ElfSegment>,
    datas: Seq<Option<Seq<u8>>>,
    ptr: Option<usize>,
) -> Result<(Seq<u8>, BinaryInfo), ElfError> {
    match spec_flatten(segs, datas, segs.len() as int) {
        Err(e) => Err(e),
        Ok(flat) => {
            let name = match ptr {
                Some(p) => spec_extract_version(flat, p as int),
                None => Ok(None),
            };
            match name {
                Err(e) => Err(e),
                Ok(name) => if flat.len() < 4 {
                    Err(ElfError::Image(ImageError::NoStackPointer))
                } else if flat.len() < 8 {
                    Err(ElfError::Image(ImageError::NoEntryPoint))
                } else {
                    let stack_top = le_u32_at(flat, 0) as usize;
                    match spec_ram(segs, stack_top as int, segs.len() as int) {
                        None => Err(ElfError::Overflow),
                        Some((ram, bottom)) => Ok(
                            (
                                flat,
                                BinaryInfo {
                                    version: version_of(name),
                                    flash_len: flat.len() as usize,
                                    stack_top,
                                    stack_bottom: Some(bottom as usize),
                                    entry_point: le_u32_at(flat, 4) as usize,
                                    ram_len: Some(ram as usize),
                                },
                            ),
                        ),
                    }
                },
            }
        },
    }
}

/// Whether an exec result is the spec result.
pub open spec fn image_result_is(
    r: Result<(Vec<u8>, BinaryInfo), ElfError>,
    s: Result<(Seq<u8>, BinaryInfo), ElfError>,
) -> bool {
    match r {
        Ok((flat, info)) => s == Ok::<(Seq<u8>, BinaryInfo), ElfError>((flat@, info)),
        Err(e) => s == Err::<(Seq<u8>, BinaryInfo), ElfError>(e),
    }
}

/// Flatten an ELF image from its program headers, their file data, and
/// the address of its version pointer, if it has one.
pub fn flatten_image(segs: &[ElfSegment], datas: &[Option<&[u8]>], ptr: Option<usize>) -> (r: Result<
    (Vec<u8>, BinaryInfo),
    ElfError,
>)
    requires
        segs@.len() == datas@.len(),
    ensures
        image_result_is(r, spec_flatten_image(segs@, data_views(datas@), ptr)),
{
    let flat = flatten_segments(segs, datas)?;
    let version = match ptr {
        Some(p) => extract_version(flat.as_slice(), p)?,
        None => None,
    };
    proof {
        if let Some(v) = version {
            Version::lemma_view(v);
        }
    }
    let mut info = match BinaryInfo::from_image(flat.as_slice(), version) {
        Ok(info) => info,
        Err(e) => return Err(ElfError::Image(e)),
    };
    let (ram, bottom) = ram_and_stack(segs, info.stack_top)?;
    info.ram_len = Some(ram);
    info.stack_bottom = Some(bottom);
    Ok((flat, info))
}

/// The file data of each segment.
pub open spec fn elf_segment_datas(file: Seq<u8>, segs: Seq<ElfSegment>) -> Seq<Option<Seq<u8>>> {
    Seq::new(segs.len(), |i: int| segment_file_data(file, segs[i]))
}

/// The address of the version pointer of an ELF file, if its version
/// symbol can be found.
pub open spec fn elf_version_pointer(file: Seq<u8>) -> Option<usize> {
    match (elf_symbol_table_of(file), elf_section_names_of(file)) {
        (Some((syms, symstr)), Some((sections, secstr))) => first_version_symbol(
            syms,
            symstr,
            sections,
            secstr,
            0,
        ),
        _ => None,
    }
}

/// What flattening the ELF file `file` gives: an error when the `elf`
/// crate does not parse it, otherwise [spec_flatten_image] of its program
/// headers, their file data and its version pointer.
pub open spec fn elf_image(file: Seq<u8>) -> Result<(Seq<u8>, BinaryInfo), ElfError> {
    if !elf_parses(file) {
        Err(ElfError::NotElf)
    } else {
        let segs = elf_segments_of(file);
        spec_flatten_image(segs, elf_segment_datas(file, segs), elf_version_pointer(file))
    }
}

/// Flatten an ELF file into the bytes of flash, with what can be learned
/// of the image.
pub fn flatten_elf(data: &[u8]) -> (r: Result<(Vec<u8>, BinaryInfo), ElfError>)
    ensures
        image_result_is(r, elf_image(data@)),
{
    let file = match elf_parse(data) {
        Some(f) => f,
        None => return Err(ElfError::NotElf),
    };
    // search for a VERSION symbol, which stores a pointer to the version
    let ptr = match (elf_symbol_table(&file), elf_section_names(&file)) {
        (Some((symbols, symstr)), Some((sections, secstr))) => version_symbol(
            symbols.as_slice(),
            &symstr,
            sections.as_slice(),
            &secstr,
        ),
        _ => None,
    };
    assert(ptr == elf_version_pointer(data@));
    let segs = elf_segments(&file);
    let ghost want = elf_segment_datas(data@, segs@);
    let mut datas: Vec<Option<&[u8]>> = Vec::new();
    let mut i: usize = 0;
    while i < segs.len()
        invariant
            i <= segs@.len(),
            file@ == data@,
            want == elf_segment_datas(data@, segs@),
            data_views(datas@) == want.take(i as int),
        decreases segs@.len() - i,
    {
        let d = elf_segment_data(&file, &segs[i]);
        let ghost before = datas@;
        datas.push(d);
        assert(data_views(before).len() == before.len());
        assert(datas@[i as int] == d);
        assert(want[i as int] == segment_file_data(file@, segs@[i as int]));
        assert(match d {
            Some(x) => Some(x@),
            None => None::<Seq<u8>>,
        } == want[i as int]);
        assert(data_views(datas@)[i as int] == want[i as int]);
        i += 1;
        assert(data_views(datas@) =~= want.take(i as int));
    }
    assert(want.take(i as int) =~= want);
    flatten_image(segs.as_slice(), datas.as_slice(), ptr)
}

} // verus!
