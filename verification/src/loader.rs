//! Loading statically linked ELF64 programs through a user-provided
//! [`Loader`].
//!
//! The ELF file header and program headers are read with goblin; the checks
//! on them and the loading of each `PT_LOAD` segment are this module's own.
use vstd::prelude::*;

use core::ops::Range;
use vstd::slice::slice_subrange;

verus! {

/// Adds two numbers.
pub fn add(left: u64, right: u64) -> (r: u64)
    requires
        left + right <= u64::MAX,
    ensures
        r == left + right,
{
    left + right
}

/// Segment type of a loadable segment.
pub const PT_LOAD: u32 = 1;

/// Segment flag: executable.
pub const PF_X: u32 = 1;

/// Segment flag: writable.
pub const PF_W: u32 = 2;

/// Segment flag: readable.
pub const PF_R: u32 = 4;

/// Size of an ELF64 file header.
pub const SIZEOF_EHDR: usize = 64;

/// Value of the data-encoding identification byte for little-endian files.
pub const ELFDATA2LSB: u8 = 1;

/// The fields of an ELF64 file header that loading reads.
#[derive(Debug, Clone, Copy, PartialEq, Eq, Structural)]
pub struct ElfHeader {
    /// The data-encoding identification byte.
    pub data: u8,
    pub entry: u64,
    pub phoff: u64,
    pub phentsize: u16,
    pub phnum: u16,
}

/// The fields of an ELF64 program header that loading reads.
#[derive(Debug, Clone, Copy, PartialEq, Eq, Structural)]
pub struct SegmentHeader {
    pub p_type: u32,
    pub p_flags: u32,
    pub p_offset: u64,
    pub p_vaddr: u64,
    pub p_filesz: u64,
    pub p_memsz: u64,
}

/// The number stored in the `n` bytes of `b` from `at`, least significant
/// byte first when `le`, most significant first otherwise.
pub open spec fn bytes_value(b: Seq<u8>, at: int, n: nat, le: bool) -> nat
    decreases n,
{
    if n == 0 {
        0
    } else if le {
        (b[at] + 256 * bytes_value(b, at + 1, (n - 1) as nat, le)) as nat
    } else {
        (bytes_value(b, at, (n - 1) as nat, le) * 256 + b[at + n - 1]) as nat
    }
}

/// The ELF64 file header at the start of `bytes`, its fields in the byte
/// order that byte 5 names (1 for little-endian, 2 for big-endian); `None`
/// when `bytes` is shorter than a header or byte 5 names neither.
pub open spec fn elf_header(bytes: Seq<u8>) -> Option<ElfHeader> {
    if bytes.len() < 64 || !(bytes[5] == 1 || bytes[5] == 2) {
        None
    } else {
        let le = bytes[5] == 1;
        Some(
            ElfHeader {
                data: bytes[5],
                entry: bytes_value(bytes, 24, 8, le) as u64,
                phoff: bytes_value(bytes, 32, 8, le) as u64,
                phentsize: bytes_value(bytes, 54, 2, le) as u16,
                phnum: bytes_value(bytes, 56, 2, le) as u16,
            },
        )
    }
}

/// The `count` ELF64 program headers of 56 bytes each that follow one
/// another in `bytes` from `offset`, in the byte order `little_endian`
/// names; `None` when there is at least one and they do not all lie within
/// `bytes`.
pub open spec fn elf_program_headers(
    bytes: Seq<u8>,
    offset: usize,
    count: usize,
    little_endian: bool,
) -> Option<Seq<SegmentHeader>> {
    if count > 0 && offset + count * 56 > bytes.len() {
        None
    } else {
        Some(
            Seq::new(
                count as nat,
                |i: int|
                    {
                        let at = offset + i * 56;
                        SegmentHeader {
                            p_type: bytes_value(bytes, at, 4, little_endian) as u32,
                            p_flags: bytes_value(bytes, at + 4, 4, little_endian) as u32,
                            p_offset: bytes_value(bytes, at + 8, 8, little_endian) as u64,
                            p_vaddr: bytes_value(bytes, at + 16, 8, little_endian) as u64,
                            p_filesz: bytes_value(bytes, at + 32, 8, little_endian) as u64,
                            p_memsz: bytes_value(bytes, at + 40, 8, little_endian) as u64,
                        }
                    },
            ),
        )
    }
}

/// Reads the ELF64 file header at the start of `bytes` with
/// `goblin::elf64::header::Header::parse`, which reads the 16 identification
/// bytes and then each field in the byte order that byte 5 names, failing
/// when the input runs out or byte 5 names no byte order.
#[verifier::external_body]
fn parse_header(bytes: &[u8]) -> (r: Option<ElfHeader>)
    ensures
        r == elf_header(bytes@),
{
    match goblin::elf64::header::Header::parse(bytes) {
        Ok(h) => Some(
            ElfHeader {
                data: h.e_ident[goblin::elf::header::EI_DATA],
                entry: h.e_entry,
                phoff: h.e_phoff,
                phentsize: h.e_phentsize,
                phnum: h.e_phnum,
            },
        ),
        Err(_) => None,
    }
}

/// Reads `count` ELF64 program headers from `bytes` at `offset` with
/// `goblin::elf64::program_header::ProgramHeader::parse`, which reads them
/// one after the other, field by field, and fails when the input runs out.
#[verifier::external_body]
fn parse_program_headers(bytes: &[u8], offset: usize, count: usize, little_endian: bool) -> (r:
    Option<Vec<SegmentHeader>>)
    ensures
        r matches Some(v) ==> v@.len() == count,
        r is Some <==> elf_program_headers(bytes@, offset, count, little_endian) is Some,
        r matches Some(v) ==> elf_program_headers(bytes@, offset, count, little_endian) == Some(
            v@,
        ),
{
    let endian = if little_endian {
        goblin::container::Endian::Little
    } else {
        goblin::container::Endian::Big
    };
    let parsed = goblin::elf64::program_header::ProgramHeader::parse(bytes, offset, count, endian);
    parsed.ok().map(|v| v.iter().map(|p| SegmentHeader {
        p_type: p.p_type,
        p_flags: p.p_flags,
        p_offset: p.p_offset,
        p_vaddr: p.p_vaddr,
        p_filesz: p.p_filesz,
        p_memsz: p.p_memsz,
    }).collect())
}

/// Errors of parsing a program.
#[derive(Debug, Copy, Clone, PartialEq, Eq, Structural)]
pub enum ElfError {
    BadElf,
    InvalidOffsets,
    NotAligned,
}

/// Where the program headers lie: `(offset, count)`, when the header's table
/// fits in `len` bytes.
pub open spec fn header_table(header: ElfHeader, len: nat) -> Result<(usize, usize), ElfError> {
    if header.phoff > usize::MAX {
        Err(ElfError::BadElf)
    } else if header.phentsize * header.phnum > usize::MAX {
        Err(ElfError::InvalidOffsets)
    } else if header.phoff + header.phentsize * header.phnum > usize::MAX {
        Err(ElfError::InvalidOffsets)
    } else if header.phoff + header.phentsize * header.phnum > len {
        Err(ElfError::InvalidOffsets)
    } else {
        Ok((header.phoff as usize, header.phnum as usize))
    }
}

/// The offset and number of program headers of `header`, checking that the
/// table lies within a program of `len` bytes.
pub fn program_header_table(header: ElfHeader, len: usize) -> (r: Result<(usize, usize), ElfError>)
    ensures
        r == header_table(header, len as nat),
{
    if header.phoff > usize::MAX as u64 {
        return Err(ElfError::BadElf);
    }
    let phoff = header.phoff as usize;
    let entry_size = header.phentsize as usize;
    let entries = header.phnum as usize;
    let length = match entry_size.checked_mul(entries) {
        Some(l) => l,
        None => {
            return Err(ElfError::InvalidOffsets);
        },
    };
    let end = match phoff.checked_add(length) {
        Some(e) => e,
        None => {
            return Err(ElfError::InvalidOffsets);
        },
    };
    if end > len {
        return Err(ElfError::InvalidOffsets);
    }
    Ok((phoff, entries))
}

/// A parsed program: its bytes, its file header and its program headers.
#[derive(Debug)]
pub struct Program<'a> {
    program: &'a [u8],
    header: ElfHeader,
    program_headers: Vec<SegmentHeader>,
}

/// A loaded program: its entry point and the end of its highest segment.
#[derive(Debug)]
pub struct Process {
    entry: u64,
    top_of_text: usize,
}

impl Process {
    /// The entry point.
    pub closed spec fn spec_entry(&self) -> u64 {
        self.entry
    }

    /// The end of the highest loaded segment.
    pub closed spec fn spec_top_of_text(&self) -> usize {
        self.top_of_text
    }

    /// The entry point.
    pub fn entry(&self) -> (r: u64)
        ensures
            r == self.spec_entry(),
    {
        self.entry
    }

    /// Returns the virtual address denoting the top of the .text section
    pub fn top_of_text(&self) -> (r: usize)
        ensures
            r == self.spec_top_of_text(),
    {
        self.top_of_text
    }
}

/// Memory protection of a loaded range.
#[derive(Debug, Copy, Clone, PartialEq, Eq, Structural)]
pub struct MemFlags {
    bits: u8,
}

impl View for MemFlags {
    type V = u8;

    closed spec fn view(&self) -> u8 {
        self.bits
    }
}

impl MemFlags {
    /// Readable.
    pub const READ: u8 = 1;

    /// Writable.
    pub const WRITE: u8 = 2;

    /// Executable.
    pub const EXECUTE: u8 = 4;

    /// Flags of the bits `bits` that name a flag.
    pub fn from_bits_truncate(bits: u8) -> (r: Self)
        ensures
            r@ == bits & 7,
    {
        Self { bits: bits & 7 }
    }

    /// No flag.
    pub fn empty() -> (r: Self)
        ensures
            r@ == 0,
    {
        Self { bits: 0 }
    }

    /// The flags as bits.
    pub fn bits(&self) -> (r: u8)
        ensures
            r == self@,
    {
        self.bits
    }

    /// Whether every bit of `other` is set.
    pub fn contains(&self, other: u8) -> (r: bool)
        ensures
            r == (self@ & other == other),
    {
        self.bits & other == other
    }

    /// These flags and the flag bits `other` that name a flag.
    pub fn union(self, other: u8) -> (r: Self)
        ensures
            r@ == self@ | (other & 7),
    {
        Self { bits: self.bits | (other & 7) }
    }

    /// Whether the range is readable.
    pub fn readable(&self) -> (r: bool)
        ensures
            r == (self@ & 1 == 1),
    {
        self.contains(Self::READ)
    }

    /// Whether the range is writable.
    pub fn writeable(&self) -> (r: bool)
        ensures
            r == (self@ & 2 == 2),
    {
        self.contains(Self::WRITE)
    }

    /// Whether the range is executable.
    pub fn executable(&self) -> (r: bool)
        ensures
            r == (self@ & 4 == 4),
    {
        self.contains(Self::EXECUTE)
    }
}

/// The protection of a segment with flags `p_flags`.
pub open spec fn segment_flags(p_flags: u32) -> u8 {
    (if p_flags & PF_R != 0 {
        1u8
    } else {
        0u8
    }) | (if p_flags & PF_W != 0 {
        2u8
    } else {
        0u8
    }) | (if p_flags & PF_X != 0 {
        4u8
    } else {
        0u8
    })
}

/// The protection of a segment: readable, writable and executable as its
/// flags say.
pub fn flags_for_segment(p_flags: u32) -> (r: MemFlags)
    ensures
        r@ == segment_flags(p_flags),
{
    let bits: u8 = (if p_flags & PF_R != 0 {
        1u8
    } else {
        0u8
    }) | (if p_flags & PF_W != 0 {
        2u8
    } else {
        0u8
    }) | (if p_flags & PF_X != 0 {
        4u8
    } else {
        0u8
    });
    MemFlags { bits }
}

/// Errors of loading a segment.
#[derive(Debug, Copy, Clone, PartialEq, Eq, Structural)]
pub enum SegmentLoadError<E> {
    LoaderError(E),
    InvalidFileRange,
    InvalidVirtualRange,
    SourceLargerThanVirtualRange,
    RangeOverflow,
}

/// Errors of a loader's `load_source`.
#[derive(Debug, Clone, Copy, PartialEq, Eq, Structural)]
pub enum LoaderError<E> {
    LoaderError(E),
    SourceLargerThanVirtualRange,
}

impl<E> SegmentLoadError<E> {
    /// The segment error for an error of `load_source`.
    pub fn from_loader_error(value: LoaderError<E>) -> (r: Self)
        ensures
            r == (match value {
                LoaderError::LoaderError(e) => SegmentLoadError::LoaderError(e),
                LoaderError::SourceLargerThanVirtualRange => {
                    SegmentLoadError::SourceLargerThanVirtualRange
                },
            }),
    {
        match value {
            LoaderError::LoaderError(e) => Self::LoaderError(e),
            LoaderError::SourceLargerThanVirtualRange => Self::SourceLargerThanVirtualRange,
        }
    }
}

/// The number of addresses in `r`.
pub open spec fn range_len(r: Range<usize>) -> nat {
    if r.end >= r.start {
        (r.end - r.start) as nat
    } else {
        0
    }
}

/// One past the last page that holds an address of `r`.
pub open spec fn end_page(r: Range<usize>) -> int {
    r.end / 4096 + if r.end % 4096 != 0 {
        1int
    } else {
        0int
    }
}

/// The number of pages that loading `r` goes through: those from the page
/// of its start up to the page that holds its end.
pub open spec fn page_count(r: Range<usize>) -> nat {
    if end_page(r) > r.start / 4096 {
        (end_page(r) - r.start / 4096) as nat
    } else {
        0
    }
}

/// `x` held between 0 and `hi`.
pub open spec fn clamp(x: int, hi: int) -> int {
    if x < 0 {
        0
    } else if x > hi {
        hi
    } else {
        x
    }
}

/// The offset, from the start of `r`, of the first address of `r` that
/// lies in page `p` or after it.
pub open spec fn page_source_start(r: Range<usize>, p: int) -> int {
    clamp(p * 4096 - r.start, range_len(r) as int)
}

/// The offset, from the start of `r`, of the first address of `r` that
/// lies after page `p`.
pub open spec fn page_source_end(r: Range<usize>, p: int) -> int {
    clamp((p + 1) * 4096 - r.start, range_len(r) as int)
}

/// Where in page `p` the part of `r` that it holds begins.
pub open spec fn page_dest_offset(r: Range<usize>, p: int) -> int {
    r.start + page_source_start(r, p) - p * 4096
}

/// For a page that loading `r` goes through, the part of `r` in the page
/// begins inside it and fits in it; the offsets follow one another from
/// page to page.
pub proof fn lemma_page_window(r: Range<usize>, p: int)
    requires
        r.start / 4096 <= p < end_page(r),
    ensures
        0 <= page_dest_offset(r, p) < 4096,
        0 <= page_source_start(r, p) <= page_source_end(r, p) <= range_len(r),
        page_source_end(r, p) - page_source_start(r, p) == if 4096 - page_dest_offset(r, p)
            < range_len(r) - page_source_start(r, p) {
            4096 - page_dest_offset(r, p)
        } else {
            range_len(r) - page_source_start(r, p)
        },
        page_source_start(r, p + 1) == page_source_end(r, p),
        (r.start + page_source_start(r, p)) % 4096 == page_dest_offset(r, p),
        r.start / 4096 == p ==> page_source_start(r, p) == 0,
{
    let q = r.start / 4096;
    vstd::arithmetic::div_mod::lemma_fundamental_div_mod(r.start as int, 4096);
    vstd::arithmetic::div_mod::lemma_fundamental_div_mod(r.end as int, 4096);
    assert(p * 4096 < r.end);
    assert(p * 4096 >= q * 4096);
    let d = page_dest_offset(r, p);
    vstd::arithmetic::div_mod::lemma_fundamental_div_mod_converse(
        r.start + page_source_start(r, p),
        4096,
        p,
        d,
    );
}

/// A general-purpose Loader trait to enable loading programs
pub trait Loader {
    type Error;

    /// Loads the range `at`, the byte at `at.start + i` being `source(i)`
    /// (`None` for a byte left undefined), with protection `rwx`.
    fn load_with<F: Fn(usize) -> Option<u8>>(
        &mut self,
        at: Range<usize>,
        source: F,
        rwx: MemFlags,
    ) -> Result<(), Self::Error>
        requires
            forall|i: usize| source.requires((i,)),
    ;

    /// Loads `source` at the start of `at` and zeroes the rest of `at`,
    /// refusing a source larger than `at`.
    fn load_source(&mut self, at: Range<usize>, source: &[u8], rwx: MemFlags) -> (r: Result<
        (),
        LoaderError<Self::Error>,
    >)
        ensures
            source@.len() > range_len(at) <==> r matches Err(
                LoaderError::SourceLargerThanVirtualRange,
            ),
    {
        let at_len = if at.end >= at.start {
            at.end - at.start
        } else {
            0
        };
        if source.len() > at_len {
            return Err(LoaderError::SourceLargerThanVirtualRange);
        }
        match self.load_with(
            at,
            |i: usize| -> (b: Option<u8>)
                {
                    if i < source.len() {
                        Some(source[i])
                    } else {
                        Some(0u8)
                    }
                },
            rwx,
        ) {
            Ok(()) => Ok(()),
            Err(e) => Err(LoaderError::LoaderError(e)),
        }
    }

    /// Loads zeros to the entire range.
    fn load_zeroed(&mut self, at: Range<usize>, rwx: MemFlags) -> Result<(), Self::Error> {
        self.load_with(at, |i: usize| -> (b: Option<u8>) { Some(0u8) }, rwx)
    }

    /// Loads an entire range without assigning any specific values to the
    /// loaded range.
    fn load_uninit(&mut self, at: Range<usize>, rwx: MemFlags) -> Result<(), Self::Error> {
        self.load_with(at, |i: usize| -> (b: Option<u8>) { None }, rwx)
    }

    /// Releases a virtual memory range that `load_source` loaded.
    fn unload(&mut self, vrange: Range<usize>);
}

/// The virtual range of a segment, once its header has been checked against
/// a program of `len` bytes.
pub open spec fn segment_plan<E>(len: nat, h: SegmentHeader) -> Result<Range<usize>, SegmentLoadError<E>> {
    if h.p_vaddr + h.p_memsz > u64::MAX {
        Err(SegmentLoadError::RangeOverflow)
    } else if h.p_vaddr + h.p_memsz > usize::MAX {
        Err(SegmentLoadError::InvalidVirtualRange)
    } else if h.p_offset + h.p_filesz > u64::MAX {
        Err(SegmentLoadError::RangeOverflow)
    } else if h.p_offset + h.p_filesz > usize::MAX {
        Err(SegmentLoadError::InvalidFileRange)
    } else if h.p_offset + h.p_filesz > len {
        Err(SegmentLoadError::InvalidFileRange)
    } else if h.p_filesz > h.p_memsz {
        Err(SegmentLoadError::SourceLargerThanVirtualRange)
    } else {
        Ok(Range { start: h.p_vaddr as usize, end: (h.p_vaddr + h.p_memsz) as usize })
    }
}

/// One program header of a program.
pub struct Segment<'prog> {
    pub program: &'prog [u8],
    pub header: SegmentHeader,
}

impl<'prog> Segment<'prog> {
    /// Loads the segment: its file bytes at its virtual range, the rest
    /// zeroed, with the protection its flags give.
    pub fn load<L: Loader>(&self, loader: &mut L) -> (r: Result<Range<usize>, SegmentLoadError<L::Error>>)
        ensures
            match segment_plan::<L::Error>(self.program@.len(), self.header) {
                Err(e) => r == Err::<Range<usize>, _>(e),
                Ok(vm) => r == Ok::<_, SegmentLoadError<L::Error>>(vm) || r matches Err(
                    SegmentLoadError::LoaderError(_),
                ),
            },
    {
        let h = self.header;
        let vm_end = match h.p_vaddr.checked_add(h.p_memsz) {
            Some(e) => e,
            None => {
                return Err(SegmentLoadError::RangeOverflow);
            },
        };
        if vm_end > usize::MAX as u64 {
            return Err(SegmentLoadError::InvalidVirtualRange);
        }
        let vm_range = Range { start: h.p_vaddr as usize, end: vm_end as usize };
        let file_end = match h.p_offset.checked_add(h.p_filesz) {
            Some(e) => e,
            None => {
                return Err(SegmentLoadError::RangeOverflow);
            },
        };
        if file_end > usize::MAX as u64 {
            return Err(SegmentLoadError::InvalidFileRange);
        }
        let file_start = h.p_offset as usize;
        let file_end = file_end as usize;
        if file_end > self.program.len() {
            return Err(SegmentLoadError::InvalidFileRange);
        }
        let mem_flags = flags_for_segment(h.p_flags);
        let source = slice_subrange(self.program, file_start, file_end);
        let at = Range { start: vm_range.start, end: vm_range.end };
        match loader.load_source(at, source, mem_flags) {
            Ok(()) => Ok(vm_range),
            Err(e) => Err(SegmentLoadError::from_loader_error(e)),
        }
    }

    /// Unloads the loaded segment, releasing its virtual range.
    pub fn unload<L: Loader>(&self, loader: &mut L)
        requires
            segment_plan::<L::Error>(self.program@.len(), self.header) is Ok,
    {
        let start = self.header.p_vaddr as usize;
        let end = (self.header.p_vaddr + self.header.p_memsz) as usize;
        loader.unload(Range { start, end });
    }
}

/// The loadable headers of `s`, in order.
pub open spec fn loadable(s: Seq<SegmentHeader>) -> Seq<SegmentHeader>
    decreases s.len(),
{
    if s.len() == 0 {
        Seq::empty()
    } else if s.last().p_type == PT_LOAD {
        loadable(s.drop_last()).push(s.last())
    } else {
        loadable(s.drop_last())
    }
}

/// The highest end of the virtual ranges of `segs`, or 0.
pub open spec fn top_end(segs: Seq<SegmentHeader>) -> int
    decreases segs.len(),
{
    if segs.len() == 0 {
        0
    } else {
        let e = segs.last().p_vaddr + segs.last().p_memsz;
        let rest = top_end(segs.drop_last());
        if e > rest {
            e
        } else {
            rest
        }
    }
}

/// Every segment of `segs` passes the checks against a program of `len`
/// bytes.
pub open spec fn all_planned<E>(len: nat, segs: Seq<SegmentHeader>) -> bool {
    forall|k: int| 0 <= k < segs.len() ==> #[trigger] segment_plan::<E>(len, segs[k]) is Ok
}

/// What loading the segments `segs` of a program of `len` bytes can fail
/// with: the first segment that fails its checks fails with its check's
/// error, and any segment that passes them may fail in the loader.
pub open spec fn load_failure<E>(len: nat, segs: Seq<SegmentHeader>, e: SegmentLoadError<E>) -> bool {
    exists|i: int|
        0 <= i < segs.len() && all_planned::<E>(len, segs.take(i)) && match #[trigger] segment_plan::<
            E,
        >(len, segs[i]) {
            Err(e2) => e == e2,
            Ok(_) => e is LoaderError,
        }
}

/// What parsing the program `bytes` at `address` gives: its file header
/// and its program headers, or why it is refused.
pub open spec fn program_parse(bytes: Seq<u8>, address: usize) -> Result<
    (ElfHeader, Seq<SegmentHeader>),
    ElfError,
> {
    if address % 16 != 0 {
        Err(ElfError::NotAligned)
    } else {
        match elf_header(bytes) {
            None => Err(ElfError::BadElf),
            Some(h) => match header_table(h, bytes.len()) {
                Err(e) => Err(e),
                Ok((off, count)) => match elf_program_headers(bytes, off, count, h.data == ELFDATA2LSB) {
                    None => Err(ElfError::InvalidOffsets),
                    Some(phdrs) => Ok((h, phdrs)),
                },
            },
        }
    }
}

impl<'a> Program<'a> {
    /// The bytes of the program.
    pub closed spec fn spec_bytes(&self) -> Seq<u8> {
        self.program@
    }

    /// The file header.
    pub closed spec fn spec_header(&self) -> ElfHeader {
        self.header
    }

    /// The program headers.
    pub closed spec fn spec_program_headers(&self) -> Seq<SegmentHeader> {
        self.program_headers@
    }

    /// A program of the given parts.
    pub fn from_parts(program: &'a [u8], header: ElfHeader, program_headers: Vec<SegmentHeader>) -> (r:
        Self)
        ensures
            r.spec_bytes() == program@,
            r.spec_header() == header,
            r.spec_program_headers() == program_headers@,
    {
        Self { program, header, program_headers }
    }

    /// Parses a program whose bytes lie at `address`, failing when the
    /// address is not 16-byte aligned, the header cannot be read, or the
    /// program-header table does not lie within the program.
    pub fn new(program: &'a [u8], address: usize) -> (r: Result<Self, ElfError>)
        ensures
            match program_parse(program@, address) {
                Err(e) => r == Err::<Self, _>(e),
                Ok((h, phdrs)) => r matches Ok(p) && p.spec_bytes() == program@ && p.spec_header()
                    == h && p.spec_program_headers() == phdrs,
            },
    {
        if address % 16 != 0 {
            return Err(ElfError::NotAligned);
        }
        let header = match parse_header(program) {
            Some(h) => h,
            None => {
                return Err(ElfError::BadElf);
            },
        };
        let (phoff, entries) = match program_header_table(header, program.len()) {
            Ok(t) => t,
            Err(e) => {
                return Err(e);
            },
        };
        match parse_program_headers(program, phoff, entries, header.data == ELFDATA2LSB) {
            Some(program_headers) => Ok(Self { program, header, program_headers }),
            None => Err(ElfError::InvalidOffsets),
        }
    }

    /// Loads the program using the provided loader implementation: every
    /// loadable segment in order. When one fails, the segments loaded before
    /// it are unloaded and its error returned.
    pub fn load<L: Loader>(&self, loader: &mut L) -> (r: Result<Process, SegmentLoadError<L::Error>>)
        ensures
            ({
                let len = self.spec_bytes().len();
                let segs = loadable(self.spec_program_headers());
                match r {
                    Ok(p) => p.spec_entry() == self.spec_header().entry && all_planned::<
                        L::Error,
                    >(len, segs) && p.spec_top_of_text() == top_end(segs),
                    Err(e) => load_failure::<L::Error>(len, segs, e),
                }
            }),
    {
        match self.load_headers(loader) {
            Ok(top_of_text) => Ok(Process { entry: self.header.entry, top_of_text }),
            Err((loaded_count, e)) => {
                self.unload_headers(loader, loaded_count);
                Err(e)
            },
        }
    }

    fn load_headers<L: Loader>(&self, loader: &mut L) -> (r: Result<usize, (usize, SegmentLoadError<L::Error>)>)
        ensures
            ({
                let len = self.spec_bytes().len();
                let segs = loadable(self.spec_program_headers());
                match r {
                    Ok(top) => all_planned::<L::Error>(len, segs) && top == top_end(segs),
                    Err((i, e)) => 0 <= i < segs.len() && all_planned::<L::Error>(
                        len,
                        segs.take(i as int),
                    ) && match segment_plan::<L::Error>(len, segs[i as int]) {
                        Err(e2) => e == e2,
                        Ok(_) => e is LoaderError,
                    },
                }
            }),
    {
        let ghost len = self.program@.len();
        let ghost all = self.program_headers@;
        let mut top_of_text: usize = 0;
        let mut i: usize = 0;
        let mut j: usize = 0;
        while j < self.program_headers.len()
            invariant
                j <= self.program_headers.len(),
                all == self.program_headers@,
                len == self.program@.len(),
                i == loadable(all.take(j as int)).len(),
                all_planned::<L::Error>(len, loadable(all.take(j as int))),
                top_of_text == top_end(loadable(all.take(j as int))),
            decreases self.program_headers.len() - j,
        {
            let ghost before = loadable(all.take(j as int));
            assert(all.take(j + 1).drop_last() =~= all.take(j as int));
            let phdr = self.program_headers[j];
            proof {
                lemma_loadable_len(all.take(j as int));
            }
            if phdr.p_type == PT_LOAD {
                let segment = Segment { program: self.program, header: phdr };
                match segment.load(loader) {
                    Ok(range) => {
                        assert(loadable(all.take(j + 1)) == before.push(phdr));
                        if range.end > top_of_text {
                            top_of_text = range.end;
                        }
                        assert(loadable(all.take(j + 1)).drop_last() =~= before);
                        assert forall|k: int|
                            0 <= k < before.len() + 1 implies #[trigger] segment_plan::<L::Error>(
                            len,
                            before.push(phdr)[k],
                        ) is Ok by {
                            if k < before.len() {
                                assert(before.push(phdr)[k] == before[k]);
                            }
                        }
                        i = i + 1;
                    },
                    Err(e) => {
                        assert(loadable(all.take(j + 1)) == before.push(phdr));
                        proof {
                            lemma_loadable_prefix(all, j + 1, all.len() as int);
                            assert(all.take(all.len() as int) =~= all);
                            assert(loadable(all).take(i + 1) == before.push(phdr));
                            assert(loadable(all).take(i + 1)[i as int] == loadable(all)[i as int]);
                            assert(loadable(all)[i as int] == phdr);
                            assert(loadable(all).take(i as int) =~= before) by {
                                assert(loadable(all.take(j + 1)).take(i as int) =~= before);
                            }
                        }
                        return Err((i, e));
                    },
                }
            } else {
                assert(loadable(all.take(j + 1)) == before);
            }
            j = j + 1;
        }
        assert(all.take(j as int) =~= all);
        Ok(top_of_text)
    }

    fn unload_headers<L: Loader>(&self, loader: &mut L, count: usize)
        requires
            count <= loadable(self.spec_program_headers()).len(),
            all_planned::<L::Error>(
                self.spec_bytes().len(),
                loadable(self.spec_program_headers()).take(count as int),
            ),
    {
        let ghost all = self.program_headers@;
        let ghost len = self.program@.len();
        let mut done: usize = 0;
        let mut j: usize = 0;
        while j < self.program_headers.len() && done < count
            invariant
                j <= self.program_headers.len(),
                all == self.program_headers@,
                len == self.program@.len(),
                count <= loadable(all).len(),
                all_planned::<L::Error>(len, loadable(all).take(count as int)),
                done == loadable(all.take(j as int)).len(),
                done <= count,
            decreases self.program_headers.len() - j,
        {
            let ghost before = loadable(all.take(j as int));
            assert(all.take(j + 1).drop_last() =~= all.take(j as int));
            let phdr = self.program_headers[j];
            if phdr.p_type == PT_LOAD {
                assert(loadable(all.take(j + 1)) == before.push(phdr));
                proof {
                    lemma_loadable_prefix(all, j + 1, all.len() as int);
                    assert(all.take(all.len() as int) =~= all);
                    assert(loadable(all).take(done + 1) == before.push(phdr));
                    assert(loadable(all).take(done + 1)[done as int] == loadable(all)[done as int]);
                    assert(loadable(all)[done as int] == phdr);
                    assert(loadable(all).take(count as int)[done as int] == phdr);
                }
                let segment = Segment { program: self.program, header: phdr };
                segment.unload(loader);
                done = done + 1;
            } else {
                assert(loadable(all.take(j + 1)) == before);
            }
            j = j + 1;
        }
    }
}

/// A sequence has at least as many headers as loadable ones.
proof fn lemma_loadable_len(s: Seq<SegmentHeader>)
    ensures
        loadable(s).len() <= s.len(),
    decreases s.len(),
{
    if s.len() > 0 {
        lemma_loadable_len(s.drop_last());
    }
}

/// The loadable headers of a prefix of `s` are a prefix of those of a
/// longer prefix.
proof fn lemma_loadable_prefix(s: Seq<SegmentHeader>, a: int, b: int)
    requires
        0 <= a <= b <= s.len(),
    ensures
        loadable(s.take(a)).len() <= loadable(s.take(b)).len(),
        loadable(s.take(b)).take(loadable(s.take(a)).len() as int) == loadable(s.take(a)),
    decreases b - a,
{
    if a < b {
        lemma_loadable_prefix(s, a, b - 1);
        assert(s.take(b).drop_last() =~= s.take(b - 1));
        let la = loadable(s.take(a));
        let lb1 = loadable(s.take(b - 1));
        if s.take(b).last().p_type == PT_LOAD {
            assert(loadable(s.take(b)).take(la.len() as int) =~= lb1.take(la.len() as int));
        }
    } else {
        assert(loadable(s.take(b)).take(loadable(s.take(a)).len() as int) =~= loadable(s.take(a)));
    }
}

} // verus!
