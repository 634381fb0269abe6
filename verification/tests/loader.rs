use std::ops::Range;

use harmony::loader::{
    add, flags_for_segment, program_header_table, ElfError, ElfHeader, Loader, LoaderError,
    MemFlags, Program, Segment, SegmentHeader, SegmentLoadError, PF_R, PF_W, PF_X, PT_LOAD,
};

#[derive(Default)]
struct Recorder {
    loads: Vec<(Range<usize>, Vec<Option<u8>>, u8)>,
    unloads: Vec<Range<usize>>,
    fail_on: Option<usize>,
}

impl Loader for Recorder {
    type Error = &'static str;

    fn load_with<F: Fn(usize) -> Option<u8>>(
        &mut self,
        at: Range<usize>,
        source: F,
        rwx: MemFlags,
    ) -> Result<(), Self::Error> {
        if self.fail_on == Some(at.start) {
            return Err("refused");
        }
        let bytes = (0..at.end - at.start).map(source).collect();
        self.loads.push((at, bytes, rwx.bits()));
        Ok(())
    }

    fn unload(&mut self, vrange: Range<usize>) {
        self.unloads.push(vrange);
    }
}

#[test]
fn add_works() {
    assert_eq!(add(2, 2), 4);
}

#[test]
fn mem_flags_from_segment_flags() {
    let rx = flags_for_segment(PF_R | PF_X);
    assert!(rx.readable() && rx.executable() && !rx.writeable());
    let rw = flags_for_segment(PF_R | PF_W);
    assert!(rw.readable() && rw.writeable() && !rw.executable());
    assert_eq!(flags_for_segment(0).bits(), 0);
    assert_eq!(MemFlags::empty().union(MemFlags::READ).union(MemFlags::WRITE).bits(), 3);
    assert_eq!(MemFlags::from_bits_truncate(0xFF).bits(), 7);
}

fn header(phoff: u64, phnum: u16) -> ElfHeader {
    ElfHeader { data: 1, entry: 0x40_1000, phoff, phentsize: 56, phnum }
}

#[test]
fn program_header_table_checks_bounds() {
    assert_eq!(program_header_table(header(64, 2), 200), Ok((64, 2)));
    assert_eq!(program_header_table(header(64, 3), 200), Err(ElfError::InvalidOffsets));
    assert_eq!(program_header_table(header(u64::MAX, 1), 200), Err(ElfError::InvalidOffsets));
}

fn segment(p_type: u32, offset: u64, vaddr: u64, filesz: u64, memsz: u64) -> SegmentHeader {
    SegmentHeader { p_type, p_flags: PF_R | PF_X, p_offset: offset, p_vaddr: vaddr, p_filesz: filesz, p_memsz: memsz }
}

#[test]
fn segment_loads_file_bytes_then_zeros() {
    let bytes: Vec<u8> = (0..16).collect();
    let seg = Segment { program: &bytes, header: segment(PT_LOAD, 4, 0x1000, 4, 6) };
    let mut loader = Recorder::default();
    assert_eq!(seg.load(&mut loader).unwrap(), 0x1000..0x1006);
    let (at, data, flags) = &loader.loads[0];
    assert_eq!(at, &(0x1000..0x1006));
    assert_eq!(data, &vec![Some(4), Some(5), Some(6), Some(7), Some(0), Some(0)]);
    assert_eq!(*flags, 5);
}

#[test]
fn segment_checks_its_ranges() {
    let bytes = vec![0u8; 16];
    let mut loader = Recorder::default();
    let overflow = Segment { program: &bytes, header: segment(PT_LOAD, 0, u64::MAX, 0, 2) };
    assert!(matches!(overflow.load(&mut loader), Err(SegmentLoadError::RangeOverflow)));
    let past_end = Segment { program: &bytes, header: segment(PT_LOAD, 10, 0x1000, 10, 10) };
    assert!(matches!(past_end.load(&mut loader), Err(SegmentLoadError::InvalidFileRange)));
    let larger = Segment { program: &bytes, header: segment(PT_LOAD, 0, 0x1000, 8, 4) };
    assert!(matches!(larger.load(&mut loader), Err(SegmentLoadError::SourceLargerThanVirtualRange)));
    assert!(loader.loads.is_empty());
    let mut refusing = Recorder { fail_on: Some(0x1000), ..Default::default() };
    let ok = Segment { program: &bytes, header: segment(PT_LOAD, 0, 0x1000, 4, 4) };
    assert!(matches!(ok.load(&mut refusing), Err(SegmentLoadError::LoaderError("refused"))));
}

#[test]
fn loader_error_converts() {
    let e: SegmentLoadError<u8> = SegmentLoadError::from_loader_error(LoaderError::LoaderError(3));
    assert!(matches!(e, SegmentLoadError::LoaderError(3)));
    let e: SegmentLoadError<u8> = SegmentLoadError::from_loader_error(LoaderError::SourceLargerThanVirtualRange);
    assert!(matches!(e, SegmentLoadError::SourceLargerThanVirtualRange));
}

#[test]
fn program_loads_loadable_segments() {
    let bytes: Vec<u8> = (0..64).collect();
    let headers = vec![
        segment(PT_LOAD, 0, 0x1000, 8, 8),
        segment(6, 0, 0x9000, 8, 8),
        segment(PT_LOAD, 8, 0x3000, 8, 0x20),
    ];
    let program = Program::from_parts(&bytes, header(64, 3), headers);
    let mut loader = Recorder::default();
    let process = program.load(&mut loader).unwrap();
    assert_eq!(process.entry(), 0x40_1000);
    assert_eq!(process.top_of_text(), 0x3020);
    assert_eq!(loader.loads.len(), 2);
    assert!(loader.unloads.is_empty());
}

#[test]
fn failed_load_unloads_what_was_loaded() {
    let bytes: Vec<u8> = (0..64).collect();
    let headers = vec![
        segment(PT_LOAD, 0, 0x1000, 8, 8),
        segment(PT_LOAD, 8, 0x3000, 8, 8),
        segment(PT_LOAD, 16, 0x5000, 8, 8),
    ];
    let program = Program::from_parts(&bytes, header(64, 3), headers);
    let mut loader = Recorder { fail_on: Some(0x5000), ..Default::default() };
    assert!(matches!(program.load(&mut loader), Err(SegmentLoadError::LoaderError("refused"))));
    assert_eq!(loader.unloads, vec![0x1000..0x1008, 0x3000..0x3008]);
}

fn elf_bytes() -> Vec<u8> {
    let mut b = vec![0u8; 64 + 56 + 16];
    b[0..4].copy_from_slice(&[0x7f, b'E', b'L', b'F']);
    b[4] = 2;
    b[5] = 1;
    b[6] = 1;
    b[16..18].copy_from_slice(&2u16.to_le_bytes());
    b[18..20].copy_from_slice(&0x3eu16.to_le_bytes());
    b[20..24].copy_from_slice(&1u32.to_le_bytes());
    b[24..32].copy_from_slice(&0x40_1000u64.to_le_bytes());
    b[32..40].copy_from_slice(&64u64.to_le_bytes());
    b[52..54].copy_from_slice(&64u16.to_le_bytes());
    b[54..56].copy_from_slice(&56u16.to_le_bytes());
    b[56..58].copy_from_slice(&1u16.to_le_bytes());
    let ph = 64;
    b[ph..ph + 4].copy_from_slice(&1u32.to_le_bytes());
    b[ph + 4..ph + 8].copy_from_slice(&5u32.to_le_bytes());
    b[ph + 8..ph + 16].copy_from_slice(&120u64.to_le_bytes());
    b[ph + 16..ph + 24].copy_from_slice(&0x40_0000u64.to_le_bytes());
    b[ph + 32..ph + 40].copy_from_slice(&16u64.to_le_bytes());
    b[ph + 40..ph + 48].copy_from_slice(&0x1000u64.to_le_bytes());
    for i in 120..136 {
        b[i] = 0xAB;
    }
    b
}

#[test]
fn program_parses_and_loads_an_elf_file() {
    let bytes = elf_bytes();
    assert_eq!(Program::new(&bytes, 0x1008).unwrap_err(), ElfError::NotAligned);
    let program = Program::new(&bytes, 0x1000).unwrap();
    let mut loader = Recorder::default();
    let process = program.load(&mut loader).unwrap();
    assert_eq!(process.entry(), 0x40_1000);
    assert_eq!(process.top_of_text(), 0x40_1000);
    let (at, data, flags) = &loader.loads[0];
    assert_eq!(at, &(0x40_0000..0x40_1000));
    assert_eq!(data[0], Some(0xAB));
    assert_eq!(data[16], Some(0));
    assert_eq!(*flags, 5);
}

#[test]
fn program_refuses_a_table_past_the_end() {
    let mut bytes = elf_bytes();
    bytes[56..58].copy_from_slice(&3u16.to_le_bytes());
    assert_eq!(Program::new(&bytes, 0).unwrap_err(), ElfError::InvalidOffsets);
    let mut bad = elf_bytes();
    bad[5] = 9;
    assert_eq!(Program::new(&bad, 0).unwrap_err(), ElfError::BadElf);
}

#[test]
fn program_refuses_a_short_header() {
    let bytes = elf_bytes();
    assert_eq!(Program::new(&bytes[..40], 0).unwrap_err(), ElfError::BadElf);
    let mut odd = elf_bytes();
    odd[5] = 3;
    assert_eq!(Program::new(&odd, 0).unwrap_err(), ElfError::BadElf);
}
