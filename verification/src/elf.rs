//! The parts of an ELF file that the packer reads.

use vstd::prelude::*;

verus! {

/// Program header type of a loadable segment.
pub const PT_LOAD: u32 = 1;

/// Section header type of a section with program data.
pub const SHT_PROGBITS: u32 = 1;

/// One program header.
#[derive(Clone, Copy, Debug, PartialEq, Eq, Structural)]
pub struct ProgramHeader {
    pub p_type: u32,
    pub p_flags: u32,
    pub p_offset: u64,
    pub p_vaddr: u64,
    pub p_filesz: u64,
    pub p_memsz: u64,
}

/// One section header.
#[derive(Clone, Copy, Debug, PartialEq, Eq, Structural)]
pub struct SectionHeader {
    pub sh_type: u32,
    pub sh_flags: u64,
    pub sh_addr: u64,
    pub sh_offset: u64,
    pub sh_size: u64,
}

/// What the packer reads of a parsed ELF file.
#[derive(Clone, Debug)]
pub struct ElfImage {
    pub is_64: bool,
    pub little_endian: bool,
    pub entry: u64,
    pub program_headers: Vec<ProgramHeader>,
    pub section_headers: Vec<SectionHeader>,
}

/// A parsed ELF file as a mathematical value.
pub struct ElfView {
    pub is_64: bool,
    pub little_endian: bool,
    pub entry: u64,
    pub program_headers: Seq<ProgramHeader>,
    pub section_headers: Seq<SectionHeader>,
}

impl View for ElfImage {
    type V = ElfView;

    open spec fn view(&self) -> ElfView {
        ElfView {
            is_64: self.is_64,
            little_endian: self.little_endian,
            entry: self.entry,
            program_headers: self.program_headers@,
            section_headers: self.section_headers@,
        }
    }
}

impl ProgramHeader {
    /// Whether the segment may be executed (`PF_X`, bit 0 of the flags).
    pub open spec fn executable(&self) -> bool {
        self.p_flags % 2 == 1
    }

    /// Whether the segment may be executed.
    pub fn is_executable(&self) -> (x: bool)
        ensures
            x == self.executable(),
    {
        self.p_flags % 2 == 1
    }
}

impl SectionHeader {
    /// Whether the section takes memory at run time (`SHF_ALLOC`, bit 1 of
    /// the flags).
    pub open spec fn allocated(&self) -> bool {
        self.sh_flags / 2 % 2 == 1
    }

    /// Whether the section holds instructions (`SHF_EXECINSTR`, bit 2 of the
    /// flags).
    pub open spec fn executable(&self) -> bool {
        self.sh_flags / 4 % 2 == 1
    }

    /// Whether the section takes memory at run time.
    pub fn is_allocated(&self) -> (a: bool)
        ensures
            a == self.allocated(),
    {
        self.sh_flags / 2 % 2 == 1
    }

    /// Whether the section holds instructions.
    pub fn is_executable(&self) -> (x: bool)
        ensures
            x == self.executable(),
    {
        self.sh_flags / 4 % 2 == 1
    }
}

/// What `goblin::elf::Elf::parse` makes of a file: `None` where it rejects
/// the bytes, else the class, byte order, entry and headers it read.
pub uninterp spec fn elf_parse(bytes: Seq<u8>) -> Option<ElfView>;

/// The view of an optional parsed file.
pub open spec fn elf_view(e: Option<ElfImage>) -> Option<ElfView> {
    match e {
        Some(e) => Some(e@),
        None => None,
    }
}

/// Parses `bytes` with `goblin::elf::Elf::parse` and copies out the fields
/// the packer reads. The contract only names the outcome: the same bytes
/// always parse to the same headers, and nothing is claimed about which.
#[verifier::external_body]
pub(crate) fn parse_elf(bytes: &[u8]) -> (parsed: Option<ElfImage>)
    ensures
        elf_view(parsed) == elf_parse(bytes@),
{
    match goblin::elf::Elf::parse(bytes) {
        Ok(elf) => Some(ElfImage {
            is_64: elf.is_64,
            little_endian: elf.little_endian,
            entry: elf.header.e_entry,
            program_headers: elf.program_headers.iter().map(|p| ProgramHeader {
                p_type: p.p_type, p_flags: p.p_flags, p_offset: p.p_offset, p_vaddr: p.p_vaddr, p_filesz: p.p_filesz, p_memsz: p.p_memsz,
            }).collect(),
            section_headers: elf.section_headers.iter().map(|s| SectionHeader {
                sh_type: s.sh_type, sh_flags: s.sh_flags, sh_addr: s.sh_addr, sh_offset: s.sh_offset, sh_size: s.sh_size,
            }).collect(),
        }),
        Err(_) => None,
    }
}

} // verus!
