//! ELF64 relocatable object files.
//!
//! Layout written by `ElfBuilder::build`: the 64-byte header, then the
//! .text, .data, .symtab, .strtab and .shstrtab contents back to back, then
//! seven 64-byte section headers (null, .text, .data, .bss, .symtab,
//! .strtab, .shstrtab).

use vstd::prelude::*;
use vstd::string::StringSliceAdditionalSpecFns;

verus! {

/// ELF file class
#[derive(Debug, Clone, Copy, PartialEq, Eq, Structural)]
pub enum ElfClass {
    NoClass,
    Elf32,
    Elf64,
}

impl ElfClass {
    /// Numeric code of the class (`EI_CLASS`).
    pub fn value(&self) -> (v: u8)
        ensures
            v == (match *self { ElfClass::NoClass => 0u8, ElfClass::Elf32 => 1u8, ElfClass::Elf64 => 2u8 }),
    {
        match self {
            ElfClass::NoClass => 0,
            ElfClass::Elf32 => 1,
            ElfClass::Elf64 => 2,
        }
    }
}

/// ELF data encoding
#[derive(Debug, Clone, Copy, PartialEq, Eq, Structural)]
pub enum ElfData {
    NoEncoding,
    LittleEndian,
    BigEndian,
}

impl ElfData {
    /// Numeric code of the encoding (`EI_DATA`).
    pub fn value(&self) -> (v: u8)
        ensures
            v == (match *self {
                ElfData::NoEncoding => 0u8,
                ElfData::LittleEndian => 1u8,
                ElfData::BigEndian => 2u8,
            }),
    {
        match self {
            ElfData::NoEncoding => 0,
            ElfData::LittleEndian => 1,
            ElfData::BigEndian => 2,
        }
    }
}

/// ELF file type
#[derive(Debug, Clone, Copy, PartialEq, Eq, Structural)]
pub enum ElfType {
    NoType,
    Relocatable,
    Executable,
    Shared,
    Core,
}

impl ElfType {
    /// Numeric code of the file type (`e_type`).
    pub fn value(&self) -> (v: u16)
        ensures
            v == (match *self {
                ElfType::NoType => 0u16,
                ElfType::Relocatable => 1u16,
                ElfType::Executable => 2u16,
                ElfType::Shared => 3u16,
                ElfType::Core => 4u16,
            }),
    {
        match self {
            ElfType::NoType => 0,
            ElfType::Relocatable => 1,
            ElfType::Executable => 2,
            ElfType::Shared => 3,
            ElfType::Core => 4,
        }
    }
}

/// ELF machine type
#[derive(Debug, Clone, Copy, PartialEq, Eq, Structural)]
pub enum ElfMachine {
    NoMachine,
    X86,
    X86_64,
}

impl ElfMachine {
    /// Numeric code of the machine (`e_machine`).
    pub fn value(&self) -> (v: u16)
        ensures
            v == (match *self { ElfMachine::NoMachine => 0u16, ElfMachine::X86 => 3u16, ElfMachine::X86_64 => 62u16 }),
    {
        match self {
            ElfMachine::NoMachine => 0,
            ElfMachine::X86 => 3,
            ElfMachine::X86_64 => 62,
        }
    }
}

/// Section type
#[derive(Debug, Clone, Copy, PartialEq, Eq, Structural)]
pub enum SectionType {
    Null,
    ProgBits,
    SymTab,
    StrTab,
    Rela,
    Hash,
    Dynamic,
    Note,
    NoBits,
    Rel,
}

pub open spec fn section_type_code(t: SectionType) -> u32 {
    match t {
        SectionType::Null => 0,
        SectionType::ProgBits => 1,
        SectionType::SymTab => 2,
        SectionType::StrTab => 3,
        SectionType::Rela => 4,
        SectionType::Hash => 5,
        SectionType::Dynamic => 6,
        SectionType::Note => 7,
        SectionType::NoBits => 8,
        SectionType::Rel => 9,
    }
}

impl SectionType {
    /// Numeric code of the section type (`sh_type`).
    pub fn value(&self) -> (v: u32)
        ensures
            v == section_type_code(*self),
    {
        match self {
            SectionType::Null => 0,
            SectionType::ProgBits => 1,
            SectionType::SymTab => 2,
            SectionType::StrTab => 3,
            SectionType::Rela => 4,
            SectionType::Hash => 5,
            SectionType::Dynamic => 6,
            SectionType::Note => 7,
            SectionType::NoBits => 8,
            SectionType::Rel => 9,
        }
    }
}

/// Section flags
#[derive(Debug, Clone, Copy, PartialEq, Eq, Structural)]
pub enum SectionFlags {
    Write,
    Alloc,
    ExecInstr,
}

impl SectionFlags {
    /// Bit of the flag in `sh_flags`.
    pub fn value(&self) -> (v: u64)
        ensures
            v == (match *self { SectionFlags::Write => 1u64, SectionFlags::Alloc => 2u64, SectionFlags::ExecInstr => 4u64 }),
    {
        match self {
            SectionFlags::Write => 1,
            SectionFlags::Alloc => 2,
            SectionFlags::ExecInstr => 4,
        }
    }
}

/// Symbol binding
#[derive(Debug, Clone, Copy, PartialEq, Eq, Structural)]
pub enum SymbolBinding {
    Local,
    Global,
    Weak,
}

impl SymbolBinding {
    /// Numeric code of the binding (high nibble of `st_info`).
    pub fn value(&self) -> (v: u8)
        ensures
            v == (match *self { SymbolBinding::Local => 0u8, SymbolBinding::Global => 1u8, SymbolBinding::Weak => 2u8 }),
    {
        match self {
            SymbolBinding::Local => 0,
            SymbolBinding::Global => 1,
            SymbolBinding::Weak => 2,
        }
    }
}

/// Symbol type
#[derive(Debug, Clone, Copy, PartialEq, Eq, Structural)]
pub enum SymbolType {
    NoType,
    Object,
    Func,
    Section,
    File,
}

impl SymbolType {
    /// Numeric code of the symbol type (low nibble of `st_info`).
    pub fn value(&self) -> (v: u8)
        ensures
            v == (match *self {
                SymbolType::NoType => 0u8,
                SymbolType::Object => 1u8,
                SymbolType::Func => 2u8,
                SymbolType::Section => 3u8,
                SymbolType::File => 4u8,
            }),
    {
        match self {
            SymbolType::NoType => 0,
            SymbolType::Object => 1,
            SymbolType::Func => 2,
            SymbolType::Section => 3,
            SymbolType::File => 4,
        }
    }
}

/// Size in bytes of a serialized ELF64 header.
pub const ELF64_HEADER_SIZE: u16 = 64;

/// Size in bytes of a serialized ELF64 section header.
pub const ELF64_SECTION_HEADER_SIZE: u16 = 64;

/// Size in bytes of a serialized ELF64 symbol.
pub const ELF64_SYMBOL_SIZE: u64 = 24;

/// `n` bytes of `v`, least significant first.
pub open spec fn le_bytes(v: nat, n: nat) -> Seq<u8>
    decreases n,
{
    if n == 0 {
        Seq::empty()
    } else {
        seq![(v % 256) as u8] + le_bytes(v / 256, (n - 1) as nat)
    }
}

/// The value of little-endian bytes.
pub open spec fn le_value(b: Seq<u8>) -> nat
    decreases b.len(),
{
    if b.len() == 0 {
        0
    } else {
        b[0] as nat + 256 * le_value(b.drop_first())
    }
}

/// Append the `n` low bytes of `v`, least significant first.
fn push_le(out: &mut Vec<u8>, v: u64, n: usize)
    requires
        n <= 8,
    ensures
        final(out)@ == old(out)@ + le_bytes(v as nat, n as nat),
{
    let ghost orig = out@;
    let mut rest: u64 = v;
    let mut i: usize = 0;
    while i < n
        invariant
            i <= n <= 8,
            orig + le_bytes(v as nat, n as nat) == out@ + le_bytes(rest as nat, (n - i) as nat),
        decreases n - i,
    {
        let ghost before = out@;
        out.push((rest % 256) as u8);
        assert(le_bytes(rest as nat, (n - i) as nat) == seq![(rest % 256) as u8] + le_bytes(
            (rest / 256) as nat,
            (n - i - 1) as nat,
        ));
        assert(out@ + le_bytes((rest / 256) as nat, (n - i - 1) as nat) =~= before + le_bytes(
            rest as nat,
            (n - i) as nat,
        ));
        rest = rest / 256;
        i = i + 1;
    }
    assert(le_bytes(rest as nat, 0) =~= Seq::<u8>::empty());
    assert(out@ =~= out@ + le_bytes(rest as nat, 0));
}

/// Append all of `bytes`.
fn push_all(out: &mut Vec<u8>, bytes: &[u8])
    ensures
        final(out)@ == old(out)@ + bytes@,
{
    let ghost orig = out@;
    let mut i: usize = 0;
    while i < bytes.len()
        invariant
            i <= bytes.len(),
            out@ == orig + bytes@.subrange(0, i as int),
        decreases bytes.len() - i,
    {
        out.push(bytes[i]);
        i = i + 1;
        assert(out@ =~= orig + bytes@.subrange(0, i as int));
    }
    assert(bytes@.subrange(0, bytes.len() as int) =~= bytes@);
}

/// ELF64 Header (64 bytes)
#[derive(Debug, Clone, Copy)]
pub struct Elf64Header {
    pub e_ident: [u8; 16],
    pub e_type: u16,
    pub e_machine: u16,
    pub e_version: u32,
    pub e_entry: u64,
    pub e_phoff: u64,
    pub e_shoff: u64,
    pub e_flags: u32,
    pub e_ehsize: u16,
    pub e_phentsize: u16,
    pub e_phnum: u16,
    pub e_shentsize: u16,
    pub e_shnum: u16,
    pub e_shstrndx: u16,
}

/// ELF64 Section Header (64 bytes)
#[derive(Debug, Clone, Copy)]
pub struct Elf64SectionHeader {
    pub sh_name: u32,
    pub sh_type: u32,
    pub sh_flags: u64,
    pub sh_addr: u64,
    pub sh_offset: u64,
    pub sh_size: u64,
    pub sh_link: u32,
    pub sh_info: u32,
    pub sh_addralign: u64,
    pub sh_entsize: u64,
}

/// ELF64 Symbol Table Entry (24 bytes)
#[derive(Debug, Clone, Copy)]
pub struct Elf64Symbol {
    pub st_name: u32,
    pub st_info: u8,
    pub st_other: u8,
    pub st_shndx: u16,
    pub st_value: u64,
    pub st_size: u64,
}

/// The identification bytes of a 64-bit little-endian System V object.
pub open spec fn elf_ident() -> Seq<u8> {
    seq![0x7fu8, 0x45u8, 0x4cu8, 0x46u8, 2u8, 1u8, 1u8, 0u8, 0u8, 0u8, 0u8, 0u8, 0u8, 0u8, 0u8, 0u8]
}

/// Serialized form of a header after its identification bytes: every
/// field little-endian, in declaration order.
#[verifier::opaque]
pub open spec fn header_fields_bytes(h: Elf64Header) -> Seq<u8> {
    le_bytes(h.e_type as nat, 2) + le_bytes(h.e_machine as nat, 2) + le_bytes(h.e_version as nat, 4)
        + le_bytes(h.e_entry as nat, 8) + le_bytes(h.e_phoff as nat, 8) + le_bytes(h.e_shoff as nat, 8)
        + le_bytes(h.e_flags as nat, 4) + le_bytes(h.e_ehsize as nat, 2) + le_bytes(h.e_phentsize as nat, 2)
        + le_bytes(h.e_phnum as nat, 2) + le_bytes(h.e_shentsize as nat, 2) + le_bytes(h.e_shnum as nat, 2)
        + le_bytes(h.e_shstrndx as nat, 2)
}

/// Serialized form of a header.
pub open spec fn header_bytes(h: Elf64Header) -> Seq<u8> {
    h.e_ident@ + header_fields_bytes(h)
}

/// Serialized form of a section header.
#[verifier::opaque]
pub open spec fn section_header_bytes(h: Elf64SectionHeader) -> Seq<u8> {
    le_bytes(h.sh_name as nat, 4) + le_bytes(h.sh_type as nat, 4) + le_bytes(h.sh_flags as nat, 8)
        + le_bytes(h.sh_addr as nat, 8) + le_bytes(h.sh_offset as nat, 8) + le_bytes(
        h.sh_size as nat,
        8,
    ) + le_bytes(h.sh_link as nat, 4) + le_bytes(h.sh_info as nat, 4) + le_bytes(
        h.sh_addralign as nat,
        8,
    ) + le_bytes(h.sh_entsize as nat, 8)
}

/// Serialized form of a symbol.
#[verifier::opaque]
pub open spec fn symbol_bytes(s: Elf64Symbol) -> Seq<u8> {
    le_bytes(s.st_name as nat, 4) + seq![s.st_info, s.st_other] + le_bytes(s.st_shndx as nat, 2)
        + le_bytes(s.st_value as nat, 8) + le_bytes(s.st_size as nat, 8)
}

impl Elf64Header {
    /// Create a new ELF64 header for a relocatable object file
    pub fn new_relocatable() -> (h: Elf64Header)
        ensures
            h.e_ident@ == elf_ident(),
            h.e_type == 1,
            h.e_machine == 62,
            h.e_version == 1,
            h.e_entry == 0,
            h.e_phoff == 0,
            h.e_shoff == 0,
            h.e_flags == 0,
            h.e_ehsize == ELF64_HEADER_SIZE,
            h.e_phentsize == 0,
            h.e_phnum == 0,
            h.e_shentsize == ELF64_SECTION_HEADER_SIZE,
            h.e_shnum == 0,
            h.e_shstrndx == 0,
    {
        let mut e_ident = [0u8; 16];
        // Magic number
        e_ident[0] = 0x7f;
        e_ident[1] = 0x45;
        e_ident[2] = 0x4c;
        e_ident[3] = 0x46;
        e_ident[4] = ElfClass::Elf64.value();  // 64-bit
        e_ident[5] = ElfData::LittleEndian.value();  // Little endian
        e_ident[6] = 1;  // ELF version
        e_ident[7] = 0;  // System V ABI
        assert(e_ident@ =~= elf_ident());
        Elf64Header {
            e_ident,
            e_type: ElfType::Relocatable.value(),
            e_machine: ElfMachine::X86_64.value(),
            e_version: 1,
            e_entry: 0,
            e_phoff: 0,
            e_shoff: 0,  // set when the file is laid out
            e_flags: 0,
            e_ehsize: ELF64_HEADER_SIZE,
            e_phentsize: 0,
            e_phnum: 0,
            e_shentsize: ELF64_SECTION_HEADER_SIZE,
            e_shnum: 0,  // set when the file is laid out
            e_shstrndx: 0,  // set when the file is laid out
        }
    }

    /// Convert to bytes
    pub fn to_bytes(&self) -> (bytes: Vec<u8>)
        ensures
            bytes@ == header_bytes(*self),
    {
        reveal(header_fields_bytes);
        let mut bytes = Vec::new();
        push_all(&mut bytes, &self.e_ident);
        push_le(&mut bytes, self.e_type as u64, 2);
        push_le(&mut bytes, self.e_machine as u64, 2);
        push_le(&mut bytes, self.e_version as u64, 4);
        push_le(&mut bytes, self.e_entry, 8);
        push_le(&mut bytes, self.e_phoff, 8);
        push_le(&mut bytes, self.e_shoff, 8);
        push_le(&mut bytes, self.e_flags as u64, 4);
        push_le(&mut bytes, self.e_ehsize as u64, 2);
        push_le(&mut bytes, self.e_phentsize as u64, 2);
        push_le(&mut bytes, self.e_phnum as u64, 2);
        push_le(&mut bytes, self.e_shentsize as u64, 2);
        push_le(&mut bytes, self.e_shnum as u64, 2);
        push_le(&mut bytes, self.e_shstrndx as u64, 2);
        bytes
    }
}

impl Elf64SectionHeader {
    /// Create a null section header
    pub fn null() -> (h: Elf64SectionHeader)
        ensures
            h == (Elf64SectionHeader {
                sh_name: 0,
                sh_type: 0,
                sh_flags: 0,
                sh_addr: 0,
                sh_offset: 0,
                sh_size: 0,
                sh_link: 0,
                sh_info: 0,
                sh_addralign: 0,
                sh_entsize: 0,
            }),
    {
        Elf64SectionHeader {
            sh_name: 0,
            sh_type: SectionType::Null.value(),
            sh_flags: 0,
            sh_addr: 0,
            sh_offset: 0,
            sh_size: 0,
            sh_link: 0,
            sh_info: 0,
            sh_addralign: 0,
            sh_entsize: 0,
        }
    }

    /// Convert to bytes
    pub fn to_bytes(&self) -> (bytes: Vec<u8>)
        ensures
            bytes@ == section_header_bytes(*self),
    {
        reveal(section_header_bytes);
        let mut bytes = Vec::new();
        push_le(&mut bytes, self.sh_name as u64, 4);
        push_le(&mut bytes, self.sh_type as u64, 4);
        push_le(&mut bytes, self.sh_flags, 8);
        push_le(&mut bytes, self.sh_addr, 8);
        push_le(&mut bytes, self.sh_offset, 8);
        push_le(&mut bytes, self.sh_size, 8);
        push_le(&mut bytes, self.sh_link as u64, 4);
        push_le(&mut bytes, self.sh_info as u64, 4);
        push_le(&mut bytes, self.sh_addralign, 8);
        push_le(&mut bytes, self.sh_entsize, 8);
        bytes
    }
}

/// `st_info` of a global function symbol.
pub open spec fn global_func_info() -> u8 {
    0x12
}

impl Elf64Symbol {
    /// Create a null symbol
    pub fn null() -> (s: Elf64Symbol)
        ensures
            s == (Elf64Symbol { st_name: 0, st_info: 0, st_other: 0, st_shndx: 0, st_value: 0, st_size: 0 }),
    {
        Elf64Symbol { st_name: 0, st_info: 0, st_other: 0, st_shndx: 0, st_value: 0, st_size: 0 }
    }

    /// Create a function symbol
    pub fn function(name_idx: u32, section_idx: u16, value: u64, size: u64) -> (s: Elf64Symbol)
        ensures
            s == (Elf64Symbol {
                st_name: name_idx,
                st_info: global_func_info(),
                st_other: 0,
                st_shndx: section_idx,
                st_value: value,
                st_size: size,
            }),
    {
        let binding = SymbolBinding::Global.value();
        let kind = SymbolType::Func.value();
        let info = binding * 16 + kind;
        Elf64Symbol {
            st_name: name_idx,
            st_info: info,
            st_other: 0,
            st_shndx: section_idx,
            st_value: value,
            st_size: size,
        }
    }

    /// Convert to bytes
    pub fn to_bytes(&self) -> (bytes: Vec<u8>)
        ensures
            bytes@ == symbol_bytes(*self),
    {
        reveal(symbol_bytes);
        let mut bytes = Vec::new();
        push_le(&mut bytes, self.st_name as u64, 4);
        bytes.push(self.st_info);
        bytes.push(self.st_other);
        push_le(&mut bytes, self.st_shndx as u64, 2);
        push_le(&mut bytes, self.st_value, 8);
        push_le(&mut bytes, self.st_size, 8);
        assert(bytes@ =~= symbol_bytes(*self));
        bytes
    }
}

/// String table builder: NUL-terminated strings, starting with the empty string.
pub struct StringTable {
    strings: Vec<u8>,
}

impl View for StringTable {
    type V = Seq<u8>;

    closed spec fn view(&self) -> Seq<u8> {
        self.strings@
    }
}

impl StringTable {
    /// Create a new string table
    pub fn new() -> (st: StringTable)
        ensures
            st@ == seq![0u8],
            string_table_wf(st@),
    {
        let mut st = StringTable { strings: Vec::new() };
        st.strings.push(0);  // First entry is always empty string
        assert(st.strings@ =~= seq![0u8]);
        st
    }

    /// Add a string and return its index: the string's bytes and a NUL
    /// terminator are appended, and the index is where they start.
    pub fn add(&mut self, s: &str) -> (index: u32)
        ensures
            final(self)@ == old(self)@ + s.spec_bytes() + seq![0u8],
            index == old(self)@.len() as u32,
            string_table_wf(old(self)@) ==> string_table_wf(final(self)@),
    {
        let index = self.strings.len() as u32;
        let bytes = s.as_bytes();
        push_all(&mut self.strings, bytes);
        self.strings.push(0);  // Null terminator
        proof {
            if string_table_wf(old(self)@) {
                string_table_law(old(self)@, s.spec_bytes());
            }
        }
        index
    }

    /// Get the string table bytes
    pub fn to_bytes(&self) -> (bytes: Vec<u8>)
        ensures
            bytes@ == self@,
    {
        self.strings.clone()
    }

    /// Get the size
    pub fn len(&self) -> (n: usize)
        ensures
            n == self@.len(),
    {
        self.strings.len()
    }
}

/// Serialized symbols, one after another.
pub open spec fn symbols_bytes(syms: Seq<Elf64Symbol>) -> Seq<u8>
    decreases syms.len(),
{
    if syms.len() == 0 {
        Seq::empty()
    } else {
        symbols_bytes(syms.drop_last()) + symbol_bytes(syms.last())
    }
}

/// ELF object file builder
pub struct ElfBuilder {
    text_section: Vec<u8>,
    data_section: Vec<u8>,
    symbols: Vec<Elf64Symbol>,
    string_table: StringTable,
    shstring_table: StringTable,
}

/// What an `ElfBuilder` has collected so far.
#[verifier::ext_equal]
pub struct ElfBuilderView {
    pub text: Seq<u8>,
    pub data: Seq<u8>,
    pub symbols: Seq<Elf64Symbol>,
    pub strtab: Seq<u8>,
    pub shstrtab: Seq<u8>,
}

impl View for ElfBuilder {
    type V = ElfBuilderView;

    closed spec fn view(&self) -> ElfBuilderView {
        ElfBuilderView {
            text: self.text_section@,
            data: self.data_section@,
            symbols: self.symbols@,
            strtab: self.string_table@,
            shstrtab: self.shstring_table@,
        }
    }
}

/// The section-name strings that `build` appends, in order.
/// (`""`, `.text`, `.data`, `.bss`, `.symtab`, `.strtab`, `.shstrtab`, each NUL-terminated)
pub open spec fn section_names() -> Seq<u8> {
    seq![0u8]
        + seq![0x2eu8, 0x74u8, 0x65u8, 0x78u8, 0x74u8, 0u8]
        + seq![0x2eu8, 0x64u8, 0x61u8, 0x74u8, 0x61u8, 0u8]
        + seq![0x2eu8, 0x62u8, 0x73u8, 0x73u8, 0u8]
        + seq![0x2eu8, 0x73u8, 0x79u8, 0x6du8, 0x74u8, 0x61u8, 0x62u8, 0u8]
        + seq![0x2eu8, 0x73u8, 0x74u8, 0x72u8, 0x74u8, 0x61u8, 0x62u8, 0u8]
        + seq![0x2eu8, 0x73u8, 0x68u8, 0x73u8, 0x74u8, 0x72u8, 0x74u8, 0x61u8, 0x62u8, 0u8]
}

proof fn lemma_section_name_bytes()
    ensures
        "".spec_bytes() =~= Seq::<u8>::empty(),
        ".text".spec_bytes() =~= seq![0x2eu8, 0x74u8, 0x65u8, 0x78u8, 0x74u8],
        ".data".spec_bytes() =~= seq![0x2eu8, 0x64u8, 0x61u8, 0x74u8, 0x61u8],
        ".bss".spec_bytes() =~= seq![0x2eu8, 0x62u8, 0x73u8, 0x73u8],
        ".symtab".spec_bytes() =~= seq![0x2eu8, 0x73u8, 0x79u8, 0x6du8, 0x74u8, 0x61u8, 0x62u8],
        ".strtab".spec_bytes() =~= seq![0x2eu8, 0x73u8, 0x74u8, 0x72u8, 0x74u8, 0x61u8, 0x62u8],
        ".shstrtab".spec_bytes() =~= seq![0x2eu8, 0x73u8, 0x68u8, 0x73u8, 0x74u8, 0x72u8, 0x74u8, 0x61u8, 0x62u8],
{
    broadcast use vstd::string::group_string_axioms;
    reveal_strlit("");
    reveal_strlit(".text");
    reveal_strlit(".data");
    reveal_strlit(".bss");
    reveal_strlit(".symtab");
    reveal_strlit(".strtab");
    reveal_strlit(".shstrtab");
    assert(vstd::string::is_ascii(""));
    assert(vstd::string::is_ascii(".text"));
    assert(vstd::string::is_ascii(".data"));
    assert(vstd::string::is_ascii(".bss"));
    assert(vstd::string::is_ascii(".symtab"));
    assert(vstd::string::is_ascii(".strtab"));
    assert(vstd::string::is_ascii(".shstrtab"));
}

/// Number of bytes that `build` appends to the section-name table.
pub open spec fn section_names_len() -> nat {
    44
}

/// File offset of the .data contents.
pub open spec fn data_offset(v: ElfBuilderView) -> nat {
    64 + v.text.len()
}

/// File offset of the symbol table.
pub open spec fn symtab_offset(v: ElfBuilderView) -> nat {
    data_offset(v) + v.data.len()
}

/// File offset of the symbol-name table.
pub open spec fn strtab_offset(v: ElfBuilderView) -> nat {
    symtab_offset(v) + symbols_bytes(v.symbols).len()
}

/// File offset of the section-name table.
pub open spec fn shstrtab_offset(v: ElfBuilderView) -> nat {
    strtab_offset(v) + v.strtab.len()
}

/// File offset of the section header table.
pub open spec fn section_headers_offset(v: ElfBuilderView) -> nat {
    shstrtab_offset(v) + v.shstrtab.len() + section_names_len()
}

/// Whether every offset of the laid-out file fits in 64 bits.
pub open spec fn image_fits(v: ElfBuilderView) -> bool {
    section_headers_offset(v) + 7 * 64 <= u64::MAX
}

/// The header of the built file.
pub open spec fn image_header(v: ElfBuilderView) -> Elf64Header {
    Elf64Header {
        e_ident: arbitrary(),
        e_type: 1,
        e_machine: 62,
        e_version: 1,
        e_entry: 0,
        e_phoff: 0,
        e_shoff: section_headers_offset(v) as u64,
        e_flags: 0,
        e_ehsize: ELF64_HEADER_SIZE,
        e_phentsize: 0,
        e_phnum: 0,
        e_shentsize: ELF64_SECTION_HEADER_SIZE,
        e_shnum: 7,
        e_shstrndx: 6,
    }
}

/// Serialized header of the built file.
pub open spec fn image_header_bytes(v: ElfBuilderView) -> Seq<u8> {
    elf_ident() + header_fields_bytes(image_header(v))
}

/// A section header of the built file.
pub open spec fn image_section(
    name: nat,
    typ: u32,
    flags: u64,
    offset: nat,
    size: nat,
    link: u32,
    info: u32,
    align: u64,
    entsize: u64,
) -> Elf64SectionHeader {
    Elf64SectionHeader {
        sh_name: name as u32,
        sh_type: typ,
        sh_flags: flags,
        sh_addr: 0,
        sh_offset: offset as u64,
        sh_size: size as u64,
        sh_link: link,
        sh_info: info,
        sh_addralign: align,
        sh_entsize: entsize,
    }
}

/// The seven section headers of the built file, serialized.
pub open spec fn image_section_headers(v: ElfBuilderView) -> Seq<u8> {
    let b = v.shstrtab.len();
    section_header_bytes(image_section(0, 0, 0, 0, 0, 0, 0, 0, 0))
        + section_header_bytes(image_section(b + 1, 1, 6, 64, v.text.len(), 0, 0, 16, 0))
        + section_header_bytes(image_section(b + 7, 1, 3, data_offset(v), v.data.len(), 0, 0, 8, 0))
        + section_header_bytes(image_section(b + 13, 8, 3, 0, 0, 0, 0, 8, 0))
        + section_header_bytes(image_section(b + 18, 2, 0, symtab_offset(v), symbols_bytes(v.symbols).len(), 5, 1, 8, 24))
        + section_header_bytes(image_section(b + 26, 3, 0, strtab_offset(v), v.strtab.len(), 0, 0, 1, 0))
        + section_header_bytes(image_section(b + 34, 3, 0, shstrtab_offset(v), v.shstrtab.len() + section_names_len(), 0, 0, 1, 0))
}

/// The complete object file that `build` writes.
#[verifier::opaque]
pub open spec fn build_image(v: ElfBuilderView) -> Seq<u8> {
    image_header_bytes(v) + v.text + v.data + symbols_bytes(v.symbols) + v.strtab + v.shstrtab
        + section_names() + image_section_headers(v)
}

impl ElfBuilder {
    /// Create a new ELF builder
    pub fn new() -> (b: ElfBuilder)
        ensures
            b@.text == Seq::<u8>::empty(),
            b@.data == Seq::<u8>::empty(),
            b@.symbols == seq![Elf64Symbol { st_name: 0, st_info: 0, st_other: 0, st_shndx: 0, st_value: 0, st_size: 0 }],
            b@.strtab == seq![0u8],
            b@.shstrtab == seq![0u8],
    {
        let mut symbols = Vec::new();
        symbols.push(Elf64Symbol::null());  // First symbol is always null
        ElfBuilder {
            text_section: Vec::new(),
            data_section: Vec::new(),
            symbols,
            string_table: StringTable::new(),
            shstring_table: StringTable::new(),
        }
    }

    /// Add code to .text section
    pub fn add_text(&mut self, code: &[u8])
        ensures
            final(self)@ == (ElfBuilderView { text: old(self)@.text + code@, ..old(self)@ }),
    {
        push_all(&mut self.text_section, code);
    }

    /// Add data to .data section
    pub fn add_data(&mut self, data: &[u8])
        ensures
            final(self)@ == (ElfBuilderView { data: old(self)@.data + data@, ..old(self)@ }),
    {
        push_all(&mut self.data_section, data);
    }

    /// Add a global function symbol in .text (section 1), whose name is
    /// appended to the symbol-name table.
    pub fn add_function(&mut self, name: &str, offset: u64, size: u64)
        ensures
            final(self)@ == (ElfBuilderView {
                symbols: old(self)@.symbols.push(
                    Elf64Symbol {
                        st_name: old(self)@.strtab.len() as u32,
                        st_info: global_func_info(),
                        st_other: 0,
                        st_shndx: 1,
                        st_value: offset,
                        st_size: size,
                    },
                ),
                strtab: old(self)@.strtab + name.spec_bytes() + seq![0u8],
                ..old(self)@
            }),
    {
        let name_idx = self.string_table.add(name);
        let symbol = Elf64Symbol::function(name_idx, 1, offset, size);  // Section 1 is .text
        self.symbols.push(symbol);
    }

    /// Serialized symbol table.
    fn symtab_bytes(&self) -> (bytes: Vec<u8>)
        ensures
            bytes@ == symbols_bytes(self.symbols@),
    {
        let mut bytes: Vec<u8> = Vec::new();
        let mut i: usize = 0;
        while i < self.symbols.len()
            invariant
                i <= self.symbols.len(),
                bytes@ == symbols_bytes(self.symbols@.subrange(0, i as int)),
            decreases self.symbols.len() - i,
        {
            let b = self.symbols[i].to_bytes();
            push_all(&mut bytes, b.as_slice());
            i = i + 1;
            assert(self.symbols@.subrange(0, i as int).drop_last() =~= self.symbols@.subrange(0, i - 1));
        }
        assert(self.symbols@.subrange(0, i as int) =~= self.symbols@);
        bytes
    }

    /// Build the final ELF file. The section names are appended to the
    /// section-name table first; the other contents are left as they were.
    #[verifier::rlimit(40)]
    pub fn build(&mut self) -> (output: Vec<u8>)
        requires
            image_fits(old(self)@),
        ensures
            output@ == build_image(old(self)@),
            final(self)@ == (ElfBuilderView { shstrtab: old(self)@.shstrtab + section_names(), ..old(self)@ }),
    {
        let ghost v = self@;
        proof {
            lemma_symbols_bytes_len(v.symbols);
        }
        let mut output: Vec<u8> = Vec::new();

        // Create header
        let mut header = Elf64Header::new_relocatable();

        // Build section name string table
        let null_name = self.shstring_table.add("");
        let text_name = self.shstring_table.add(".text");
        let data_name = self.shstring_table.add(".data");
        let bss_name = self.shstring_table.add(".bss");
        let symtab_name = self.shstring_table.add(".symtab");
        let strtab_name = self.shstring_table.add(".strtab");
        let shstrtab_name = self.shstring_table.add(".shstrtab");
        proof {
            lemma_section_name_bytes();
            assert(self.shstring_table@ =~= v.shstrtab + section_names());
        }

        // Calculate offsets
        let text_offset: u64 = ELF64_HEADER_SIZE as u64;
        let data_offset: u64 = text_offset + self.text_section.len() as u64;
        let symtab_offset: u64 = data_offset + self.data_section.len() as u64;

        let symtab_bytes = self.symtab_bytes();

        let strtab_offset: u64 = symtab_offset + symtab_bytes.len() as u64;
        let strtab_bytes = self.string_table.to_bytes();

        let shstrtab_offset: u64 = strtab_offset + strtab_bytes.len() as u64;
        let shstrtab_bytes = self.shstring_table.to_bytes();

        let section_headers_offset: u64 = shstrtab_offset + shstrtab_bytes.len() as u64;

        // Update header
        header.e_shoff = section_headers_offset;
        header.e_shnum = 7;  // null, .text, .data, .bss, .symtab, .strtab, .shstrtab
        header.e_shstrndx = 6;  // .shstrtab is section 6

        // Write header
        let hb = header.to_bytes();
        proof {
            lemma_header_fields_bytes_ident(header, image_header(v));
            assert(hb@ == image_header_bytes(v));
        }
        push_all(&mut output, hb.as_slice());

        // Write sections
        push_all(&mut output, self.text_section.as_slice());
        push_all(&mut output, self.data_section.as_slice());
        push_all(&mut output, symtab_bytes.as_slice());
        push_all(&mut output, strtab_bytes.as_slice());
        push_all(&mut output, shstrtab_bytes.as_slice());
        let ghost contents = output@;
        assert(contents == image_header_bytes(v) + v.text + v.data + symbols_bytes(v.symbols) + v.strtab
            + (v.shstrtab + section_names()));

        // Write section headers
        // 0: Null section
        let null_header = Elf64SectionHeader::null();
        push_all(&mut output, null_header.to_bytes().as_slice());

        let alloc = SectionFlags::Alloc.value();
        let exec = SectionFlags::ExecInstr.value();
        let write = SectionFlags::Write.value();
        assert(2u64 | 4u64 == 6u64) by (bit_vector);
        assert(2u64 | 1u64 == 3u64) by (bit_vector);

        // 1: .text
        let text_header = Elf64SectionHeader {
            sh_name: text_name,
            sh_type: SectionType::ProgBits.value(),
            sh_flags: alloc | exec,
            sh_addr: 0,
            sh_offset: text_offset,
            sh_size: self.text_section.len() as u64,
            sh_link: 0,
            sh_info: 0,
            sh_addralign: 16,
            sh_entsize: 0,
        };
        push_all(&mut output, text_header.to_bytes().as_slice());

        // 2: .data
        let data_header = Elf64SectionHeader {
            sh_name: data_name,
            sh_type: SectionType::ProgBits.value(),
            sh_flags: alloc | write,
            sh_addr: 0,
            sh_offset: data_offset,
            sh_size: self.data_section.len() as u64,
            sh_link: 0,
            sh_info: 0,
            sh_addralign: 8,
            sh_entsize: 0,
        };
        push_all(&mut output, data_header.to_bytes().as_slice());

        // 3: .bss (empty for now)
        let bss_header = Elf64SectionHeader {
            sh_name: bss_name,
            sh_type: SectionType::NoBits.value(),
            sh_flags: alloc | write,
            sh_addr: 0,
            sh_offset: 0,
            sh_size: 0,
            sh_link: 0,
            sh_info: 0,
            sh_addralign: 8,
            sh_entsize: 0,
        };
        push_all(&mut output, bss_header.to_bytes().as_slice());

        // 4: .symtab
        let symtab_header = Elf64SectionHeader {
            sh_name: symtab_name,
            sh_type: SectionType::SymTab.value(),
            sh_flags: 0,
            sh_addr: 0,
            sh_offset: symtab_offset,
            sh_size: symtab_bytes.len() as u64,
            sh_link: 5,  // Link to .strtab
            sh_info: 1,  // One local symbol (null)
            sh_addralign: 8,
            sh_entsize: ELF64_SYMBOL_SIZE,
        };
        push_all(&mut output, symtab_header.to_bytes().as_slice());

        // 5: .strtab
        let strtab_header = Elf64SectionHeader {
            sh_name: strtab_name,
            sh_type: SectionType::StrTab.value(),
            sh_flags: 0,
            sh_addr: 0,
            sh_offset: strtab_offset,
            sh_size: strtab_bytes.len() as u64,
            sh_link: 0,
            sh_info: 0,
            sh_addralign: 1,
            sh_entsize: 0,
        };
        push_all(&mut output, strtab_header.to_bytes().as_slice());

        // 6: .shstrtab
        let shstrtab_header = Elf64SectionHeader {
            sh_name: shstrtab_name,
            sh_type: SectionType::StrTab.value(),
            sh_flags: 0,
            sh_addr: 0,
            sh_offset: shstrtab_offset,
            sh_size: shstrtab_bytes.len() as u64,
            sh_link: 0,
            sh_info: 0,
            sh_addralign: 1,
            sh_entsize: 0,
        };
        push_all(&mut output, shstrtab_header.to_bytes().as_slice());

        proof {
            reveal(build_image);
            assert(output@ =~= build_image(v));
        }
        output
    }
}

/// `le_bytes(v, n)` has `n` bytes.
pub proof fn lemma_le_bytes_len(v: nat, n: nat)
    ensures
        le_bytes(v, n).len() == n,
    decreases n,
{
    if n > 0 {
        lemma_le_bytes_len(v / 256, (n - 1) as nat);
    }
}

/// Serialized symbols take 24 bytes each.
pub proof fn lemma_symbols_bytes_len(syms: Seq<Elf64Symbol>)
    ensures
        symbols_bytes(syms).len() == 24 * syms.len(),
    decreases syms.len(),
{
    if syms.len() > 0 {
        lemma_symbols_bytes_len(syms.drop_last());
        let s = syms.last();
        reveal(symbol_bytes);
        lemma_le_bytes_len(s.st_name as nat, 4);
        lemma_le_bytes_len(s.st_shndx as nat, 2);
        lemma_le_bytes_len(s.st_value as nat, 8);
        lemma_le_bytes_len(s.st_size as nat, 8);
    }
}

/// The serialized header fields depend on the fields alone, not the identification bytes.
proof fn lemma_header_fields_bytes_ident(h1: Elf64Header, h2: Elf64Header)
    requires
        h1 == (Elf64Header { e_ident: h1.e_ident, ..h2 }),
    ensures
        header_fields_bytes(h1) == header_fields_bytes(h2),
{
    reveal(header_fields_bytes);
}

/// A string table in the form `StringTable` keeps: it starts and ends with
/// a NUL byte.
pub open spec fn string_table_wf(t: Seq<u8>) -> bool {
    t.len() >= 1 && t[0] == 0 && t[t.len() - 1] == 0
}

/// A new string table is well formed, and adding a string keeps it so: the
/// earlier bytes stay in place and the string, NUL-terminated, starts at
/// the index that `add` returns (the old length).
pub proof fn string_table_law(t: Seq<u8>, s: Seq<u8>)
    requires
        string_table_wf(t),
    ensures
        string_table_wf(seq![0u8]),
        string_table_wf(t + s + seq![0u8]),
        (t + s + seq![0u8]).subrange(0, t.len() as int) == t,
        (t + s + seq![0u8]).subrange(t.len() as int, (t.len() + s.len() + 1) as int) == s + seq![0u8],
{
    let u = t + s + seq![0u8];
    assert(u.subrange(0, t.len() as int) =~= t);
    assert(u.subrange(t.len() as int, (t.len() + s.len() + 1) as int) =~= s + seq![0u8]);
    assert(u[0] == t[0]);
}

/// Adding code `a` and then `c` leaves the builder as adding `a + c` at
/// once does, so both build the same file.
pub proof fn add_text_twice_law(v: ElfBuilderView, a: Seq<u8>, c: Seq<u8>)
    ensures
        (ElfBuilderView { text: (ElfBuilderView { text: v.text + a, ..v }).text + c, ..v })
            == (ElfBuilderView { text: v.text + (a + c), ..v }),
        build_image(ElfBuilderView { text: (ElfBuilderView { text: v.text + a, ..v }).text + c, ..v })
            == build_image(ElfBuilderView { text: v.text + (a + c), ..v }),
{
    assert((v.text + a) + c =~= v.text + (a + c));
}

/// A function added to a builder keeps its place through later additions
/// (which only append): in the built file its symbol, named by the
/// symbol-name table's length before the call, is serialized among the
/// symbols at its position, and its name, NUL-terminated, lies at that
/// index of the symbol-name table.
pub proof fn add_function_law(v: ElfBuilderView, name: Seq<u8>, offset: u64, size: u64, u: ElfBuilderView)
    requires
        v.strtab.len() <= u32::MAX,
        v.symbols.len() < u.symbols.len(),
        u.symbols[v.symbols.len() as int] == (Elf64Symbol {
            st_name: v.strtab.len() as u32,
            st_info: global_func_info(),
            st_other: 0,
            st_shndx: 1,
            st_value: offset,
            st_size: size,
        }),
        v.strtab.len() + name.len() + 1 <= u.strtab.len(),
        u.strtab.subrange(v.strtab.len() as int, (v.strtab.len() + name.len() + 1) as int) == name + seq![0u8],
    ensures
        build_image(u).subrange(
            (symtab_offset(u) + 24 * v.symbols.len()) as int,
            (symtab_offset(u) + 24 * v.symbols.len() + 24) as int,
        ) == symbol_bytes(u.symbols[v.symbols.len() as int]),
        build_image(u).subrange(
            (strtab_offset(u) + v.strtab.len()) as int,
            (strtab_offset(u) + v.strtab.len() + name.len() + 1) as int,
        ) == name + seq![0u8],
{
    build_image_tables_law(u, v.symbols.len() as int);
    let img = build_image(u);
    let t = img.subrange(strtab_offset(u) as int, shstrtab_offset(u) as int);
    assert(t == u.strtab);
    let lo = strtab_offset(u) + v.strtab.len();
    assert forall|j: int| 0 <= j < name.len() + 1 implies #[trigger] img[lo + j] == u.strtab[v.strtab.len() + j] by {
        assert(t[v.strtab.len() + j] == img[strtab_offset(u) + v.strtab.len() + j]);
    }
    assert(img.subrange((strtab_offset(u) + v.strtab.len()) as int, (strtab_offset(u) + v.strtab.len() + name.len() + 1) as int)
        =~= t.subrange(v.strtab.len() as int, (v.strtab.len() + name.len() + 1) as int));
}

/// The size of a built file: the header, the sections' contents, the
/// section names and seven section headers.
proof fn lemma_build_image_len(v: ElfBuilderView)
    ensures
        build_image(v).len() == 64 + v.text.len() + v.data.len() + 24 * v.symbols.len() + v.strtab.len()
            + v.shstrtab.len() + section_names().len() + 7 * 64,
{
    reveal(build_image);
    let h = image_header(v);
    lemma_header_bytes_len(h);
    assert(image_header_bytes(v).len() == 64) by {
        assert(header_bytes(h) == h.e_ident@ + header_fields_bytes(h));
    }
    lemma_symbols_bytes_len(v.symbols);
    assert forall|x: Elf64SectionHeader| #[trigger] section_header_bytes(x).len() == 64 by {
        lemma_section_header_bytes_len(x);
    }
}

/// Adding a function makes the built file longer by its symbol (24
/// bytes) and its NUL-terminated name.
pub proof fn add_function_size_law(v: ElfBuilderView, name: Seq<u8>, offset: u64, size: u64)
    requires
        v.strtab.len() <= u32::MAX,
    ensures
        build_image(ElfBuilderView {
            symbols: v.symbols.push(
                Elf64Symbol {
                    st_name: v.strtab.len() as u32,
                    st_info: global_func_info(),
                    st_other: 0,
                    st_shndx: 1,
                    st_value: offset,
                    st_size: size,
                },
            ),
            strtab: v.strtab + name + seq![0u8],
            ..v
        }).len() == build_image(v).len() + 25 + name.len(),
{
    let w = ElfBuilderView {
        symbols: v.symbols.push(
            Elf64Symbol {
                st_name: v.strtab.len() as u32,
                st_info: global_func_info(),
                st_other: 0,
                st_shndx: 1,
                st_value: offset,
                st_size: size,
            },
        ),
        strtab: v.strtab + name + seq![0u8],
        ..v
    };
    lemma_build_image_len(v);
    lemma_build_image_len(w);
}

/// `add_function` appends its symbol and its name: after it and any later
/// additions that keep them, `add_function_law` applies.
pub proof fn add_function_then_law(v: ElfBuilderView, name: Seq<u8>, offset: u64, size: u64)
    requires
        v.strtab.len() <= u32::MAX,
    ensures
        ({
            let w = ElfBuilderView {
                symbols: v.symbols.push(
                    Elf64Symbol {
                        st_name: v.strtab.len() as u32,
                        st_info: global_func_info(),
                        st_other: 0,
                        st_shndx: 1,
                        st_value: offset,
                        st_size: size,
                    },
                ),
                strtab: v.strtab + name + seq![0u8],
                ..v
            };
            &&& w.symbols[v.symbols.len() as int] == (Elf64Symbol {
                st_name: v.strtab.len() as u32,
                st_info: global_func_info(),
                st_other: 0,
                st_shndx: 1,
                st_value: offset,
                st_size: size,
            })
            &&& w.strtab.subrange(v.strtab.len() as int, (v.strtab.len() + name.len() + 1) as int) == name + seq![0u8]
        }),
{
    let t = v.strtab + name + seq![0u8];
    assert(t.subrange(v.strtab.len() as int, (v.strtab.len() + name.len() + 1) as int) =~= name + seq![0u8]);
}

/// The tables of a built file: symbol `k` (in the order the symbols were
/// added) is serialized 24 bytes each from the symbol table's offset, and
/// the symbol-name table follows the symbol table.
pub proof fn build_image_tables_law(v: ElfBuilderView, k: int)
    requires
        0 <= k < v.symbols.len(),
    ensures
        build_image(v).subrange(symtab_offset(v) + 24 * k, symtab_offset(v) + 24 * k + 24) == symbol_bytes(v.symbols[k]),
        build_image(v).subrange(strtab_offset(v) as int, shstrtab_offset(v) as int) == v.strtab,
        build_image(v).subrange(64, 64 + v.text.len() as int) == v.text,
        shstrtab_offset(v) <= build_image(v).len(),
{
    reveal(build_image);
    let h = image_header(v);
    lemma_header_bytes_len(h);
    let hb = image_header_bytes(v);
    assert(hb.len() == 64) by {
        assert(header_bytes(h) == h.e_ident@ + header_fields_bytes(h));
    }
    lemma_symbols_bytes_len(v.symbols);
    lemma_symbol_at(v.symbols, k);
    let img = build_image(v);
    let syms = symbols_bytes(v.symbols);
    let before = hb + v.text + v.data;
    assert(img =~= before + syms + (v.strtab + v.shstrtab + section_names() + image_section_headers(v)));
    assert(img.subrange(symtab_offset(v) + 24 * k, symtab_offset(v) + 24 * k + 24) =~= syms.subrange(24 * k, 24 * k + 24));
    assert(img.subrange(strtab_offset(v) as int, shstrtab_offset(v) as int) =~= v.strtab);
    assert(img.subrange(64, 64 + v.text.len() as int) =~= v.text);
}

/// Symbol `k` of a list is serialized at byte `24 * k`.
proof fn lemma_symbol_at(syms: Seq<Elf64Symbol>, k: int)
    requires
        0 <= k < syms.len(),
    ensures
        symbols_bytes(syms).subrange(24 * k, 24 * k + 24) == symbol_bytes(syms[k]),
    decreases syms.len(),
{
    lemma_symbols_bytes_len(syms.drop_last());
    lemma_symbols_bytes_len(seq![syms.last()]);
    reveal(symbol_bytes);
    let s = syms.last();
    lemma_le_bytes_len(s.st_name as nat, 4);
    lemma_le_bytes_len(s.st_shndx as nat, 2);
    lemma_le_bytes_len(s.st_value as nat, 8);
    lemma_le_bytes_len(s.st_size as nat, 8);
    let front = symbols_bytes(syms.drop_last());
    if k < syms.len() - 1 {
        lemma_symbol_at(syms.drop_last(), k);
        assert(symbols_bytes(syms).subrange(24 * k, 24 * k + 24) =~= front.subrange(24 * k, 24 * k + 24));
    } else {
        assert(symbols_bytes(syms).subrange(24 * k, 24 * k + 24) =~= symbol_bytes(s));
    }
}

/// Create an ELF object file from machine code: the code is the .text
/// section and `function_name` a global function symbol covering all of it.
pub fn create_elf_object(code: &[u8], function_name: &str) -> (obj: Vec<u8>)
    requires
        64 + code@.len() + 24 * 2 + 1 + function_name.spec_bytes().len() + 1 + 1 + 44 + 7 * 64 <= u64::MAX,
    ensures
        obj@ == build_image(ElfBuilderView {
            text: code@,
            data: Seq::empty(),
            symbols: seq![
                Elf64Symbol { st_name: 0, st_info: 0, st_other: 0, st_shndx: 0, st_value: 0, st_size: 0 },
                Elf64Symbol {
                    st_name: 1,
                    st_info: global_func_info(),
                    st_other: 0,
                    st_shndx: 1,
                    st_value: 0,
                    st_size: code@.len() as u64,
                },
            ],
            strtab: seq![0u8] + function_name.spec_bytes() + seq![0u8],
            shstrtab: seq![0u8],
        }),
{
    let mut builder = ElfBuilder::new();
    builder.add_text(code);
    builder.add_function(function_name, 0, code.len() as u64);
    proof {
        lemma_symbols_bytes_len(builder@.symbols);
        assert(builder@ =~= ElfBuilderView {
            text: code@,
            data: Seq::empty(),
            symbols: seq![
                Elf64Symbol { st_name: 0, st_info: 0, st_other: 0, st_shndx: 0, st_value: 0, st_size: 0 },
                Elf64Symbol {
                    st_name: 1,
                    st_info: global_func_info(),
                    st_other: 0,
                    st_shndx: 1,
                    st_value: 0,
                    st_size: code@.len() as u64,
                },
            ],
            strtab: seq![0u8] + function_name.spec_bytes() + seq![0u8],
            shstrtab: seq![0u8],
        });
    }
    builder.build()
}

/// A serialized header takes exactly `e_ehsize` (64) bytes.
pub proof fn lemma_header_bytes_len(h: Elf64Header)
    ensures
        header_bytes(h).len() == ELF64_HEADER_SIZE,
{
    reveal(header_fields_bytes);
    lemma_le_bytes_len(h.e_type as nat, 2);
    lemma_le_bytes_len(h.e_machine as nat, 2);
    lemma_le_bytes_len(h.e_version as nat, 4);
    lemma_le_bytes_len(h.e_entry as nat, 8);
    lemma_le_bytes_len(h.e_phoff as nat, 8);
    lemma_le_bytes_len(h.e_shoff as nat, 8);
    lemma_le_bytes_len(h.e_flags as nat, 4);
    lemma_le_bytes_len(h.e_ehsize as nat, 2);
    lemma_le_bytes_len(h.e_phentsize as nat, 2);
    lemma_le_bytes_len(h.e_phnum as nat, 2);
    lemma_le_bytes_len(h.e_shentsize as nat, 2);
    lemma_le_bytes_len(h.e_shnum as nat, 2);
    lemma_le_bytes_len(h.e_shstrndx as nat, 2);
}

/// A serialized section header takes exactly `e_shentsize` (64) bytes.
pub proof fn lemma_section_header_bytes_len(h: Elf64SectionHeader)
    ensures
        section_header_bytes(h).len() == ELF64_SECTION_HEADER_SIZE,
{
    reveal(section_header_bytes);
    lemma_le_bytes_len(h.sh_name as nat, 4);
    lemma_le_bytes_len(h.sh_type as nat, 4);
    lemma_le_bytes_len(h.sh_flags as nat, 8);
    lemma_le_bytes_len(h.sh_addr as nat, 8);
    lemma_le_bytes_len(h.sh_offset as nat, 8);
    lemma_le_bytes_len(h.sh_size as nat, 8);
    lemma_le_bytes_len(h.sh_link as nat, 4);
    lemma_le_bytes_len(h.sh_info as nat, 4);
    lemma_le_bytes_len(h.sh_addralign as nat, 8);
    lemma_le_bytes_len(h.sh_entsize as nat, 8);
}

/// Reading little-endian bytes back gives the value they were written from,
/// when it fits in them.
pub proof fn lemma_le_roundtrip(v: nat, n: nat)
    requires
        v < vstd::arithmetic::power::pow(256, n),
    ensures
        le_value(le_bytes(v, n)) == v,
    decreases n,
{
    if n == 0 {
        vstd::arithmetic::power::lemma_pow0(256);
    } else {
        vstd::arithmetic::power::lemma_pow_positive(256, (n - 1) as nat);
        vstd::arithmetic::power::lemma_pow_adds(256, 1, (n - 1) as nat);
        vstd::arithmetic::power::lemma_pow1(256);
        let p = vstd::arithmetic::power::pow(256, (n - 1) as nat);
        vstd::arithmetic::div_mod::lemma_fundamental_div_mod(v as int, 256);
        assert(v / 256 < p) by {
            if v / 256 >= p {
                vstd::arithmetic::mul::lemma_mul_inequality(p as int, (v / 256) as int, 256);
                vstd::arithmetic::mul::lemma_mul_is_commutative(p as int, 256);
                vstd::arithmetic::mul::lemma_mul_is_commutative((v / 256) as int, 256);
            }
        }
        lemma_le_roundtrip(v / 256, (n - 1) as nat);
        let b = le_bytes(v, n);
        assert(b.drop_first() =~= le_bytes(v / 256, (n - 1) as nat));
        assert(v == (v % 256) + 256 * (v / 256));
    }
}

/// The layout of a built object file: the header first, the code at
/// offset 64, and the seven section headers at `e_shoff`, ending the file.
pub proof fn lemma_build_image_layout(v: ElfBuilderView)
    ensures
        build_image(v).len() == section_headers_offset(v) + 7 * 64,
        build_image(v).subrange(0, 16) == elf_ident(),
        build_image(v).subrange(64, (64 + v.text.len()) as int) == v.text,
        build_image(v).subrange(data_offset(v) as int, symtab_offset(v) as int) == v.data,
        build_image(v).subrange(section_headers_offset(v) as int, (section_headers_offset(v) + 7 * 64) as int)
            == image_section_headers(v),
{
    reveal(build_image);
    reveal(header_fields_bytes);
    let h = image_header(v);
    lemma_header_bytes_len(h);
    lemma_symbols_bytes_len(v.symbols);
    let hb = image_header_bytes(v);
    assert(hb.len() == 64) by {
        assert(header_bytes(h) == h.e_ident@ + header_fields_bytes(h));
    }
    let b = v.shstrtab.len();
    lemma_section_header_bytes_len(image_section(0, 0, 0, 0, 0, 0, 0, 0, 0));
    lemma_section_header_bytes_len(image_section(b + 1, 1, 6, 64, v.text.len(), 0, 0, 16, 0));
    lemma_section_header_bytes_len(image_section(b + 7, 1, 3, data_offset(v), v.data.len(), 0, 0, 8, 0));
    lemma_section_header_bytes_len(image_section(b + 13, 8, 3, 0, 0, 0, 0, 8, 0));
    lemma_section_header_bytes_len(image_section(b + 18, 2, 0, symtab_offset(v), symbols_bytes(v.symbols).len(), 5, 1, 8, 24));
    lemma_section_header_bytes_len(image_section(b + 26, 3, 0, strtab_offset(v), v.strtab.len(), 0, 0, 1, 0));
    lemma_section_header_bytes_len(image_section(b + 34, 3, 0, shstrtab_offset(v), v.shstrtab.len() + section_names_len(), 0, 0, 1, 0));
    let img = build_image(v);
    let shs = image_section_headers(v);
    assert(shs.len() == 7 * 64);
    assert(section_names().len() == section_names_len());
    let contents = hb + v.text + v.data + symbols_bytes(v.symbols) + v.strtab + v.shstrtab + section_names();
    assert(img == contents + shs);
    assert(contents.len() == section_headers_offset(v));
    assert(img.subrange(0, 16) =~= elf_ident());
    assert(img.subrange(64, (64 + v.text.len()) as int) =~= v.text);
    assert(img.subrange(data_offset(v) as int, symtab_offset(v) as int) =~= v.data);
    assert(img.subrange(section_headers_offset(v) as int, (section_headers_offset(v) + 7 * 64) as int) =~= shs);
}

} // verus!
