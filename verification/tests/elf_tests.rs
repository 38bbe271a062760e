use glimmer_weave::elf::{create_elf_object, Elf64Header, ElfBuilder, StringTable};

#[test]
fn header_is_64_bytes_with_magic() {
    let h = Elf64Header::new_relocatable();
    let b = h.to_bytes();
    assert_eq!(b.len(), 64);
    assert_eq!(&b[0..4], &[0x7f, b'E', b'L', b'F']);
    assert_eq!(b[4], 2); // 64-bit
    assert_eq!(b[5], 1); // little endian
    assert_eq!(u16::from_le_bytes([b[16], b[17]]), 1); // relocatable
    assert_eq!(u16::from_le_bytes([b[18], b[19]]), 0x3e); // x86-64
}

#[test]
fn string_table_indices() {
    let mut t = StringTable::new();
    assert_eq!(t.len(), 1);
    assert_eq!(t.add("main"), 1);
    assert_eq!(t.add("foo"), 6);
    assert_eq!(t.to_bytes(), b"\0main\0foo\0".to_vec());
}

#[test]
fn object_holds_code_and_name() {
    let code = [0x48u8, 0x31, 0xc0, 0xc3];
    let obj = create_elf_object(&code, "main");
    assert_eq!(&obj[0..4], &[0x7f, b'E', b'L', b'F']);
    assert_eq!(&obj[64..68], &code);
    let text = obj.windows(6).any(|w| w == b"\0main\0");
    assert!(text);
}

#[test]
fn builder_matches_helper() {
    let code = [0x90u8, 0xc3];
    let mut b = ElfBuilder::new();
    b.add_text(&code);
    b.add_function("entry", 0, code.len() as u64);
    assert_eq!(b.build(), create_elf_object(&code, "entry"));
}

#[test]
fn string_table_starts_and_ends_with_nul() {
    let mut t = StringTable::new();
    for name in ["main", "", "helper"] {
        let index = t.add(name) as usize;
        let bytes = t.to_bytes();
        assert_eq!(bytes.len(), t.len());
        assert_eq!(bytes[0], 0);
        assert_eq!(bytes[bytes.len() - 1], 0);
        assert_eq!(&bytes[index..index + name.len()], name.as_bytes());
        assert_eq!(bytes[index + name.len()], 0);
    }
}

#[test]
fn code_added_in_parts_builds_like_code_added_at_once() {
    let mut parts = ElfBuilder::new();
    parts.add_text(&[0x55, 0x48]);
    parts.add_text(&[0x89, 0xe5, 0xc3]);
    let mut whole = ElfBuilder::new();
    whole.add_text(&[0x55, 0x48, 0x89, 0xe5, 0xc3]);
    let out = parts.build();
    assert_eq!(out, whole.build());
    assert_eq!(&out[64..69], &[0x55, 0x48, 0x89, 0xe5, 0xc3]);
}

#[test]
fn added_function_symbols_and_names_are_laid_out_in_order() {
    let mut b = ElfBuilder::new();
    let code = [0x90u8, 0xc3];
    b.add_text(&code);
    b.add_function("first", 0, 1);
    b.add_function("second", 1, 1);
    let out = b.build();
    let symtab = 64 + code.len();
    // Symbol 2 names the string at offset 1 + "first\0".len() = 7 of the name table.
    let second = &out[symtab + 48..symtab + 72];
    assert_eq!(u32::from_le_bytes([second[0], second[1], second[2], second[3]]), 7);
    assert_eq!(u16::from_le_bytes([second[6], second[7]]), 1);
    assert_eq!(u64::from_le_bytes(second[8..16].try_into().unwrap()), 1);
    let strtab = symtab + 3 * 24;
    assert_eq!(&out[strtab..strtab + 14], b"\0first\0second\0");
}

#[test]
fn adding_a_function_grows_the_file_by_its_symbol_and_name() {
    let mut a = ElfBuilder::new();
    a.add_text(&[0xc3u8]);
    let mut b = ElfBuilder::new();
    b.add_text(&[0xc3u8]);
    b.add_function("main", 0, 1);
    assert_eq!(b.build().len(), a.build().len() + 25 + "main".len());
}
