use wind::backend::assembler::x86_64::instr::add::Add;
use wind::backend::assembler::x86_64::instr::lea::Lea;
use wind::backend::assembler::x86_64::instr::mov::Mov;
use wind::backend::assembler::x86_64::instr::sub::Sub;
use wind::backend::assembler::x86_64::mem::ptr;
use wind::backend::assembler::x86_64::regs::{eax, edi, rbp, rip, rsi, rsp};
use wind::backend::writer::obj::{
    ObjectBuilder, PlannedRelocation, PlannedSection, PlannedSymbol, RelocationEncoding,
    RelocationKind, SymbolKind, SymbolScope,
};
use wind::backend::writer::{CodeBuilder, Label, Section, SectionKind};
use wind::backend::writer::obj::RelocationEncoding::{Generic, X86Branch, X86RipRelative, X86Signed};
use wind::backend::writer::obj::RelocationKind::{Absolute, PltRelative, Relative};
use wind::reporter::obj::ObjectError;

fn is_elf_object(bytes: &[u8]) -> bool {
    bytes.len() > 20
        && bytes[..4] == [0x7F, b'E', b'L', b'F']
        && bytes[4] == 2 // 64-bit
        && bytes[5] == 1 // little-endian
        && bytes[16..18] == [1, 0] // relocatable
        && bytes[18..20] == [0x3E, 0] // x86-64
}

fn contains(haystack: &[u8], needle: &[u8]) -> bool {
    haystack.windows(needle.len()).any(|w| w == needle)
}

#[test]
fn wt_test_jmp() {
    let mut cb = CodeBuilder::new();
    let section = cb.add_section("text".to_string());
    cb.bind_section(section);

    let label = cb.add_label("main".to_string());
    cb.bind_label(label);

    cb.add_bytes((rsp(), 16).sub().unwrap());
    cb.add_bytes((rbp(), rsp()).mov().unwrap());
    cb.add_bytes((ptr(rbp(), -8, 4), 0x10).mov().unwrap());
    cb.add_bytes((eax(), ptr(rbp(), -8, 4)).mov().unwrap());

    let cl1 = cb.add_label(".L1".to_string());
    cb.bind_label(cl1);

    cb.add_bytes((ptr(rbp(), -8, 4), 0x20).add().unwrap());
    cb.symbol_jmp("main".to_string());

    cb.finalize().unwrap();
    let main_len = cb.sections[0].labels[0].code.len() as isize;
    let loop_label = &cb.sections[0].labels[1];
    assert_eq!(loop_label.offset, main_len);
    // the jump goes back from byte 7 of the second label to the start of the first
    let at = loop_label.code.len() - 5;
    assert_eq!(at, 7);
    let rel = (0 - main_len - 7 - 5) as i32;
    let mut jump = vec![0xE9];
    jump.extend_from_slice(&rel.to_le_bytes());
    assert_eq!(&loop_label.code[at..], &jump[..]);
    assert!(cb.relocs.is_empty());

    let file = cb.write_obj().unwrap();
    assert!(is_elf_object(&file));
    assert!(contains(&file, &cb.sections[0].labels[1].code));
    assert!(contains(&file, b"main\0"));
    assert!(!contains(&file, b".L1\0"));
}

#[test]
fn wt_test_reloc_libc() {
    let mut cb = CodeBuilder::new();
    let section = cb.add_section(".rodata".to_string());
    cb.bind_section(section);
    let str_label = cb.add_label(".str1".to_string());
    cb.bind_label(str_label);
    cb.add_bytes("Hello, world!\n\0".as_bytes().to_vec());

    let section = cb.add_section(".text".to_string());
    cb.bind_section(section);

    cb.add_extern("printf".to_string());
    cb.add_extern("exit".to_string());

    let label = cb.add_label("_start".to_string());
    cb.bind_label(label);
    cb.set_global();

    cb.add_bytes((rsi(), ptr(rip(), 0x100, 8)).lea());
    cb.add_bytes((edi(), 0x01).mov().unwrap());
    cb.symbol_call("exit".to_string());

    cb.finalize().unwrap();
    // lea is 7 bytes and mov 5: the displacement of the call starts at 13
    assert_eq!(cb.relocs, vec![(1, "exit".to_string(), 13)]);
    let start = &cb.sections[1].labels[0];
    assert!(start.global);
    assert_eq!(&start.code[12..], &[0xE8, 0xFB, 0xFF, 0xFF, 0xFF]);

    let file = cb.write_obj().unwrap();
    assert!(is_elf_object(&file));
    assert!(contains(&file, b"Hello, world!\n\0"));
    assert!(contains(&file, b"_start\0"));
    assert!(contains(&file, b"printf\0"));
    assert!(contains(&file, b"exit\0"));
    assert!(contains(&file, b".rela.text\0"));
    assert!(!contains(&file, b".str1\0"));
}

#[test]
fn label_collects_and_overwrites_bytes() {
    let mut label = Label::new("l".to_string(), 3, 40);
    assert_eq!((label.name.as_str(), label.i, label.offset), ("l", 3, 40));
    assert!(label.code.is_empty() && !label.global && !label.weak);
    label.add_byte(1);
    label.add_bytes(vec![2, 3, 4]);
    assert_eq!(label.code, vec![1, 2, 3, 4]);
    label.set_bytes_at(vec![9, 8], 1);
    assert_eq!(label.code, vec![1, 9, 8, 4]);
    label.set_bytes_at(vec![], 4);
    assert_eq!(label.code, vec![1, 9, 8, 4]);
    label.set_global();
    assert!(label.global && !label.weak);
    label.set_weak();
    assert!(label.global && label.weak);
}

#[test]
fn label_jumps_relative_to_its_end() {
    let mut label = Label::new("l".to_string(), 0, 0x20);
    label.add_bytes(vec![0x90; 3]);
    // to 0x100 from the end of the label at 0x23: 0x100 - 0x20 - 3 - 5
    label.resolve_rel_jmp(0x100);
    assert_eq!(label.code[3..], [0xE9, 0xD8, 0x00, 0x00, 0x00]);
}

#[test]
fn label_offsets_accumulate_within_a_section() {
    let mut cb = CodeBuilder::new();
    assert_eq!(cb.add_section("a".to_string()), 0);
    assert_eq!(cb.add_section("b".to_string()), 1);
    cb.bind_section(1);
    assert_eq!(cb.add_label("x".to_string()), 0);
    cb.bind_label(0);
    cb.add_bytes(vec![0; 5]);
    assert_eq!(cb.add_label("y".to_string()), 1);
    cb.bind_label(1);
    cb.add_byte(0xC3);
    cb.add_byte(0xC3);
    assert_eq!(cb.add_label("z".to_string()), 2);
    // bytes that come later do not move a label that exists
    cb.bind_label(0);
    cb.add_byte(0);
    let offsets: Vec<isize> = cb.sections[1].labels.iter().map(|l| l.offset).collect();
    assert_eq!(offsets, vec![0, 5, 7]);
    // the other section starts at zero again
    cb.bind_section(0);
    assert_eq!(cb.add_label("w".to_string()), 0);
    assert_eq!(cb.sections[0].labels[0].offset, 0);
    assert_eq!(cb.sections[0].i, 0);
    assert_eq!(cb.sections[1].i, 1);
}

#[test]
fn sections_and_labels_are_found_by_name() {
    let mut cb = CodeBuilder::new();
    cb.add_section("a".to_string());
    cb.add_section("b".to_string());
    cb.add_section("a".to_string());
    assert_eq!(cb.section_index("a"), Some(0));
    assert_eq!(cb.section_index("b"), Some(1));
    assert_eq!(cb.section_index("c"), None);
    cb.get_section("b").unwrap().kind = SectionKind::Data;
    assert_eq!(cb.sections[1].kind, SectionKind::Data);
    assert!(cb.get_section("c").is_none());
    cb.bind_section(1);
    cb.set_kind(SectionKind::ReadOnlyData);
    assert_eq!(cb.sections[1].kind, SectionKind::ReadOnlyData);
    assert_eq!(cb.sections[0].kind, SectionKind::Text);
    cb.add_label("x".to_string());
    cb.add_label("y".to_string());
    assert_eq!(cb.label_index("y"), Some(1));
    assert_eq!(cb.label_index("z"), None);
    cb.get_label("y").unwrap().set_weak();
    assert!(cb.sections[1].labels[1].weak);
    assert!(!cb.sections[1].labels[0].weak);
    assert!(cb.get_label("z").is_none());
    // labels of other sections are out of sight
    cb.bind_section(0);
    assert!(cb.get_label("x").is_none());
    let fresh = Section::new("s".to_string(), 7);
    assert_eq!((fresh.name.as_str(), fresh.i, fresh.kind), ("s", 7, SectionKind::Text));
}

#[test]
fn builder_writes_at_its_cursor() {
    let mut cb = CodeBuilder::new();
    cb.add_section("t".to_string());
    cb.add_label("a".to_string());
    cb.add_label("b".to_string());
    cb.bind_label(1);
    cb.add_bytes(vec![1, 2, 3, 4, 5, 6]);
    cb.set_bytes_at(vec![0xAA, 0xBB], 2);
    assert_eq!(cb.sections[0].labels[1].code, vec![1, 2, 0xAA, 0xBB, 5, 6]);
    assert!(cb.sections[0].labels[0].code.is_empty());
    cb.bind_label(0);
    cb.resolve_rel_jmp(0);
    assert_eq!(cb.sections[0].labels[0].code, vec![0xE9, 0xFB, 0xFF, 0xFF, 0xFF]);
}

#[test]
fn calls_and_jumps_are_resolved_or_become_relocations() {
    let mut cb = CodeBuilder::new();
    cb.add_section(".text".to_string());
    cb.add_label("f".to_string());
    cb.bind_label(0);
    cb.add_bytes(vec![0x90; 4]);
    cb.add_label("g".to_string());
    cb.bind_label(1);
    cb.add_byte(0x90);
    cb.symbol_call("f".to_string());
    cb.symbol_jmp("nowhere".to_string());
    cb.symbol_jmp("g".to_string());
    // placeholders: target 0
    assert_eq!(cb.sections[0].labels[1].code[1..6], [0xE8, 0xFB, 0xFF, 0xFF, 0xFF]);
    assert_eq!(cb.sections[0].labels[1].code[6..11], [0xE9, 0xFB, 0xFF, 0xFF, 0xFF]);
    cb.bind_label(0);
    assert!(cb.finalize().is_ok());
    let code = &cb.sections[0].labels[1].code;
    // call f from byte 1 of g at 4: 0 - 4 - 1 - 5
    assert_eq!(code[1..6], [0xE8, 0xF6, 0xFF, 0xFF, 0xFF]);
    // the unknown name keeps its placeholder
    assert_eq!(code[6..11], [0xE9, 0xFB, 0xFF, 0xFF, 0xFF]);
    // jmp g from byte 11 of g: 4 - 4 - 11 - 5
    assert_eq!(code[11..16], [0xE9, 0xF0, 0xFF, 0xFF, 0xFF]);
    // the relocation points past the opcode: 6 + 4 + 1
    assert_eq!(cb.relocs, vec![(0, "nowhere".to_string(), 11)]);
    // the cursor rests on the branch that was resolved last
    cb.add_byte(0xC3);
    assert_eq!(cb.sections[0].labels[1].code.len(), 17);
    // a reference to a name that is not declared cannot be linked
    match cb.write_obj() {
        Err(ObjectError::SymbolNotFound { symbol }) => assert_eq!(symbol, "nowhere"),
        other => panic!("unexpected {:?}", other),
    }
}

#[test]
fn object_plan_follows_the_code() {
    let mut cb = CodeBuilder::new();
    cb.add_section(".data".to_string());
    cb.set_kind(SectionKind::Data);
    cb.add_label(".hidden".to_string());
    cb.bind_label(0);
    cb.add_bytes(vec![1, 2]);
    cb.add_label("shown".to_string());
    cb.bind_label(1);
    cb.add_bytes(vec![3]);
    cb.set_global();
    cb.get_label("shown").unwrap().set_weak();
    cb.add_section(".text".to_string());
    cb.bind_section(1);
    cb.add_extern("puts".to_string());
    cb.add_label("main".to_string());
    cb.bind_label(0);
    cb.symbol_call("puts".to_string());
    cb.finalize().unwrap();

    let mut plan = ObjectBuilder::new();
    assert!(plan.scan_cb(&cb).is_ok());
    let sections: Vec<(&str, SectionKind, &[u8])> =
        plan.sections.iter().map(|s| (s.name.as_str(), s.kind, &s.data[..])).collect();
    assert_eq!(
        sections,
        vec![
            (".data", SectionKind::Data, &[1u8, 2, 3][..]),
            (".text", SectionKind::Text, &[0xE8u8, 0xFB, 0xFF, 0xFF, 0xFF][..]),
        ]
    );
    let symbols: Vec<(&str, u64, u64, SymbolKind, SymbolScope, bool, Option<usize>)> = plan
        .symbol_list
        .iter()
        .map(|s| (s.name.as_str(), s.value, s.size, s.kind, s.scope, s.weak, s.section))
        .collect();
    assert_eq!(
        symbols,
        vec![
            ("puts", 0, 0, SymbolKind::Unknown, SymbolScope::Unknown, false, None),
            ("shown", 2, 1, SymbolKind::Text, SymbolScope::Dynamic, true, Some(0)),
            ("main", 0, 5, SymbolKind::Text, SymbolScope::Compilation, false, Some(1)),
        ]
    );
    assert_eq!(plan.lookup(&"puts".to_string()), Some((1, 0)));
    assert_eq!(plan.lookup(&"shown".to_string()), Some((0, 1)));
    assert_eq!(plan.lookup(&"main".to_string()), Some((1, 2)));
    assert_eq!(plan.lookup(&".hidden".to_string()), None);
    assert_eq!(plan.relocs.len(), 1);
    let r = &plan.relocs[0];
    assert_eq!((r.section, r.offset, r.symbol, r.name.as_str(), r.addend), (1, 1, 0, "puts", -4));
    assert_eq!((r.kind, r.encoding, r.size), (RelocationKind::Relative, RelocationEncoding::X86RipRelative, 32));
    assert!(is_elf_object(&plan.write_obj().unwrap()));
}

#[test]
fn later_symbol_of_a_name_wins_in_the_table() {
    let mut plan = ObjectBuilder::new();
    assert_eq!(plan.add_section("a".to_string(), SectionKind::Text), 0);
    assert_eq!(plan.add_section("b".to_string(), SectionKind::Text), 1);
    let symbol = |section: usize| PlannedSymbol {
        name: "s".to_string(),
        value: 0,
        size: 0,
        kind: SymbolKind::Text,
        scope: SymbolScope::Linkage,
        weak: false,
        section: Some(section),
    };
    assert_eq!(plan.add_symbol(symbol(0), 0), 0);
    assert_eq!(plan.lookup(&"s".to_string()), Some((0, 0)));
    assert_eq!(plan.add_symbol(symbol(1), 1), 1);
    assert_eq!(plan.lookup(&"s".to_string()), Some((1, 1)));
}

#[test]
fn plans_that_cannot_be_written_are_reported() {
    // a name with a zero byte
    let mut plan = ObjectBuilder::new();
    plan.add_section("a\0b".to_string(), SectionKind::Text);
    assert!(matches!(plan.write_obj(), Err(ObjectError::Unknown)));
    // data in a section that can hold none
    let mut plan = ObjectBuilder::new();
    plan.sections.push(PlannedSection {
        name: ".bss".to_string(),
        kind: SectionKind::UninitializedData,
        data: vec![0],
    });
    assert!(matches!(plan.write_obj(), Err(ObjectError::Unknown)));
    // the same section without data is fine
    let mut plan = ObjectBuilder::new();
    plan.add_section(".bss".to_string(), SectionKind::UninitializedData);
    assert!(is_elf_object(&plan.write_obj().unwrap()));
    // a symbol in a section that is not there
    let mut plan = ObjectBuilder::new();
    plan.symbol_list.push(PlannedSymbol {
        name: "s".to_string(),
        value: 0,
        size: 0,
        kind: SymbolKind::Text,
        scope: SymbolScope::Linkage,
        weak: false,
        section: Some(3),
    });
    assert!(matches!(plan.write_obj(), Err(ObjectError::Unknown)));
    // a relocation against a symbol that is not there
    let mut plan = ObjectBuilder::new();
    plan.add_section(".text".to_string(), SectionKind::Text);
    plan.relocs.push(PlannedRelocation {
        section: 0,
        offset: 0,
        symbol: 0,
        name: "s".to_string(),
        addend: -4,
        kind: RelocationKind::Relative,
        encoding: RelocationEncoding::X86RipRelative,
        size: 32,
    });
    assert!(matches!(plan.write_obj(), Err(ObjectError::Unknown)));
}

#[test]
fn relocation_that_the_format_lacks_names_its_symbol() {
    let mut cb = CodeBuilder::new();
    cb.add_section(".text".to_string());
    cb.add_extern("far".to_string());
    cb.add_label("main".to_string());
    cb.bind_label(0);
    cb.symbol_call("far".to_string());
    cb.finalize().unwrap();
    let mut plan = ObjectBuilder::new();
    plan.scan_cb(&cb).unwrap();
    // x86-64 has no relative relocation of 64 bits
    plan.relocs[0].size = 64;
    match plan.write_obj() {
        Err(ObjectError::RelocationFailed { symbol }) => assert_eq!(symbol, "far"),
        other => panic!("unexpected {:?}", other.map(|b| b.len())),
    }
}

fn text_plan(kind: SectionKind, symbol_kind: SymbolKind, defined: bool) -> ObjectBuilder {
    let mut plan = ObjectBuilder::new();
    plan.sections.push(PlannedSection { name: ".text".to_string(), kind, data: vec![] });
    plan.symbol_list.push(PlannedSymbol {
        name: "s".to_string(),
        value: 0,
        size: 0,
        kind: symbol_kind,
        scope: SymbolScope::Linkage,
        weak: false,
        section: if defined { Some(0) } else { None },
    });
    plan
}

fn relocation(kind: RelocationKind, encoding: RelocationEncoding, size: u8) -> PlannedRelocation {
    PlannedRelocation { section: 0, offset: 0, symbol: 0, name: "s".to_string(), addend: -4, kind, encoding, size }
}

#[test]
fn kinds_that_the_object_writer_refuses_are_reported() {
    for kind in [SectionKind::Unknown, SectionKind::Common, SectionKind::TlsVariables] {
        let plan = text_plan(kind, SymbolKind::Text, true);
        assert!(matches!(plan.write_obj(), Err(ObjectError::Unknown)), "{:?}", kind);
    }
    for kind in [
        SectionKind::Text,
        SectionKind::Data,
        SectionKind::ReadOnlyData,
        SectionKind::ReadOnlyDataWithRel,
        SectionKind::ReadOnlyString,
        SectionKind::UninitializedData,
        SectionKind::Tls,
        SectionKind::UninitializedTls,
        SectionKind::OtherString,
        SectionKind::Other,
        SectionKind::Debug,
        SectionKind::DebugString,
        SectionKind::Linker,
        SectionKind::Note,
        SectionKind::Metadata,
        SectionKind::Elf(1),
    ] {
        let plan = text_plan(kind, SymbolKind::Text, true);
        assert!(is_elf_object(&plan.write_obj().unwrap()), "{:?}", kind);
    }
    // a symbol of unknown kind may be undefined, and may not be defined
    assert!(matches!(
        text_plan(SectionKind::Text, SymbolKind::Unknown, true).write_obj(),
        Err(ObjectError::Unknown)
    ));
    assert!(text_plan(SectionKind::Text, SymbolKind::Unknown, false).write_obj().is_ok());
    for kind in [SymbolKind::Text, SymbolKind::Data, SymbolKind::File, SymbolKind::Label, SymbolKind::Tls] {
        assert!(text_plan(SectionKind::Text, kind, true).write_obj().is_ok(), "{:?}", kind);
        assert!(text_plan(SectionKind::Text, kind, false).write_obj().is_ok(), "{:?}", kind);
    }
}

#[test]
fn relocations_are_taken_by_their_form() {
    let taken = |kind: RelocationKind, encoding: RelocationEncoding, size: u8| match kind {
        Absolute => {
            (size == 64 && encoding == Generic)
                || (size == 32 && (encoding == Generic || encoding == X86Signed))
                || size == 16
                || size == 8
        },
        Relative => size == 32 || size == 16 || size == 8,
        PltRelative => size == 32,
    };
    for kind in [Absolute, Relative, PltRelative] {
        for encoding in [Generic, X86Signed, X86RipRelative, X86Branch] {
            for size in [0u8, 8, 16, 24, 32, 64, 128] {
                let mut plan = text_plan(SectionKind::Text, SymbolKind::Text, false);
                plan.relocs.push(relocation(kind, encoding, size));
                match plan.write_obj() {
                    Ok(bytes) => {
                        assert!(taken(kind, encoding, size), "{:?} {:?} {}", kind, encoding, size);
                        assert!(is_elf_object(&bytes));
                        assert!(contains(&bytes, b".rela.text"));
                    },
                    Err(ObjectError::RelocationFailed { symbol }) => {
                        assert!(!taken(kind, encoding, size), "{:?} {:?} {}", kind, encoding, size);
                        assert_eq!(symbol, "s");
                    },
                    Err(other) => panic!("unexpected {:?}", other),
                }
            }
        }
    }
}

#[test]
fn the_first_relocation_that_cannot_be_written_decides() {
    // a misplaced relocation before one of a form that the format lacks
    let mut plan = text_plan(SectionKind::Text, SymbolKind::Text, false);
    plan.relocs.push(PlannedRelocation { section: 1, ..relocation(Relative, Generic, 32) });
    plan.relocs.push(relocation(Relative, Generic, 64));
    assert!(matches!(plan.write_obj(), Err(ObjectError::Unknown)));
    // and behind it
    let mut plan = text_plan(SectionKind::Text, SymbolKind::Text, false);
    plan.relocs.push(relocation(Relative, Generic, 32));
    plan.relocs.push(PlannedRelocation { name: "t".to_string(), ..relocation(Relative, Generic, 64) });
    plan.relocs.push(PlannedRelocation { symbol: 7, ..relocation(Relative, Generic, 32) });
    match plan.write_obj() {
        Err(ObjectError::RelocationFailed { symbol }) => assert_eq!(symbol, "t"),
        other => panic!("unexpected {:?}", other.map(|b| b.len())),
    }
    // a relocation is looked at before the kinds are
    let mut plan = text_plan(SectionKind::Unknown, SymbolKind::Text, false);
    plan.relocs.push(relocation(Relative, Generic, 64));
    assert!(matches!(plan.write_obj(), Err(ObjectError::RelocationFailed { .. })));
}

#[test]
fn the_bytes_of_the_file_follow_from_the_plan() {
    let plan = || {
        let mut plan = text_plan(SectionKind::Text, SymbolKind::Text, true);
        plan.sections[0].data = vec![0xE8, 0, 0, 0, 0, 0xC3];
        plan.symbol_list.push(PlannedSymbol {
            name: "far".to_string(),
            value: 0,
            size: 0,
            kind: SymbolKind::Text,
            scope: SymbolScope::Dynamic,
            weak: false,
            section: None,
        });
        plan.relocs.push(PlannedRelocation {
            offset: 1,
            symbol: 1,
            name: "far".to_string(),
            ..relocation(RelocationKind::Relative, RelocationEncoding::Generic, 32)
        });
        plan
    };
    let bytes = plan().write_obj().unwrap();
    assert_eq!(bytes, plan().write_obj().unwrap());
    assert!(is_elf_object(&bytes));
    assert!(contains(&bytes, &[0xE8, 0, 0, 0, 0, 0xC3]));
    assert!(contains(&bytes, b"far\0"));
    // the relocation entry: offset 1, type PC32 (2) against the second symbol, addend -4
    let mut entry = vec![1u8, 0, 0, 0, 0, 0, 0, 0, 2, 0, 0, 0, 2, 0, 0, 0];
    entry.extend_from_slice(&(-4i64).to_le_bytes());
    assert!(contains(&bytes, &entry));
    // other data, other bytes
    let mut other = plan();
    other.sections[0].data[5] = 0x90;
    assert_ne!(bytes, other.write_obj().unwrap());
}
