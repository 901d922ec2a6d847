use mcasm::assembler::{assemble_new, assemble_old};
use mcasm::errors::{AsmError, ErrorKind, RegField};

fn assemble_src(src: &[&str]) -> Result<Vec<String>, AsmError> {
    assemble_old(src.iter().map(|s| s.to_string()).collect())
}

fn one_word(line: &str) -> String {
    let words = assemble_src(&[line]).expect("line should assemble");
    assert_eq!(words.len(), 1);
    words.into_iter().next().unwrap()
}

fn one_err(line: &str) -> AsmError {
    assemble_src(&[line]).expect_err("line should fail")
}

#[test]
fn opcode_mnemonics_occupy_top_bits() {
    let cases = [
        ("nop", 0),
        ("hlt", 1),
        ("add r0 r0 r0", 2),
        ("sub r0 r0 r0", 3),
        ("nor r0 r0 r0", 4),
        ("and r0 r0 r0", 5),
        ("xor r0 r0 r0", 6),
        ("rsh r0 r0", 7),
        ("ldi r0 0", 8),
        ("adi r0 0", 9),
        ("jmp 0", 10),
        ("brh eq 0", 11),
        ("cal 0", 12),
        ("ret", 13),
        ("lod r0 r0", 14),
        ("str r0 r0", 15),
    ];
    for (line, opcode) in cases {
        let word = one_word(line);
        assert_eq!(word.len(), 16, "word for {line}");
        assert_eq!(&word[0..4], format!("{:04b}", opcode), "top bits for {line}");
    }
}

#[test]
fn register_fields_hold_their_index() {
    assert_eq!(one_word("add r5 r6 r7"), "0010010101100111");
    assert_eq!(one_word("sub r15 r1 r8"), "0011111100011000");
    assert_eq!(one_word("rsh r3 r9"), "0111001100001001");
    assert_eq!(one_word("lod r1 r2 3"), "1110000100100011");
    for a in 0..16 {
        let word = one_word(&format!("add r{a} r0 r0"));
        assert_eq!(&word[4..8], format!("{a:04b}"));
    }
    for b in 0..16 {
        let word = one_word(&format!("add r0 r{b} r0"));
        assert_eq!(&word[8..12], format!("{b:04b}"));
    }
    for c in 0..16 {
        let word = one_word(&format!("add r0 r0 r{c}"));
        assert_eq!(&word[12..16], format!("{c:04b}"));
    }
}

#[test]
fn pseudo_instructions_encode_as_their_expansions() {
    let pairs = [
        ("cmp r1 r2", "sub r1 r2 r0"),
        ("mov r1 r2", "add r1 r0 r2"),
        ("lsh r1 r2", "add r1 r1 r2"),
        ("inc r1", "adi r1 1"),
        ("dec r1", "adi r1 -1"),
        ("not r1 r2", "nor r1 r0 r2"),
        ("neg r1 r2", "sub r0 r1 r2"),
    ];
    for (pseudo, real) in pairs {
        assert_eq!(one_word(pseudo), one_word(real), "{pseudo} vs {real}");
    }
}

#[test]
fn define_resolves_in_later_lines() {
    let words = assemble_src(&["define val 5", "ldi r1 val"]).unwrap();
    assert_eq!(words, vec!["1000000100000101"]);
}

#[test]
fn redefinition_overwrites_for_the_run() {
    let words = assemble_src(&["define v 1", "define v 2", "ldi r1 v"]).unwrap();
    assert_eq!(words, vec!["1000000100000010"]);
}

#[test]
fn define_accepts_hex_values() {
    let words = assemble_src(&["define target 0x10", "jmp target"]).unwrap();
    assert_eq!(words, vec!["1010000000010000"]);
}

#[test]
fn define_with_too_few_tokens_is_ignored() {
    let err = assemble_src(&["define x", "jmp x"]).unwrap_err();
    assert!(matches!(err.kind, ErrorKind::UnresolvedSymbol { .. }));
}

#[test]
fn define_with_malformed_value_is_ignored() {
    let err = assemble_src(&["define x 5y", "jmp x"]).unwrap_err();
    assert!(matches!(err.kind, ErrorKind::UnresolvedSymbol { .. }));
}

#[test]
fn forward_reference_resolves_to_label_pc() {
    let words = assemble_src(&["jmp .end", "nop", ".end"]).unwrap();
    assert_eq!(words[0], "1010000000000010");
    assert_eq!(words.len(), 2);
}

#[test]
fn label_with_instruction_on_same_line() {
    let words = assemble_src(&[".start ldi r1 1", "jmp .start"]).unwrap();
    assert_eq!(words, vec!["1000000100000001", "1010000000000000"]);
}

#[test]
fn several_labels_share_one_pc() {
    let words = assemble_src(&[".a", ".b", "jmp .a", "jmp .b"]).unwrap();
    assert_eq!(words, vec!["1010000000000000", "1010000000000000"]);
}

#[test]
fn immediate_boundaries() {
    assert_eq!(one_word("adi r0 255"), "1001000011111111");
    assert_eq!(one_word("adi r0 -128"), "1001000010000000");
    assert!(matches!(
        one_err("adi r0 256").kind,
        ErrorKind::ImmediateOutOfRange { value: 256 }
    ));
    assert!(matches!(
        one_err("adi r0 -129").kind,
        ErrorKind::ImmediateOutOfRange { value: -129 }
    ));
}

#[test]
fn offset_boundaries() {
    assert_eq!(one_word("lod r1 r2 7"), "1110000100100111");
    assert_eq!(one_word("lod r1 r2 -8"), "1110000100101000");
    assert!(matches!(
        one_err("lod r1 r2 8").kind,
        ErrorKind::OffsetOutOfRange { value: 8 }
    ));
    assert!(matches!(
        one_err("lod r1 r2 -9").kind,
        ErrorKind::OffsetOutOfRange { value: -9 }
    ));
}

#[test]
fn omitted_offset_defaults_to_zero() {
    assert_eq!(one_word("lod r1 r2"), "1110000100100000");
    assert_eq!(one_word("str r3 r4"), "1111001101000000");
}

#[test]
fn address_boundaries() {
    assert_eq!(one_word("jmp 1023"), "1010001111111111");
    assert!(matches!(
        one_err("jmp 1024").kind,
        ErrorKind::AddressOutOfRange { value: 1024 }
    ));
}

#[test]
fn condition_out_of_range() {
    assert_eq!(one_word("brh lt 1"), "1011110000000001");
    assert!(matches!(
        one_err("brh 4 0").kind,
        ErrorKind::ConditionOutOfRange { opcode: 11 }
    ));
}

#[test]
fn address_is_checked_before_condition() {
    assert!(matches!(
        one_err("brh 9 2000").kind,
        ErrorKind::AddressOutOfRange { value: 2000 }
    ));
}

#[test]
fn register_out_of_range_each_field() {
    assert!(matches!(
        one_err("add 16 0 0").kind,
        ErrorKind::RegisterOutOfRange { field: RegField::A, opcode: 2 }
    ));
    assert!(matches!(
        one_err("add 0 16 0").kind,
        ErrorKind::RegisterOutOfRange { field: RegField::B, opcode: 2 }
    ));
    assert!(matches!(
        one_err("add 0 0 16").kind,
        ErrorKind::RegisterOutOfRange { field: RegField::C, opcode: 2 }
    ));
    assert!(matches!(
        one_err("add -1 0 0").kind,
        ErrorKind::RegisterOutOfRange { field: RegField::A, opcode: 2 }
    ));
}

#[test]
fn operand_count_mismatch() {
    match one_err("nop r1").kind {
        ErrorKind::OperandCountMismatch { opcode, expected, actual } => {
            assert_eq!(opcode, 0);
            assert_eq!(expected, 1);
            assert_eq!(actual, 2);
        }
        other => panic!("wrong kind: {other:?}"),
    }
    match one_err("add r1 r2").kind {
        ErrorKind::OperandCountMismatch { expected, actual, .. } => {
            assert_eq!(expected, 4);
            assert_eq!(actual, 3);
        }
        other => panic!("wrong kind: {other:?}"),
    }
}

#[test]
fn numeric_opcode_tokens_are_resolved_like_any_other() {
    // the mnemonic position goes through the same resolution primitive,
    // so a bare number works where it names an opcode...
    assert_eq!(one_word("2 1 0 0"), one_word("add r1 r0 r0"));
    // ...and one outside the instruction set expects zero tokens
    match one_err("99").kind {
        ErrorKind::OperandCountMismatch { opcode, expected, actual } => {
            assert_eq!(opcode, 99);
            assert_eq!(expected, 0);
            assert_eq!(actual, 1);
        }
        other => panic!("wrong kind: {other:?}"),
    }
}

#[test]
fn unknown_mnemonic_is_unresolved() {
    match one_err("frobnicate r1").kind {
        ErrorKind::UnresolvedSymbol { symbol } => assert_eq!(symbol, "frobnicate"),
        other => panic!("wrong kind: {other:?}"),
    }
}

#[test]
fn unresolved_symbol() {
    match one_err("jmp .nowhere").kind {
        ErrorKind::UnresolvedSymbol { symbol } => assert_eq!(symbol, ".nowhere"),
        other => panic!("wrong kind: {other:?}"),
    }
}

#[test]
fn number_parse_failures() {
    assert!(matches!(
        one_err("jmp 12x").kind,
        ErrorKind::NumberParseFailure { .. }
    ));
    assert!(matches!(
        one_err("ldi r1 0x").kind,
        ErrorKind::NumberParseFailure { .. }
    ));
    assert!(matches!(
        one_err("ldi r1 99999999999").kind,
        ErrorKind::NumberParseFailure { .. }
    ));
}

#[test]
fn numeric_literal_radixes() {
    assert_eq!(one_word("ldi r1 0x1f"), "1000000100011111");
    assert_eq!(one_word("ldi r1 0b101"), "1000000100000101");
    assert_eq!(one_word("ldi r1 -1"), "1000000111111111");
}

#[test]
fn comments_and_blank_lines_are_stripped() {
    let words = assemble_src(&[
        "; a header",
        "",
        "   ",
        "ldi r1 5 / trailing",
        "# another",
        "adi r1 1 ; tail",
    ])
    .unwrap();
    assert_eq!(words, vec!["1000000100000101", "1001000100000001"]);
}

#[test]
fn tokens_are_case_insensitive() {
    assert_eq!(one_word("LDI R1 5"), one_word("ldi r1 5"));
    assert_eq!(one_word("Jmp 3"), one_word("jmp 3"));
}

#[test]
fn character_literals_resolve_to_alphabet_positions() {
    assert_eq!(one_word("ldi r1 'a'"), "1000000100000001");
    assert_eq!(one_word("ldi r1 \"b\""), "1000000100000010");
    assert_eq!(one_word("ldi r1 '?'"), "1000000100011101");
    // a space literal is split by tokenization and collapsed back
    assert_eq!(one_word("ldi r1 ' '"), "1000000100000000");
}

#[test]
fn port_names_resolve_to_offsets() {
    assert_eq!(one_word("ldi r1 pixel_x"), "1000000111110000");
    assert_eq!(one_word("ldi r1 controller_input"), "1000000111111111");
}

#[test]
fn condition_aliases_are_equivalent() {
    let w = one_word("brh eq 1");
    assert_eq!(one_word("brh = 1"), w);
    assert_eq!(one_word("brh z 1"), w);
    assert_eq!(one_word("brh zero 1"), w);
    let x = one_word("brh lt 1");
    assert_eq!(one_word("brh < 1"), x);
    assert_eq!(one_word("brh nc 1"), x);
    assert_eq!(one_word("brh notcarry 1"), x);
}

#[test]
fn end_to_end_scenario() {
    let words = assemble_src(&["define val 5", ".start", "ldi r1 val", "add r1 r0 r1", "jmp .start"])
        .unwrap();
    assert_eq!(
        words,
        vec!["1000000100000101", "0010000100000001", "1010000000000000"]
    );
}

#[test]
fn errors_carry_one_based_line_and_text() {
    let err = assemble_src(&["# header", "", "NOP R1  ; bad"]).unwrap_err();
    assert_eq!(err.line, 3);
    assert_eq!(err.text, "nop r1");
}

#[test]
fn empty_source_assembles_to_nothing() {
    assert_eq!(assemble_src(&[]).unwrap(), Vec::<String>::new());
    assert_eq!(assemble_src(&["; only a comment", "   "]).unwrap(), Vec::<String>::new());
}

#[test]
fn assemble_new_cleans_up_only() {
    let out = assemble_new(
        ["// gone", "a // b", "  x  ", "", "  // y"]
            .iter()
            .map(|s| s.to_string())
            .collect(),
    )
    .unwrap();
    assert_eq!(out, vec!["a", "x", ""]);
}
