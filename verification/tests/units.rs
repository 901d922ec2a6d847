use mcasm::diag::{assembly_error, operand_error, report};
use mcasm::encode::render_word;
use mcasm::normalize::{clean_up, normalize_source};
use mcasm::numbers::{parse_int_str, render_dec, render_signed};
use mcasm::symtab::{define_value, seeded_table, ResolveError};
use mcasm::tokens::tokenize_line;
use mcasm::assembler::assemble_old;

#[test]
fn parse_int_str_radix_10() {
    assert_eq!(parse_int_str("0", 10), Some(0));
    assert_eq!(parse_int_str("42", 10), Some(42));
    assert_eq!(parse_int_str("-128", 10), Some(-128));
    assert_eq!(parse_int_str("+5", 10), Some(5));
    assert_eq!(parse_int_str("2147483647", 10), Some(2147483647));
    assert_eq!(parse_int_str("2147483648", 10), None);
    assert_eq!(parse_int_str("-2147483648", 10), Some(-2147483648));
    assert_eq!(parse_int_str("-2147483649", 10), None);
    assert_eq!(parse_int_str("", 10), None);
    assert_eq!(parse_int_str("-", 10), None);
    assert_eq!(parse_int_str("1_0", 10), None);
    assert_eq!(parse_int_str("12x", 10), None);
}

#[test]
fn parse_int_str_radix_16_and_2() {
    assert_eq!(parse_int_str("ff", 16), Some(255));
    assert_eq!(parse_int_str("FF", 16), Some(255));
    assert_eq!(parse_int_str("1b", 16), Some(27));
    assert_eq!(parse_int_str("101", 2), Some(5));
    assert_eq!(parse_int_str("12", 2), None);
    assert_eq!(parse_int_str("-10", 16), Some(-16));
}

#[test]
fn render_decimal_digits() {
    assert_eq!(render_dec(0), "0");
    assert_eq!(render_dec(7), "7");
    assert_eq!(render_dec(10), "10");
    assert_eq!(render_dec(65535), "65535");
    assert_eq!(render_signed(-1), "-1");
    assert_eq!(render_signed(-2147483648), "-2147483648");
    assert_eq!(render_signed(314), "314");
}

#[test]
fn render_word_binary() {
    assert_eq!(render_word(0), "0000000000000000");
    assert_eq!(render_word(0xffff), "1111111111111111");
    assert_eq!(render_word(0x8001), "1000000000000001");
    assert_eq!(render_word(0b0010000100000001), "0010000100000001");
}

#[test]
fn tokenize_line_splits_on_whitespace() {
    assert_eq!(tokenize_line(" a  bb\tc "), vec!["a", "bb", "c"]);
    assert_eq!(tokenize_line(""), Vec::<String>::new());
    assert_eq!(tokenize_line("   "), Vec::<String>::new());
    assert_eq!(tokenize_line("one"), vec!["one"]);
}

#[test]
fn normalize_source_strips_and_lowers() {
    let lines: Vec<String> = ["  LDI R1 5 ; x", "# gone", "", "Add R1 R0 R1"]
        .iter()
        .map(|s| s.to_string())
        .collect();
    let cleaned = normalize_source(&lines);
    let got: Vec<(usize, String)> = cleaned;
    assert_eq!(
        got,
        vec![(0, "ldi r1 5".to_string()), (3, "add r1 r0 r1".to_string())]
    );
}

#[test]
fn clean_up_keeps_line_shape() {
    let lines: Vec<String> = ["// gone", "keep // tail", " padded ", ""]
        .iter()
        .map(|s| s.to_string())
        .collect();
    assert_eq!(clean_up(lines), vec!["keep", "padded"]);
}

#[test]
fn seeded_table_resolves_the_fixed_surface() {
    let t = seeded_table();
    assert_eq!(t.resolve(&"add".to_string()), Ok(2));
    assert_eq!(t.resolve(&"r15".to_string()), Ok(15));
    assert_eq!(t.resolve(&"notcarry".to_string()), Ok(3));
    assert_eq!(t.resolve(&"rng".to_string()), Ok(254));
    assert_eq!(t.resolve(&"'z'".to_string()), Ok(26));
    assert_eq!(t.resolve(&"17".to_string()), Ok(17));
    assert_eq!(
        t.resolve(&"ghost_name".to_string()),
        Err(ResolveError::UnresolvedSymbol)
    );
    assert_eq!(
        t.resolve(&"0xzz".to_string()),
        Err(ResolveError::NumberParseFailure)
    );
}

#[test]
fn symbol_table_overwrites_on_set() {
    let mut t = seeded_table();
    t.set("x".to_string(), 1);
    t.set("x".to_string(), 2);
    assert_eq!(t.get(&"x".to_string()), Some(2));
    assert_eq!(t.get(&"absent".to_string()), None);
    // even the fixed surface can be shadowed: the last write wins
    t.set("add".to_string(), 9);
    assert_eq!(t.get(&"add".to_string()), Some(9));
}

#[test]
fn define_value_reads_hex_anywhere_marker() {
    assert_eq!(define_value(&"5".to_string()), Some(5));
    assert_eq!(define_value(&"0x10".to_string()), Some(16));
    assert_eq!(define_value(&"-3".to_string()), Some(-3));
    assert_eq!(define_value(&"5y".to_string()), None);
    // `contains 0x` selects base 16 even without a leading prefix,
    // and then the digits must all be hexadecimal
    assert_eq!(define_value(&"10x".to_string()), None);
}

#[test]
fn assembly_error_message_shape() {
    let msg = "Could not resolve symbol 'x'";
    let line = "jmp x";
    let num = 3usize;
    let indent = " ".repeat(num.to_string().len());
    let mut expected = format!("\x1b[31mError\x1b[0m: {}\n", msg);
    expected.push_str(&format!(
        "\x1b[34m --> \x1b[0mFILE \x1b[34mline\x1b[0m {}\n",
        num
    ));
    expected.push_str(&format!("\x1b[34m{} |\n\x1b[0m", indent));
    expected.push_str(&format!("{} |\x1b[0m {}\n", num, line));
    expected.push_str(&format!("\x1b[34m{} |\x1b[0m\n", indent));
    let got = assembly_error(msg, Some(num), Some(line));
    assert_eq!(got.message, expected);

    let bare = assembly_error("boom", None, None);
    assert_eq!(bare.message, "\x1b[31mError\x1b[0m: boom\n");

    let op = operand_error(msg, num, Some(line));
    assert_eq!(op.inner.message, expected);
}

#[test]
fn report_renders_each_kind() {
    let src = |line: &str| {
        assemble_old(vec![line.to_string()]).unwrap_err()
    };
    let cases = [
        ("jmp .nowhere", "Could not resolve symbol '.nowhere'"),
        ("jmp 12x", "Could not parse number '12x'"),
        ("nop r1", "Incorrect number of operands for 'nop' (expected 1, got 2)"),
        ("add 16 0 0", "Invalid reg A for 'add'"),
        ("add 0 16 0", "Invalid reg B for 'add'"),
        ("add 0 0 16", "Invalid reg C for 'add'"),
        ("adi r0 256", "Invalid immediate value '256'"),
        ("adi r0 -129", "Invalid immediate value '-129'"),
        ("jmp 1024", "Invalid address '1024'"),
        ("lod r1 r2 8", "Invalid offset '8'"),
        ("brh 4 0", "Invalid condition for 'brh'"),
    ];
    for (line, needle) in cases {
        let err = src(line);
        let rendered = report(&err);
        assert!(
            rendered.message.contains(needle),
            "message for {line}: {:?}",
            rendered.message
        );
        assert!(rendered.message.contains("line\x1b[0m 1\n"));
    }
}
