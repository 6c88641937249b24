use ktc32_asm::converter::{convert, Word};
use ktc32_asm::driver::assemble;
use ktc32_asm::error::AsmError;
use ktc32_asm::parser::parse;

fn lines(src: &[&str]) -> Vec<Vec<u8>> {
    src.iter().map(|s| s.as_bytes().to_vec()).collect()
}

fn words_of(src: &[&str], bare_metal: bool) -> Vec<Word> {
    let (recs, syms, _) = parse(&lines(src), bare_metal).expect("parse failed");
    recs.iter()
        .map(|r| convert(r, &syms).expect("convert failed"))
        .collect()
}

#[test]
fn mov_encodes_at_address_zero() {
    // mov r1, r2: opcode 0, rd=1 gives 1<<6 = 0x40, rs=2 gives 2<<11 =
    // 0x1000; the word is their sum, 0x1040, emitted low byte first.
    let ws = words_of(&["mov r1, r2"], true);
    assert_eq!(ws, vec![Word::Word16(0x1040)]);
    let image = assemble(&lines(&["mov r1, r2"]), true).unwrap();
    assert_eq!(image, vec![0x40, 0x10]);
}

#[test]
fn i16_immediate_31_succeeds() {
    // slli: opcode 0b010000; imm 31 fills the 5-bit field.
    let ws = words_of(&["slli r1, 31"], true);
    assert_eq!(ws, vec![Word::Word16(0xF850)]);
}

#[test]
fn i16_immediate_32_is_a_range_error() {
    let (recs, syms, _) = parse(&lines(&["slli r1, 32"]), true).unwrap();
    let err = convert(&recs[0], &syms).unwrap_err();
    assert!(matches!(err, AsmError::ImmediateRange { line: 1, .. }));
}

#[test]
fn i16_immediate_hex_and_plus_sign() {
    assert_eq!(words_of(&["slli r1, 0x1f"], true), vec![Word::Word16(0xF850)]);
    assert_eq!(words_of(&["slli r1, +31"], true), vec![Word::Word16(0xF850)]);
}

#[test]
fn repeated_hex_marker_is_stripped() {
    // The inherited hex parse strips every leading "0x": 0x0x1f reads as 1f.
    assert_eq!(words_of(&["slli r1, 0x0x1f"], true), vec![Word::Word16(0xF850)]);
}

#[test]
fn j_offset_at_upper_bound_is_a_range_error() {
    // 2^19 - 1 = 524287 fails the strict range check; 524286 passes.
    let (recs, syms, _) = parse(&lines(&["jal r0, 524287"]), true).unwrap();
    let err = convert(&recs[0], &syms).unwrap_err();
    assert!(matches!(err, AsmError::ImmediateRange { line: 1, .. }));

    let ws = words_of(&["jal r0, 524286"], true);
    // 0x7FFFE << 11 | 0b111111.
    assert_eq!(ws, vec![Word::Word32(0x3FFF_F03F)]);
}

#[test]
fn j_offset_at_lower_bound_is_a_range_error() {
    // -2^19 = -524288 fails the strict check; -524287 passes.
    let (recs, syms, _) = parse(&lines(&["jal r0, -524288"]), true).unwrap();
    assert!(matches!(
        convert(&recs[0], &syms).unwrap_err(),
        AsmError::ImmediateRange { line: 1, .. }
    ));
    let ws = words_of(&["jal r0, -524287"], true);
    // -524287 as u32 = 0xFFF80001; masked to 21 bits: 0x180001.
    assert_eq!(ws, vec![Word::Word32(0xC000_083F)]);
}

#[test]
fn backward_reference_in_hosted_mode() {
    // jal sits at 260; loop is at 256: offset = 256 - 260 - 4 = -8,
    // negative, encoded as a signed 21-bit field.
    let src = ["loop:", "addi r1, r1, 1", "jal r0, loop"];
    let image = assemble(&lines(&src), false).unwrap();
    assert_eq!(
        image,
        vec![
            0x08, 0x00, 0x00, 0x00, // size header: 8 bytes emitted
            0x60, 0x08, 0x01, 0x00, // addi r1, r1, 1 = 0x00010860
            0x3f, 0xc0, 0xff, 0xff, // jal r0, -8 = 0xFFFFC03F
        ]
    );
}

#[test]
fn forward_reference_resolves_like_backward() {
    // jal at 0 jumps forward to target at 6: offset = 6 - 0 - 4 = 2.
    let src = ["jal r0, target", "mov r1, r2", "target:"];
    let ws = words_of(&src, true);
    assert_eq!(ws[0], Word::Word32(2 << 11 | 0x3F));
}

#[test]
fn i32_symbol_reference_is_the_absolute_address() {
    // target sits at address 8: two 16-bit words, then the 32-bit addi.
    let src = ["mov r1, r2", "slli r1, 1", "addi r1, r0, target", "target:"];
    let ws = words_of(&src, true);
    // addi: opcode 0b100000, rd=1, rs=0, imm = 8.
    assert_eq!(ws[2], Word::Word32(8 << 16 | 1 << 6 | 0x20));
}

#[test]
fn label_addresses_follow_the_emitted_widths() {
    let src = ["start:", "mov r1, r2", "mid:", "addi r1, r1, 1", "end:", "0x1"];
    let (_, syms, size) = parse(&lines(&src), true).unwrap();
    let names: Vec<(String, i64)> = syms
        .iter()
        .map(|s| (String::from_utf8(s.name.clone()).unwrap(), s.address))
        .collect();
    assert_eq!(
        names,
        vec![
            ("start".to_string(), 0),
            ("mid".to_string(), 2),
            ("end".to_string(), 6),
        ]
    );
    assert_eq!(size, 10);
}

#[test]
fn hosted_origin_is_256_and_size_excludes_it() {
    let src = ["entry:", "mov r1, r2"];
    let (recs, syms, size) = parse(&lines(&src), false).unwrap();
    assert_eq!(syms[0].address, 256);
    match &recs[0] {
        ktc32_asm::parser::Format::RFormat { address, line_num, .. } => {
            assert_eq!(*address, 256);
            assert_eq!(*line_num, 2);
        }
        _ => panic!("expected an R-format record"),
    }
    assert_eq!(size, 2);
}

#[test]
fn duplicate_label_resolves_to_the_last_entry() {
    // dup is declared at 0 and again at 4; the linear scan's last match
    // wins, so the reference reads 4.
    let src = ["dup:", "addi r0, r0, 0", "dup:", "addi r1, r0, dup"];
    let ws = words_of(&src, true);
    assert_eq!(ws[1], Word::Word32(4 << 16 | 1 << 6 | 0x20));
}

#[test]
fn comments_and_blank_lines_emit_nothing() {
    let src = ["// a comment", "", "   ", "  // indented", "mov r1, r2"];
    let (recs, _, size) = parse(&lines(&src), true).unwrap();
    assert_eq!(recs.len(), 1);
    assert_eq!(size, 2);
    match &recs[0] {
        ktc32_asm::parser::Format::RFormat { line_num, .. } => assert_eq!(*line_num, 5),
        _ => panic!("expected an R-format record"),
    }
}

#[test]
fn tokens_are_case_insensitive_and_commas_optional() {
    assert_eq!(words_of(&["MOV R1 R2"], true), words_of(&["mov r1, r2"], true));
    assert_eq!(words_of(&["Slli R1,31"], true), words_of(&["slli r1, 31"], true));
}

#[test]
fn register_aliases_map_to_their_indices() {
    // mov sp, zero: rd=3, rs=0.
    assert_eq!(words_of(&["mov sp, zero"], true), vec![Word::Word16(3 << 6)]);
    // add flag, t4: opcode 1, rd=31, rs=13.
    assert_eq!(
        words_of(&["add flag, t4"], true),
        vec![Word::Word16(13 << 11 | 31 << 6 | 1)]
    );
    // jalr ra, gp, 0: opcode 0b101100, rd=1, rs=2.
    assert_eq!(
        words_of(&["jalr ra, gp, 0"], true),
        vec![Word::Word32(2 << 11 | 1 << 6 | 0x2C)]
    );
}

#[test]
fn lui_takes_an_implied_zero_source_register() {
    // lui r1, 0x8000: opcode 0b110010, rd=1, rs=0, imm=0x8000.
    assert_eq!(
        words_of(&["lui r1, 0x8000"], true),
        vec![Word::Word32(0x8000_0072)]
    );
}

#[test]
fn negative_i32_immediate_wraps_into_the_field() {
    // addi r1, r0, -1: the 16-bit field holds 0xFFFF.
    assert_eq!(
        words_of(&["addi r1, r0, -1"], true),
        vec![Word::Word32(0xFFFF << 16 | 1 << 6 | 0x20)]
    );
}

#[test]
fn raw_constant_is_emitted_verbatim() {
    let image = assemble(&lines(&["0xdeadbeef"]), true).unwrap();
    assert_eq!(image, vec![0xef, 0xbe, 0xad, 0xde]);
}

#[test]
fn hosted_image_prepends_the_size_header() {
    let image = assemble(&lines(&["0x00000001"]), false).unwrap();
    assert_eq!(image, vec![0x04, 0x00, 0x00, 0x00, 0x01, 0x00, 0x00, 0x00]);
}

#[test]
fn trailing_colons_are_all_stripped_from_a_label() {
    let src = ["foo::", "jal r0, foo"];
    let (_, syms, _) = parse(&lines(&src), true).unwrap();
    assert_eq!(syms[0].name, b"foo".to_vec());
}

#[test]
fn unknown_mnemonic_is_a_syntax_error() {
    let err = parse(&lines(&["frobnicate r1, r2"]), true).unwrap_err();
    assert!(matches!(err, AsmError::Syntax { line: 1, .. }));
}

#[test]
fn wrong_operand_count_is_a_syntax_error() {
    assert!(matches!(
        parse(&lines(&["mov r1"]), true).unwrap_err(),
        AsmError::Syntax { line: 1, .. }
    ));
    assert!(matches!(
        parse(&lines(&["mov r1, r2, r3"]), true).unwrap_err(),
        AsmError::Syntax { line: 1, .. }
    ));
    assert!(matches!(
        parse(&lines(&["mov r1, r2", "addi r1, r1"]), true).unwrap_err(),
        AsmError::Syntax { line: 2, .. }
    ));
}

#[test]
fn a_line_of_only_commas_is_a_syntax_error() {
    assert!(matches!(
        parse(&lines(&[",,,"]), true).unwrap_err(),
        AsmError::Syntax { line: 1, .. }
    ));
}

#[test]
fn unknown_register_is_reported_with_its_text() {
    let (recs, syms, _) = parse(&lines(&["mov r1, r99"]), true).unwrap();
    match convert(&recs[0], &syms).unwrap_err() {
        AsmError::UnknownRegister { line, register } => {
            assert_eq!(line, 1);
            assert_eq!(register, b"r99".to_vec());
        }
        other => panic!("expected UnknownRegister, got {:?}", other),
    }
}

#[test]
fn unparsable_immediate_is_a_parse_error() {
    let (recs, syms, _) = parse(&lines(&["slli r1, wat"]), true).unwrap();
    assert!(matches!(
        convert(&recs[0], &syms).unwrap_err(),
        AsmError::ImmediateParse { line: 1, .. }
    ));
    // An I32 token that is neither a symbol nor a number fails too.
    let (recs, syms, _) = parse(&lines(&["addi r1, r0, nowhere"]), true).unwrap();
    assert!(matches!(
        convert(&recs[0], &syms).unwrap_err(),
        AsmError::ImmediateParse { line: 1, .. }
    ));
}

#[test]
fn malformed_constant_is_a_parse_error() {
    let (recs, syms, _) = parse(&lines(&["0xzz"]), true).unwrap();
    assert!(matches!(
        convert(&recs[0], &syms).unwrap_err(),
        AsmError::ImmediateParse { line: 1, .. }
    ));
}

#[test]
fn i16_decimal_overflowing_u8_is_a_parse_error() {
    // The inherited decimal path reads an 8-bit value: 256 does not parse.
    let (recs, syms, _) = parse(&lines(&["slli r1, 256"]), true).unwrap();
    assert!(matches!(
        convert(&recs[0], &syms).unwrap_err(),
        AsmError::ImmediateParse { line: 1, .. }
    ));
    // 255 parses but exceeds the 5-bit field.
    let (recs, syms, _) = parse(&lines(&["slli r1, 255"]), true).unwrap();
    assert!(matches!(
        convert(&recs[0], &syms).unwrap_err(),
        AsmError::ImmediateRange { line: 1, .. }
    ));
}

#[test]
fn j_hex_immediate_is_unsigned_32_bit_then_range_checked() {
    // 0xfffffffa as i32 is -6: within range, encodes like the backward jump.
    assert_eq!(
        words_of(&["jal r0, 0xfffffffa"], true),
        vec![Word::Word32(0xFFFFD03F)]
    );
    // 0x80000 is 2^19: out of range.
    let (recs, syms, _) = parse(&lines(&["jal r0, 0x80000"]), true).unwrap();
    assert!(matches!(
        convert(&recs[0], &syms).unwrap_err(),
        AsmError::ImmediateRange { line: 1, .. }
    ));
}

#[test]
fn every_r_format_opcode_is_dense() {
    let mnemonics = [
        "mov", "add", "sub", "and", "or", "xor", "sll", "srl", "sra", "slt", "sltu",
    ];
    for (i, m) in mnemonics.iter().enumerate() {
        let src = format!("{} r0, r0", m);
        let ws = words_of(&[&src], true);
        assert_eq!(ws, vec![Word::Word16(i as u16)]);
    }
}

#[test]
fn i32_symbol_out_of_i16_range_is_a_parse_error() {
    // A label whose address exceeds 32767 cannot be substituted into the
    // signed 16-bit parse, exactly as the inherited re-parse behaves.
    let mut src: Vec<String> = Vec::new();
    for _ in 0..8200 {
        src.push("0x0".to_string());
    }
    src.push("far:".to_string());
    src.push("addi r1, r0, far".to_string());
    let refs: Vec<&str> = src.iter().map(|s| s.as_str()).collect();
    let (recs, syms, _) = parse(&lines(&refs), true).unwrap();
    // far sits at 8200 * 4 = 32800 > 32767.
    assert_eq!(syms[0].address, 32800);
    assert!(matches!(
        convert(&recs[recs.len() - 1], &syms).unwrap_err(),
        AsmError::ImmediateParse { line, .. } if line == 8202
    ));
}
