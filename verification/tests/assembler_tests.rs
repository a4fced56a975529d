use vm32::assembler::{assemble_source, AsmError};
use vm32::encode::{Abort, LineError};
use vm32::text::{trim_chars, white_space};

fn chars(s: &str) -> Vec<char> {
    s.chars().collect()
}

fn assemble(src: &str) -> Result<Vec<u8>, AsmError> {
    assemble_source(&chars(src), &Vec::new(), &Vec::new())
}

fn report_of(r: Result<Vec<u8>, AsmError>) -> (String, usize, Vec<String>, LineError) {
    match r {
        Err(AsmError::Report(rep)) => (
            rep.file.iter().collect(),
            rep.line,
            rep.words.iter().map(|w| w.iter().collect()).collect(),
            rep.error,
        ),
        other => panic!("expected a report, got {:?}", other),
    }
}

fn abort_of(r: Result<Vec<u8>, AsmError>) -> Abort {
    match r {
        Err(AsmError::Abort(a)) => a,
        other => panic!("expected an abort, got {:?}", other),
    }
}

#[test]
fn load_immediate_and_halt() {
    assert_eq!(assemble("ldi ax 5\nhlt").unwrap(), vec![0x04, 0x00, 0, 0, 0, 5, 0x01]);
}

#[test]
fn short_register_takes_two_bytes() {
    assert_eq!(assemble("ldi cx 0x1_0").unwrap(), vec![0x04, 0x02, 0x00, 0x10]);
}

#[test]
fn tokens_are_trimmed_and_lowercased() {
    assert_eq!(assemble("   LDI AX 5   \n\tHLT").unwrap(), vec![0x04, 0x00, 0, 0, 0, 5, 0x01]);
}

#[test]
fn backward_label() {
    assert_eq!(assemble(".loop\nnop\njmp .loop").unwrap(), vec![0x00, 0x0A, 0, 0, 0, 0, 0]);
}

#[test]
fn forward_label_is_counted_by_first_pass() {
    assert_eq!(
        assemble("jmp .end\nnop\n.end\nhlt").unwrap(),
        vec![0x0A, 0, 0, 0, 0, 7, 0x00, 0x01]
    );
}

#[test]
fn header_bytes_come_first_and_do_not_move_labels() {
    let r = assemble_source(&chars("jmp .a\n.a\nhlt"), &vec![0xAB, 0xCD], &Vec::new()).unwrap();
    assert_eq!(r, vec![0xAB, 0xCD, 0x0A, 0, 0, 0, 0, 6, 0x01]);
}

#[test]
fn dir_byte_is_emitted_but_not_counted() {
    // the label after `dir` is one byte short of its position
    assert_eq!(
        assemble("dir 0x41\njmp .b\n.b").unwrap(),
        vec![0x41, 0x0A, 0, 0, 0, 0, 6]
    );
}

#[test]
fn call_expands_to_return_address_push_and_jump() {
    let r = assemble("nop\nnop\nnop\nnop\ncall .f\n.f\nhlt").unwrap();
    assert_eq!(
        r,
        vec![
            0, 0, 0, 0, 0x05, 0x9C, 0x04, 0x01, 0, 0, 0, 0x10, 0x06, 0x05, 0x18, 0x09, 0x0A, 0, 0,
            0, 0, 22, 0x01,
        ]
    );
}

#[test]
fn comment_call_is_not_expanded() {
    assert_eq!(assemble(";call me\nhlt").unwrap(), vec![0x01]);
}

#[test]
fn every_encoding_layout() {
    let src = "lod ax 0x0102030405\nsto bx 7\nmov ax by\nadd br\nsub ay ax\nmul cr\nnot dy\nshl cx 3\npsh pc\nlor ar 0x10 bx\nptrm 1 2\nwit";
    let r = assemble(src).unwrap();
    let expected: Vec<u8> = vec![
        0x02, 0x01, 0x02, 0x03, 0x04, 0x05, 0x00, // lod
        0x03, 0, 0, 0, 0, 7, 0x01, // sto
        0x05, 0x50, // mov ax by
        0x06, 0x01, // add br
        0x07, 0x00, // sub ay ax
        0x08, 0x02, // mul cr
        0x15, 0x07, // not dy
        0x16, 0x02, 0x03, // shl cx 3
        0x18, 0x0C, // psh pc
        0x1B, 0x01, 0x10, 0x08, // lor ar 0x10 bx
        0x36, 0, 0, 0, 1, 0, 0, 0, 2, // ptrm
        0x21, // wit
    ];
    assert_eq!(r, expected);
}

#[test]
fn asset_address_is_patched_in() {
    let r = assemble_source(&chars("ast ax 0"), &Vec::new(), &vec![chars("hi")]).unwrap();
    assert_eq!(
        r,
        vec![
            0x18, 0x00, 0x18, 0x04, 0x04, 0x00, 0, 0, 0, 20, 0x05, 0x4D, 0x06, 0x00, 0x19, 0x00,
            0x19, 0x04, 0x05, 0x08, b'h', b'i', 0,
        ]
    );
}

#[test]
fn assets_are_utf8_and_zero_terminated() {
    let r = assemble_source(&chars("hlt"), &Vec::new(), &vec![chars("é"), chars("")]).unwrap();
    assert_eq!(r, vec![0x01, 0xC3, 0xA9, 0, 0]);
}

#[test]
fn missing_argument_is_reported() {
    let (file, line, words, err) = report_of(assemble("lod ax"));
    assert_eq!(file, "");
    assert_eq!(line, 1);
    assert_eq!(words, vec!["lod".to_string(), "ax".to_string()]);
    assert_eq!(err, LineError::MissingArgument);
}

#[test]
fn invalid_number_is_reported_with_its_line() {
    let (_, line, _, err) = report_of(assemble("nop\nldi ax zz"));
    assert_eq!(line, 2);
    assert_eq!(err, LineError::InvalidNumber);
}

#[test]
fn unknown_register_is_reported() {
    assert_eq!(report_of(assemble("psh qq")).3, LineError::UnknownRegister);
}

#[test]
fn invalid_register_option_is_reported() {
    assert_eq!(report_of(assemble("add qq")).3, LineError::InvalidRegisterOption);
}

#[test]
fn invalid_register_combination_is_reported() {
    assert_eq!(report_of(assemble("sub ax bx")).3, LineError::InvalidRegisterCombination);
}

#[test]
fn unknown_label_is_reported() {
    assert_eq!(report_of(assemble("jmp .nowhere")).3, LineError::UnknownLabel);
}

#[test]
fn invalid_hex_byte_is_reported() {
    assert_eq!(report_of(assemble("dir zz")).3, LineError::InvalidHexByte);
}

#[test]
fn wide_register_only_is_reported() {
    assert_eq!(report_of(assemble("ast cx 0")).3, LineError::WideRegisterOnly);
}

#[test]
fn unexpected_command_is_reported() {
    assert_eq!(report_of(assemble("foo")).3, LineError::UnexpectedCommand);
}

#[test]
fn file_start_sets_file_and_line() {
    let (file, line, _, err) = report_of(assemble("nop\nFILE_START: src/a.asm\nnop\nfoo"));
    assert_eq!(file, "src/a.asm");
    assert_eq!(line, 2);
    assert_eq!(err, LineError::UnexpectedCommand);
}

#[test]
fn sub_without_second_register_aborts() {
    assert_eq!(abort_of(assemble("sub ax")), Abort::MissingOperand);
}

#[test]
fn ldi_without_operands_aborts_in_first_pass() {
    assert_eq!(abort_of(assemble("ldi")), Abort::MissingOperand);
}

#[test]
fn malformed_hex_aborts() {
    assert_eq!(abort_of(assemble("ldi ax 0xzz")), Abort::MalformedHex);
}

#[test]
fn dir_split_inside_char_aborts() {
    assert_eq!(abort_of(assemble("dir aé1")), Abort::SplitInsideChar);
}

#[test]
fn bad_line_count_aborts() {
    assert_eq!(abort_of(assemble("remove_line: x")), Abort::BadLineCount);
}

#[test]
fn call_near_start_underflows_line_count() {
    assert_eq!(abort_of(assemble("call .f\n.f")), Abort::LineCountUnderflow);
}

#[test]
fn missing_asset_aborts() {
    assert_eq!(abort_of(assemble("ast ax 3")), Abort::AssetOutOfRange);
}

#[test]
fn trimming_matches_str_trim() {
    for cp in 0u32..0x3100 {
        if let Some(c) = char::from_u32(cp) {
            let s: String = [c, 'x', c, 'y', c].iter().collect();
            let got: String = trim_chars(&chars(&s)).iter().collect();
            assert_eq!(got, s.trim(), "code point {:#x}", cp);
        }
    }
}

#[test]
fn trimming_keeps_inner_and_non_white_characters() {
    let got: String = trim_chars(&chars("\u{a0}\u{3000}\t a b \u{200b}\n")).iter().collect();
    assert_eq!(got, "a b \u{200b}");
    assert!(white_space('\u{2028}'));
    assert!(!white_space('\u{200b}'));
    assert!(trim_chars(&chars(" \u{85} ")).is_empty());
}
