use vm32::assembler::{assemble_source, AsmError};
use vm32::encode::{Abort, LineError, LineFault};
use vm32::project::{asset_texts, header_bytes, namespace_text, project_parts, SourceFile};

fn chars(s: &str) -> Vec<char> {
    s.chars().collect()
}

fn text(v: &[char]) -> String {
    v.iter().collect()
}

fn file(name: &str, body: &str) -> SourceFile {
    SourceFile { name: chars(name), path: chars(&format!("proj/{}", name)), text: chars(body) }
}

#[test]
fn header_numbers_in_both_bases() {
    assert_eq!(header_bytes(&chars("1 0x2_0 255\n+7")).unwrap(), vec![1, 0x20, 255, 7]);
}

#[test]
fn header_with_trailing_newline_is_invalid() {
    assert_eq!(header_bytes(&chars("1 2\n")), Err(LineFault::Report(LineError::InvalidNumber)));
}

#[test]
fn header_bad_tokens() {
    assert_eq!(header_bytes(&chars("0x")), Err(LineFault::Report(LineError::InvalidNumber)));
    assert_eq!(header_bytes(&chars("256")), Err(LineFault::Report(LineError::InvalidNumber)));
    assert_eq!(header_bytes(&chars("0xzz")), Err(LineFault::Abort(Abort::MalformedHex)));
    assert_eq!(header_bytes(&chars("0x100")), Err(LineFault::Abort(Abort::MalformedHex)));
}

#[test]
fn asset_lines_with_escaped_newlines() {
    let a = asset_texts(&chars("a\\nb\nc"));
    assert_eq!(a.len(), 2);
    assert_eq!(text(&a[0]), "a\nb");
    assert_eq!(text(&a[1]), "c");
}

#[test]
fn labels_are_namespaced_by_file() {
    let r = namespace_text(&chars(".main\njmp .loop\nx::.y\nnop"), &chars("prog"));
    assert_eq!(text(&r), ".prog::main\njmp .prog::loop\nx::.y\nnop");
}

#[test]
fn project_is_put_together_in_file_order() {
    let files = vec![
        file("a.asm", ".start\r\nhlt"),
        file("b.h", "7 8"),
        file("c.ast", "hi\nyo"),
    ];
    let (src, header, assets) = project_parts(&Some(chars(".a::start")), &files).unwrap();
    assert_eq!(
        text(&src),
        "jmp .a::start\n\nFILE_START: proj/a.asm\n.a::start\nhlt\nFILE_START: proj/b.h\n\nFILE_START: proj/c.ast\n"
    );
    assert_eq!(header, vec![7, 8]);
    assert_eq!(assets.len(), 2);
    assert_eq!(text(&assets[0]), "hi");
    assert_eq!(text(&assets[1]), "yo");
}

#[test]
fn project_without_entry_has_no_jump() {
    let files = vec![file("m.asm", "nop")];
    let (src, header, assets) = project_parts(&None, &files).unwrap();
    assert_eq!(text(&src), "\nFILE_START: proj/m.asm\nnop");
    assert!(header.is_empty());
    assert!(assets.is_empty());
}

#[test]
fn bad_header_file_is_reported_against_it() {
    let files = vec![file("a.h", "1"), file("b.h", "zz"), file("c.h", "0xq")];
    match project_parts(&None, &files) {
        Err(AsmError::Report(rep)) => {
            assert_eq!(text(&rep.file), "proj/b.h");
            assert_eq!(rep.line, 0);
            assert_eq!(rep.words.len(), 1);
            assert_eq!(text(&rep.words[0]), "header");
            assert_eq!(rep.error, LineError::InvalidNumber);
        },
        other => panic!("expected a report, got {:?}", other),
    }
}

#[test]
fn project_assembles_with_header_and_assets() {
    let files = vec![
        file("main.asm", "ast bx 0\njmp .done\n.done\nhlt"),
        file("h.h", "0xEE"),
        file("t.ast", "ok"),
    ];
    let (src, header, assets) = project_parts(&Some(chars(".main::done")), &files).unwrap();
    let image = assemble_source(&src, &header, &assets).unwrap();
    // header, jmp .main::done (label at 6 + 20 + 6 = 32), ast, jmp, hlt, asset
    let mut expected = vec![0xEE, 0x0A, 0, 0, 0, 0, 32];
    expected.extend_from_slice(&[0x18, 0x00, 0x18, 0x04, 0x04, 0x00, 0, 0, 0, 34, 0x05, 0x4D, 0x06, 0x00, 0x19, 0x00, 0x19, 0x04, 0x05, 0x18]);
    expected.extend_from_slice(&[0x0A, 0, 0, 0, 0, 32, 0x01, b'o', b'k', 0]);
    assert_eq!(image, expected);
}
