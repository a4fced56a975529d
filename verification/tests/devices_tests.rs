use vm32::cpu::{step, Action};
use vm32::devices::{halted, key_code, take_dirty_files, write_input};
use vm32::machine::{Memory, Registers, BOOT_ADDRESS, STACK_ADDRESS, CD_SIZE, DRIVE_CHUNK, DRIVE_FILES, DRIVE_SIZE, RAM_SIZE};
use vm32::screen::{
    line_records, read_string, rect_records, screen, terminal_rows, text_records, Screen,
    LINE_BASE, RECT_BASE, TERMINAL_BASE, TEXT_BASE,
};

#[test]
fn new_memory_has_the_machine_sizes() {
    let m = Memory::new();
    assert_eq!(m.ram.len(), RAM_SIZE);
    assert_eq!(m.drive.len(), DRIVE_SIZE);
    assert_eq!(m.drive_flags.len(), DRIVE_FILES);
    assert_eq!(m.cd.len(), CD_SIZE);
    assert!(m.ram.iter().all(|b| *b == 0));
    assert!(m.drive_flags.iter().all(|f| !*f));
}

#[test]
fn boot_places_images_files_and_name() {
    let program = vec![0x01, 0x02, 0x03];
    let cd = vec![0xCD; 4];
    let mut files: Vec<Option<Vec<u8>>> = vec![None; 3];
    files[0] = Some(vec![0xAA; 0x8010]);
    files[2] = Some(vec![0x22, 0x33]);
    let m = Memory::boot(&program, &cd, &files);
    assert_eq!(m.ram[0xFE], 0);
    assert_eq!(&m.ram[0xFF..0x102], &[1, 2, 3]);
    assert_eq!(m.ram[0x102], 0);
    assert_eq!(&m.cd[0..5], &[0xCD, 0xCD, 0xCD, 0xCD, 0]);
    assert_eq!(m.drive[0x7FFE], 0xAA);
    assert_eq!(&m.drive[0x7FFF..0x8009], b"Calculator");
    assert_eq!(m.drive[0x8009], 0xAA);
    assert_eq!(m.drive[0x10_0000], 0);
    assert_eq!(&m.drive[2 * DRIVE_CHUNK..2 * DRIVE_CHUNK + 3], &[0x22, 0x33, 0]);
    assert!(m.drive_flags.iter().all(|f| !*f));
}

#[test]
fn key_code_prefers_typed_character() {
    assert_eq!(key_code(Some('a'), true, false, false, false, false, false), Some(b'a'));
    assert_eq!(key_code(Some('\u{141}'), false, false, false, false, false, false), Some(0x41));
    assert_eq!(key_code(None, true, true, false, false, false, false), Some(0x80));
    assert_eq!(key_code(None, false, true, true, false, false, false), Some(0x81));
    assert_eq!(key_code(None, false, false, true, false, false, false), Some(0x82));
    assert_eq!(key_code(None, false, false, false, true, false, false), Some(0x83));
    assert_eq!(key_code(None, false, false, false, false, true, true), Some(0x84));
    assert_eq!(key_code(None, false, false, false, false, false, true), Some(0x85));
    assert_eq!(key_code(None, false, false, false, false, false, false), None);
}

#[test]
fn input_goes_to_the_first_ram_bytes() {
    let mut m = Memory { ram: vec![0u8; 16], drive: vec![], drive_flags: vec![], cd: vec![] };
    m.ram[6] = 0x55;
    write_input(&mut m, 800, 600, None, 0x0102, 0x0304);
    assert_eq!(&m.ram[0..11], &[0, 0, 0x03, 0x20, 0x02, 0x58, 0x55, 0x01, 0x02, 0x03, 0x04]);
    write_input(&mut m, 800, 600, Some(0x81), 0, 0);
    assert_eq!(m.ram[6], 0x81);
}

#[test]
fn halted_reads_the_first_byte() {
    let mut m = Memory { ram: vec![0u8; 4], drive: vec![], drive_flags: vec![], cd: vec![] };
    assert!(!halted(&m));
    m.ram[0] = 1;
    assert!(halted(&m));
    m.ram[0] = 2;
    assert!(!halted(&m));
}

#[test]
fn dirty_files_are_taken_and_cleared() {
    let mut m = Memory { ram: vec![], drive: vec![], drive_flags: vec![false, true, false, true], cd: vec![] };
    assert_eq!(take_dirty_files(&mut m), vec![1, 3]);
    assert_eq!(m.drive_flags, vec![false; 4]);
    assert_eq!(take_dirty_files(&mut m), Vec::<usize>::new());
}

#[test]
fn terminal_shows_ascii_and_question_marks() {
    let mut ram = vec![0u8; RAM_SIZE];
    ram[TERMINAL_BASE] = b'H';
    ram[TERMINAL_BASE + 1] = b'i';
    ram[TERMINAL_BASE + 2] = 0x80;
    ram[TERMINAL_BASE + 70] = b'x';
    ram[TERMINAL_BASE + 0x5FE] = b'e';
    ram[TERMINAL_BASE + 0x5FF] = b'z';
    let rows = terminal_rows(&ram);
    assert_eq!(rows.len(), 22);
    assert!(rows.iter().all(|r| r.len() == 70));
    assert_eq!(&rows[0][0..4], &[b'H', b'i', b'?', 0]);
    assert_eq!(rows[1][0], b'x');
    assert_eq!(rows[21][64], b'e');
    assert_eq!(rows[21][65], 0);
}

#[test]
fn graphics_records_skip_transparent_slots() {
    let mut ram = vec![0u8; RAM_SIZE];
    // rectangle in slot 1: x 1, y 2, w 0x0304, h 5, colour 10 20 30 255
    let r = RECT_BASE + 12;
    ram[r..r + 12].copy_from_slice(&[0, 1, 0, 2, 3, 4, 0, 5, 10, 20, 30, 255]);
    // line in slot 0
    ram[LINE_BASE..LINE_BASE + 13].copy_from_slice(&[0, 1, 0, 2, 0, 3, 0, 4, 2, 9, 8, 7, 6]);
    // text in slot 2, string "AB" at 0x2000
    let t = TEXT_BASE + 28;
    ram[t..t + 14].copy_from_slice(&[0, 7, 0, 8, 0, 22, 1, 2, 3, 4, 0, 0, 0x20, 0x00]);
    ram[0x2000] = b'A';
    ram[0x2001] = b'B';
    let rects = rect_records(&ram);
    assert_eq!(rects.len(), 1);
    assert_eq!((rects[0].x, rects[0].y, rects[0].w, rects[0].h), (1, 2, 0x0304, 5));
    assert_eq!((rects[0].r, rects[0].g, rects[0].b, rects[0].a), (10, 20, 30, 255));
    let lines = line_records(&ram);
    assert_eq!(lines.len(), 1);
    assert_eq!((lines[0].x1, lines[0].y1, lines[0].x2, lines[0].y2, lines[0].thickness), (1, 2, 3, 4, 2));
    assert_eq!(lines[0].a, 6);
    let texts = text_records(&ram);
    assert_eq!(texts.len(), 1);
    assert_eq!((texts[0].x, texts[0].y, texts[0].font, texts[0].size), (7, 8, 0, 22));
    assert_eq!(texts[0].text, Some(b"AB".to_vec()));
}

#[test]
fn unterminated_string_reads_as_none() {
    let mut ram = vec![0u8; 8];
    ram[5] = 1;
    ram[6] = 2;
    ram[7] = 3;
    assert_eq!(read_string(&ram, 5), None);
    assert_eq!(read_string(&ram, 8), None);
    assert_eq!(read_string(&ram, 0), Some(vec![]));
    ram[0] = 9;
    assert_eq!(read_string(&ram, 0), Some(vec![9]));
}

#[test]
fn screen_follows_the_mode_byte() {
    let mut m = Memory { ram: vec![0u8; RAM_SIZE], drive: vec![], drive_flags: vec![], cd: vec![] };
    assert!(matches!(screen(&m), Screen::Terminal(rows) if rows.len() == 22));
    m.ram[1] = 1;
    assert!(matches!(screen(&m), Screen::Graphics(r, t, l) if r.is_empty() && t.is_empty() && l.is_empty()));
    m.ram[1] = 2;
    assert!(matches!(screen(&m), Screen::Blank));
}

#[test]
fn booted_core_runs_the_boot_image() {
    let program = vec![0x04, 0x00, 0, 0, 0, 7, 0x18, 0x00, 0x01];
    let mut m = Memory::boot(&program, &vec![], &vec![]);
    let mut reg = Registers::starting_at(BOOT_ADDRESS, STACK_ADDRESS);
    for _ in 0..3 {
        assert_eq!(step(&mut reg, &mut m, 0), Ok(Action::Continue));
    }
    assert_eq!(reg.ax, 7);
    assert_eq!(&m.ram[0x70_0000..0x70_0004], &[0, 0, 0, 7]);
    assert!(halted(&m));
}
