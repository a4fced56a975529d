use vm32::assembler::assemble_source;
use vm32::cpu::{step, step_with, next_opcode, Action, Fault, RND_OPCODE};
use vm32::machine::{Memory, Registers};

fn small_memory(code: &[u8]) -> Memory {
    let mut ram = vec![0u8; 0x1000];
    ram[..code.len()].copy_from_slice(code);
    Memory { ram, drive: vec![0u8; 0x30_0000], drive_flags: vec![false; 3], cd: vec![0u8; 0x100] }
}

fn run(reg: &mut Registers, mem: &mut Memory, steps: usize) -> Result<Action, Fault> {
    let mut last = Ok(Action::Continue);
    for _ in 0..steps {
        last = step_with(reg, mem, 0, 0);
        if last.is_err() {
            break;
        }
    }
    last
}

#[test]
fn registers_start_at_zero() {
    let r = Registers::new();
    assert_eq!(r.ax, 0);
    assert_eq!(r.pc, 0);
    let s = Registers::starting_at(0xFF, 0x70_0000);
    assert_eq!(s.ptr, 0xFF);
    assert_eq!(s.stck_ptr, 0x70_0000);
    assert_eq!(s.pc, 0);
    assert_eq!(s.ax, 0);
}

#[test]
fn load_and_add() {
    let mut mem = small_memory(&[0x04, 0x00, 0, 0, 0, 5, 0x04, 0x04, 0, 0, 0, 7, 0x06, 0x00]);
    let mut reg = Registers::new();
    assert_eq!(run(&mut reg, &mut mem, 3), Ok(Action::Continue));
    assert_eq!(reg.ax, 5);
    assert_eq!(reg.ay, 7);
    assert_eq!(reg.ar, 12);
    assert_eq!(reg.pc, 14);
}

#[test]
fn short_register_load_skips_two_bytes() {
    let mut mem = small_memory(&[0x04, 0x02, 0x12, 0x34, 0x00]);
    let mut reg = Registers::new();
    assert_eq!(step_with(&mut reg, &mut mem, 0, 0), Ok(Action::Continue));
    assert_eq!(reg.cx, 0x1234);
    assert_eq!(reg.pc, 4);
}

#[test]
fn addition_overflow_faults() {
    let mut mem = small_memory(&[0x06, 0x00]);
    let mut reg = Registers::new();
    reg.ax = u32::MAX;
    reg.ay = 1;
    assert_eq!(step_with(&mut reg, &mut mem, 0, 0), Err(Fault::Overflow));
}

#[test]
fn subtraction_below_zero_faults() {
    let mut mem = small_memory(&[0x07, 0x00]);
    let mut reg = Registers::new();
    reg.ax = 1;
    reg.ay = 2;
    assert_eq!(step_with(&mut reg, &mut mem, 0, 0), Err(Fault::Overflow));
}

#[test]
fn division_by_zero_faults() {
    let mut mem = small_memory(&[0x09, 0x00]);
    let mut reg = Registers::new();
    reg.ax = 10;
    assert_eq!(step_with(&mut reg, &mut mem, 0, 0), Err(Fault::DivideByZero));
}

#[test]
fn division_rounds_down() {
    let mut mem = small_memory(&[0x09, 0x01]);
    let mut reg = Registers::new();
    reg.bx = 17;
    reg.by = 5;
    assert_eq!(step_with(&mut reg, &mut mem, 0, 0), Ok(Action::Continue));
    assert_eq!(reg.br, 3);
}

#[test]
fn bitwise_and_shift() {
    // and ar; or br; xor cr; shl ax 4; shr ay 1; not bx
    let mut mem = small_memory(&[0x12, 0x00, 0x13, 0x01, 0x14, 0x02, 0x16, 0x00, 4, 0x17, 0x04, 1, 0x15, 0x01]);
    let mut reg = Registers::new();
    reg.ax = 0b1100;
    reg.ay = 0b1010;
    reg.bx = 0b1100;
    reg.by = 0b1010;
    reg.cx = 0b1100;
    reg.cy = 0b1010;
    assert_eq!(run(&mut reg, &mut mem, 3), Ok(Action::Continue));
    assert_eq!(reg.ar, 0b1000);
    assert_eq!(reg.br, 0b1110);
    assert_eq!(reg.cr, 0b0110);
    assert_eq!(run(&mut reg, &mut mem, 3), Ok(Action::Continue));
    assert_eq!(reg.ar, 0b1010 >> 1);
    assert_eq!(reg.br, !0b1100u32);
}

#[test]
fn shift_by_32_faults() {
    let mut mem = small_memory(&[0x16, 0x00, 32]);
    let mut reg = Registers::new();
    assert_eq!(step_with(&mut reg, &mut mem, 0, 0), Err(Fault::Overflow));
}

#[test]
fn increment_past_16_bits_faults() {
    let mut mem = small_memory(&[0x1F, 0x02]);
    let mut reg = Registers::new();
    reg.cx = u16::MAX;
    assert_eq!(step_with(&mut reg, &mut mem, 0, 0), Err(Fault::Overflow));
}

#[test]
fn decrement_below_zero_faults() {
    let mut mem = small_memory(&[0x20, 0x00]);
    let mut reg = Registers::new();
    assert_eq!(step_with(&mut reg, &mut mem, 0, 0), Err(Fault::Overflow));
}

#[test]
fn nop_and_wait_ask_for_sleep() {
    let mut mem = small_memory(&[0x00, 0x21]);
    let mut reg = Registers::new();
    assert_eq!(step_with(&mut reg, &mut mem, 0, 0), Ok(Action::Sleep(0)));
    assert_eq!(step_with(&mut reg, &mut mem, 0, 0), Ok(Action::Sleep(1)));
}

#[test]
fn halt_sets_first_ram_byte() {
    let mut mem = small_memory(&[0x00, 0x01]);
    let mut reg = Registers::new();
    reg.pc = 1;
    assert_eq!(step_with(&mut reg, &mut mem, 0, 0), Ok(Action::Continue));
    assert_eq!(mem.ram[0], 1);
}

#[test]
fn fetch_past_ram_faults() {
    let mut mem = small_memory(&[]);
    let mut reg = Registers::new();
    reg.pc = 0x1000;
    assert_eq!(step_with(&mut reg, &mut mem, 0, 0), Err(Fault::OutOfBounds));
    assert_eq!(reg.pc, 0x1000);
}

#[test]
fn load_past_end_faults() {
    // lod ax 0xFFE: four bytes from 0xFFE run past the 0x1000 bytes of RAM
    let mut mem = small_memory(&[0x02, 0, 0, 0, 0x0F, 0xFE, 0x00]);
    let mut reg = Registers::new();
    assert_eq!(step_with(&mut reg, &mut mem, 0, 0), Err(Fault::OutOfBounds));
    assert_eq!(reg.pc, 7);
}

#[test]
fn store_then_load_gives_back_the_value() {
    // sto ax 0x800; lod by 0x800
    let mut mem = small_memory(&[0x03, 0, 0, 0, 0x08, 0x00, 0x00, 0x02, 0, 0, 0, 0x08, 0x00, 0x05]);
    let mut reg = Registers::new();
    reg.ax = 0xDEAD_BEEF;
    assert_eq!(run(&mut reg, &mut mem, 2), Ok(Action::Continue));
    assert_eq!(&mem.ram[0x800..0x804], &[0xDE, 0xAD, 0xBE, 0xEF]);
    assert_eq!(reg.by, 0xDEAD_BEEF);
}

#[test]
fn drive_store_marks_its_file() {
    // std ax 0x10_0004 (file 1)
    let mut mem = small_memory(&[0x25, 0, 0, 0x10, 0x00, 0x04, 0x00]);
    let mut reg = Registers::new();
    reg.ax = 0x0102_0304;
    assert_eq!(step_with(&mut reg, &mut mem, 0, 0), Ok(Action::Continue));
    assert_eq!(mem.drive_flags, vec![false, true, false]);
    assert_eq!(&mem.drive[0x10_0004..0x10_0008], &[1, 2, 3, 4]);
}

#[test]
fn drive_store_past_the_flags_faults() {
    // std ax 0x30_0000: file 3 has no flag
    let mut mem = small_memory(&[0x25, 0, 0, 0x30, 0x00, 0x00, 0x00]);
    let mut reg = Registers::new();
    assert_eq!(step_with(&mut reg, &mut mem, 0, 0), Err(Fault::OutOfBounds));
    assert_eq!(mem.drive_flags, vec![false, false, false]);
}

#[test]
fn cd_byte_store_and_load() {
    // sbcd ax 0x10; lcdb bx 0x10
    let mut mem = small_memory(&[0x32, 0, 0, 0, 0, 0x10, 0x00, 0x34, 0, 0, 0, 0, 0x10, 0x01]);
    let mut reg = Registers::new();
    reg.ax = 0x1234_5678;
    assert_eq!(run(&mut reg, &mut mem, 2), Ok(Action::Continue));
    assert_eq!(mem.cd[0x10], 0x78);
    assert_eq!(reg.bx, 0x78);
}

#[test]
fn relative_store_and_load() {
    // str ax 0x00 bx (address 0 << 16 | ax); lor ax 0x00 ay
    let mut mem = small_memory(&[0x1C, 0x00, 0x00, 0x01, 0x1B, 0x00, 0x00, 0x04]);
    let mut reg = Registers::new();
    reg.ax = 0x900;
    reg.bx = 0xCAFE_F00D;
    assert_eq!(run(&mut reg, &mut mem, 2), Ok(Action::Continue));
    assert_eq!(reg.ay, 0xCAFE_F00D);
}

#[test]
fn push_then_pop_restores_value_and_stack() {
    // psh ax; pop by
    let mut mem = small_memory(&[0x18, 0x00, 0x19, 0x05]);
    let mut reg = Registers::new();
    reg.stck_ptr = 0x800;
    reg.ax = 0xABCD_0123;
    assert_eq!(run(&mut reg, &mut mem, 1), Ok(Action::Continue));
    assert_eq!(reg.stck_ptr, 0x804);
    assert_eq!(run(&mut reg, &mut mem, 1), Ok(Action::Continue));
    assert_eq!(reg.stck_ptr, 0x800);
    assert_eq!(reg.by, 0xABCD_0123);
}

#[test]
fn pop_from_empty_stack_faults() {
    let mut mem = small_memory(&[0x19, 0x00]);
    let mut reg = Registers::new();
    reg.stck_ptr = 2;
    assert_eq!(step_with(&mut reg, &mut mem, 0, 0), Err(Fault::Overflow));
}

#[test]
fn conditional_jumps() {
    // je 0x10; jne 0x20
    let mut mem = small_memory(&[0x0B, 0, 0, 0, 0, 0x10, 0x0C, 0, 0, 0, 0, 0x20]);
    let mut reg = Registers::new();
    reg.cr = 1;
    assert_eq!(step_with(&mut reg, &mut mem, 0, 0), Ok(Action::Continue));
    assert_eq!(reg.pc, 6);
    assert_eq!(step_with(&mut reg, &mut mem, 0, 0), Ok(Action::Continue));
    assert_eq!(reg.pc, 0x20);
}

#[test]
fn core_id_jump() {
    // jcid 0x30 taken on core 3 when cr == 3
    let mut mem = small_memory(&[0x2C, 0, 0, 0, 0, 0x30]);
    let mut reg = Registers::new();
    reg.cr = 3;
    assert_eq!(step_with(&mut reg, &mut mem, 3, 0), Ok(Action::Continue));
    assert_eq!(reg.pc, 0x30);
}

#[test]
fn move_copies_pc_and_ptr() {
    // mov pc ax ; mov ax ptr
    let mut mem = small_memory(&[0x05, 0x0C, 0x05, 0xD0]);
    let mut reg = Registers::new();
    assert_eq!(step_with(&mut reg, &mut mem, 0, 0), Ok(Action::Continue));
    assert_eq!(reg.ax, 2);
    assert_eq!(step_with(&mut reg, &mut mem, 0, 0), Ok(Action::Continue));
    assert_eq!(reg.ptr, 2);
}

#[test]
fn far_jump_sets_pc_and_ptr() {
    let mut mem = small_memory(&[0x36, 0, 0, 0, 5, 0, 0, 0x01, 0x00]);
    let mut reg = Registers::new();
    assert_eq!(step_with(&mut reg, &mut mem, 0, 0), Ok(Action::Continue));
    assert_eq!(reg.pc, 5);
    assert_eq!(reg.ptr, 0x100);
}

#[test]
fn random_word_goes_into_the_register() {
    let mut mem = small_memory(&[0x1A, 0x05]);
    let mut reg = Registers::new();
    assert_eq!(step_with(&mut reg, &mut mem, 0, 0xFEED_BEEF), Ok(Action::Continue));
    assert_eq!(reg.by, 0xFEED_BEEF);
    assert_eq!(reg.pc, 2);
}

#[test]
fn step_draws_for_rnd_only() {
    let mut mem = small_memory(&[0x1A, 0x0D, 0x04, 0x00, 0, 0, 0, 9]);
    let mut reg = Registers::new();
    assert_eq!(next_opcode(&reg, &mem), Some(RND_OPCODE));
    assert_eq!(step(&mut reg, &mut mem, 0), Ok(Action::Continue));
    assert_eq!(reg.pc, 2);
    assert_eq!(step(&mut reg, &mut mem, 0), Ok(Action::Continue));
    assert_eq!(reg.ax, 9);
}

#[test]
fn assembled_program_runs_to_halt() {
    let src: Vec<char> = "ldi ax 40\nldi ay 2\nadd ar\njmp .end\nhlt\n.end\nsto ar 0x900\nhlt"
        .chars()
        .collect();
    let image = assemble_source(&src, &Vec::new(), &Vec::new()).unwrap();
    let mut ram = vec![0u8; 0x1000];
    ram[0xFF..0xFF + image.len()].copy_from_slice(&image);
    let mut mem = Memory { ram, drive: vec![0u8; 16], drive_flags: vec![false; 1], cd: vec![0u8; 16] };
    let mut reg = Registers::starting_at(0xFF, 0x800);
    for _ in 0..10 {
        step_with(&mut reg, &mut mem, 0, 0).unwrap();
        if mem.ram[0] == 1 {
            break;
        }
    }
    assert_eq!(mem.ram[0], 1);
    assert_eq!(&mem.ram[0x900..0x904], &[0, 0, 0, 42]);
}

#[test]
fn call_returns_after_the_call() {
    let src: Vec<char> = "nop\nnop\nnop\nnop\ncall .f\nsto ax 0x900\nhlt\n.f\nldi ax 7\npop pc"
        .chars()
        .collect();
    let image = assemble_source(&src, &Vec::new(), &Vec::new()).unwrap();
    let mut ram = vec![0u8; 0x1000];
    ram[0xFF..0xFF + image.len()].copy_from_slice(&image);
    let mut mem = Memory { ram, drive: vec![0u8; 16], drive_flags: vec![false; 1], cd: vec![0u8; 16] };
    let mut reg = Registers::starting_at(0xFF, 0x800);
    for _ in 0..20 {
        step_with(&mut reg, &mut mem, 0, 0).unwrap();
        if mem.ram[0] == 1 {
            break;
        }
    }
    assert_eq!(mem.ram[0], 1);
    assert_eq!(reg.stck_ptr, 0x800);
    assert_eq!(&mem.ram[0x900..0x904], &[0, 0, 0, 7]);
}

#[test]
fn push_past_ram_faults() {
    let mut mem = small_memory(&[0x18, 0x00]);
    let mut reg = Registers::new();
    reg.stck_ptr = 0xFFD;
    assert_eq!(step_with(&mut reg, &mut mem, 0, 0), Err(Fault::OutOfBounds));
    assert_eq!(reg.stck_ptr, 0xFFD);
}

#[test]
fn pop_past_ram_faults() {
    let mut mem = small_memory(&[0x19, 0x00]);
    let mut reg = Registers::new();
    reg.stck_ptr = 0x1002;
    assert_eq!(step_with(&mut reg, &mut mem, 0, 0), Err(Fault::OutOfBounds));
}

#[test]
fn shift_of_a_result_register_code_does_nothing() {
    // shl with code 8 is no shift at all, whatever the amount
    let mut mem = small_memory(&[0x16, 0x08, 40]);
    let mut reg = Registers::new();
    assert_eq!(step_with(&mut reg, &mut mem, 0, 0), Ok(Action::Continue));
    assert_eq!(reg.pc, 3);
}

#[test]
fn operand_past_ram_faults() {
    // jmp whose address runs past the end of RAM
    let mut ram = vec![0u8; 0x1000];
    ram[0xFFD] = 0x0A;
    let mut mem = Memory { ram, drive: vec![], drive_flags: vec![], cd: vec![] };
    let mut reg = Registers::new();
    reg.pc = 0xFFD;
    assert_eq!(step_with(&mut reg, &mut mem, 0, 0), Err(Fault::OutOfBounds));
}

#[test]
fn multiplication_overflow_faults() {
    let mut mem = small_memory(&[0x08, 0x00]);
    let mut reg = Registers::new();
    reg.ax = 0x1_0000;
    reg.ay = 0x1_0000;
    assert_eq!(step_with(&mut reg, &mut mem, 0, 0), Err(Fault::Overflow));
}

#[test]
fn store_survives_unrelated_steps_until_load() {
    // sto ax 0x800; inc bx; sto bx 0x900; lod cr 0x800
    let mut mem = small_memory(&[
        0x03, 0, 0, 0, 0x08, 0x00, 0x00, 0x1F, 0x01, 0x03, 0, 0, 0, 0x09, 0x00, 0x01, 0x02, 0, 0,
        0, 0x08, 0x00, 0x0A,
    ]);
    let mut reg = Registers::new();
    reg.ax = 0x0BAD_CAFE;
    let before = mem.ram.clone();
    assert_eq!(step_with(&mut reg, &mut mem, 0, 0), Ok(Action::Continue));
    assert_eq!(reg.pc, 7);
    assert_eq!(reg.ax, 0x0BAD_CAFE);
    for (k, (x, y)) in before.iter().zip(mem.ram.iter()).enumerate() {
        if !(0x800..0x804).contains(&k) {
            assert_eq!(x, y, "byte {:#x} changed", k);
        }
    }
    assert_eq!(run(&mut reg, &mut mem, 3), Ok(Action::Continue));
    assert_eq!(reg.cr, 0x0BAD_CAFE);
    assert_eq!(&mem.ram[0x900..0x904], &[0, 0, 0, 1]);
}
