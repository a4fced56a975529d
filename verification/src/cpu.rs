//! One instruction of a core: fetch the opcode at `ptr + pc`, then decode its
//! operands and carry it out on the registers and the shared memories.
//!
//! Every multi-byte value is big-endian. A step that reads or writes outside
//! a memory, overflows an arithmetic operation, shifts by 32 or more, divides
//! by zero, or pops from a stack address below 4 ends in a `Fault`; the
//! memories then hold every write that came before the faulting access.
use vstd::prelude::*;
use crate::machine::{Registers, Memory, MemoryState, core_wf, write_clipped, write_bytes};

verus! {

/// What the core should do after a step that did not fault.
#[derive(PartialEq, Eq, Debug, Clone, Copy, Structural)]
pub enum Action {
    /// Go on with the next instruction.
    Continue,
    /// Sleep this many milliseconds, then go on.
    Sleep(u64),
}

/// Why a step could not complete.
#[derive(PartialEq, Eq, Debug, Clone, Copy, Structural)]
pub enum Fault {
    /// A read or write outside a memory or outside the dirty flags.
    OutOfBounds,
    /// An addition, subtraction, multiplication, increment or decrement out
    /// of range, a shift by 32 or more, or a pop with a stack address below
    /// 4. Arithmetic is checked, as in a debug build: nothing wraps.
    Overflow,
    /// A division by zero.
    DivideByZero,
}

/// The memories that the load and store instructions address.
#[derive(PartialEq, Eq, Debug, Clone, Copy, Structural)]
pub enum Bank {
    Ram,
    Drive,
    Cd,
}

/// Registers, memories and result after a step.
pub type Outcome = (Registers, MemoryState, Result<Action, Fault>);

/// The byte of `s` at `i`, if there is one.
pub open spec fn byte_at(s: Seq<u8>, i: int) -> Option<u8> {
    if 0 <= i < s.len() {
        Some(s[i])
    } else {
        None
    }
}

/// The 40-bit big-endian number in `s[i..i + 5]`.
pub open spec fn word40(s: Seq<u8>, i: int) -> u64 {
    ((s[i] as u64) << 32u64) | ((s[i + 1] as u64) << 24u64) | ((s[i + 2] as u64) << 16u64) | ((
    s[i + 3] as u64) << 8u64) | (s[i + 4] as u64)
}

/// The 32-bit big-endian number in `s[i..i + 4]`.
pub open spec fn word32(s: Seq<u8>, i: int) -> u32 {
    ((s[i] as u32) << 24u32) | ((s[i + 1] as u32) << 16u32) | ((s[i + 2] as u32) << 8u32) | (s[i
        + 3] as u32)
}

/// The 16-bit big-endian number in `s[i..i + 2]`.
pub open spec fn word16(s: Seq<u8>, i: int) -> u16 {
    ((s[i] as u16) << 8u16) | (s[i + 1] as u16)
}

/// The big-endian bytes of a 32-bit value.
pub open spec fn bytes32(v: u32) -> Seq<u8> {
    seq![(v >> 24u32) as u8, (v >> 16u32) as u8, (v >> 8u32) as u8, v as u8]
}

/// The big-endian bytes of a 16-bit value.
pub open spec fn bytes16(v: u16) -> Seq<u8> {
    seq![(v >> 8u16) as u8, v as u8]
}

/// The value of the data register with code `i` (codes 0 to 11: `ax bx cx dx
/// ay by cy dy ar br cr dr`), the 16-bit ones widened; 0 for any other code.
pub open spec fn reg_value(r: Registers, i: u8) -> u32 {
    match i {
        0x00 => r.ax,
        0x01 => r.bx,
        0x02 => r.cx as u32,
        0x03 => r.dx as u32,
        0x04 => r.ay,
        0x05 => r.by,
        0x06 => r.cy as u32,
        0x07 => r.dy as u32,
        0x08 => r.ar,
        0x09 => r.br,
        0x0A => r.cr,
        0x0B => r.dr,
        _ => 0,
    }
}

/// `r` with the data register of code `i` set to `v` (cut to 16 bits for a
/// 16-bit register); unchanged for any other code.
pub open spec fn set_reg(r: Registers, i: u8, v: u32) -> Registers {
    match i {
        0x00 => Registers { ax: v, ..r },
        0x01 => Registers { bx: v, ..r },
        0x02 => Registers { cx: v as u16, ..r },
        0x03 => Registers { dx: v as u16, ..r },
        0x04 => Registers { ay: v, ..r },
        0x05 => Registers { by: v, ..r },
        0x06 => Registers { cy: v as u16, ..r },
        0x07 => Registers { dy: v as u16, ..r },
        0x08 => Registers { ar: v, ..r },
        0x09 => Registers { br: v, ..r },
        0x0A => Registers { cr: v, ..r },
        0x0B => Registers { dr: v, ..r },
        _ => r,
    }
}

/// `r` after a load into the data register of code `i`: a 32-bit register
/// takes `n32`, a 16-bit one takes `n16` (the first two of the bytes).
pub open spec fn load_reg(r: Registers, i: u8, n32: u32, n16: u16) -> Registers {
    if i == 0x02 || i == 0x03 || i == 0x06 || i == 0x07 {
        set_reg(r, i, n16 as u32)
    } else {
        set_reg(r, i, n32)
    }
}

/// The bytes that a store of the register with code `i` writes: four for a
/// 32-bit register, two for a 16-bit one, two zero bytes for any other code.
pub open spec fn stored(r: Registers, i: u8) -> Seq<u8> {
    if i == 0x02 || i == 0x03 || i == 0x06 || i == 0x07 {
        bytes16(reg_value(r, i) as u16)
    } else if i <= 0x0B {
        bytes32(reg_value(r, i))
    } else {
        bytes16(0)
    }
}

/// The memory of bank `b`.
pub open spec fn bank(m: MemoryState, b: Bank) -> Seq<u8> {
    match b {
        Bank::Ram => m.ram,
        Bank::Drive => m.drive,
        Bank::Cd => m.cd,
    }
}

/// `m` with the memory of bank `b` replaced by `s`.
pub open spec fn with_bank(m: MemoryState, b: Bank, s: Seq<u8>) -> MemoryState {
    match b {
        Bank::Ram => MemoryState { ram: s, ..m },
        Bank::Drive => MemoryState { drive: s, ..m },
        Bank::Cd => MemoryState { cd: s, ..m },
    }
}

/// `r` with `pc` advanced by `k`.
pub open spec fn adv(r: Registers, k: int) -> Registers {
    Registers { pc: (r.pc + k) as u64, ..r }
}

/// The code byte at `ptr + pc + k`.
pub open spec fn code(r: Registers, m: MemoryState, k: int) -> Option<u8> {
    byte_at(m.ram, r.ptr + r.pc + k)
}

/// Marks the drive file holding `addr` as changed (for a drive store).
pub open spec fn mark(m: MemoryState, b: Bank, addr: u64) -> Option<MemoryState> {
    if b != Bank::Drive {
        Some(m)
    } else if addr / 0x10_0000 < m.flags.len() {
        Some(MemoryState { flags: m.flags.update((addr / 0x10_0000) as int, true), ..m })
    } else {
        None
    }
}

/// Writes `data` at `addr` of bank `b` and tells whether it all fitted.
pub open spec fn put(r: Registers, m: MemoryState, b: Bank, addr: u64, data: Seq<u8>) -> Outcome {
    let m2 = with_bank(m, b, write_clipped(bank(m, b), addr as int, data));
    if addr + data.len() <= bank(m, b).len() {
        (r, m2, Ok(Action::Continue))
    } else {
        (r, m2, Err(Fault::OutOfBounds))
    }
}

/// LOD, LDD, LDCD: a 5-byte address and a register code; loads 4 (or 2) bytes.
pub open spec fn load_abs(b: Bank, r: Registers, m: MemoryState) -> Outcome {
    let p = r.ptr + r.pc;
    if p + 5 > m.ram.len() {
        (r, m, Err(Fault::OutOfBounds))
    } else {
        let addr = word40(m.ram, p);
        let r1 = adv(r, 5);
        match code(r1, m, 0) {
            None => (r1, m, Err(Fault::OutOfBounds)),
            Some(i) => {
                let r2 = adv(r1, 1);
                let s = bank(m, b);
                if addr + 4 > s.len() {
                    (r2, m, Err(Fault::OutOfBounds))
                } else {
                    (load_reg(r2, i, word32(s, addr as int), word16(s, addr as int)), m, Ok(Action::Continue))
                }
            },
        }
    }
}

/// STO, STD, STCD: a 5-byte address and a register code; stores the register
/// (a drive store first marks the drive file as changed).
pub open spec fn store_abs(b: Bank, r: Registers, m: MemoryState) -> Outcome {
    let p = r.ptr + r.pc;
    if p + 5 > m.ram.len() {
        (r, m, Err(Fault::OutOfBounds))
    } else {
        let addr = word40(m.ram, p);
        match mark(m, b, addr) {
            None => (r, m, Err(Fault::OutOfBounds)),
            Some(m1) => {
                let r1 = adv(r, 5);
                match code(r1, m1, 0) {
                    None => (r1, m1, Err(Fault::OutOfBounds)),
                    Some(i) => {
                        let r2 = adv(r1, 1);
                        put(r2, m1, b, addr, stored(r2, i))
                    },
                }
            },
        }
    }
}

/// UBS, SBD, SBCD: a 5-byte address and a register code; stores the
/// register's low byte.
pub open spec fn store_byte_abs(b: Bank, r: Registers, m: MemoryState) -> Outcome {
    let p = r.ptr + r.pc;
    if p + 5 > m.ram.len() {
        (r, m, Err(Fault::OutOfBounds))
    } else {
        let addr = word40(m.ram, p);
        match mark(m, b, addr) {
            None => (r, m, Err(Fault::OutOfBounds)),
            Some(m1) => {
                let r1 = adv(r, 5);
                match code(r1, m1, 0) {
                    None => (r1, m1, Err(Fault::OutOfBounds)),
                    Some(i) => {
                        let r2 = adv(r1, 1);
                        put(r2, m1, b, addr, seq![reg_value(r2, i) as u8])
                    },
                }
            },
        }
    }
}

/// UBL, LDB, LCDB: a 5-byte address and a register code; loads one byte.
pub open spec fn load_byte_abs(b: Bank, r: Registers, m: MemoryState) -> Outcome {
    let p = r.ptr + r.pc;
    if p + 5 > m.ram.len() {
        (r, m, Err(Fault::OutOfBounds))
    } else {
        let addr = word40(m.ram, p);
        let r1 = adv(r, 5);
        match code(r1, m, 0) {
            None => (r1, m, Err(Fault::OutOfBounds)),
            Some(i) => {
                let r2 = adv(r1, 1);
                let s = bank(m, b);
                if addr >= s.len() {
                    (r2, m, Err(Fault::OutOfBounds))
                } else {
                    (set_reg(r2, i, s[addr as int] as u32), m, Ok(Action::Continue))
                }
            },
        }
    }
}

/// The address of a register-relative access: `hi << 16 | value` of the base
/// register.
pub open spec fn rel_address(hi: u8, base: u32) -> u64 {
    ((hi as u64) << 16u64) | (base as u64)
}

/// LOR, LDR, LCDR: base register, high byte, target register; loads 4 (or 2)
/// bytes from `hi << 16 | base`.
pub open spec fn load_rel(b: Bank, r: Registers, m: MemoryState) -> Outcome {
    match code(r, m, 0) {
        None => (r, m, Err(Fault::OutOfBounds)),
        Some(i1) => {
            let r1 = adv(r, 1);
            match code(r1, m, 0) {
                None => (r1, m, Err(Fault::OutOfBounds)),
                Some(hi) => {
                    let addr = rel_address(hi, reg_value(r1, i1));
                    let r2 = adv(r1, 1);
                    match code(r2, m, 0) {
                        None => (r2, m, Err(Fault::OutOfBounds)),
                        Some(i2) => {
                            let r3 = adv(r2, 1);
                            let s = bank(m, b);
                            if addr + 4 > s.len() {
                                (r3, m, Err(Fault::OutOfBounds))
                            } else {
                                (
                                    load_reg(r3, i2, word32(s, addr as int), word16(s, addr as int)),
                                    m,
                                    Ok(Action::Continue),
                                )
                            }
                        },
                    }
                },
            }
        },
    }
}

/// STR, SDR, SCDR: base register, high byte, source register; stores the
/// source at `hi << 16 | base` (a drive store marks its file after reading
/// the source register's code).
pub open spec fn store_rel(b: Bank, r: Registers, m: MemoryState) -> Outcome {
    match code(r, m, 0) {
        None => (r, m, Err(Fault::OutOfBounds)),
        Some(i1) => {
            let r1 = adv(r, 1);
            match code(r1, m, 0) {
                None => (r1, m, Err(Fault::OutOfBounds)),
                Some(hi) => {
                    let addr = rel_address(hi, reg_value(r1, i1));
                    let r2 = adv(r1, 1);
                    match code(r2, m, 0) {
                        None => (r2, m, Err(Fault::OutOfBounds)),
                        Some(i2) => {
                            let r3 = adv(r2, 1);
                            match mark(m, b, addr) {
                                None => (r3, m, Err(Fault::OutOfBounds)),
                                Some(m1) => put(r3, m1, b, addr, stored(r3, i2)),
                            }
                        },
                    }
                },
            }
        },
    }
}

/// SBR, SBDR, SBCDR: base register, high byte, source register; stores the
/// source's low byte at `hi << 16 | base` (a drive store marks its file as
/// soon as the address is known).
pub open spec fn store_byte_rel(b: Bank, r: Registers, m: MemoryState) -> Outcome {
    match code(r, m, 0) {
        None => (r, m, Err(Fault::OutOfBounds)),
        Some(i1) => {
            let r1 = adv(r, 1);
            match code(r1, m, 0) {
                None => (r1, m, Err(Fault::OutOfBounds)),
                Some(hi) => {
                    let addr = rel_address(hi, reg_value(r1, i1));
                    match mark(m, b, addr) {
                        None => (r1, m, Err(Fault::OutOfBounds)),
                        Some(m1) => {
                            let r2 = adv(r1, 1);
                            match code(r2, m1, 0) {
                                None => (r2, m1, Err(Fault::OutOfBounds)),
                                Some(i2) => {
                                    let r3 = adv(r2, 1);
                                    put(r3, m1, b, addr, seq![reg_value(r3, i2) as u8])
                                },
                            }
                        },
                    }
                },
            }
        },
    }
}

/// LBR, LDBR, LCDBR: base register, high byte, target register; loads one
/// byte from `hi << 16 | base`.
pub open spec fn load_byte_rel(b: Bank, r: Registers, m: MemoryState) -> Outcome {
    match code(r, m, 0) {
        None => (r, m, Err(Fault::OutOfBounds)),
        Some(i1) => {
            let r1 = adv(r, 1);
            match code(r1, m, 0) {
                None => (r1, m, Err(Fault::OutOfBounds)),
                Some(hi) => {
                    let addr = rel_address(hi, reg_value(r1, i1));
                    let r2 = adv(r1, 1);
                    match code(r2, m, 0) {
                        None => (r2, m, Err(Fault::OutOfBounds)),
                        Some(i2) => {
                            let r3 = adv(r2, 1);
                            let s = bank(m, b);
                            if addr >= s.len() {
                                (r3, m, Err(Fault::OutOfBounds))
                            } else {
                                (set_reg(r3, i2, s[addr as int] as u32), m, Ok(Action::Continue))
                            }
                        },
                    }
                },
            }
        },
    }
}

/// LDI: a register code and a 4-byte number; a 32-bit register takes the
/// number, a 16-bit register its first two bytes (and only 2 bytes are
/// skipped), code 12 jumps to the number, code 13 sets `ptr` to it.
pub open spec fn load_immediate(r: Registers, m: MemoryState) -> Outcome {
    match code(r, m, 0) {
        None => (r, m, Err(Fault::OutOfBounds)),
        Some(i) => {
            let r1 = adv(r, 1);
            let q = r1.ptr + r1.pc;
            if q + 4 > m.ram.len() {
                (r1, m, Err(Fault::OutOfBounds))
            } else {
                let n32 = word32(m.ram, q);
                let n16 = word16(m.ram, q);
                let r2 = if i == 0x02 || i == 0x03 || i == 0x06 || i == 0x07 {
                    adv(set_reg(r1, i, n16 as u32), 2)
                } else if i <= 0x0B {
                    adv(set_reg(r1, i, n32), 4)
                } else if i == 0x0C {
                    Registers { pc: n32 as u64, ..r1 }
                } else if i == 0x0D {
                    Registers { ptr: n32 as u64, ..r1 }
                } else {
                    r1
                };
                (r2, m, Ok(Action::Continue))
            }
        },
    }
}

/// The value that MOV copies from register code `i`: a data register, `pc`
/// (12) or `ptr` (13), cut to 32 bits; 0 for any other code.
pub open spec fn mov_source(r: Registers, i: u8) -> u32 {
    if i == 0x0C {
        r.pc as u32
    } else if i == 0x0D {
        r.ptr as u32
    } else {
        reg_value(r, i)
    }
}

/// `r` after MOV writes `n` to register code `i`.
pub open spec fn mov_dest(r: Registers, i: u8, n: u32) -> Registers {
    if i == 0x0C {
        Registers { pc: n as u64, ..r }
    } else if i == 0x0D {
        Registers { ptr: n as u64, ..r }
    } else {
        set_reg(r, i, n)
    }
}

/// MOV: one byte, source register code in the low four bits and destination
/// register code in the high four bits.
pub open spec fn move_reg(r: Registers, m: MemoryState) -> Outcome {
    match code(r, m, 0) {
        None => (r, m, Err(Fault::OutOfBounds)),
        Some(x) => {
            let r1 = adv(r, 1);
            (mov_dest(r1, x / 16, mov_source(r1, x % 16)), m, Ok(Action::Continue))
        },
    }
}

/// `a + b` into a 32-bit result, or an overflow.
pub open spec fn checked_sum(a: int, b: int) -> Result<u32, Fault> {
    if a + b <= u32::MAX {
        Ok((a + b) as u32)
    } else {
        Err(Fault::Overflow)
    }
}

/// `a - b` into a 32-bit result, or an overflow.
pub open spec fn checked_diff(a: int, b: int) -> Result<u32, Fault> {
    if a >= b {
        Ok((a - b) as u32)
    } else {
        Err(Fault::Overflow)
    }
}

/// `a * b` into a 32-bit result, or an overflow.
pub open spec fn checked_product(a: int, b: int) -> Result<u32, Fault> {
    if a * b <= u32::MAX {
        Ok((a * b) as u32)
    } else {
        Err(Fault::Overflow)
    }
}

/// `a / b` (rounded down), or a division by zero.
pub open spec fn checked_quotient(a: int, b: int) -> Result<u32, Fault> {
    if b != 0 {
        Ok((a / b) as u32)
    } else {
        Err(Fault::DivideByZero)
    }
}

/// Sets result register `ar`, `br`, `cr` or `dr` (0 to 3) to `v`.
pub open spec fn set_result(r: Registers, k: int, v: Result<u32, Fault>) -> Result<Registers, Fault> {
    match v {
        Err(f) => Err(f),
        Ok(x) => Ok(
            if k == 0 {
                Registers { ar: x, ..r }
            } else if k == 1 {
                Registers { br: x, ..r }
            } else if k == 2 {
                Registers { cr: x, ..r }
            } else {
                Registers { dr: x, ..r }
            },
        ),
    }
}

/// The value of input register `k` of a group: `ax bx cx dx` (group x),
/// `ay by cy dy` (group y), `ar br cr dr` (group r), for k from 0 to 3.
pub open spec fn x_reg(r: Registers, k: int) -> int {
    if k == 0 { r.ax as int } else if k == 1 { r.bx as int } else if k == 2 { r.cx as int } else { r.dx as int }
}

/// See `x_reg`.
pub open spec fn y_reg(r: Registers, k: int) -> int {
    if k == 0 { r.ay as int } else if k == 1 { r.by as int } else if k == 2 { r.cy as int } else { r.dy as int }
}

/// See `x_reg`.
pub open spec fn r_reg(r: Registers, k: int) -> int {
    if k == 0 { r.ar as int } else if k == 1 { r.br as int } else if k == 2 { r.cr as int } else { r.dr as int }
}

/// ADD: codes 0-3 add `x + y`, 4-7 add `x + r`, 8-11 add `y + r`, into `r`
/// of the same column; any other code does nothing.
pub open spec fn add_op(r: Registers, i: u8) -> Result<Registers, Fault> {
    let k = (i % 4) as int;
    if i < 4 {
        set_result(r, k, checked_sum(x_reg(r, k), y_reg(r, k)))
    } else if i < 8 {
        set_result(r, k, checked_sum(x_reg(r, k), r_reg(r, k)))
    } else if i < 12 {
        set_result(r, k, checked_sum(y_reg(r, k), r_reg(r, k)))
    } else {
        Ok(r)
    }
}

/// SUB: codes 0-3 compute `x - y`, 4-7 `x - r`, 8-11 `y - r`, 12-15 `r - x`,
/// 16-19 `r - y`, into `r` of the same column; any other code does nothing.
pub open spec fn sub_op(r: Registers, i: u8) -> Result<Registers, Fault> {
    let k = (i % 4) as int;
    if i < 4 {
        set_result(r, k, checked_diff(x_reg(r, k), y_reg(r, k)))
    } else if i < 8 {
        set_result(r, k, checked_diff(x_reg(r, k), r_reg(r, k)))
    } else if i < 12 {
        set_result(r, k, checked_diff(y_reg(r, k), r_reg(r, k)))
    } else if i < 16 {
        set_result(r, k, checked_diff(r_reg(r, k), x_reg(r, k)))
    } else if i < 20 {
        set_result(r, k, checked_diff(r_reg(r, k), y_reg(r, k)))
    } else {
        Ok(r)
    }
}

/// MUL, DIV, AND, OR, XOR: codes 0-3 combine `x` and `y` of a column into `r`
/// of that column; any other code does nothing.
pub open spec fn arith_op(op: u8, r: Registers, i: u8) -> Result<Registers, Fault> {
    let k = i as int;
    if i >= 4 {
        Ok(r)
    } else {
        let a = x_reg(r, k);
        let b = y_reg(r, k);
        set_result(
            r,
            k,
            if op == 0x08 {
                checked_product(a, b)
            } else if op == 0x09 {
                checked_quotient(a, b)
            } else if op == 0x12 {
                Ok((a as u32) & (b as u32))
            } else if op == 0x13 {
                Ok((a as u32) | (b as u32))
            } else {
                Ok((a as u32) ^ (b as u32))
            },
        )
    }
}

/// NOT: codes 0-3 complement `ax bx cx dx`, 4-7 complement `ay by cy dy`
/// (16-bit ones as 16-bit values), into `r` of the same column.
pub open spec fn not_op(r: Registers, i: u8) -> Registers {
    match i {
        0x00 => Registers { ar: !r.ax, ..r },
        0x01 => Registers { br: !r.bx, ..r },
        0x02 => Registers { cr: (!r.cx) as u32, ..r },
        0x03 => Registers { dr: (!r.dx) as u32, ..r },
        0x04 => Registers { ar: !r.ay, ..r },
        0x05 => Registers { br: !r.by, ..r },
        0x06 => Registers { cr: (!r.cy) as u32, ..r },
        0x07 => Registers { dr: (!r.dy) as u32, ..r },
        _ => r,
    }
}

/// SHL, SHR: codes 0-3 shift `ax bx cx dx`, 4-7 shift `ay by cy dy` (as
/// 32-bit values) by `n`, into `r` of the same column; a shift by 32 or more
/// overflows.
pub open spec fn shift_op(left: bool, r: Registers, i: u8, n: u8) -> Result<Registers, Fault> {
    let k = (i % 4) as int;
    if i >= 8 {
        Ok(r)
    } else if n >= 32 {
        Err(Fault::Overflow)
    } else {
        let v = (if i < 4 {
            x_reg(r, k)
        } else {
            y_reg(r, k)
        }) as u32;
        set_result(
            r,
            k,
            Ok(
                if left {
                    v << n
                } else {
                    v >> n
                },
            ),
        )
    }
}

/// INC, DEC: the data register of code `i` plus or minus one, or an overflow.
pub open spec fn step_op(up: bool, r: Registers, i: u8) -> Result<Registers, Fault> {
    if i > 0x0B {
        Ok(r)
    } else {
        let v = reg_value(r, i) as int;
        let wide = !(i == 0x02 || i == 0x03 || i == 0x06 || i == 0x07);
        let max = if wide {
            u32::MAX as int
        } else {
            u16::MAX as int
        };
        if up && v == max {
            Err(Fault::Overflow)
        } else if !up && v == 0 {
            Err(Fault::Overflow)
        } else {
            Ok(set_reg(r, i, (if up { v + 1 } else { v - 1 }) as u32))
        }
    }
}

/// ADD, SUB, MUL, DIV, AND, OR, XOR, NOT, INC, DEC: one register code byte.
pub open spec fn alu(op: u8, r: Registers, m: MemoryState) -> Outcome {
    match code(r, m, 0) {
        None => (r, m, Err(Fault::OutOfBounds)),
        Some(i) => {
            let r1 = adv(r, 1);
            let res = if op == 0x06 {
                add_op(r1, i)
            } else if op == 0x07 {
                sub_op(r1, i)
            } else if op == 0x15 {
                Ok(not_op(r1, i))
            } else if op == 0x1F {
                step_op(true, r1, i)
            } else if op == 0x20 {
                step_op(false, r1, i)
            } else {
                arith_op(op, r1, i)
            };
            match res {
                Ok(r2) => (r2, m, Ok(Action::Continue)),
                Err(f) => (r1, m, Err(f)),
            }
        },
    }
}

/// SHL, SHR: a register code and a shift amount.
pub open spec fn shift(left: bool, r: Registers, m: MemoryState) -> Outcome {
    match code(r, m, 0) {
        None => (r, m, Err(Fault::OutOfBounds)),
        Some(i) => {
            let r1 = adv(r, 1);
            match code(r1, m, 0) {
                None => (r1, m, Err(Fault::OutOfBounds)),
                Some(n) => {
                    let r2 = adv(r1, 1);
                    match shift_op(left, r2, i, n) {
                        Ok(r3) => (r3, m, Ok(Action::Continue)),
                        Err(f) => (r2, m, Err(f)),
                    }
                },
            }
        },
    }
}

/// The value that PSH pushes for register code `i`: a data register, or `pc`
/// (code 12, cut to 32 bits); 0 for any other code.
pub open spec fn push_value(r: Registers, i: u8) -> u32 {
    if i == 0x0C {
        r.pc as u32
    } else {
        reg_value(r, i)
    }
}

/// PSH: writes the register's 4 bytes at the stack address and advances it.
pub open spec fn push(r: Registers, m: MemoryState) -> Outcome {
    match code(r, m, 0) {
        None => (r, m, Err(Fault::OutOfBounds)),
        Some(i) => {
            let r1 = adv(r, 1);
            let (r2, m2, res) = put(r1, m, Bank::Ram, r1.stck_ptr, bytes32(push_value(r1, i)));
            match res {
                Ok(a) => (Registers { stck_ptr: (r1.stck_ptr + 4) as u64, ..r2 }, m2, Ok(a)),
                Err(f) => (r2, m2, Err(f)),
            }
        },
    }
}

/// POP: moves the stack address back by 4 and loads the word there into a
/// data register (cut to 16 bits for a 16-bit one) or `pc` (code 12).
pub open spec fn pop(r: Registers, m: MemoryState) -> Outcome {
    match code(r, m, 0) {
        None => (r, m, Err(Fault::OutOfBounds)),
        Some(i) => {
            let r1 = adv(r, 1);
            if r1.stck_ptr < 4 {
                (r1, m, Err(Fault::Overflow))
            } else {
                let r2 = Registers { stck_ptr: (r1.stck_ptr - 4) as u64, ..r1 };
                if r2.stck_ptr + 4 > m.ram.len() {
                    (r2, m, Err(Fault::OutOfBounds))
                } else {
                    let v = word32(m.ram, r2.stck_ptr as int);
                    (
                        if i == 0x0C {
                            Registers { pc: v as u64, ..r2 }
                        } else {
                            set_reg(r2, i, v)
                        },
                        m,
                        Ok(Action::Continue),
                    )
                }
            }
        },
    }
}

/// RND: stores the random word `rnd` into a data register.
pub open spec fn random(r: Registers, m: MemoryState, rnd: u32) -> Outcome {
    match code(r, m, 0) {
        None => (r, m, Err(Fault::OutOfBounds)),
        Some(i) => {
            let r1 = adv(r, 1);
            (set_reg(r1, i, rnd), m, Ok(Action::Continue))
        },
    }
}

/// Whether a conditional jump with opcode `op` is taken.
pub open spec fn jump_taken(op: u8, r: Registers, core_id: u32) -> bool {
    match op {
        0x0B => r.cr == 0,
        0x0C => r.cr != 0,
        0x0D => r.cr < r.by,
        0x0E => r.cr <= r.by,
        0x0F => r.cr > r.by,
        0x10 => r.cr >= r.by,
        0x11 => r.cr == r.by,
        0x2C => r.cr == core_id,
        _ => r.cr != core_id,
    }
}

/// JMP and the conditional jumps: a 5-byte address. JMP always jumps; the
/// others skip the address and jump when their condition holds.
pub open spec fn jump(op: u8, r: Registers, m: MemoryState, core_id: u32) -> Outcome {
    let p = r.ptr + r.pc;
    if p + 5 > m.ram.len() {
        (r, m, Err(Fault::OutOfBounds))
    } else {
        let addr = word40(m.ram, p);
        if op == 0x0A {
            (Registers { pc: addr, ..r }, m, Ok(Action::Continue))
        } else {
            let r1 = adv(r, 5);
            (
                if jump_taken(op, r1, core_id) {
                    Registers { pc: addr, ..r1 }
                } else {
                    r1
                },
                m,
                Ok(Action::Continue),
            )
        }
    }
}

/// PTRM: two 4-byte numbers, the new `pc` and the new `ptr`.
pub open spec fn far_jump(r: Registers, m: MemoryState) -> Outcome {
    let p = r.ptr + r.pc;
    if p + 4 > m.ram.len() {
        (r, m, Err(Fault::OutOfBounds))
    } else {
        let new_pc = word32(m.ram, p);
        let r1 = adv(r, 4);
        let q = r1.ptr + r1.pc;
        if q + 4 > m.ram.len() {
            (r1, m, Err(Fault::OutOfBounds))
        } else {
            (Registers { pc: new_pc as u64, ptr: word32(m.ram, q) as u64, ..r1 }, m, Ok(Action::Continue))
        }
    }
}

/// What the instruction with opcode `op` does, `pc` already past the opcode.
pub open spec fn execute(op: u8, r: Registers, m: MemoryState, core_id: u32, rnd: u32) -> Outcome {
    match op {
        0x00 => (r, m, Ok(Action::Sleep(0))),
        0x01 => if m.ram.len() == 0 {
            (r, m, Err(Fault::OutOfBounds))
        } else {
            (r, MemoryState { ram: m.ram.update(0, 1u8), ..m }, Ok(Action::Continue))
        },
        0x02 => load_abs(Bank::Ram, r, m),
        0x03 => store_abs(Bank::Ram, r, m),
        0x04 => load_immediate(r, m),
        0x05 => move_reg(r, m),
        0x06 | 0x07 | 0x08 | 0x09 | 0x12 | 0x13 | 0x14 | 0x15 | 0x1F | 0x20 => alu(op, r, m),
        0x0A | 0x0B | 0x0C | 0x0D | 0x0E | 0x0F | 0x10 | 0x11 | 0x2C | 0x2D => jump(op, r, m, core_id),
        0x16 => shift(true, r, m),
        0x17 => shift(false, r, m),
        0x18 => push(r, m),
        0x19 => pop(r, m),
        0x1A => random(r, m, rnd),
        0x1B => load_rel(Bank::Ram, r, m),
        0x1C => store_rel(Bank::Ram, r, m),
        0x1D => store_byte_abs(Bank::Ram, r, m),
        0x1E => store_byte_rel(Bank::Ram, r, m),
        0x21 => (r, m, Ok(Action::Sleep(1))),
        0x22 => load_byte_abs(Bank::Ram, r, m),
        0x23 => load_byte_rel(Bank::Ram, r, m),
        0x24 => load_abs(Bank::Drive, r, m),
        0x25 => store_abs(Bank::Drive, r, m),
        0x26 => load_rel(Bank::Drive, r, m),
        0x27 => store_rel(Bank::Drive, r, m),
        0x28 => store_byte_abs(Bank::Drive, r, m),
        0x29 => store_byte_rel(Bank::Drive, r, m),
        0x2A => load_byte_abs(Bank::Drive, r, m),
        0x2B => load_byte_rel(Bank::Drive, r, m),
        0x2E => load_abs(Bank::Cd, r, m),
        0x2F => store_abs(Bank::Cd, r, m),
        0x30 => load_rel(Bank::Cd, r, m),
        0x31 => store_rel(Bank::Cd, r, m),
        0x32 => store_byte_abs(Bank::Cd, r, m),
        0x33 => store_byte_rel(Bank::Cd, r, m),
        0x34 => load_byte_abs(Bank::Cd, r, m),
        0x35 => load_byte_rel(Bank::Cd, r, m),
        0x36 => far_jump(r, m),
        _ => (r, m, Ok(Action::Continue)),
    }
}

/// One step of a core with number `core_id`; `rnd` is the word that RND stores.
pub open spec fn step_spec(r: Registers, m: MemoryState, core_id: u32, rnd: u32) -> Outcome {
    match code(r, m, 0) {
        None => (r, m, Err(Fault::OutOfBounds)),
        Some(op) => execute(op, adv(r, 1), m, core_id, rnd),
    }
}


impl Registers {
    /// Zero registers, for outcomes whose registers do not matter.
    pub open spec fn new_spec() -> Registers {
        crate::machine::zero_registers()
    }
}

/// Registers, memories and result agree with an outcome.
pub open spec fn agrees(r: Registers, m: MemoryState, res: Result<Action, Fault>, o: Outcome) -> bool {
    r == o.0 && m == o.1 && res == o.2
}

fn fetch(reg: &Registers, mem: &Memory, k: u64) -> (r: Option<u8>)
    requires
        core_wf(*reg, mem@),
        k <= 8,
    ensures
        r == code(*reg, mem@, k as int),
{
    let i = reg.ptr + reg.pc + k;
    if i < mem.ram.len() as u64 {
        Some(mem.ram[i as usize])
    } else {
        None
    }
}

fn read40(s: &Vec<u8>, i: u64) -> (v: u64)
    requires
        i + 5 <= s@.len(),
    ensures
        v == word40(s@, i as int),
        v < 0x100_0000_0000,
{
    let n = s.len();
    assert(i < n);
    let j = i as usize;
    let (b0, b1, b2, b3, b4) = (s[j], s[j + 1], s[j + 2], s[j + 3], s[j + 4]);
    let v = ((b0 as u64) << 32) | ((b1 as u64) << 24) | ((b2 as u64) << 16) | ((b3 as u64) << 8) | (
    b4 as u64);
    assert(v < 0x100_0000_0000) by (bit_vector)
        requires
            v == ((b0 as u64) << 32) | ((b1 as u64) << 24) | ((b2 as u64) << 16) | ((b3 as u64) << 8)
                | (b4 as u64),
    ;
    v
}

/// The address of a register-relative access is below 2^32.
proof fn lemma_rel_address_small(hi: u8, base: u32)
    ensures
        rel_address(hi, base) < 0x1_0000_0000,
{
    assert((((hi as u64) << 16u64) | (base as u64)) < 0x1_0000_0000u64) by (bit_vector);
}

fn read32(s: &Vec<u8>, i: u64) -> (v: u32)
    requires
        i + 4 <= s@.len(),
    ensures
        v == word32(s@, i as int),
{
    let n = s.len();
    assert(i < n);
    let j = i as usize;
    ((s[j] as u32) << 24) | ((s[j + 1] as u32) << 16) | ((s[j + 2] as u32) << 8) | (s[j + 3] as u32)
}

fn read16(s: &Vec<u8>, i: u64) -> (v: u16)
    requires
        i + 2 <= s@.len(),
    ensures
        v == word16(s@, i as int),
{
    let n = s.len();
    assert(i < n);
    let j = i as usize;
    ((s[j] as u16) << 8) | (s[j + 1] as u16)
}

fn reg_value_exec(r: &Registers, i: u8) -> (v: u32)
    ensures
        v == reg_value(*r, i),
{
    match i {
        0x00 => r.ax,
        0x01 => r.bx,
        0x02 => r.cx as u32,
        0x03 => r.dx as u32,
        0x04 => r.ay,
        0x05 => r.by,
        0x06 => r.cy as u32,
        0x07 => r.dy as u32,
        0x08 => r.ar,
        0x09 => r.br,
        0x0A => r.cr,
        0x0B => r.dr,
        _ => 0,
    }
}

fn set_reg_exec(r: &mut Registers, i: u8, v: u32)
    ensures
        *final(r) == set_reg(*old(r), i, v),
{
    match i {
        0x00 => r.ax = v,
        0x01 => r.bx = v,
        0x02 => r.cx = v as u16,
        0x03 => r.dx = v as u16,
        0x04 => r.ay = v,
        0x05 => r.by = v,
        0x06 => r.cy = v as u16,
        0x07 => r.dy = v as u16,
        0x08 => r.ar = v,
        0x09 => r.br = v,
        0x0A => r.cr = v,
        0x0B => r.dr = v,
        _ => {},
    }
}

fn is_short_code(i: u8) -> (b: bool)
    ensures
        b == (i == 0x02 || i == 0x03 || i == 0x06 || i == 0x07),
{
    i == 0x02 || i == 0x03 || i == 0x06 || i == 0x07
}

fn stored_exec(r: &Registers, i: u8) -> (v: Vec<u8>)
    ensures
        v@ == stored(*r, i),
        v@.len() <= 4,
{
    if is_short_code(i) {
        let x = reg_value_exec(r, i) as u16;
        let v = vec![(x >> 8) as u8, x as u8];
        assert(v@ =~= bytes16(x));
        v
    } else if i <= 0x0B {
        let x = reg_value_exec(r, i);
        let v = vec![(x >> 24) as u8, (x >> 16) as u8, (x >> 8) as u8, x as u8];
        assert(v@ =~= bytes32(x));
        v
    } else {
        let x: u16 = 0;
        let v = vec![(x >> 8) as u8, x as u8];
        assert(v@ =~= bytes16(x));
        v
    }
}

fn bank_len(mem: &Memory, b: Bank) -> (n: u64)
    requires
        crate::machine::memory_wf(mem@),
    ensures
        n == bank(mem@, b).len(),
{
    match b {
        Bank::Ram => mem.ram.len() as u64,
        Bank::Drive => mem.drive.len() as u64,
        Bank::Cd => mem.cd.len() as u64,
    }
}

fn bank_read32(mem: &Memory, b: Bank, addr: u64) -> (r: (u32, u16))
    requires
        addr + 4 <= bank(mem@, b).len(),
    ensures
        r == (word32(bank(mem@, b), addr as int), word16(bank(mem@, b), addr as int)),
{
    match b {
        Bank::Ram => (read32(&mem.ram, addr), read16(&mem.ram, addr)),
        Bank::Drive => (read32(&mem.drive, addr), read16(&mem.drive, addr)),
        Bank::Cd => (read32(&mem.cd, addr), read16(&mem.cd, addr)),
    }
}

fn bank_read8(mem: &Memory, b: Bank, addr: u64) -> (r: u8)
    requires
        addr < bank(mem@, b).len(),
    ensures
        r == bank(mem@, b)[addr as int],
{
    match b {
        Bank::Ram => {
            let n = mem.ram.len();
            mem.ram[addr as usize]
        },
        Bank::Drive => {
            let n = mem.drive.len();
            mem.drive[addr as usize]
        },
        Bank::Cd => {
            let n = mem.cd.len();
            mem.cd[addr as usize]
        },
    }
}

fn put_exec(mem: &mut Memory, b: Bank, addr: u64, data: &Vec<u8>) -> (res: Result<Action, Fault>)
    requires
        addr <= 0x200_0000_0000,
        data@.len() <= 4,
    ensures
        final(mem)@ == put(Registers::new_spec(), old(mem)@, b, addr, data@).1,
        res == put(Registers::new_spec(), old(mem)@, b, addr, data@).2,
{
    let fits = match b {
        Bank::Ram => write_bytes(&mut mem.ram, addr, data.as_slice()),
        Bank::Drive => write_bytes(&mut mem.drive, addr, data.as_slice()),
        Bank::Cd => write_bytes(&mut mem.cd, addr, data.as_slice()),
    };
    if fits {
        Ok(Action::Continue)
    } else {
        Err(Fault::OutOfBounds)
    }
}

fn mark_exec(mem: &mut Memory, b: Bank, addr: u64) -> (ok: bool)
    ensures
        match mark(old(mem)@, b, addr) {
            None => !ok && final(mem)@ == old(mem)@,
            Some(m1) => ok && final(mem)@ == m1,
        },
{
    if b != Bank::Drive {
        return true;
    }
    let f = addr / 0x10_0000;
    if f < mem.drive_flags.len() as u64 {
        mem.drive_flags.set(f as usize, true);
        true
    } else {
        false
    }
}


fn load_abs_exec(reg: &mut Registers, mem: &mut Memory, b: Bank) -> (res: Result<Action, Fault>)
    requires
        core_wf(*old(reg), old(mem)@),
    ensures
        agrees(*final(reg), final(mem)@, res, load_abs(b, *old(reg), old(mem)@)),
{
    let p = reg.ptr + reg.pc;
    if p + 5 > mem.ram.len() as u64 {
        return Err(Fault::OutOfBounds);
    }
    let addr = read40(&mem.ram, p);
    reg.pc = reg.pc + 5;
    let i = match fetch(reg, mem, 0) {
        None => {
            return Err(Fault::OutOfBounds);
        },
        Some(i) => i,
    };
    reg.pc = reg.pc + 1;
    if addr + 4 > bank_len(mem, b) {
        return Err(Fault::OutOfBounds);
    }
    let (n32, n16) = bank_read32(mem, b, addr);
    if is_short_code(i) {
        set_reg_exec(reg, i, n16 as u32);
    } else {
        set_reg_exec(reg, i, n32);
    }
    Ok(Action::Continue)
}

fn store_abs_exec(reg: &mut Registers, mem: &mut Memory, b: Bank, whole: bool) -> (res: Result<
    Action,
    Fault,
>)
    requires
        core_wf(*old(reg), old(mem)@),
    ensures
        agrees(
            *final(reg),
            final(mem)@,
            res,
            if whole {
                store_abs(b, *old(reg), old(mem)@)
            } else {
                store_byte_abs(b, *old(reg), old(mem)@)
            },
        ),
{
    let p = reg.ptr + reg.pc;
    if p + 5 > mem.ram.len() as u64 {
        return Err(Fault::OutOfBounds);
    }
    let addr = read40(&mem.ram, p);
    if !mark_exec(mem, b, addr) {
        return Err(Fault::OutOfBounds);
    }
    reg.pc = reg.pc + 5;
    let i = match fetch(reg, mem, 0) {
        None => {
            return Err(Fault::OutOfBounds);
        },
        Some(i) => i,
    };
    reg.pc = reg.pc + 1;
    let data = if whole {
        stored_exec(reg, i)
    } else {
        let v = vec![reg_value_exec(reg, i) as u8];
        assert(v@ =~= seq![reg_value(*reg, i) as u8]);
        v
    };
    put_exec(mem, b, addr, &data)
}

fn load_byte_abs_exec(reg: &mut Registers, mem: &mut Memory, b: Bank) -> (res: Result<Action, Fault>)
    requires
        core_wf(*old(reg), old(mem)@),
    ensures
        agrees(*final(reg), final(mem)@, res, load_byte_abs(b, *old(reg), old(mem)@)),
{
    let p = reg.ptr + reg.pc;
    if p + 5 > mem.ram.len() as u64 {
        return Err(Fault::OutOfBounds);
    }
    let addr = read40(&mem.ram, p);
    reg.pc = reg.pc + 5;
    let i = match fetch(reg, mem, 0) {
        None => {
            return Err(Fault::OutOfBounds);
        },
        Some(i) => i,
    };
    reg.pc = reg.pc + 1;
    if addr >= bank_len(mem, b) {
        return Err(Fault::OutOfBounds);
    }
    let x = bank_read8(mem, b, addr);
    set_reg_exec(reg, i, x as u32);
    Ok(Action::Continue)
}

/// Reads the base register code and the high byte of a register-relative
/// access, leaving `pc` past both; gives the address.
fn rel_prefix(reg: &mut Registers, mem: &Memory) -> (r: Option<u64>)
    requires
        core_wf(*old(reg), mem@),
    ensures
        match code(*old(reg), mem@, 0) {
            None => r is None && *final(reg) == *old(reg),
            Some(i1) => {
                let r1 = adv(*old(reg), 1);
                match code(r1, mem@, 0) {
                    None => r is None && *final(reg) == r1,
                    Some(hi) => r == Some(rel_address(hi, reg_value(r1, i1))) && *final(reg) == r1,
                }
            },
        },
        core_wf(*final(reg), mem@),
{
    let i1 = match fetch(reg, mem, 0) {
        None => {
            return None;
        },
        Some(i) => i,
    };
    reg.pc = reg.pc + 1;
    let hi = match fetch(reg, mem, 0) {
        None => {
            return None;
        },
        Some(h) => h,
    };
    let base = reg_value_exec(reg, i1);
    proof {
        lemma_rel_address_small(hi, base);
    }
    Some(((hi as u64) << 16) | (base as u64))
}

fn load_rel_exec(reg: &mut Registers, mem: &mut Memory, b: Bank, whole: bool) -> (res: Result<
    Action,
    Fault,
>)
    requires
        core_wf(*old(reg), old(mem)@),
    ensures
        agrees(
            *final(reg),
            final(mem)@,
            res,
            if whole {
                load_rel(b, *old(reg), old(mem)@)
            } else {
                load_byte_rel(b, *old(reg), old(mem)@)
            },
        ),
{
    let addr = match rel_prefix(reg, mem) {
        None => {
            return Err(Fault::OutOfBounds);
        },
        Some(a) => a,
    };
    proof {
        let i1 = code(*old(reg), old(mem)@, 0)->0;
        let r1 = adv(*old(reg), 1);
        lemma_rel_address_small(code(r1, old(mem)@, 0)->0, reg_value(r1, i1));
    }
    reg.pc = reg.pc + 1;
    let i2 = match fetch(reg, mem, 0) {
        None => {
            return Err(Fault::OutOfBounds);
        },
        Some(i) => i,
    };
    reg.pc = reg.pc + 1;
    if whole {
        if addr + 4 > bank_len(mem, b) {
            return Err(Fault::OutOfBounds);
        }
        let (n32, n16) = bank_read32(mem, b, addr);
        if is_short_code(i2) {
            set_reg_exec(reg, i2, n16 as u32);
        } else {
            set_reg_exec(reg, i2, n32);
        }
    } else {
        if addr >= bank_len(mem, b) {
            return Err(Fault::OutOfBounds);
        }
        let x = bank_read8(mem, b, addr);
        set_reg_exec(reg, i2, x as u32);
    }
    Ok(Action::Continue)
}

fn store_rel_exec(reg: &mut Registers, mem: &mut Memory, b: Bank) -> (res: Result<Action, Fault>)
    requires
        core_wf(*old(reg), old(mem)@),
    ensures
        agrees(*final(reg), final(mem)@, res, store_rel(b, *old(reg), old(mem)@)),
{
    let addr = match rel_prefix(reg, mem) {
        None => {
            return Err(Fault::OutOfBounds);
        },
        Some(a) => a,
    };
    proof {
        let i1 = code(*old(reg), old(mem)@, 0)->0;
        let r1 = adv(*old(reg), 1);
        lemma_rel_address_small(code(r1, old(mem)@, 0)->0, reg_value(r1, i1));
    }
    reg.pc = reg.pc + 1;
    let i2 = match fetch(reg, mem, 0) {
        None => {
            return Err(Fault::OutOfBounds);
        },
        Some(i) => i,
    };
    reg.pc = reg.pc + 1;
    if !mark_exec(mem, b, addr) {
        return Err(Fault::OutOfBounds);
    }
    let data = stored_exec(reg, i2);
    put_exec(mem, b, addr, &data)
}

fn store_byte_rel_exec(reg: &mut Registers, mem: &mut Memory, b: Bank) -> (res: Result<Action, Fault>)
    requires
        core_wf(*old(reg), old(mem)@),
    ensures
        agrees(*final(reg), final(mem)@, res, store_byte_rel(b, *old(reg), old(mem)@)),
{
    let addr = match rel_prefix(reg, mem) {
        None => {
            return Err(Fault::OutOfBounds);
        },
        Some(a) => a,
    };
    proof {
        let i1 = code(*old(reg), old(mem)@, 0)->0;
        let r1 = adv(*old(reg), 1);
        lemma_rel_address_small(code(r1, old(mem)@, 0)->0, reg_value(r1, i1));
    }
    if !mark_exec(mem, b, addr) {
        return Err(Fault::OutOfBounds);
    }
    reg.pc = reg.pc + 1;
    let i2 = match fetch(reg, mem, 0) {
        None => {
            return Err(Fault::OutOfBounds);
        },
        Some(i) => i,
    };
    reg.pc = reg.pc + 1;
    let data = vec![reg_value_exec(reg, i2) as u8];
    assert(data@ =~= seq![reg_value(*reg, i2) as u8]);
    put_exec(mem, b, addr, &data)
}


/// A register-only operation agrees with its specification: on success the
/// registers are those it gives, on failure they are unchanged.
pub open spec fn op_agrees(spec: Result<Registers, Fault>, before: Registers, after: Registers, res: Result<(), Fault>) -> bool {
    match spec {
        Ok(r2) => res is Ok && after == r2,
        Err(f) => res == Err::<(), Fault>(f) && after == before,
    }
}

fn column(r: &Registers, group: u8, k: u8) -> (v: u32)
    requires
        k < 4,
    ensures
        v as int == (if group == 0 {
            x_reg(*r, k as int)
        } else if group == 1 {
            y_reg(*r, k as int)
        } else {
            r_reg(*r, k as int)
        }),
{
    if group == 0 {
        if k == 0 { r.ax } else if k == 1 { r.bx } else if k == 2 { r.cx as u32 } else { r.dx as u32 }
    } else if group == 1 {
        if k == 0 { r.ay } else if k == 1 { r.by } else if k == 2 { r.cy as u32 } else { r.dy as u32 }
    } else {
        if k == 0 { r.ar } else if k == 1 { r.br } else if k == 2 { r.cr } else { r.dr }
    }
}

fn set_result_exec(r: &mut Registers, k: u8, x: u32)
    requires
        k < 4,
    ensures
        set_result(*old(r), k as int, Ok(x)) == Ok::<Registers, Fault>(*final(r)),
{
    if k == 0 {
        r.ar = x;
    } else if k == 1 {
        r.br = x;
    } else if k == 2 {
        r.cr = x;
    } else {
        r.dr = x;
    }
}

fn add_exec(r: &mut Registers, i: u8) -> (res: Result<(), Fault>)
    ensures
        op_agrees(add_op(*old(r), i), *old(r), *final(r), res),
{
    let k = i % 4;
    let (a, b) = if i < 4 {
        (column(r, 0, k), column(r, 1, k))
    } else if i < 8 {
        (column(r, 0, k), column(r, 2, k))
    } else if i < 12 {
        (column(r, 1, k), column(r, 2, k))
    } else {
        return Ok(());
    };
    if a as u64 + b as u64 > u32::MAX as u64 {
        return Err(Fault::Overflow);
    }
    set_result_exec(r, k, a + b);
    Ok(())
}

fn sub_exec(r: &mut Registers, i: u8) -> (res: Result<(), Fault>)
    ensures
        op_agrees(sub_op(*old(r), i), *old(r), *final(r), res),
{
    let k = i % 4;
    let (a, b) = if i < 4 {
        (column(r, 0, k), column(r, 1, k))
    } else if i < 8 {
        (column(r, 0, k), column(r, 2, k))
    } else if i < 12 {
        (column(r, 1, k), column(r, 2, k))
    } else if i < 16 {
        (column(r, 2, k), column(r, 0, k))
    } else if i < 20 {
        (column(r, 2, k), column(r, 1, k))
    } else {
        return Ok(());
    };
    if a < b {
        return Err(Fault::Overflow);
    }
    set_result_exec(r, k, a - b);
    Ok(())
}

fn arith_exec(op: u8, r: &mut Registers, i: u8) -> (res: Result<(), Fault>)
    ensures
        op_agrees(arith_op(op, *old(r), i), *old(r), *final(r), res),
{
    if i >= 4 {
        return Ok(());
    }
    let a = column(r, 0, i);
    let b = column(r, 1, i);
    let x: u32 = if op == 0x08 {
        assert((a as u64) * (b as u64) <= 0xFFFF_FFFE_0000_0001u64) by (nonlinear_arith)
            requires
                a <= 0xFFFF_FFFFu32,
                b <= 0xFFFF_FFFFu32,
        ;
        let wide: u64 = (a as u64) * (b as u64);
        if wide > u32::MAX as u64 {
            return Err(Fault::Overflow);
        }
        wide as u32
    } else if op == 0x09 {
        if b == 0 {
            return Err(Fault::DivideByZero);
        }
        a / b
    } else if op == 0x12 {
        a & b
    } else if op == 0x13 {
        a | b
    } else {
        a ^ b
    };
    set_result_exec(r, i, x);
    Ok(())
}

fn not_exec(r: &mut Registers, i: u8)
    ensures
        *final(r) == not_op(*old(r), i),
{
    match i {
        0x00 => r.ar = !r.ax,
        0x01 => r.br = !r.bx,
        0x02 => r.cr = (!r.cx) as u32,
        0x03 => r.dr = (!r.dx) as u32,
        0x04 => r.ar = !r.ay,
        0x05 => r.br = !r.by,
        0x06 => r.cr = (!r.cy) as u32,
        0x07 => r.dr = (!r.dy) as u32,
        _ => {},
    }
}

fn step_exec(up: bool, r: &mut Registers, i: u8) -> (res: Result<(), Fault>)
    ensures
        op_agrees(step_op(up, *old(r), i), *old(r), *final(r), res),
{
    if i > 0x0B {
        return Ok(());
    }
    let v = reg_value_exec(r, i);
    let max: u32 = if is_short_code(i) {
        0xFFFF
    } else {
        0xFFFF_FFFF
    };
    if up && v == max {
        return Err(Fault::Overflow);
    }
    if !up && v == 0 {
        return Err(Fault::Overflow);
    }
    let w = if up {
        v + 1
    } else {
        v - 1
    };
    set_reg_exec(r, i, w);
    Ok(())
}

fn shift_exec(left: bool, r: &mut Registers, i: u8, n: u8) -> (res: Result<(), Fault>)
    ensures
        op_agrees(shift_op(left, *old(r), i, n), *old(r), *final(r), res),
{
    if i >= 8 {
        return Ok(());
    }
    if n >= 32 {
        return Err(Fault::Overflow);
    }
    let k = i % 4;
    let v = if i < 4 {
        column(r, 0, k)
    } else {
        column(r, 1, k)
    };
    let x = if left {
        v << n
    } else {
        v >> n
    };
    set_result_exec(r, k, x);
    Ok(())
}

fn alu_exec(op: u8, reg: &mut Registers, mem: &Memory) -> (res: Result<Action, Fault>)
    requires
        core_wf(*old(reg), mem@),
    ensures
        agrees(*final(reg), mem@, res, alu(op, *old(reg), mem@)),
{
    let i = match fetch(reg, mem, 0) {
        None => {
            return Err(Fault::OutOfBounds);
        },
        Some(i) => i,
    };
    reg.pc = reg.pc + 1;
    let r = if op == 0x06 {
        add_exec(reg, i)
    } else if op == 0x07 {
        sub_exec(reg, i)
    } else if op == 0x15 {
        not_exec(reg, i);
        Ok(())
    } else if op == 0x1F {
        step_exec(true, reg, i)
    } else if op == 0x20 {
        step_exec(false, reg, i)
    } else {
        arith_exec(op, reg, i)
    };
    match r {
        Ok(_) => Ok(Action::Continue),
        Err(f) => Err(f),
    }
}

fn shift_instr_exec(left: bool, reg: &mut Registers, mem: &Memory) -> (res: Result<Action, Fault>)
    requires
        core_wf(*old(reg), mem@),
    ensures
        agrees(*final(reg), mem@, res, shift(left, *old(reg), mem@)),
{
    let i = match fetch(reg, mem, 0) {
        None => {
            return Err(Fault::OutOfBounds);
        },
        Some(i) => i,
    };
    reg.pc = reg.pc + 1;
    let n = match fetch(reg, mem, 0) {
        None => {
            return Err(Fault::OutOfBounds);
        },
        Some(n) => n,
    };
    reg.pc = reg.pc + 1;
    match shift_exec(left, reg, i, n) {
        Ok(_) => Ok(Action::Continue),
        Err(f) => Err(f),
    }
}

fn load_immediate_exec(reg: &mut Registers, mem: &Memory) -> (res: Result<Action, Fault>)
    requires
        core_wf(*old(reg), mem@),
    ensures
        agrees(*final(reg), mem@, res, load_immediate(*old(reg), mem@)),
{
    let i = match fetch(reg, mem, 0) {
        None => {
            return Err(Fault::OutOfBounds);
        },
        Some(i) => i,
    };
    reg.pc = reg.pc + 1;
    let q = reg.ptr + reg.pc;
    if q + 4 > mem.ram.len() as u64 {
        return Err(Fault::OutOfBounds);
    }
    let n32 = read32(&mem.ram, q);
    let n16 = read16(&mem.ram, q);
    if is_short_code(i) {
        set_reg_exec(reg, i, n16 as u32);
        reg.pc = reg.pc + 2;
    } else if i <= 0x0B {
        set_reg_exec(reg, i, n32);
        reg.pc = reg.pc + 4;
    } else if i == 0x0C {
        reg.pc = n32 as u64;
    } else if i == 0x0D {
        reg.ptr = n32 as u64;
    }
    Ok(Action::Continue)
}

fn move_exec(reg: &mut Registers, mem: &Memory) -> (res: Result<Action, Fault>)
    requires
        core_wf(*old(reg), mem@),
    ensures
        agrees(*final(reg), mem@, res, move_reg(*old(reg), mem@)),
{
    let x = match fetch(reg, mem, 0) {
        None => {
            return Err(Fault::OutOfBounds);
        },
        Some(x) => x,
    };
    reg.pc = reg.pc + 1;
    let src = x % 16;
    let dst = x / 16;
    let n: u32 = if src == 0x0C {
        reg.pc as u32
    } else if src == 0x0D {
        reg.ptr as u32
    } else {
        reg_value_exec(reg, src)
    };
    if dst == 0x0C {
        reg.pc = n as u64;
    } else if dst == 0x0D {
        reg.ptr = n as u64;
    } else {
        set_reg_exec(reg, dst, n);
    }
    Ok(Action::Continue)
}

fn push_exec(reg: &mut Registers, mem: &mut Memory) -> (res: Result<Action, Fault>)
    requires
        core_wf(*old(reg), old(mem)@),
    ensures
        agrees(*final(reg), final(mem)@, res, push(*old(reg), old(mem)@)),
{
    let i = match fetch(reg, mem, 0) {
        None => {
            return Err(Fault::OutOfBounds);
        },
        Some(i) => i,
    };
    reg.pc = reg.pc + 1;
    let v: u32 = if i == 0x0C {
        reg.pc as u32
    } else {
        reg_value_exec(reg, i)
    };
    let data = vec![(v >> 24) as u8, (v >> 16) as u8, (v >> 8) as u8, v as u8];
    assert(data@ =~= bytes32(v));
    let r = put_exec(mem, Bank::Ram, reg.stck_ptr, &data);
    if r.is_ok() {
        reg.stck_ptr = reg.stck_ptr + 4;
    }
    r
}

fn pop_exec(reg: &mut Registers, mem: &Memory) -> (res: Result<Action, Fault>)
    requires
        core_wf(*old(reg), mem@),
    ensures
        agrees(*final(reg), mem@, res, pop(*old(reg), mem@)),
{
    let i = match fetch(reg, mem, 0) {
        None => {
            return Err(Fault::OutOfBounds);
        },
        Some(i) => i,
    };
    reg.pc = reg.pc + 1;
    if reg.stck_ptr < 4 {
        return Err(Fault::Overflow);
    }
    reg.stck_ptr = reg.stck_ptr - 4;
    if reg.stck_ptr + 4 > mem.ram.len() as u64 {
        return Err(Fault::OutOfBounds);
    }
    let v = read32(&mem.ram, reg.stck_ptr);
    if i == 0x0C {
        reg.pc = v as u64;
    } else {
        set_reg_exec(reg, i, v);
    }
    Ok(Action::Continue)
}

fn random_exec(reg: &mut Registers, mem: &Memory, rnd: u32) -> (res: Result<Action, Fault>)
    requires
        core_wf(*old(reg), mem@),
    ensures
        agrees(*final(reg), mem@, res, random(*old(reg), mem@, rnd)),
{
    let i = match fetch(reg, mem, 0) {
        None => {
            return Err(Fault::OutOfBounds);
        },
        Some(i) => i,
    };
    reg.pc = reg.pc + 1;
    set_reg_exec(reg, i, rnd);
    Ok(Action::Continue)
}

fn taken_exec(op: u8, r: &Registers, core_id: u32) -> (b: bool)
    ensures
        b == jump_taken(op, *r, core_id),
{
    match op {
        0x0B => r.cr == 0,
        0x0C => r.cr != 0,
        0x0D => r.cr < r.by,
        0x0E => r.cr <= r.by,
        0x0F => r.cr > r.by,
        0x10 => r.cr >= r.by,
        0x11 => r.cr == r.by,
        0x2C => r.cr == core_id,
        _ => r.cr != core_id,
    }
}

fn jump_exec(op: u8, reg: &mut Registers, mem: &Memory, core_id: u32) -> (res: Result<Action, Fault>)
    requires
        core_wf(*old(reg), mem@),
    ensures
        agrees(*final(reg), mem@, res, jump(op, *old(reg), mem@, core_id)),
{
    let p = reg.ptr + reg.pc;
    if p + 5 > mem.ram.len() as u64 {
        return Err(Fault::OutOfBounds);
    }
    let addr = read40(&mem.ram, p);
    if op == 0x0A {
        reg.pc = addr;
    } else {
        reg.pc = reg.pc + 5;
        if taken_exec(op, reg, core_id) {
            reg.pc = addr;
        }
    }
    Ok(Action::Continue)
}

fn far_jump_exec(reg: &mut Registers, mem: &Memory) -> (res: Result<Action, Fault>)
    requires
        core_wf(*old(reg), mem@),
    ensures
        agrees(*final(reg), mem@, res, far_jump(*old(reg), mem@)),
{
    let p = reg.ptr + reg.pc;
    if p + 4 > mem.ram.len() as u64 {
        return Err(Fault::OutOfBounds);
    }
    let new_pc = read32(&mem.ram, p);
    reg.pc = reg.pc + 4;
    let q = reg.ptr + reg.pc;
    if q + 4 > mem.ram.len() as u64 {
        return Err(Fault::OutOfBounds);
    }
    let new_ptr = read32(&mem.ram, q);
    reg.pc = new_pc as u64;
    reg.ptr = new_ptr as u64;
    Ok(Action::Continue)
}

fn halt_exec(mem: &mut Memory) -> (res: Result<Action, Fault>)
    ensures
        if old(mem)@.ram.len() == 0 {
            res == Err::<Action, Fault>(Fault::OutOfBounds) && final(mem)@ == old(mem)@
        } else {
            res == Ok::<Action, Fault>(Action::Continue) && final(mem)@ == (MemoryState {
                ram: old(mem)@.ram.update(0, 1u8),
                ..old(mem)@
            })
        },
{
    if mem.ram.len() == 0 {
        return Err(Fault::OutOfBounds);
    }
    mem.ram.set(0, 1);
    Ok(Action::Continue)
}

/// Carries out the instruction with opcode `op`, `pc` already past the opcode.
#[verifier::rlimit(40)]
fn execute_exec(op: u8, reg: &mut Registers, mem: &mut Memory, core_id: u32, rnd: u32) -> (res: Result<Action, Fault>)
    requires
        core_wf(*old(reg), old(mem)@),
    ensures
        agrees(*final(reg), final(mem)@, res, execute(op, *old(reg), old(mem)@, core_id, rnd)),
{
    match op {
        0x00 => Ok(Action::Sleep(0)),
        0x01 => halt_exec(mem),
        0x02 => load_abs_exec(reg, mem, Bank::Ram),
        0x03 => store_abs_exec(reg, mem, Bank::Ram, true),
        0x04 => load_immediate_exec(reg, mem),
        0x05 => move_exec(reg, mem),
        0x06 | 0x07 | 0x08 | 0x09 | 0x12 | 0x13 | 0x14 | 0x15 | 0x1F | 0x20 => alu_exec(op, reg, mem),
        0x0A | 0x0B | 0x0C | 0x0D | 0x0E | 0x0F | 0x10 | 0x11 | 0x2C | 0x2D => jump_exec(
            op,
            reg,
            mem,
            core_id,
        ),
        0x16 => shift_instr_exec(true, reg, mem),
        0x17 => shift_instr_exec(false, reg, mem),
        0x18 => push_exec(reg, mem),
        0x19 => pop_exec(reg, mem),
        0x1A => random_exec(reg, mem, rnd),
        0x1B => load_rel_exec(reg, mem, Bank::Ram, true),
        0x1C => store_rel_exec(reg, mem, Bank::Ram),
        0x1D => store_abs_exec(reg, mem, Bank::Ram, false),
        0x1E => store_byte_rel_exec(reg, mem, Bank::Ram),
        0x21 => Ok(Action::Sleep(1)),
        0x22 => load_byte_abs_exec(reg, mem, Bank::Ram),
        0x23 => load_rel_exec(reg, mem, Bank::Ram, false),
        0x24 => load_abs_exec(reg, mem, Bank::Drive),
        0x25 => store_abs_exec(reg, mem, Bank::Drive, true),
        0x26 => load_rel_exec(reg, mem, Bank::Drive, true),
        0x27 => store_rel_exec(reg, mem, Bank::Drive),
        0x28 => store_abs_exec(reg, mem, Bank::Drive, false),
        0x29 => store_byte_rel_exec(reg, mem, Bank::Drive),
        0x2A => load_byte_abs_exec(reg, mem, Bank::Drive),
        0x2B => load_rel_exec(reg, mem, Bank::Drive, false),
        0x2E => load_abs_exec(reg, mem, Bank::Cd),
        0x2F => store_abs_exec(reg, mem, Bank::Cd, true),
        0x30 => load_rel_exec(reg, mem, Bank::Cd, true),
        0x31 => store_rel_exec(reg, mem, Bank::Cd),
        0x32 => store_abs_exec(reg, mem, Bank::Cd, false),
        0x33 => store_byte_rel_exec(reg, mem, Bank::Cd),
        0x34 => load_byte_abs_exec(reg, mem, Bank::Cd),
        0x35 => load_rel_exec(reg, mem, Bank::Cd, false),
        0x36 => far_jump_exec(reg, mem),
        _ => Ok(Action::Continue),
    }
}

/// The opcode RND, the one instruction whose outcome depends on a random word.
pub const RND_OPCODE: u8 = 0x1A;

/// Carries out one instruction of core `core_id` and says what to do next;
/// `rnd` is the word that an RND instruction stores.
pub fn step_with(reg: &mut Registers, mem: &mut Memory, core_id: u32, rnd: u32) -> (res: Result<
    Action,
    Fault,
>)
    requires
        core_wf(*old(reg), old(mem)@),
    ensures
        agrees(*final(reg), final(mem)@, res, step_spec(*old(reg), old(mem)@, core_id, rnd)),
{
    let op = match fetch(reg, mem, 0) {
        None => {
            return Err(Fault::OutOfBounds);
        },
        Some(op) => op,
    };
    reg.pc = reg.pc + 1;
    execute_exec(op, reg, mem, core_id, rnd)
}

/// The opcode of the next instruction, if `ptr + pc` lies in RAM.
pub fn next_opcode(reg: &Registers, mem: &Memory) -> (op: Option<u8>)
    requires
        core_wf(*reg, mem@),
    ensures
        op == code(*reg, mem@, 0),
{
    fetch(reg, mem, 0)
}

/// A random 32-bit word, from `rand::random::<u32>()`; nothing is claimed of
/// its value.
#[verifier::external_body]
fn random_word() -> u32 {
    rand::random::<u32>()
}

/// Carries out one instruction of core `core_id`, drawing a random word for
/// an RND instruction, and says what to do next.
pub fn step(reg: &mut Registers, mem: &mut Memory, core_id: u32) -> (res: Result<Action, Fault>)
    requires
        core_wf(*old(reg), old(mem)@),
    ensures
        exists|rnd: u32|
            agrees(
                *final(reg),
                final(mem)@,
                res,
                #[trigger] step_spec(*old(reg), old(mem)@, core_id, rnd),
            ),
        code(*old(reg), old(mem)@, 0) != Some(RND_OPCODE) ==> agrees(
            *final(reg),
            final(mem)@,
            res,
            step_spec(*old(reg), old(mem)@, core_id, 0),
        ),
{
    let rnd = if next_opcode(reg, mem) == Some(RND_OPCODE) {
        random_word()
    } else {
        0
    };
    step_with(reg, mem, core_id, rnd)
}

} // verus!
