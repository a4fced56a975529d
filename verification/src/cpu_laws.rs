//! Properties of the machine that span instructions, and that tie the
//! machine to the assembler.
use vstd::prelude::*;
use vstd::arithmetic::power2::{pow2, lemma2_to64, lemma_pow2_strictly_increases};
use vstd::bits::{lemma_u64_shl_is_mul, lemma_u32_shr_is_div};
use crate::isa::{be2, be4, be5};
use crate::machine::{Registers, MemoryState, core_wf, write_clipped};
use crate::cpu::{
    Outcome, Bank, word40, word32, word16, code, adv, step_spec, execute, load_abs, store_abs,
    store_byte_abs, load_byte_abs, load_rel, store_rel, store_byte_rel, load_byte_rel,
    load_immediate, move_reg, alu, shift, push, pop, random, jump, far_jump, put, mark, bank,
    rel_address, bytes32, bytes16, push_value, set_reg, reg_value, Action,
};


verus! {

/// The machine reads back the operands that the assembler writes: a 5-byte
/// address, a 4-byte number and a 2-byte number, written big-endian at any
/// position of an image, read from that position give the number cut to 40,
/// 32 and 16 bits.
pub proof fn law_operands_read_back(pre: Seq<u8>, v: u64, post: Seq<u8>)
    ensures
        word40(pre + be5(v) + post, pre.len() as int) == v % 0x100_0000_0000,
        word32(pre + be4(v) + post, pre.len() as int) == v % 0x1_0000_0000,
        word16(pre + be2(v) + post, pre.len() as int) == v % 0x1_0000,
{
    let n = pre.len() as int;
    let s5 = pre + be5(v) + post;
    let s4 = pre + be4(v) + post;
    let s2 = pre + be2(v) + post;
    assert(s5[n] == (v >> 32u64) as u8 && s5[n + 1] == (v >> 24u64) as u8 && s5[n + 2] == (v
        >> 16u64) as u8 && s5[n + 3] == (v >> 8u64) as u8 && s5[n + 4] == v as u8);
    assert(s4[n] == (v >> 24u64) as u8 && s4[n + 1] == (v >> 16u64) as u8 && s4[n + 2] == (v
        >> 8u64) as u8 && s4[n + 3] == v as u8);
    assert(s2[n] == (v >> 8u64) as u8 && s2[n + 1] == v as u8);
    assert((((((v >> 32u64) as u8) as u64) << 32u64) | ((((v >> 24u64) as u8) as u64) << 24u64)
        | ((((v >> 16u64) as u8) as u64) << 16u64) | ((((v >> 8u64) as u8) as u64) << 8u64) | ((
    v as u8) as u64)) == v % 0x100_0000_0000) by (bit_vector);
    assert((((((v >> 24u64) as u8) as u32) << 24u32) | ((((v >> 16u64) as u8) as u32) << 16u32)
        | ((((v >> 8u64) as u8) as u32) << 8u32) | ((v as u8) as u32)) == v % 0x1_0000_0000) by (
    bit_vector);
    assert((((((v >> 8u64) as u8) as u16) << 8u16) | ((v as u8) as u16)) == v % 0x1_0000) by (
    bit_vector);
}


/// `m2` has memories and dirty flags of the same sizes as `m`.
pub open spec fn same_sizes(m: MemoryState, m2: MemoryState) -> bool {
    &&& m2.ram.len() == m.ram.len()
    &&& m2.drive.len() == m.drive.len()
    &&& m2.flags.len() == m.flags.len()
    &&& m2.cd.len() == m.cd.len()
}

/// An outcome from `(r, m)` that keeps the core well formed and the sizes of
/// the memories.
pub open spec fn keeps(m: MemoryState, o: Outcome) -> bool {
    core_wf(o.0, o.1) && same_sizes(m, o.1)
}

proof fn lemma_word40_small(s: Seq<u8>, i: int)
    ensures
        word40(s, i) < 0x100_0000_0000,
{
    let (b0, b1, b2, b3, b4) = (s[i], s[i + 1], s[i + 2], s[i + 3], s[i + 4]);
    assert((((b0 as u64) << 32u64) | ((b1 as u64) << 24u64) | ((b2 as u64) << 16u64) | ((
    b3 as u64) << 8u64) | (b4 as u64)) < 0x100_0000_0000u64) by (bit_vector);
}

proof fn lemma_rel_small(hi: u8, base: u32)
    ensures
        rel_address(hi, base) < 0x1_0000_0000,
{
    assert((((hi as u64) << 16u64) | (base as u64)) < 0x1_0000_0000u64) by (bit_vector);
}

proof fn lemma_put_keeps(r: Registers, m: MemoryState, b: Bank, addr: u64, data: Seq<u8>)
    requires
        core_wf(r, m),
    ensures
        keeps(m, put(r, m, b, addr, data)),
{
    assert(write_clipped(bank(m, b), addr as int, data).len() == bank(m, b).len());
}

proof fn lemma_mark_keeps(m: MemoryState, b: Bank, addr: u64)
    ensures
        mark(m, b, addr) matches Some(m1) ==> same_sizes(m, m1) && m1.ram == m.ram,
{
}

/// Code that fits before the end of RAM.
pub open spec fn in_code(r: Registers, m: MemoryState) -> bool {
    core_wf(r, m) && r.ptr + r.pc <= m.ram.len()
}

proof fn lemma_abs_keeps(b: Bank, r: Registers, m: MemoryState)
    requires
        in_code(r, m),
    ensures
        keeps(m, load_abs(b, r, m)),
        keeps(m, store_abs(b, r, m)),
        keeps(m, store_byte_abs(b, r, m)),
        keeps(m, load_byte_abs(b, r, m)),
{
    let p = r.ptr + r.pc;
    if p + 5 <= m.ram.len() {
        let addr = word40(m.ram, p);
        lemma_word40_small(m.ram, p);
        lemma_mark_keeps(m, b, addr);
        match mark(m, b, addr) {
            Some(m1) => {
                let r2 = adv(adv(r, 5), 1);
                assert(core_wf(r2, m1));
                lemma_put_keeps(r2, m1, b, addr, crate::cpu::stored(r2, code(adv(r, 5), m1, 0)->0));
                lemma_put_keeps(r2, m1, b, addr, seq![crate::cpu::reg_value(r2, code(adv(r, 5), m1, 0)->0) as u8]);
            },
            None => {},
        }
    }
}

proof fn lemma_rel_keeps(b: Bank, r: Registers, m: MemoryState)
    requires
        in_code(r, m),
    ensures
        keeps(m, load_rel(b, r, m)),
        keeps(m, store_rel(b, r, m)),
        keeps(m, store_byte_rel(b, r, m)),
        keeps(m, load_byte_rel(b, r, m)),
{
    if let Some(i1) = code(r, m, 0) {
        let r1 = adv(r, 1);
        if let Some(hi) = code(r1, m, 0) {
            let addr = rel_address(hi, crate::cpu::reg_value(r1, i1));
            lemma_rel_small(hi, crate::cpu::reg_value(r1, i1));
            lemma_mark_keeps(m, b, addr);
            let r2 = adv(r1, 1);
            match mark(m, b, addr) {
                Some(m1) => {
                    if let Some(i2) = code(r2, m, 0) {
                        let r3 = adv(r2, 1);
                        lemma_put_keeps(r3, m1, b, addr, crate::cpu::stored(r3, i2));
                    }
                    if let Some(i2) = code(r2, m1, 0) {
                        let r3 = adv(r2, 1);
                        lemma_put_keeps(r3, m1, b, addr, seq![crate::cpu::reg_value(r3, i2) as u8]);
                    }
                },
                None => {},
            }
        }
    }
}

proof fn lemma_misc_keeps(op: u8, r: Registers, m: MemoryState, core_id: u32, rnd: u32)
    requires
        in_code(r, m),
    ensures
        keeps(m, load_immediate(r, m)),
        keeps(m, move_reg(r, m)),
        keeps(m, alu(op, r, m)),
        keeps(m, shift(true, r, m)),
        keeps(m, shift(false, r, m)),
        keeps(m, pop(r, m)),
        keeps(m, random(r, m, rnd)),
        keeps(m, jump(op, r, m, core_id)),
        keeps(m, far_jump(r, m)),
        keeps(m, push(r, m)),
{
    let p = r.ptr + r.pc;
    if p + 5 <= m.ram.len() {
        lemma_word40_small(m.ram, p);
    }
    if let Some(i) = code(r, m, 0) {
        let r1 = adv(r, 1);
        lemma_put_keeps(r1, m, Bank::Ram, r1.stck_ptr, crate::cpu::bytes32(crate::cpu::push_value(r1, i)));
    }
}

/// Every step keeps the core well formed (code base, offset and stack
/// address in range) and the sizes of the memories, whatever instruction it
/// meets and whether it faults: a core can run for ever.
pub proof fn law_step_keeps_machine(r: Registers, m: MemoryState, core_id: u32, rnd: u32)
    requires
        core_wf(r, m),
    ensures
        core_wf(step_spec(r, m, core_id, rnd).0, step_spec(r, m, core_id, rnd).1),
        same_sizes(m, step_spec(r, m, core_id, rnd).1),
{
    if let Some(op) = code(r, m, 0) {
        let r1 = adv(r, 1);
        assert(in_code(r1, m));
        lemma_abs_keeps(Bank::Ram, r1, m);
        lemma_abs_keeps(Bank::Drive, r1, m);
        lemma_abs_keeps(Bank::Cd, r1, m);
        lemma_rel_keeps(Bank::Ram, r1, m);
        lemma_rel_keeps(Bank::Drive, r1, m);
        lemma_rel_keeps(Bank::Cd, r1, m);
        lemma_misc_keeps(op, r1, m, core_id, rnd);
        assert(keeps(m, execute(op, r1, m, core_id, rnd)));
    }
}


proof fn lemma_bytes32_back(v: u32)
    ensures
        word32(bytes32(v), 0) == v,
{
    let s = bytes32(v);
    assert(s[0] == (v >> 24u32) as u8 && s[1] == (v >> 16u32) as u8 && s[2] == (v >> 8u32) as u8
        && s[3] == v as u8);
    assert((((((v >> 24u32) as u8) as u32) << 24u32) | ((((v >> 16u32) as u8) as u32) << 16u32)
        | ((((v >> 8u32) as u8) as u32) << 8u32) | ((v as u8) as u32)) == v) by (bit_vector);
}

proof fn lemma_bytes16_back(v: u16)
    ensures
        word16(bytes16(v), 0) == v,
{
    let s = bytes16(v);
    assert(s[0] == (v >> 8u16) as u8 && s[1] == v as u8);
    assert((((((v >> 8u16) as u8) as u16) << 8u16) | ((v as u8) as u16)) == v) by (bit_vector);
}

/// Reading back what was written: after `data` is written at `addr` of a
/// memory and fits, the bytes at `addr` are `data`, and every other byte is
/// as it was.
pub proof fn law_write_read_back(s: Seq<u8>, addr: int, data: Seq<u8>)
    requires
        0 <= addr,
        addr + data.len() <= s.len(),
    ensures
        write_clipped(s, addr, data).subrange(addr, addr + data.len()) == data,
        forall|i: int|
            0 <= i < s.len() && !(addr <= i < addr + data.len()) ==> #[trigger] write_clipped(
                s,
                addr,
                data,
            )[i] == s[i],
{
    assert(write_clipped(s, addr, data).subrange(addr, addr + data.len()) =~= data);
}

/// A 32-bit value stored at `addr` is the 32-bit value read there, and a
/// 16-bit value stored at `addr` is the 16-bit value read there.
pub proof fn law_store_load_word(s: Seq<u8>, addr: int, v: u32, h: u16)
    requires
        0 <= addr,
        addr + 4 <= s.len(),
    ensures
        word32(write_clipped(s, addr, bytes32(v)), addr) == v,
        word16(write_clipped(s, addr, bytes16(h)), addr) == h,
{
    let w = write_clipped(s, addr, bytes32(v));
    let b = bytes32(v);
    assert(w[addr] == b[0] && w[addr + 1] == b[1] && w[addr + 2] == b[2] && w[addr + 3] == b[3]);
    lemma_bytes32_back(v);
    let w2 = write_clipped(s, addr, bytes16(h));
    let b2 = bytes16(h);
    assert(w2[addr] == b2[0] && w2[addr + 1] == b2[1]);
    lemma_bytes16_back(h);
}

/// What a push writes, a pop gives back: after PSH succeeds, a POP from any
/// code position whose stack address is where the push left it (memory as
/// the push left it) succeeds, moves the stack address back to where it was
/// before the push, and loads the pushed word into its register (`pc` for
/// code 12, the low 16 bits for a 16-bit register).
pub proof fn law_push_then_pop(r: Registers, m: MemoryState, q: Registers, j: u8)
    requires
        crate::machine::memory_wf(m),
        push(r, m).2 is Ok,
        q.stck_ptr == push(r, m).0.stck_ptr,
        code(q, push(r, m).1, 0) == Some(j),
    ensures
        ({
            let m2 = push(r, m).1;
            let v = push_value(adv(r, 1), code(r, m, 0)->0);
            let q1 = Registers { stck_ptr: r.stck_ptr, ..adv(q, 1) };
            pop(q, m2) == (
                if j == 0x0C {
                    Registers { pc: v as u64, ..q1 }
                } else {
                    set_reg(q1, j, v)
                },
                m2,
                Ok::<Action, crate::cpu::Fault>(Action::Continue),
            )
        }),
{
    let i = code(r, m, 0)->0;
    let r1 = adv(r, 1);
    let v = push_value(r1, i);
    law_store_load_word(m.ram, r1.stck_ptr as int, v, 0);
    let m2 = push(r, m).1;
    assert(m2.ram == write_clipped(m.ram, r1.stck_ptr as int, bytes32(v)));
    assert(word32(m2.ram, r1.stck_ptr as int) == v);
}


/// Whether register code `i` names a 16-bit data register.
pub open spec fn short_code(i: u8) -> bool {
    i == 0x02 || i == 0x03 || i == 0x06 || i == 0x07
}

/// What a store writes, a load gives back: after STO (STD, STCD) of a data
/// register succeeds, a LOD (LDD, LDCD) of the same address into a data
/// register of the same width, from any code position of the memory as the
/// store left it, loads the stored register's value. (A load reads four
/// bytes whatever the register, so the address must leave room for four.)
pub proof fn law_store_then_load(b: Bank, r: Registers, m: MemoryState, q: Registers, j: u8)
    requires
        crate::machine::memory_wf(m),
        store_abs(b, r, m).2 is Ok,
        q.ptr + q.pc + 5 <= store_abs(b, r, m).1.ram.len(),
        word40(store_abs(b, r, m).1.ram, q.ptr + q.pc) == word40(m.ram, r.ptr + r.pc),
        code(adv(q, 5), store_abs(b, r, m).1, 0) == Some(j),
        j <= 0x0B,
        code(adv(r, 5), m, 0)->0 <= 0x0B,
        short_code(j) == short_code(code(adv(r, 5), m, 0)->0),
        word40(m.ram, r.ptr + r.pc) + 4 <= bank(m, b).len(),
    ensures
        load_abs(b, q, store_abs(b, r, m).1) == (
            set_reg(adv(adv(q, 5), 1), j, reg_value(r, code(adv(r, 5), m, 0)->0)),
            store_abs(b, r, m).1,
            Ok::<Action, crate::cpu::Fault>(Action::Continue),
        ),
{
    let addr = word40(m.ram, r.ptr + r.pc);
    let m1 = mark(m, b, addr)->0;
    let i = code(adv(r, 5), m, 0)->0;
    let r2 = adv(adv(r, 5), 1);
    assert(m1.ram == m.ram);
    assert(reg_value(r2, i) == reg_value(r, i));
    let v = reg_value(r, i);
    law_store_load_word(bank(m1, b), addr as int, v, v as u16);
    let m2 = store_abs(b, r, m).1;
    assert(bank(m2, b) == write_clipped(bank(m1, b), addr as int, crate::cpu::stored(r2, i)));
    if short_code(i) {
        assert(word16(bank(m2, b), addr as int) == v as u16);
        assert((v as u16) as u32 == v) by (bit_vector)
            requires
                v <= 0xFFFF,
        ;
    } else {
        assert(word32(bank(m2, b), addr as int) == v);
    }
}


/// A drive store that succeeds marks the drive file that holds its address
/// as changed and leaves every other flag as it was; stores to RAM or the CD
/// leave the flags alone.
pub proof fn law_drive_store_marks(b: Bank, r: Registers, m: MemoryState)
    requires
        store_abs(b, r, m).2 is Ok,
    ensures
        b == Bank::Drive ==> store_abs(b, r, m).1.flags == m.flags.update(
            (word40(m.ram, r.ptr + r.pc) / 0x10_0000) as int,
            true,
        ),
        b == Bank::Drive ==> (word40(m.ram, r.ptr + r.pc) / 0x10_0000) < m.flags.len(),
        b != Bank::Drive ==> store_abs(b, r, m).1.flags == m.flags,
{
}


/// The core after `n` steps (RND drawing 0), stopping at the first fault.
pub open spec fn run_steps(r: Registers, m: MemoryState, core_id: u32, n: nat) -> Outcome
    decreases n,
{
    if n == 0 {
        (r, m, Ok(Action::Continue))
    } else {
        let o = step_spec(r, m, core_id, 0);
        match o.2 {
            Err(f) => o,
            Ok(_) => run_steps(o.0, o.1, core_id, (n - 1) as nat),
        }
    }
}

/// The machine code of `call` to address `a`: `mov pc br`, `ldi bx 16`,
/// `add bx`, `psh br`, `jmp a` (18 bytes).
pub open spec fn call_code(a: u64) -> Seq<u8> {
    seq![0x05u8, 0x9Cu8, 0x04u8, 0x01u8, 0u8, 0u8, 0u8, 16u8, 0x06u8, 0x05u8, 0x18u8, 0x09u8, 0x0Au8]
        + be5(a)
}

/// Reads back a 5-byte operand that sits at `i` of `s`.
proof fn lemma_operand_at(s: Seq<u8>, i: int, v: u64)
    requires
        0 <= i,
        i + 5 <= s.len(),
        s.subrange(i, i + 5) == be5(v),
    ensures
        word40(s, i) == v % 0x100_0000_0000,
{
    law_operands_read_back(s.take(i), v, s.skip(i + 5));
    assert(s =~= s.take(i) + be5(v) + s.skip(i + 5));
}

proof fn lemma_call_mov(r: Registers, m: MemoryState, c: u32)
    requires
        core_wf(r, m),
        r.ptr + r.pc + 2 <= m.ram.len(),
        m.ram[r.ptr + r.pc] == 0x05u8,
        m.ram[r.ptr + r.pc + 1] == 0x9Cu8,
        r.pc + 2 <= u32::MAX,
    ensures
        step_spec(r, m, c, 0) == (
            Registers { pc: (r.pc + 2) as u64, br: (r.pc + 2) as u32, ..r },
            m,
            Ok::<Action, crate::cpu::Fault>(Action::Continue),
        ),
{
    assert(0x9Cu8 / 16 == 9 && 0x9Cu8 % 16 == 12);
}

proof fn lemma_call_ldi(r: Registers, m: MemoryState, c: u32)
    requires
        core_wf(r, m),
        r.ptr + r.pc + 6 <= m.ram.len(),
        m.ram[r.ptr + r.pc] == 0x04u8,
        m.ram[r.ptr + r.pc + 1] == 0x01u8,
        m.ram[r.ptr + r.pc + 2] == 0u8,
        m.ram[r.ptr + r.pc + 3] == 0u8,
        m.ram[r.ptr + r.pc + 4] == 0u8,
        m.ram[r.ptr + r.pc + 5] == 16u8,
    ensures
        step_spec(r, m, c, 0) == (
            Registers { pc: (r.pc + 6) as u64, bx: 16, ..r },
            m,
            Ok::<Action, crate::cpu::Fault>(Action::Continue),
        ),
{
    assert(((0u8 as u32) << 24u32) | ((0u8 as u32) << 16u32) | ((0u8 as u32) << 8u32) | (16u8 as u32)
        == 16u32) by (bit_vector);
}

proof fn lemma_call_add(r: Registers, m: MemoryState, c: u32)
    requires
        core_wf(r, m),
        r.ptr + r.pc + 2 <= m.ram.len(),
        m.ram[r.ptr + r.pc] == 0x06u8,
        m.ram[r.ptr + r.pc + 1] == 0x05u8,
        r.bx + r.br <= u32::MAX,
    ensures
        step_spec(r, m, c, 0) == (
            Registers { pc: (r.pc + 2) as u64, br: (r.bx + r.br) as u32, ..r },
            m,
            Ok::<Action, crate::cpu::Fault>(Action::Continue),
        ),
{
}

proof fn lemma_call_psh(r: Registers, m: MemoryState, c: u32)
    requires
        core_wf(r, m),
        r.ptr + r.pc + 2 <= m.ram.len(),
        m.ram[r.ptr + r.pc] == 0x18u8,
        m.ram[r.ptr + r.pc + 1] == 0x09u8,
        r.stck_ptr + 4 <= m.ram.len(),
    ensures
        step_spec(r, m, c, 0) == (
            Registers { pc: (r.pc + 2) as u64, stck_ptr: (r.stck_ptr + 4) as u64, ..r },
            MemoryState { ram: write_clipped(m.ram, r.stck_ptr as int, bytes32(r.br)), ..m },
            Ok::<Action, crate::cpu::Fault>(Action::Continue),
        ),
{
}

proof fn lemma_call_jmp(r: Registers, m: MemoryState, c: u32, a: u64)
    requires
        core_wf(r, m),
        r.ptr + r.pc + 6 <= m.ram.len(),
        m.ram[r.ptr + r.pc] == 0x0Au8,
        m.ram.subrange(r.ptr + r.pc + 1, r.ptr + r.pc + 6) == be5(a),
    ensures
        step_spec(r, m, c, 0) == (
            Registers { pc: a % 0x100_0000_0000, ..r },
            m,
            Ok::<Action, crate::cpu::Fault>(Action::Continue),
        ),
{
    lemma_operand_at(m.ram, r.ptr + r.pc + 1, a);
}

/// A `call` pushes its return address and jumps: five steps through the
/// bytes of `call a` leave `pc` at `a`, the stack one word higher, and on
/// top of the stack the offset of the instruction after the call; and a
/// later `pop pc` with the stack there returns to that instruction with the
/// stack where it was before the call. (The return address is a 32-bit
/// value, so the call must end below 2^32; the stack word must fit in RAM
/// and not overlap the call's own bytes.)
pub proof fn law_call_returns(r: Registers, m: MemoryState, core_id: u32, a: u64, q: Registers)
    requires
        core_wf(r, m),
        r.ptr + r.pc + 18 <= m.ram.len(),
        m.ram.subrange(r.ptr + r.pc, r.ptr + r.pc + 18) == call_code(a),
        r.pc + 18 <= u32::MAX,
        r.stck_ptr + 4 <= m.ram.len(),
        r.stck_ptr + 4 <= r.ptr + r.pc || r.ptr + r.pc + 18 <= r.stck_ptr,
        q.stck_ptr == r.stck_ptr + 4,
        code(q, run_steps(r, m, core_id, 5).1, 0) == Some(0x0Cu8),
    ensures
        ({
            let (r5, m5, res) = run_steps(r, m, core_id, 5);
            &&& res == Ok::<Action, crate::cpu::Fault>(Action::Continue)
            &&& r5.pc == a % 0x100_0000_0000
            &&& r5.ptr == r.ptr
            &&& r5.stck_ptr == r.stck_ptr + 4
            &&& word32(m5.ram, r.stck_ptr as int) == r.pc + 18
            &&& pop(q, m5).2 == Ok::<Action, crate::cpu::Fault>(Action::Continue)
            &&& pop(q, m5).0.pc == r.pc + 18
            &&& pop(q, m5).0.stck_ptr == r.stck_ptr
        }),
{
    let p = r.ptr + r.pc;
    let cc = call_code(a);
    assert forall|k: int| 0 <= k < 18 implies #[trigger] m.ram[p + k] == cc[k] by {
        assert(m.ram.subrange(p, p + 18)[k] == m.ram[p + k]);
    }
    let r1 = Registers { pc: (r.pc + 2) as u64, br: (r.pc + 2) as u32, ..r };
    assert(m.ram[p] == cc[0] && m.ram[p + 1] == cc[1]);
    lemma_call_mov(r, m, core_id);
    assert(m.ram[p + 2] == cc[2] && m.ram[p + 3] == cc[3] && m.ram[p + 4] == cc[4]);
    assert(m.ram[p + 5] == cc[5] && m.ram[p + 6] == cc[6] && m.ram[p + 7] == cc[7]);
    assert(m.ram[p + 8] == cc[8] && m.ram[p + 9] == cc[9] && m.ram[p + 10] == cc[10]);
    assert(m.ram[p + 11] == cc[11] && m.ram[p + 12] == cc[12]);
    let r2 = Registers { pc: (r.pc + 8) as u64, bx: 16, ..r1 };
    lemma_call_ldi(r1, m, core_id);
    let r3 = Registers { pc: (r.pc + 10) as u64, br: (r.pc + 18) as u32, ..r2 };
    lemma_call_add(r2, m, core_id);
    let v = (r.pc + 18) as u32;
    let r4 = Registers { pc: (r.pc + 12) as u64, stck_ptr: (r.stck_ptr + 4) as u64, ..r3 };
    let m4 = MemoryState { ram: write_clipped(m.ram, r.stck_ptr as int, bytes32(v)), ..m };
    lemma_call_psh(r3, m, core_id);
    law_store_load_word(m.ram, r.stck_ptr as int, v, 0);
    assert forall|k: int| 0 <= k < 18 implies #[trigger] m4.ram[p + k] == cc[k] by {
        assert(m4.ram[p + k] == m.ram[p + k]);
    }
    assert(m4.ram.subrange(p + 13, p + 18) =~= be5(a)) by {
        assert forall|k: int| 0 <= k < 5 implies #[trigger] m4.ram.subrange(p + 13, p + 18)[k]
            == be5(a)[k] by {
            assert(m4.ram[p + 13 + k] == cc[13 + k]);
        }
    }
    assert(m4.ram[p + 12] == cc[12]);
    lemma_call_jmp(r4, m4, core_id, a);
    let r5 = Registers { pc: a % 0x100_0000_0000, ..r4 };
    assert(run_steps(r5, m4, core_id, 0) == (r5, m4, Ok::<Action, crate::cpu::Fault>(Action::Continue)));
    assert(run_steps(r4, m4, core_id, 1) == run_steps(r5, m4, core_id, 0));
    assert(run_steps(r3, m, core_id, 2) == run_steps(r4, m4, core_id, 1));
    assert(run_steps(r2, m, core_id, 3) == run_steps(r3, m, core_id, 2));
    assert(run_steps(r1, m, core_id, 4) == run_steps(r2, m, core_id, 3));
    assert(run_steps(r, m, core_id, 5) == run_steps(r1, m, core_id, 4));
}


/// Whether the `n` bytes after the opcode lie in RAM (`o` is where they start).
pub open spec fn fits_after(m: MemoryState, o: int, n: int) -> bool {
    o + n <= m.ram.len()
}

/// Whether `width` bytes from `addr` run past the end of `s`.
pub open spec fn runs_past(addr: int, width: int, s: Seq<u8>) -> bool {
    addr + width > s.len()
}

/// Whether a store to bank `b` at `addr` has no dirty flag to mark.
pub open spec fn no_flag(b: Bank, addr: int, m: MemoryState) -> bool {
    b == Bank::Drive && addr / 0x10_0000 >= m.flags.len()
}

/// How many bytes a store of register code `i` writes: four for a 32-bit
/// data register, two otherwise.
pub open spec fn store_width(i: u8) -> int {
    if i <= 0x0B && !short_code(i) {
        4
    } else {
        2
    }
}

/// The fault of a load or store with a 5-byte address (`byte` for the
/// one-byte forms); `o` is where the operands start.
pub open spec fn absolute_fault(m: MemoryState, o: int, b: Bank, store: bool, byte: bool) -> Option<crate::cpu::Fault> {
    let addr = word40(m.ram, o) as int;
    let width = if byte {
        1
    } else if store {
        store_width(m.ram[o + 5])
    } else {
        4
    };
    if !fits_after(m, o, 6) || (store && no_flag(b, addr, m)) || runs_past(addr, width, bank(m, b)) {
        Some(crate::cpu::Fault::OutOfBounds)
    } else {
        None
    }
}

/// The fault of a register-relative load or store: base register code, high
/// byte, register code; the address is `hi << 16 | base`.
pub open spec fn relative_fault(r: Registers, m: MemoryState, o: int, b: Bank, store: bool, byte: bool) -> Option<crate::cpu::Fault> {
    let addr = rel_address(m.ram[o + 1], reg_value(r, m.ram[o])) as int;
    let width = if byte {
        1
    } else if store {
        store_width(m.ram[o + 2])
    } else {
        4
    };
    if !fits_after(m, o, 3) || (store && no_flag(b, addr, m)) || runs_past(addr, width, bank(m, b)) {
        Some(crate::cpu::Fault::OutOfBounds)
    } else {
        None
    }
}

/// The two values that ADD code `i` sums (for `i < 12`).
pub open spec fn add_inputs(r: Registers, i: u8) -> (int, int) {
    let k = (i % 4) as int;
    if i < 4 {
        (crate::cpu::x_reg(r, k), crate::cpu::y_reg(r, k))
    } else if i < 8 {
        (crate::cpu::x_reg(r, k), crate::cpu::r_reg(r, k))
    } else {
        (crate::cpu::y_reg(r, k), crate::cpu::r_reg(r, k))
    }
}

/// The two values that SUB code `i` subtracts (for `i < 20`).
pub open spec fn sub_inputs(r: Registers, i: u8) -> (int, int) {
    let k = (i % 4) as int;
    if i < 12 {
        add_inputs(r, i)
    } else if i < 16 {
        (crate::cpu::r_reg(r, k), crate::cpu::x_reg(r, k))
    } else {
        (crate::cpu::r_reg(r, k), crate::cpu::y_reg(r, k))
    }
}

/// The fault of an arithmetic instruction `op` with register code `i`: an
/// ADD above 2^32 - 1, a SUB below 0, a MUL above 2^32 - 1, a DIV by 0, an
/// INC of a register at its largest value, a DEC of a register at 0.
pub open spec fn arithmetic_fault(op: u8, r: Registers, i: u8) -> Option<crate::cpu::Fault> {
    let k = i as int;
    let v = reg_value(r, i) as int;
    let max: int = if short_code(i) {
        0xFFFF
    } else {
        0xFFFF_FFFF
    };
    if op == 0x06 && i < 12 && add_inputs(r, i).0 + add_inputs(r, i).1 > 0xFFFF_FFFF {
        Some(crate::cpu::Fault::Overflow)
    } else if op == 0x07 && i < 20 && sub_inputs(r, i).0 < sub_inputs(r, i).1 {
        Some(crate::cpu::Fault::Overflow)
    } else if op == 0x08 && i < 4 && crate::cpu::x_reg(r, k) * crate::cpu::y_reg(r, k) > 0xFFFF_FFFF {
        Some(crate::cpu::Fault::Overflow)
    } else if op == 0x09 && i < 4 && crate::cpu::y_reg(r, k) == 0 {
        Some(crate::cpu::Fault::DivideByZero)
    } else if op == 0x1F && i <= 0x0B && v == max {
        Some(crate::cpu::Fault::Overflow)
    } else if op == 0x20 && i <= 0x0B && v == 0 {
        Some(crate::cpu::Fault::Overflow)
    } else {
        None
    }
}

/// The memory that a load or store with opcode `op` addresses.
pub open spec fn bank_of(op: u8) -> Bank {
    if 0x24 <= op <= 0x2B {
        Bank::Drive
    } else if 0x2E <= op <= 0x35 {
        Bank::Cd
    } else {
        Bank::Ram
    }
}

/// The inputs on which one step of a core faults, and with which fault; `None`
/// where the step completes. A step faults when:
/// - the opcode, or an operand byte the instruction reads, lies outside RAM;
/// - a load reads (or a store writes) past the end of its memory (loads of a
///   whole register read four bytes, even for a 16-bit register);
/// - a drive store's address has no dirty flag;
/// - an ADD, MUL or INC leaves 32 bits (16 for INC of a 16-bit register), a
///   SUB or DEC goes below 0, a shift is by 32 or more (overflow);
/// - a DIV divides by 0;
/// - a POP finds the stack address below 4 (overflow), or its word past the
///   end of RAM; a PSH's word runs past the end of RAM.
pub open spec fn step_fault(r: Registers, m: MemoryState) -> Option<crate::cpu::Fault> {
    let p = r.ptr + r.pc;
    let o = p + 1;
    let oob = Some(crate::cpu::Fault::OutOfBounds);
    if p >= m.ram.len() {
        oob
    } else {
        let op = m.ram[p];
        let b = bank_of(op);
        if op == 0x02 || op == 0x24 || op == 0x2E {
            absolute_fault(m, o, b, false, false)
        } else if op == 0x22 || op == 0x2A || op == 0x34 {
            absolute_fault(m, o, b, false, true)
        } else if op == 0x03 || op == 0x25 || op == 0x2F {
            absolute_fault(m, o, b, true, false)
        } else if op == 0x1D || op == 0x28 || op == 0x32 {
            absolute_fault(m, o, b, true, true)
        } else if op == 0x1B || op == 0x26 || op == 0x30 {
            relative_fault(r, m, o, b, false, false)
        } else if op == 0x23 || op == 0x2B || op == 0x35 {
            relative_fault(r, m, o, b, false, true)
        } else if op == 0x1C || op == 0x27 || op == 0x31 {
            relative_fault(r, m, o, b, true, false)
        } else if op == 0x1E || op == 0x29 || op == 0x33 {
            relative_fault(r, m, o, b, true, true)
        } else if op == 0x04 || (0x0A <= op <= 0x11) || op == 0x2C || op == 0x2D {
            if !fits_after(m, o, 5) { oob } else { None }
        } else if op == 0x36 {
            if !fits_after(m, o, 8) { oob } else { None }
        } else if op == 0x05 || op == 0x1A {
            if !fits_after(m, o, 1) { oob } else { None }
        } else if op == 0x06 || op == 0x07 || op == 0x08 || op == 0x09 || op == 0x12 || op == 0x13
            || op == 0x14 || op == 0x15 || op == 0x1F || op == 0x20 {
            if !fits_after(m, o, 1) { oob } else { arithmetic_fault(op, r, m.ram[o]) }
        } else if op == 0x16 || op == 0x17 {
            if !fits_after(m, o, 2) {
                oob
            } else if m.ram[o] < 8 && m.ram[o + 1] >= 32 {
                Some(crate::cpu::Fault::Overflow)
            } else {
                None
            }
        } else if op == 0x18 {
            if !fits_after(m, o, 1) || runs_past(r.stck_ptr as int, 4, m.ram) { oob } else { None }
        } else if op == 0x19 {
            if !fits_after(m, o, 1) {
                oob
            } else if r.stck_ptr < 4 {
                Some(crate::cpu::Fault::Overflow)
            } else if runs_past(r.stck_ptr - 4, 4, m.ram) {
                oob
            } else {
                None
            }
        } else {
            None
        }
    }
}

proof fn lemma_abs_fault(r: Registers, m: MemoryState, b: Bank)
    requires
        core_wf(r, m),
        r.ptr + r.pc <= m.ram.len(),
    ensures
        ({
            let o = r.ptr + r.pc;
            &&& load_abs(b, r, m).2 == match absolute_fault(m, o, b, false, false) {
                Some(f) => Err(f),
                None => Ok::<Action, crate::cpu::Fault>(Action::Continue),
            }
            &&& load_byte_abs(b, r, m).2 == match absolute_fault(m, o, b, false, true) {
                Some(f) => Err(f),
                None => Ok::<Action, crate::cpu::Fault>(Action::Continue),
            }
            &&& store_abs(b, r, m).2 == match absolute_fault(m, o, b, true, false) {
                Some(f) => Err(f),
                None => Ok::<Action, crate::cpu::Fault>(Action::Continue),
            }
            &&& store_byte_abs(b, r, m).2 == match absolute_fault(m, o, b, true, true) {
                Some(f) => Err(f),
                None => Ok::<Action, crate::cpu::Fault>(Action::Continue),
            }
        }),
{
    let o = r.ptr + r.pc;
    if o + 5 <= m.ram.len() {
        lemma_word40_small(m.ram, o);
        let addr = word40(m.ram, o);
        lemma_mark_keeps(m, b, addr);
        if o + 6 <= m.ram.len() {
            let i = m.ram[o + 5];
            let r2 = adv(adv(r, 5), 1);
            assert(crate::cpu::stored(r2, i).len() == store_width(i));
        }
    }
}

proof fn lemma_rel_fault(r: Registers, m: MemoryState, b: Bank)
    requires
        core_wf(r, m),
        r.ptr + r.pc <= m.ram.len(),
    ensures
        ({
            let o = r.ptr + r.pc;
            &&& load_rel(b, r, m).2 == match relative_fault(r, m, o, b, false, false) {
                Some(f) => Err(f),
                None => Ok::<Action, crate::cpu::Fault>(Action::Continue),
            }
            &&& load_byte_rel(b, r, m).2 == match relative_fault(r, m, o, b, false, true) {
                Some(f) => Err(f),
                None => Ok::<Action, crate::cpu::Fault>(Action::Continue),
            }
            &&& store_rel(b, r, m).2 == match relative_fault(r, m, o, b, true, false) {
                Some(f) => Err(f),
                None => Ok::<Action, crate::cpu::Fault>(Action::Continue),
            }
            &&& store_byte_rel(b, r, m).2 == match relative_fault(r, m, o, b, true, true) {
                Some(f) => Err(f),
                None => Ok::<Action, crate::cpu::Fault>(Action::Continue),
            }
        }),
{
    let o = r.ptr + r.pc;
    if o + 2 <= m.ram.len() {
        let r1 = adv(r, 1);
        assert(reg_value(r1, m.ram[o]) == reg_value(r, m.ram[o]));
        lemma_rel_small(m.ram[o + 1], reg_value(r, m.ram[o]));
        let addr = rel_address(m.ram[o + 1], reg_value(r, m.ram[o]));
        lemma_mark_keeps(m, b, addr);
        if o + 3 <= m.ram.len() {
            let i = m.ram[o + 2];
            let r3 = adv(adv(r1, 1), 1);
            assert(crate::cpu::stored(r3, i).len() == store_width(i));
            assert(reg_value(r3, i) == reg_value(r, i));
        }
    }
}

proof fn lemma_alu_fault(op: u8, r: Registers, m: MemoryState)
    requires
        core_wf(r, m),
        r.ptr + r.pc <= m.ram.len(),
        op == 0x06 || op == 0x07 || op == 0x08 || op == 0x09 || op == 0x12 || op == 0x13 || op
            == 0x14 || op == 0x15 || op == 0x1F || op == 0x20,
    ensures
        alu(op, r, m).2 == match (if !fits_after(m, r.ptr + r.pc, 1) {
            Some(crate::cpu::Fault::OutOfBounds)
        } else {
            arithmetic_fault(op, r, m.ram[r.ptr + r.pc])
        }) {
            Some(f) => Err(f),
            None => Ok::<Action, crate::cpu::Fault>(Action::Continue),
        },
{
    let o = r.ptr + r.pc;
    if o + 1 <= m.ram.len() {
        let i = m.ram[o];
        let r1 = adv(r, 1);
        let k = (i % 4) as int;
        assert(crate::cpu::x_reg(r1, k) == crate::cpu::x_reg(r, k));
        assert(crate::cpu::y_reg(r1, k) == crate::cpu::y_reg(r, k));
        assert(crate::cpu::r_reg(r1, k) == crate::cpu::r_reg(r, k));
        assert(crate::cpu::x_reg(r1, i as int) == crate::cpu::x_reg(r, i as int));
        assert(crate::cpu::y_reg(r1, i as int) == crate::cpu::y_reg(r, i as int));
        assert(reg_value(r1, i) == reg_value(r, i));
    }
}

/// A fault, or none, as a result without an action.
spec fn fault_as_result(f: Option<crate::cpu::Fault>) -> Result<(), crate::cpu::Fault> {
    match f {
        Some(x) => Err(x),
        None => Ok(()),
    }
}

/// The result of a step with its action forgotten.
spec fn kind(res: Result<Action, crate::cpu::Fault>) -> Result<(), crate::cpu::Fault> {
    match res {
        Ok(_) => Ok(()),
        Err(f) => Err(f),
    }
}

proof fn lemma_misc_fault(op: u8, r: Registers, m: MemoryState, core_id: u32, rnd: u32)
    requires
        core_wf(r, m),
        r.ptr + r.pc <= m.ram.len(),
    ensures
        ({
            let o = r.ptr + r.pc;
            let oob = Some(crate::cpu::Fault::OutOfBounds);
            &&& kind(load_immediate(r, m).2) == fault_as_result(if !fits_after(m, o, 5) { oob } else { None })
            &&& kind(jump(op, r, m, core_id).2) == fault_as_result(if !fits_after(m, o, 5) { oob } else { None })
            &&& kind(far_jump(r, m).2) == fault_as_result(if !fits_after(m, o, 8) { oob } else { None })
            &&& kind(move_reg(r, m).2) == fault_as_result(if !fits_after(m, o, 1) { oob } else { None })
            &&& kind(random(r, m, rnd).2) == fault_as_result(if !fits_after(m, o, 1) { oob } else { None })
            &&& kind(shift(true, r, m).2) == fault_as_result(
                if !fits_after(m, o, 2) {
                    oob
                } else if m.ram[o] < 8 && m.ram[o + 1] >= 32 {
                    Some(crate::cpu::Fault::Overflow)
                } else {
                    None
                },
            )
            &&& kind(shift(false, r, m).2) == fault_as_result(
                if !fits_after(m, o, 2) {
                    oob
                } else if m.ram[o] < 8 && m.ram[o + 1] >= 32 {
                    Some(crate::cpu::Fault::Overflow)
                } else {
                    None
                },
            )
            &&& kind(push(r, m).2) == fault_as_result(
                if !fits_after(m, o, 1) || runs_past(r.stck_ptr as int, 4, m.ram) { oob } else { None },
            )
            &&& kind(pop(r, m).2) == fault_as_result(
                if !fits_after(m, o, 1) {
                    oob
                } else if r.stck_ptr < 4 {
                    Some(crate::cpu::Fault::Overflow)
                } else if runs_past(r.stck_ptr - 4, 4, m.ram) {
                    oob
                } else {
                    None
                },
            )
        }),
{
}

proof fn lemma_fault_kind(res: Result<Action, crate::cpu::Fault>, f: Option<crate::cpu::Fault>)
    requires
        kind(res) == fault_as_result(f),
    ensures
        res is Ok <==> f is None,
        f matches Some(x) ==> res == Err::<Action, crate::cpu::Fault>(x),
{
}

/// Exactly when a step faults: one step of a well formed core ends in the
/// fault that `step_fault` names, and completes wherever `step_fault` names
/// none (whatever word an RND draws).
#[verifier::rlimit(60)]
pub proof fn law_step_faults(r: Registers, m: MemoryState, core_id: u32, rnd: u32)
    requires
        core_wf(r, m),
    ensures
        step_spec(r, m, core_id, rnd).2 is Ok <==> step_fault(r, m) is None,
        step_fault(r, m) matches Some(f) ==> step_spec(r, m, core_id, rnd).2 == Err::<
            Action,
            crate::cpu::Fault,
        >(f),
{
    let res = step_spec(r, m, core_id, rnd).2;
    if let Some(op) = code(r, m, 0) {
        let r1 = adv(r, 1);
        let o = r.ptr + r.pc + 1;
        assert(r1.ptr + r1.pc == o);
        let b = bank_of(op);
        assert(res == execute(op, r1, m, core_id, rnd).2);
        if op == 0x02 || op == 0x24 || op == 0x2E || op == 0x22 || op == 0x2A || op == 0x34 || op
            == 0x03 || op == 0x25 || op == 0x2F || op == 0x1D || op == 0x28 || op == 0x32 {
            lemma_abs_fault(r1, m, b);
        } else if op == 0x1B || op == 0x26 || op == 0x30 || op == 0x23 || op == 0x2B || op == 0x35
            || op == 0x1C || op == 0x27 || op == 0x31 || op == 0x1E || op == 0x29 || op == 0x33 {
            lemma_rel_fault(r1, m, b);
            assert(relative_fault(r1, m, o, b, false, false) == relative_fault(r, m, o, b, false, false));
            assert(relative_fault(r1, m, o, b, false, true) == relative_fault(r, m, o, b, false, true));
            assert(relative_fault(r1, m, o, b, true, false) == relative_fault(r, m, o, b, true, false));
            assert(relative_fault(r1, m, o, b, true, true) == relative_fault(r, m, o, b, true, true));
        } else if op == 0x06 || op == 0x07 || op == 0x08 || op == 0x09 || op == 0x12 || op == 0x13
            || op == 0x14 || op == 0x15 || op == 0x1F || op == 0x20 {
            lemma_alu_fault(op, r1, m);
            let i = m.ram[o];
            let k = (i % 4) as int;
            assert(crate::cpu::x_reg(r1, k) == crate::cpu::x_reg(r, k));
            assert(crate::cpu::y_reg(r1, k) == crate::cpu::y_reg(r, k));
            assert(crate::cpu::r_reg(r1, k) == crate::cpu::r_reg(r, k));
            assert(crate::cpu::x_reg(r1, i as int) == crate::cpu::x_reg(r, i as int));
            assert(crate::cpu::y_reg(r1, i as int) == crate::cpu::y_reg(r, i as int));
            assert(reg_value(r1, i) == reg_value(r, i));
            assert(arithmetic_fault(op, r1, i) == arithmetic_fault(op, r, i));
        } else {
            lemma_misc_fault(op, r1, m, core_id, rnd);
            assert(kind(res) == fault_as_result(step_fault(r, m)));
            lemma_fault_kind(res, step_fault(r, m));
        }
    }
}


/// The load opcode that reads the memory that store opcode `op` writes
/// (LOD for STO, LDD for STD, LDCD for STCD).
pub open spec fn load_for(op: u8) -> u8 {
    if op == 0x25 {
        0x24
    } else if op == 0x2F {
        0x2E
    } else {
        0x02
    }
}

/// What a STO, STD or STCD step changes: `pc` moves past its seven bytes and
/// no other register changes; its memory holds the register's big-endian
/// bytes (two for a 16-bit register) at the address, and nothing else of any
/// memory changes, but for the dirty flag of the address's drive file on a
/// drive store.
pub proof fn law_store_step(r: Registers, m: MemoryState, core_id: u32, rnd: u32)
    requires
        core_wf(r, m),
        code(r, m, 0) matches Some(op) && (op == 0x03 || op == 0x25 || op == 0x2F),
        step_spec(r, m, core_id, rnd).2 is Ok,
    ensures
        ({
            let p = r.ptr + r.pc;
            let b = bank_of(m.ram[p]);
            let a = word40(m.ram, p + 1);
            let i = m.ram[p + 6];
            let o = step_spec(r, m, core_id, rnd);
            let flags = if b == Bank::Drive {
                m.flags.update((a / 0x10_0000) as int, true)
            } else {
                m.flags
            };
            &&& o.0 == adv(r, 7)
            &&& o.1 == crate::cpu::with_bank(
                MemoryState { flags, ..m },
                b,
                write_clipped(bank(m, b), a as int, crate::cpu::stored(r, i)),
            )
            &&& crate::cpu::stored(r, i).len() == (if short_code(i) || i > 0x0B {
                2int
            } else {
                4int
            })
        }),
{
    let p = r.ptr + r.pc;
    let i = m.ram[p + 6];
    let r7 = adv(r, 7);
    assert(reg_value(r7, i) == reg_value(r, i));
    assert(crate::cpu::stored(r7, i) == crate::cpu::stored(r, i));
}

/// What a store writes, a later load gives back, whatever ran in between:
/// after a STO (STD, STCD) step of a data register succeeds at address `a`,
/// a LOD (LDD, LDCD) step of `a` into a data register of the same width, on
/// any memory whose bytes `a..a + 4` of that bank are still those the store
/// left, loads the stored register's value and only advances `pc` by seven.
/// (A load reads four bytes whatever the register, so they must lie in the
/// memory.)
pub proof fn law_store_later_load(
    r: Registers,
    m: MemoryState,
    core_id: u32,
    rnd: u32,
    q: Registers,
    m3: MemoryState,
    j: u8,
)
    requires
        core_wf(r, m),
        code(r, m, 0) matches Some(op) && (op == 0x03 || op == 0x25 || op == 0x2F),
        step_spec(r, m, core_id, rnd).2 is Ok,
        core_wf(q, m3),
        word40(m.ram, r.ptr + r.pc + 1) + 4 <= bank(m, bank_of(m.ram[r.ptr + r.pc])).len(),
        ({
            let b = bank_of(m.ram[r.ptr + r.pc]);
            let a = word40(m.ram, r.ptr + r.pc + 1) as int;
            let m2 = step_spec(r, m, core_id, rnd).1;
            &&& bank(m3, b).len() == bank(m, b).len()
            &&& bank(m3, b).subrange(a, a + 4) == bank(m2, b).subrange(a, a + 4)
        }),
        code(q, m3, 0) == Some(load_for(m.ram[r.ptr + r.pc])),
        q.ptr + q.pc + 7 <= m3.ram.len(),
        word40(m3.ram, q.ptr + q.pc + 1) == word40(m.ram, r.ptr + r.pc + 1),
        m3.ram[q.ptr + q.pc + 6] == j,
        j <= 0x0B,
        m.ram[r.ptr + r.pc + 6] <= 0x0B,
        short_code(j) == short_code(m.ram[r.ptr + r.pc + 6]),
    ensures
        step_spec(q, m3, core_id, rnd) == (
            set_reg(adv(q, 7), j, reg_value(r, m.ram[r.ptr + r.pc + 6])),
            m3,
            Ok::<Action, crate::cpu::Fault>(Action::Continue),
        ),
{
    let p = r.ptr + r.pc;
    let op = m.ram[p];
    let b = bank_of(op);
    let a = word40(m.ram, p + 1);
    let i = m.ram[p + 6];
    let v = reg_value(r, i);
    law_store_step(r, m, core_id, rnd);
    let m2 = step_spec(r, m, core_id, rnd).1;
    assert(bank(m2, b) == write_clipped(bank(m, b), a as int, crate::cpu::stored(r, i)));
    law_store_load_word(bank(m, b), a as int, v, v as u16);
    let s2 = bank(m2, b);
    let s3 = bank(m3, b);
    assert forall|k: int| a <= k < a + 4 implies #[trigger] s3[k] == s2[k] by {
        assert(s3.subrange(a as int, a + 4)[k - a] == s2.subrange(a as int, a + 4)[k - a]);
    }
    assert(s3[a as int] == s2[a as int] && s3[a + 1] == s2[a + 1] && s3[a + 2] == s2[a + 2]
        && s3[a + 3] == s2[a + 3]);
    if short_code(i) {
        assert(word16(s3, a as int) == v as u16);
        assert((v as u16) as u32 == v) by (bit_vector)
            requires
                v <= 0xFFFF,
        ;
    } else {
        assert(word32(s3, a as int) == v);
    }
    let q1 = adv(q, 1);
    assert(q1.ptr + q1.pc == q.ptr + q.pc + 1);
    assert(bank_of(load_for(op)) == b);
    assert(step_spec(q, m3, core_id, rnd) == load_abs(b, q1, m3));
}


/// The data register with code `i` (0 to 11: `ax bx cx dx ay by cy dy ar br
/// cr dr`), read straight from the register fields.
pub open spec fn register(r: Registers, i: u8) -> int {
    if i == 0 {
        r.ax as int
    } else if i == 1 {
        r.bx as int
    } else if i == 2 {
        r.cx as int
    } else if i == 3 {
        r.dx as int
    } else if i == 4 {
        r.ay as int
    } else if i == 5 {
        r.by as int
    } else if i == 6 {
        r.cy as int
    } else if i == 7 {
        r.dy as int
    } else if i == 8 {
        r.ar as int
    } else if i == 9 {
        r.br as int
    } else if i == 10 {
        r.cr as int
    } else {
        r.dr as int
    }
}

/// The result register of column `k` (0 to 3: `ar br cr dr`).
pub open spec fn result_register(r: Registers, k: int) -> int {
    if k == 0 {
        r.ar as int
    } else if k == 1 {
        r.br as int
    } else if k == 2 {
        r.cr as int
    } else {
        r.dr as int
    }
}

/// The number whose big-endian bytes are `s[i..i + 5]`.
pub open spec fn be40(s: Seq<u8>, i: int) -> int {
    s[i] * 0x1_0000_0000 + s[i + 1] * 0x100_0000 + s[i + 2] * 0x1_0000 + s[i + 3] * 0x100 + s[i + 4]
}

/// The number whose big-endian bytes are `s[i..i + 4]`.
pub open spec fn be32(s: Seq<u8>, i: int) -> int {
    s[i] * 0x100_0000 + s[i + 1] * 0x1_0000 + s[i + 2] * 0x100 + s[i + 3]
}

proof fn lemma_word40_value(s: Seq<u8>, i: int)
    ensures
        word40(s, i) == be40(s, i),
{
    let (b0, b1, b2, b3, b4) = (s[i], s[i + 1], s[i + 2], s[i + 3], s[i + 4]);
    assert((((b0 as u64) << 32u64) | ((b1 as u64) << 24u64) | ((b2 as u64) << 16u64) | ((
    b3 as u64) << 8u64) | (b4 as u64)) == b0 * 0x1_0000_0000 + b1 * 0x100_0000 + b2 * 0x1_0000
        + b3 * 0x100 + b4) by (bit_vector);
}

proof fn lemma_word32_value(s: Seq<u8>, i: int)
    ensures
        word32(s, i) == be32(s, i),
{
    let (b0, b1, b2, b3) = (s[i], s[i + 1], s[i + 2], s[i + 3]);
    assert((((b0 as u32) << 24u32) | ((b1 as u32) << 16u32) | ((b2 as u32) << 8u32) | (b3 as u32))
        == b0 * 0x100_0000 + b1 * 0x1_0000 + b2 * 0x100 + b3) by (bit_vector);
}

proof fn lemma_register_agrees(r: Registers, i: u8)
    requires
        i <= 0x0B,
    ensures
        reg_value(r, i) == register(r, i),
        !short_code(i) ==> forall|v: u32| #[trigger] register(set_reg(r, i, v), i) == v,
{
}

/// The jumps: JMP (0x0A) always sets `pc` to its 5-byte big-endian address;
/// JE (0x0B) does when `cr == 0`, JNE (0x0C) when `cr != 0`, JL (0x0D) when
/// `cr < by`, JLE (0x0E) when `cr <= by`, JG (0x0F) when `cr > by`, JGE
/// (0x10) when `cr >= by`, CMP (0x11) when `cr == by`, JCID (0x2C) when `cr`
/// is the core's number and JNCI (0x2D) when it is not; otherwise `pc` moves
/// past the six bytes. Nothing else changes.
pub proof fn law_jumps(r: Registers, m: MemoryState, core_id: u32, rnd: u32)
    requires
        core_wf(r, m),
        r.ptr + r.pc + 6 <= m.ram.len(),
        ({
            let op = m.ram[r.ptr + r.pc];
            (0x0A <= op <= 0x11) || op == 0x2C || op == 0x2D
        }),
    ensures
        ({
            let p = r.ptr + r.pc;
            let op = m.ram[p];
            let taken = op == 0x0A || (op == 0x0B && r.cr == 0) || (op == 0x0C && r.cr != 0) || (op
                == 0x0D && r.cr < r.by) || (op == 0x0E && r.cr <= r.by) || (op == 0x0F && r.cr
                > r.by) || (op == 0x10 && r.cr >= r.by) || (op == 0x11 && r.cr == r.by) || (op
                == 0x2C && r.cr == core_id) || (op == 0x2D && r.cr != core_id);
            let o = step_spec(r, m, core_id, rnd);
            &&& o.1 == m
            &&& o.2 == Ok::<Action, crate::cpu::Fault>(Action::Continue)
            &&& o.0 == Registers { pc: o.0.pc, ..r }
            &&& o.0.pc == if taken {
                be40(m.ram, p + 1)
            } else {
                r.pc + 6
            }
        }),
{
    let p = r.ptr + r.pc;
    lemma_word40_value(m.ram, p + 1);
    lemma_word40_small(m.ram, p + 1);
}

/// `v << n` is `v` times `2^n`, cut to 32 bits.
proof fn lemma_shl_value(v: u32, n: u8)
    requires
        n < 32,
    ensures
        (v << n) as int == (v * pow2(n as nat)) % 0x1_0000_0000,
{
    let w: u64 = (v as u64) << (n as u64);
    assert(v << n == (w % 0x1_0000_0000) as u32) by (bit_vector)
        requires
            w == (v as u64) << (n as u64),
            n < 32,
    ;
    lemma2_to64();
    lemma_pow2_strictly_increases(n as nat, 32);
    let q = pow2(n as nat);
    assert(v * q <= u64::MAX) by (nonlinear_arith)
        requires
            q < 0x1_0000_0000,
            v <= 0xFFFF_FFFF,
    ;
    lemma_u64_shl_is_mul(v as u64, n as u64);
}

/// `v >> n` is `v` divided by `2^n`, rounded down.
proof fn lemma_shr_value(v: u32, n: u8)
    requires
        n < 32,
    ensures
        (v >> n) as int == (v as int) / (pow2(n as nat) as int),
{
    assert(v >> n == v >> (n as u32)) by (bit_vector);
    lemma_u32_shr_is_div(v, n as u32);
}

/// The value that shift code `i` (0 to 7) shifts: `ax bx cx dx ay by cy dy`.
pub open spec fn shift_input(r: Registers, i: u8) -> int {
    register(r, i)
}

/// SHL (0x16) and SHR (0x17) with input code `i` below 8 and amount `n`
/// below 32: the result register of column `i % 4` becomes the input times
/// `2^n` cut to 32 bits (SHL) or the input divided by `2^n` (SHR); `pc`
/// moves past the three bytes and nothing else changes.
pub proof fn law_shifts(r: Registers, m: MemoryState, core_id: u32, rnd: u32)
    requires
        core_wf(r, m),
        r.ptr + r.pc + 3 <= m.ram.len(),
        m.ram[r.ptr + r.pc] == 0x16 || m.ram[r.ptr + r.pc] == 0x17,
        m.ram[r.ptr + r.pc + 1] < 8,
        m.ram[r.ptr + r.pc + 2] < 32,
    ensures
        ({
            let p = r.ptr + r.pc;
            let i = m.ram[p + 1];
            let n = m.ram[p + 2];
            let k = (i % 4) as int;
            let v = register(r, i);
            let o = step_spec(r, m, core_id, rnd);
            &&& o.1 == m
            &&& o.2 == Ok::<Action, crate::cpu::Fault>(Action::Continue)
            &&& o.0.pc == r.pc + 3
            &&& result_register(o.0, k) == if m.ram[p] == 0x16 {
                (v * pow2(n as nat)) % 0x1_0000_0000
            } else {
                v / (pow2(n as nat) as int)
            }
            &&& forall|j: u8| j < 8 ==> #[trigger] register(o.0, j) == register(r, j)
            &&& forall|k2: int|
                0 <= k2 < 4 && k2 != k ==> #[trigger] result_register(o.0, k2) == result_register(r, k2)
            &&& o.0.ptr == r.ptr && o.0.stck_ptr == r.stck_ptr
        }),
{
    let p = r.ptr + r.pc;
    let i = m.ram[p + 1];
    let n = m.ram[p + 2];
    let k = (i % 4) as int;
    let r1 = adv(r, 1);
    let v = (if i < 4 {
        crate::cpu::x_reg(r1, k)
    } else {
        crate::cpu::y_reg(r1, k)
    }) as u32;
    assert(v as int == register(r, i));
    lemma_shl_value(v, n);
    lemma_shr_value(v, n);
}

/// Register-relative loads and stores address `h * 65536 + v` for base value
/// `v` below 65536 and high byte `h` (the high byte picks a 64 KiB page).
/// LOR (LDR, LCDR) loads the four big-endian bytes there into a 32-bit
/// target register; STR (SDR, SCDR) of a 32-bit source register writes its
/// value there as four big-endian bytes. `pc` moves past the four bytes.
pub proof fn law_relative_access(r: Registers, m: MemoryState, core_id: u32, rnd: u32)
    requires
        core_wf(r, m),
        r.ptr + r.pc + 4 <= m.ram.len(),
        ({
            let op = m.ram[r.ptr + r.pc];
            op == 0x1B || op == 0x26 || op == 0x30 || op == 0x1C || op == 0x27 || op == 0x31
        }),
        m.ram[r.ptr + r.pc + 1] <= 0x0B,
        register(r, m.ram[r.ptr + r.pc + 1]) < 0x1_0000,
        m.ram[r.ptr + r.pc + 3] <= 0x0B,
        !short_code(m.ram[r.ptr + r.pc + 3]),
        ({
            let p = r.ptr + r.pc;
            let a = m.ram[p + 2] * 0x1_0000 + register(r, m.ram[p + 1]);
            let b = bank_of(m.ram[p]);
            &&& a + 4 <= bank(m, b).len()
            &&& (b == Bank::Drive ==> a / 0x10_0000 < m.flags.len())
        }),
    ensures
        ({
            let p = r.ptr + r.pc;
            let op = m.ram[p];
            let b = bank_of(op);
            let a = m.ram[p + 2] * 0x1_0000 + register(r, m.ram[p + 1]);
            let t = m.ram[p + 3];
            let o = step_spec(r, m, core_id, rnd);
            &&& o.2 == Ok::<Action, crate::cpu::Fault>(Action::Continue)
            &&& o.0.pc == r.pc + 4
            &&& (op == 0x1B || op == 0x26 || op == 0x30) ==> register(o.0, t) == be32(bank(m, b), a)
                && o.1 == m
            &&& (op == 0x1C || op == 0x27 || op == 0x31) ==> be32(bank(o.1, b), a) == register(r, t)
                && o.0 == adv(r, 4)
        }),
{
    let p = r.ptr + r.pc;
    let op = m.ram[p];
    let b = bank_of(op);
    let i1 = m.ram[p + 1];
    let h = m.ram[p + 2];
    let t = m.ram[p + 3];
    let base = reg_value(r, i1);
    lemma_register_agrees(r, i1);
    lemma_register_agrees(r, t);
    assert(rel_address(h, base) == h * 0x1_0000 + base) by {
        assert((((h as u64) << 16u64) | (base as u64)) == h * 0x1_0000 + base) by (bit_vector)
            requires
                base < 0x1_0000,
        ;
    }
    let a = rel_address(h, base) as int;
    let r1 = adv(r, 1);
    assert(reg_value(r1, i1) == base);
    lemma_word32_value(bank(m, b), a);
    let r4 = adv(r, 4);
    assert(reg_value(r4, t) == reg_value(r, t));
    let v = reg_value(r, t);
    lemma_mark_keeps(m, b, a as u64);
    let m1 = mark(m, b, a as u64)->0;
    assert(bank(m1, b) == bank(m, b));
    law_store_load_word(bank(m1, b), a, v, 0);
    let s2 = write_clipped(bank(m1, b), a, bytes32(v));
    lemma_word32_value(s2, a);
}


/// The two values that ADD (`sub == false`) or SUB code `i` combine, read
/// from the register fields: codes 0-3 `x`/`y` of a column, 4-7 `x`/result,
/// 8-11 `y`/result, and for SUB 12-15 result/`x`, 16-19 result/`y`.
pub open spec fn operands(r: Registers, i: u8) -> (int, int) {
    let k = (i % 4) as u8;
    if i < 4 {
        (register(r, k), register(r, (k + 4) as u8))
    } else if i < 8 {
        (register(r, k), result_register(r, k as int))
    } else if i < 12 {
        (register(r, (k + 4) as u8), result_register(r, k as int))
    } else if i < 16 {
        (result_register(r, k as int), register(r, k))
    } else {
        (result_register(r, k as int), register(r, (k + 4) as u8))
    }
}

proof fn lemma_operands_agree(r: Registers, i: u8)
    ensures
        i < 12 ==> add_inputs(r, i) == operands(r, i),
        i < 20 ==> sub_inputs(r, i) == operands(r, i),
{
}

/// What a completed ALU instruction `op` with code byte at `ptr + pc` does
/// (`pc` already past the opcode).
spec fn alu_result(op: u8, r: Registers, m: MemoryState) -> bool {
    let i = m.ram[r.ptr + r.pc];
    let k = (i % 4) as int;
    let o = alu(op, r, m);
    let x = register(r, i);
    let y = register(r, (i + 4) as u8);
    &&& o.1 == m
    &&& o.0.pc == r.pc + 1
    &&& o.0.ptr == r.ptr && o.0.stck_ptr == r.stck_ptr
    &&& (op == 0x06 && i < 12) ==> result_register(o.0, k) == operands(r, i).0 + operands(r, i).1
    &&& (op == 0x07 && i < 20) ==> result_register(o.0, k) == operands(r, i).0 - operands(r, i).1
    &&& (op == 0x08 && i < 4) ==> result_register(o.0, k) == x * y
    &&& (op == 0x09 && i < 4) ==> result_register(o.0, k) == x / y
    &&& (op == 0x12 && i < 4) ==> result_register(o.0, k) == ((x as u32) & (y as u32))
    &&& (op == 0x13 && i < 4) ==> result_register(o.0, k) == ((x as u32) | (y as u32))
    &&& (op == 0x14 && i < 4) ==> result_register(o.0, k) == ((x as u32) ^ (y as u32))
    &&& (op == 0x15 && i < 8) ==> result_register(o.0, k) == (if short_code(i) {
        0xFFFFint
    } else {
        0xFFFF_FFFFint
    }) - x
    &&& (op == 0x1F && i <= 0x0B) ==> register(o.0, i) == x + 1
    &&& (op == 0x20 && i <= 0x0B) ==> register(o.0, i) == x - 1
    &&& forall|j: u8|
        j < 8 && !((op == 0x1F || op == 0x20) && j == i) ==> #[trigger] register(o.0, j) == register(
            r,
            j,
        )
}

#[verifier::spinoff_prover]
proof fn lemma_alu_add_sub(op: u8, r: Registers, m: MemoryState)
    requires
        core_wf(r, m),
        r.ptr + r.pc + 1 <= m.ram.len(),
        op == 0x06 || op == 0x07,
        alu(op, r, m).2 is Ok,
    ensures
        alu_result(op, r, m),
{
    let i = m.ram[r.ptr + r.pc];
    let r1 = adv(r, 1);
    lemma_operands_agree(r1, i);
    lemma_operands_agree(r, i);
}

#[verifier::spinoff_prover]
proof fn lemma_alu_columns(op: u8, r: Registers, m: MemoryState)
    requires
        core_wf(r, m),
        r.ptr + r.pc + 1 <= m.ram.len(),
        op == 0x08 || op == 0x09 || op == 0x12 || op == 0x13 || op == 0x14,
        alu(op, r, m).2 is Ok,
    ensures
        alu_result(op, r, m),
{
}

#[verifier::spinoff_prover]
proof fn lemma_alu_one_operand(op: u8, r: Registers, m: MemoryState)
    requires
        core_wf(r, m),
        r.ptr + r.pc + 1 <= m.ram.len(),
        op == 0x15 || op == 0x1F || op == 0x20,
        alu(op, r, m).2 is Ok,
    ensures
        alu_result(op, r, m),
{
    let i = m.ram[r.ptr + r.pc];
    let r1 = adv(r, 1);
    if op == 0x15 && i < 8 {
        let (ax, bx, cx, dx, ay, by, cy, dy) = (r.ax, r.bx, r.cx, r.dx, r.ay, r.by, r.cy, r.dy);
        assert(!ax == 0xFFFF_FFFF - ax && !bx == 0xFFFF_FFFF - bx && !ay == 0xFFFF_FFFF - ay && !by
            == 0xFFFF_FFFF - by) by (bit_vector);
        assert((!cx) as u32 == 0xFFFF - cx && (!dx) as u32 == 0xFFFF - dx && (!cy) as u32 == 0xFFFF
            - cy && (!dy) as u32 == 0xFFFF - dy) by (bit_vector);
    }
    if (op == 0x1F || op == 0x20) && i <= 0x0B {
        lemma_register_agrees(r1, i);
        lemma_register_agrees(r, i);
        let v = reg_value(r1, i);
        let w = (if op == 0x1F {
            v + 1
        } else {
            v - 1
        }) as u32;
        assert(register(set_reg(r1, i, w), i) == w);
    }
}

/// ADD, SUB, MUL, DIV, AND, OR, XOR, NOT, INC and DEC, when the step
/// completes: `pc` moves past the two bytes, memory is unchanged, and
/// - ADD code `i < 12` puts the sum of its two operands into the result
///   register of column `i % 4`, SUB code `i < 20` their difference;
/// - MUL, DIV, AND, OR, XOR code `i < 4` combine `x` and `y` of column `i`
///   into its result register: product, quotient rounded down, and the
///   bitwise and, or and exclusive or;
/// - NOT code `i < 8` puts the complement of input `i` (as a 16-bit value for
///   `cx dx cy dy`) into the result register of column `i % 4`;
/// - INC and DEC add or take one from data register `i` (`i <= 11`).
/// Every input register (`ax` to `dy`) keeps its value, except the one INC or
/// DEC changes.
pub proof fn law_arithmetic(r: Registers, m: MemoryState, core_id: u32, rnd: u32)
    requires
        core_wf(r, m),
        r.ptr + r.pc + 2 <= m.ram.len(),
        ({
            let op = m.ram[r.ptr + r.pc];
            op == 0x06 || op == 0x07 || op == 0x08 || op == 0x09 || op == 0x12 || op == 0x13 || op
                == 0x14 || op == 0x15 || op == 0x1F || op == 0x20
        }),
        step_spec(r, m, core_id, rnd).2 is Ok,
    ensures
        ({
            let p = r.ptr + r.pc;
            let op = m.ram[p];
            let i = m.ram[p + 1];
            let k = (i % 4) as int;
            let o = step_spec(r, m, core_id, rnd);
            let x = register(r, i);
            let y = register(r, (i + 4) as u8);
            &&& o.1 == m
            &&& o.0.pc == r.pc + 2
            &&& o.0.ptr == r.ptr && o.0.stck_ptr == r.stck_ptr
            &&& (op == 0x06 && i < 12) ==> result_register(o.0, k) == operands(r, i).0 + operands(
                r,
                i,
            ).1
            &&& (op == 0x07 && i < 20) ==> result_register(o.0, k) == operands(r, i).0 - operands(
                r,
                i,
            ).1
            &&& (op == 0x08 && i < 4) ==> result_register(o.0, k) == x * y
            &&& (op == 0x09 && i < 4) ==> result_register(o.0, k) == x / y
            &&& (op == 0x12 && i < 4) ==> result_register(o.0, k) == ((x as u32) & (y as u32))
            &&& (op == 0x13 && i < 4) ==> result_register(o.0, k) == ((x as u32) | (y as u32))
            &&& (op == 0x14 && i < 4) ==> result_register(o.0, k) == ((x as u32) ^ (y as u32))
            &&& (op == 0x15 && i < 8) ==> result_register(o.0, k) == (if short_code(i) {
                0xFFFFint
            } else {
                0xFFFF_FFFFint
            }) - x
            &&& (op == 0x1F && i <= 0x0B) ==> register(o.0, i) == x + 1
            &&& (op == 0x20 && i <= 0x0B) ==> register(o.0, i) == x - 1
            &&& forall|j: u8|
                j < 8 && !((op == 0x1F || op == 0x20) && j == i) ==> #[trigger] register(o.0, j)
                    == register(r, j)
        }),
{
    let p = r.ptr + r.pc;
    let op = m.ram[p];
    let r1 = adv(r, 1);
    assert(r1.ptr + r1.pc == p + 1);
    assert(step_spec(r, m, core_id, rnd) == alu(op, r1, m));
    if op == 0x15 || op == 0x1F || op == 0x20 {
        lemma_alu_one_operand(op, r1, m);
    } else if op == 0x06 || op == 0x07 {
        lemma_alu_add_sub(op, r1, m);
    } else {
        lemma_alu_columns(op, r1, m);
    }
    assert forall|j: u8| j <= 0x0B implies #[trigger] register(r1, j) == register(r, j) by {}
    assert forall|k: int| 0 <= k < 4 implies #[trigger] result_register(r1, k) == result_register(r, k) by {}
    let i = m.ram[p + 1];
    assert(operands(r1, i) == operands(r, i));
}

/// MOV with byte `x`: the register with code `x % 16` (`ax` to `dr`, then
/// `pc`, `ptr`) is copied, cut to its width, into the register with code `x
/// / 16`; `pc` moves past the two bytes first (so a copy of `pc` gives the
/// offset after the MOV).
pub proof fn law_move(r: Registers, m: MemoryState, core_id: u32, rnd: u32)
    requires
        core_wf(r, m),
        r.ptr + r.pc + 2 <= m.ram.len(),
        m.ram[r.ptr + r.pc] == 0x05,
        m.ram[r.ptr + r.pc + 1] % 16 <= 0x0B,
        m.ram[r.ptr + r.pc + 1] / 16 <= 0x0B,
    ensures
        ({
            let x = m.ram[r.ptr + r.pc + 1];
            let src = x % 16;
            let dst = x / 16;
            let o = step_spec(r, m, core_id, rnd);
            let v = register(r, src);
            &&& o.1 == m
            &&& o.2 == Ok::<Action, crate::cpu::Fault>(Action::Continue)
            &&& o.0.pc == r.pc + 2
            &&& register(o.0, dst) == if short_code(dst) {
                v % 0x1_0000
            } else {
                v
            }
            &&& forall|j: u8| j <= 0x0B && j != dst ==> #[trigger] register(o.0, j) == register(r, j)
        }),
{
    let x = m.ram[r.ptr + r.pc + 1];
    let src = x % 16;
    let dst = x / 16;
    let r2 = adv(adv(r, 1), 1);
    lemma_register_agrees(r2, src);
    let v = reg_value(r2, src);
    assert((v as u16) as u32 == v % 0x1_0000) by (bit_vector);
}

/// LDI with register code `i` (`ax` to `dr`): a 32-bit register takes the
/// four big-endian bytes after the code and `pc` moves past all six bytes;
/// a 16-bit register takes the first two of them and `pc` moves past four.
pub proof fn law_load_immediate(r: Registers, m: MemoryState, core_id: u32, rnd: u32)
    requires
        core_wf(r, m),
        r.ptr + r.pc + 6 <= m.ram.len(),
        m.ram[r.ptr + r.pc] == 0x04,
        m.ram[r.ptr + r.pc + 1] <= 0x0B,
    ensures
        ({
            let p = r.ptr + r.pc;
            let i = m.ram[p + 1];
            let o = step_spec(r, m, core_id, rnd);
            &&& o.1 == m
            &&& o.2 == Ok::<Action, crate::cpu::Fault>(Action::Continue)
            &&& o.0.pc == r.pc + if short_code(i) {
                4int
            } else {
                6int
            }
            &&& register(o.0, i) == if short_code(i) {
                m.ram[p + 2] * 0x100 + m.ram[p + 3]
            } else {
                be32(m.ram, p + 2)
            }
            &&& forall|j: u8| j <= 0x0B && j != i ==> #[trigger] register(o.0, j) == register(r, j)
        }),
{
    let p = r.ptr + r.pc;
    lemma_word32_value(m.ram, p + 2);
    let (a, b) = (m.ram[p + 2], m.ram[p + 3]);
    assert((((a as u16) << 8u16) | (b as u16)) == a * 0x100 + b) by (bit_vector);
}

/// LOD (LDD, LDCD) and STO (STD, STCD) with a 32-bit data register address
/// memory at the 5-byte big-endian number after the opcode: a load takes the
/// four big-endian bytes there, a store writes the register's value there
/// as four big-endian bytes; `pc` moves past the seven bytes.
pub proof fn law_absolute_access(r: Registers, m: MemoryState, core_id: u32, rnd: u32)
    requires
        core_wf(r, m),
        r.ptr + r.pc + 7 <= m.ram.len(),
        ({
            let op = m.ram[r.ptr + r.pc];
            op == 0x02 || op == 0x24 || op == 0x2E || op == 0x03 || op == 0x25 || op == 0x2F
        }),
        m.ram[r.ptr + r.pc + 6] <= 0x0B,
        !short_code(m.ram[r.ptr + r.pc + 6]),
        ({
            let p = r.ptr + r.pc;
            let a = be40(m.ram, p + 1);
            let b = bank_of(m.ram[p]);
            &&& a + 4 <= bank(m, b).len()
            &&& (b == Bank::Drive ==> a / 0x10_0000 < m.flags.len())
        }),
    ensures
        ({
            let p = r.ptr + r.pc;
            let op = m.ram[p];
            let b = bank_of(op);
            let a = be40(m.ram, p + 1);
            let t = m.ram[p + 6];
            let o = step_spec(r, m, core_id, rnd);
            &&& o.2 == Ok::<Action, crate::cpu::Fault>(Action::Continue)
            &&& o.0.pc == r.pc + 7
            &&& (op == 0x02 || op == 0x24 || op == 0x2E) ==> register(o.0, t) == be32(bank(m, b), a)
                && o.1 == m
            &&& (op == 0x03 || op == 0x25 || op == 0x2F) ==> be32(bank(o.1, b), a) == register(r, t)
                && o.0 == adv(r, 7)
        }),
{
    let p = r.ptr + r.pc;
    let op = m.ram[p];
    let b = bank_of(op);
    let t = m.ram[p + 6];
    lemma_word40_value(m.ram, p + 1);
    lemma_word40_small(m.ram, p + 1);
    let a = word40(m.ram, p + 1) as int;
    lemma_register_agrees(r, t);
    lemma_word32_value(bank(m, b), a);
    let r7 = adv(r, 7);
    assert(reg_value(r7, t) == reg_value(r, t));
    lemma_register_agrees(r7, t);
    let v = reg_value(r, t);
    lemma_mark_keeps(m, b, a as u64);
    let m1 = mark(m, b, a as u64)->0;
    law_store_load_word(bank(m1, b), a, v, 0);
    let s2 = write_clipped(bank(m1, b), a, bytes32(v));
    lemma_word32_value(s2, a);
}

/// PSH of a 32-bit data register writes its value as four big-endian bytes
/// at the stack address and moves the stack address up by four; POP into a
/// 32-bit data register moves the stack address down by four and loads the
/// four big-endian bytes there.
pub proof fn law_push_pop_bytes(r: Registers, m: MemoryState, core_id: u32, rnd: u32)
    requires
        core_wf(r, m),
        r.ptr + r.pc + 2 <= m.ram.len(),
        m.ram[r.ptr + r.pc] == 0x18 || m.ram[r.ptr + r.pc] == 0x19,
        m.ram[r.ptr + r.pc + 1] <= 0x0B,
        !short_code(m.ram[r.ptr + r.pc + 1]),
        m.ram[r.ptr + r.pc] == 0x18 ==> r.stck_ptr + 4 <= m.ram.len(),
        m.ram[r.ptr + r.pc] == 0x19 ==> 4 <= r.stck_ptr <= m.ram.len(),
    ensures
        ({
            let p = r.ptr + r.pc;
            let i = m.ram[p + 1];
            let o = step_spec(r, m, core_id, rnd);
            &&& o.2 == Ok::<Action, crate::cpu::Fault>(Action::Continue)
            &&& o.0.pc == r.pc + 2
            &&& m.ram[p] == 0x18 ==> o.0.stck_ptr == r.stck_ptr + 4 && be32(o.1.ram, r.stck_ptr as int)
                == register(r, i)
            &&& m.ram[p] == 0x19 ==> o.0.stck_ptr == r.stck_ptr - 4 && register(o.0, i) == be32(
                m.ram,
                r.stck_ptr - 4,
            ) && o.1 == m
        }),
{
    let p = r.ptr + r.pc;
    let i = m.ram[p + 1];
    let r2 = adv(adv(r, 1), 1);
    lemma_register_agrees(r2, i);
    lemma_register_agrees(r, i);
    let v = reg_value(r, i);
    if m.ram[p] == 0x18 {
        law_store_load_word(m.ram, r.stck_ptr as int, v, 0);
        lemma_word32_value(write_clipped(m.ram, r.stck_ptr as int, bytes32(v)), r.stck_ptr as int);
    } else {
        lemma_word32_value(m.ram, r.stck_ptr - 4);
        let r3 = Registers { stck_ptr: (r.stck_ptr - 4) as u64, ..r2 };
        lemma_register_agrees(r3, i);
    }
}

} // verus!
