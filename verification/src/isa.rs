//! The instruction set as the assembler sees it: mnemonics grouped by operand
//! layout, register names and their codes, and the size of each instruction.
use vstd::prelude::*;
use crate::text::is_word;

verus! {

/// A mnemonic of the assembly language, grouped by operand layout. The byte
/// held by a variant is the instruction's opcode.
#[derive(PartialEq, Eq, Debug, Clone, Copy, Structural)]
pub enum Instr {
    /// `nop`, `hlt`, `wit`: the opcode alone.
    Bare(u8),
    /// `lod sto ubs ubl ldd std sbd ldb ldcd stcd sbcd lcdb reg addr`:
    /// opcode, 5-byte address, register code.
    Absolute(u8),
    /// `ldi reg n`: opcode, register code, 2 or 4 bytes of `n`.
    Ldi,
    /// `mov src dst`: opcode, `dst << 4 | src`.
    Mov,
    /// `add pair`: opcode, one of twelve register-pair codes.
    Add,
    /// `sub a b`: opcode, one of twenty register-combination codes.
    Sub,
    /// `mul div and or xor` of `ar br cr dr`: opcode, pair code.
    Arith(u8),
    /// `jmp je jne jl jle jg jge cmp jcid jnci label`: opcode, 5-byte address.
    Jump(u8),
    /// `not reg`: opcode, code of one of the eight input registers.
    Not,
    /// `shl shr reg n`: opcode, input-register code, shift amount.
    Shift(u8),
    /// `psh pop rnd inc dec reg`: opcode, register code.
    Single(u8),
    /// `lor str sbr lbr ldr sdr sbdr ldbr lcdr scdr sbcdr lcdbr r1 hi r3`:
    /// opcode, code of `r3`, byte `hi`, code of `r1`.
    Relative(u8),
    /// `ptrm pc ptr`: opcode, 4 bytes of each operand.
    Ptrm,
    /// `dir hex`: one raw byte.
    Dir,
    /// `ast reg index`: a 20-byte sequence that loads the address of a text
    /// asset into a register.
    Ast,
}

/// The instruction that the (lowercase) word `w` names, if any.
pub open spec fn instr_of(w: Seq<char>) -> Option<Instr> {
    if w == "nop"@ { Some(Instr::Bare(0x00)) }
    else if w == "hlt"@ { Some(Instr::Bare(0x01)) }
    else if w == "lod"@ { Some(Instr::Absolute(0x02)) }
    else if w == "sto"@ { Some(Instr::Absolute(0x03)) }
    else if w == "ldi"@ { Some(Instr::Ldi) }
    else if w == "mov"@ { Some(Instr::Mov) }
    else if w == "add"@ { Some(Instr::Add) }
    else if w == "sub"@ { Some(Instr::Sub) }
    else if w == "mul"@ { Some(Instr::Arith(0x08)) }
    else if w == "div"@ { Some(Instr::Arith(0x09)) }
    else if w == "jmp"@ { Some(Instr::Jump(0x0A)) }
    else if w == "je"@ { Some(Instr::Jump(0x0B)) }
    else if w == "jne"@ { Some(Instr::Jump(0x0C)) }
    else if w == "jl"@ { Some(Instr::Jump(0x0D)) }
    else if w == "jle"@ { Some(Instr::Jump(0x0E)) }
    else if w == "jg"@ { Some(Instr::Jump(0x0F)) }
    else if w == "jge"@ { Some(Instr::Jump(0x10)) }
    else if w == "cmp"@ { Some(Instr::Jump(0x11)) }
    else if w == "and"@ { Some(Instr::Arith(0x12)) }
    else if w == "or"@ { Some(Instr::Arith(0x13)) }
    else if w == "xor"@ { Some(Instr::Arith(0x14)) }
    else if w == "not"@ { Some(Instr::Not) }
    else if w == "shl"@ { Some(Instr::Shift(0x16)) }
    else if w == "shr"@ { Some(Instr::Shift(0x17)) }
    else if w == "psh"@ { Some(Instr::Single(0x18)) }
    else if w == "pop"@ { Some(Instr::Single(0x19)) }
    else if w == "rnd"@ { Some(Instr::Single(0x1A)) }
    else if w == "lor"@ { Some(Instr::Relative(0x1B)) }
    else if w == "str"@ { Some(Instr::Relative(0x1C)) }
    else if w == "ubs"@ { Some(Instr::Absolute(0x1D)) }
    else if w == "sbr"@ { Some(Instr::Relative(0x1E)) }
    else if w == "inc"@ { Some(Instr::Single(0x1F)) }
    else if w == "dec"@ { Some(Instr::Single(0x20)) }
    else if w == "wit"@ { Some(Instr::Bare(0x21)) }
    else if w == "ubl"@ { Some(Instr::Absolute(0x22)) }
    else if w == "lbr"@ { Some(Instr::Relative(0x23)) }
    else if w == "ldd"@ { Some(Instr::Absolute(0x24)) }
    else if w == "std"@ { Some(Instr::Absolute(0x25)) }
    else if w == "ldr"@ { Some(Instr::Relative(0x26)) }
    else if w == "sdr"@ { Some(Instr::Relative(0x27)) }
    else if w == "sbd"@ { Some(Instr::Absolute(0x28)) }
    else if w == "sbdr"@ { Some(Instr::Relative(0x29)) }
    else if w == "ldb"@ { Some(Instr::Absolute(0x2A)) }
    else if w == "ldbr"@ { Some(Instr::Relative(0x2B)) }
    else if w == "jcid"@ { Some(Instr::Jump(0x2C)) }
    else if w == "jnci"@ { Some(Instr::Jump(0x2D)) }
    else if w == "ldcd"@ { Some(Instr::Absolute(0x2E)) }
    else if w == "stcd"@ { Some(Instr::Absolute(0x2F)) }
    else if w == "lcdr"@ { Some(Instr::Relative(0x30)) }
    else if w == "scdr"@ { Some(Instr::Relative(0x31)) }
    else if w == "sbcd"@ { Some(Instr::Absolute(0x32)) }
    else if w == "sbcdr"@ { Some(Instr::Relative(0x33)) }
    else if w == "lcdb"@ { Some(Instr::Absolute(0x34)) }
    else if w == "lcdbr"@ { Some(Instr::Relative(0x35)) }
    else if w == "ptrm"@ { Some(Instr::Ptrm) }
    else if w == "dir"@ { Some(Instr::Dir) }
    else if w == "ast"@ { Some(Instr::Ast) }
    else { None }
}

/// Looks up the instruction named by the word `w`.
pub fn instr(w: &Vec<char>) -> (r: Option<Instr>)
    ensures
        r == instr_of(w@),
{
    if is_word(w, "nop") { Some(Instr::Bare(0x00)) }
    else if is_word(w, "hlt") { Some(Instr::Bare(0x01)) }
    else if is_word(w, "lod") { Some(Instr::Absolute(0x02)) }
    else if is_word(w, "sto") { Some(Instr::Absolute(0x03)) }
    else if is_word(w, "ldi") { Some(Instr::Ldi) }
    else if is_word(w, "mov") { Some(Instr::Mov) }
    else if is_word(w, "add") { Some(Instr::Add) }
    else if is_word(w, "sub") { Some(Instr::Sub) }
    else if is_word(w, "mul") { Some(Instr::Arith(0x08)) }
    else if is_word(w, "div") { Some(Instr::Arith(0x09)) }
    else if is_word(w, "jmp") { Some(Instr::Jump(0x0A)) }
    else if is_word(w, "je") { Some(Instr::Jump(0x0B)) }
    else if is_word(w, "jne") { Some(Instr::Jump(0x0C)) }
    else if is_word(w, "jl") { Some(Instr::Jump(0x0D)) }
    else if is_word(w, "jle") { Some(Instr::Jump(0x0E)) }
    else if is_word(w, "jg") { Some(Instr::Jump(0x0F)) }
    else if is_word(w, "jge") { Some(Instr::Jump(0x10)) }
    else if is_word(w, "cmp") { Some(Instr::Jump(0x11)) }
    else if is_word(w, "and") { Some(Instr::Arith(0x12)) }
    else if is_word(w, "or") { Some(Instr::Arith(0x13)) }
    else if is_word(w, "xor") { Some(Instr::Arith(0x14)) }
    else if is_word(w, "not") { Some(Instr::Not) }
    else if is_word(w, "shl") { Some(Instr::Shift(0x16)) }
    else if is_word(w, "shr") { Some(Instr::Shift(0x17)) }
    else if is_word(w, "psh") { Some(Instr::Single(0x18)) }
    else if is_word(w, "pop") { Some(Instr::Single(0x19)) }
    else if is_word(w, "rnd") { Some(Instr::Single(0x1A)) }
    else if is_word(w, "lor") { Some(Instr::Relative(0x1B)) }
    else if is_word(w, "str") { Some(Instr::Relative(0x1C)) }
    else if is_word(w, "ubs") { Some(Instr::Absolute(0x1D)) }
    else if is_word(w, "sbr") { Some(Instr::Relative(0x1E)) }
    else if is_word(w, "inc") { Some(Instr::Single(0x1F)) }
    else if is_word(w, "dec") { Some(Instr::Single(0x20)) }
    else if is_word(w, "wit") { Some(Instr::Bare(0x21)) }
    else if is_word(w, "ubl") { Some(Instr::Absolute(0x22)) }
    else if is_word(w, "lbr") { Some(Instr::Relative(0x23)) }
    else if is_word(w, "ldd") { Some(Instr::Absolute(0x24)) }
    else if is_word(w, "std") { Some(Instr::Absolute(0x25)) }
    else if is_word(w, "ldr") { Some(Instr::Relative(0x26)) }
    else if is_word(w, "sdr") { Some(Instr::Relative(0x27)) }
    else if is_word(w, "sbd") { Some(Instr::Absolute(0x28)) }
    else if is_word(w, "sbdr") { Some(Instr::Relative(0x29)) }
    else if is_word(w, "ldb") { Some(Instr::Absolute(0x2A)) }
    else if is_word(w, "ldbr") { Some(Instr::Relative(0x2B)) }
    else if is_word(w, "jcid") { Some(Instr::Jump(0x2C)) }
    else if is_word(w, "jnci") { Some(Instr::Jump(0x2D)) }
    else if is_word(w, "ldcd") { Some(Instr::Absolute(0x2E)) }
    else if is_word(w, "stcd") { Some(Instr::Absolute(0x2F)) }
    else if is_word(w, "lcdr") { Some(Instr::Relative(0x30)) }
    else if is_word(w, "scdr") { Some(Instr::Relative(0x31)) }
    else if is_word(w, "sbcd") { Some(Instr::Absolute(0x32)) }
    else if is_word(w, "sbcdr") { Some(Instr::Relative(0x33)) }
    else if is_word(w, "lcdb") { Some(Instr::Absolute(0x34)) }
    else if is_word(w, "lcdbr") { Some(Instr::Relative(0x35)) }
    else if is_word(w, "ptrm") { Some(Instr::Ptrm) }
    else if is_word(w, "dir") { Some(Instr::Dir) }
    else if is_word(w, "ast") { Some(Instr::Ast) }
    else { None }
}

/// The code of the register named `w`, if `w` names one.
pub open spec fn reg_code_of(w: Seq<char>) -> Option<u8> {
    if w == "ax"@ { Some(0x00u8) }
    else if w == "bx"@ { Some(0x01u8) }
    else if w == "cx"@ { Some(0x02u8) }
    else if w == "dx"@ { Some(0x03u8) }
    else if w == "ay"@ { Some(0x04u8) }
    else if w == "by"@ { Some(0x05u8) }
    else if w == "cy"@ { Some(0x06u8) }
    else if w == "dy"@ { Some(0x07u8) }
    else if w == "ar"@ { Some(0x08u8) }
    else if w == "br"@ { Some(0x09u8) }
    else if w == "cr"@ { Some(0x0Au8) }
    else if w == "dr"@ { Some(0x0Bu8) }
    else if w == "pc"@ { Some(0x0Cu8) }
    else if w == "ptr"@ { Some(0x0Du8) }
    else { None }
}

/// Looks up the code of the register named `w`.
pub fn reg_code(w: &Vec<char>) -> (r: Option<u8>)
    ensures
        r == reg_code_of(w@),
{
    if is_word(w, "ax") { Some(0x00) }
    else if is_word(w, "bx") { Some(0x01) }
    else if is_word(w, "cx") { Some(0x02) }
    else if is_word(w, "dx") { Some(0x03) }
    else if is_word(w, "ay") { Some(0x04) }
    else if is_word(w, "by") { Some(0x05) }
    else if is_word(w, "cy") { Some(0x06) }
    else if is_word(w, "dy") { Some(0x07) }
    else if is_word(w, "ar") { Some(0x08) }
    else if is_word(w, "br") { Some(0x09) }
    else if is_word(w, "cr") { Some(0x0A) }
    else if is_word(w, "dr") { Some(0x0B) }
    else if is_word(w, "pc") { Some(0x0C) }
    else if is_word(w, "ptr") { Some(0x0D) }
    else { None }
}

/// Whether `w` names one of the four 16-bit registers.
pub open spec fn is_short_reg(w: Seq<char>) -> bool {
    w == "cx"@ || w == "cy"@ || w == "dx"@ || w == "dy"@
}

/// Tests whether `w` names one of the four 16-bit registers.
pub fn short_reg(w: &Vec<char>) -> (b: bool)
    ensures
        b == is_short_reg(w@),
{
    is_word(w, "cx") || is_word(w, "cy") || is_word(w, "dx") || is_word(w, "dy")
}

/// The operand code of `add`: which sum is computed into which result register.
pub open spec fn add_code_of(w: Seq<char>) -> Option<u8> {
    if w == "ar"@ { Some(0x00u8) }
    else if w == "br"@ { Some(0x01u8) }
    else if w == "cr"@ { Some(0x02u8) }
    else if w == "dr"@ { Some(0x03u8) }
    else if w == "ax"@ { Some(0x04u8) }
    else if w == "bx"@ { Some(0x05u8) }
    else if w == "cx"@ { Some(0x06u8) }
    else if w == "dx"@ { Some(0x07u8) }
    else if w == "ay"@ { Some(0x08u8) }
    else if w == "by"@ { Some(0x09u8) }
    else if w == "cy"@ { Some(0x0Au8) }
    else if w == "dy"@ { Some(0x0Bu8) }
    else { None }
}

/// Looks up the operand code of `add`.
pub fn add_code(w: &Vec<char>) -> (r: Option<u8>)
    ensures
        r == add_code_of(w@),
{
    if is_word(w, "ar") { Some(0x00) }
    else if is_word(w, "br") { Some(0x01) }
    else if is_word(w, "cr") { Some(0x02) }
    else if is_word(w, "dr") { Some(0x03) }
    else if is_word(w, "ax") { Some(0x04) }
    else if is_word(w, "bx") { Some(0x05) }
    else if is_word(w, "cx") { Some(0x06) }
    else if is_word(w, "dx") { Some(0x07) }
    else if is_word(w, "ay") { Some(0x08) }
    else if is_word(w, "by") { Some(0x09) }
    else if is_word(w, "cy") { Some(0x0A) }
    else if is_word(w, "dy") { Some(0x0B) }
    else { None }
}

/// The operand code of `sub`, looked up from its two register names written
/// one after the other.
pub open spec fn sub_code_of(w: Seq<char>) -> Option<u8> {
    if w == "ayax"@ { Some(0x00u8) }
    else if w == "bybx"@ { Some(0x01u8) }
    else if w == "cycx"@ { Some(0x02u8) }
    else if w == "dydx"@ { Some(0x03u8) }
    else if w == "arax"@ { Some(0x04u8) }
    else if w == "brbx"@ { Some(0x05u8) }
    else if w == "crcx"@ { Some(0x06u8) }
    else if w == "drdx"@ { Some(0x07u8) }
    else if w == "aray"@ { Some(0x08u8) }
    else if w == "brby"@ { Some(0x09u8) }
    else if w == "crcy"@ { Some(0x0Au8) }
    else if w == "drdy"@ { Some(0x0Bu8) }
    else if w == "axar"@ { Some(0x0Cu8) }
    else if w == "bxbr"@ { Some(0x0Du8) }
    else if w == "cxcr"@ { Some(0x0Eu8) }
    else if w == "dxdr"@ { Some(0x0Fu8) }
    else if w == "ayar"@ { Some(0x10u8) }
    else if w == "bybr"@ { Some(0x11u8) }
    else if w == "cycr"@ { Some(0x12u8) }
    else if w == "dydr"@ { Some(0x13u8) }
    else { None }
}

/// Looks up the operand code of `sub`.
pub fn sub_code(w: &Vec<char>) -> (r: Option<u8>)
    ensures
        r == sub_code_of(w@),
{
    if is_word(w, "ayax") { Some(0x00) }
    else if is_word(w, "bybx") { Some(0x01) }
    else if is_word(w, "cycx") { Some(0x02) }
    else if is_word(w, "dydx") { Some(0x03) }
    else if is_word(w, "arax") { Some(0x04) }
    else if is_word(w, "brbx") { Some(0x05) }
    else if is_word(w, "crcx") { Some(0x06) }
    else if is_word(w, "drdx") { Some(0x07) }
    else if is_word(w, "aray") { Some(0x08) }
    else if is_word(w, "brby") { Some(0x09) }
    else if is_word(w, "crcy") { Some(0x0A) }
    else if is_word(w, "drdy") { Some(0x0B) }
    else if is_word(w, "axar") { Some(0x0C) }
    else if is_word(w, "bxbr") { Some(0x0D) }
    else if is_word(w, "cxcr") { Some(0x0E) }
    else if is_word(w, "dxdr") { Some(0x0F) }
    else if is_word(w, "ayar") { Some(0x10) }
    else if is_word(w, "bybr") { Some(0x11) }
    else if is_word(w, "cycr") { Some(0x12) }
    else if is_word(w, "dydr") { Some(0x13) }
    else { None }
}

/// The operand code of `mul`, `div`, `and`, `or`, `xor`: the result register.
pub open spec fn result_code_of(w: Seq<char>) -> Option<u8> {
    if w == "ar"@ { Some(0x00u8) }
    else if w == "br"@ { Some(0x01u8) }
    else if w == "cr"@ { Some(0x02u8) }
    else if w == "dr"@ { Some(0x03u8) }
    else { None }
}

/// Looks up the result-register code.
pub fn result_code(w: &Vec<char>) -> (r: Option<u8>)
    ensures
        r == result_code_of(w@),
{
    if is_word(w, "ar") { Some(0x00) }
    else if is_word(w, "br") { Some(0x01) }
    else if is_word(w, "cr") { Some(0x02) }
    else if is_word(w, "dr") { Some(0x03) }
    else { None }
}

/// The operand code of `not`, `shl`, `shr`: one of the eight input registers.
pub open spec fn input_code_of(w: Seq<char>) -> Option<u8> {
    if w == "ax"@ { Some(0x00u8) }
    else if w == "bx"@ { Some(0x01u8) }
    else if w == "cx"@ { Some(0x02u8) }
    else if w == "dx"@ { Some(0x03u8) }
    else if w == "ay"@ { Some(0x04u8) }
    else if w == "by"@ { Some(0x05u8) }
    else if w == "cy"@ { Some(0x06u8) }
    else if w == "dy"@ { Some(0x07u8) }
    else { None }
}

/// Looks up the input-register code.
pub fn input_code(w: &Vec<char>) -> (r: Option<u8>)
    ensures
        r == input_code_of(w@),
{
    if is_word(w, "ax") { Some(0x00) }
    else if is_word(w, "bx") { Some(0x01) }
    else if is_word(w, "cx") { Some(0x02) }
    else if is_word(w, "dx") { Some(0x03) }
    else if is_word(w, "ay") { Some(0x04) }
    else if is_word(w, "by") { Some(0x05) }
    else if is_word(w, "cy") { Some(0x06) }
    else if is_word(w, "dy") { Some(0x07) }
    else { None }
}

/// The number of bytes that the first pass counts for a line whose tokens are
/// `cmd` (before any encoding is done): the table of instruction sizes, with
/// `dir` and every other word counted as zero.
pub open spec fn counted_size(cmd: Seq<Seq<char>>) -> nat
    recommends
        cmd.len() >= 1,
{
    match instr_of(cmd[0]) {
        Some(Instr::Bare(_)) => 1,
        Some(Instr::Absolute(_)) => 7,
        Some(Instr::Ldi) => if is_short_reg(cmd[1]) {
            4
        } else {
            6
        },
        Some(Instr::Mov) => 2,
        Some(Instr::Add) => 2,
        Some(Instr::Sub) => 2,
        Some(Instr::Arith(_)) => 2,
        Some(Instr::Jump(_)) => 6,
        Some(Instr::Not) => 2,
        Some(Instr::Shift(_)) => 3,
        Some(Instr::Single(_)) => 2,
        Some(Instr::Relative(_)) => 4,
        Some(Instr::Ptrm) => 9,
        Some(Instr::Dir) => 0,
        Some(Instr::Ast) => 20,
        None => 0,
    }
}

/// Big-endian bytes of the low 16 bits of `v`.
pub open spec fn be2(v: u64) -> Seq<u8> {
    seq![(v >> 8u64) as u8, v as u8]
}

/// Big-endian bytes of the low 32 bits of `v`.
pub open spec fn be4(v: u64) -> Seq<u8> {
    seq![(v >> 24u64) as u8, (v >> 16u64) as u8, (v >> 8u64) as u8, v as u8]
}

/// Big-endian bytes of the low 40 bits of `v`.
pub open spec fn be5(v: u64) -> Seq<u8> {
    seq![(v >> 32u64) as u8, (v >> 24u64) as u8, (v >> 16u64) as u8, (v >> 8u64) as u8, v as u8]
}

/// Appends the big-endian bytes of the low 16 bits of `v`.
pub fn push_be2(out: &mut Vec<u8>, v: u64)
    ensures
        final(out)@ == old(out)@ + be2(v),
{
    out.push((v >> 8) as u8);
    out.push(v as u8);
    assert(final(out)@ =~= old(out)@ + be2(v));
}

/// Appends the big-endian bytes of the low 32 bits of `v`.
pub fn push_be4(out: &mut Vec<u8>, v: u64)
    ensures
        final(out)@ == old(out)@ + be4(v),
{
    out.push((v >> 24) as u8);
    out.push((v >> 16) as u8);
    out.push((v >> 8) as u8);
    out.push(v as u8);
    assert(final(out)@ =~= old(out)@ + be4(v));
}

/// Appends the big-endian bytes of the low 40 bits of `v`.
pub fn push_be5(out: &mut Vec<u8>, v: u64)
    ensures
        final(out)@ == old(out)@ + be5(v),
{
    out.push((v >> 32) as u8);
    out.push((v >> 24) as u8);
    out.push((v >> 16) as u8);
    out.push((v >> 8) as u8);
    out.push(v as u8);
    assert(final(out)@ =~= old(out)@ + be5(v));
}

} // verus!
