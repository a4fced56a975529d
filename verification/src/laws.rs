//! Properties that relate several functions of the library.
use vstd::prelude::*;
use crate::encode::{encode_spec, label_lookup, Encoded, LineFault};
use crate::cpu_laws::call_code;
use crate::isa::{Instr, instr_of, counted_size, be2, be4, be5};
use crate::assembler::{first_pass, second_pass, lines_wf};
use crate::text::starts_with;

verus! {

/// Every line that encodes has exactly as many bytes as the first pass
/// counts for it, except `dir`, which the first pass counts as 0 bytes and
/// which emits 1 byte; a line that names an asset is an `ast` line of 20 bytes.
pub proof fn lemma_encoded_len(cmd: Seq<Seq<char>>, labels: Seq<(Seq<char>, u64)>)
    requires
        cmd.len() >= 1,
    ensures
        encode_spec(cmd, labels) matches Ok((b, a)) ==> {
            &&& instr_of(cmd[0]) != Some(Instr::Dir) ==> b.len() == counted_size(cmd)
            &&& instr_of(cmd[0]) == Some(Instr::Dir) ==> b.len() == 1 && counted_size(cmd) == 0
            &&& b.len() <= 20
            &&& a is Some ==> b.len() == 20
        },
{
    match encode_spec(cmd, labels) {
        Ok((b, a)) => {
            assert(be2(0).len() == 2);
            assert(be4(0).len() == 4);
            assert(be5(0).len() == 5);
        },
        Err(_) => {},
    }
}


/// A line that the second pass passes over without encoding (a label, a
/// comment, a file or line-number marker, an empty line) names no instruction,
/// so the first pass counts no bytes for it either.
pub proof fn lemma_marker_not_instr(w: Seq<char>)
    requires
        starts_with(w, seq!['.']) || starts_with(w, seq![';']) || w == "file_start:"@ || w
            == "remove_line:"@ || w.len() == 0,
    ensures
        instr_of(w) is None,
{
    reveal_strlit("nop");
    reveal_strlit("hlt");
    reveal_strlit("lod");
    reveal_strlit("sto");
    reveal_strlit("ldi");
    reveal_strlit("mov");
    reveal_strlit("add");
    reveal_strlit("sub");
    reveal_strlit("mul");
    reveal_strlit("div");
    reveal_strlit("jmp");
    reveal_strlit("je");
    reveal_strlit("jne");
    reveal_strlit("jl");
    reveal_strlit("jle");
    reveal_strlit("jg");
    reveal_strlit("jge");
    reveal_strlit("cmp");
    reveal_strlit("and");
    reveal_strlit("or");
    reveal_strlit("xor");
    reveal_strlit("not");
    reveal_strlit("shl");
    reveal_strlit("shr");
    reveal_strlit("psh");
    reveal_strlit("pop");
    reveal_strlit("rnd");
    reveal_strlit("lor");
    reveal_strlit("str");
    reveal_strlit("ubs");
    reveal_strlit("sbr");
    reveal_strlit("inc");
    reveal_strlit("dec");
    reveal_strlit("wit");
    reveal_strlit("ubl");
    reveal_strlit("lbr");
    reveal_strlit("ldd");
    reveal_strlit("std");
    reveal_strlit("ldr");
    reveal_strlit("sdr");
    reveal_strlit("sbd");
    reveal_strlit("sbdr");
    reveal_strlit("ldb");
    reveal_strlit("ldbr");
    reveal_strlit("jcid");
    reveal_strlit("jnci");
    reveal_strlit("ldcd");
    reveal_strlit("stcd");
    reveal_strlit("lcdr");
    reveal_strlit("scdr");
    reveal_strlit("sbcd");
    reveal_strlit("sbcdr");
    reveal_strlit("lcdb");
    reveal_strlit("lcdbr");
    reveal_strlit("ptrm");
    reveal_strlit("dir");
    reveal_strlit("ast");
    reveal_strlit("file_start:");
    reveal_strlit("remove_line:");
    if starts_with(w, seq!['.']) || starts_with(w, seq![';']) {
        assert(w.take(1)[0] == w[0]);
    }
}

/// The number of `dir` lines among `lines`.
pub open spec fn dir_lines(lines: Seq<Seq<Seq<char>>>) -> nat
    decreases lines.len(),
{
    if lines.len() == 0 {
        0
    } else {
        dir_lines(lines.drop_last()) + (if instr_of(lines.last()[0]) == Some(Instr::Dir) {
            1nat
        } else {
            0nat
        })
    }
}

/// The first pass and the second pass agree on where every line starts: when
/// both go through `lines`, the second pass has emitted the header, the bytes
/// that the first pass counted, and one byte per `dir` line (which the first
/// pass counts as 0). So the address of a label defined after `lines` is its
/// offset in the output, less the header and the `dir` bytes before it.
pub proof fn law_label_addresses(
    lines: Seq<Seq<Seq<char>>>,
    labels: Seq<(Seq<char>, u64)>,
    header: Seq<u8>,
)
    requires
        lines_wf(lines),
        first_pass(lines) is Ok,
        second_pass(lines, labels, header) is Ok,
    ensures
        second_pass(lines, labels, header)->Ok_0.bytes.len() == header.len() + first_pass(
            lines,
        )->Ok_0.1 + dir_lines(lines),
    decreases lines.len(),
{
    if lines.len() > 0 {
        let prev = lines.drop_last();
        assert(lines_wf(prev)) by {
            assert forall|i: int| 0 <= i < prev.len() implies #[trigger] prev[i].len() >= 1 by {
                assert(prev[i] == lines[i]);
            }
        }
        law_label_addresses(prev, labels, header);
        let cmd = lines.last();
        assert(cmd == lines[lines.len() - 1]);
        assert(cmd.len() >= 1);
        let w = cmd[0];
        lemma_encoded_len(cmd, labels);
        if starts_with(w, seq!['.']) || starts_with(w, seq![';']) || w == "file_start:"@ || w
            == "remove_line:"@ || w.len() == 0 {
            lemma_marker_not_instr(w);
        }
    }
}

/// The second pass emits exactly the bytes of the label offsets in a program
/// without header bytes and without `dir` lines: every label's address is the
/// position at which the line after it starts.
pub proof fn law_label_addresses_exact(
    lines: Seq<Seq<Seq<char>>>,
    labels: Seq<(Seq<char>, u64)>,
)
    requires
        lines_wf(lines),
        first_pass(lines) is Ok,
        second_pass(lines, labels, Seq::empty()) is Ok,
        dir_lines(lines) == 0,
    ensures
        second_pass(lines, labels, Seq::empty())->Ok_0.bytes.len() == first_pass(lines)->Ok_0.1,
{
    law_label_addresses(lines, labels, Seq::empty());
}


proof fn lemma_encode_mov(labels: Seq<(Seq<char>, u64)>)
    ensures
        encode_spec(seq!["mov"@, "pc"@, "br"@], labels) == Ok::<Encoded, LineFault>(
            (seq![0x05u8, 0x9Cu8], None),
        ),
{
    reveal_strlit("nop");
    reveal_strlit("hlt");
    reveal_strlit("lod");
    reveal_strlit("sto");
    reveal_strlit("ldi");
    reveal_strlit("mov");
    reveal_strlit("ax");
    reveal_strlit("bx");
    reveal_strlit("cx");
    reveal_strlit("dx");
    reveal_strlit("ay");
    reveal_strlit("by");
    reveal_strlit("cy");
    reveal_strlit("dy");
    reveal_strlit("ar");
    reveal_strlit("br");
    reveal_strlit("cr");
    reveal_strlit("dr");
    reveal_strlit("pc");
    reveal_strlit("ptr");
    assert("mov"@[0] == 'm' && "nop"@[0] == 'n');
    assert("mov"@ != "nop"@);
    assert("mov"@[0] == 'm' && "hlt"@[0] == 'h');
    assert("mov"@ != "hlt"@);
    assert("mov"@[0] == 'm' && "lod"@[0] == 'l');
    assert("mov"@ != "lod"@);
    assert("mov"@[0] == 'm' && "sto"@[0] == 's');
    assert("mov"@ != "sto"@);
    assert("mov"@[0] == 'm' && "ldi"@[0] == 'l');
    assert("mov"@ != "ldi"@);
    assert("pc"@[0] == 'p' && "ax"@[0] == 'a');
    assert("pc"@ != "ax"@);
    assert("pc"@[0] == 'p' && "bx"@[0] == 'b');
    assert("pc"@ != "bx"@);
    assert("pc"@[0] == 'p' && "cx"@[0] == 'c');
    assert("pc"@ != "cx"@);
    assert("pc"@[0] == 'p' && "dx"@[0] == 'd');
    assert("pc"@ != "dx"@);
    assert("pc"@[0] == 'p' && "ay"@[0] == 'a');
    assert("pc"@ != "ay"@);
    assert("pc"@[0] == 'p' && "by"@[0] == 'b');
    assert("pc"@ != "by"@);
    assert("pc"@[0] == 'p' && "cy"@[0] == 'c');
    assert("pc"@ != "cy"@);
    assert("pc"@[0] == 'p' && "dy"@[0] == 'd');
    assert("pc"@ != "dy"@);
    assert("pc"@[0] == 'p' && "ar"@[0] == 'a');
    assert("pc"@ != "ar"@);
    assert("pc"@[0] == 'p' && "br"@[0] == 'b');
    assert("pc"@ != "br"@);
    assert("pc"@[0] == 'p' && "cr"@[0] == 'c');
    assert("pc"@ != "cr"@);
    assert("pc"@[0] == 'p' && "dr"@[0] == 'd');
    assert("pc"@ != "dr"@);
    assert("br"@[0] == 'b' && "ax"@[0] == 'a');
    assert("br"@ != "ax"@);
    assert("br"@[1] == 'r' && "bx"@[1] == 'x');
    assert("br"@ != "bx"@);
    assert("br"@[0] == 'b' && "cx"@[0] == 'c');
    assert("br"@ != "cx"@);
    assert("br"@[0] == 'b' && "dx"@[0] == 'd');
    assert("br"@ != "dx"@);
    assert("br"@[0] == 'b' && "ay"@[0] == 'a');
    assert("br"@ != "ay"@);
    assert("br"@[1] == 'r' && "by"@[1] == 'y');
    assert("br"@ != "by"@);
    assert("br"@[0] == 'b' && "cy"@[0] == 'c');
    assert("br"@ != "cy"@);
    assert("br"@[0] == 'b' && "dy"@[0] == 'd');
    assert("br"@ != "dy"@);
    assert("br"@[0] == 'b' && "ar"@[0] == 'a');
    assert("br"@ != "ar"@);
    assert((((0x09u8 << 4u8) | 0x0Cu8) as u8) == 0x9Cu8) by (bit_vector);
}

proof fn lemma_encode_ldi(labels: Seq<(Seq<char>, u64)>)
    ensures
        encode_spec(seq!["ldi"@, "bx"@, "16"@], labels) == Ok::<Encoded, LineFault>(
            (seq![0x04u8, 0x01u8, 0u8, 0u8, 0u8, 16u8], None),
        ),
{
    reveal_strlit("nop");
    reveal_strlit("hlt");
    reveal_strlit("lod");
    reveal_strlit("sto");
    reveal_strlit("ldi");
    reveal_strlit("ax");
    reveal_strlit("bx");
    reveal_strlit("cx");
    reveal_strlit("cy");
    reveal_strlit("dx");
    reveal_strlit("dy");
    reveal_strlit("16");
    assert("ldi"@[0] == 'l' && "nop"@[0] == 'n');
    assert("ldi"@ != "nop"@);
    assert("ldi"@[0] == 'l' && "hlt"@[0] == 'h');
    assert("ldi"@ != "hlt"@);
    assert("ldi"@[1] == 'd' && "lod"@[1] == 'o');
    assert("ldi"@ != "lod"@);
    assert("ldi"@[0] == 'l' && "sto"@[0] == 's');
    assert("ldi"@ != "sto"@);
    assert("bx"@[0] == 'b' && "ax"@[0] == 'a');
    assert("bx"@ != "ax"@);
    assert("bx"@[0] == 'b' && "cx"@[0] == 'c');
    assert("bx"@ != "cx"@);
    assert("bx"@[0] == 'b' && "cy"@[0] == 'c');
    assert("bx"@ != "cy"@);
    assert("bx"@[0] == 'b' && "dx"@[0] == 'd');
    assert("bx"@ != "dx"@);
    assert("bx"@[0] == 'b' && "dy"@[0] == 'd');
    assert("bx"@ != "dy"@);
    let sixteen = "16"@;
    assert(sixteen =~= seq!['1', '6']);
    assert(!starts_with(sixteen, seq!['0', 'x'])) by {
        assert(sixteen[0] != '0');
    }
    assert(crate::number::digit_value('1', 10) == Some(1nat));
    assert(crate::number::digit_value('6', 10) == Some(6nat));
    let one = sixteen.drop_last();
    assert(one =~= seq!['1']);
    assert(one.drop_last() =~= Seq::<char>::empty());
    assert(crate::number::digits_value(one.drop_last(), 10) == Some(0nat));
    assert(crate::number::digits_value(one, 10) == Some(1nat));
    assert(crate::number::digits_value(sixteen, 10) == Some(16nat));
    assert(crate::number::parse_unsigned(sixteen, 10, u64::MAX as nat) == Some(16nat));
    assert(be4(16) =~= seq![0u8, 0u8, 0u8, 16u8]) by {
        assert((16u64 >> 24u64) as u8 == 0u8 && (16u64 >> 16u64) as u8 == 0u8 && (16u64
            >> 8u64) as u8 == 0u8 && 16u64 as u8 == 16u8) by (bit_vector);
    }
    assert(seq![0x04u8, 0x01u8] + be4(16) =~= seq![0x04u8, 0x01u8, 0u8, 0u8, 0u8, 16u8]);
}

proof fn lemma_encode_add(labels: Seq<(Seq<char>, u64)>)
    ensures
        encode_spec(seq!["add"@, "bx"@], labels) == Ok::<Encoded, LineFault>(
            (seq![0x06u8, 0x05u8], None),
        ),
{
    reveal_strlit("nop");
    reveal_strlit("hlt");
    reveal_strlit("lod");
    reveal_strlit("sto");
    reveal_strlit("ldi");
    reveal_strlit("mov");
    reveal_strlit("add");
    reveal_strlit("ar");
    reveal_strlit("br");
    reveal_strlit("cr");
    reveal_strlit("dr");
    reveal_strlit("ax");
    reveal_strlit("bx");
    assert("add"@[0] == 'a' && "nop"@[0] == 'n');
    assert("add"@ != "nop"@);
    assert("add"@[0] == 'a' && "hlt"@[0] == 'h');
    assert("add"@ != "hlt"@);
    assert("add"@[0] == 'a' && "lod"@[0] == 'l');
    assert("add"@ != "lod"@);
    assert("add"@[0] == 'a' && "sto"@[0] == 's');
    assert("add"@ != "sto"@);
    assert("add"@[0] == 'a' && "ldi"@[0] == 'l');
    assert("add"@ != "ldi"@);
    assert("add"@[0] == 'a' && "mov"@[0] == 'm');
    assert("add"@ != "mov"@);
    assert("bx"@[0] == 'b' && "ar"@[0] == 'a');
    assert("bx"@ != "ar"@);
    assert("bx"@[1] == 'x' && "br"@[1] == 'r');
    assert("bx"@ != "br"@);
    assert("bx"@[0] == 'b' && "cr"@[0] == 'c');
    assert("bx"@ != "cr"@);
    assert("bx"@[0] == 'b' && "dr"@[0] == 'd');
    assert("bx"@ != "dr"@);
    assert("bx"@[0] == 'b' && "ax"@[0] == 'a');
    assert("bx"@ != "ax"@);
}

proof fn lemma_encode_psh(labels: Seq<(Seq<char>, u64)>)
    ensures
        encode_spec(seq!["psh"@, "br"@], labels) == Ok::<Encoded, LineFault>(
            (seq![0x18u8, 0x09u8], None),
        ),
{
    reveal_strlit("nop");
    reveal_strlit("hlt");
    reveal_strlit("lod");
    reveal_strlit("sto");
    reveal_strlit("ldi");
    reveal_strlit("mov");
    reveal_strlit("add");
    reveal_strlit("sub");
    reveal_strlit("mul");
    reveal_strlit("div");
    reveal_strlit("jmp");
    reveal_strlit("je");
    reveal_strlit("jne");
    reveal_strlit("jl");
    reveal_strlit("jle");
    reveal_strlit("jg");
    reveal_strlit("jge");
    reveal_strlit("cmp");
    reveal_strlit("and");
    reveal_strlit("or");
    reveal_strlit("xor");
    reveal_strlit("not");
    reveal_strlit("shl");
    reveal_strlit("shr");
    reveal_strlit("psh");
    reveal_strlit("ax");
    reveal_strlit("bx");
    reveal_strlit("cx");
    reveal_strlit("dx");
    reveal_strlit("ay");
    reveal_strlit("by");
    reveal_strlit("cy");
    reveal_strlit("dy");
    reveal_strlit("ar");
    reveal_strlit("br");
    assert("psh"@[0] == 'p' && "nop"@[0] == 'n');
    assert("psh"@ != "nop"@);
    assert("psh"@[0] == 'p' && "hlt"@[0] == 'h');
    assert("psh"@ != "hlt"@);
    assert("psh"@[0] == 'p' && "lod"@[0] == 'l');
    assert("psh"@ != "lod"@);
    assert("psh"@[0] == 'p' && "sto"@[0] == 's');
    assert("psh"@ != "sto"@);
    assert("psh"@[0] == 'p' && "ldi"@[0] == 'l');
    assert("psh"@ != "ldi"@);
    assert("psh"@[0] == 'p' && "mov"@[0] == 'm');
    assert("psh"@ != "mov"@);
    assert("psh"@[0] == 'p' && "add"@[0] == 'a');
    assert("psh"@ != "add"@);
    assert("psh"@[0] == 'p' && "sub"@[0] == 's');
    assert("psh"@ != "sub"@);
    assert("psh"@[0] == 'p' && "mul"@[0] == 'm');
    assert("psh"@ != "mul"@);
    assert("psh"@[0] == 'p' && "div"@[0] == 'd');
    assert("psh"@ != "div"@);
    assert("psh"@[0] == 'p' && "jmp"@[0] == 'j');
    assert("psh"@ != "jmp"@);
    assert("psh"@.len() != "je"@.len());
    assert("psh"@ != "je"@);
    assert("psh"@[0] == 'p' && "jne"@[0] == 'j');
    assert("psh"@ != "jne"@);
    assert("psh"@.len() != "jl"@.len());
    assert("psh"@ != "jl"@);
    assert("psh"@[0] == 'p' && "jle"@[0] == 'j');
    assert("psh"@ != "jle"@);
    assert("psh"@.len() != "jg"@.len());
    assert("psh"@ != "jg"@);
    assert("psh"@[0] == 'p' && "jge"@[0] == 'j');
    assert("psh"@ != "jge"@);
    assert("psh"@[0] == 'p' && "cmp"@[0] == 'c');
    assert("psh"@ != "cmp"@);
    assert("psh"@[0] == 'p' && "and"@[0] == 'a');
    assert("psh"@ != "and"@);
    assert("psh"@.len() != "or"@.len());
    assert("psh"@ != "or"@);
    assert("psh"@[0] == 'p' && "xor"@[0] == 'x');
    assert("psh"@ != "xor"@);
    assert("psh"@[0] == 'p' && "not"@[0] == 'n');
    assert("psh"@ != "not"@);
    assert("psh"@[0] == 'p' && "shl"@[0] == 's');
    assert("psh"@ != "shl"@);
    assert("psh"@[0] == 'p' && "shr"@[0] == 's');
    assert("psh"@ != "shr"@);
    assert("br"@[0] == 'b' && "ax"@[0] == 'a');
    assert("br"@ != "ax"@);
    assert("br"@[1] == 'r' && "bx"@[1] == 'x');
    assert("br"@ != "bx"@);
    assert("br"@[0] == 'b' && "cx"@[0] == 'c');
    assert("br"@ != "cx"@);
    assert("br"@[0] == 'b' && "dx"@[0] == 'd');
    assert("br"@ != "dx"@);
    assert("br"@[0] == 'b' && "ay"@[0] == 'a');
    assert("br"@ != "ay"@);
    assert("br"@[1] == 'r' && "by"@[1] == 'y');
    assert("br"@ != "by"@);
    assert("br"@[0] == 'b' && "cy"@[0] == 'c');
    assert("br"@ != "cy"@);
    assert("br"@[0] == 'b' && "dy"@[0] == 'd');
    assert("br"@ != "dy"@);
    assert("br"@[0] == 'b' && "ar"@[0] == 'a');
    assert("br"@ != "ar"@);
}

proof fn lemma_encode_jmp(labels: Seq<(Seq<char>, u64)>, target: Seq<char>, a: u64)
    requires
        label_lookup(labels, target) == Some(a),
    ensures
        encode_spec(seq!["jmp"@, target], labels) == Ok::<Encoded, LineFault>(
            (seq![0x0Au8] + be5(a), None),
        ),
{
    reveal_strlit("nop");
    reveal_strlit("hlt");
    reveal_strlit("lod");
    reveal_strlit("sto");
    reveal_strlit("ldi");
    reveal_strlit("mov");
    reveal_strlit("add");
    reveal_strlit("sub");
    reveal_strlit("mul");
    reveal_strlit("div");
    reveal_strlit("jmp");
    assert("jmp"@[0] == 'j' && "nop"@[0] == 'n');
    assert("jmp"@ != "nop"@);
    assert("jmp"@[0] == 'j' && "hlt"@[0] == 'h');
    assert("jmp"@ != "hlt"@);
    assert("jmp"@[0] == 'j' && "lod"@[0] == 'l');
    assert("jmp"@ != "lod"@);
    assert("jmp"@[0] == 'j' && "sto"@[0] == 's');
    assert("jmp"@ != "sto"@);
    assert("jmp"@[0] == 'j' && "ldi"@[0] == 'l');
    assert("jmp"@ != "ldi"@);
    assert("jmp"@[0] == 'j' && "mov"@[0] == 'm');
    assert("jmp"@ != "mov"@);
    assert("jmp"@[0] == 'j' && "add"@[0] == 'a');
    assert("jmp"@ != "add"@);
    assert("jmp"@[0] == 'j' && "sub"@[0] == 's');
    assert("jmp"@ != "sub"@);
    assert("jmp"@[0] == 'j' && "mul"@[0] == 'm');
    assert("jmp"@ != "mul"@);
    assert("jmp"@[0] == 'j' && "div"@[0] == 'd');
    assert("jmp"@ != "div"@);
}

/// What `call` assembles to: the five lines that a `call` to a label expands
/// into (`mov pc br`, `ldi bx 16`, `add bx`, `psh br`, `jmp` the label)
/// encode, one after the other, to the machine code of a call to the label's
/// address, the code that the machine runs as a call (see `law_call_returns`).
#[verifier::rlimit(80)]
pub proof fn law_call_assembles(labels: Seq<(Seq<char>, u64)>, target: Seq<char>, a: u64)
    requires
        label_lookup(labels, target) == Some(a),
    ensures
        ({
            let e1 = encode_spec(seq!["mov"@, "pc"@, "br"@], labels);
            let e2 = encode_spec(seq!["ldi"@, "bx"@, "16"@], labels);
            let e3 = encode_spec(seq!["add"@, "bx"@], labels);
            let e4 = encode_spec(seq!["psh"@, "br"@], labels);
            let e5 = encode_spec(seq!["jmp"@, target], labels);
            &&& e1 is Ok && e2 is Ok && e3 is Ok && e4 is Ok && e5 is Ok
            &&& e1->Ok_0.0 + e2->Ok_0.0 + e3->Ok_0.0 + e4->Ok_0.0 + e5->Ok_0.0 == call_code(a)
        }),
{
    lemma_encode_mov(labels);
    lemma_encode_ldi(labels);
    lemma_encode_add(labels);
    lemma_encode_psh(labels);
    lemma_encode_jmp(labels, target, a);
    assert(seq![0x05u8, 0x9Cu8] + seq![0x04u8, 0x01u8, 0u8, 0u8, 0u8, 16u8] + seq![0x06u8, 0x05u8]
        + seq![0x18u8, 0x09u8] + (seq![0x0Au8] + be5(a)) =~= call_code(a));
}

proof fn lemma_encode_je(labels: Seq<(Seq<char>, u64)>, target: Seq<char>, a: u64)
    requires
        label_lookup(labels, target) == Some(a),
    ensures
        encode_spec(seq!["je"@, target], labels) == Ok::<Encoded, LineFault>(
            (seq![0x0bu8] + be5(a), None),
        ),
{
    reveal_strlit("nop");
    reveal_strlit("hlt");
    reveal_strlit("lod");
    reveal_strlit("sto");
    reveal_strlit("ldi");
    reveal_strlit("mov");
    reveal_strlit("add");
    reveal_strlit("sub");
    reveal_strlit("mul");
    reveal_strlit("div");
    reveal_strlit("jmp");
    reveal_strlit("je");
    assert("je"@.len() != "nop"@.len());
    assert("je"@ != "nop"@);
    assert("je"@.len() != "hlt"@.len());
    assert("je"@ != "hlt"@);
    assert("je"@.len() != "lod"@.len());
    assert("je"@ != "lod"@);
    assert("je"@.len() != "sto"@.len());
    assert("je"@ != "sto"@);
    assert("je"@.len() != "ldi"@.len());
    assert("je"@ != "ldi"@);
    assert("je"@.len() != "mov"@.len());
    assert("je"@ != "mov"@);
    assert("je"@.len() != "add"@.len());
    assert("je"@ != "add"@);
    assert("je"@.len() != "sub"@.len());
    assert("je"@ != "sub"@);
    assert("je"@.len() != "mul"@.len());
    assert("je"@ != "mul"@);
    assert("je"@.len() != "div"@.len());
    assert("je"@ != "div"@);
    assert("je"@.len() != "jmp"@.len());
    assert("je"@ != "jmp"@);
}

proof fn lemma_encode_jne(labels: Seq<(Seq<char>, u64)>, target: Seq<char>, a: u64)
    requires
        label_lookup(labels, target) == Some(a),
    ensures
        encode_spec(seq!["jne"@, target], labels) == Ok::<Encoded, LineFault>(
            (seq![0x0cu8] + be5(a), None),
        ),
{
    reveal_strlit("nop");
    reveal_strlit("hlt");
    reveal_strlit("lod");
    reveal_strlit("sto");
    reveal_strlit("ldi");
    reveal_strlit("mov");
    reveal_strlit("add");
    reveal_strlit("sub");
    reveal_strlit("mul");
    reveal_strlit("div");
    reveal_strlit("jmp");
    reveal_strlit("je");
    reveal_strlit("jne");
    assert("jne"@[0] == 'j' && "nop"@[0] == 'n');
    assert("jne"@ != "nop"@);
    assert("jne"@[0] == 'j' && "hlt"@[0] == 'h');
    assert("jne"@ != "hlt"@);
    assert("jne"@[0] == 'j' && "lod"@[0] == 'l');
    assert("jne"@ != "lod"@);
    assert("jne"@[0] == 'j' && "sto"@[0] == 's');
    assert("jne"@ != "sto"@);
    assert("jne"@[0] == 'j' && "ldi"@[0] == 'l');
    assert("jne"@ != "ldi"@);
    assert("jne"@[0] == 'j' && "mov"@[0] == 'm');
    assert("jne"@ != "mov"@);
    assert("jne"@[0] == 'j' && "add"@[0] == 'a');
    assert("jne"@ != "add"@);
    assert("jne"@[0] == 'j' && "sub"@[0] == 's');
    assert("jne"@ != "sub"@);
    assert("jne"@[0] == 'j' && "mul"@[0] == 'm');
    assert("jne"@ != "mul"@);
    assert("jne"@[0] == 'j' && "div"@[0] == 'd');
    assert("jne"@ != "div"@);
    assert("jne"@[1] == 'n' && "jmp"@[1] == 'm');
    assert("jne"@ != "jmp"@);
    assert("jne"@.len() != "je"@.len());
    assert("jne"@ != "je"@);
}

proof fn lemma_encode_jl(labels: Seq<(Seq<char>, u64)>, target: Seq<char>, a: u64)
    requires
        label_lookup(labels, target) == Some(a),
    ensures
        encode_spec(seq!["jl"@, target], labels) == Ok::<Encoded, LineFault>(
            (seq![0x0du8] + be5(a), None),
        ),
{
    reveal_strlit("nop");
    reveal_strlit("hlt");
    reveal_strlit("lod");
    reveal_strlit("sto");
    reveal_strlit("ldi");
    reveal_strlit("mov");
    reveal_strlit("add");
    reveal_strlit("sub");
    reveal_strlit("mul");
    reveal_strlit("div");
    reveal_strlit("jmp");
    reveal_strlit("je");
    reveal_strlit("jne");
    reveal_strlit("jl");
    assert("jl"@.len() != "nop"@.len());
    assert("jl"@ != "nop"@);
    assert("jl"@.len() != "hlt"@.len());
    assert("jl"@ != "hlt"@);
    assert("jl"@.len() != "lod"@.len());
    assert("jl"@ != "lod"@);
    assert("jl"@.len() != "sto"@.len());
    assert("jl"@ != "sto"@);
    assert("jl"@.len() != "ldi"@.len());
    assert("jl"@ != "ldi"@);
    assert("jl"@.len() != "mov"@.len());
    assert("jl"@ != "mov"@);
    assert("jl"@.len() != "add"@.len());
    assert("jl"@ != "add"@);
    assert("jl"@.len() != "sub"@.len());
    assert("jl"@ != "sub"@);
    assert("jl"@.len() != "mul"@.len());
    assert("jl"@ != "mul"@);
    assert("jl"@.len() != "div"@.len());
    assert("jl"@ != "div"@);
    assert("jl"@.len() != "jmp"@.len());
    assert("jl"@ != "jmp"@);
    assert("jl"@[1] == 'l' && "je"@[1] == 'e');
    assert("jl"@ != "je"@);
    assert("jl"@.len() != "jne"@.len());
    assert("jl"@ != "jne"@);
}

proof fn lemma_encode_jle(labels: Seq<(Seq<char>, u64)>, target: Seq<char>, a: u64)
    requires
        label_lookup(labels, target) == Some(a),
    ensures
        encode_spec(seq!["jle"@, target], labels) == Ok::<Encoded, LineFault>(
            (seq![0x0eu8] + be5(a), None),
        ),
{
    reveal_strlit("nop");
    reveal_strlit("hlt");
    reveal_strlit("lod");
    reveal_strlit("sto");
    reveal_strlit("ldi");
    reveal_strlit("mov");
    reveal_strlit("add");
    reveal_strlit("sub");
    reveal_strlit("mul");
    reveal_strlit("div");
    reveal_strlit("jmp");
    reveal_strlit("je");
    reveal_strlit("jne");
    reveal_strlit("jl");
    reveal_strlit("jle");
    assert("jle"@[0] == 'j' && "nop"@[0] == 'n');
    assert("jle"@ != "nop"@);
    assert("jle"@[0] == 'j' && "hlt"@[0] == 'h');
    assert("jle"@ != "hlt"@);
    assert("jle"@[0] == 'j' && "lod"@[0] == 'l');
    assert("jle"@ != "lod"@);
    assert("jle"@[0] == 'j' && "sto"@[0] == 's');
    assert("jle"@ != "sto"@);
    assert("jle"@[0] == 'j' && "ldi"@[0] == 'l');
    assert("jle"@ != "ldi"@);
    assert("jle"@[0] == 'j' && "mov"@[0] == 'm');
    assert("jle"@ != "mov"@);
    assert("jle"@[0] == 'j' && "add"@[0] == 'a');
    assert("jle"@ != "add"@);
    assert("jle"@[0] == 'j' && "sub"@[0] == 's');
    assert("jle"@ != "sub"@);
    assert("jle"@[0] == 'j' && "mul"@[0] == 'm');
    assert("jle"@ != "mul"@);
    assert("jle"@[0] == 'j' && "div"@[0] == 'd');
    assert("jle"@ != "div"@);
    assert("jle"@[1] == 'l' && "jmp"@[1] == 'm');
    assert("jle"@ != "jmp"@);
    assert("jle"@.len() != "je"@.len());
    assert("jle"@ != "je"@);
    assert("jle"@[1] == 'l' && "jne"@[1] == 'n');
    assert("jle"@ != "jne"@);
    assert("jle"@.len() != "jl"@.len());
    assert("jle"@ != "jl"@);
}

proof fn lemma_encode_jg(labels: Seq<(Seq<char>, u64)>, target: Seq<char>, a: u64)
    requires
        label_lookup(labels, target) == Some(a),
    ensures
        encode_spec(seq!["jg"@, target], labels) == Ok::<Encoded, LineFault>(
            (seq![0x0fu8] + be5(a), None),
        ),
{
    reveal_strlit("nop");
    reveal_strlit("hlt");
    reveal_strlit("lod");
    reveal_strlit("sto");
    reveal_strlit("ldi");
    reveal_strlit("mov");
    reveal_strlit("add");
    reveal_strlit("sub");
    reveal_strlit("mul");
    reveal_strlit("div");
    reveal_strlit("jmp");
    reveal_strlit("je");
    reveal_strlit("jne");
    reveal_strlit("jl");
    reveal_strlit("jle");
    reveal_strlit("jg");
    assert("jg"@.len() != "nop"@.len());
    assert("jg"@ != "nop"@);
    assert("jg"@.len() != "hlt"@.len());
    assert("jg"@ != "hlt"@);
    assert("jg"@.len() != "lod"@.len());
    assert("jg"@ != "lod"@);
    assert("jg"@.len() != "sto"@.len());
    assert("jg"@ != "sto"@);
    assert("jg"@.len() != "ldi"@.len());
    assert("jg"@ != "ldi"@);
    assert("jg"@.len() != "mov"@.len());
    assert("jg"@ != "mov"@);
    assert("jg"@.len() != "add"@.len());
    assert("jg"@ != "add"@);
    assert("jg"@.len() != "sub"@.len());
    assert("jg"@ != "sub"@);
    assert("jg"@.len() != "mul"@.len());
    assert("jg"@ != "mul"@);
    assert("jg"@.len() != "div"@.len());
    assert("jg"@ != "div"@);
    assert("jg"@.len() != "jmp"@.len());
    assert("jg"@ != "jmp"@);
    assert("jg"@[1] == 'g' && "je"@[1] == 'e');
    assert("jg"@ != "je"@);
    assert("jg"@.len() != "jne"@.len());
    assert("jg"@ != "jne"@);
    assert("jg"@[1] == 'g' && "jl"@[1] == 'l');
    assert("jg"@ != "jl"@);
    assert("jg"@.len() != "jle"@.len());
    assert("jg"@ != "jle"@);
}

proof fn lemma_encode_jge(labels: Seq<(Seq<char>, u64)>, target: Seq<char>, a: u64)
    requires
        label_lookup(labels, target) == Some(a),
    ensures
        encode_spec(seq!["jge"@, target], labels) == Ok::<Encoded, LineFault>(
            (seq![0x10u8] + be5(a), None),
        ),
{
    reveal_strlit("nop");
    reveal_strlit("hlt");
    reveal_strlit("lod");
    reveal_strlit("sto");
    reveal_strlit("ldi");
    reveal_strlit("mov");
    reveal_strlit("add");
    reveal_strlit("sub");
    reveal_strlit("mul");
    reveal_strlit("div");
    reveal_strlit("jmp");
    reveal_strlit("je");
    reveal_strlit("jne");
    reveal_strlit("jl");
    reveal_strlit("jle");
    reveal_strlit("jg");
    reveal_strlit("jge");
    assert("jge"@[0] == 'j' && "nop"@[0] == 'n');
    assert("jge"@ != "nop"@);
    assert("jge"@[0] == 'j' && "hlt"@[0] == 'h');
    assert("jge"@ != "hlt"@);
    assert("jge"@[0] == 'j' && "lod"@[0] == 'l');
    assert("jge"@ != "lod"@);
    assert("jge"@[0] == 'j' && "sto"@[0] == 's');
    assert("jge"@ != "sto"@);
    assert("jge"@[0] == 'j' && "ldi"@[0] == 'l');
    assert("jge"@ != "ldi"@);
    assert("jge"@[0] == 'j' && "mov"@[0] == 'm');
    assert("jge"@ != "mov"@);
    assert("jge"@[0] == 'j' && "add"@[0] == 'a');
    assert("jge"@ != "add"@);
    assert("jge"@[0] == 'j' && "sub"@[0] == 's');
    assert("jge"@ != "sub"@);
    assert("jge"@[0] == 'j' && "mul"@[0] == 'm');
    assert("jge"@ != "mul"@);
    assert("jge"@[0] == 'j' && "div"@[0] == 'd');
    assert("jge"@ != "div"@);
    assert("jge"@[1] == 'g' && "jmp"@[1] == 'm');
    assert("jge"@ != "jmp"@);
    assert("jge"@.len() != "je"@.len());
    assert("jge"@ != "je"@);
    assert("jge"@[1] == 'g' && "jne"@[1] == 'n');
    assert("jge"@ != "jne"@);
    assert("jge"@.len() != "jl"@.len());
    assert("jge"@ != "jl"@);
    assert("jge"@[1] == 'g' && "jle"@[1] == 'l');
    assert("jge"@ != "jle"@);
    assert("jge"@.len() != "jg"@.len());
    assert("jge"@ != "jg"@);
}

proof fn lemma_encode_cmp(labels: Seq<(Seq<char>, u64)>, target: Seq<char>, a: u64)
    requires
        label_lookup(labels, target) == Some(a),
    ensures
        encode_spec(seq!["cmp"@, target], labels) == Ok::<Encoded, LineFault>(
            (seq![0x11u8] + be5(a), None),
        ),
{
    reveal_strlit("nop");
    reveal_strlit("hlt");
    reveal_strlit("lod");
    reveal_strlit("sto");
    reveal_strlit("ldi");
    reveal_strlit("mov");
    reveal_strlit("add");
    reveal_strlit("sub");
    reveal_strlit("mul");
    reveal_strlit("div");
    reveal_strlit("jmp");
    reveal_strlit("je");
    reveal_strlit("jne");
    reveal_strlit("jl");
    reveal_strlit("jle");
    reveal_strlit("jg");
    reveal_strlit("jge");
    reveal_strlit("cmp");
    assert("cmp"@[0] == 'c' && "nop"@[0] == 'n');
    assert("cmp"@ != "nop"@);
    assert("cmp"@[0] == 'c' && "hlt"@[0] == 'h');
    assert("cmp"@ != "hlt"@);
    assert("cmp"@[0] == 'c' && "lod"@[0] == 'l');
    assert("cmp"@ != "lod"@);
    assert("cmp"@[0] == 'c' && "sto"@[0] == 's');
    assert("cmp"@ != "sto"@);
    assert("cmp"@[0] == 'c' && "ldi"@[0] == 'l');
    assert("cmp"@ != "ldi"@);
    assert("cmp"@[0] == 'c' && "mov"@[0] == 'm');
    assert("cmp"@ != "mov"@);
    assert("cmp"@[0] == 'c' && "add"@[0] == 'a');
    assert("cmp"@ != "add"@);
    assert("cmp"@[0] == 'c' && "sub"@[0] == 's');
    assert("cmp"@ != "sub"@);
    assert("cmp"@[0] == 'c' && "mul"@[0] == 'm');
    assert("cmp"@ != "mul"@);
    assert("cmp"@[0] == 'c' && "div"@[0] == 'd');
    assert("cmp"@ != "div"@);
    assert("cmp"@[0] == 'c' && "jmp"@[0] == 'j');
    assert("cmp"@ != "jmp"@);
    assert("cmp"@.len() != "je"@.len());
    assert("cmp"@ != "je"@);
    assert("cmp"@[0] == 'c' && "jne"@[0] == 'j');
    assert("cmp"@ != "jne"@);
    assert("cmp"@.len() != "jl"@.len());
    assert("cmp"@ != "jl"@);
    assert("cmp"@[0] == 'c' && "jle"@[0] == 'j');
    assert("cmp"@ != "jle"@);
    assert("cmp"@.len() != "jg"@.len());
    assert("cmp"@ != "jg"@);
    assert("cmp"@[0] == 'c' && "jge"@[0] == 'j');
    assert("cmp"@ != "jge"@);
}

proof fn lemma_encode_jcid(labels: Seq<(Seq<char>, u64)>, target: Seq<char>, a: u64)
    requires
        label_lookup(labels, target) == Some(a),
    ensures
        encode_spec(seq!["jcid"@, target], labels) == Ok::<Encoded, LineFault>(
            (seq![0x2cu8] + be5(a), None),
        ),
{
    reveal_strlit("nop");
    reveal_strlit("hlt");
    reveal_strlit("lod");
    reveal_strlit("sto");
    reveal_strlit("ldi");
    reveal_strlit("mov");
    reveal_strlit("add");
    reveal_strlit("sub");
    reveal_strlit("mul");
    reveal_strlit("div");
    reveal_strlit("jmp");
    reveal_strlit("je");
    reveal_strlit("jne");
    reveal_strlit("jl");
    reveal_strlit("jle");
    reveal_strlit("jg");
    reveal_strlit("jge");
    reveal_strlit("cmp");
    reveal_strlit("and");
    reveal_strlit("or");
    reveal_strlit("xor");
    reveal_strlit("not");
    reveal_strlit("shl");
    reveal_strlit("shr");
    reveal_strlit("psh");
    reveal_strlit("pop");
    reveal_strlit("rnd");
    reveal_strlit("lor");
    reveal_strlit("str");
    reveal_strlit("ubs");
    reveal_strlit("sbr");
    reveal_strlit("inc");
    reveal_strlit("dec");
    reveal_strlit("wit");
    reveal_strlit("ubl");
    reveal_strlit("lbr");
    reveal_strlit("ldd");
    reveal_strlit("std");
    reveal_strlit("ldr");
    reveal_strlit("sdr");
    reveal_strlit("sbd");
    reveal_strlit("sbdr");
    reveal_strlit("ldb");
    reveal_strlit("ldbr");
    reveal_strlit("jcid");
    assert("jcid"@.len() != "nop"@.len());
    assert("jcid"@ != "nop"@);
    assert("jcid"@.len() != "hlt"@.len());
    assert("jcid"@ != "hlt"@);
    assert("jcid"@.len() != "lod"@.len());
    assert("jcid"@ != "lod"@);
    assert("jcid"@.len() != "sto"@.len());
    assert("jcid"@ != "sto"@);
    assert("jcid"@.len() != "ldi"@.len());
    assert("jcid"@ != "ldi"@);
    assert("jcid"@.len() != "mov"@.len());
    assert("jcid"@ != "mov"@);
    assert("jcid"@.len() != "add"@.len());
    assert("jcid"@ != "add"@);
    assert("jcid"@.len() != "sub"@.len());
    assert("jcid"@ != "sub"@);
    assert("jcid"@.len() != "mul"@.len());
    assert("jcid"@ != "mul"@);
    assert("jcid"@.len() != "div"@.len());
    assert("jcid"@ != "div"@);
    assert("jcid"@.len() != "jmp"@.len());
    assert("jcid"@ != "jmp"@);
    assert("jcid"@.len() != "je"@.len());
    assert("jcid"@ != "je"@);
    assert("jcid"@.len() != "jne"@.len());
    assert("jcid"@ != "jne"@);
    assert("jcid"@.len() != "jl"@.len());
    assert("jcid"@ != "jl"@);
    assert("jcid"@.len() != "jle"@.len());
    assert("jcid"@ != "jle"@);
    assert("jcid"@.len() != "jg"@.len());
    assert("jcid"@ != "jg"@);
    assert("jcid"@.len() != "jge"@.len());
    assert("jcid"@ != "jge"@);
    assert("jcid"@.len() != "cmp"@.len());
    assert("jcid"@ != "cmp"@);
    assert("jcid"@.len() != "and"@.len());
    assert("jcid"@ != "and"@);
    assert("jcid"@.len() != "or"@.len());
    assert("jcid"@ != "or"@);
    assert("jcid"@.len() != "xor"@.len());
    assert("jcid"@ != "xor"@);
    assert("jcid"@.len() != "not"@.len());
    assert("jcid"@ != "not"@);
    assert("jcid"@.len() != "shl"@.len());
    assert("jcid"@ != "shl"@);
    assert("jcid"@.len() != "shr"@.len());
    assert("jcid"@ != "shr"@);
    assert("jcid"@.len() != "psh"@.len());
    assert("jcid"@ != "psh"@);
    assert("jcid"@.len() != "pop"@.len());
    assert("jcid"@ != "pop"@);
    assert("jcid"@.len() != "rnd"@.len());
    assert("jcid"@ != "rnd"@);
    assert("jcid"@.len() != "lor"@.len());
    assert("jcid"@ != "lor"@);
    assert("jcid"@.len() != "str"@.len());
    assert("jcid"@ != "str"@);
    assert("jcid"@.len() != "ubs"@.len());
    assert("jcid"@ != "ubs"@);
    assert("jcid"@.len() != "sbr"@.len());
    assert("jcid"@ != "sbr"@);
    assert("jcid"@.len() != "inc"@.len());
    assert("jcid"@ != "inc"@);
    assert("jcid"@.len() != "dec"@.len());
    assert("jcid"@ != "dec"@);
    assert("jcid"@.len() != "wit"@.len());
    assert("jcid"@ != "wit"@);
    assert("jcid"@.len() != "ubl"@.len());
    assert("jcid"@ != "ubl"@);
    assert("jcid"@.len() != "lbr"@.len());
    assert("jcid"@ != "lbr"@);
    assert("jcid"@.len() != "ldd"@.len());
    assert("jcid"@ != "ldd"@);
    assert("jcid"@.len() != "std"@.len());
    assert("jcid"@ != "std"@);
    assert("jcid"@.len() != "ldr"@.len());
    assert("jcid"@ != "ldr"@);
    assert("jcid"@.len() != "sdr"@.len());
    assert("jcid"@ != "sdr"@);
    assert("jcid"@.len() != "sbd"@.len());
    assert("jcid"@ != "sbd"@);
    assert("jcid"@[0] == 'j' && "sbdr"@[0] == 's');
    assert("jcid"@ != "sbdr"@);
    assert("jcid"@.len() != "ldb"@.len());
    assert("jcid"@ != "ldb"@);
    assert("jcid"@[0] == 'j' && "ldbr"@[0] == 'l');
    assert("jcid"@ != "ldbr"@);
}

proof fn lemma_encode_jnci(labels: Seq<(Seq<char>, u64)>, target: Seq<char>, a: u64)
    requires
        label_lookup(labels, target) == Some(a),
    ensures
        encode_spec(seq!["jnci"@, target], labels) == Ok::<Encoded, LineFault>(
            (seq![0x2du8] + be5(a), None),
        ),
{
    reveal_strlit("nop");
    reveal_strlit("hlt");
    reveal_strlit("lod");
    reveal_strlit("sto");
    reveal_strlit("ldi");
    reveal_strlit("mov");
    reveal_strlit("add");
    reveal_strlit("sub");
    reveal_strlit("mul");
    reveal_strlit("div");
    reveal_strlit("jmp");
    reveal_strlit("je");
    reveal_strlit("jne");
    reveal_strlit("jl");
    reveal_strlit("jle");
    reveal_strlit("jg");
    reveal_strlit("jge");
    reveal_strlit("cmp");
    reveal_strlit("and");
    reveal_strlit("or");
    reveal_strlit("xor");
    reveal_strlit("not");
    reveal_strlit("shl");
    reveal_strlit("shr");
    reveal_strlit("psh");
    reveal_strlit("pop");
    reveal_strlit("rnd");
    reveal_strlit("lor");
    reveal_strlit("str");
    reveal_strlit("ubs");
    reveal_strlit("sbr");
    reveal_strlit("inc");
    reveal_strlit("dec");
    reveal_strlit("wit");
    reveal_strlit("ubl");
    reveal_strlit("lbr");
    reveal_strlit("ldd");
    reveal_strlit("std");
    reveal_strlit("ldr");
    reveal_strlit("sdr");
    reveal_strlit("sbd");
    reveal_strlit("sbdr");
    reveal_strlit("ldb");
    reveal_strlit("ldbr");
    reveal_strlit("jcid");
    reveal_strlit("jnci");
    assert("jnci"@.len() != "nop"@.len());
    assert("jnci"@ != "nop"@);
    assert("jnci"@.len() != "hlt"@.len());
    assert("jnci"@ != "hlt"@);
    assert("jnci"@.len() != "lod"@.len());
    assert("jnci"@ != "lod"@);
    assert("jnci"@.len() != "sto"@.len());
    assert("jnci"@ != "sto"@);
    assert("jnci"@.len() != "ldi"@.len());
    assert("jnci"@ != "ldi"@);
    assert("jnci"@.len() != "mov"@.len());
    assert("jnci"@ != "mov"@);
    assert("jnci"@.len() != "add"@.len());
    assert("jnci"@ != "add"@);
    assert("jnci"@.len() != "sub"@.len());
    assert("jnci"@ != "sub"@);
    assert("jnci"@.len() != "mul"@.len());
    assert("jnci"@ != "mul"@);
    assert("jnci"@.len() != "div"@.len());
    assert("jnci"@ != "div"@);
    assert("jnci"@.len() != "jmp"@.len());
    assert("jnci"@ != "jmp"@);
    assert("jnci"@.len() != "je"@.len());
    assert("jnci"@ != "je"@);
    assert("jnci"@.len() != "jne"@.len());
    assert("jnci"@ != "jne"@);
    assert("jnci"@.len() != "jl"@.len());
    assert("jnci"@ != "jl"@);
    assert("jnci"@.len() != "jle"@.len());
    assert("jnci"@ != "jle"@);
    assert("jnci"@.len() != "jg"@.len());
    assert("jnci"@ != "jg"@);
    assert("jnci"@.len() != "jge"@.len());
    assert("jnci"@ != "jge"@);
    assert("jnci"@.len() != "cmp"@.len());
    assert("jnci"@ != "cmp"@);
    assert("jnci"@.len() != "and"@.len());
    assert("jnci"@ != "and"@);
    assert("jnci"@.len() != "or"@.len());
    assert("jnci"@ != "or"@);
    assert("jnci"@.len() != "xor"@.len());
    assert("jnci"@ != "xor"@);
    assert("jnci"@.len() != "not"@.len());
    assert("jnci"@ != "not"@);
    assert("jnci"@.len() != "shl"@.len());
    assert("jnci"@ != "shl"@);
    assert("jnci"@.len() != "shr"@.len());
    assert("jnci"@ != "shr"@);
    assert("jnci"@.len() != "psh"@.len());
    assert("jnci"@ != "psh"@);
    assert("jnci"@.len() != "pop"@.len());
    assert("jnci"@ != "pop"@);
    assert("jnci"@.len() != "rnd"@.len());
    assert("jnci"@ != "rnd"@);
    assert("jnci"@.len() != "lor"@.len());
    assert("jnci"@ != "lor"@);
    assert("jnci"@.len() != "str"@.len());
    assert("jnci"@ != "str"@);
    assert("jnci"@.len() != "ubs"@.len());
    assert("jnci"@ != "ubs"@);
    assert("jnci"@.len() != "sbr"@.len());
    assert("jnci"@ != "sbr"@);
    assert("jnci"@.len() != "inc"@.len());
    assert("jnci"@ != "inc"@);
    assert("jnci"@.len() != "dec"@.len());
    assert("jnci"@ != "dec"@);
    assert("jnci"@.len() != "wit"@.len());
    assert("jnci"@ != "wit"@);
    assert("jnci"@.len() != "ubl"@.len());
    assert("jnci"@ != "ubl"@);
    assert("jnci"@.len() != "lbr"@.len());
    assert("jnci"@ != "lbr"@);
    assert("jnci"@.len() != "ldd"@.len());
    assert("jnci"@ != "ldd"@);
    assert("jnci"@.len() != "std"@.len());
    assert("jnci"@ != "std"@);
    assert("jnci"@.len() != "ldr"@.len());
    assert("jnci"@ != "ldr"@);
    assert("jnci"@.len() != "sdr"@.len());
    assert("jnci"@ != "sdr"@);
    assert("jnci"@.len() != "sbd"@.len());
    assert("jnci"@ != "sbd"@);
    assert("jnci"@[0] == 'j' && "sbdr"@[0] == 's');
    assert("jnci"@ != "sbdr"@);
    assert("jnci"@.len() != "ldb"@.len());
    assert("jnci"@ != "ldb"@);
    assert("jnci"@[0] == 'j' && "ldbr"@[0] == 'l');
    assert("jnci"@ != "ldbr"@);
    assert("jnci"@[1] == 'n' && "jcid"@[1] == 'c');
    assert("jnci"@ != "jcid"@);
}

/// Each jump mnemonic is encoded with its own opcode followed by the 5-byte
/// address of its label: `jmp` 0x0A, `je` 0x0B, `jne` 0x0C, `jl` 0x0D, `jle`
/// 0x0E, `jg` 0x0F, `jge` 0x10, `cmp` 0x11, `jcid` 0x2C, `jnci` 0x2D (the
/// opcodes whose conditions `law_jumps` gives), for every label table.
pub proof fn law_jump_encodings(labels: Seq<(Seq<char>, u64)>, target: Seq<char>, a: u64)
    requires
        label_lookup(labels, target) == Some(a),
    ensures
        encode_spec(seq!["jmp"@, target], labels) == Ok::<Encoded, LineFault>((seq![0x0au8] + be5(a), None)),
        encode_spec(seq!["je"@, target], labels) == Ok::<Encoded, LineFault>((seq![0x0bu8] + be5(a), None)),
        encode_spec(seq!["jne"@, target], labels) == Ok::<Encoded, LineFault>((seq![0x0cu8] + be5(a), None)),
        encode_spec(seq!["jl"@, target], labels) == Ok::<Encoded, LineFault>((seq![0x0du8] + be5(a), None)),
        encode_spec(seq!["jle"@, target], labels) == Ok::<Encoded, LineFault>((seq![0x0eu8] + be5(a), None)),
        encode_spec(seq!["jg"@, target], labels) == Ok::<Encoded, LineFault>((seq![0x0fu8] + be5(a), None)),
        encode_spec(seq!["jge"@, target], labels) == Ok::<Encoded, LineFault>((seq![0x10u8] + be5(a), None)),
        encode_spec(seq!["cmp"@, target], labels) == Ok::<Encoded, LineFault>((seq![0x11u8] + be5(a), None)),
        encode_spec(seq!["jcid"@, target], labels) == Ok::<Encoded, LineFault>((seq![0x2cu8] + be5(a), None)),
        encode_spec(seq!["jnci"@, target], labels) == Ok::<Encoded, LineFault>((seq![0x2du8] + be5(a), None)),
{
    lemma_encode_jmp(labels, target, a);
    lemma_encode_je(labels, target, a);
    lemma_encode_jne(labels, target, a);
    lemma_encode_jl(labels, target, a);
    lemma_encode_jle(labels, target, a);
    lemma_encode_jg(labels, target, a);
    lemma_encode_jge(labels, target, a);
    lemma_encode_cmp(labels, target, a);
    lemma_encode_jcid(labels, target, a);
    lemma_encode_jnci(labels, target, a);
}


/// The instruction table: the instruction, and so the opcode, that each
/// mnemonic names.
#[verifier::rlimit(100)]
pub proof fn law_instruction_table()
    ensures
        instr_of("nop"@) == Some(Instr::Bare(0x00)),
        instr_of("hlt"@) == Some(Instr::Bare(0x01)),
        instr_of("lod"@) == Some(Instr::Absolute(0x02)),
        instr_of("sto"@) == Some(Instr::Absolute(0x03)),
        instr_of("ldi"@) == Some(Instr::Ldi),
        instr_of("mov"@) == Some(Instr::Mov),
        instr_of("add"@) == Some(Instr::Add),
        instr_of("sub"@) == Some(Instr::Sub),
        instr_of("mul"@) == Some(Instr::Arith(0x08)),
        instr_of("div"@) == Some(Instr::Arith(0x09)),
        instr_of("jmp"@) == Some(Instr::Jump(0x0A)),
        instr_of("je"@) == Some(Instr::Jump(0x0B)),
        instr_of("jne"@) == Some(Instr::Jump(0x0C)),
        instr_of("jl"@) == Some(Instr::Jump(0x0D)),
        instr_of("jle"@) == Some(Instr::Jump(0x0E)),
        instr_of("jg"@) == Some(Instr::Jump(0x0F)),
        instr_of("jge"@) == Some(Instr::Jump(0x10)),
        instr_of("cmp"@) == Some(Instr::Jump(0x11)),
        instr_of("and"@) == Some(Instr::Arith(0x12)),
        instr_of("or"@) == Some(Instr::Arith(0x13)),
        instr_of("xor"@) == Some(Instr::Arith(0x14)),
        instr_of("not"@) == Some(Instr::Not),
        instr_of("shl"@) == Some(Instr::Shift(0x16)),
        instr_of("shr"@) == Some(Instr::Shift(0x17)),
        instr_of("psh"@) == Some(Instr::Single(0x18)),
        instr_of("pop"@) == Some(Instr::Single(0x19)),
        instr_of("rnd"@) == Some(Instr::Single(0x1A)),
        instr_of("lor"@) == Some(Instr::Relative(0x1B)),
        instr_of("str"@) == Some(Instr::Relative(0x1C)),
        instr_of("ubs"@) == Some(Instr::Absolute(0x1D)),
        instr_of("sbr"@) == Some(Instr::Relative(0x1E)),
        instr_of("inc"@) == Some(Instr::Single(0x1F)),
        instr_of("dec"@) == Some(Instr::Single(0x20)),
        instr_of("wit"@) == Some(Instr::Bare(0x21)),
        instr_of("ubl"@) == Some(Instr::Absolute(0x22)),
        instr_of("lbr"@) == Some(Instr::Relative(0x23)),
        instr_of("ldd"@) == Some(Instr::Absolute(0x24)),
        instr_of("std"@) == Some(Instr::Absolute(0x25)),
        instr_of("ldr"@) == Some(Instr::Relative(0x26)),
        instr_of("sdr"@) == Some(Instr::Relative(0x27)),
        instr_of("sbd"@) == Some(Instr::Absolute(0x28)),
        instr_of("sbdr"@) == Some(Instr::Relative(0x29)),
        instr_of("ldb"@) == Some(Instr::Absolute(0x2A)),
        instr_of("ldbr"@) == Some(Instr::Relative(0x2B)),
        instr_of("jcid"@) == Some(Instr::Jump(0x2C)),
        instr_of("jnci"@) == Some(Instr::Jump(0x2D)),
        instr_of("ldcd"@) == Some(Instr::Absolute(0x2E)),
        instr_of("stcd"@) == Some(Instr::Absolute(0x2F)),
        instr_of("lcdr"@) == Some(Instr::Relative(0x30)),
        instr_of("scdr"@) == Some(Instr::Relative(0x31)),
        instr_of("sbcd"@) == Some(Instr::Absolute(0x32)),
        instr_of("sbcdr"@) == Some(Instr::Relative(0x33)),
        instr_of("lcdb"@) == Some(Instr::Absolute(0x34)),
        instr_of("lcdbr"@) == Some(Instr::Relative(0x35)),
        instr_of("ptrm"@) == Some(Instr::Ptrm),
        instr_of("dir"@) == Some(Instr::Dir),
        instr_of("ast"@) == Some(Instr::Ast),
{
    reveal_strlit("nop");
    reveal_strlit("hlt");
    reveal_strlit("lod");
    reveal_strlit("sto");
    reveal_strlit("ldi");
    reveal_strlit("mov");
    reveal_strlit("add");
    reveal_strlit("sub");
    reveal_strlit("mul");
    reveal_strlit("div");
    reveal_strlit("jmp");
    reveal_strlit("je");
    reveal_strlit("jne");
    reveal_strlit("jl");
    reveal_strlit("jle");
    reveal_strlit("jg");
    reveal_strlit("jge");
    reveal_strlit("cmp");
    reveal_strlit("and");
    reveal_strlit("or");
    reveal_strlit("xor");
    reveal_strlit("not");
    reveal_strlit("shl");
    reveal_strlit("shr");
    reveal_strlit("psh");
    reveal_strlit("pop");
    reveal_strlit("rnd");
    reveal_strlit("lor");
    reveal_strlit("str");
    reveal_strlit("ubs");
    reveal_strlit("sbr");
    reveal_strlit("inc");
    reveal_strlit("dec");
    reveal_strlit("wit");
    reveal_strlit("ubl");
    reveal_strlit("lbr");
    reveal_strlit("ldd");
    reveal_strlit("std");
    reveal_strlit("ldr");
    reveal_strlit("sdr");
    reveal_strlit("sbd");
    reveal_strlit("sbdr");
    reveal_strlit("ldb");
    reveal_strlit("ldbr");
    reveal_strlit("jcid");
    reveal_strlit("jnci");
    reveal_strlit("ldcd");
    reveal_strlit("stcd");
    reveal_strlit("lcdr");
    reveal_strlit("scdr");
    reveal_strlit("sbcd");
    reveal_strlit("sbcdr");
    reveal_strlit("lcdb");
    reveal_strlit("lcdbr");
    reveal_strlit("ptrm");
    reveal_strlit("dir");
    reveal_strlit("ast");
    assert("nop"@.len() == 3 && "nop"@[0] == 'n' && "nop"@[1] == 'o' && "nop"@[2] == 'p');
    assert("hlt"@.len() == 3 && "hlt"@[0] == 'h' && "hlt"@[1] == 'l' && "hlt"@[2] == 't');
    assert("lod"@.len() == 3 && "lod"@[0] == 'l' && "lod"@[1] == 'o' && "lod"@[2] == 'd');
    assert("sto"@.len() == 3 && "sto"@[0] == 's' && "sto"@[1] == 't' && "sto"@[2] == 'o');
    assert("ldi"@.len() == 3 && "ldi"@[0] == 'l' && "ldi"@[1] == 'd' && "ldi"@[2] == 'i');
    assert("mov"@.len() == 3 && "mov"@[0] == 'm' && "mov"@[1] == 'o' && "mov"@[2] == 'v');
    assert("add"@.len() == 3 && "add"@[0] == 'a' && "add"@[1] == 'd' && "add"@[2] == 'd');
    assert("sub"@.len() == 3 && "sub"@[0] == 's' && "sub"@[1] == 'u' && "sub"@[2] == 'b');
    assert("mul"@.len() == 3 && "mul"@[0] == 'm' && "mul"@[1] == 'u' && "mul"@[2] == 'l');
    assert("div"@.len() == 3 && "div"@[0] == 'd' && "div"@[1] == 'i' && "div"@[2] == 'v');
    assert("jmp"@.len() == 3 && "jmp"@[0] == 'j' && "jmp"@[1] == 'm' && "jmp"@[2] == 'p');
    assert("je"@.len() == 2 && "je"@[0] == 'j' && "je"@[1] == 'e');
    assert("jne"@.len() == 3 && "jne"@[0] == 'j' && "jne"@[1] == 'n' && "jne"@[2] == 'e');
    assert("jl"@.len() == 2 && "jl"@[0] == 'j' && "jl"@[1] == 'l');
    assert("jle"@.len() == 3 && "jle"@[0] == 'j' && "jle"@[1] == 'l' && "jle"@[2] == 'e');
    assert("jg"@.len() == 2 && "jg"@[0] == 'j' && "jg"@[1] == 'g');
    assert("jge"@.len() == 3 && "jge"@[0] == 'j' && "jge"@[1] == 'g' && "jge"@[2] == 'e');
    assert("cmp"@.len() == 3 && "cmp"@[0] == 'c' && "cmp"@[1] == 'm' && "cmp"@[2] == 'p');
    assert("and"@.len() == 3 && "and"@[0] == 'a' && "and"@[1] == 'n' && "and"@[2] == 'd');
    assert("or"@.len() == 2 && "or"@[0] == 'o' && "or"@[1] == 'r');
    assert("xor"@.len() == 3 && "xor"@[0] == 'x' && "xor"@[1] == 'o' && "xor"@[2] == 'r');
    assert("not"@.len() == 3 && "not"@[0] == 'n' && "not"@[1] == 'o' && "not"@[2] == 't');
    assert("shl"@.len() == 3 && "shl"@[0] == 's' && "shl"@[1] == 'h' && "shl"@[2] == 'l');
    assert("shr"@.len() == 3 && "shr"@[0] == 's' && "shr"@[1] == 'h' && "shr"@[2] == 'r');
    assert("psh"@.len() == 3 && "psh"@[0] == 'p' && "psh"@[1] == 's' && "psh"@[2] == 'h');
    assert("pop"@.len() == 3 && "pop"@[0] == 'p' && "pop"@[1] == 'o' && "pop"@[2] == 'p');
    assert("rnd"@.len() == 3 && "rnd"@[0] == 'r' && "rnd"@[1] == 'n' && "rnd"@[2] == 'd');
    assert("lor"@.len() == 3 && "lor"@[0] == 'l' && "lor"@[1] == 'o' && "lor"@[2] == 'r');
    assert("str"@.len() == 3 && "str"@[0] == 's' && "str"@[1] == 't' && "str"@[2] == 'r');
    assert("ubs"@.len() == 3 && "ubs"@[0] == 'u' && "ubs"@[1] == 'b' && "ubs"@[2] == 's');
    assert("sbr"@.len() == 3 && "sbr"@[0] == 's' && "sbr"@[1] == 'b' && "sbr"@[2] == 'r');
    assert("inc"@.len() == 3 && "inc"@[0] == 'i' && "inc"@[1] == 'n' && "inc"@[2] == 'c');
    assert("dec"@.len() == 3 && "dec"@[0] == 'd' && "dec"@[1] == 'e' && "dec"@[2] == 'c');
    assert("wit"@.len() == 3 && "wit"@[0] == 'w' && "wit"@[1] == 'i' && "wit"@[2] == 't');
    assert("ubl"@.len() == 3 && "ubl"@[0] == 'u' && "ubl"@[1] == 'b' && "ubl"@[2] == 'l');
    assert("lbr"@.len() == 3 && "lbr"@[0] == 'l' && "lbr"@[1] == 'b' && "lbr"@[2] == 'r');
    assert("ldd"@.len() == 3 && "ldd"@[0] == 'l' && "ldd"@[1] == 'd' && "ldd"@[2] == 'd');
    assert("std"@.len() == 3 && "std"@[0] == 's' && "std"@[1] == 't' && "std"@[2] == 'd');
    assert("ldr"@.len() == 3 && "ldr"@[0] == 'l' && "ldr"@[1] == 'd' && "ldr"@[2] == 'r');
    assert("sdr"@.len() == 3 && "sdr"@[0] == 's' && "sdr"@[1] == 'd' && "sdr"@[2] == 'r');
    assert("sbd"@.len() == 3 && "sbd"@[0] == 's' && "sbd"@[1] == 'b' && "sbd"@[2] == 'd');
    assert("sbdr"@.len() == 4 && "sbdr"@[0] == 's' && "sbdr"@[1] == 'b' && "sbdr"@[2] == 'd' && "sbdr"@[3] == 'r');
    assert("ldb"@.len() == 3 && "ldb"@[0] == 'l' && "ldb"@[1] == 'd' && "ldb"@[2] == 'b');
    assert("ldbr"@.len() == 4 && "ldbr"@[0] == 'l' && "ldbr"@[1] == 'd' && "ldbr"@[2] == 'b' && "ldbr"@[3] == 'r');
    assert("jcid"@.len() == 4 && "jcid"@[0] == 'j' && "jcid"@[1] == 'c' && "jcid"@[2] == 'i' && "jcid"@[3] == 'd');
    assert("jnci"@.len() == 4 && "jnci"@[0] == 'j' && "jnci"@[1] == 'n' && "jnci"@[2] == 'c' && "jnci"@[3] == 'i');
    assert("ldcd"@.len() == 4 && "ldcd"@[0] == 'l' && "ldcd"@[1] == 'd' && "ldcd"@[2] == 'c' && "ldcd"@[3] == 'd');
    assert("stcd"@.len() == 4 && "stcd"@[0] == 's' && "stcd"@[1] == 't' && "stcd"@[2] == 'c' && "stcd"@[3] == 'd');
    assert("lcdr"@.len() == 4 && "lcdr"@[0] == 'l' && "lcdr"@[1] == 'c' && "lcdr"@[2] == 'd' && "lcdr"@[3] == 'r');
    assert("scdr"@.len() == 4 && "scdr"@[0] == 's' && "scdr"@[1] == 'c' && "scdr"@[2] == 'd' && "scdr"@[3] == 'r');
    assert("sbcd"@.len() == 4 && "sbcd"@[0] == 's' && "sbcd"@[1] == 'b' && "sbcd"@[2] == 'c' && "sbcd"@[3] == 'd');
    assert("sbcdr"@.len() == 5 && "sbcdr"@[0] == 's' && "sbcdr"@[1] == 'b' && "sbcdr"@[2] == 'c' && "sbcdr"@[3] == 'd' && "sbcdr"@[4] == 'r');
    assert("lcdb"@.len() == 4 && "lcdb"@[0] == 'l' && "lcdb"@[1] == 'c' && "lcdb"@[2] == 'd' && "lcdb"@[3] == 'b');
    assert("lcdbr"@.len() == 5 && "lcdbr"@[0] == 'l' && "lcdbr"@[1] == 'c' && "lcdbr"@[2] == 'd' && "lcdbr"@[3] == 'b' && "lcdbr"@[4] == 'r');
    assert("ptrm"@.len() == 4 && "ptrm"@[0] == 'p' && "ptrm"@[1] == 't' && "ptrm"@[2] == 'r' && "ptrm"@[3] == 'm');
    assert("dir"@.len() == 3 && "dir"@[0] == 'd' && "dir"@[1] == 'i' && "dir"@[2] == 'r');
    assert("ast"@.len() == 3 && "ast"@[0] == 'a' && "ast"@[1] == 's' && "ast"@[2] == 't');
}


/// The register tables: the code of each register name (`ax bx cx dx ay by
/// cy dy ar br cr dr pc ptr` are 0 to 13), which names are 16-bit, and the
/// operand codes of `add`, `sub` (two names written together), `mul div and
/// or xor` (the result register) and `not shl shr` (the input register).
#[verifier::rlimit(100)]
pub proof fn law_register_tables()
    ensures
        crate::isa::reg_code_of("ax"@) == Some(0x00u8),
        crate::isa::reg_code_of("bx"@) == Some(0x01u8),
        crate::isa::reg_code_of("cx"@) == Some(0x02u8),
        crate::isa::reg_code_of("dx"@) == Some(0x03u8),
        crate::isa::reg_code_of("ay"@) == Some(0x04u8),
        crate::isa::reg_code_of("by"@) == Some(0x05u8),
        crate::isa::reg_code_of("cy"@) == Some(0x06u8),
        crate::isa::reg_code_of("dy"@) == Some(0x07u8),
        crate::isa::reg_code_of("ar"@) == Some(0x08u8),
        crate::isa::reg_code_of("br"@) == Some(0x09u8),
        crate::isa::reg_code_of("cr"@) == Some(0x0Au8),
        crate::isa::reg_code_of("dr"@) == Some(0x0Bu8),
        crate::isa::reg_code_of("pc"@) == Some(0x0Cu8),
        crate::isa::reg_code_of("ptr"@) == Some(0x0Du8),
        crate::isa::add_code_of("ar"@) == Some(0x00u8),
        crate::isa::add_code_of("br"@) == Some(0x01u8),
        crate::isa::add_code_of("cr"@) == Some(0x02u8),
        crate::isa::add_code_of("dr"@) == Some(0x03u8),
        crate::isa::add_code_of("ax"@) == Some(0x04u8),
        crate::isa::add_code_of("bx"@) == Some(0x05u8),
        crate::isa::add_code_of("cx"@) == Some(0x06u8),
        crate::isa::add_code_of("dx"@) == Some(0x07u8),
        crate::isa::add_code_of("ay"@) == Some(0x08u8),
        crate::isa::add_code_of("by"@) == Some(0x09u8),
        crate::isa::add_code_of("cy"@) == Some(0x0Au8),
        crate::isa::add_code_of("dy"@) == Some(0x0Bu8),
        crate::isa::sub_code_of("ayax"@) == Some(0x00u8),
        crate::isa::sub_code_of("bybx"@) == Some(0x01u8),
        crate::isa::sub_code_of("cycx"@) == Some(0x02u8),
        crate::isa::sub_code_of("dydx"@) == Some(0x03u8),
        crate::isa::sub_code_of("arax"@) == Some(0x04u8),
        crate::isa::sub_code_of("brbx"@) == Some(0x05u8),
        crate::isa::sub_code_of("crcx"@) == Some(0x06u8),
        crate::isa::sub_code_of("drdx"@) == Some(0x07u8),
        crate::isa::sub_code_of("aray"@) == Some(0x08u8),
        crate::isa::sub_code_of("brby"@) == Some(0x09u8),
        crate::isa::sub_code_of("crcy"@) == Some(0x0Au8),
        crate::isa::sub_code_of("drdy"@) == Some(0x0Bu8),
        crate::isa::sub_code_of("axar"@) == Some(0x0Cu8),
        crate::isa::sub_code_of("bxbr"@) == Some(0x0Du8),
        crate::isa::sub_code_of("cxcr"@) == Some(0x0Eu8),
        crate::isa::sub_code_of("dxdr"@) == Some(0x0Fu8),
        crate::isa::sub_code_of("ayar"@) == Some(0x10u8),
        crate::isa::sub_code_of("bybr"@) == Some(0x11u8),
        crate::isa::sub_code_of("cycr"@) == Some(0x12u8),
        crate::isa::sub_code_of("dydr"@) == Some(0x13u8),
        crate::isa::result_code_of("ar"@) == Some(0x00u8),
        crate::isa::result_code_of("br"@) == Some(0x01u8),
        crate::isa::result_code_of("cr"@) == Some(0x02u8),
        crate::isa::result_code_of("dr"@) == Some(0x03u8),
        crate::isa::input_code_of("ax"@) == Some(0x00u8),
        crate::isa::input_code_of("bx"@) == Some(0x01u8),
        crate::isa::input_code_of("cx"@) == Some(0x02u8),
        crate::isa::input_code_of("dx"@) == Some(0x03u8),
        crate::isa::input_code_of("ay"@) == Some(0x04u8),
        crate::isa::input_code_of("by"@) == Some(0x05u8),
        crate::isa::input_code_of("cy"@) == Some(0x06u8),
        crate::isa::input_code_of("dy"@) == Some(0x07u8),
        crate::isa::is_short_reg("ax"@) == false,
        crate::isa::is_short_reg("bx"@) == false,
        crate::isa::is_short_reg("cx"@) == true,
        crate::isa::is_short_reg("dx"@) == true,
        crate::isa::is_short_reg("ay"@) == false,
        crate::isa::is_short_reg("by"@) == false,
        crate::isa::is_short_reg("cy"@) == true,
        crate::isa::is_short_reg("dy"@) == true,
        crate::isa::is_short_reg("ar"@) == false,
        crate::isa::is_short_reg("br"@) == false,
        crate::isa::is_short_reg("cr"@) == false,
        crate::isa::is_short_reg("dr"@) == false,
        crate::isa::is_short_reg("pc"@) == false,
        crate::isa::is_short_reg("ptr"@) == false,
{
    reveal_strlit("ar");
    reveal_strlit("arax");
    reveal_strlit("aray");
    reveal_strlit("ax");
    reveal_strlit("axar");
    reveal_strlit("ay");
    reveal_strlit("ayar");
    reveal_strlit("ayax");
    reveal_strlit("br");
    reveal_strlit("brbx");
    reveal_strlit("brby");
    reveal_strlit("bx");
    reveal_strlit("bxbr");
    reveal_strlit("by");
    reveal_strlit("bybr");
    reveal_strlit("bybx");
    reveal_strlit("cr");
    reveal_strlit("crcx");
    reveal_strlit("crcy");
    reveal_strlit("cx");
    reveal_strlit("cxcr");
    reveal_strlit("cy");
    reveal_strlit("cycr");
    reveal_strlit("cycx");
    reveal_strlit("dr");
    reveal_strlit("drdx");
    reveal_strlit("drdy");
    reveal_strlit("dx");
    reveal_strlit("dxdr");
    reveal_strlit("dy");
    reveal_strlit("dydr");
    reveal_strlit("dydx");
    reveal_strlit("pc");
    reveal_strlit("ptr");
    assert("ar"@.len() == 2 && "ar"@[0] == 'a' && "ar"@[1] == 'r');
    assert("arax"@.len() == 4 && "arax"@[0] == 'a' && "arax"@[1] == 'r' && "arax"@[2] == 'a' && "arax"@[3] == 'x');
    assert("aray"@.len() == 4 && "aray"@[0] == 'a' && "aray"@[1] == 'r' && "aray"@[2] == 'a' && "aray"@[3] == 'y');
    assert("ax"@.len() == 2 && "ax"@[0] == 'a' && "ax"@[1] == 'x');
    assert("axar"@.len() == 4 && "axar"@[0] == 'a' && "axar"@[1] == 'x' && "axar"@[2] == 'a' && "axar"@[3] == 'r');
    assert("ay"@.len() == 2 && "ay"@[0] == 'a' && "ay"@[1] == 'y');
    assert("ayar"@.len() == 4 && "ayar"@[0] == 'a' && "ayar"@[1] == 'y' && "ayar"@[2] == 'a' && "ayar"@[3] == 'r');
    assert("ayax"@.len() == 4 && "ayax"@[0] == 'a' && "ayax"@[1] == 'y' && "ayax"@[2] == 'a' && "ayax"@[3] == 'x');
    assert("br"@.len() == 2 && "br"@[0] == 'b' && "br"@[1] == 'r');
    assert("brbx"@.len() == 4 && "brbx"@[0] == 'b' && "brbx"@[1] == 'r' && "brbx"@[2] == 'b' && "brbx"@[3] == 'x');
    assert("brby"@.len() == 4 && "brby"@[0] == 'b' && "brby"@[1] == 'r' && "brby"@[2] == 'b' && "brby"@[3] == 'y');
    assert("bx"@.len() == 2 && "bx"@[0] == 'b' && "bx"@[1] == 'x');
    assert("bxbr"@.len() == 4 && "bxbr"@[0] == 'b' && "bxbr"@[1] == 'x' && "bxbr"@[2] == 'b' && "bxbr"@[3] == 'r');
    assert("by"@.len() == 2 && "by"@[0] == 'b' && "by"@[1] == 'y');
    assert("bybr"@.len() == 4 && "bybr"@[0] == 'b' && "bybr"@[1] == 'y' && "bybr"@[2] == 'b' && "bybr"@[3] == 'r');
    assert("bybx"@.len() == 4 && "bybx"@[0] == 'b' && "bybx"@[1] == 'y' && "bybx"@[2] == 'b' && "bybx"@[3] == 'x');
    assert("cr"@.len() == 2 && "cr"@[0] == 'c' && "cr"@[1] == 'r');
    assert("crcx"@.len() == 4 && "crcx"@[0] == 'c' && "crcx"@[1] == 'r' && "crcx"@[2] == 'c' && "crcx"@[3] == 'x');
    assert("crcy"@.len() == 4 && "crcy"@[0] == 'c' && "crcy"@[1] == 'r' && "crcy"@[2] == 'c' && "crcy"@[3] == 'y');
    assert("cx"@.len() == 2 && "cx"@[0] == 'c' && "cx"@[1] == 'x');
    assert("cxcr"@.len() == 4 && "cxcr"@[0] == 'c' && "cxcr"@[1] == 'x' && "cxcr"@[2] == 'c' && "cxcr"@[3] == 'r');
    assert("cy"@.len() == 2 && "cy"@[0] == 'c' && "cy"@[1] == 'y');
    assert("cycr"@.len() == 4 && "cycr"@[0] == 'c' && "cycr"@[1] == 'y' && "cycr"@[2] == 'c' && "cycr"@[3] == 'r');
    assert("cycx"@.len() == 4 && "cycx"@[0] == 'c' && "cycx"@[1] == 'y' && "cycx"@[2] == 'c' && "cycx"@[3] == 'x');
    assert("dr"@.len() == 2 && "dr"@[0] == 'd' && "dr"@[1] == 'r');
    assert("drdx"@.len() == 4 && "drdx"@[0] == 'd' && "drdx"@[1] == 'r' && "drdx"@[2] == 'd' && "drdx"@[3] == 'x');
    assert("drdy"@.len() == 4 && "drdy"@[0] == 'd' && "drdy"@[1] == 'r' && "drdy"@[2] == 'd' && "drdy"@[3] == 'y');
    assert("dx"@.len() == 2 && "dx"@[0] == 'd' && "dx"@[1] == 'x');
    assert("dxdr"@.len() == 4 && "dxdr"@[0] == 'd' && "dxdr"@[1] == 'x' && "dxdr"@[2] == 'd' && "dxdr"@[3] == 'r');
    assert("dy"@.len() == 2 && "dy"@[0] == 'd' && "dy"@[1] == 'y');
    assert("dydr"@.len() == 4 && "dydr"@[0] == 'd' && "dydr"@[1] == 'y' && "dydr"@[2] == 'd' && "dydr"@[3] == 'r');
    assert("dydx"@.len() == 4 && "dydx"@[0] == 'd' && "dydx"@[1] == 'y' && "dydx"@[2] == 'd' && "dydx"@[3] == 'x');
    assert("pc"@.len() == 2 && "pc"@[0] == 'p' && "pc"@[1] == 'c');
    assert("ptr"@.len() == 3 && "ptr"@[0] == 'p' && "ptr"@[1] == 't' && "ptr"@[2] == 'r');
}


/// The opcode that starts the encoding of instruction `i` (the first of the
/// 20 bytes for `ast`).
pub open spec fn opcode(i: Instr) -> u8 {
    match i {
        Instr::Bare(op) => op,
        Instr::Absolute(op) => op,
        Instr::Ldi => 0x04,
        Instr::Mov => 0x05,
        Instr::Add => 0x06,
        Instr::Sub => 0x07,
        Instr::Arith(op) => op,
        Instr::Jump(op) => op,
        Instr::Not => 0x15,
        Instr::Shift(op) => op,
        Instr::Single(op) => op,
        Instr::Relative(op) => op,
        Instr::Ptrm => 0x36,
        Instr::Dir => 0x00,
        Instr::Ast => 0x18,
    }
}

/// Every line that encodes starts with the opcode of its instruction (see
/// `law_instruction_table` for each mnemonic's instruction), but for `dir`,
/// whose one byte is its operand.
pub proof fn law_first_byte(cmd: Seq<Seq<char>>, labels: Seq<(Seq<char>, u64)>)
    requires
        cmd.len() >= 1,
        encode_spec(cmd, labels) is Ok,
        instr_of(cmd[0]) != Some(Instr::Dir),
    ensures
        encode_spec(cmd, labels)->Ok_0.0.len() >= 1,
        encode_spec(cmd, labels)->Ok_0.0[0] == opcode(instr_of(cmd[0])->0),
{
}

/// An assembled `ldi` runs as it reads: after the machine steps over the
/// bytes that `ldi R n` encodes to (R a data register, n a number), register
/// R holds n cut to the register's width (16 bits for `cx dx cy dy`, else 32)
/// and `pc` is past the encoding. (The machine reads four number bytes even
/// for a 16-bit register, so six bytes must lie in RAM.)
pub proof fn law_ldi_runs(
    cmd: Seq<Seq<char>>,
    labels: Seq<(Seq<char>, u64)>,
    r: crate::machine::Registers,
    m: crate::machine::MemoryState,
    core_id: u32,
    rnd: u32,
)
    requires
        cmd.len() >= 3,
        instr_of(cmd[0]) == Some(Instr::Ldi),
        encode_spec(cmd, labels) is Ok,
        crate::isa::reg_code_of(cmd[1]) matches Some(i) && i <= 0x0B,
        crate::machine::core_wf(r, m),
        r.ptr + r.pc + 6 <= m.ram.len(),
        m.ram.subrange(r.ptr + r.pc, r.ptr + r.pc + encode_spec(cmd, labels)->Ok_0.0.len())
            == encode_spec(cmd, labels)->Ok_0.0,
    ensures
        ({
            let i = crate::isa::reg_code_of(cmd[1])->0;
            let b = encode_spec(cmd, labels)->Ok_0.0;
            let n = crate::encode::number_or_fault(cmd[2], u64::MAX as nat)->Ok_0;
            let o = crate::cpu::step_spec(r, m, core_id, rnd);
            &&& o.2 is Ok
            &&& o.0.pc == r.pc + b.len()
            &&& crate::cpu_laws::register(o.0, i) == (n as int) % (if crate::cpu_laws::short_code(i) {
                0x1_0000int
            } else {
                0x1_0000_0000int
            })
        }),
{
    let i = crate::isa::reg_code_of(cmd[1])->0;
    let b = encode_spec(cmd, labels)->Ok_0.0;
    let n = crate::encode::number_or_fault(cmd[2], u64::MAX as nat)->Ok_0;
    let p = r.ptr + r.pc;
    law_register_tables();
    assert(crate::isa::is_short_reg(cmd[1]) == crate::cpu_laws::short_code(i)) by {
        reveal_strlit("cx");
        reveal_strlit("cy");
        reveal_strlit("dx");
        reveal_strlit("dy");
    }
    assert(b.len() <= 6);
    assert forall|k: int| 0 <= k < b.len() implies #[trigger] m.ram[p + k] == b[k] by {
        assert(m.ram.subrange(p, p + b.len())[k] == m.ram[p + k]);
    }
    assert(m.ram[p] == b[0] && m.ram[p + 1] == b[1] && m.ram[p + 2] == b[2] && m.ram[p + 3]
        == b[3]);
    crate::cpu_laws::law_load_immediate(r, m, core_id, rnd);
    if crate::cpu_laws::short_code(i) {
        assert((((n >> 8u64) as u8) as int) * 0x100 + ((n as u8) as int) == n % 0x1_0000) by (
        bit_vector);
    } else {
        assert(m.ram[p + 4] == b[4] && m.ram[p + 5] == b[5]);
        assert((((n >> 24u64) as u8) as int) * 0x100_0000 + (((n >> 16u64) as u8) as int)
            * 0x1_0000 + (((n >> 8u64) as u8) as int) * 0x100 + ((n as u8) as int) == n
            % 0x1_0000_0000) by (bit_vector);
    }
}

} // verus!
