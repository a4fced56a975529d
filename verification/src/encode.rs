//! Encoding one source line (already split into lowercase tokens) into the
//! bytes of its instruction.
use vstd::prelude::*;
use crate::isa::{
    Instr, instr_of, instr, reg_code_of, reg_code, is_short_reg, short_reg, add_code_of, add_code,
    sub_code_of, sub_code, result_code_of, result_code, input_code_of, input_code, be2, be4, be5,
    push_be2, push_be4, push_be5,
};
use crate::number::{Operand, ByteOperand, operand_value, dir_operand, read_operand, read_dir_operand};
use crate::text::views;

verus! {

/// A mistake in a line that the assembler reports (with the file, the line
/// number and the line's first word) before it stops.
#[derive(PartialEq, Eq, Debug, Clone, Copy, Structural)]
pub enum LineError {
    MissingArgument,
    InvalidNumber,
    UnknownRegister,
    InvalidRegisterOption,
    InvalidRegisterCombination,
    UnknownLabel,
    InvalidHexByte,
    WideRegisterOnly,
    UnexpectedCommand,
}

/// The words with which the assembler reports `e`.
pub open spec fn error_message(e: LineError) -> Seq<char> {
    match e {
        LineError::MissingArgument => "missing argument"@,
        LineError::InvalidNumber => "invalid number"@,
        LineError::UnknownRegister => "unknown register"@,
        LineError::InvalidRegisterOption => "invalid register option"@,
        LineError::InvalidRegisterCombination => "invalid register combination"@,
        LineError::UnknownLabel => "unknown label"@,
        LineError::InvalidHexByte => "invalid 8-bit hexadecimal number"@,
        LineError::WideRegisterOnly => "32 bit register only instruction"@,
        LineError::UnexpectedCommand => "unexpected command"@,
    }
}

impl LineError {
    /// The words with which the assembler reports this mistake.
    pub fn message(&self) -> (m: &'static str)
        ensures
            m@ == error_message(*self),
    {
        match self {
            LineError::MissingArgument => "missing argument",
            LineError::InvalidNumber => "invalid number",
            LineError::UnknownRegister => "unknown register",
            LineError::InvalidRegisterOption => "invalid register option",
            LineError::InvalidRegisterCombination => "invalid register combination",
            LineError::UnknownLabel => "unknown label",
            LineError::InvalidHexByte => "invalid 8-bit hexadecimal number",
            LineError::WideRegisterOnly => "32 bit register only instruction",
            LineError::UnexpectedCommand => "unexpected command",
        }
    }
}

/// A defect in the input on which the assembler stops without a report.
#[derive(PartialEq, Eq, Debug, Clone, Copy, Structural)]
pub enum Abort {
    /// An operand that the instruction reads is missing and not checked for.
    MissingOperand,
    /// The digits after `0x` do not form a number of the operand's width.
    MalformedHex,
    /// A `dir` operand cannot be cut at its third byte.
    SplitInsideChar,
    /// A `remove_line:` count is not a decimal number.
    BadLineCount,
    /// A `remove_line:` count is larger than the current line number. The
    /// line counter is checked arithmetic, as in a debug build: it never
    /// wraps below zero (so a `call` in the first four lines of a file
    /// stops here).
    LineCountUnderflow,
    /// An `ast` line names an asset that does not exist.
    AssetOutOfRange,
}

/// Why a line could not be encoded.
#[derive(PartialEq, Eq, Debug, Clone, Copy, Structural)]
pub enum LineFault {
    Report(LineError),
    Abort(Abort),
}

/// A line's bytes, and the index of the text asset whose address goes into
/// bytes 6..10 of them (for `ast`).
pub type Encoded = (Seq<u8>, Option<u64>);

/// The address of `label` in a list of label definitions: the last one wins.
pub open spec fn label_lookup(labels: Seq<(Seq<char>, u64)>, label: Seq<char>) -> Option<u64>
    decreases labels.len(),
{
    if labels.len() == 0 {
        None
    } else if labels.last().0 == label {
        Some(labels.last().1)
    } else {
        label_lookup(labels.drop_last(), label)
    }
}

/// The texts and addresses of a list of label definitions.
pub open spec fn label_views(v: Seq<(Vec<char>, u64)>) -> Seq<(Seq<char>, u64)> {
    Seq::new(v.len(), |i: int| (v[i].0@, v[i].1))
}

/// What a line gives when its word names no instruction, or the instruction's
/// encoding.
pub open spec fn encode_spec(cmd: Seq<Seq<char>>, labels: Seq<(Seq<char>, u64)>) -> Result<
    Encoded,
    LineFault,
>
    recommends
        cmd.len() >= 1,
{
    match instr_of(cmd[0]) {
        None => Err(LineFault::Report(LineError::UnexpectedCommand)),
        Some(i) => encode_instr(i, cmd, labels),
    }
}

/// Reads a numeric operand, mapping the failures to the line's fault.
pub open spec fn number_or_fault(t: Seq<char>, max: nat) -> Result<u64, LineFault> {
    match operand_value(t, max) {
        Operand::Value(v) => Ok(v),
        Operand::Invalid => Err(LineFault::Report(LineError::InvalidNumber)),
        Operand::Malformed => Err(LineFault::Abort(Abort::MalformedHex)),
    }
}

/// A register code, or "unknown register".
pub open spec fn reg_or_fault(t: Seq<char>) -> Result<u8, LineFault> {
    match reg_code_of(t) {
        Some(r) => Ok(r),
        None => Err(LineFault::Report(LineError::UnknownRegister)),
    }
}

/// The bytes that the `ast` sequence emits for a result register with code `r`:
/// save `ax` and `ay`, load the asset's address (patched later) into `ax`,
/// copy `ptr` into `ay`, add into `ar`, restore, and copy `ar` into the register.
pub open spec fn ast_bytes(r: u8) -> Seq<u8> {
    seq![
        0x18u8, 0x00u8, 0x18u8, 0x04u8, 0x04u8, 0x00u8, 0x00u8, 0x00u8, 0x00u8, 0x00u8,
        0x05u8, 0x4Du8, 0x06u8, 0x00u8, 0x19u8, 0x00u8, 0x19u8, 0x04u8, 0x05u8,
        (0x08u8 | (r << 4u8)),
    ]
}

/// The encoding of the instruction `i` on the line `cmd`.
pub open spec fn encode_instr(i: Instr, cmd: Seq<Seq<char>>, labels: Seq<(Seq<char>, u64)>) -> Result<
    Encoded,
    LineFault,
> {
    let missing = Err(LineFault::Report(LineError::MissingArgument));
    let option = Err(LineFault::Report(LineError::InvalidRegisterOption));
    match i {
        Instr::Bare(op) => Ok((seq![op], None)),
        Instr::Absolute(op) => if cmd.len() < 3 {
            missing
        } else {
            match number_or_fault(cmd[2], u64::MAX as nat) {
                Err(e) => Err(e),
                Ok(a) => match reg_or_fault(cmd[1]) {
                    Err(e) => Err(e),
                    Ok(r) => Ok((seq![op] + be5(a) + seq![r], None)),
                },
            }
        },
        Instr::Ldi => if cmd.len() < 3 {
            missing
        } else {
            match reg_or_fault(cmd[1]) {
                Err(e) => Err(e),
                Ok(r) => match number_or_fault(cmd[2], u64::MAX as nat) {
                    Err(e) => Err(e),
                    Ok(n) => Ok(
                        (seq![0x04u8, r] + (if is_short_reg(cmd[1]) {
                            be2(n)
                        } else {
                            be4(n)
                        }), None),
                    ),
                },
            }
        },
        Instr::Mov => if cmd.len() < 3 {
            missing
        } else {
            match (reg_code_of(cmd[1]), reg_code_of(cmd[2])) {
                (Some(s), Some(d)) => Ok((seq![0x05u8, ((d << 4u8) | s) as u8], None)),
                _ => Err(LineFault::Report(LineError::UnknownRegister)),
            }
        },
        Instr::Add => if cmd.len() < 2 {
            missing
        } else {
            match add_code_of(cmd[1]) {
                Some(c) => Ok((seq![0x06u8, c], None)),
                None => option,
            }
        },
        Instr::Sub => if cmd.len() < 2 {
            missing
        } else if cmd.len() < 3 {
            Err(LineFault::Abort(Abort::MissingOperand))
        } else {
            match sub_code_of(cmd[1] + cmd[2]) {
                Some(c) => Ok((seq![0x07u8, c], None)),
                None => Err(LineFault::Report(LineError::InvalidRegisterCombination)),
            }
        },
        Instr::Arith(op) => if cmd.len() < 2 {
            missing
        } else {
            match result_code_of(cmd[1]) {
                Some(c) => Ok((seq![op, c], None)),
                None => option,
            }
        },
        Instr::Jump(op) => if cmd.len() < 2 {
            missing
        } else {
            match label_lookup(labels, cmd[1]) {
                Some(a) => Ok((seq![op] + be5(a), None)),
                None => Err(LineFault::Report(LineError::UnknownLabel)),
            }
        },
        Instr::Not => if cmd.len() < 2 {
            missing
        } else {
            match input_code_of(cmd[1]) {
                Some(c) => Ok((seq![0x15u8, c], None)),
                None => option,
            }
        },
        Instr::Shift(op) => if cmd.len() < 3 {
            missing
        } else {
            match input_code_of(cmd[1]) {
                None => option,
                Some(c) => match number_or_fault(cmd[2], u8::MAX as nat) {
                    Err(e) => Err(e),
                    Ok(n) => Ok((seq![op, c, n as u8], None)),
                },
            }
        },
        Instr::Single(op) => if cmd.len() < 2 {
            missing
        } else {
            match reg_or_fault(cmd[1]) {
                Err(e) => Err(e),
                Ok(r) => Ok((seq![op, r], None)),
            }
        },
        Instr::Relative(op) => if cmd.len() < 4 {
            missing
        } else {
            match reg_or_fault(cmd[3]) {
                Err(e) => Err(e),
                Ok(r3) => match number_or_fault(cmd[2], u8::MAX as nat) {
                    Err(e) => Err(e),
                    Ok(n) => match reg_or_fault(cmd[1]) {
                        Err(e) => Err(e),
                        Ok(r1) => Ok((seq![op, r3, n as u8, r1], None)),
                    },
                },
            }
        },
        Instr::Ptrm => if cmd.len() < 3 {
            missing
        } else {
            match number_or_fault(cmd[1], u64::MAX as nat) {
                Err(e) => Err(e),
                Ok(pc) => match number_or_fault(cmd[2], u64::MAX as nat) {
                    Err(e) => Err(e),
                    Ok(ptr) => Ok((seq![0x36u8] + be4(pc) + be4(ptr), None)),
                },
            }
        },
        Instr::Dir => if cmd.len() < 2 {
            missing
        } else {
            match dir_operand(cmd[1]) {
                ByteOperand::Value(b) => Ok((seq![b], None)),
                ByteOperand::Invalid => Err(LineFault::Report(LineError::InvalidHexByte)),
                ByteOperand::Malformed => Err(LineFault::Abort(Abort::SplitInsideChar)),
            }
        },
        Instr::Ast => if cmd.len() < 3 {
            missing
        } else if is_short_reg(cmd[1]) {
            Err(LineFault::Report(LineError::WideRegisterOnly))
        } else {
            match reg_or_fault(cmd[1]) {
                Err(e) => Err(e),
                Ok(r) => match number_or_fault(cmd[2], u64::MAX as nat) {
                    Err(e) => Err(e),
                    Ok(n) => Ok((ast_bytes(r), Some(n))),
                },
            }
        },
    }
}

/// The bytes and asset index of an encoded line, as texts.
pub open spec fn encoded_view(r: Result<(Vec<u8>, Option<u64>), LineFault>) -> Result<
    Encoded,
    LineFault,
> {
    match r {
        Ok((b, a)) => Ok((b@, a)),
        Err(e) => Err(e),
    }
}

/// Looks up a label: the address of its last definition.
pub fn find_label(labels: &Vec<(Vec<char>, u64)>, label: &Vec<char>) -> (r: Option<u64>)
    ensures
        r == label_lookup(label_views(labels@), label@),
{
    let mut i = labels.len();
    assert(label_views(labels@).take(i as int) =~= label_views(labels@));
    while i > 0
        invariant
            i <= labels@.len(),
            label_lookup(label_views(labels@).take(i as int), label@) == label_lookup(
                label_views(labels@),
                label@,
            ),
        decreases i,
    {
        let ghost lv = label_views(labels@).take(i as int);
        assert(lv.drop_last() =~= label_views(labels@).take(i - 1));
        if vec_eq(&labels[i - 1].0, label) {
            return Some(labels[i - 1].1);
        }
        i = i - 1;
    }
    assert(label_views(labels@).take(0) =~= Seq::<(Seq<char>, u64)>::empty());
    None
}

/// Whether two character vectors hold the same text.
pub fn vec_eq(a: &Vec<char>, b: &Vec<char>) -> (r: bool)
    ensures
        r == (a@ == b@),
{
    if a.len() != b.len() {
        return false;
    }
    let mut i: usize = 0;
    while i < a.len()
        invariant
            a@.len() == b@.len(),
            i <= a@.len(),
            forall|k: int| 0 <= k < i ==> a@[k] == b@[k],
        decreases a@.len() - i,
    {
        if a[i] != b[i] {
            return false;
        }
        i = i + 1;
    }
    assert(a@ =~= b@);
    true
}

fn number_or_fault_exec(t: &Vec<char>, max: u64) -> (r: Result<u64, LineFault>)
    ensures
        r == number_or_fault(t@, max as nat),
{
    match read_operand(t, max) {
        Operand::Value(v) => Ok(v),
        Operand::Invalid => Err(LineFault::Report(LineError::InvalidNumber)),
        Operand::Malformed => Err(LineFault::Abort(Abort::MalformedHex)),
    }
}

fn reg_or_fault_exec(t: &Vec<char>) -> (r: Result<u8, LineFault>)
    ensures
        r == reg_or_fault(t@),
{
    match reg_code(t) {
        Some(r) => Ok(r),
        None => Err(LineFault::Report(LineError::UnknownRegister)),
    }
}

/// Encodes the line `cmd` (its tokens, `cmd[0]` being the instruction's word)
/// against the label definitions `labels`.
pub fn encode_line(cmd: &Vec<Vec<char>>, labels: &Vec<(Vec<char>, u64)>) -> (r: Result<
    (Vec<u8>, Option<u64>),
    LineFault,
>)
    requires
        cmd@.len() >= 1,
    ensures
        encoded_view(r) == encode_spec(views(cmd@), label_views(labels@)),
{
    match instr(&cmd[0]) {
        None => Err(LineFault::Report(LineError::UnexpectedCommand)),
        Some(i) => encode_instr_exec(i, cmd, labels),
    }
}

fn encode_instr_exec(i: Instr, cmd: &Vec<Vec<char>>, labels: &Vec<(Vec<char>, u64)>) -> (r: Result<
    (Vec<u8>, Option<u64>),
    LineFault,
>)
    ensures
        encoded_view(r) == encode_instr(i, views(cmd@), label_views(labels@)),
{
    let missing = Err(LineFault::Report(LineError::MissingArgument));
    let option = Err(LineFault::Report(LineError::InvalidRegisterOption));
    let mut out: Vec<u8> = Vec::new();
    match i {
        Instr::Bare(op) => {
            out.push(op);
            assert(out@ =~= seq![op]);
            Ok((out, None))
        },
        Instr::Absolute(op) => {
            if cmd.len() < 3 {
                return missing;
            }
            let a = number_or_fault_exec(&cmd[2], u64::MAX)?;
            let r = reg_or_fault_exec(&cmd[1])?;
            out.push(op);
            push_be5(&mut out, a);
            out.push(r);
            assert(out@ =~= seq![op] + be5(a) + seq![r]);
            Ok((out, None))
        },
        Instr::Ldi => {
            if cmd.len() < 3 {
                return missing;
            }
            let r = reg_or_fault_exec(&cmd[1])?;
            let n = number_or_fault_exec(&cmd[2], u64::MAX)?;
            out.push(0x04);
            out.push(r);
            let ghost head = out@;
            if short_reg(&cmd[1]) {
                push_be2(&mut out, n);
            } else {
                push_be4(&mut out, n);
            }
            assert(head =~= seq![0x04u8, r]);
            Ok((out, None))
        },
        Instr::Mov => {
            if cmd.len() < 3 {
                return missing;
            }
            match (reg_code(&cmd[1]), reg_code(&cmd[2])) {
                (Some(s), Some(d)) => {
                    out.push(0x05);
                    out.push((d << 4) | s);
                    assert(out@ =~= seq![0x05u8, ((d << 4u8) | s) as u8]);
                    Ok((out, None))
                },
                _ => Err(LineFault::Report(LineError::UnknownRegister)),
            }
        },
        Instr::Add => {
            if cmd.len() < 2 {
                return missing;
            }
            match add_code(&cmd[1]) {
                Some(k) => {
                    out.push(0x06);
                    out.push(k);
                    assert(out@ =~= seq![0x06u8, k]);
                    Ok((out, None))
                },
                None => option,
            }
        },
        Instr::Sub => {
            if cmd.len() < 2 {
                return missing;
            }
            if cmd.len() < 3 {
                return Err(LineFault::Abort(Abort::MissingOperand));
            }
            let both = concat(&cmd[1], &cmd[2]);
            match sub_code(&both) {
                Some(k) => {
                    out.push(0x07);
                    out.push(k);
                    assert(out@ =~= seq![0x07u8, k]);
                    Ok((out, None))
                },
                None => Err(LineFault::Report(LineError::InvalidRegisterCombination)),
            }
        },
        Instr::Arith(op) => {
            if cmd.len() < 2 {
                return missing;
            }
            match result_code(&cmd[1]) {
                Some(k) => {
                    out.push(op);
                    out.push(k);
                    assert(out@ =~= seq![op, k]);
                    Ok((out, None))
                },
                None => option,
            }
        },
        Instr::Jump(op) => {
            if cmd.len() < 2 {
                return missing;
            }
            match find_label(labels, &cmd[1]) {
                Some(a) => {
                    out.push(op);
                    push_be5(&mut out, a);
                    assert(out@ =~= seq![op] + be5(a));
                    Ok((out, None))
                },
                None => Err(LineFault::Report(LineError::UnknownLabel)),
            }
        },
        Instr::Not => {
            if cmd.len() < 2 {
                return missing;
            }
            match input_code(&cmd[1]) {
                Some(k) => {
                    out.push(0x15);
                    out.push(k);
                    assert(out@ =~= seq![0x15u8, k]);
                    Ok((out, None))
                },
                None => option,
            }
        },
        Instr::Shift(op) => {
            if cmd.len() < 3 {
                return missing;
            }
            match input_code(&cmd[1]) {
                None => option,
                Some(k) => {
                    let n = number_or_fault_exec(&cmd[2], 255)?;
                    out.push(op);
                    out.push(k);
                    out.push(n as u8);
                    assert(out@ =~= seq![op, k, n as u8]);
                    Ok((out, None))
                },
            }
        },
        Instr::Single(op) => {
            if cmd.len() < 2 {
                return missing;
            }
            let r = reg_or_fault_exec(&cmd[1])?;
            out.push(op);
            out.push(r);
            assert(out@ =~= seq![op, r]);
            Ok((out, None))
        },
        Instr::Relative(op) => {
            if cmd.len() < 4 {
                return missing;
            }
            let r3 = reg_or_fault_exec(&cmd[3])?;
            let n = number_or_fault_exec(&cmd[2], 255)?;
            let r1 = reg_or_fault_exec(&cmd[1])?;
            out.push(op);
            out.push(r3);
            out.push(n as u8);
            out.push(r1);
            assert(out@ =~= seq![op, r3, n as u8, r1]);
            Ok((out, None))
        },
        Instr::Ptrm => {
            if cmd.len() < 3 {
                return missing;
            }
            let pc = number_or_fault_exec(&cmd[1], u64::MAX)?;
            let ptr = number_or_fault_exec(&cmd[2], u64::MAX)?;
            out.push(0x36);
            push_be4(&mut out, pc);
            push_be4(&mut out, ptr);
            assert(out@ =~= seq![0x36u8] + be4(pc) + be4(ptr));
            Ok((out, None))
        },
        Instr::Dir => {
            if cmd.len() < 2 {
                return missing;
            }
            match read_dir_operand(&cmd[1]) {
                ByteOperand::Value(b) => {
                    out.push(b);
                    assert(out@ =~= seq![b]);
                    Ok((out, None))
                },
                ByteOperand::Invalid => Err(LineFault::Report(LineError::InvalidHexByte)),
                ByteOperand::Malformed => Err(LineFault::Abort(Abort::SplitInsideChar)),
            }
        },
        Instr::Ast => {
            if cmd.len() < 3 {
                return missing;
            }
            if short_reg(&cmd[1]) {
                return Err(LineFault::Report(LineError::WideRegisterOnly));
            }
            let r = reg_or_fault_exec(&cmd[1])?;
            let n = number_or_fault_exec(&cmd[2], u64::MAX)?;
            let out = vec![
                0x18u8, 0x00, 0x18, 0x04, 0x04, 0x00, 0x00, 0x00, 0x00, 0x00,
                0x05, 0x4D, 0x06, 0x00, 0x19, 0x00, 0x19, 0x04, 0x05,
                0x08 | (r << 4),
            ];
            assert(out@ =~= ast_bytes(r));
            Ok((out, Some(n)))
        },
    }
}

/// The characters of `a` followed by those of `b`.
pub fn concat(a: &Vec<char>, b: &Vec<char>) -> (r: Vec<char>)
    ensures
        r@ == a@ + b@,
{
    let mut r = a.clone();
    let mut i: usize = 0;
    while i < b.len()
        invariant
            i <= b@.len(),
            r@ == a@ + b@.take(i as int),
        decreases b@.len() - i,
    {
        r.push(b[i]);
        i = i + 1;
        assert(r@ =~= a@ + b@.take(i as int));
    }
    assert(b@.take(b@.len() as int) =~= b@);
    r
}

} // verus!
