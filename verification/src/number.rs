//! Numeric literals of the assembly language.
//!
//! A numeric operand is either hexadecimal (`0x` followed by hex digits, with
//! `_` allowed anywhere as a separator) or decimal. Both follow the rules of
//! std's unsigned `from_str_radix` / `parse`: an optional leading `+`, then at
//! least one digit of the radix, and a value that fits the target width.
use vstd::prelude::*;
use crate::text::{begins_with, byte_len, byte_len_is_below_three, char_width, starts_with};

verus! {

/// The value of `c` as a digit of `radix` (10 or 16; letters of either case).
pub open spec fn digit_value(c: char, radix: nat) -> Option<nat> {
    if '0' <= c && c <= '9' {
        Some((c as nat - '0' as nat) as nat)
    } else if radix == 16 && 'a' <= c && c <= 'f' {
        Some((c as nat - 'a' as nat + 10) as nat)
    } else if radix == 16 && 'A' <= c && c <= 'F' {
        Some((c as nat - 'A' as nat + 10) as nat)
    } else {
        None
    }
}

/// The value of `s` read as digits of `radix`, most significant first, or
/// `None` when some character is not such a digit. The empty text reads as 0.
pub open spec fn digits_value(s: Seq<char>, radix: nat) -> Option<nat>
    decreases s.len(),
{
    if s.len() == 0 {
        Some(0)
    } else {
        match (digits_value(s.drop_last(), radix), digit_value(s.last(), radix)) {
            (Some(v), Some(d)) => Some(v * radix + d),
            _ => None,
        }
    }
}

/// What std's unsigned `from_str_radix(s, radix)` returns for a type whose
/// largest value is `max`: an optional `+`, then one or more digits, and a
/// value no greater than `max`.
pub open spec fn parse_unsigned(s: Seq<char>, radix: nat, max: nat) -> Option<nat> {
    let body = if s.len() > 0 && s[0] == '+' {
        s.skip(1)
    } else {
        s
    };
    if body.len() == 0 {
        None
    } else {
        match digits_value(body, radix) {
            Some(v) => if v <= max {
                Some(v)
            } else {
                None
            },
            None => None,
        }
    }
}

/// `s` without any occurrence of `c`.
pub open spec fn strip_char(s: Seq<char>, c: char) -> Seq<char>
    decreases s.len(),
{
    if s.len() == 0 {
        s
    } else if s.last() == c {
        strip_char(s.drop_last(), c)
    } else {
        strip_char(s.drop_last(), c).push(s.last())
    }
}

/// The outcome of reading a numeric operand of the assembler.
#[derive(PartialEq, Eq, Debug, Clone, Copy, Structural)]
pub enum Operand {
    /// The operand's value.
    Value(u64),
    /// The assembler reports "invalid number".
    Invalid,
    /// The assembler aborts: the text after `0x` is not a hexadecimal number
    /// of the width asked for.
    Malformed,
}

/// How the assembler reads the numeric operand `t` for a width whose largest
/// value is `max`. A `0x` operand shorter than three characters is reported
/// as invalid; otherwise the underscores are removed and the rest after `0x`
/// must be a hexadecimal number, or the assembler aborts. Any other operand
/// must be a decimal number, or it is reported as invalid.
pub open spec fn operand_value(t: Seq<char>, max: nat) -> Operand {
    if starts_with(t, seq!['0', 'x']) {
        if t.len() < 3 {
            Operand::Invalid
        } else {
            match parse_unsigned(strip_char(t.skip(2), '_'), 16, max) {
                Some(v) => Operand::Value(v as u64),
                None => Operand::Malformed,
            }
        }
    } else {
        match parse_unsigned(t, 10, max) {
            Some(v) => Operand::Value(v as u64),
            None => Operand::Invalid,
        }
    }
}

/// The outcome of reading the operand of `dir`.
#[derive(PartialEq, Eq, Debug, Clone, Copy, Structural)]
pub enum ByteOperand {
    /// The byte to emit.
    Value(u8),
    /// The assembler reports "invalid 8-bit hexadecimal number".
    Invalid,
    /// The assembler aborts: byte 2 of the operand's UTF-8 text is not the
    /// start of a character, so the text cannot be cut there.
    Malformed,
}

/// Where byte 2 of the UTF-8 text of `t` starts, as a character index, if it
/// starts a character.
pub open spec fn third_byte_index(t: Seq<char>) -> Option<int> {
    if t.len() >= 1 && char_width(t[0]) == 2 {
        Some(1)
    } else if t.len() >= 2 && char_width(t[0]) == 1 && char_width(t[1]) == 1 {
        Some(2)
    } else {
        None
    }
}

/// How the assembler reads the operand of `dir`: at least three bytes long,
/// and everything from byte 2 on is a hexadecimal byte (the first two
/// characters are not looked at).
pub open spec fn dir_operand(t: Seq<char>) -> ByteOperand {
    if byte_len(t) < 3 {
        ByteOperand::Invalid
    } else {
        match third_byte_index(t) {
            None => ByteOperand::Malformed,
            Some(k) => match parse_unsigned(t.skip(k), 16, 255) {
                Some(v) => ByteOperand::Value(v as u8),
                None => ByteOperand::Invalid,
            },
        }
    }
}

proof fn lemma_digits_prefix(s: Seq<char>, i: int, radix: nat)
    requires
        0 <= i <= s.len(),
        radix >= 1,
        digits_value(s, radix) is Some,
    ensures
        digits_value(s.take(i), radix) is Some,
        digits_value(s.take(i), radix)->0 <= digits_value(s, radix)->0,
    decreases s.len(),
{
    if i == s.len() {
        assert(s.take(i) =~= s);
    } else {
        lemma_digits_prefix(s.drop_last(), i, radix);
        assert(s.drop_last().take(i) =~= s.take(i));
        let v = digits_value(s.drop_last(), radix)->0;
        assert(v * radix >= v) by (nonlinear_arith)
            requires
                radix >= 1,
        ;
    }
}

fn digit_of(c: char, radix: u32) -> (r: Option<u64>)
    requires
        radix == 10 || radix == 16,
    ensures
        r matches Some(d) ==> digit_value(c, radix as nat) == Some(d as nat) && d < radix,
        r is None ==> digit_value(c, radix as nat) is None,
{
    if '0' <= c && c <= '9' {
        Some((c as u32 - '0' as u32) as u64)
    } else if radix == 16 && 'a' <= c && c <= 'f' {
        Some((c as u32 - 'a' as u32 + 10) as u64)
    } else if radix == 16 && 'A' <= c && c <= 'F' {
        Some((c as u32 - 'A' as u32 + 10) as u64)
    } else {
        None
    }
}

/// Reads `s[start..]` as std's unsigned `from_str_radix` does, for a type
/// whose largest value is `max`.
pub fn parse_unsigned_from(s: &Vec<char>, start: usize, radix: u32, max: u64) -> (r: Option<u64>)
    requires
        start <= s@.len(),
        radix == 10 || radix == 16,
    ensures
        r matches Some(v) ==> parse_unsigned(s@.skip(start as int), radix as nat, max as nat)
            == Some(v as nat),
        r is None ==> parse_unsigned(s@.skip(start as int), radix as nat, max as nat) is None,
{
    let ghost whole = s@.skip(start as int);
    let mut i = start;
    if i < s.len() && s[i] == '+' {
        i = i + 1;
    }
    let ghost body = s@.skip(i as int);
    assert(body =~= (if whole.len() > 0 && whole[0] == '+' {
        whole.skip(1)
    } else {
        whole
    }));
    if i == s.len() {
        return None;
    }
    let first = i;
    let mut value: u64 = 0;
    assert(body.take(0) =~= Seq::<char>::empty());
    while i < s.len()
        invariant
            first <= i <= s@.len(),
            first < s@.len(),
            body == s@.skip(first as int),
            whole == s@.skip(start as int),
            body == (if whole.len() > 0 && whole[0] == '+' {
                whole.skip(1)
            } else {
                whole
            }),
            radix == 10 || radix == 16,
            digits_value(body.take(i - first), radix as nat) == Some(value as nat),
            value <= max,
        decreases s@.len() - i,
    {
        let ghost pre = body.take(i - first);
        assert(body.take(i - first + 1).drop_last() =~= pre);
        assert(body.take(i - first + 1).last() == s@[i as int]);
        match digit_of(s[i], radix) {
            None => {
                proof {
                    lemma_digits_none_extends(body, i - first + 1, radix as nat);
                }
                return None;
            },
            Some(d) => {
                let wide: u128 = if radix == 10 {
                    value as u128 * 10 + d as u128
                } else {
                    value as u128 * 16 + d as u128
                };
                if wide > max as u128 {
                    proof {
                        lemma_digits_big_extends(body, i - first + 1, radix as nat, max as nat);
                    }
                    return None;
                }
                value = wide as u64;
            },
        }
        i = i + 1;
    }
    assert(body.take(i - first) =~= body);
    Some(value)
}

proof fn lemma_digits_none_extends(s: Seq<char>, i: int, radix: nat)
    requires
        0 <= i <= s.len(),
        digits_value(s.take(i), radix) is None,
        radix >= 1,
    ensures
        digits_value(s, radix) is None,
{
    if digits_value(s, radix) is Some {
        lemma_digits_prefix(s, i, radix);
    }
}

proof fn lemma_digits_big_extends(s: Seq<char>, i: int, radix: nat, max: nat)
    requires
        0 <= i <= s.len(),
        radix >= 1,
        digits_value(s.take(i), radix) matches Some(v) && v > max,
    ensures
        !(digits_value(s, radix) matches Some(w) && w <= max),
{
    if digits_value(s, radix) is Some {
        lemma_digits_prefix(s, i, radix);
    }
}

/// `s` without the character `c`.
pub fn strip_chars(s: &Vec<char>, c: char) -> (r: Vec<char>)
    ensures
        r@ == strip_char(s@, c),
{
    let mut out: Vec<char> = Vec::new();
    let mut i: usize = 0;
    assert(s@.take(0) =~= Seq::<char>::empty());
    while i < s.len()
        invariant
            i <= s@.len(),
            out@ == strip_char(s@.take(i as int), c),
        decreases s@.len() - i,
    {
        assert(s@.take(i + 1).drop_last() =~= s@.take(i as int));
        if s[i] != c {
            out.push(s[i]);
        }
        i = i + 1;
    }
    assert(s@.take(s@.len() as int) =~= s@);
    out
}

/// Reads the numeric operand `t` of the assembler for a width whose largest
/// value is `max` (`u8::MAX`, `u64::MAX`, or `usize::MAX`).
pub fn read_operand(t: &Vec<char>, max: u64) -> (r: Operand)
    ensures
        r == operand_value(t@, max as nat),
{
    if begins_with(t, "0x") {
        proof {
            reveal_strlit("0x");
        }
        assert(seq!['0', 'x'] =~= "0x"@);
        if t.len() < 3 {
            return Operand::Invalid;
        }
        let mut rest: Vec<char> = Vec::new();
        let mut i: usize = 2;
        while i < t.len()
            invariant
                2 <= i <= t@.len(),
                rest@ == t@.subrange(2, i as int),
            decreases t@.len() - i,
        {
            rest.push(t[i]);
            i = i + 1;
            assert(rest@ =~= t@.subrange(2, i as int));
        }
        assert(rest@ =~= t@.skip(2));
        let digits = strip_chars(&rest, '_');
        assert(digits@.skip(0) =~= digits@);
        match parse_unsigned_from(&digits, 0, 16, max) {
            Some(v) => Operand::Value(v),
            None => Operand::Malformed,
        }
    } else {
        proof {
            reveal_strlit("0x");
        }
        assert(seq!['0', 'x'] =~= "0x"@);
        assert(t@.skip(0) =~= t@);
        match parse_unsigned_from(t, 0, 10, max) {
            Some(v) => Operand::Value(v),
            None => Operand::Invalid,
        }
    }
}

/// Reads the operand of `dir`.
pub fn read_dir_operand(t: &Vec<char>) -> (r: ByteOperand)
    ensures
        r == dir_operand(t@),
{
    if byte_len_is_below_three(t) {
        return ByteOperand::Invalid;
    }
    proof {
        lemma_byte_len_positive(t@);
    }
    let w0 = t[0] as u32;
    let k: usize = if 0x80 <= w0 && w0 < 0x800 {
        1
    } else if w0 < 0x80 && t.len() >= 2 && (t[1] as u32) < 0x80 {
        2
    } else {
        return ByteOperand::Malformed;
    };
    match parse_unsigned_from(t, k, 16, 255) {
        Some(v) => ByteOperand::Value(v as u8),
        None => ByteOperand::Invalid,
    }
}

proof fn lemma_byte_len_positive(s: Seq<char>)
    requires
        byte_len(s) >= 3,
    ensures
        s.len() >= 1,
{
}

} // verus!
