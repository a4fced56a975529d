//! The two-pass assembler.
//!
//! The first pass walks the lines, records every label (a word starting with
//! `.`) at the number of bytes counted so far, and counts the size of each
//! instruction from a fixed table. The second pass encodes every line against
//! those labels. The text assets are then appended, each followed by a zero
//! byte, and every `ast` instruction receives its asset's address.
use vstd::prelude::*;
use vstd::utf8::encode_utf8;
use crate::encode::{
    Abort, LineError, LineFault, encode_spec, encode_line, label_views,
};
use crate::isa::{Instr, instr_of, instr, counted_size, short_reg};
use crate::number::{parse_unsigned, parse_unsigned_from};
use crate::text::{
    views, starts_with, split_on, replace_all, lowercased, trimmed, begins_with, is_word,
    split_chars, replace_chars, tokenize_line, chars_of, string_from_chars, lemma_split_nonempty,
};

verus! {

/// The tokens of each line, as texts.
pub open spec fn line_views(v: Seq<Vec<Vec<char>>>) -> Seq<Seq<Seq<char>>> {
    Seq::new(v.len(), |i: int| views(v[i]@))
}

/// Every line has at least one token (splitting never gives fewer).
pub open spec fn lines_wf(lines: Seq<Seq<Seq<char>>>) -> bool {
    forall|i: int| 0 <= i < lines.len() ==> #[trigger] lines[i].len() >= 1
}

/// Why assembling failed.
pub enum Failure {
    /// The assembler reports `error` at `line` of `file`, showing `words[0]`.
    Report { file: Seq<char>, line: nat, words: Seq<Seq<char>>, error: LineError },
    /// The assembler stops without a report.
    Abort(Abort),
}

/// A reported mistake: where it is and what the line held.
#[derive(Debug, Clone)]
pub struct Report {
    pub file: Vec<char>,
    pub line: usize,
    pub words: Vec<Vec<char>>,
    pub error: LineError,
}

/// Why assembling failed.
#[derive(Debug, Clone)]
pub enum AsmError {
    Report(Report),
    Abort(Abort),
}

/// The failure that an `AsmError` stands for.
pub open spec fn failure_view(e: AsmError) -> Failure {
    match e {
        AsmError::Report(r) => Failure::Report {
            file: r.file@,
            line: r.line as nat,
            words: views(r.words@),
            error: r.error,
        },
        AsmError::Abort(a) => Failure::Abort(a),
    }
}

/// The first pass over `lines`: the label definitions met so far (name and
/// address, in order) and the number of bytes counted; or the index of a line
/// `ldi` without any operand, on which the first pass stops.
pub open spec fn first_pass(lines: Seq<Seq<Seq<char>>>) -> Result<(Seq<(Seq<char>, u64)>, nat), nat>
    decreases lines.len(),
{
    if lines.len() == 0 {
        Ok((Seq::empty(), 0))
    } else {
        match first_pass(lines.drop_last()) {
            Err(i) => Err(i),
            Ok((labels, count)) => {
                let cmd = lines.last();
                let labels2 = if starts_with(cmd[0], seq!['.']) {
                    labels.push((cmd[0], count as u64))
                } else {
                    labels
                };
                if instr_of(cmd[0]) == Some(Instr::Ldi) && cmd.len() < 2 {
                    Err((lines.len() - 1) as nat)
                } else {
                    Ok((labels2, count + counted_size(cmd)))
                }
            },
        }
    }
}

/// The state of the second pass: the bytes emitted, the `ast` requests
/// (asset index, position of the 4 placeholder bytes), the current file name
/// and the current line number.
pub struct Pass2 {
    pub bytes: Seq<u8>,
    pub requests: Seq<(u64, nat)>,
    pub name: Seq<char>,
    pub line: nat,
}

/// The words of the macro that a `call` expands into.
pub open spec fn call_macro() -> Seq<char> {
    "remove_line: 5\nmov pc br\nldi bx 16\nadd bx\npsh br\njmp"@
}

/// The second pass over one line.
pub open spec fn line_step(st: Pass2, cmd: Seq<Seq<char>>, labels: Seq<(Seq<char>, u64)>) -> Result<
    Pass2,
    Failure,
>
    recommends
        cmd.len() >= 1,
{
    let w = cmd[0];
    let next = Pass2 { line: st.line + 1, ..st };
    if starts_with(w, seq!['.']) || starts_with(w, seq![';']) {
        Ok(next)
    } else if w == "file_start:"@ {
        if cmd.len() < 2 {
            Err(Failure::Abort(Abort::MissingOperand))
        } else {
            Ok(Pass2 { name: cmd[1], line: 1, ..st })
        }
    } else if w == "remove_line:"@ {
        if cmd.len() < 2 {
            Err(Failure::Abort(Abort::MissingOperand))
        } else {
            match parse_unsigned(cmd[1], 10, usize::MAX as nat) {
                None => Err(Failure::Abort(Abort::BadLineCount)),
                Some(n) => if n > st.line {
                    Err(Failure::Abort(Abort::LineCountUnderflow))
                } else {
                    Ok(Pass2 { line: (st.line - n + 1) as nat, ..st })
                },
            }
        }
    } else if w.len() == 0 {
        Ok(next)
    } else {
        match encode_spec(cmd, labels) {
            Err(LineFault::Report(e)) => Err(
                Failure::Report { file: st.name, line: st.line, words: cmd, error: e },
            ),
            Err(LineFault::Abort(a)) => Err(Failure::Abort(a)),
            Ok((b, a)) => Ok(
                Pass2 {
                    bytes: st.bytes + b,
                    requests: match a {
                        Some(n) => st.requests.push((n, st.bytes.len() + 6)),
                        None => st.requests,
                    },
                    line: st.line + 1,
                    ..st
                },
            ),
        }
    }
}

/// The second pass over `lines`, starting from the bytes `header`, with the
/// label definitions `labels`.
pub open spec fn second_pass(
    lines: Seq<Seq<Seq<char>>>,
    labels: Seq<(Seq<char>, u64)>,
    header: Seq<u8>,
) -> Result<Pass2, Failure>
    decreases lines.len(),
{
    if lines.len() == 0 {
        Ok(Pass2 { bytes: header, requests: Seq::empty(), name: Seq::empty(), line: 1 })
    } else {
        match second_pass(lines.drop_last(), labels, header) {
            Err(e) => Err(e),
            Ok(st) => line_step(st, lines.last(), labels),
        }
    }
}

/// `bytes` followed by each asset and a zero byte, and the address at which
/// each asset starts.
pub open spec fn with_assets(bytes: Seq<u8>, assets: Seq<Seq<u8>>) -> (Seq<u8>, Seq<nat>)
    decreases assets.len(),
{
    if assets.len() == 0 {
        (bytes, Seq::empty())
    } else {
        let (b, addrs) = with_assets(bytes, assets.drop_last());
        (b + assets.last() + seq![0u8], addrs.push(b.len()))
    }
}

/// `image` with the big-endian bytes of the low 32 bits of `v` at `pos`.
pub open spec fn put_be4(image: Seq<u8>, pos: int, v: nat) -> Seq<u8> {
    let x = v as u64;
    image.update(pos, (x >> 24u64) as u8).update(pos + 1, (x >> 16u64) as u8).update(
        pos + 2,
        (x >> 8u64) as u8,
    ).update(pos + 3, x as u8)
}

/// Fills in the asset addresses that the `requests` ask for, in order.
pub open spec fn patch(image: Seq<u8>, requests: Seq<(u64, nat)>, addrs: Seq<nat>) -> Result<
    Seq<u8>,
    Failure,
>
    decreases requests.len(),
{
    if requests.len() == 0 {
        Ok(image)
    } else {
        match patch(image, requests.drop_last(), addrs) {
            Err(e) => Err(e),
            Ok(im) => {
                let (n, pos) = requests.last();
                if n >= addrs.len() {
                    Err(Failure::Abort(Abort::AssetOutOfRange))
                } else {
                    Ok(put_be4(im, pos as int, addrs[n as int]))
                }
            },
        }
    }
}

/// The image that the assembler writes for the tokenized `lines`, starting
/// from the bytes `header`, with the text `assets`; or why it fails.
pub open spec fn assembled(
    lines: Seq<Seq<Seq<char>>>,
    header: Seq<u8>,
    assets: Seq<Seq<char>>,
) -> Result<Seq<u8>, Failure> {
    match first_pass(lines) {
        Err(_) => Err(Failure::Abort(Abort::MissingOperand)),
        Ok((labels, _)) => match second_pass(lines, labels, header) {
            Err(e) => Err(e),
            Ok(st) => {
                let (image, addrs) = with_assets(
                    st.bytes,
                    Seq::new(assets.len(), |i: int| encode_utf8(assets[i])),
                );
                patch(image, st.requests, addrs)
            },
        },
    }
}

/// The tokenized lines of a source text: `call` expanded into its macro
/// (except in `;call` comments), split into lines, each line tokenized.
pub open spec fn source_lines(src: Seq<char>) -> Seq<Seq<Seq<char>>> {
    let expanded = replace_all(replace_all(src, ";call"@, ";cal"@), "call"@, call_macro());
    let raw = split_on(expanded, '\n');
    Seq::new(raw.len(), |i: int| split_on(lowercased(trimmed(raw[i])), ' '))
}

/// A bound on the input that keeps every count in range.
pub open spec fn fits(lines_len: nat, header_len: nat) -> bool {
    21 * lines_len + header_len + 32 <= usize::MAX
}

/// Once the first pass stops on a line, it stops there whatever follows.
proof fn lemma_first_pass_stops(lines: Seq<Seq<Seq<char>>>, j: int)
    requires
        0 <= j <= lines.len(),
        first_pass(lines.take(j)) is Err,
    ensures
        first_pass(lines) == first_pass(lines.take(j)),
    decreases lines.len() - j,
{
    if j < lines.len() {
        assert(lines.drop_last().take(j) =~= lines.take(j));
        lemma_first_pass_stops(lines.drop_last(), j);
    } else {
        assert(lines.take(j) =~= lines);
    }
}

/// Once the second pass fails on a line, it fails there whatever follows.
proof fn lemma_second_pass_stops(
    lines: Seq<Seq<Seq<char>>>,
    labels: Seq<(Seq<char>, u64)>,
    header: Seq<u8>,
    j: int,
)
    requires
        0 <= j <= lines.len(),
        second_pass(lines.take(j), labels, header) is Err,
    ensures
        second_pass(lines, labels, header) == second_pass(lines.take(j), labels, header),
    decreases lines.len() - j,
{
    if j < lines.len() {
        assert(lines.drop_last().take(j) =~= lines.take(j));
        lemma_second_pass_stops(lines.drop_last(), labels, header, j);
    } else {
        assert(lines.take(j) =~= lines);
    }
}

/// Once filling in an asset address fails, the whole patching fails the same way.
proof fn lemma_patch_stops(image: Seq<u8>, requests: Seq<(u64, nat)>, addrs: Seq<nat>, j: int)
    requires
        0 <= j <= requests.len(),
        patch(image, requests.take(j), addrs) is Err,
    ensures
        patch(image, requests, addrs) == patch(image, requests.take(j), addrs),
    decreases requests.len() - j,
{
    if j < requests.len() {
        assert(requests.drop_last().take(j) =~= requests.take(j));
        lemma_patch_stops(image, requests.drop_last(), addrs, j);
    } else {
        assert(requests.take(j) =~= requests);
    }
}

/// The number of bytes that the first pass counts for a line is at most 20.
proof fn lemma_counted_size_bound(cmd: Seq<Seq<char>>)
    ensures
        counted_size(cmd) <= 20,
{
}

/// The first pass over `lines` (tokens of each line, each line non-empty).
pub fn run_first_pass(lines: &Vec<Vec<Vec<char>>>) -> (r: Result<(Vec<(Vec<char>, u64)>, u64), usize>)
    requires
        lines_wf(line_views(lines@)),
        20 * lines@.len() <= usize::MAX,
    ensures
        match r {
            Ok((labels, count)) => first_pass(line_views(lines@)) == Ok::<
                (Seq<(Seq<char>, u64)>, nat),
                nat,
            >((label_views(labels@), count as nat)),
            Err(i) => first_pass(line_views(lines@)) == Err::<(Seq<(Seq<char>, u64)>, nat), nat>(
                i as nat,
            ),
        },
{
    let ghost lv = line_views(lines@);
    let mut labels: Vec<(Vec<char>, u64)> = Vec::new();
    let mut count: u64 = 0;
    let mut i: usize = 0;
    assert(lv.take(0) =~= Seq::<Seq<Seq<char>>>::empty());
    assert(label_views(labels@) =~= Seq::<(Seq<char>, u64)>::empty());
    while i < lines.len()
        invariant
            lv == line_views(lines@),
            lines_wf(lv),
            20 * lines@.len() <= usize::MAX,
            i <= lines@.len(),
            count <= 20 * i,
            first_pass(lv.take(i as int)) == Ok::<(Seq<(Seq<char>, u64)>, nat), nat>(
                (label_views(labels@), count as nat),
            ),
        decreases lines@.len() - i,
    {
        let cmd = &lines[i];
        assert(lv.take(i + 1).drop_last() =~= lv.take(i as int));
        assert(lv.take(i + 1).last() == lv[i as int]);
        assert(lv[i as int] == views(cmd@));
        assert(lv[i as int].len() >= 1);
        proof {
            lemma_counted_size_bound(lv[i as int]);
        }
        let ghost old_labels = labels@;
        if begins_with(&cmd[0], ".") {
            proof {
                reveal_strlit(".");
            }
            assert(seq!['.'] =~= "."@);
            labels.push((cmd[0].clone(), count));
            assert(label_views(labels@) =~= label_views(old_labels).push((cmd[0]@, count)));
        } else {
            proof {
                reveal_strlit(".");
            }
            assert(seq!['.'] =~= "."@);
        }
        let word = instr(&cmd[0]);
        let size: u64 = match word {
            Some(Instr::Bare(_)) => 1,
            Some(Instr::Absolute(_)) => 7,
            Some(Instr::Ldi) => {
                if cmd.len() < 2 {
                    proof {
                        lemma_first_pass_stops(lv, i + 1);
                    }
                    return Err(i);
                }
                if short_reg(&cmd[1]) {
                    4
                } else {
                    6
                }
            },
            Some(Instr::Mov) => 2,
            Some(Instr::Add) => 2,
            Some(Instr::Sub) => 2,
            Some(Instr::Arith(_)) => 2,
            Some(Instr::Jump(_)) => 6,
            Some(Instr::Not) => 2,
            Some(Instr::Shift(_)) => 3,
            Some(Instr::Single(_)) => 2,
            Some(Instr::Relative(_)) => 4,
            Some(Instr::Ptrm) => 9,
            Some(Instr::Dir) => 0,
            Some(Instr::Ast) => 20,
            None => 0,
        };
        assert(size == counted_size(lv[i as int]));
        count = count + size;
        i = i + 1;
    }
    assert(lv.take(i as int) =~= lv);
    Ok((labels, count))
}

/// The tokens of a line, copied.
fn clone_words(w: &Vec<Vec<char>>) -> (r: Vec<Vec<char>>)
    ensures
        views(r@) == views(w@),
{
    let mut r: Vec<Vec<char>> = Vec::new();
    let mut i: usize = 0;
    while i < w.len()
        invariant
            i <= w@.len(),
            r@.len() == i,
            forall|k: int| 0 <= k < i ==> (#[trigger] r@[k])@ == w@[k]@,
        decreases w@.len() - i,
    {
        let c = w[i].clone();
        assert(c@ == w@[i as int]@);
        r.push(c);
        i = i + 1;
    }
    assert(views(r@) =~= views(w@));
    r
}

/// The `ast` requests as (asset index, position) pairs.
pub open spec fn request_views(v: Seq<(u64, usize)>) -> Seq<(u64, nat)> {
    Seq::new(v.len(), |i: int| (v[i].0, v[i].1 as nat))
}

/// The state of the second pass while it runs.
struct PassState {
    bytes: Vec<u8>,
    reqs: Vec<(u64, usize)>,
    name: Vec<char>,
    line: usize,
}

spec fn pass_view(st: PassState) -> Pass2 {
    Pass2 {
        bytes: st.bytes@,
        requests: request_views(st.reqs@),
        name: st.name@,
        line: st.line as nat,
    }
}

spec fn requests_inside(st: PassState) -> bool {
    forall|k: int| 0 <= k < st.reqs@.len() ==> #[trigger] st.reqs@[k].1 + 4 <= st.bytes@.len()
}

/// The second pass over one line.
fn second_pass_line(st: &mut PassState, cmd: &Vec<Vec<char>>, labels: &Vec<(Vec<char>, u64)>) -> (r:
    Result<(), AsmError>)
    requires
        views(cmd@).len() >= 1,
        old(st).line + 1 < usize::MAX,
        old(st).bytes@.len() + 32 < usize::MAX,
        requests_inside(*old(st)),
    ensures
        match r {
            Ok(_) => line_step(pass_view(*old(st)), views(cmd@), label_views(labels@)) == Ok::<
                Pass2,
                Failure,
            >(pass_view(*final(st))) && final(st).line <= old(st).line + 1
                && final(st).bytes@.len() <= old(st).bytes@.len() + 20 && requests_inside(
                *final(st),
            ),
            Err(e) => line_step(pass_view(*old(st)), views(cmd@), label_views(labels@)) == Err::<
                Pass2,
                Failure,
            >(failure_view(e)),
        },
{
    proof {
        reveal_strlit(".");
        reveal_strlit(";");
        assert(seq!['.'] =~= "."@);
        assert(seq![';'] =~= ";"@);
    }
    assert(cmd@.len() >= 1);

    if begins_with(&cmd[0], ".") || begins_with(&cmd[0], ";") {
        st.line = st.line + 1;
    } else if is_word(&cmd[0], "file_start:") {
        if cmd.len() < 2 {
            return Err(AsmError::Abort(Abort::MissingOperand));
        }
        st.name = cmd[1].clone();
        st.line = 1;
    } else if is_word(&cmd[0], "remove_line:") {
        if cmd.len() < 2 {
            return Err(AsmError::Abort(Abort::MissingOperand));
        }
        assert(cmd[1]@.skip(0) =~= cmd[1]@);
        match parse_unsigned_from(&cmd[1], 0, 10, usize::MAX as u64) {
            None => {
                return Err(AsmError::Abort(Abort::BadLineCount));
            },
            Some(n) => {
                if n > st.line as u64 {
                    return Err(AsmError::Abort(Abort::LineCountUnderflow));
                }
                st.line = st.line - n as usize + 1;
            },
        }
    } else if cmd[0].len() == 0 {
        st.line = st.line + 1;
    } else {
        match encode_line(cmd, labels) {
            Err(LineFault::Report(e)) => {
                let rep = Report {
                    file: st.name.clone(),
                    line: st.line,
                    words: clone_words(cmd),
                    error: e,
                };
                return Err(AsmError::Report(rep));
            },
            Err(LineFault::Abort(a)) => {
                return Err(AsmError::Abort(a));
            },
            Ok((b, a)) => {
                proof {
                    crate::laws::lemma_encoded_len(views(cmd@), label_views(labels@));
                }
                let ghost old_bytes = st.bytes@;
                let ghost old_reqs = st.reqs@;
                let ghost old_st = *st;
                let start = st.bytes.len();
                let mut k: usize = 0;
                while k < b.len()
                    invariant
                        k <= b@.len(),
                        st.bytes@ == old_bytes + b@.take(k as int),
                        st.reqs@ == old_reqs,
                        st.name == old_st.name,
                        st.line == old_st.line,
                    decreases b@.len() - k,
                {
                    st.bytes.push(b[k]);
                    k = k + 1;
                    assert(st.bytes@ =~= old_bytes + b@.take(k as int));
                }
                assert(b@.take(b@.len() as int) =~= b@);
                match a {
                    Some(n) => {
                        st.reqs.push((n, start + 6));
                        assert(request_views(st.reqs@) =~= request_views(old_reqs).push(
                            (n, (start + 6) as nat),
                        ));
                    },
                    None => {},
                }
                st.line = st.line + 1;
            },
        }
    }
    Ok(())
}

/// The second pass over `lines` against `labels`, starting from `header`.
pub fn run_second_pass(
    lines: &Vec<Vec<Vec<char>>>,
    labels: &Vec<(Vec<char>, u64)>,
    header: &Vec<u8>,
) -> (r: Result<(Vec<u8>, Vec<(u64, usize)>), AsmError>)
    requires
        lines_wf(line_views(lines@)),
        fits(lines@.len(), header@.len()),
    ensures
        match r {
            Ok((bytes, reqs)) => second_pass(line_views(lines@), label_views(labels@), header@) matches Ok(st)
                && st.bytes == bytes@ && st.requests == request_views(reqs@)
                && forall|k: int| 0 <= k < reqs@.len() ==> #[trigger] reqs@[k].1 + 4 <= bytes@.len(),
            Err(e) => second_pass(line_views(lines@), label_views(labels@), header@) == Err::<
                Pass2,
                Failure,
            >(failure_view(e)),
        },
{
    let ghost lv = line_views(lines@);
    let ghost labs = label_views(labels@);
    let mut st = PassState { bytes: header.clone(), reqs: Vec::new(), name: Vec::new(), line: 1 };
    let mut i: usize = 0;
    assert(lv.take(0) =~= Seq::<Seq<Seq<char>>>::empty());
    assert(request_views(st.reqs@) =~= Seq::<(u64, nat)>::empty());
    while i < lines.len()
        invariant
            lv == line_views(lines@),
            labs == label_views(labels@),
            lines_wf(lv),
            fits(lines@.len(), header@.len()),
            i <= lines@.len(),
            st.line <= i + 1,
            st.bytes@.len() <= header@.len() + 20 * i,
            requests_inside(st),
            second_pass(lv.take(i as int), labs, header@) == Ok::<Pass2, Failure>(pass_view(st)),
        decreases lines@.len() - i,
    {
        assert(lv.take(i + 1).drop_last() =~= lv.take(i as int));
        assert(lv.take(i + 1).last() == lv[i as int]);
        assert(lv[i as int] == views(lines@[i as int]@));
        assert(lv[i as int].len() >= 1);
        match second_pass_line(&mut st, &lines[i], labels) {
            Err(e) => {
                proof {
                    lemma_second_pass_stops(lv, labs, header@, i + 1);
                }
                return Err(e);
            },
            Ok(_) => {},
        }
        i = i + 1;
    }
    assert(lv.take(i as int) =~= lv);
    Ok((st.bytes, st.reqs))
}

/// The assembled image for the tokenized `lines`, starting from the bytes
/// `header`, followed by the text `assets`.
pub fn assemble_lines(lines: &Vec<Vec<Vec<char>>>, header: &Vec<u8>, assets: &Vec<Vec<char>>) -> (r:
    Result<Vec<u8>, AsmError>)
    requires
        lines_wf(line_views(lines@)),
        fits(lines@.len(), header@.len()),
    ensures
        match r {
            Ok(image) => assembled(line_views(lines@), header@, views(assets@)) == Ok::<
                Seq<u8>,
                Failure,
            >(image@),
            Err(e) => assembled(line_views(lines@), header@, views(assets@)) == Err::<
                Seq<u8>,
                Failure,
            >(failure_view(e)),
        },
{
    let labels = match run_first_pass(lines) {
        Err(_) => {
            return Err(AsmError::Abort(Abort::MissingOperand));
        },
        Ok((labels, _)) => labels,
    };
    let (mut image, reqs) = run_second_pass(lines, &labels, header)?;
    let ghost encoded = Seq::new(assets@.len(), |i: int| encode_utf8(views(assets@)[i]));
    let mut addrs: Vec<usize> = Vec::new();
    let mut j: usize = 0;
    let ghost base = image@;
    assert(encoded.take(0) =~= Seq::<Seq<u8>>::empty());
    assert(addrs@.map_values(|a: usize| a as nat) =~= Seq::<nat>::empty());
    while j < assets.len()
        invariant
            j <= assets@.len(),
            encoded == Seq::new(assets@.len(), |i: int| encode_utf8(views(assets@)[i])),
            with_assets(base, encoded.take(j as int)) == (
                image@,
                addrs@.map_values(|a: usize| a as nat),
            ),
            image@.len() >= base.len(),
            image@.take(base.len() as int) == base,
        decreases assets@.len() - j,
    {
        let text = string_from_chars(&assets[j]);
        let bs = text.as_str().as_bytes();
        assert(bs@ == encoded[j as int]);
        assert(encoded.take(j + 1).drop_last() =~= encoded.take(j as int));
        let ghost old_image = image@;
        let ghost old_addrs = addrs@;
        addrs.push(image.len());
        let mut k: usize = 0;
        while k < bs.len()
            invariant
                k <= bs@.len(),
                image@ == old_image + bs@.take(k as int),
            decreases bs@.len() - k,
        {
            image.push(bs[k]);
            k = k + 1;
            assert(image@ =~= old_image + bs@.take(k as int));
        }
        image.push(0);
        assert(bs@.take(bs@.len() as int) =~= bs@);
        assert(image@ =~= old_image + encoded[j as int] + seq![0u8]);
        assert(addrs@.map_values(|a: usize| a as nat) =~= old_addrs.map_values(|a: usize| a as nat).push(
            old_image.len(),
        ));
        assert(image@.take(base.len() as int) =~= base);
        j = j + 1;
    }
    assert(encoded.take(j as int) =~= encoded);
    assert(encoded =~= Seq::new(views(assets@).len(), |i: int| encode_utf8(views(assets@)[i])));
    let ghost addr_view = addrs@.map_values(|a: usize| a as nat);
    let ghost rv = request_views(reqs@);
    let mut q: usize = 0;
    let ghost full = image@;
    assert(rv.take(0) =~= Seq::<(u64, nat)>::empty());
    #[verifier::loop_isolation(false)]
    while q < reqs.len()
        invariant
            q <= reqs@.len(),
            rv == request_views(reqs@),
            addr_view == addrs@.map_values(|a: usize| a as nat),
            image@.len() == full.len(),
            full.len() >= base.len(),
            forall|k: int| 0 <= k < reqs@.len() ==> #[trigger] reqs@[k].1 + 4 <= base.len(),
            patch(full, rv.take(q as int), addr_view) == Ok::<Seq<u8>, Failure>(image@),
        decreases reqs@.len() - q,
    {
        assert(rv.take(q + 1).drop_last() =~= rv.take(q as int));
        assert(rv.take(q + 1).last() == rv[q as int]);
        let (n, pos) = reqs[q];
        let ilen = image.len();
        assert(reqs@[q as int].1 + 4 <= base.len());
        if n >= addrs.len() as u64 {
            proof {
                assert(addr_view.len() == addrs@.len());
                assert(rv[q as int].0 == n);
                assert(patch(full, rv.take(q + 1), addr_view) is Err);
                lemma_patch_stops(full, rv, addr_view, q + 1);
            }
            return Err(AsmError::Abort(Abort::AssetOutOfRange));
        }
        let v = addrs[n as usize] as u64;
        image.set(pos, (v >> 24) as u8);
        image.set(pos + 1, (v >> 16) as u8);
        image.set(pos + 2, (v >> 8) as u8);
        image.set(pos + 3, v as u8);
        q = q + 1;
    }
    assert(rv.take(q as int) =~= rv);
    Ok(image)
}

/// The image or failure that a result of assembling stands for.
pub open spec fn result_view(r: Result<Vec<u8>, AsmError>) -> Result<Seq<u8>, Failure> {
    match r {
        Ok(image) => Ok(image@),
        Err(e) => Err(failure_view(e)),
    }
}

/// Replacing a non-empty pattern by a text at most `k` times as long makes
/// the text at most `k` times as long.
proof fn lemma_replace_len(s: Seq<char>, pat: Seq<char>, rep: Seq<char>, k: nat)
    requires
        pat.len() > 0,
        k >= 1,
        rep.len() <= k * pat.len(),
    ensures
        replace_all(s, pat, rep).len() <= k * s.len(),
    decreases s.len(),
{
    if s.len() < pat.len() {
        assert(s.len() <= k * s.len()) by (nonlinear_arith)
            requires
                k >= 1,
        ;
    } else if s.take(pat.len() as int) == pat {
        lemma_replace_len(s.skip(pat.len() as int), pat, rep, k);
        let a = s.len() - pat.len();
        assert(k * pat.len() + k * a == k * s.len()) by (nonlinear_arith)
            requires
                a == s.len() - pat.len(),
        ;
    } else {
        lemma_replace_len(s.skip(1), pat, rep, k);
        let a = s.len() - 1;
        assert(1 + k * a <= k * s.len()) by (nonlinear_arith)
            requires
                a == s.len() - 1,
                k >= 1,
        ;
    }
}

/// Splitting a text gives at most one piece more than it has characters.
proof fn lemma_split_len(s: Seq<char>, sep: char)
    ensures
        split_on(s, sep).len() <= s.len() + 1,
    decreases s.len(),
{
    if s.len() > 0 {
        lemma_split_len(s.drop_last(), sep);
        lemma_split_nonempty(s.drop_last(), sep);
    }
}

/// Assembles the source text `src` (its carriage returns already removed),
/// starting from the bytes `header`, with the text `assets`.
pub fn assemble_source(src: &Vec<char>, header: &Vec<u8>, assets: &Vec<Vec<char>>) -> (r: Result<
    Vec<u8>,
    AsmError,
>)
    requires
        273 * src@.len() + header@.len() + 64 <= usize::MAX,
    ensures
        result_view(r) == assembled(source_lines(src@), header@, views(assets@)),
{
    let semi_call = chars_of(";call");
    let semi_cal = chars_of(";cal");
    let call = chars_of("call");
    let mac = chars_of("remove_line: 5\nmov pc br\nldi bx 16\nadd bx\npsh br\njmp");
    proof {
        reveal_strlit(";call");
        reveal_strlit(";cal");
        reveal_strlit("call");
        reveal_strlit("remove_line: 5\nmov pc br\nldi bx 16\nadd bx\npsh br\njmp");
        lemma_replace_len(src@, semi_call@, semi_cal@, 1);
    }
    let once = replace_chars(src, &semi_call, &semi_cal);
    proof {
        lemma_replace_len(once@, call@, mac@, 13);
    }
    let expanded = replace_chars(&once, &call, &mac);
    let raw = split_chars(&expanded, '\n');
    proof {
        lemma_split_len(expanded@, '\n');
    }
    let mut lines: Vec<Vec<Vec<char>>> = Vec::new();
    let mut i: usize = 0;
    let ghost target = source_lines(src@);
    while i < raw.len()
        invariant
            i <= raw@.len(),
            views(raw@) == split_on(expanded@, '\n'),
            expanded@ == replace_all(replace_all(src@, ";call"@, ";cal"@), "call"@, call_macro()),
            target == source_lines(src@),
            lines@.len() == i,
            forall|k: int| 0 <= k < i ==> #[trigger] views(lines@[k]@) == target[k],
        decreases raw@.len() - i,
    {
        let toks = tokenize_line(&raw[i]);
        assert(views(raw@)[i as int] == raw@[i as int]@);
        lines.push(toks);
        i = i + 1;
    }
    assert(line_views(lines@) =~= target);
    assert(lines_wf(line_views(lines@))) by {
        assert forall|k: int| 0 <= k < line_views(lines@).len() implies #[trigger] line_views(
            lines@,
        )[k].len() >= 1 by {
            let raw_k = split_on(expanded@, '\n')[k];
            lemma_split_nonempty(lowercased(trimmed(raw_k)), ' ');
        }
    }
    assemble_lines(&lines, header, assets)
}

} // verus!
