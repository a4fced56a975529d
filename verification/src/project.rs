//! Assembling a project: a directory of source files, header files (`.h`,
//! bytes that start the image) and asset files (`.ast`, one text per line),
//! put together into one source text.
//!
//! Each code file's labels are put in a namespace: on a line that holds a
//! `.` and no `::`, every `.` becomes `.NAME::`, NAME being the file's name
//! without `.asm`. Each file is preceded by a `FILE_START:` line that names
//! it, so that errors are reported against the right file and line.
use vstd::prelude::*;
use crate::encode::{Abort, LineError, LineFault};
use crate::number::{Operand, operand_value, read_operand, strip_char, strip_chars};
use crate::text::{
    split_on, replace_all, has_char, contains_seq, views, split_chars, replace_chars,
    contains_char, contains_word, chars_of,
};
use crate::assembler::{Failure, AsmError, Report, failure_view};

verus! {

/// One file of a project: its name, its path (as reported in errors), and
/// its text.
pub struct SourceFile {
    pub name: Vec<char>,
    pub path: Vec<char>,
    pub text: Vec<char>,
}

/// The contents of a project file.
pub struct SourceFileView {
    pub name: Seq<char>,
    pub path: Seq<char>,
    pub text: Seq<char>,
}

impl View for SourceFile {
    type V = SourceFileView;

    open spec fn view(&self) -> SourceFileView {
        SourceFileView { name: self.name@, path: self.path@, text: self.text@ }
    }
}

/// The views of the files of a project.
pub open spec fn file_views(v: Seq<SourceFile>) -> Seq<SourceFileView> {
    Seq::new(v.len(), |i: int| v[i]@)
}

/// Whether `s` ends with `p`.
pub open spec fn ends_with(s: Seq<char>, p: Seq<char>) -> bool {
    p.len() <= s.len() && s.skip(s.len() - p.len()) == p
}

/// The pieces joined with a newline between each two.
pub open spec fn join_lines(parts: Seq<Seq<char>>) -> Seq<char>
    decreases parts.len(),
{
    if parts.len() == 0 {
        Seq::empty()
    } else if parts.len() == 1 {
        parts[0]
    } else {
        join_lines(parts.drop_last()) + seq!['\n'] + parts.last()
    }
}

/// A line with its labels put in the namespace `stem`.
pub open spec fn namespace_line(line: Seq<char>, stem: Seq<char>) -> Seq<char> {
    if has_char(line, '.') && !contains_seq(line, "::"@) {
        replace_all(line, "."@, "."@ + stem + "::"@)
    } else {
        line
    }
}

/// A code file's text with its labels put in the namespace `stem`.
pub open spec fn namespaced(text: Seq<char>, stem: Seq<char>) -> Seq<char> {
    join_lines(split_on(text, '\n').map_values(|l: Seq<char>| namespace_line(l, stem)))
}

/// The byte that a token of a header file stands for: read as a numeric
/// operand of at most 255.
pub open spec fn header_token(t: Seq<char>) -> Result<u8, LineFault> {
    match operand_value(t, 255) {
        Operand::Value(v) => Ok(v as u8),
        Operand::Invalid => Err(LineFault::Report(LineError::InvalidNumber)),
        Operand::Malformed => Err(LineFault::Abort(Abort::MalformedHex)),
    }
}

/// The bytes of a sequence of header tokens, or the fault of the first bad one.
pub open spec fn header_values(tokens: Seq<Seq<char>>) -> Result<Seq<u8>, LineFault>
    decreases tokens.len(),
{
    if tokens.len() == 0 {
        Ok(Seq::empty())
    } else {
        match header_values(tokens.drop_last()) {
            Err(e) => Err(e),
            Ok(bs) => match header_token(tokens.last()) {
                Ok(b) => Ok(bs.push(b)),
                Err(e) => Err(e),
            },
        }
    }
}

/// The tokens of a header file: its text with newlines made spaces, split on
/// single spaces.
pub open spec fn header_tokens(text: Seq<char>) -> Seq<Seq<char>> {
    split_on(replace_all(text, "\n"@, " "@), ' ')
}

/// The texts of an asset file: one per line, `\n` (backslash, n) in a line
/// standing for a newline.
pub open spec fn asset_lines(text: Seq<char>) -> Seq<Seq<char>> {
    split_on(text, '\n').map_values(|l: Seq<char>| replace_all(l, "\\n"@, "\n"@))
}

/// What kind of file a project file is, by its name.
pub open spec fn is_header(f: SourceFileView) -> bool {
    ends_with(f.name, ".h"@)
}

/// See `is_header`.
pub open spec fn is_assets(f: SourceFileView) -> bool {
    !is_header(f) && ends_with(f.name, ".ast"@)
}

/// A file's text without carriage returns.
pub open spec fn clean(f: SourceFileView) -> Seq<char> {
    strip_char(f.text, '\r')
}

/// What a file adds to the project's source text: a `FILE_START:` line with
/// its path, then (for a code file) its namespaced text.
pub open spec fn file_piece(f: SourceFileView) -> Seq<char> {
    "\nFILE_START: "@ + f.path + "\n"@ + if is_header(f) || is_assets(f) {
        Seq::empty()
    } else {
        namespaced(clean(f), replace_all(f.name, ".asm"@, Seq::empty()))
    }
}

/// The pieces of the first `n` files.
pub open spec fn pieces(files: Seq<SourceFileView>) -> Seq<char>
    decreases files.len(),
{
    if files.len() == 0 {
        Seq::empty()
    } else {
        pieces(files.drop_last()) + file_piece(files.last())
    }
}

/// The project's source text: a jump to the entry label, if one is given,
/// then the pieces of the files in order.
pub open spec fn project_text(entry: Option<Seq<char>>, files: Seq<SourceFileView>) -> Seq<char> {
    match entry {
        Some(e) => "jmp "@ + e + "\n"@ + pieces(files),
        None => pieces(files),
    }
}

/// The texts of the project's asset files, in file order.
pub open spec fn project_assets(files: Seq<SourceFileView>) -> Seq<Seq<char>>
    decreases files.len(),
{
    if files.len() == 0 {
        Seq::empty()
    } else {
        project_assets(files.drop_last()) + if is_assets(files.last()) {
            asset_lines(clean(files.last()))
        } else {
            Seq::empty()
        }
    }
}

/// The failure that a bad header token gives in file `path`.
pub open spec fn header_failure(path: Seq<char>, e: LineFault) -> Failure {
    match e {
        LineFault::Report(err) => Failure::Report {
            file: path,
            line: 0,
            words: seq!["header"@],
            error: err,
        },
        LineFault::Abort(a) => Failure::Abort(a),
    }
}

/// The bytes of the project's header files, in file order, or the failure of
/// the first bad one.
pub open spec fn project_header(files: Seq<SourceFileView>) -> Result<Seq<u8>, Failure>
    decreases files.len(),
{
    if files.len() == 0 {
        Ok(Seq::empty())
    } else {
        match project_header(files.drop_last()) {
            Err(e) => Err(e),
            Ok(h) => if is_header(files.last()) {
                match header_values(header_tokens(clean(files.last()))) {
                    Ok(bs) => Ok(h + bs),
                    Err(e) => Err(header_failure(files.last().path, e)),
                }
            } else {
                Ok(h)
            },
        }
    }
}


/// Whether `t` ends with the characters of `w`.
pub fn ends_with_str(t: &Vec<char>, w: &str) -> (b: bool)
    ensures
        b == ends_with(t@, w@),
{
    let n = w.unicode_len();
    if t.len() < n {
        return false;
    }
    let tl = t.len();
    let off = tl - n;
    let mut i: usize = 0;
    while i < n
        invariant
            n == w@.len(),
            tl == t@.len(),
            off + n == tl,
            i <= n,
            forall|k: int| 0 <= k < i ==> t@[off + k] == w@[k],
        decreases n - i,
    {
        if t[off + i] != w.get_char(i) {
            assert(t@.skip(off as int)[i as int] != w@[i as int]);
            return false;
        }
        i = i + 1;
    }
    assert(t@.skip(off as int) =~= w@);
    true
}

/// The pieces joined with a newline between each two.
pub fn join_with_newlines(parts: &Vec<Vec<char>>) -> (r: Vec<char>)
    ensures
        r@ == join_lines(views(parts@)),
{
    let mut out: Vec<char> = Vec::new();
    let mut i: usize = 0;
    while i < parts.len()
        invariant
            i <= parts@.len(),
            out@ == join_lines(views(parts@).take(i as int)),
        decreases parts@.len() - i,
    {
        let ghost before = out@;
        assert(views(parts@).take(i + 1).drop_last() =~= views(parts@).take(i as int));
        if i > 0 {
            out.push('\n');
        }
        let part = &parts[i];
        let mut k: usize = 0;
        let ghost mid = out@;
        while k < part.len()
            invariant
                k <= part@.len(),
                out@ == mid + part@.take(k as int),
            decreases part@.len() - k,
        {
            out.push(part[k]);
            k = k + 1;
            assert(out@ =~= mid + part@.take(k as int));
        }
        assert(part@.take(k as int) =~= part@);
        i = i + 1;
        if i == 1 {
            assert(out@ =~= join_lines(views(parts@).take(i as int)));
        } else {
            assert(out@ =~= join_lines(views(parts@).take(i as int)));
        }
    }
    assert(views(parts@).take(i as int) =~= views(parts@));
    out
}

/// A code file's text with its labels put in the namespace `stem`.
pub fn namespace_text(text: &Vec<char>, stem: &Vec<char>) -> (r: Vec<char>)
    ensures
        r@ == namespaced(text@, stem@),
{
    let lines = split_chars(text, '\n');
    let dot = vec!['.'];
    let colons = vec![':', ':'];
    let mut rep = vec!['.'];
    let mut k: usize = 0;
    while k < stem.len()
        invariant
            k <= stem@.len(),
            rep@ == seq!['.'] + stem@.take(k as int),
        decreases stem@.len() - k,
    {
        rep.push(stem[k]);
        k = k + 1;
        assert(rep@ =~= seq!['.'] + stem@.take(k as int));
    }
    rep.push(':');
    rep.push(':');
    proof {
        reveal_strlit(".");
        reveal_strlit("::");
        assert(stem@.take(k as int) =~= stem@);
        assert(rep@ =~= "."@ + stem@ + "::"@);
        assert(dot@ =~= "."@);
        assert(colons@ =~= "::"@);
    }
    let ghost target = split_on(text@, '\n').map_values(|l: Seq<char>| namespace_line(l, stem@));
    let mut out: Vec<Vec<char>> = Vec::new();
    let mut i: usize = 0;
    while i < lines.len()
        invariant
            i <= lines@.len(),
            views(lines@) == split_on(text@, '\n'),
            target == split_on(text@, '\n').map_values(|l: Seq<char>| namespace_line(l, stem@)),
            rep@ == "."@ + stem@ + "::"@,
            dot@ == "."@,
            dot@.len() == 1,
            colons@ == "::"@,
            out@.len() == i,
            forall|j: int| 0 <= j < i ==> #[trigger] out@[j]@ == target[j],
        decreases lines@.len() - i,
    {
        let line = &lines[i];
        assert(views(lines@)[i as int] == line@);
        if contains_char(line, '.') && !contains_word(line, &colons) {
            out.push(replace_chars(line, &dot, &rep));
        } else {
            out.push(line.clone());
        }
        i = i + 1;
    }
    assert(views(out@) =~= target);
    join_with_newlines(&out)
}

/// The texts of an asset file: one per line, `\n` (backslash, n) in a line
/// standing for a newline.
pub fn asset_texts(text: &Vec<char>) -> (r: Vec<Vec<char>>)
    ensures
        views(r@) == asset_lines(text@),
{
    let lines = split_chars(text, '\n');
    let pat = vec!['\\', 'n'];
    let rep = vec!['\n'];
    proof {
        reveal_strlit("\\n");
        reveal_strlit("\n");
        assert(pat@ =~= "\\n"@);
        assert(rep@ =~= "\n"@);
    }
    let mut out: Vec<Vec<char>> = Vec::new();
    let mut i: usize = 0;
    while i < lines.len()
        invariant
            i <= lines@.len(),
            views(lines@) == split_on(text@, '\n'),
            pat@ == "\\n"@,
            pat@.len() == 2,
            rep@ == "\n"@,
            out@.len() == i,
            forall|j: int| 0 <= j < i ==> #[trigger] out@[j]@ == asset_lines(text@)[j],
        decreases lines@.len() - i,
    {
        assert(views(lines@)[i as int] == lines@[i as int]@);
        out.push(replace_chars(&lines[i], &pat, &rep));
        i = i + 1;
    }
    assert(views(out@) =~= asset_lines(text@));
    out
}


/// The byte that a token of a header file stands for.
fn header_byte(t: &Vec<char>) -> (r: Result<u8, LineFault>)
    ensures
        r == header_token(t@),
{
    match read_operand(t, 255) {
        Operand::Value(v) => Ok(v as u8),
        Operand::Invalid => Err(LineFault::Report(LineError::InvalidNumber)),
        Operand::Malformed => Err(LineFault::Abort(Abort::MalformedHex)),
    }
}

/// The bytes of a header file's text, or the fault of its first bad token.
pub fn header_bytes(text: &Vec<char>) -> (r: Result<Vec<u8>, LineFault>)
    ensures
        match header_values(header_tokens(text@)) {
            Ok(bs) => r matches Ok(v) && v@ == bs,
            Err(e) => r == Err::<Vec<u8>, LineFault>(e),
        },
{
    let nl = vec!['\n'];
    let sp = vec![' '];
    proof {
        reveal_strlit("\n");
        reveal_strlit(" ");
        assert(nl@ =~= "\n"@);
        assert(sp@ =~= " "@);
    }
    let spaced = replace_chars(text, &nl, &sp);
    let tokens = split_chars(&spaced, ' ');
    let ghost tv = header_tokens(text@);
    assert(views(tokens@) == tv);
    let mut out: Vec<u8> = Vec::new();
    let mut i: usize = 0;
    while i < tokens.len()
        invariant
            i <= tokens@.len(),
            views(tokens@) == tv,
            tv == header_tokens(text@),
            header_values(tv.take(i as int)) == Ok::<Seq<u8>, LineFault>(out@),
        decreases tokens@.len() - i,
    {
        assert(tv.take(i + 1).drop_last() =~= tv.take(i as int));
        assert(tv.take(i + 1).last() == tokens@[i as int]@);
        match header_byte(&tokens[i]) {
            Ok(b) => {
                out.push(b);
            },
            Err(e) => {
                assert(header_values(tv.take(i + 1)) == Err::<Seq<u8>, LineFault>(e));
                proof {
                    lemma_header_err_stays(tv, i + 1);
                }
                return Err(e);
            },
        }
        i = i + 1;
    }
    assert(tv.take(i as int) =~= tv);
    Ok(out)
}

/// Once a header token is bad, the tokens after it do not change the fault.
proof fn lemma_header_err_stays(tokens: Seq<Seq<char>>, j: int)
    requires
        0 <= j <= tokens.len(),
        header_values(tokens.take(j)) is Err,
    ensures
        header_values(tokens) == header_values(tokens.take(j)),
    decreases tokens.len(),
{
    if tokens.len() > j {
        assert(tokens.drop_last().take(j) =~= tokens.take(j));
        lemma_header_err_stays(tokens.drop_last(), j);
    } else {
        assert(tokens.take(j) =~= tokens);
    }
}

/// Once a header file is bad, the files after it do not change the failure.
proof fn lemma_project_err_stays(files: Seq<SourceFileView>, j: int)
    requires
        0 <= j <= files.len(),
        project_header(files.take(j)) is Err,
    ensures
        project_header(files) == project_header(files.take(j)),
    decreases files.len(),
{
    if files.len() > j {
        assert(files.drop_last().take(j) =~= files.take(j));
        lemma_project_err_stays(files.drop_last(), j);
    } else {
        assert(files.take(j) =~= files);
    }
}

/// Appends the characters of `s`.
fn push_all(out: &mut Vec<char>, s: &Vec<char>)
    ensures
        final(out)@ == old(out)@ + s@,
{
    let mut k: usize = 0;
    while k < s.len()
        invariant
            k <= s@.len(),
            out@ == old(out)@ + s@.take(k as int),
        decreases s@.len() - k,
    {
        out.push(s[k]);
        k = k + 1;
        assert(out@ =~= old(out)@ + s@.take(k as int));
    }
    assert(s@.take(k as int) =~= s@);
}

/// The source text, the header bytes and the asset texts of a project whose
/// files come in the order given, with an optional entry label to jump to
/// first; or the failure of the first bad header file.
pub fn project_parts(entry: &Option<Vec<char>>, files: &Vec<SourceFile>) -> (r: Result<
    (Vec<char>, Vec<u8>, Vec<Vec<char>>),
    AsmError,
>)
    ensures
        ({
            let ev = match entry {
                Some(e) => Some(e@),
                None => None,
            };
            let fv = file_views(files@);
            match project_header(fv) {
                Err(f) => r matches Err(e) && failure_view(e) == f,
                Ok(h) => r matches Ok((src, hd, assets)) && src@ == project_text(ev, fv) && hd@
                    == h && views(assets@) == project_assets(fv),
            }
        }),
{
    let ghost fv = file_views(files@);
    let mut body: Vec<char> = Vec::new();
    let mut header: Vec<u8> = Vec::new();
    let mut assets: Vec<Vec<char>> = Vec::new();
    let start = chars_of("\nFILE_START: ");
    let asm_ext = chars_of(".asm");
    let nothing: Vec<char> = Vec::new();
    proof {
        reveal_strlit(".asm");
    }
    let mut i: usize = 0;
    while i < files.len()
        invariant
            i <= files@.len(),
            fv == file_views(files@),
            start@ == "\nFILE_START: "@,
            asm_ext@ == ".asm"@,
            asm_ext@.len() == 4,
            nothing@ == Seq::<char>::empty(),
            project_header(fv.take(i as int)) == Ok::<Seq<u8>, Failure>(header@),
            body@ == pieces(fv.take(i as int)),
            views(assets@) == project_assets(fv.take(i as int)),
        decreases files@.len() - i,
    {
        let f = &files[i];
        assert(fv[i as int] == f@);
        assert(fv.take(i + 1).drop_last() =~= fv.take(i as int));
        assert(fv.take(i + 1).last() == f@);
        let text = strip_chars(&f.text, '\r');
        let header_file = ends_with_str(&f.name, ".h");
        let asset_file = !header_file && ends_with_str(&f.name, ".ast");
        if header_file {
            match header_bytes(&text) {
                Ok(bs) => {
                    let mut k: usize = 0;
                    let ghost h0 = header@;
                    while k < bs.len()
                        invariant
                            k <= bs@.len(),
                            header@ == h0 + bs@.take(k as int),
                        decreases bs@.len() - k,
                    {
                        header.push(bs[k]);
                        k = k + 1;
                        assert(header@ =~= h0 + bs@.take(k as int));
                    }
                    assert(bs@.take(k as int) =~= bs@);
                },
                Err(e) => {
                    let err = match e {
                        LineFault::Report(le) => AsmError::Report(
                            Report {
                                file: {
                                    let mut p: Vec<char> = Vec::new();
                                    push_all(&mut p, &f.path);
                                    assert(p@ =~= f.path@);
                                    p
                                },
                                line: 0,
                                words: vec![chars_of("header")],
                                error: le,
                            },
                        ),
                        LineFault::Abort(a) => AsmError::Abort(a),
                    };
                    proof {
                        lemma_project_err_stays(fv, i + 1);
                    }
                    assert(failure_view(err) == header_failure(f@.path, e)) by {
                        if let AsmError::Report(rep) = err {
                            assert(views(rep.words@) =~= seq!["header"@]);
                        }
                    }
                    return Err(err);
                },
            }
        }
        if asset_file {
            let more = asset_texts(&text);
            let mut k: usize = 0;
            let ghost a0 = views(assets@);
            while k < more.len()
                invariant
                    k <= more@.len(),
                    views(assets@) == a0 + views(more@).take(k as int),
                decreases more@.len() - k,
            {
                let mut one: Vec<char> = Vec::new();
                push_all(&mut one, &more[k]);
                assert(one@ =~= views(more@)[k as int]);
                let ghost va = views(assets@);
                assets.push(one);
                assert(views(assets@) =~= va.push(views(more@)[k as int]));
                assert(views(more@).take(k + 1) =~= views(more@).take(k as int).push(views(more@)[k as int]));
                k = k + 1;
                assert(views(assets@) =~= a0 + views(more@).take(k as int));
            }
            assert(views(more@).take(k as int) =~= views(more@));
        } else {
            assert(views(assets@) =~= views(assets@) + Seq::<Seq<char>>::empty());
        }
        let ghost b0 = body@;
        push_all(&mut body, &start);
        push_all(&mut body, &f.path);
        body.push('\n');
        proof {
            reveal_strlit("\n");
            assert(body@ =~= b0 + ("\nFILE_START: "@ + f@.path + "\n"@));
        }
        if !header_file && !asset_file {
            let stem = replace_chars(&f.name, &asm_ext, &nothing);
            let ns = namespace_text(&text, &stem);
            push_all(&mut body, &ns);
            assert(body@ =~= b0 + file_piece(f@));
        } else {
            assert(body@ =~= b0 + file_piece(f@));
        }
        assert(body@ =~= pieces(fv.take(i + 1)));
        i = i + 1;
    }
    assert(fv.take(i as int) =~= fv);
    let src = match entry {
        Some(e) => {
            let mut s = chars_of("jmp ");
            push_all(&mut s, e);
            s.push('\n');
            push_all(&mut s, &body);
            proof {
                reveal_strlit("\n");
                assert(s@ =~= "jmp "@ + e@ + "\n"@ + pieces(fv));
            }
            s
        },
        None => body,
    };
    Ok((src, header, assets))
}

} // verus!
