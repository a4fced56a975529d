//! Character-sequence utilities shared by the assembler: splitting on a
//! separator, replacing every occurrence of a pattern, prefix tests, trimming
//! Unicode whitespace, and lowercasing (taken from std's `to_lowercase`).
use vstd::prelude::*;

verus! {

/// The pieces of `s` between occurrences of `sep`, as `str::split` yields them:
/// empty pieces are kept, and the empty text gives one empty piece.
pub open spec fn split_on(s: Seq<char>, sep: char) -> Seq<Seq<char>>
    decreases s.len(),
{
    if s.len() == 0 {
        seq![Seq::<char>::empty()]
    } else {
        let rest = split_on(s.drop_last(), sep);
        if s.last() == sep {
            rest.push(Seq::<char>::empty())
        } else {
            rest.update(rest.len() - 1, rest.last().push(s.last()))
        }
    }
}

/// `s` with every occurrence of `pat` replaced by `rep`, scanning left to right
/// and never letting two replaced occurrences overlap (what `str::replace` does).
pub open spec fn replace_all(s: Seq<char>, pat: Seq<char>, rep: Seq<char>) -> Seq<char>
    decreases s.len(),
{
    if pat.len() == 0 || s.len() < pat.len() {
        s
    } else if s.take(pat.len() as int) == pat {
        rep + replace_all(s.skip(pat.len() as int), pat, rep)
    } else {
        seq![s[0]] + replace_all(s.skip(1), pat, rep)
    }
}

/// Whether `s` begins with `p`.
pub open spec fn starts_with(s: Seq<char>, p: Seq<char>) -> bool {
    p.len() <= s.len() && s.take(p.len() as int) == p
}

/// Whether `c` occurs in `s`.
pub open spec fn has_char(s: Seq<char>, c: char) -> bool {
    exists|i: int| 0 <= i < s.len() && s[i] == c
}

/// Whether `p` occurs somewhere in `s`.
pub open spec fn contains_seq(s: Seq<char>, p: Seq<char>) -> bool {
    exists|i: int| 0 <= i && i + p.len() <= s.len() && #[trigger] s.subrange(i, i + p.len()) == p
}

/// The texts held by a sequence of character vectors.
pub open spec fn views(v: Seq<Vec<char>>) -> Seq<Seq<char>> {
    Seq::new(v.len(), |i: int| v[i]@)
}

/// Number of bytes in the UTF-8 encoding of `c`.
pub open spec fn char_width(c: char) -> nat {
    if (c as u32) < 0x80 {
        1
    } else if (c as u32) < 0x800 {
        2
    } else if (c as u32) < 0x10000 {
        3
    } else {
        4
    }
}

/// Number of bytes in the UTF-8 encoding of `s` (what `str::len` returns).
pub open spec fn byte_len(s: Seq<char>) -> nat
    decreases s.len(),
{
    if s.len() == 0 {
        0
    } else {
        byte_len(s.drop_last()) + char_width(s.last())
    }
}

/// Whether `c` is whitespace: Unicode's `White_Space` property, the 25
/// characters that `char::is_whitespace` and `str::trim` go by.
pub open spec fn is_white_space(c: char) -> bool {
    ||| ('\u{9}' <= c && c <= '\u{d}')
    ||| c == ' '
    ||| c == '\u{85}'
    ||| c == '\u{a0}'
    ||| c == '\u{1680}'
    ||| ('\u{2000}' <= c && c <= '\u{200a}')
    ||| c == '\u{2028}'
    ||| c == '\u{2029}'
    ||| c == '\u{202f}'
    ||| c == '\u{205f}'
    ||| c == '\u{3000}'
}

/// `s` without its leading whitespace.
pub open spec fn trim_start(s: Seq<char>) -> Seq<char>
    decreases s.len(),
{
    if s.len() > 0 && is_white_space(s[0]) {
        trim_start(s.skip(1))
    } else {
        s
    }
}

/// `s` without its trailing whitespace.
pub open spec fn trim_end(s: Seq<char>) -> Seq<char>
    decreases s.len(),
{
    if s.len() > 0 && is_white_space(s.last()) {
        trim_end(s.drop_last())
    } else {
        s
    }
}

/// `s` without its leading and trailing whitespace (what `str::trim` gives).
pub open spec fn trimmed(s: Seq<char>) -> Seq<char> {
    trim_end(trim_start(s))
}

/// The text that `str::to_lowercase` gives back for `s`.
pub uninterp spec fn lowercased(s: Seq<char>) -> Seq<char>;

/// Whether `c` is whitespace (see `is_white_space`).
pub fn white_space(c: char) -> (b: bool)
    ensures
        b == is_white_space(c),
{
    ('\u{9}' <= c && c <= '\u{d}') || c == ' ' || c == '\u{85}' || c == '\u{a0}' || c == '\u{1680}'
        || ('\u{2000}' <= c && c <= '\u{200a}') || c == '\u{2028}' || c == '\u{2029}' || c
        == '\u{202f}' || c == '\u{205f}' || c == '\u{3000}'
}

proof fn lemma_trim_start(s: Seq<char>, i: int)
    requires
        0 <= i <= s.len(),
        forall|k: int| 0 <= k < i ==> is_white_space(#[trigger] s[k]),
    ensures
        trim_start(s) == trim_start(s.skip(i)),
    decreases i,
{
    if i > 0 {
        assert(is_white_space(s[0]));
        let t = s.skip(1);
        assert forall|k: int| 0 <= k < i - 1 implies is_white_space(#[trigger] t[k]) by {
            assert(t[k] == s[k + 1]);
        }
        lemma_trim_start(t, i - 1);
        assert(t.skip(i - 1) =~= s.skip(i));
    } else {
        assert(s.skip(0) =~= s);
    }
}

proof fn lemma_trim_end(t: Seq<char>, j: int)
    requires
        0 <= j <= t.len(),
        forall|k: int| j <= k < t.len() ==> is_white_space(#[trigger] t[k]),
    ensures
        trim_end(t) == trim_end(t.take(j)),
    decreases t.len() - j,
{
    if j < t.len() {
        assert(is_white_space(t[t.len() - 1]));
        let u = t.drop_last();
        assert forall|k: int| j <= k < u.len() implies is_white_space(#[trigger] u[k]) by {
            assert(u[k] == t[k]);
        }
        lemma_trim_end(u, j);
        assert(u.take(j) =~= t.take(j));
    } else {
        assert(t.take(j) =~= t);
    }
}

/// `s` without its leading and trailing whitespace.
pub fn trim_chars(s: &Vec<char>) -> (r: Vec<char>)
    ensures
        r@ == trimmed(s@),
{
    let n = s.len();
    let mut i: usize = 0;
    while i < n && white_space(s[i])
        invariant
            n == s@.len(),
            i <= n,
            forall|k: int| 0 <= k < i ==> is_white_space(#[trigger] s@[k]),
        decreases n - i,
    {
        i = i + 1;
    }
    proof {
        lemma_trim_start(s@, i as int);
    }
    let ghost t = s@.skip(i as int);
    assert(trim_start(s@) == t) by {
        if t.len() > 0 {
            assert(t[0] == s@[i as int]);
        }
    }
    let mut j: usize = n;
    while j > i && white_space(s[j - 1])
        invariant
            n == s@.len(),
            i <= j <= n,
            t == s@.skip(i as int),
            forall|k: int| j - i <= k < t.len() ==> is_white_space(#[trigger] t[k]),
        decreases j,
    {
        assert(t[j - 1 - i] == s@[j - 1]);
        j = j - 1;
    }
    proof {
        lemma_trim_end(t, j - i);
    }
    let ghost u = t.take(j - i);
    assert(trim_end(u) == u) by {
        if u.len() > 0 {
            assert(u.last() == s@[j - 1]);
        }
    }
    let mut out: Vec<char> = Vec::new();
    let mut k = i;
    while k < j
        invariant
            n == s@.len(),
            i <= k <= j <= n,
            out@ == s@.subrange(i as int, k as int),
        decreases j - k,
    {
        out.push(s[k]);
        k = k + 1;
        assert(out@ =~= s@.subrange(i as int, k as int));
    }
    assert(out@ =~= u);
    out
}

/// Calls `str::to_lowercase`, whose result follows the Unicode lowercase
/// mapping (with the final-sigma rule); this is left to the name `lowercased`.
#[verifier::external_body]
fn lowercase_str(s: &str) -> (r: String)
    ensures
        r@ == lowercased(s@),
{
    s.to_lowercase()
}

/// Calls `String::from_iter` on the characters of `v`: the text made of exactly
/// those characters.
#[verifier::external_body]
pub(crate) fn string_from_chars(v: &Vec<char>) -> (r: String)
    ensures
        r@ == v@,
{
    String::from_iter(v.iter())
}

/// The characters of `s`, in order.
pub fn chars_of(s: &str) -> (r: Vec<char>)
    ensures
        r@ == s@,
{
    let mut r: Vec<char> = Vec::new();
    for c in it: s.chars()
        invariant
            it.seq() == s@,
            r@ == it.seq().take(it.index() as int),
    {
        r.push(c);
    }
    r
}

/// Whether the characters of `t` are exactly those of `w`.
pub fn is_word(t: &Vec<char>, w: &str) -> (b: bool)
    ensures
        b == (t@ == w@),
{
    let n = w.unicode_len();
    if t.len() != n {
        return false;
    }
    let mut i: usize = 0;
    while i < n
        invariant
            n == w@.len(),
            t@.len() == n,
            i <= n,
            forall|k: int| 0 <= k < i ==> t@[k] == w@[k],
        decreases n - i,
    {
        if t[i] != w.get_char(i) {
            return false;
        }
        i = i + 1;
    }
    assert(t@ =~= w@);
    true
}

/// Whether `t` begins with the characters of `w`.
pub fn begins_with(t: &Vec<char>, w: &str) -> (b: bool)
    ensures
        b == starts_with(t@, w@),
{
    let n = w.unicode_len();
    if t.len() < n {
        return false;
    }
    let mut i: usize = 0;
    while i < n
        invariant
            n == w@.len(),
            n <= t@.len(),
            i <= n,
            forall|k: int| 0 <= k < i ==> t@[k] == w@[k],
        decreases n - i,
    {
        if t[i] != w.get_char(i) {
            assert(t@.take(n as int)[i as int] != w@[i as int]);
            return false;
        }
        i = i + 1;
    }
    assert(t@.take(n as int) =~= w@);
    true
}

/// Whether `c` occurs in `t`.
pub fn contains_char(t: &Vec<char>, c: char) -> (b: bool)
    ensures
        b == has_char(t@, c),
{
    let mut i: usize = 0;
    while i < t.len()
        invariant
            i <= t@.len(),
            forall|k: int| 0 <= k < i ==> t@[k] != c,
        decreases t@.len() - i,
    {
        if t[i] == c {
            return true;
        }
        i = i + 1;
    }
    false
}

/// Whether the characters of `w` occur somewhere in `t`.
pub fn contains_word(t: &Vec<char>, w: &Vec<char>) -> (b: bool)
    ensures
        b == contains_seq(t@, w@),
{
    let n = w.len();
    if n > t.len() {
        return false;
    }
    if n == 0 {
        assert(t@.subrange(0int, 0int + w@.len()) =~= w@);
        return true;
    }
    let mut i: usize = 0;
    let tl = t.len();
    while i <= tl - n
        invariant
            tl == t@.len(),
            n == w@.len(),
            n > 0,
            n <= t@.len(),
            i <= t@.len() - n + 1,
            forall|k: int| 0 <= k < i ==> #[trigger] t@.subrange(k, k + n) != w@,
        decreases t@.len() - n + 1 - i,
    {
        if matches_at(t, i, w) {
            return true;
        }
        i = i + 1;
    }
    assert forall|k: int| 0 <= k && k + w@.len() <= t@.len() implies #[trigger] t@.subrange(
        k,
        k + w@.len(),
    ) != w@ by {}
    false
}

/// Whether `w` occurs in `t` starting at position `i`.
fn matches_at(t: &Vec<char>, i: usize, w: &Vec<char>) -> (b: bool)
    requires
        i + w@.len() <= t@.len(),
    ensures
        b == (t@.subrange(i as int, i + w@.len()) == w@),
{
    let mut k: usize = 0;
    let tl = t.len();
    while k < w.len()
        invariant
            tl == t@.len(),
            i + w@.len() <= t@.len(),
            k <= w@.len(),
            forall|j: int| 0 <= j < k ==> t@[i + j] == w@[j],
        decreases w@.len() - k,
    {
        if t[i + k] != w[k] {
            assert(t@.subrange(i as int, i + w@.len())[k as int] != w@[k as int]);
            return false;
        }
        k = k + 1;
    }
    assert(t@.subrange(i as int, i + w@.len()) =~= w@);
    true
}

pub proof fn lemma_split_step(s: Seq<char>, i: int, sep: char)
    requires
        0 <= i < s.len(),
    ensures
        s.take(i + 1).drop_last() == s.take(i),
        s.take(i + 1).last() == s[i],
        s.take(i + 1).len() == i + 1,
{
    assert(s.take(i + 1).drop_last() =~= s.take(i));
}

pub proof fn lemma_split_nonempty(s: Seq<char>, sep: char)
    ensures
        split_on(s, sep).len() >= 1,
    decreases s.len(),
{
    if s.len() > 0 {
        lemma_split_nonempty(s.drop_last(), sep);
    }
}

/// The pieces of `s` between the occurrences of `sep` (`str::split` on a char).
pub fn split_chars(s: &Vec<char>, sep: char) -> (r: Vec<Vec<char>>)
    ensures
        views(r@) == split_on(s@, sep),
{
    let mut done: Vec<Vec<char>> = Vec::new();
    let mut cur: Vec<char> = Vec::new();
    let mut i: usize = 0;
    proof {
        assert(s@.take(0) =~= Seq::<char>::empty());
    }
    while i < s.len()
        invariant
            i <= s@.len(),
            views(done@).push(cur@) == split_on(s@.take(i as int), sep),
        decreases s@.len() - i,
    {
        proof {
            lemma_split_step(s@, i as int, sep);
            lemma_split_nonempty(s@.take(i as int), sep);
        }
        let ghost before = views(done@);
        if s[i] == sep {
            done.push(cur);
            cur = Vec::new();
            assert(views(done@) =~= before.push(split_on(s@.take(i as int), sep).last()));
        } else {
            cur.push(s[i]);
        }
        i = i + 1;
        assert(views(done@).push(cur@) =~= split_on(s@.take(i as int), sep));
    }
    assert(s@.take(s@.len() as int) =~= s@);
    done.push(cur);
    assert(views(done@) =~= split_on(s@, sep));
    done
}

/// `s` with every occurrence of `pat` replaced by `rep` (`str::replace`).
pub fn replace_chars(s: &Vec<char>, pat: &Vec<char>, rep: &Vec<char>) -> (r: Vec<char>)
    requires
        pat@.len() > 0,
    ensures
        r@ == replace_all(s@, pat@, rep@),
{
    let mut out: Vec<char> = Vec::new();
    let mut i: usize = 0;
    let n = pat.len();
    assert(s@.skip(0) =~= s@);
    assert(out@ + replace_all(s@, pat@, rep@) =~= replace_all(s@, pat@, rep@));
    while i < s.len()
        invariant
            n == pat@.len(),
            n > 0,
            i <= s@.len(),
            out@ + replace_all(s@.skip(i as int), pat@, rep@) == replace_all(s@, pat@, rep@),
        decreases s@.len() - i,
    {
        let ghost rest = s@.skip(i as int);
        if n <= s.len() - i && matches_at(s, i, pat) {
            assert(rest.take(n as int) =~= s@.subrange(i as int, i + n));
            assert(rest.skip(n as int) =~= s@.skip(i + n));
            let mut k: usize = 0;
            let ghost out0 = out@;
            while k < rep.len()
                invariant
                    k <= rep@.len(),
                    out@ == out0 + rep@.take(k as int),
                decreases rep@.len() - k,
            {
                out.push(rep[k]);
                k = k + 1;
                assert(out@ =~= out0 + rep@.take(k as int));
            }
            assert(rep@.take(rep@.len() as int) =~= rep@);
            assert(out@ =~= out0 + rep@);
            assert(out0 + replace_all(rest, pat@, rep@) =~= out@ + replace_all(
                s@.skip(i + n),
                pat@,
                rep@,
            ));
            i = i + n;
        } else {
            proof {
                if n <= rest.len() {
                    assert(rest.take(n as int) =~= s@.subrange(i as int, i + n));
                }
                assert(rest.skip(1) =~= s@.skip(i + 1));
                assert(rest[0] == s@[i as int]);
            }
            let ghost out0 = out@;
            out.push(s[i]);
            assert(out0 + replace_all(rest, pat@, rep@) =~= out@ + replace_all(
                s@.skip(i + 1),
                pat@,
                rep@,
            ));
            i = i + 1;
        }
    }
    assert(s@.skip(s@.len() as int) =~= Seq::<char>::empty());
    assert(out@ + replace_all(s@.skip(i as int), pat@, rep@) =~= out@);
    out
}

/// The tokens of one source line: the line is trimmed, lowercased, then split
/// on single spaces (so consecutive spaces give empty tokens).
pub fn tokenize_line(line: &Vec<char>) -> (r: Vec<Vec<char>>)
    ensures
        views(r@) == split_on(lowercased(trimmed(line@)), ' '),
{
    let t = trim_chars(line);
    let text = string_from_chars(&t);
    let lower = lowercase_str(text.as_str());
    let cs = chars_of(lower.as_str());
    split_chars(&cs, ' ')
}

/// Number of UTF-8 bytes of the first `min(3, len)` characters of `t`, which
/// decides whether `t` is at least three bytes long.
pub fn byte_len_is_below_three(t: &Vec<char>) -> (b: bool)
    ensures
        b == (byte_len(t@) < 3),
{
    let mut i: usize = 0;
    let mut total: u64 = 0;
    while i < t.len() && i < 3
        invariant
            i <= t@.len(),
            i <= 3,
            total == byte_len(t@.take(i as int)),
            total <= 4 * i,
        decreases t@.len() - i,
    {
        let c = t[i];
        let w: u64 = if (c as u32) < 0x80 {
            1
        } else if (c as u32) < 0x800 {
            2
        } else if (c as u32) < 0x10000 {
            3
        } else {
            4
        };
        assert(t@.take(i + 1).drop_last() =~= t@.take(i as int));
        total = total + w;
        i = i + 1;
    }
    proof {
        lemma_byte_len_prefix(t@, i as int);
        if i == 3 {
            lemma_byte_len_prefix(t@.take(3), 0);
            assert(t@.take(3).take(0) =~= Seq::<char>::empty());
        } else {
            assert(t@.take(i as int) =~= t@);
        }
    }
    total < 3
}

/// The byte length of a text is at least the byte length of any prefix, and
/// every character adds at least one byte.
proof fn lemma_byte_len_prefix(s: Seq<char>, i: int)
    requires
        0 <= i <= s.len(),
    ensures
        byte_len(s.take(i)) <= byte_len(s),
        byte_len(s) >= byte_len(s.take(i)) + (s.len() - i),
    decreases s.len(),
{
    if i < s.len() {
        lemma_byte_len_prefix(s.drop_last(), i);
        assert(s.drop_last().take(i) =~= s.take(i));
    } else {
        assert(s.take(i) =~= s);
    }
}

} // verus!
