//! What the screen shows, read from RAM each frame.
//!
//! RAM byte 1 picks the mode: 0 is a text terminal of 22 rows of 70
//! characters read from `0x7F_FA00` on; 1 is graphics, drawn from three
//! tables of records: rectangles (12 bytes each, from `0x7F_A000`), texts (14
//! bytes each, from `0x7F_9000`) and lines (13 bytes each, from `0x7F_0000`).
//! A record whose alpha byte is 0 is not drawn. Any other mode draws nothing.
use vstd::prelude::*;
use crate::machine::{Memory, RAM_SIZE};

verus! {

/// Where the terminal's characters start.
pub const TERMINAL_BASE: usize = 0x7F_FA00;
/// Rows of the terminal.
pub const TERMINAL_ROWS: usize = 0x16;
/// Characters per terminal row.
pub const TERMINAL_COLS: usize = 70;
/// Characters read from RAM into the terminal; the cells after them stay 0.
pub const TERMINAL_CELLS: usize = 0x5FF;
/// Where the rectangle table starts, and how many records it holds.
pub const RECT_BASE: usize = 0x7F_A000;
pub const RECT_SLOTS: usize = 2048;
/// Where the text table starts, and how many records it holds.
pub const TEXT_BASE: usize = 0x7F_9000;
pub const TEXT_SLOTS: usize = 293;
/// Where the line table starts, and how many records it holds.
pub const LINE_BASE: usize = 0x7F_0000;
pub const LINE_SLOTS: usize = 2836;

/// The character in row `row`, column `col` of the terminal: the RAM byte
/// of that cell, `?` for a byte above `0x7F`, 0 past the cells read.
pub open spec fn terminal_cell(ram: Seq<u8>, row: int, col: int) -> u8 {
    let k = row * TERMINAL_COLS + col;
    if k < TERMINAL_CELLS {
        let b = ram[TERMINAL_BASE + k];
        if b > 0x7F {
            0x3Fu8
        } else {
            b
        }
    } else {
        0u8
    }
}

/// The terminal's rows, each of 70 ASCII bytes.
pub fn terminal_rows(ram: &Vec<u8>) -> (rows: Vec<Vec<u8>>)
    requires
        ram@.len() == RAM_SIZE,
    ensures
        rows@.len() == TERMINAL_ROWS,
        forall|r: int|
            0 <= r < TERMINAL_ROWS ==> (#[trigger] rows@[r])@.len() == TERMINAL_COLS && forall|
                c: int,
            |
                0 <= c < TERMINAL_COLS ==> #[trigger] rows@[r]@[c] == terminal_cell(ram@, r, c),
{
    let mut rows: Vec<Vec<u8>> = Vec::new();
    let mut r: usize = 0;
    while r < TERMINAL_ROWS
        invariant
            r <= TERMINAL_ROWS,
            ram@.len() == RAM_SIZE,
            rows@.len() == r,
            forall|q: int|
                0 <= q < r ==> (#[trigger] rows@[q])@.len() == TERMINAL_COLS && forall|c: int|
                    0 <= c < TERMINAL_COLS ==> #[trigger] rows@[q]@[c] == terminal_cell(
                        ram@,
                        q,
                        c,
                    ),
        decreases TERMINAL_ROWS - r,
    {
        let mut row: Vec<u8> = Vec::new();
        let mut c: usize = 0;
        while c < TERMINAL_COLS
            invariant
                r < TERMINAL_ROWS,
                c <= TERMINAL_COLS,
                ram@.len() == RAM_SIZE,
                row@.len() == c,
                forall|j: int| 0 <= j < c ==> #[trigger] row@[j] == terminal_cell(ram@, r as int, j),
            decreases TERMINAL_COLS - c,
        {
            let k = r * TERMINAL_COLS + c;
            let b = if k < TERMINAL_CELLS {
                let x = ram[TERMINAL_BASE + k];
                if x > 0x7F {
                    0x3F
                } else {
                    x
                }
            } else {
                0
            };
            row.push(b);
            c = c + 1;
        }
        rows.push(row);
        r = r + 1;
    }
    rows
}

/// A filled rectangle: position, size (16-bit, big-endian in RAM) and
/// colour `r g b a`.
#[derive(PartialEq, Eq, Debug, Clone, Copy, Structural)]
pub struct RectRecord {
    pub x: u16,
    pub y: u16,
    pub w: u16,
    pub h: u16,
    pub r: u8,
    pub g: u8,
    pub b: u8,
    pub a: u8,
}

/// A line from `(x1, y1)` to `(x2, y2)`, its thickness and colour.
#[derive(PartialEq, Eq, Debug, Clone, Copy, Structural)]
pub struct LineRecord {
    pub x1: u16,
    pub y1: u16,
    pub x2: u16,
    pub y2: u16,
    pub thickness: u8,
    pub r: u8,
    pub g: u8,
    pub b: u8,
    pub a: u8,
}

/// A text drawn at `(x, y)` with font number `font`, size `size` and colour
/// `r g b a`; `text` holds the bytes of the zero-terminated string at the
/// record's address, or `None` when no zero byte follows it in RAM.
#[derive(Debug, Clone)]
pub struct TextRecord {
    pub x: u16,
    pub y: u16,
    pub font: u8,
    pub size: u8,
    pub r: u8,
    pub g: u8,
    pub b: u8,
    pub a: u8,
    pub text: Option<Vec<u8>>,
}

/// The contents of a text record.
pub struct TextView {
    pub x: u16,
    pub y: u16,
    pub font: u8,
    pub size: u8,
    pub r: u8,
    pub g: u8,
    pub b: u8,
    pub a: u8,
    pub text: Option<Seq<u8>>,
}

impl View for TextRecord {
    type V = TextView;

    open spec fn view(&self) -> TextView {
        TextView {
            x: self.x,
            y: self.y,
            font: self.font,
            size: self.size,
            r: self.r,
            g: self.g,
            b: self.b,
            a: self.a,
            text: match self.text {
                Some(t) => Some(t@),
                None => None,
            },
        }
    }
}

/// The 16-bit big-endian number at `ram[i..i + 2]`.
pub open spec fn be16_at(ram: Seq<u8>, i: int) -> u16 {
    ((ram[i] as u16) << 8u16) | (ram[i + 1] as u16)
}

/// The 32-bit big-endian number at `ram[i..i + 4]`.
pub open spec fn be32_at(ram: Seq<u8>, i: int) -> u32 {
    ((ram[i] as u32) << 24u32) | ((ram[i + 1] as u32) << 16u32) | ((ram[i + 2] as u32) << 8u32) | (
    ram[i + 3] as u32)
}

/// The rectangle record in slot `k`.
pub open spec fn rect_at(ram: Seq<u8>, k: int) -> RectRecord {
    let i = RECT_BASE + 12 * k;
    RectRecord {
        x: be16_at(ram, i),
        y: be16_at(ram, i + 2),
        w: be16_at(ram, i + 4),
        h: be16_at(ram, i + 6),
        r: ram[i + 8],
        g: ram[i + 9],
        b: ram[i + 10],
        a: ram[i + 11],
    }
}

/// The line record in slot `k`.
pub open spec fn line_at(ram: Seq<u8>, k: int) -> LineRecord {
    let i = LINE_BASE + 13 * k;
    LineRecord {
        x1: be16_at(ram, i),
        y1: be16_at(ram, i + 2),
        x2: be16_at(ram, i + 4),
        y2: be16_at(ram, i + 6),
        thickness: ram[i + 8],
        r: ram[i + 9],
        g: ram[i + 10],
        b: ram[i + 11],
        a: ram[i + 12],
    }
}

/// The bytes of the zero-terminated string at `addr`, or `None` when no zero
/// byte follows in `ram`.
pub open spec fn string_at(ram: Seq<u8>, addr: int) -> Option<Seq<u8>>
    decreases ram.len() - addr,
{
    if addr < 0 || addr >= ram.len() {
        None
    } else if ram[addr] == 0 {
        Some(Seq::empty())
    } else {
        match string_at(ram, addr + 1) {
            Some(t) => Some(seq![ram[addr]] + t),
            None => None,
        }
    }
}

/// The text record in slot `k`.
pub open spec fn text_at(ram: Seq<u8>, k: int) -> TextView {
    let i = TEXT_BASE + 14 * k;
    TextView {
        x: be16_at(ram, i),
        y: be16_at(ram, i + 2),
        font: ram[i + 4],
        size: ram[i + 5],
        r: ram[i + 6],
        g: ram[i + 7],
        b: ram[i + 8],
        a: ram[i + 9],
        text: string_at(ram, be32_at(ram, i + 10) as int),
    }
}

/// The rectangles of the first `n` slots whose alpha byte is not 0, in slot
/// order.
pub open spec fn rects(ram: Seq<u8>, n: int) -> Seq<RectRecord>
    decreases n,
{
    if n <= 0 {
        Seq::empty()
    } else if rect_at(ram, n - 1).a != 0 {
        rects(ram, n - 1).push(rect_at(ram, n - 1))
    } else {
        rects(ram, n - 1)
    }
}

/// The lines of the first `n` slots whose alpha byte is not 0, in slot order.
pub open spec fn lines(ram: Seq<u8>, n: int) -> Seq<LineRecord>
    decreases n,
{
    if n <= 0 {
        Seq::empty()
    } else if line_at(ram, n - 1).a != 0 {
        lines(ram, n - 1).push(line_at(ram, n - 1))
    } else {
        lines(ram, n - 1)
    }
}

/// The texts of the first `n` slots whose alpha byte is not 0, in slot order.
pub open spec fn texts(ram: Seq<u8>, n: int) -> Seq<TextView>
    decreases n,
{
    if n <= 0 {
        Seq::empty()
    } else if text_at(ram, n - 1).a != 0 {
        texts(ram, n - 1).push(text_at(ram, n - 1))
    } else {
        texts(ram, n - 1)
    }
}

fn read_be16(ram: &Vec<u8>, i: usize) -> (v: u16)
    requires
        i + 2 <= ram@.len(),
    ensures
        v == be16_at(ram@, i as int),
{
    let n = ram.len();
    ((ram[i] as u16) << 8) | (ram[i + 1] as u16)
}

fn read_be32(ram: &Vec<u8>, i: usize) -> (v: u32)
    requires
        i + 4 <= ram@.len(),
    ensures
        v == be32_at(ram@, i as int),
{
    let n = ram.len();
    ((ram[i] as u32) << 24) | ((ram[i + 1] as u32) << 16) | ((ram[i + 2] as u32) << 8) | (ram[i
        + 3] as u32)
}

/// The visible rectangles, in slot order.
pub fn rect_records(ram: &Vec<u8>) -> (out: Vec<RectRecord>)
    requires
        ram@.len() == RAM_SIZE,
    ensures
        out@ == rects(ram@, RECT_SLOTS as int),
{
    let mut out: Vec<RectRecord> = Vec::new();
    let mut k: usize = 0;
    while k < RECT_SLOTS
        invariant
            k <= RECT_SLOTS,
            ram@.len() == RAM_SIZE,
            out@ == rects(ram@, k as int),
        decreases RECT_SLOTS - k,
    {
        let i = RECT_BASE + 12 * k;
        let rec = RectRecord {
            x: read_be16(ram, i),
            y: read_be16(ram, i + 2),
            w: read_be16(ram, i + 4),
            h: read_be16(ram, i + 6),
            r: ram[i + 8],
            g: ram[i + 9],
            b: ram[i + 10],
            a: ram[i + 11],
        };
        assert(rec == rect_at(ram@, k as int));
        if rec.a != 0 {
            out.push(rec);
        }
        k = k + 1;
    }
    out
}

/// The visible lines, in slot order.
pub fn line_records(ram: &Vec<u8>) -> (out: Vec<LineRecord>)
    requires
        ram@.len() == RAM_SIZE,
    ensures
        out@ == lines(ram@, LINE_SLOTS as int),
{
    let mut out: Vec<LineRecord> = Vec::new();
    let mut k: usize = 0;
    while k < LINE_SLOTS
        invariant
            k <= LINE_SLOTS,
            ram@.len() == RAM_SIZE,
            out@ == lines(ram@, k as int),
        decreases LINE_SLOTS - k,
    {
        let i = LINE_BASE + 13 * k;
        let rec = LineRecord {
            x1: read_be16(ram, i),
            y1: read_be16(ram, i + 2),
            x2: read_be16(ram, i + 4),
            y2: read_be16(ram, i + 6),
            thickness: ram[i + 8],
            r: ram[i + 9],
            g: ram[i + 10],
            b: ram[i + 11],
            a: ram[i + 12],
        };
        assert(rec == line_at(ram@, k as int));
        if rec.a != 0 {
            out.push(rec);
        }
        k = k + 1;
    }
    out
}


/// The string at `a` is the non-zero bytes up to `j` followed by the string
/// at `j`.
proof fn lemma_string_prefix(ram: Seq<u8>, a: int, j: int)
    requires
        0 <= a <= j <= ram.len(),
        forall|k: int| a <= k < j ==> ram[k] != 0,
    ensures
        string_at(ram, a) == match string_at(ram, j) {
            Some(t) => Some(ram.subrange(a, j) + t),
            None => None::<Seq<u8>>,
        },
    decreases j - a,
{
    if a < j {
        lemma_string_prefix(ram, a + 1, j);
        match string_at(ram, j) {
            Some(t) => {
                assert(seq![ram[a]] + (ram.subrange(a + 1, j) + t) =~= ram.subrange(a, j) + t);
            },
            None => {},
        }
    } else {
        match string_at(ram, j) {
            Some(t) => {
                assert(ram.subrange(a, j) + t =~= t);
            },
            None => {},
        }
    }
}

/// The zero-terminated string at `addr`, or `None` when no zero byte follows.
pub fn read_string(ram: &Vec<u8>, addr: u32) -> (s: Option<Vec<u8>>)
    ensures
        match s {
            Some(t) => string_at(ram@, addr as int) == Some(t@),
            None => string_at(ram@, addr as int) is None,
        },
{
    let n = ram.len();
    let a = addr as usize;
    if a >= n {
        return None;
    }
    let mut j = a;
    while j < n && ram[j] != 0
        invariant
            n == ram@.len(),
            a <= j <= n,
            a == addr,
            forall|k: int| a <= k < j ==> ram@[k] != 0,
        decreases n - j,
    {
        j = j + 1;
    }
    proof {
        lemma_string_prefix(ram@, a as int, j as int);
    }
    if j == n {
        return None;
    }
    let mut out: Vec<u8> = Vec::new();
    let mut k = a;
    while k < j
        invariant
            a <= k <= j,
            j < n,
            n == ram@.len(),
            out@ == ram@.subrange(a as int, k as int),
        decreases j - k,
    {
        out.push(ram[k]);
        k = k + 1;
        assert(out@ =~= ram@.subrange(a as int, k as int));
    }
    assert(ram@.subrange(a as int, j as int) + Seq::<u8>::empty() =~= out@);
    Some(out)
}

/// The views of a sequence of text records.
pub open spec fn text_views(v: Seq<TextRecord>) -> Seq<TextView> {
    Seq::new(v.len(), |i: int| v[i]@)
}

/// The visible texts, in slot order.
pub fn text_records(ram: &Vec<u8>) -> (out: Vec<TextRecord>)
    requires
        ram@.len() == RAM_SIZE,
    ensures
        text_views(out@) == texts(ram@, TEXT_SLOTS as int),
{
    let mut out: Vec<TextRecord> = Vec::new();
    let mut k: usize = 0;
    while k < TEXT_SLOTS
        invariant
            k <= TEXT_SLOTS,
            ram@.len() == RAM_SIZE,
            text_views(out@) == texts(ram@, k as int),
        decreases TEXT_SLOTS - k,
    {
        let i = TEXT_BASE + 14 * k;
        if ram[i + 9] != 0 {
            let addr = read_be32(ram, i + 10);
            let rec = TextRecord {
                x: read_be16(ram, i),
                y: read_be16(ram, i + 2),
                font: ram[i + 4],
                size: ram[i + 5],
                r: ram[i + 6],
                g: ram[i + 7],
                b: ram[i + 8],
                a: ram[i + 9],
                text: read_string(ram, addr),
            };
            assert(rec@ == text_at(ram@, k as int));
            let ghost before = text_views(out@);
            out.push(rec);
            assert(text_views(out@) =~= before.push(rec@));
        }
        k = k + 1;
    }
    out
}

/// What a frame shows.
pub enum Screen {
    /// The terminal's rows.
    Terminal(Vec<Vec<u8>>),
    /// Rectangles, then texts, then lines, each in slot order.
    Graphics(Vec<RectRecord>, Vec<TextRecord>, Vec<LineRecord>),
    /// Nothing (mode 2, monochrome graphics, and any other mode).
    Blank,
}

/// The screen of a frame, by the mode in RAM byte 1.
pub fn screen(mem: &Memory) -> (s: Screen)
    requires
        mem@.ram.len() == RAM_SIZE,
    ensures
        mem@.ram[1] == 0 ==> (s matches Screen::Terminal(rows) && rows@.len() == TERMINAL_ROWS
            && forall|r: int, c: int|
            0 <= r < TERMINAL_ROWS && 0 <= c < TERMINAL_COLS ==> rows@[r]@.len()
                == TERMINAL_COLS && #[trigger] rows@[r]@[c] == terminal_cell(mem@.ram, r, c)),
        mem@.ram[1] == 1 ==> (s matches Screen::Graphics(rs, ts, ls) && rs@ == rects(
            mem@.ram,
            RECT_SLOTS as int,
        ) && text_views(ts@) == texts(mem@.ram, TEXT_SLOTS as int) && ls@ == lines(
            mem@.ram,
            LINE_SLOTS as int,
        )),
        mem@.ram[1] > 1 ==> s is Blank,
{
    let mode = mem.ram[1];
    if mode == 0 {
        let rows = terminal_rows(&mem.ram);
        assert forall|r: int, c: int|
            0 <= r < TERMINAL_ROWS && 0 <= c < TERMINAL_COLS implies rows@[r]@.len()
                == TERMINAL_COLS && #[trigger] rows@[r]@[c] == terminal_cell(mem@.ram, r, c) by {
            assert(rows@[r]@.len() == TERMINAL_COLS);
        }
        Screen::Terminal(rows)
    } else if mode == 1 {
        Screen::Graphics(rect_records(&mem.ram), text_records(&mem.ram), line_records(&mem.ram))
    } else {
        Screen::Blank
    }
}


/// Every character of the terminal is ASCII (at most `0x7F`), so each row
/// is valid UTF-8 text.
pub proof fn law_terminal_is_ascii(ram: Seq<u8>, row: int, col: int)
    ensures
        terminal_cell(ram, row, col) <= 0x7F,
{
}


/// The 16-bit big-endian number at `ram[i..i + 2]`, as arithmetic.
pub open spec fn pair(ram: Seq<u8>, i: int) -> u16 {
    (ram[i] * 0x100 + ram[i + 1]) as u16
}

proof fn lemma_be16_value(ram: Seq<u8>, i: int)
    ensures
        be16_at(ram, i) == pair(ram, i),
{
    let (a, b) = (ram[i], ram[i + 1]);
    assert((((a as u16) << 8u16) | (b as u16)) == (a * 0x100 + b) as u16) by (bit_vector);
}

/// The rectangles of the first `n + 1` slots: those of the first `n`, then
/// slot `n` (at `RECT_BASE + 12 n`) when its alpha byte (byte 11) is not 0,
/// with x, y, w, h the big-endian pairs of bytes 0-7 and r, g, b, a bytes
/// 8, 9, 10, 11.
pub proof fn law_rect_slots(ram: Seq<u8>, n: int)
    requires
        0 <= n,
    ensures
        rects(ram, 0) == Seq::<RectRecord>::empty(),
        ({
            let i = RECT_BASE + 12 * n;
            let rec = RectRecord {
                x: pair(ram, i),
                y: pair(ram, i + 2),
                w: pair(ram, i + 4),
                h: pair(ram, i + 6),
                r: ram[i + 8],
                g: ram[i + 9],
                b: ram[i + 10],
                a: ram[i + 11],
            };
            rects(ram, n + 1) == if ram[i + 11] != 0 {
                rects(ram, n).push(rec)
            } else {
                rects(ram, n)
            }
        }),
{
    let i = RECT_BASE + 12 * n;
    lemma_be16_value(ram, i);
    lemma_be16_value(ram, i + 2);
    lemma_be16_value(ram, i + 4);
    lemma_be16_value(ram, i + 6);
}

/// The lines of the first `n + 1` slots: those of the first `n`, then slot
/// `n` (at `LINE_BASE + 13 n`) when its alpha byte (byte 12) is not 0, with
/// x1, y1, x2, y2 the big-endian pairs of bytes 0-7, the thickness byte 8
/// and r, g, b, a bytes 9, 10, 11, 12.
pub proof fn law_line_slots(ram: Seq<u8>, n: int)
    requires
        0 <= n,
    ensures
        lines(ram, 0) == Seq::<LineRecord>::empty(),
        ({
            let i = LINE_BASE + 13 * n;
            let rec = LineRecord {
                x1: pair(ram, i),
                y1: pair(ram, i + 2),
                x2: pair(ram, i + 4),
                y2: pair(ram, i + 6),
                thickness: ram[i + 8],
                r: ram[i + 9],
                g: ram[i + 10],
                b: ram[i + 11],
                a: ram[i + 12],
            };
            lines(ram, n + 1) == if ram[i + 12] != 0 {
                lines(ram, n).push(rec)
            } else {
                lines(ram, n)
            }
        }),
{
    let i = LINE_BASE + 13 * n;
    lemma_be16_value(ram, i);
    lemma_be16_value(ram, i + 2);
    lemma_be16_value(ram, i + 4);
    lemma_be16_value(ram, i + 6);
}

/// The texts of the first `n + 1` slots: those of the first `n`, then slot
/// `n` (at `TEXT_BASE + 14 n`) when its alpha byte (byte 9) is not 0, with x,
/// y the big-endian pairs of bytes 0-3, font byte 4, size byte 5, r, g, b, a
/// bytes 6-9, and the string at the big-endian address of bytes 10-13.
pub proof fn law_text_slots(ram: Seq<u8>, n: int)
    requires
        0 <= n,
    ensures
        texts(ram, 0) == Seq::<TextView>::empty(),
        ({
            let i = TEXT_BASE + 14 * n;
            let rec = TextView {
                x: pair(ram, i),
                y: pair(ram, i + 2),
                font: ram[i + 4],
                size: ram[i + 5],
                r: ram[i + 6],
                g: ram[i + 7],
                b: ram[i + 8],
                a: ram[i + 9],
                text: string_at(
                    ram,
                    ram[i + 10] * 0x100_0000 + ram[i + 11] * 0x1_0000 + ram[i + 12] * 0x100 + ram[i
                        + 13],
                ),
            };
            texts(ram, n + 1) == if ram[i + 9] != 0 {
                texts(ram, n).push(rec)
            } else {
                texts(ram, n)
            }
        }),
{
    let i = TEXT_BASE + 14 * n;
    lemma_be16_value(ram, i);
    lemma_be16_value(ram, i + 2);
    let (b0, b1, b2, b3) = (ram[i + 10], ram[i + 11], ram[i + 12], ram[i + 13]);
    assert((((b0 as u32) << 24u32) | ((b1 as u32) << 16u32) | ((b2 as u32) << 8u32) | (b3 as u32))
        == b0 * 0x100_0000 + b1 * 0x1_0000 + b2 * 0x100 + b3) by (bit_vector);
}

/// A zero-terminated string: the bytes from `addr` up to the first zero byte,
/// none of them zero; `None` exactly when no zero byte follows in `ram`.
pub proof fn law_string_at(ram: Seq<u8>, addr: int)
    requires
        0 <= addr,
    ensures
        string_at(ram, addr) matches Some(t) ==> addr + t.len() < ram.len() && ram[addr + t.len()]
            == 0 && t == ram.subrange(addr, addr + t.len()) && forall|k: int|
            0 <= k < t.len() ==> #[trigger] t[k] != 0,
        string_at(ram, addr) is None <==> forall|k: int| addr <= k < ram.len() ==> #[trigger] ram[k]
            != 0,
    decreases ram.len() - addr,
{
    if addr < ram.len() && ram[addr] != 0 {
        law_string_at(ram, addr + 1);
        if let Some(t) = string_at(ram, addr + 1) {
            let u = seq![ram[addr]] + t;
            assert(u =~= ram.subrange(addr, addr + u.len()));
            assert forall|k: int| 0 <= k < u.len() implies #[trigger] u[k] != 0 by {
                if k > 0 {
                    assert(u[k] == t[k - 1]);
                }
            }
        }
    } else if addr < ram.len() {
        assert(Seq::<u8>::empty() =~= ram.subrange(addr, addr));
    }
}


/// The terminal shows RAM from `0x7F_FA00` on, 70 characters to a row: the
/// cell in row `row`, column `col` is the byte at `0x7F_FA00 + 70 row + col`
/// for the first `0x5FF` cells (with `?` for a byte above `0x7F`), and 0
/// after them.
pub proof fn law_terminal_cells(ram: Seq<u8>, row: int, col: int)
    requires
        0 <= row < 22,
        0 <= col < 70,
    ensures
        70 * row + col < 0x5FF ==> terminal_cell(ram, row, col) == if ram[0x7F_FA00 + 70 * row
            + col] >= 0x80 {
            0x3Fu8
        } else {
            ram[0x7F_FA00 + 70 * row + col]
        },
        70 * row + col >= 0x5FF ==> terminal_cell(ram, row, col) == 0,
{
}

} // verus!
