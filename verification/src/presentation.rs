//! What the screen is to show: the colour of each face, the order in which
//! cells and line breaks are put out, and the parameters as decimal numbers.
//! Putting it on a terminal is left to the caller.

use vstd::prelude::*;
use crate::frame::FrameState;
use crate::frame::FrameView;

verus! {

/// The colours in which the faces are shown.
#[derive(Clone, Copy, Debug, PartialEq, Eq, Structural)]
pub enum Color {
    Yellow,
    Red,
    Cyan,
    Magenta,
    Blue,
    Green,
    White,
}

/// A character with the colour in which it is shown.
#[derive(Clone, Copy, Debug, PartialEq, Eq, Structural)]
pub struct Glyph {
    pub symbol: char,
    pub color: Color,
}

/// How a character of the buffer is shown: each face tag in its own colour,
/// the underscore in white, and anything else as a white blank.
pub open spec fn shown_as(ch: char) -> Glyph {
    if ch == 'F' {
        Glyph { symbol: 'F', color: Color::Yellow }
    } else if ch == 'K' {
        Glyph { symbol: 'K', color: Color::Red }
    } else if ch == 'L' {
        Glyph { symbol: 'L', color: Color::Cyan }
    } else if ch == 'R' {
        Glyph { symbol: 'R', color: Color::Magenta }
    } else if ch == 'T' {
        Glyph { symbol: 'T', color: Color::Blue }
    } else if ch == 'B' {
        Glyph { symbol: 'B', color: Color::Green }
    } else if ch == '_' {
        Glyph { symbol: '_', color: Color::White }
    } else {
        Glyph { symbol: ' ', color: Color::White }
    }
}

/// Looks up how a character of the buffer is shown.
pub fn get_colored(ch: char) -> (glyph: Glyph)
    ensures
        glyph == shown_as(ch),
{
    match ch {
        'F' => Glyph { symbol: 'F', color: Color::Yellow },
        'K' => Glyph { symbol: 'K', color: Color::Red },
        'L' => Glyph { symbol: 'L', color: Color::Cyan },
        'R' => Glyph { symbol: 'R', color: Color::Magenta },
        'T' => Glyph { symbol: 'T', color: Color::Blue },
        'B' => Glyph { symbol: 'B', color: Color::Green },
        '_' => Glyph { symbol: '_', color: Color::White },
        _ => Glyph { symbol: ' ', color: Color::White },
    }
}

/// One thing that is put on the screen.
#[derive(Clone, Copy, Debug, PartialEq, Eq, Structural)]
pub enum Token {
    /// The start of a new line.
    LineBreak,
    /// One coloured character.
    Cell(Glyph),
}

/// What is put out for row `y` of the canvas: a line break, and after it every
/// cell of the row in its colour, from the first column to the last.
pub open spec fn row_tokens(f: FrameView, y: int) -> Seq<Token> {
    seq![Token::LineBreak] + Seq::new(
        f.width as nat,
        |x: int| Token::Cell(shown_as(f.chars[f.index_of(x, y)])),
    )
}

/// What is put out for the first `rows` rows of the canvas, row after row.
pub open spec fn rows_tokens(f: FrameView, rows: int) -> Seq<Token>
    decreases rows,
{
    if rows <= 0 {
        Seq::empty()
    } else {
        rows_tokens(f, rows - 1) + row_tokens(f, rows - 1)
    }
}

/// What is put out for the whole buffer: every row in turn, each cell of the
/// grid once and in its place.
pub open spec fn buffer_tokens(f: FrameView) -> Seq<Token> {
    rows_tokens(f, f.height)
}

/// Where each cell stands in what is put out: row `y` starts with a line break
/// at place y · (width + 1), and its cell in column `x` follows at place
/// y · (width + 1) + 1 + x. Nothing else is put out.
pub proof fn lemma_token_places(f: FrameView, rows: int, x: int, y: int)
    requires
        f.width >= 0,
        0 <= y < rows,
        0 <= x < f.width,
    ensures
        rows_tokens(f, rows).len() == rows * (f.width + 1),
        0 <= y * (f.width + 1),
        y * (f.width + 1) + 1 + x < rows * (f.width + 1),
        rows_tokens(f, rows)[y * (f.width + 1)] == Token::LineBreak,
        rows_tokens(f, rows)[y * (f.width + 1) + 1 + x] == Token::Cell(
            shown_as(f.chars[f.index_of(x, y)]),
        ),
    decreases rows,
{
    let w = f.width + 1;
    lemma_tokens_len(f, rows - 1);
    lemma_tokens_len(f, rows);
    assert((rows - 1) * w + w == rows * w) by (nonlinear_arith);
    assert(0 <= y * w <= (rows - 1) * w) by (nonlinear_arith)
        requires
            0 <= y <= rows - 1,
            w >= 1,
    ;
    if y < rows - 1 {
        lemma_token_places(f, rows - 1, x, y);
    } else {
        let before = rows_tokens(f, rows - 1);
        let row = row_tokens(f, rows - 1);
        let n = before.len() as int;
        assert((before + row)[n] == row[0]);
        assert((before + row)[n + 1 + x] == row[1 + x]);
    }
}

/// The number of tokens of the first `rows` rows.
proof fn lemma_tokens_len(f: FrameView, rows: int)
    requires
        f.width >= 0,
        rows >= 0,
    ensures
        rows_tokens(f, rows).len() == rows * (f.width + 1),
    decreases rows,
{
    if rows > 0 {
        lemma_tokens_len(f, rows - 1);
        assert(row_tokens(f, rows - 1).len() == f.width + 1);
        assert((rows - 1) * (f.width + 1) + (f.width + 1) == rows * (f.width + 1))
            by (nonlinear_arith);
    } else {
        assert(rows * (f.width + 1) == 0) by (nonlinear_arith)
            requires
                rows == 0,
        ;
    }
}

/// Lays the character buffer out for the screen: for each row a line break
/// and the cells of the row, so that the grid is shown cell for cell.
pub fn layout_buffer(frame: &FrameState) -> (tokens: Vec<Token>)
    ensures
        tokens@ == buffer_tokens(frame@),
{
    let width = frame.width();
    let height = frame.height();
    let mut tokens: Vec<Token> = Vec::new();
    let mut y: usize = 0;
    while y < height
        invariant
            y <= height,
            width == frame@.width,
            height == frame@.height,
            tokens@ == rows_tokens(frame@, y as int),
        decreases height - y,
    {
        let ghost before = tokens@;
        tokens.push(Token::LineBreak);
        let mut x: usize = 0;
        while x < width
            invariant
                x <= width,
                y < height,
                width == frame@.width,
                height == frame@.height,
                tokens@.len() == before.len() + 1 + x,
                forall|k: int| 0 <= k < before.len() ==> tokens@[k] == before[k],
                tokens@[before.len() as int] == Token::LineBreak,
                forall|j: int|
                    0 <= j < x ==> tokens@[before.len() + 1 + j] == Token::Cell(
                        shown_as(frame@.chars[frame@.index_of(j, y as int)]),
                    ),
            decreases width - x,
        {
            let ch = frame.char_at(x, y).unwrap();
            tokens.push(Token::Cell(get_colored(ch)));
            x = x + 1;
        }
        proof {
            assert(tokens@ =~= before + row_tokens(frame@, y as int));
        }
        y = y + 1;
    }
    tokens
}

/// A fixed-point value taken apart for display with two decimals.
#[derive(Clone, Copy, Debug, PartialEq, Eq, Structural)]
pub struct Decimal {
    /// Whether the value is below zero.
    pub negative: bool,
    /// The whole part of the size of the value.
    pub whole: u64,
    /// The hundredths of the size of the value, 0 to 99.
    pub hundredths: u64,
}

impl Decimal {
    /// The number of hundredths that the parts stand for.
    pub open spec fn value(self) -> int {
        if self.negative {
            -(self.whole * 100 + self.hundredths)
        } else {
            self.whole * 100 + self.hundredths
        }
    }
}

/// Takes a parameter, which counts hundredths, apart for display: its sign,
/// its whole part and its two decimals. Zero is not negative.
pub fn to_decimal(value: i64) -> (parts: Decimal)
    ensures
        parts.value() == value,
        parts.hundredths < 100,
        parts.negative == (value < 0),
{
    let negative: bool = value < 0;
    let wide: i128 = value as i128;
    let size: u64 = if negative {
        (-wide) as u64
    } else {
        wide as u64
    };
    Decimal { negative, whole: size / 100, hundredths: size % 100 }
}

} // verus!
