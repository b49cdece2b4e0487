use vstd::prelude::*;

use crate::text_layout::{chars_of, lines_view, wrap_lines, wrap_text};

verus! {

/// What one cell of the grid holds. The `...WithChar` variants and
/// `Character` carry a glyph drawn over the cell by a text overlay.
#[derive(Clone, Copy, Debug, PartialEq, Eq, Structural)]
pub enum GameContent {
    SnakeHead,
    SnakeHeadWithChar(char),
    SnakeBody,
    SnakeBodyWithChar(char),
    Food,
    Border,
    BorderWithChar(char),
    Empty,
    Character(char),
}

/// The cell that results from drawing the glyph `sym` over `gc`: the base kind
/// (head, body, border, plain) is kept and the glyph replaced. Food takes no glyph.
pub open spec fn overlay(gc: GameContent, sym: char) -> GameContent {
    match gc {
        GameContent::SnakeHead => GameContent::SnakeHeadWithChar(sym),
        GameContent::SnakeHeadWithChar(_) => GameContent::SnakeHeadWithChar(sym),
        GameContent::SnakeBody => GameContent::SnakeBodyWithChar(sym),
        GameContent::SnakeBodyWithChar(_) => GameContent::SnakeBodyWithChar(sym),
        GameContent::Food => GameContent::Food,
        GameContent::Border => GameContent::BorderWithChar(sym),
        GameContent::BorderWithChar(_) => GameContent::BorderWithChar(sym),
        GameContent::Empty => GameContent::Character(sym),
        GameContent::Character(_) => GameContent::Character(sym),
    }
}

/// Draws the glyph `sym` over the cell `gc`.
pub fn overlay_glyph(gc: GameContent, sym: char) -> (r: GameContent)
    ensures
        r == overlay(gc, sym),
{
    match gc {
        GameContent::SnakeHead => GameContent::SnakeHeadWithChar(sym),
        GameContent::SnakeHeadWithChar(_) => GameContent::SnakeHeadWithChar(sym),
        GameContent::SnakeBody => GameContent::SnakeBodyWithChar(sym),
        GameContent::SnakeBodyWithChar(_) => GameContent::SnakeBodyWithChar(sym),
        GameContent::Food => GameContent::Food,
        GameContent::Border => GameContent::BorderWithChar(sym),
        GameContent::BorderWithChar(_) => GameContent::BorderWithChar(sym),
        GameContent::Empty => GameContent::Character(sym),
        GameContent::Character(_) => GameContent::Character(sym),
    }
}

/// A grid position: row 0 is the top, column 0 the left.
#[derive(Clone, Copy, Debug, PartialEq, Eq, Structural)]
pub struct Coordinate {
    pub row: usize,
    pub col: usize,
}

/// A `width` x `height` grid of cells, stored row by row.
pub struct ScreenBuffer {
    screen_width: usize,
    screen_height: usize,
    buffer: Vec<GameContent>,
}

/// The first column of a text of `len` glyphs centered in a row of `width` cells.
pub open spec fn centered_start(width: int, len: int) -> int {
    if width >= len { (width - len) / 2 } else { 0 }
}

/// The cell at (`r`, `c`) once `text` is drawn centered on row `row` of a grid
/// `width` wide, where `cell` is what the position held before.
pub open spec fn centered_cell(
    cell: GameContent,
    row: int,
    text: Seq<char>,
    width: int,
    r: int,
    c: int,
) -> GameContent {
    let start = centered_start(width, text.len() as int);
    if r == row && start <= c < start + text.len() {
        overlay(cell, text[c - start])
    } else {
        cell
    }
}

/// The cell at (`r`, `c`) once `lines` are drawn, each centered, on the rows
/// from `top` down, where `cell` is what the position held before.
pub open spec fn text_block_cell(
    cell: GameContent,
    top: int,
    lines: Seq<Seq<char>>,
    width: int,
    r: int,
    c: int,
) -> GameContent {
    if top <= r < top + lines.len() {
        centered_cell(cell, r, lines[r - top], width, r, c)
    } else {
        cell
    }
}

/// The first row of `n` lines centered vertically in the rows that a
/// `padding` leaves free of a grid `height` rows high.
pub open spec fn block_top(height: int, padding: int, n: int) -> int {
    padding + (height - 2 * padding - n) / 2
}

/// `text` can be wrapped into the part of a `width` x `height` grid that
/// `padding` cells on each side leave free: the lines are no more than its
/// rows, and none is wider than the grid.
pub open spec fn text_fits(text: Seq<char>, width: int, height: int, padding: int) -> bool {
    let lines = wrap_text(text, width - 2 * padding);
    &&& 2 * padding <= width
    &&& 2 * padding <= height
    &&& lines.len() <= height - 2 * padding
    &&& forall|i: int| 0 <= i < lines.len() ==> #[trigger] lines[i].len() <= width
}

proof fn lemma_index_in_range(w: int, h: int, r: int, c: int)
    requires
        0 <= r < h,
        0 <= c < w,
    ensures
        0 <= c + r * w < w * h,
{
    assert(0 <= c + r * w < w * h) by (nonlinear_arith)
        requires
            0 <= r < h,
            0 <= c < w,
    ;
}

proof fn lemma_index_unique(w: int, r1: int, c1: int, r2: int, c2: int)
    requires
        0 <= r1,
        0 <= r2,
        0 <= c1 < w,
        0 <= c2 < w,
        c1 + r1 * w == c2 + r2 * w,
    ensures
        r1 == r2,
        c1 == c2,
{
    if r1 < r2 {
        assert(r1 * w + w <= r2 * w) by (nonlinear_arith)
            requires
                r1 < r2,
                0 <= w,
        ;
    } else if r2 < r1 {
        assert(r2 * w + w <= r1 * w) by (nonlinear_arith)
            requires
                r2 < r1,
                0 <= w,
        ;
    }
}

impl ScreenBuffer {
    /// The number of cells in a row.
    pub closed spec fn spec_width(&self) -> int {
        self.screen_width as int
    }

    /// The number of rows.
    pub closed spec fn spec_height(&self) -> int {
        self.screen_height as int
    }

    /// The width and height of a grid are sizes of the machine.
    pub proof fn lemma_dims_fit(&self)
        ensures
            0 <= self.spec_width() <= usize::MAX,
            0 <= self.spec_height() <= usize::MAX,
    {
    }

    /// The grid holds exactly `width * height` cells.
    pub closed spec fn wf(&self) -> bool {
        &&& self.screen_width * self.screen_height <= usize::MAX
        &&& self.buffer@.len() == self.screen_width * self.screen_height
    }

    /// The cell at row `r`, column `c`.
    pub closed spec fn at(&self, r: int, c: int) -> GameContent {
        self.buffer@[c + r * self.screen_width]
    }

    /// Whether (`r`, `c`) lies on the grid.
    pub open spec fn in_bounds(&self, r: int, c: int) -> bool {
        0 <= r < self.spec_height() && 0 <= c < self.spec_width()
    }

    /// A grid of the given size with every cell set to `initial_content`.
    pub fn new(screen_width: usize, screen_height: usize, initial_content: GameContent) -> (r:
        ScreenBuffer)
        requires
            screen_width * screen_height <= usize::MAX,
        ensures
            r.wf(),
            r.spec_width() == screen_width,
            r.spec_height() == screen_height,
            forall|row: int, col: int| 
                r.in_bounds(row, col) ==> #[trigger] r.at(row, col) == initial_content,
    {
        let n: usize = screen_height * screen_width;
        let mut buffer: Vec<GameContent> = Vec::new();
        let mut i: usize = 0;
        while i < n
            invariant
                i <= n,
                buffer@.len() == i,
                forall|k: int| 0 <= k < i ==> buffer@[k] == initial_content,
            decreases n - i,
        {
            buffer.push(initial_content);
            i = i + 1;
        }
        let r = ScreenBuffer { screen_height, screen_width, buffer };
        assert forall|row: int, col: int| r.in_bounds(row, col) implies #[trigger] r.at(row, col)
            == initial_content by {
            lemma_index_in_range(screen_width as int, screen_height as int, row, col);
        }
        r
    }

    pub fn height(&self) -> (r: usize)
        ensures
            r == self.spec_height(),
    {
        self.screen_height
    }

    pub fn width(&self) -> (r: usize)
        ensures
            r == self.spec_width(),
    {
        self.screen_width
    }

    /// Overwrites every cell with `content`.
    pub fn set_all(&mut self, content: GameContent)
        requires
            old(self).wf(),
        ensures
            final(self).wf(),
            final(self).spec_width() == old(self).spec_width(),
            final(self).spec_height() == old(self).spec_height(),
            forall|row: int, col: int| 
                final(self).in_bounds(row, col) ==> #[trigger] final(self).at(row, col) == content,
    {
        let n = self.buffer.len();
        let mut i: usize = 0;
        while i < n
            invariant
                i <= n,
                n == self.buffer@.len(),
                self.wf(),
                self.screen_width == old(self).screen_width,
                self.screen_height == old(self).screen_height,
                forall|k: int| 0 <= k < i ==> self.buffer@[k] == content,
            decreases n - i,
        {
            self.buffer.set(i, content);
            i = i + 1;
        }
        assert forall|row: int, col: int| self.in_bounds(row, col) implies #[trigger] self.at(
            row,
            col,
        ) == content by {
            lemma_index_in_range(self.screen_width as int, self.screen_height as int, row, col);
        }
    }

    /// The cell at row `row`, column `col`.
    pub fn get_at(&self, row: usize, col: usize) -> (r: GameContent)
        requires
            self.wf(),
            self.in_bounds(row as int, col as int),
        ensures
            r == self.at(row as int, col as int),
    {
        proof {
            lemma_index_in_range(self.screen_width as int, self.screen_height as int, row as int, col as int);
        }
        self.buffer[col + row * self.screen_width]
    }

    /// Sets the cell at row `row`, column `col` to `content`; no other cell changes.
    pub fn set_at(&mut self, row: usize, col: usize, content: GameContent)
        requires
            old(self).wf(),
            old(self).in_bounds(row as int, col as int),
        ensures
            final(self).wf(),
            final(self).spec_width() == old(self).spec_width(),
            final(self).spec_height() == old(self).spec_height(),
            forall|r: int, c: int| 
                final(self).in_bounds(r, c) ==> #[trigger] final(self).at(r, c) == (if r == row && c == col {
                    content
                } else {
                    old(self).at(r, c)
                }),
    {
        proof {
            lemma_index_in_range(self.screen_width as int, self.screen_height as int, row as int, col as int);
        }
        let idx = col + row * self.screen_width;
        self.buffer.set(idx, content);
        proof {
            assert forall|r: int, c: int| self.in_bounds(r, c) implies #[trigger] self.at(r, c) == (
            if r == row && c == col {
                content
            } else {
                old(self).at(r, c)
            }) by {
                lemma_index_in_range(self.screen_width as int, self.screen_height as int, r, c);
                if c + r * self.screen_width == idx {
                    lemma_index_unique(self.screen_width as int, r, c, row as int, col as int);
                }
            }
        }
    }

    /// Sets the outermost ring of cells (first and last row, first and last
    /// column) to `border_symbol`; inner cells keep their content.
    pub fn add_border(&mut self, border_symbol: GameContent)
        requires
            old(self).wf(),
            old(self).spec_width() >= 1,
            old(self).spec_height() >= 1,
        ensures
            final(self).wf(),
            final(self).spec_width() == old(self).spec_width(),
            final(self).spec_height() == old(self).spec_height(),
            forall|r: int, c: int| 
                final(self).in_bounds(r, c) ==> #[trigger] final(self).at(r, c) == (if r == 0 || r
                    == old(self).spec_height() - 1 || c == 0 || c == old(self).spec_width() - 1 {
                    border_symbol
                } else {
                    old(self).at(r, c)
                }),
    {
        let w = self.screen_width;
        let h = self.screen_height;
        let mut row: usize = 0;
        while row < h
            invariant
                row <= h,
                self.wf(),
                self.screen_width == w,
                self.screen_height == h,
                w == old(self).spec_width(),
                h == old(self).spec_height(),
                w >= 1,
                forall|r: int, c: int| 
                    self.in_bounds(r, c) ==> #[trigger] self.at(r, c) == (if r < row && (c == 0 || c == w
                        - 1) {
                        border_symbol
                    } else {
                        old(self).at(r, c)
                    }),
            decreases h - row,
        {
            self.set_at(row, 0, border_symbol);
            self.set_at(row, w - 1, border_symbol);
            row = row + 1;
        }
        let mut col: usize = 0;
        while col < w
            invariant
                col <= w,
                self.wf(),
                self.screen_width == w,
                self.screen_height == h,
                w == old(self).spec_width(),
                h == old(self).spec_height(),
                h >= 1,
                forall|r: int, c: int| 
                    self.in_bounds(r, c) ==> #[trigger] self.at(r, c) == (if (c == 0 || c == w - 1) || (c
                        < col && (r == 0 || r == h - 1)) {
                        border_symbol
                    } else {
                        old(self).at(r, c)
                    }),
            decreases w - col,
        {
            self.set_at(0, col, border_symbol);
            self.set_at(h - 1, col, border_symbol);
            col = col + 1;
        }
    }

    /// Draws `message` on row `target_row`, centered: the glyphs go to
    /// consecutive cells from column `(width - len) / 2`, each drawn over the
    /// cell it lands on as `overlay` says. Nothing is wrapped or cut.
    pub fn set_centered_text_at_row(&mut self, target_row: usize, message: &str)
        requires
            old(self).wf(),
            target_row < old(self).spec_height(),
            message@.len() <= old(self).spec_width(),
        ensures
            final(self).wf(),
            final(self).spec_width() == old(self).spec_width(),
            final(self).spec_height() == old(self).spec_height(),
            forall|r: int, c: int|
                final(self).in_bounds(r, c) ==> #[trigger] final(self).at(r, c) == centered_cell(
                    old(self).at(r, c),
                    target_row as int,
                    message@,
                    old(self).spec_width(),
                    r,
                    c,
                ),
    {
        let text = chars_of(message);
        self.set_centered_chars_at_row(target_row, &text);
    }

    /// Draws `text` on row `target_row`, centered, as `set_centered_text_at_row` does.
    pub fn set_centered_chars_at_row(&mut self, target_row: usize, text: &Vec<char>)
        requires
            old(self).wf(),
            target_row < old(self).spec_height(),
            text@.len() <= old(self).spec_width(),
        ensures
            final(self).wf(),
            final(self).spec_width() == old(self).spec_width(),
            final(self).spec_height() == old(self).spec_height(),
            forall|r: int, c: int|
                final(self).in_bounds(r, c) ==> #[trigger] final(self).at(r, c) == centered_cell(
                    old(self).at(r, c),
                    target_row as int,
                    text@,
                    old(self).spec_width(),
                    r,
                    c,
                ),
    {
        let len = text.len();
        let start = (self.screen_width - len) / 2;
        let mut i: usize = 0;
        while i < len
            invariant
                len == text@.len(),
                i <= len,
                start == centered_start(old(self).spec_width(), len as int),
                start + len <= self.screen_width,
                target_row < self.screen_height,
                self.wf(),
                self.screen_width == old(self).spec_width(),
                self.screen_height == old(self).spec_height(),
                forall|r: int, c: int|
                    self.in_bounds(r, c) ==> #[trigger] self.at(r, c) == (if r == target_row
                        && start <= c < start + i {
                        overlay(old(self).at(r, c), text@[c - start])
                    } else {
                        old(self).at(r, c)
                    }),
            decreases len - i,
        {
            let content = overlay_glyph(self.get_at(target_row, start + i), text[i]);
            self.set_at(target_row, start + i, content);
            i = i + 1;
        }
    }

    /// Wraps `text` into the part of the grid that `padding` cells on each
    /// side leave free (see `wrap_text`), and draws the lines centered, each
    /// on its own row, the block of lines centered vertically.
    pub fn fill_with_text(&mut self, text: String, padding: usize)
        requires
            old(self).wf(),
            text_fits(text@, old(self).spec_width(), old(self).spec_height(), padding as int),
        ensures
            final(self).wf(),
            final(self).spec_width() == old(self).spec_width(),
            final(self).spec_height() == old(self).spec_height(),
            forall|r: int, c: int|
                final(self).in_bounds(r, c) ==> #[trigger] final(self).at(r, c) == text_block_cell(
                    old(self).at(r, c),
                    block_top(
                        old(self).spec_height(),
                        padding as int,
                        wrap_text(text@, old(self).spec_width() - 2 * padding).len() as int,
                    ),
                    wrap_text(text@, old(self).spec_width() - 2 * padding),
                    old(self).spec_width(),
                    r,
                    c,
                ),
    {
        let allowed_width = self.screen_width - 2 * padding;
        let allowed_height = self.screen_height - 2 * padding;
        let chars = chars_of(text.as_str());
        let rows = wrap_lines(&chars, allowed_width);
        let ghost lines = wrap_text(text@, allowed_width as int);
        assert(lines_view(rows@) == lines);
        let n = rows.len();
        let top = padding + (allowed_height - n) / 2;
        let mut i: usize = 0;
        while i < n
            invariant
                n == rows@.len() == lines.len(),
                lines_view(rows@) == lines,
                i <= n,
                top == block_top(old(self).spec_height(), padding as int, n as int),
                top + n <= self.screen_height,
                forall|k: int| 0 <= k < lines.len() ==> #[trigger] lines[k].len() <= self.screen_width,
                self.wf(),
                self.screen_width == old(self).spec_width(),
                self.screen_height == old(self).spec_height(),
                forall|r: int, c: int|
                    self.in_bounds(r, c) ==> #[trigger] self.at(r, c) == text_block_cell(
                        old(self).at(r, c),
                        top as int,
                        lines.take(i as int),
                        self.screen_width as int,
                        r,
                        c,
                    ),
            decreases n - i,
        {
            assert(rows@[i as int]@ == lines[i as int]);
            self.set_centered_chars_at_row(top + i, &rows[i]);
            assert forall|r: int, c: int| self.in_bounds(r, c) implies #[trigger] self.at(r, c)
                == text_block_cell(
                old(self).at(r, c),
                top as int,
                lines.take(i + 1),
                self.screen_width as int,
                r,
                c,
            ) by {
                if r == top + i {
                    assert(lines.take(i + 1)[r - top] == lines[i as int]);
                } else if top <= r < top + i {
                    assert(lines.take(i + 1)[r - top] == lines.take(i as int)[r - top]);
                }
            }
            i = i + 1;
        }
        assert(lines.take(n as int) == lines);
    }

    /// Whether `text` fits the part of the grid that `padding` cells on each
    /// side leave free, as `fill_with_text` needs.
    pub fn fits_text(&self, text: &str, padding: usize) -> (r: bool)
        ensures
            r == text_fits(text@, self.spec_width(), self.spec_height(), padding as int),
    {
        if padding > self.screen_width / 2 || padding > self.screen_height / 2 {
            return false;
        }
        let allowed_width = self.screen_width - 2 * padding;
        let allowed_height = self.screen_height - 2 * padding;
        let chars = chars_of(text);
        let rows = wrap_lines(&chars, allowed_width);
        let ghost lines = wrap_text(text@, allowed_width as int);
        assert(lines.len() == rows@.len());
        if rows.len() > allowed_height {
            return false;
        }
        let mut i: usize = 0;
        while i < rows.len()
            invariant
                lines_view(rows@) == lines,
                lines == wrap_text(text@, self.spec_width() - 2 * padding),
                i <= rows@.len(),
                forall|k: int| 0 <= k < i ==> #[trigger] lines[k].len() <= self.screen_width,
            decreases rows@.len() - i,
        {
            assert(rows@[i as int]@ == lines[i as int]);
            if rows[i].len() > self.screen_width {
                assert(lines == wrap_text(text@, self.spec_width() - 2 * padding));
                assert(!(lines[i as int].len() <= self.screen_width));
                return false;
            }
            i = i + 1;
        }
        true
    }

    /// The cells, row by row.
    pub fn cells(&self) -> (r: Vec<GameContent>)
        requires
            self.wf(),
        ensures
            r@.len() == self.spec_width() * self.spec_height(),
            forall|row: int, col: int|
                self.in_bounds(row, col) ==> #[trigger] self.at(row, col) == r@[col + row
                    * self.spec_width()],
    {
        let mut r: Vec<GameContent> = Vec::new();
        let mut i: usize = 0;
        while i < self.buffer.len()
            invariant
                i <= self.buffer@.len(),
                r@ == self.buffer@.subrange(0, i as int),
            decreases self.buffer@.len() - i,
        {
            r.push(self.buffer[i]);
            i = i + 1;
        }
        assert(r@ == self.buffer@);
        r
    }

    /// The grid of the given size whose cells, row by row, are `cells`; `None`
    /// where their number is not `screen_width * screen_height`.
    pub fn from_cells(screen_width: usize, screen_height: usize, cells: Vec<GameContent>) -> (r:
        Option<ScreenBuffer>)
        ensures
            r is Some <==> cells@.len() == screen_width * screen_height,
            r matches Some(b) ==> {
                &&& b.wf()
                &&& b.spec_width() == screen_width
                &&& b.spec_height() == screen_height
                &&& forall|row: int, col: int|
                    b.in_bounds(row, col) ==> #[trigger] b.at(row, col) == cells@[col + row
                        * screen_width]
            },
    {
        let n = cells.len();
        if screen_height != 0 && screen_width > usize::MAX / screen_height {
            assert(screen_width * screen_height > usize::MAX) by (nonlinear_arith)
                requires
                    screen_height != 0,
                    screen_width > usize::MAX / screen_height,
            ;
            return None;
        }
        assert(screen_width * screen_height <= usize::MAX) by (nonlinear_arith)
            requires
                screen_height == 0 || screen_width <= usize::MAX / screen_height,
        ;
        if n != screen_width * screen_height {
            return None;
        }
        Some(ScreenBuffer { screen_width, screen_height, buffer: cells })
    }
}

} // verus!
