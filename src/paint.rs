//! How a cell looks on a character terminal: its glyph and its colours.
use vstd::prelude::*;

use crate::screen_buffer::GameContent;

verus! {

/// The colours a cell is drawn in.
#[derive(Clone, Copy, Debug, PartialEq, Eq, Structural)]
pub enum Color {
    DarkGreen,
    Green,
    Black,
    DarkBlue,
    White,
}

/// A glyph in a foreground colour, on a background colour or on the
/// terminal's own background.
#[derive(Clone, Copy, Debug, PartialEq, Eq, Structural)]
pub struct Paint {
    pub glyph: char,
    pub foreground: Color,
    pub background: Option<Color>,
}

/// The full block glyph that draws a cell in one colour.
pub const BLOCK: char = '\u{2588}';

/// The block colour of each kind of cell.
pub open spec fn block_color(gc: GameContent) -> Color {
    match gc {
        GameContent::SnakeHead | GameContent::SnakeHeadWithChar(_) => Color::Green,
        GameContent::SnakeBody | GameContent::SnakeBodyWithChar(_) => Color::DarkGreen,
        GameContent::Food => Color::Black,
        GameContent::Border | GameContent::BorderWithChar(_) => Color::DarkBlue,
        GameContent::Empty | GameContent::Character(_) => Color::White,
    }
}

/// How `gc` is drawn. A cell takes two terminal columns; `is_padded_char`
/// says that this is the filler column, which always shows the cell's block.
/// The other column shows the glyph of a text overlay, black on the block
/// colour (white on a border), and the block where there is no glyph.
pub open spec fn paint_of(gc: GameContent, is_padded_char: bool) -> Paint {
    let block = Paint { glyph: BLOCK, foreground: block_color(gc), background: None };
    if is_padded_char {
        block
    } else {
        match gc {
            GameContent::SnakeHeadWithChar(ch) => Paint {
                glyph: ch,
                foreground: Color::Black,
                background: Some(Color::Green),
            },
            GameContent::SnakeBodyWithChar(ch) => Paint {
                glyph: ch,
                foreground: Color::Black,
                background: Some(Color::DarkGreen),
            },
            GameContent::BorderWithChar(ch) => Paint {
                glyph: ch,
                foreground: Color::White,
                background: Some(Color::DarkBlue),
            },
            GameContent::Character(ch) => Paint {
                glyph: ch,
                foreground: Color::Black,
                background: Some(Color::White),
            },
            _ => block,
        }
    }
}

/// How `gc` is drawn in its filler column (`is_padded_char`) or in its
/// glyph column, as `paint_of` says.
pub fn cell_paint(gc: GameContent, is_padded_char: bool) -> (r: Paint)
    ensures
        r == paint_of(gc, is_padded_char),
{
    let block_color = match gc {
        GameContent::SnakeHead | GameContent::SnakeHeadWithChar(_) => Color::Green,
        GameContent::SnakeBody | GameContent::SnakeBodyWithChar(_) => Color::DarkGreen,
        GameContent::Food => Color::Black,
        GameContent::Border | GameContent::BorderWithChar(_) => Color::DarkBlue,
        GameContent::Empty | GameContent::Character(_) => Color::White,
    };
    let block = Paint { glyph: BLOCK, foreground: block_color, background: None };
    if is_padded_char {
        return block;
    }
    match gc {
        GameContent::SnakeHeadWithChar(ch) => Paint {
            glyph: ch,
            foreground: Color::Black,
            background: Some(Color::Green),
        },
        GameContent::SnakeBodyWithChar(ch) => Paint {
            glyph: ch,
            foreground: Color::Black,
            background: Some(Color::DarkGreen),
        },
        GameContent::BorderWithChar(ch) => Paint {
            glyph: ch,
            foreground: Color::White,
            background: Some(Color::DarkBlue),
        },
        GameContent::Character(ch) => Paint {
            glyph: ch,
            foreground: Color::Black,
            background: Some(Color::White),
        },
        _ => block,
    }
}

} // verus!
