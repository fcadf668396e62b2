//! Text rendering of the screen: two characters per pixel.

use vstd::prelude::*;
use crate::emulator::{Display, DISPLAY_HEIGHT, DISPLAY_WIDTH};

verus! {

broadcast use vstd::array::group_array_axioms;

/// The two characters that draw one pixel: a full block when lit.
pub open spec fn pixel_text(on: bool) -> Seq<char> {
    if on { seq!['\u{2588}', '\u{2588}'] } else { seq![' ', ' '] }
}

/// The text of a row of pixels, left to right.
pub open spec fn row_text(row: Seq<bool>) -> Seq<char>
    decreases row.len(),
{
    if row.len() == 0 {
        Seq::empty()
    } else {
        row_text(row.drop_last()) + pixel_text(row.last())
    }
}

/// A view of the screen that renders as text.
pub struct DisplayWidget<'b> {
    display: &'b Display,
}

impl<'b> DisplayWidget<'b> {
    /// The screen that this widget shows.
    pub closed spec fn screen(&self) -> Display {
        *self.display
    }

    pub fn new(display: &'b Display) -> (widget: DisplayWidget<'b>)
        ensures
            widget.screen() == *display,
    {
        DisplayWidget { display }
    }

    /// One line of text per screen row, top to bottom.
    pub fn lines(&self) -> (lines: Vec<String>)
        ensures
            lines@.len() == 32,
            forall|y: int| 0 <= y < 32 ==> (#[trigger] lines@[y])@ == row_text(self.screen()[y]@),
    {
        let mut lines: Vec<String> = Vec::new();
        let mut y: usize = 0;
        while y < DISPLAY_HEIGHT
            invariant
                y <= 32,
                lines@.len() == y,
                forall|yy: int| 0 <= yy < y ==> (#[trigger] lines@[yy])@ == row_text(self.screen()[yy]@),
            decreases 32 - y,
        {
            let row: [bool; DISPLAY_WIDTH] = self.display[y];
            lines.push(render_row(&row));
            y = y + 1;
        }
        lines
    }
}

/// The text of one screen row.
pub fn render_row(row: &[bool; DISPLAY_WIDTH]) -> (text: String)
    ensures
        text@ == row_text(row@),
{
    let mut text = String::new();
    let mut x: usize = 0;
    while x < DISPLAY_WIDTH
        invariant
            x <= 64,
            text@ == row_text(row@.take(x as int)),
        decreases 64 - x,
    {
        proof {
            reveal_strlit("\u{2588}\u{2588}");
            reveal_strlit("  ");
            assert(row@.take(x + 1).drop_last() =~= row@.take(x as int));
        }
        if row[x] {
            text.append("\u{2588}\u{2588}");
        } else {
            text.append("  ");
        }
        x = x + 1;
    }
    assert(row@.take(64) =~= row@);
    text
}

} // verus!
