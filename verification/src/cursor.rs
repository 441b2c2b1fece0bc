//! The caret: one insertion point, kept as a line, a character index on that
//! line, and a remembered horizontal pixel position.
//!
//! Moving left or right changes the character index and refreshes the pixel
//! position from it. Moving up or down changes the line and resolves the
//! character index from the remembered pixel position. A click sets both.

use vstd::prelude::*;
use crate::metrics::TextBackend;
use crate::metrics::chars_before_line;
use crate::metrics::nearest_boundary;
use crate::metrics::nearest_boundary_from;
use crate::metrics::lemma_nearest_boundary_on_line;

verus! {

/// The caret as a mathematical value.
pub struct Caret {
    /// Zero-based line.
    pub line: nat,
    /// Characters of the line that lie left of the caret.
    pub char_index: nat,
    /// Remembered horizontal position, in pixels.
    pub pixel_x: nat,
}

/// The caret of an editor. It belongs to no text: every query and every move
/// is given the geometry of the text it is to be read against.
#[derive(Clone, Copy)]
pub struct Cursor {
    y: usize,
    x_idx: usize,
    x_px: usize,
}

impl View for Cursor {
    type V = Caret;

    closed spec fn view(&self) -> Caret {
        Caret { line: self.y as nat, char_index: self.x_idx as nat, pixel_x: self.x_px as nat }
    }
}

/// The caret lies on a line of `t` and on a character boundary of that line.
pub open spec fn caret_fits<T: TextBackend>(c: Caret, t: &T) -> bool {
    &&& c.line < t.spec_num_lines()
    &&& c.char_index <= t.spec_num_chars_of_line(c.line)
}

/// Offset of the caret in the whole text, each line separator counted as one
/// character.
pub open spec fn caret_offset<T: TextBackend>(c: Caret, t: &T) -> nat {
    chars_before_line(t, c.line) + c.char_index
}

/// The caret on line `line`, placed at the boundary nearest to its remembered
/// pixel position.
pub open spec fn caret_resolved<T: TextBackend>(c: Caret, t: &T, line: nat) -> Caret {
    Caret { line, char_index: nearest_boundary(t, line, c.pixel_x), pixel_x: c.pixel_x }
}

/// The caret at boundary `char_index` of line `line`, its pixel position
/// measured there.
pub open spec fn caret_at<T: TextBackend>(t: &T, line: nat, char_index: nat) -> Caret {
    Caret { line, char_index, pixel_x: t.spec_width_of_line(line, char_index) }
}

/// One line up, keeping the pixel position; on the first line, to the start
/// of the text.
pub open spec fn caret_up<T: TextBackend>(c: Caret, t: &T) -> Caret {
    if c.line > 0 {
        caret_resolved(c, t, (c.line - 1) as nat)
    } else {
        Caret { line: c.line, char_index: 0, pixel_x: 0 }
    }
}

/// One line down, keeping the pixel position; on the last line, to the end of
/// that line.
pub open spec fn caret_down<T: TextBackend>(c: Caret, t: &T) -> Caret {
    if c.line + 1 < t.spec_num_lines() {
        caret_resolved(c, t, c.line + 1)
    } else {
        caret_at(t, c.line, t.spec_num_chars_of_line(c.line))
    }
}

/// One character left; from the start of a line, to the end of the line
/// before; at the start of the text, nowhere.
pub open spec fn caret_left<T: TextBackend>(c: Caret, t: &T) -> Caret {
    if c.char_index > 0 {
        caret_at(t, c.line, (c.char_index - 1) as nat)
    } else if c.line > 0 {
        caret_at(t, (c.line - 1) as nat, t.spec_num_chars_of_line((c.line - 1) as nat))
    } else {
        c
    }
}

/// One character right; from the end of a line, to the start of the next
/// line; at the end of the text, nowhere.
pub open spec fn caret_right<T: TextBackend>(c: Caret, t: &T) -> Caret {
    if c.char_index < t.spec_num_chars_of_line(c.line) {
        caret_at(t, c.line, c.char_index + 1)
    } else if c.line + 1 < t.spec_num_lines() {
        caret_at(t, c.line + 1, 0)
    } else {
        c
    }
}

/// The line that the pixel row `y` falls on, held to the lines that exist.
pub open spec fn clicked_line<T: TextBackend>(t: &T, y: nat) -> nat {
    let row = y / t.spec_line_height();
    if row < t.spec_num_lines() {
        row
    } else {
        (t.spec_num_lines() - 1) as nat
    }
}

/// The caret after a click at pixel `(x, y)`: on the clicked line, at the
/// boundary nearest to `x`, its pixel position snapped to that boundary.
pub open spec fn caret_clicked<T: TextBackend>(t: &T, x: nat, y: nat) -> Caret {
    let line = clicked_line(t, y);
    caret_at(t, line, nearest_boundary(t, line, x))
}

impl Cursor {
    /// The caret at the start of the text.
    pub fn new() -> (c: Self)
        ensures
            c@ == (Caret { line: 0, char_index: 0, pixel_x: 0 }),
    {
        Self { y: 0, x_idx: 0, x_px: 0 }
    }

    /// Horizontal pixel position of the caret, measured from its character
    /// index.
    pub fn get_x<T: TextBackend>(&self, content: &T) -> (x: usize)
        requires
            caret_fits(self@, content),
        ensures
            x == content.spec_width_of_line(self@.line, self@.char_index),
    {
        content.width_of_line(self.y, self.x_idx)
    }

    /// Vertical pixel position of the caret: its line times the line height.
    pub fn get_y<T: TextBackend>(&self, content: &T) -> (y: usize)
        requires
            self@.line * content.spec_line_height() <= usize::MAX,
        ensures
            y == self@.line * content.spec_line_height(),
    {
        self.y * content.line_height()
    }

    /// Offset of the caret in the whole text.
    pub fn get_idx<T: TextBackend>(&self, content: &T) -> (idx: usize)
        requires
            caret_fits(self@, content),
            caret_offset(self@, content) <= usize::MAX,
        ensures
            idx == caret_offset(self@, content),
    {
        let mut sum: usize = 0;
        let mut y: usize = 0;
        while y < self.y
            invariant
                y <= self.y,
                self.y < content.spec_num_lines(),
                sum == chars_before_line(content, y as nat),
                chars_before_line(content, self.y as nat) <= usize::MAX,
            decreases self.y - y,
        {
            proof {
                lemma_chars_before_line_grows(content, (y + 1) as nat, self.y as nat);
            }
            sum = sum + content.num_chars_of_line(y) + 1;
            y = y + 1;
        }
        sum + self.x_idx
    }

    pub fn cursor_up<T: TextBackend>(&mut self, content: &T)
        requires
            caret_fits(old(self)@, content),
        ensures
            final(self)@ == caret_up(old(self)@, content),
            caret_fits(final(self)@, content),
    {
        if self.y > 0 {
            self.y = self.y - 1;
            self.update_x_idx(content);
        } else {
            self.x_idx = 0;
            self.x_px = 0;
        }
    }

    pub fn cursor_down<T: TextBackend>(&mut self, content: &T)
        requires
            caret_fits(old(self)@, content),
        ensures
            final(self)@ == caret_down(old(self)@, content),
            caret_fits(final(self)@, content),
    {
        if self.y < content.num_lines() - 1 {
            self.y = self.y + 1;
            self.update_x_idx(content);
        } else {
            self.x_idx = content.num_chars_of_line(self.y);
            self.update_x_px(content);
        }
    }

    pub fn cursor_left<T: TextBackend>(&mut self, content: &T)
        requires
            caret_fits(old(self)@, content),
        ensures
            final(self)@ == caret_left(old(self)@, content),
            caret_fits(final(self)@, content),
    {
        if self.x_idx > 0 {
            self.x_idx = self.x_idx - 1;
            self.update_x_px(content);
        } else if self.y > 0 {
            self.y = self.y - 1;
            self.x_idx = content.num_chars_of_line(self.y);
            self.update_x_px(content);
        }
    }

    pub fn cursor_right<T: TextBackend>(&mut self, content: &T)
        requires
            caret_fits(old(self)@, content),
        ensures
            final(self)@ == caret_right(old(self)@, content),
            caret_fits(final(self)@, content),
    {
        if self.x_idx < content.num_chars_of_line(self.y) {
            self.x_idx = self.x_idx + 1;
            self.update_x_px(content);
        } else if self.y < content.num_lines() - 1 {
            self.y = self.y + 1;
            self.x_idx = 0;
            self.update_x_px(content);
        }
    }

    /// To the start of the line.
    pub fn cursor_home<T: TextBackend>(&mut self, content: &T)
        requires
            caret_fits(old(self)@, content),
        ensures
            final(self)@ == caret_at(content, old(self)@.line, 0),
            caret_fits(final(self)@, content),
    {
        self.x_idx = 0;
        self.update_x_px(content);
    }

    /// To the end of the line.
    pub fn cursor_end<T: TextBackend>(&mut self, content: &T)
        requires
            caret_fits(old(self)@, content),
        ensures
            final(self)@ == caret_at(
                content,
                old(self)@.line,
                content.spec_num_chars_of_line(old(self)@.line),
            ),
            caret_fits(final(self)@, content),
    {
        self.x_idx = content.num_chars_of_line(self.y);
        self.update_x_px(content);
    }

    /// Places the caret at the character boundary nearest to the pixel
    /// `(x, y)`. A row below the last line counts as the last line.
    pub fn mouse_click<T: TextBackend>(&mut self, content: &T, x: usize, y: usize)
        requires
            content.spec_num_lines() > 0,
            content.spec_line_height() > 0,
        ensures
            final(self)@ == caret_clicked(content, x as nat, y as nat),
            caret_fits(final(self)@, content),
    {
        let row: usize = y / content.line_height();
        let lines: usize = content.num_lines();
        self.y = if row < lines {
            row
        } else {
            lines - 1
        };
        self.x_px = x;
        self.update_x_idx(content);
        self.update_x_px(content);
    }

    /// Resolves the character index from the remembered pixel position.
    fn update_x_idx<T: TextBackend>(&mut self, content: &T)
        requires
            old(self)@.line < content.spec_num_lines(),
        ensures
            final(self)@ == caret_resolved(old(self)@, content, old(self)@.line),
            caret_fits(final(self)@, content),
    {
        let current_line_len: usize = content.num_chars_of_line(self.y);
        proof {
            lemma_nearest_boundary_on_line(content, self.y as nat, self.x_px as nat, 0, 0);
        }
        let mut prev_width: usize = 0;
        let mut i: usize = 0;
        while i <= current_line_len
            invariant
                i <= current_line_len + 1,
                self.y < content.spec_num_lines(),
                current_line_len == content.spec_num_chars_of_line(self.y as nat),
                i == 0 ==> prev_width == 0,
                i > 0 ==> prev_width < self.x_px,
                nearest_boundary(content, self.y as nat, self.x_px as nat)
                    == nearest_boundary_from(
                    content,
                    self.y as nat,
                    self.x_px as nat,
                    i as nat,
                    prev_width as nat,
                ),
                self.y == old(self).y,
                self.x_px == old(self).x_px,
            decreases current_line_len + 1 - i,
        {
            let width: usize = content.width_of_line(self.y, i);
            if width >= self.x_px {
                let prev_diff: usize = self.x_px - prev_width;
                let curr_diff: usize = width - self.x_px;
                self.x_idx = if curr_diff < prev_diff || i == 0 {
                    i
                } else {
                    i - 1
                };
                return ;
            }
            prev_width = width;
            if i == usize::MAX {
                // The line's length is `usize::MAX`: no boundary is left to try.
                assert(nearest_boundary_from(
                    content,
                    self.y as nat,
                    self.x_px as nat,
                    (i + 1) as nat,
                    width as nat,
                ) == current_line_len);
                self.x_idx = current_line_len;
                return ;
            }
            i = i + 1;
        }
        self.x_idx = current_line_len;
    }

    /// Measures the pixel position from the character index.
    pub(crate) fn update_x_px<T: TextBackend>(&mut self, content: &T)
        requires
            caret_fits(old(self)@, content),
        ensures
            final(self)@ == caret_at(content, old(self)@.line, old(self)@.char_index),
            caret_fits(final(self)@, content),
    {
        self.x_px = content.width_of_line(self.y, self.x_idx);
    }
}

/// The count of characters before a line grows with the line.
pub proof fn lemma_chars_before_line_grows<T: TextBackend>(t: &T, a: nat, b: nat)
    requires
        a <= b,
    ensures
        chars_before_line(t, a) <= chars_before_line(t, b),
    decreases b - a,
{
    if a < b {
        lemma_chars_before_line_grows(t, a, (b - 1) as nat);
    }
}

} // verus!
