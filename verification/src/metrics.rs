//! The geometry of laid-out text, as the caret sees it.

use vstd::prelude::*;

verus! {

/// Line and width geometry of a text that is laid out line by line.
///
/// The four queries are pure: each returns what its `spec_` twin says, so two
/// calls with the same arguments agree.
pub trait TextBackend {
    /// Number of lines.
    spec fn spec_num_lines(&self) -> nat;

    /// Number of characters of line `y`, the line separator not counted.
    spec fn spec_num_chars_of_line(&self, y: nat) -> nat;

    /// Width in pixels of the first `x_max` characters of line `y`.
    spec fn spec_width_of_line(&self, y: nat, x_max: nat) -> nat;

    /// Height in pixels of every line.
    spec fn spec_line_height(&self) -> nat;

    fn num_lines(&self) -> (n: usize)
        ensures
            n == self.spec_num_lines(),
    ;

    fn num_chars_of_line(&self, y: usize) -> (n: usize)
        requires
            y < self.spec_num_lines(),
        ensures
            n == self.spec_num_chars_of_line(y as nat),
    ;

    /// `x_max` ranges over `0..=` the length of line `y`.
    fn width_of_line(&self, y: usize, x_max: usize) -> (w: usize)
        requires
            y < self.spec_num_lines(),
            x_max <= self.spec_num_chars_of_line(y as nat),
        ensures
            w == self.spec_width_of_line(y as nat, x_max as nat),
    ;

    fn line_height(&self) -> (h: usize)
        ensures
            h == self.spec_line_height(),
    ;
}

/// What every text geometry owes its users: an empty prefix has no width, and
/// a longer prefix of a line is never narrower than a shorter one.
pub open spec fn widths_lawful<T: TextBackend>(t: &T) -> bool {
    &&& forall|y: nat| y < t.spec_num_lines() ==> #[trigger] t.spec_width_of_line(y, 0) == 0
    &&& forall|y: nat, a: nat, b: nat|
        y < t.spec_num_lines() && a <= b <= t.spec_num_chars_of_line(y)
            ==> #[trigger] t.spec_width_of_line(y, a) <= #[trigger] t.spec_width_of_line(y, b)
}

/// Characters that precede line `y`, one separator counted after each line.
pub open spec fn chars_before_line<T: TextBackend>(t: &T, y: nat) -> nat
    decreases y,
{
    if y == 0 {
        0
    } else {
        chars_before_line(t, (y - 1) as nat) + t.spec_num_chars_of_line((y - 1) as nat) + 1
    }
}

/// Scans the character boundaries `i..=len` of line `y` for the one nearest to
/// the pixel `target`, given that every boundary before `i` lies left of
/// `target` and that boundary `i - 1` has width `prev`.
///
/// At the first boundary whose width reaches `target`, that boundary wins if
/// it is strictly nearer to `target` than the one before it, or if it is the
/// start of the line; otherwise the one before it wins. If no boundary
/// reaches `target`, the end of the line wins.
pub open spec fn nearest_boundary_from<T: TextBackend>(
    t: &T,
    y: nat,
    target: nat,
    i: nat,
    prev: nat,
) -> nat
    decreases t.spec_num_chars_of_line(y) + 1 - i,
{
    let len = t.spec_num_chars_of_line(y);
    if i > len {
        len
    } else {
        let width = t.spec_width_of_line(y, i);
        if width >= target {
            if width - target < target - prev || i == 0 {
                i
            } else {
                (i - 1) as nat
            }
        } else {
            nearest_boundary_from(t, y, target, i + 1, width)
        }
    }
}

/// The character boundary of line `y` that the pixel `target` resolves to.
pub open spec fn nearest_boundary<T: TextBackend>(t: &T, y: nat, target: nat) -> nat {
    nearest_boundary_from(t, y, target, 0, 0)
}

/// The resolved boundary lies on the line.
pub proof fn lemma_nearest_boundary_on_line<T: TextBackend>(
    t: &T,
    y: nat,
    target: nat,
    i: nat,
    prev: nat,
)
    requires
        i <= t.spec_num_chars_of_line(y) + 1,
    ensures
        nearest_boundary_from(t, y, target, i, prev) <= t.spec_num_chars_of_line(y),
    decreases t.spec_num_chars_of_line(y) + 1 - i,
{
    let len = t.spec_num_chars_of_line(y);
    if i <= len && t.spec_width_of_line(y, i) < target {
        lemma_nearest_boundary_on_line(t, y, target, i + 1, t.spec_width_of_line(y, i));
    }
}

} // verus!
