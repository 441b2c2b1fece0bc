//! Texts as sequences of characters, and their division into lines.
//!
//! A text is divided at every `'\n'`. A text without `'\n'` is one line; a
//! text that ends in `'\n'` has an empty last line.

use vstd::prelude::*;

verus! {

/// The line separator.
pub open spec fn is_newline(c: char) -> bool {
    c == '\n'
}

/// No character of `s` is a line separator.
pub open spec fn newline_free(s: Seq<char>) -> bool {
    forall|i: int| 0 <= i < s.len() ==> !is_newline(#[trigger] s[i])
}

/// Every line of `lines` is free of line separators.
pub open spec fn all_newline_free(lines: Seq<Seq<char>>) -> bool {
    forall|y: int| 0 <= y < lines.len() ==> newline_free(#[trigger] lines[y])
}

/// Number of line separators in `s`.
pub open spec fn newline_count(s: Seq<char>) -> nat
    decreases s.len(),
{
    if s.len() == 0 {
        0
    } else {
        newline_count(s.drop_last()) + if is_newline(s.last()) {
            1nat
        } else {
            0nat
        }
    }
}

/// The lines of `s`, without their separators. There is always at least one.
pub open spec fn split_lines(s: Seq<char>) -> Seq<Seq<char>>
    decreases s.len(),
{
    if s.len() == 0 {
        seq![Seq::<char>::empty()]
    } else {
        let before = split_lines(s.drop_last());
        if is_newline(s.last()) {
            before.push(Seq::<char>::empty())
        } else {
            before.drop_last().push(before.last().push(s.last()))
        }
    }
}

/// The lines joined again, with one separator between neighbours.
pub open spec fn join_lines(lines: Seq<Seq<char>>) -> Seq<char>
    decreases lines.len(),
{
    if lines.len() == 0 {
        Seq::<char>::empty()
    } else if lines.len() == 1 {
        lines[0]
    } else {
        join_lines(lines.drop_last()) + seq!['\n'] + lines.last()
    }
}

/// The lines of `s` with their separators kept: every line but the last ends
/// in `'\n'`, and an empty last line is left out.
pub open spec fn ended_lines(s: Seq<char>) -> Seq<Seq<char>> {
    let lines = split_lines(s);
    let ended = newline_count(s);
    Seq::new(
        if lines.last().len() > 0 {
            ended + 1
        } else {
            ended
        },
        |y: int|
            if y < ended {
                lines[y].push('\n')
            } else {
                lines[y]
            },
    )
}

/// `s` without its line separators.
pub open spec fn without_newlines(s: Seq<char>) -> Seq<char> {
    s.filter(|c: char| !is_newline(c))
}

/// Offset in the joined text at which line `y` starts.
pub open spec fn line_start(lines: Seq<Seq<char>>, y: nat) -> nat
    decreases y,
{
    if y == 0 {
        0
    } else {
        line_start(lines, (y - 1) as nat) + lines[y - 1].len() + 1
    }
}

/// `s` with the characters from `from` up to `to` replaced by `with`. Both
/// offsets are held to the length of `s`, and `to` is not taken below `from`.
pub open spec fn replaced(s: Seq<char>, from: nat, to: nat, with: Seq<char>) -> Seq<char> {
    let start = if from <= s.len() {
        from
    } else {
        s.len()
    };
    let stop = if to <= s.len() {
        to
    } else {
        s.len()
    };
    let end = if stop < start {
        start
    } else {
        stop
    };
    s.subrange(0, start as int) + with + s.subrange(end as int, s.len() as int)
}

/// A text has one line more than it has separators, and no line holds one.
pub proof fn lemma_split_lines_shape(s: Seq<char>)
    ensures
        split_lines(s).len() == newline_count(s) + 1,
        all_newline_free(split_lines(s)),
    decreases s.len(),
{
    if s.len() > 0 {
        lemma_split_lines_shape(s.drop_last());
        let before = split_lines(s.drop_last());
        if !is_newline(s.last()) {
            let after = split_lines(s);
            assert forall|y: int| 0 <= y < after.len() implies newline_free(#[trigger] after[y]) by {
                if y < after.len() - 1 {
                    assert(after[y] == before[y]);
                }
            }
        } else {
            let after = split_lines(s);
            assert forall|y: int| 0 <= y < after.len() implies newline_free(#[trigger] after[y]) by {
                if y < after.len() - 1 {
                    assert(after[y] == before[y]);
                }
            }
        }
    }
}

/// A text without separators is its own single line.
pub proof fn lemma_split_single_line(s: Seq<char>)
    requires
        newline_free(s),
    ensures
        split_lines(s) == seq![s],
    decreases s.len(),
{
    if s.len() > 0 {
        lemma_split_single_line(s.drop_last());
        assert(!is_newline(s[s.len() - 1]));
        assert(s.drop_last().push(s.last()) == s);
        let before = split_lines(s.drop_last());
        assert(before.drop_last() =~= Seq::<Seq<char>>::empty());
        assert(split_lines(s) =~= seq![s]);
    } else {
        assert(s =~= Seq::<char>::empty());
    }
}

/// The lines of two texts set end to end: the last line of the first and the
/// first line of the second become one line.
pub proof fn lemma_split_concat(a: Seq<char>, b: Seq<char>)
    ensures
        split_lines(a + b) == split_lines(a).drop_last().push(
            split_lines(a).last() + split_lines(b)[0],
        ) + split_lines(b).skip(1),
    decreases b.len(),
{
    let la = split_lines(a);
    let lb = split_lines(b);
    lemma_split_lines_shape(a);
    lemma_split_lines_shape(b);
    if b.len() == 0 {
        assert(a + b == a);
        assert(la.last() + lb[0] == la.last());
        assert(la.drop_last().push(la.last()) + lb.skip(1) =~= la);
    } else {
        let b0 = b.drop_last();
        let lb0 = split_lines(b0);
        lemma_split_concat(a, b0);
        lemma_split_lines_shape(b0);
        lemma_split_lines_shape(a + b0);
        assert((a + b).drop_last() == a + b0);
        assert((a + b).last() == b.last());
        let before = split_lines(a + b0);
        let joined = la.drop_last().push(la.last() + lb[0]) + lb.skip(1);
        if is_newline(b.last()) {
            assert(split_lines(a + b) =~= joined);
        } else {
            if lb0.len() == 1 {
                assert(la.last() + lb0[0].push(b.last()) == (la.last() + lb0[0]).push(b.last()));
                assert(split_lines(a + b) =~= joined);
            } else {
                assert(split_lines(a + b) =~= joined);
            }
        }
    }
}

/// Splitting and joining again gives the text back.
pub proof fn lemma_join_split(s: Seq<char>)
    ensures
        join_lines(split_lines(s)) == s,
    decreases s.len(),
{
    if s.len() == 0 {
    } else {
        lemma_join_split(s.drop_last());
        lemma_split_lines_shape(s.drop_last());
        let before = split_lines(s.drop_last());
        let after = split_lines(s);
        assert(s.drop_last().push(s.last()) == s);
        if is_newline(s.last()) {
            assert(after.drop_last() == before);
            assert(join_lines(after) == join_lines(before) + seq!['\n'] + Seq::<char>::empty());
            assert(join_lines(after) =~= s);
        } else {
            if before.len() == 1 {
                assert(join_lines(after) =~= s);
            } else {
                assert(after.drop_last() == before.drop_last());
                assert(join_lines(before) == join_lines(before.drop_last()) + seq!['\n']
                    + before.last());
                assert(join_lines(after) =~= s);
            }
        }
    }
}

/// Joining lines that hold no separator and splitting again gives the lines
/// back.
pub proof fn lemma_split_join(lines: Seq<Seq<char>>)
    requires
        lines.len() > 0,
        all_newline_free(lines),
    ensures
        split_lines(join_lines(lines)) == lines,
    decreases lines.len(),
{
    if lines.len() == 1 {
        lemma_split_single_line(lines[0]);
        assert(seq![lines[0]] =~= lines);
    } else {
        let head = lines.drop_last();
        assert forall|y: int| 0 <= y < head.len() implies newline_free(#[trigger] head[y]) by {
            assert(head[y] == lines[y]);
        }
        lemma_split_join(head);
        let sep = seq!['\n'];
        assert(sep.drop_last() =~= Seq::<char>::empty());
        assert(split_lines(sep.drop_last()) =~= seq![Seq::<char>::empty()]);
        assert(split_lines(sep) =~= seq![Seq::<char>::empty(), Seq::<char>::empty()]);
        lemma_split_single_line(lines.last());
        lemma_split_concat(join_lines(head), sep);
        lemma_split_concat(join_lines(head) + sep, lines.last());
        assert(split_lines(join_lines(lines)) =~= lines);
    }
}

/// Where a line starts does not depend on the lines that follow it.
pub proof fn lemma_line_start_of_prefix(lines: Seq<Seq<char>>, n: nat, y: nat)
    requires
        y <= n <= lines.len(),
    ensures
        line_start(lines.take(n as int), y) == line_start(lines, y),
    decreases y,
{
    if y > 0 {
        lemma_line_start_of_prefix(lines, n, (y - 1) as nat);
    }
}

/// Later lines start later.
pub proof fn lemma_line_start_grows(lines: Seq<Seq<char>>, a: nat, b: nat)
    requires
        a <= b,
    ensures
        line_start(lines, a) <= line_start(lines, b),
        a < b ==> line_start(lines, a) + lines[a as int].len() < line_start(lines, b),
    decreases b - a,
{
    if a < b {
        lemma_line_start_grows(lines, a, (b - 1) as nat);
    }
}

/// The joined text ends where its last line ends.
pub proof fn lemma_join_len(lines: Seq<Seq<char>>)
    requires
        lines.len() > 0,
    ensures
        join_lines(lines).len() == line_start(lines, (lines.len() - 1) as nat) + lines.last().len(),
    decreases lines.len(),
{
    if lines.len() > 1 {
        let head = lines.drop_last();
        lemma_join_len(head);
        assert(head =~= lines.take(lines.len() - 1));
        lemma_line_start_of_prefix(lines, (lines.len() - 1) as nat, (lines.len() - 2) as nat);
    }
}

/// Every line of a text lies inside the text.
pub proof fn lemma_line_in_text(s: Seq<char>, y: nat)
    requires
        y < split_lines(s).len(),
    ensures
        line_start(split_lines(s), y) + split_lines(s)[y as int].len() <= s.len(),
{
    let lines = split_lines(s);
    lemma_join_split(s);
    lemma_join_len(lines);
    lemma_line_start_grows(lines, y, (lines.len() - 1) as nat);
}

/// Where a line starts depends only on the lines before it.
pub proof fn lemma_line_start_same(a: Seq<Seq<char>>, b: Seq<Seq<char>>, y: nat)
    requires
        y <= a.len(),
        y <= b.len(),
        a.take(y as int) == b.take(y as int),
    ensures
        line_start(a, y) == line_start(b, y),
{
    lemma_line_start_of_prefix(a, y, y);
    lemma_line_start_of_prefix(b, y, y);
}

/// Joining two lists of lines whose inner ends are the two halves of one
/// line gives the text of the list with that line whole.
pub proof fn lemma_join_halves(
    before: Seq<Seq<char>>,
    left: Seq<char>,
    right: Seq<char>,
    after: Seq<Seq<char>>,
)
    ensures
        join_lines(before.push(left)) + join_lines(seq![right] + after) == join_lines(
            before.push(left + right) + after,
        ),
    decreases after.len(),
{
    if after.len() == 0 {
        assert(seq![right] + after =~= seq![right]);
        assert(before.push(left + right) + after =~= before.push(left + right));
        if before.len() == 0 {
            assert(join_lines(before.push(left)) + right =~= left + right);
        } else {
            assert(before.push(left).drop_last() =~= before);
            assert(before.push(left + right).drop_last() =~= before);
            assert(join_lines(before.push(left)) + right =~= join_lines(before) + seq!['\n'] + (left
                + right));
        }
    } else {
        let fewer = after.drop_last();
        lemma_join_halves(before, left, right, fewer);
        assert((seq![right] + after).drop_last() =~= seq![right] + fewer);
        assert((before.push(left + right) + after).drop_last() =~= before.push(left + right)
            + fewer);
        assert(join_lines(before.push(left)) + (join_lines(seq![right] + fewer) + seq!['\n']
            + after.last()) =~= (join_lines(before.push(left)) + join_lines(seq![right] + fewer))
            + seq!['\n'] + after.last());
    }
}

/// Cutting a text at a place on one of its lines cuts that line in two and
/// leaves the other lines whole.
pub proof fn lemma_split_at_place(s: Seq<char>, y: nat, x: nat)
    requires
        y < split_lines(s).len(),
        x <= split_lines(s)[y as int].len(),
    ensures
        line_start(split_lines(s), y) + x <= s.len(),
        split_lines(s.take((line_start(split_lines(s), y) + x) as int)) == split_lines(s).take(
            y as int,
        ).push(split_lines(s)[y as int].take(x as int)),
        split_lines(s.skip((line_start(split_lines(s), y) + x) as int)) == seq![
            split_lines(s)[y as int].skip(x as int),
        ] + split_lines(s).skip(y as int + 1),
{
    let lines = split_lines(s);
    let at = line_start(lines, y) + x;
    let left = lines[y as int].take(x as int);
    let right = lines[y as int].skip(x as int);
    let upper = lines.take(y as int).push(left);
    let lower = seq![right] + lines.skip(y as int + 1);
    lemma_split_lines_shape(s);
    lemma_join_split(s);
    lemma_line_in_text(s, y);
    assert(left + right =~= lines[y as int]);
    assert(lines.take(y as int).push(left + right) + lines.skip(y as int + 1) =~= lines);
    lemma_join_halves(lines.take(y as int), left, right, lines.skip(y as int + 1));
    assert(join_lines(upper) + join_lines(lower) == s);
    lemma_join_len(upper);
    assert(upper.take(y as int) =~= lines.take(y as int));
    lemma_line_start_same(upper, lines, y);
    assert(join_lines(upper).len() == at);
    assert(s.take(at as int) =~= join_lines(upper));
    assert(s.skip(at as int) =~= join_lines(lower));
    assert forall|i: int| 0 <= i < upper.len() implies newline_free(#[trigger] upper[i]) by {
        if i < y {
            assert(upper[i] == lines[i]);
        } else {
            assert(newline_free(lines[y as int]));
            assert forall|j: int| 0 <= j < left.len() implies !is_newline(#[trigger] left[j]) by {
                assert(left[j] == lines[y as int][j]);
            }
        }
    }
    assert forall|i: int| 0 <= i < lower.len() implies newline_free(#[trigger] lower[i]) by {
        if i > 0 {
            assert(lower[i] == lines[y + i]);
        } else {
            assert(newline_free(lines[y as int]));
            assert forall|j: int| 0 <= j < right.len() implies !is_newline(#[trigger] right[j]) by {
                assert(right[j] == lines[y as int][x + j]);
            }
        }
    }
    lemma_split_join(upper);
    lemma_split_join(lower);
}

/// A text that is changed from a place on: the lines before the place stay,
/// the line of the place keeps what lies left of the place, and the rest are
/// the lines of what follows.
pub proof fn lemma_split_from_place(s: Seq<char>, y: nat, x: nat, tail: Seq<char>)
    requires
        y < split_lines(s).len(),
        x <= split_lines(s)[y as int].len(),
    ensures
        line_start(split_lines(s), y) + x <= s.len(),
        split_lines(s.take((line_start(split_lines(s), y) + x) as int) + tail) == split_lines(
            s,
        ).take(y as int).push(split_lines(s)[y as int].take(x as int) + split_lines(tail)[0])
            + split_lines(tail).skip(1),
{
    let lines = split_lines(s);
    let at = line_start(lines, y) + x;
    lemma_split_at_place(s, y, x);
    lemma_split_concat(s.take(at as int), tail);
    let upper = lines.take(y as int).push(lines[y as int].take(x as int));
    assert(upper.drop_last() =~= lines.take(y as int));
}

/// Two places of a text that lie at the same offset are the same place.
pub proof fn lemma_place_of_offset(lines: Seq<Seq<char>>, y1: nat, x1: nat, y2: nat, x2: nat)
    requires
        x1 <= lines[y1 as int].len(),
        x2 <= lines[y2 as int].len(),
        line_start(lines, y1) + x1 == line_start(lines, y2) + x2,
    ensures
        y1 == y2,
        x1 == x2,
{
    if y1 < y2 {
        lemma_line_start_grows(lines, y1, y2);
    } else if y2 < y1 {
        lemma_line_start_grows(lines, y2, y1);
    }
}

/// The lines of a text that starts with the character `c`: a separator makes
/// an empty first line, any other character starts the first line.
pub proof fn lemma_split_after_char(c: char, rest: Seq<char>)
    ensures
        is_newline(c) ==> split_lines(seq![c] + rest) == seq![Seq::<char>::empty()] + split_lines(
            rest,
        ),
        !is_newline(c) ==> split_lines(seq![c] + rest).len() == split_lines(rest).len()
            && split_lines(seq![c] + rest)[0] == seq![c] + split_lines(rest)[0],
{
    let one = seq![c];
    lemma_split_concat(one, rest);
    lemma_split_lines_shape(rest);
    assert(one.drop_last() =~= Seq::<char>::empty());
    assert(split_lines(one.drop_last()) =~= seq![Seq::<char>::empty()]);
    if is_newline(c) {
        assert(split_lines(one) =~= seq![Seq::<char>::empty(), Seq::<char>::empty()]);
        assert(Seq::<char>::empty() + split_lines(rest)[0] =~= split_lines(rest)[0]);
        assert(split_lines(one + rest) =~= seq![Seq::<char>::empty()] + split_lines(rest));
    } else {
        assert(split_lines(one) =~= seq![one]);
    }
}

} // verus!
