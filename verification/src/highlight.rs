//! From text to styled regions.
//!
//! The tokenizer cuts every line into spans and tells the operations on the
//! stack of scopes that the line brings. Each span becomes a region: in the
//! colours that the theme gives it, and in the font of the deepest scope in
//! force where the span begins. What the tokenizer hands back is checked
//! before it is relied on.

use vstd::prelude::*;
use vstd::string::StringExecFns;
use vstd::string::StringSliceAdditionalSpecFns;
use vstd::utf8::encode_utf8;
use crate::engine::resolved_name;
use crate::content::lines_view;
use syntect::highlighting::HighlightState;
use syntect::highlighting::Highlighter;
use syntect::parsing::ParseState;
use syntect::parsing::ScopeStack;
use syntect::parsing::SyntaxSet;
use syntect::parsing::ScopeStackOp;
use crate::chars::chars_of;
use crate::chars::string_of;
use crate::content::RichContentOptions;
use crate::engine::Engine;
use crate::region::build_region;
use crate::region::line_text;
use crate::region::region_of;
use crate::region::regions_view;
use crate::region::styled_as_token;
use crate::region::Region;
use crate::region::RegionView;
use crate::style::Color;
use crate::style::FontSelection;
use crate::style::HighlightError;
use crate::style::Style;
use crate::text::ended_lines;
use crate::text::is_newline;
use crate::text::lemma_split_lines_shape;
use crate::text::newline_count;
use crate::text::newline_free;
use crate::text::split_lines;
use crate::text::without_newlines;
use crate::tokenizer::apply_op;
use crate::tokenizer::empty_stack;
use crate::tokenizer::fresh_highlighter;
use crate::tokenizer::fresh_parser;
use crate::tokenizer::fresh_styles;
use crate::tokenizer::lines_with_endings;
use crate::tokenizer::model_after;
use crate::tokenizer::models_after;
use crate::tokenizer::op_applies;
use crate::tokenizer::op_fits;
use crate::tokenizer::op_kind;
use crate::tokenizer::op_model;
use crate::tokenizer::op_models;
use crate::tokenizer::ops_fit;
use crate::tokenizer::parse_line;
use crate::tokenizer::parsed;
use crate::tokenizer::parser_of;
use crate::tokenizer::set_sound;
use crate::tokenizer::path_model;
use crate::tokenizer::position_fits;
use crate::tokenizer::positions_fit;
use crate::tokenizer::spans_text;
use crate::tokenizer::spans_view;
use crate::tokenizer::stack_model;
use crate::tokenizer::start_scopes;
use crate::tokenizer::start_styles;
use crate::tokenizer::styled;
use crate::tokenizer::styled_spans;
use crate::tokenizer::top_scope_name;
use crate::tokenizer::OpKind;
use crate::tokenizer::ScopeOp;
use crate::tokenizer::StackModel;
use crate::tokenizer::DEPTH_LIMIT;

verus! {

/// The sixteen hexadecimal digits, lower case.
pub open spec fn hex_digits() -> Seq<char> {
    seq!['0', '1', '2', '3', '4', '5', '6', '7', '8', '9', 'a', 'b', 'c', 'd', 'e', 'f']
}

/// A byte as two hexadecimal digits.
pub open spec fn hex_byte(v: u8) -> Seq<char> {
    seq![hex_digits()[v as int / 16], hex_digits()[v as int % 16]]
}

/// A colour as `#rrggbbaa`.
pub open spec fn html_color(c: Color) -> Seq<char> {
    seq!['#'] + hex_byte(c.r) + hex_byte(c.g) + hex_byte(c.b) + hex_byte(c.a)
}

/// The declarations of foreground and background colour.
pub open spec fn color_css(style: Style) -> Seq<char> {
    "color: "@ + html_color(style.foreground) + "; background-color: "@ + html_color(
        style.background,
    ) + "; "@
}

/// `prefix` is how `s` starts.
pub open spec fn starts_with(s: Seq<char>, prefix: Seq<char>) -> bool {
    prefix.is_prefix_of(s)
}

/// Scopes of prose-like tokens are shown in the proportional family:
/// comments, strings, constants other than character escapes, entities,
/// variables, generic names and support names.
pub open spec fn proportional_scope(s: Seq<char>) -> bool {
    ||| starts_with(s, "comment"@)
    ||| starts_with(s, "string"@)
    ||| (starts_with(s, "constant"@) && !starts_with(s, "constant.character.escape"@))
    ||| starts_with(s, "entity"@)
    ||| starts_with(s, "variable"@)
    ||| starts_with(s, "meta.generic-name"@)
    ||| starts_with(s, "support"@)
}

/// The monospaced font family.
pub open spec fn mono_family() -> Seq<char> {
    "\"Fira Code\", monospace"@
}

/// The proportional font family.
pub open spec fn sans_family() -> Seq<char> {
    "\"Fira\", sans-serif"@
}

/// The family that a token of scope `scope` is shown in.
pub open spec fn font_family(scope: Seq<char>, font: FontSelection) -> Seq<char> {
    match font {
        FontSelection::Monospace => mono_family(),
        FontSelection::Sans => sans_family(),
        FontSelection::Mixed => if proportional_scope(scope) {
            sans_family()
        } else {
            mono_family()
        },
    }
}

/// The declarations of font family and font size.
pub open spec fn font_css(scope: Seq<char>, font: FontSelection) -> Seq<char> {
    "font-family: "@ + font_family(scope, font) + "; font-size: 15px;"@
}

/// The name of the font class of a scope.
pub open spec fn font_class(scope: Seq<char>) -> Seq<char> {
    if proportional_scope(scope) {
        "Sans"@
    } else {
        "Monospace"@
    }
}

/// The tooltip of a token: its scope and, in brackets, its font class.
pub open spec fn tooltip_of(scope: Seq<char>) -> Seq<char> {
    scope + " ("@ + font_class(scope) + ")"@
}

fn hex_digit(n: u8) -> (c: char)
    requires
        n < 16,
    ensures
        c == hex_digits()[n as int],
{
    match n {
        0 => '0',
        1 => '1',
        2 => '2',
        3 => '3',
        4 => '4',
        5 => '5',
        6 => '6',
        7 => '7',
        8 => '8',
        9 => '9',
        10 => 'a',
        11 => 'b',
        12 => 'c',
        13 => 'd',
        14 => 'e',
        _ => 'f',
    }
}

fn push_hex_byte(out: &mut Vec<char>, v: u8)
    ensures
        final(out)@ == old(out)@ + hex_byte(v),
{
    out.push(hex_digit(v / 16));
    out.push(hex_digit(v % 16));
    assert(out@ =~= old(out)@ + hex_byte(v));
}

/// Writes a colour as `#rrggbbaa`, in lower-case hexadecimal digits.
pub fn to_html_color(c: &Color) -> (s: String)
    ensures
        s@ == html_color(*c),
{
    let mut out: Vec<char> = Vec::new();
    out.push('#');
    assert(out@ =~= seq!['#']);
    push_hex_byte(&mut out, c.r);
    push_hex_byte(&mut out, c.g);
    push_hex_byte(&mut out, c.b);
    push_hex_byte(&mut out, c.a);
    string_of(&out)
}

/// Writes the colour declarations of a style.
pub fn style_to_css(sty: &Style) -> (s: String)
    ensures
        s@ == color_css(*sty),
{
    let mut out = String::from_str("color: ");
    out.append(to_html_color(&sty.foreground).as_str());
    out.append("; background-color: ");
    out.append(to_html_color(&sty.background).as_str());
    out.append("; ");
    out
}

/// Whether the characters `s` start with the characters of `prefix`.
fn has_prefix(s: &Vec<char>, prefix: &str) -> (b: bool)
    ensures
        b == starts_with(s@, prefix@),
{
    let p = chars_of(prefix);
    if p.len() > s.len() {
        return false;
    }
    let mut i: usize = 0;
    while i < p.len()
        invariant
            i <= p.len() <= s.len(),
            p@ == prefix@,
            forall|j: int| 0 <= j < i ==> s@[j] == p@[j],
        decreases p.len() - i,
    {
        if s[i] != p[i] {
            assert(s@.subrange(0, p@.len() as int)[i as int] != p@[i as int]);
            return false;
        }
        i = i + 1;
    }
    assert(s@.subrange(0, p@.len() as int) =~= p@);
    true
}

/// Whether tokens of this scope are shown in the proportional font.
pub fn scope_is_proportional(s: &str) -> (b: bool)
    ensures
        b == proportional_scope(s@),
{
    let c = chars_of(s);
    has_prefix(&c, "comment") || has_prefix(&c, "string") || has_prefix(&c, "constant")
        && !has_prefix(&c, "constant.character.escape") || has_prefix(&c, "entity") || has_prefix(
        &c,
        "variable",
    ) || has_prefix(&c, "meta.generic-name") || has_prefix(&c, "support")
}

/// Writes the font declarations for a token of scope `s`.
pub fn font_for_scope(s: &str, font_selection: &FontSelection) -> (css: String)
    ensures
        css@ == font_css(s@, *font_selection),
{
    let mono = "\"Fira Code\", monospace";
    let sans = "\"Fira\", sans-serif";
    let f = match font_selection {
        FontSelection::Monospace => mono,
        FontSelection::Sans => sans,
        FontSelection::Mixed => {
            if scope_is_proportional(s) {
                sans
            } else {
                mono
            }
        },
    };
    let mut out = String::from_str("font-family: ");
    out.append(f);
    out.append("; font-size: 15px;");
    out
}

/// Writes the tooltip of a token of scope `scope`.
pub fn tooltip_for_scope(scope: &str) -> (tip: String)
    ensures
        tip@ == tooltip_of(scope@),
{
    let mut out = String::from_str(scope);
    out.append(" (");
    out.append(
        if scope_is_proportional(scope) {
            "Sans"
        } else {
            "Monospace"
        },
    );
    out.append(")");
    out
}

/// What highlighting owes for a text, whatever the tokenizer gives: one line
/// of regions for each line of the text that is not an empty last line; the
/// texts of a line's regions make up that line, without its separator; and
/// every region is styled as a token is.
pub open spec fn highlighted(lines: Seq<Vec<Region>>, text: Seq<char>, font: FontSelection)
    -> bool {
    &&& lines.len() == ended_lines(text).len()
    &&& forall|y: int|
        0 <= y < lines.len() ==> line_text(regions_view(#[trigger] lines[y]@)) == split_lines(
            text,
        )[y]
    &&& forall|y: int, x: int|
        0 <= y < lines.len() && 0 <= x < lines[y].len() ==> styled_as_token(
            #[trigger] lines[y][x]@,
            font,
        )
}

/// The name of the scope on top of the stack; the empty name for a stack
/// without scopes.
pub open spec fn top_scope(m: StackModel) -> Seq<char> {
    if m.scopes.len() > 0 {
        m.scopes.last()
    } else {
        Seq::<char>::empty()
    }
}

/// The scopes noted for a line from its operation `k` on, `start` being the
/// position of the last note and `m` the stack before operation `k`: wherever
/// an operation applies further right than the last note, the scope on top
/// of the stack before it is noted; and once more at the end, if the line,
/// `end` bytes long, goes on after the last note.
pub open spec fn marks_from(
    ops: Seq<(usize, ScopeStackOp)>,
    k: int,
    start: int,
    m: StackModel,
    end: int,
) -> Seq<Seq<char>>
    decreases ops.len() - k,
{
    if k >= ops.len() {
        if end > start {
            seq![top_scope(m)]
        } else {
            Seq::<Seq<char>>::empty()
        }
    } else {
        let next = model_after(m, op_model(ops[k].1));
        if ops[k].0 > start {
            seq![top_scope(m)] + marks_from(ops, k + 1, ops[k].0 as int, next, end)
        } else {
            marks_from(ops, k + 1, start, next, end)
        }
    }
}

/// The scope in force at every place of a line where a span begins, the
/// stack being `m` before the line.
pub open spec fn scope_marks(ops: Seq<(usize, ScopeStackOp)>, m: StackModel, line: Seq<char>)
    -> Seq<Seq<char>> {
    marks_from(ops, 0, 0, m, encode_utf8(line).len() as int)
}

/// The operations of a line can be relied on, the stack being `m` before the
/// line: their positions fit the line, and each of them fits the stack that
/// the ones before it leave.
pub open spec fn ops_usable(ops: Seq<(usize, ScopeStackOp)>, line: Seq<char>, m: StackModel)
    -> bool {
    positions_fit(ops, line) && ops_fit(m, op_models(ops))
}

/// The regions of a line: one for each span, with the scope of the same
/// place.
pub open spec fn line_regions(
    spans: Seq<(Style, Seq<char>)>,
    scopes: Seq<Seq<char>>,
    font: FontSelection,
) -> Seq<RegionView> {
    Seq::new(spans.len(), |j: int| region_of(spans[j].1, spans[j].0, scopes[j], font))
}

/// Where the tokenizer stands between two lines.
pub struct Tokens {
    /// The state of the parser.
    pub parser: ParseState,
    /// The state of the highlighter.
    pub styles: HighlightState,
    /// The stack of scopes.
    pub stack: StackModel,
}

/// The tokenizer keeps its contract on a line: the operations that the parser
/// gives can be relied on, and the highlighter cuts the line into as many
/// spans as scopes are noted for it.
pub open spec fn line_usable(t: Tokens, line: Seq<char>, set: SyntaxSet, h: Highlighter<'_>)
    -> bool {
    let ops = parsed(t.parser, line, set).0;
    &&& ops_usable(ops, line, t.stack)
    &&& styled(t.styles, ops, line, h).0.len() == scope_marks(ops, t.stack, line).len()
}

/// The regions of a line: its spans, as the highlighter cuts and colours
/// them, each with the deepest scope in force where it begins.
pub open spec fn regions_of_line(
    t: Tokens,
    line: Seq<char>,
    set: SyntaxSet,
    h: Highlighter<'_>,
    font: FontSelection,
) -> Seq<RegionView> {
    let ops = parsed(t.parser, line, set).0;
    line_regions(styled(t.styles, ops, line, h).0, scope_marks(ops, t.stack, line), font)
}

/// Where the tokenizer stands after a line.
pub open spec fn tokens_after(t: Tokens, line: Seq<char>, set: SyntaxSet, h: Highlighter<'_>)
    -> Tokens {
    let ops = parsed(t.parser, line, set).0;
    Tokens {
        parser: parsed(t.parser, line, set).1,
        styles: styled(t.styles, ops, line, h).1,
        stack: models_after(t.stack, op_models(ops)),
    }
}

/// Where the tokenizer stands after the first `n` of the lines.
pub open spec fn tokens_at(
    t: Tokens,
    lines: Seq<Seq<char>>,
    n: nat,
    set: SyntaxSet,
    h: Highlighter<'_>,
) -> Tokens
    decreases n,
{
    if n == 0 {
        t
    } else {
        tokens_after(tokens_at(t, lines, (n - 1) as nat, set, h), lines[n - 1], set, h)
    }
}

/// The tokenizer keeps its contract on each of the first `n` of the lines.
pub open spec fn usable_through(
    t: Tokens,
    lines: Seq<Seq<char>>,
    n: nat,
    set: SyntaxSet,
    h: Highlighter<'_>,
) -> bool
    decreases n,
{
    n == 0 || (usable_through(t, lines, (n - 1) as nat, set, h) && line_usable(
        tokens_at(t, lines, (n - 1) as nat, set, h),
        lines[n - 1],
        set,
        h,
    ))
}

/// The highlighter of an engine for the theme that stands for `theme`.
pub closed spec fn highlighter_of(engine: &Engine, theme: Seq<char>) -> Highlighter<'static> {
    fresh_highlighter(engine.themes, resolved_name(engine.themes(), theme))
}

/// Where the tokenizer of an engine stands before the first line, for the
/// syntax and the theme that stand for `syntax` and `theme`.
pub closed spec fn tokens_at_start(engine: &Engine, syntax: Seq<char>, theme: Seq<char>) -> Tokens {
    Tokens {
        parser: fresh_parser(engine.syntaxes, resolved_name(engine.syntaxes(), syntax)),
        styles: fresh_styles(highlighter_of(engine, theme)),
        stack: empty_stack(),
    }
}

/// The tokenizer keeps its contract on every line of the text: see
/// [`line_usable`].
pub closed spec fn tokens_usable(
    engine: &Engine,
    syntax: Seq<char>,
    theme: Seq<char>,
    text: Seq<char>,
) -> bool {
    usable_through(
        tokens_at_start(engine, syntax, theme),
        ended_lines(text),
        ended_lines(text).len(),
        engine.syntaxes,
        highlighter_of(engine, theme),
    )
}

/// The regions of every line of the text that is not an empty last line: see
/// [`regions_of_line`].
pub closed spec fn regions_of_text(
    engine: &Engine,
    syntax: Seq<char>,
    theme: Seq<char>,
    font: FontSelection,
    text: Seq<char>,
) -> Seq<Seq<RegionView>> {
    Seq::new(
        ended_lines(text).len(),
        |y: int|
            regions_of_line(
                tokens_at(
                    tokens_at_start(engine, syntax, theme),
                    ended_lines(text),
                    y as nat,
                    engine.syntaxes,
                    highlighter_of(engine, theme),
                ),
                ended_lines(text)[y],
                engine.syntaxes,
                highlighter_of(engine, theme),
                font,
            ),
    )
}

/// The regions of a text are those of its lines that are not an empty last
/// line.
pub proof fn lemma_regions_of_lines(
    engine: &Engine,
    syntax: Seq<char>,
    theme: Seq<char>,
    font: FontSelection,
    text: Seq<char>,
)
    ensures
        regions_of_text(engine, syntax, theme, font, text).len() == ended_lines(text).len(),
{
}

/// An empty text has no line to tokenize.
pub proof fn lemma_empty_text_usable(engine: &Engine, syntax: Seq<char>, theme: Seq<char>)
    ensures
        tokens_usable(engine, syntax, theme, Seq::<char>::empty()),
{
}

/// Where the tokenizer keeps its contract on the first `n` lines, it keeps it
/// on each of them.
proof fn lemma_usable_line(
    t: Tokens,
    lines: Seq<Seq<char>>,
    n: nat,
    k: nat,
    set: SyntaxSet,
    h: Highlighter<'_>,
)
    requires
        usable_through(t, lines, n, set, h),
        k < n,
    ensures
        usable_through(t, lines, k, set, h),
        line_usable(tokens_at(t, lines, k, set, h), lines[k as int], set, h),
    decreases n,
{
    if k + 1 < n {
        lemma_usable_line(t, lines, (n - 1) as nat, k, set, h);
    }
}

/// A text without separators loses nothing when they are taken out.
pub proof fn lemma_without_newlines_keeps(s: Seq<char>)
    requires
        newline_free(s),
    ensures
        without_newlines(s) == s,
    decreases s.len(),
{
    reveal_with_fuel(Seq::filter, 1);
    if s.len() > 0 {
        lemma_without_newlines_keeps(s.drop_last());
        assert(!is_newline(s[s.len() - 1]));
        assert(s.drop_last().push(s.last()) =~= s);
    } else {
        assert(without_newlines(s) =~= s);
    }
}

/// A line with its separator, the separator taken out, is the line.
pub proof fn lemma_ended_line_stripped(text: Seq<char>, y: int)
    requires
        0 <= y < ended_lines(text).len(),
    ensures
        y < split_lines(text).len(),
        without_newlines(ended_lines(text)[y]) == split_lines(text)[y],
{
    lemma_split_lines_shape(text);
    let line = split_lines(text)[y];
    lemma_without_newlines_keeps(line);
    if y < newline_count(text) {
        reveal_with_fuel(Seq::filter, 1);
        assert(line.push('\n').drop_last() =~= line);
    }
}

/// The regions of the tokens of a line make up the line without its
/// separators.
proof fn lemma_regions_make_line(regions: Seq<RegionView>, spans: Seq<(Style, Seq<char>)>)
    requires
        regions.len() == spans.len(),
        forall|j: int|
            0 <= j < regions.len() ==> (#[trigger] regions[j]).text == without_newlines(
                spans[j].1,
            ),
    ensures
        line_text(regions) == without_newlines(spans_text(spans)),
    decreases regions.len(),
{
    reveal_with_fuel(Seq::filter, 1);
    if regions.len() > 0 {
        lemma_regions_make_line(regions.drop_last(), spans.drop_last());
        Seq::filter_distributes_over_add(
            spans_text(spans.drop_last()),
            spans.last().1,
            |c: char| !is_newline(c),
        );
    }
}

/// What the first of the operations asks and leaves behind.
proof fn lemma_ops_step(m: StackModel, ops: Seq<ScopeOp>, k: int)
    requires
        0 <= k < ops.len(),
    ensures
        ops_fit(m, ops.skip(k)) == (op_fits(m, ops[k]) && ops_fit(
            model_after(m, ops[k]),
            ops.skip(k + 1),
        )),
        models_after(m, ops.skip(k)) == models_after(model_after(m, ops[k]), ops.skip(k + 1)),
{
    assert(ops.skip(k)[0] == ops[k]);
    assert(ops.skip(k).skip(1) =~= ops.skip(k + 1));
}

/// Operations that fit a stack can each be applied in turn.
proof fn lemma_fit_applies(m: StackModel, ops: Seq<ScopeOp>, k: int)
    requires
        0 <= k < ops.len(),
        ops_fit(m, ops.skip(k)),
    ensures
        op_applies(m, ops[k]),
        ops_fit(model_after(m, ops[k]), ops.skip(k + 1)),
{
    lemma_ops_step(m, ops, k);
}

/// The shape of a scope stack: how deep it is, and how many scopes each batch
/// set aside holds. It is kept beside a stack to tell beforehand whether an
/// operation fits the stack.
pub struct StackShape {
    depth: usize,
    aside: Vec<usize>,
    model: Ghost<StackModel>,
}

impl StackShape {
    /// The stack whose shape this is.
    pub closed spec fn model(&self) -> StackModel {
        self.model@
    }

    /// The shape is that of its stack, and the stack is no deeper than the
    /// highlighter can give a style.
    pub closed spec fn wf(&self) -> bool {
        &&& self.depth == self.model@.scopes.len()
        &&& self.depth <= DEPTH_LIMIT
        &&& self.aside@.len() == self.model@.aside.len()
        &&& forall|i: int|
            0 <= i < self.aside@.len() ==> #[trigger] self.aside@[i] == self.model@.aside[i].len()
    }

    /// The shape of a stack that holds nothing.
    pub fn new() -> (shape: StackShape)
        ensures
            shape.wf(),
            shape.model() == empty_stack(),
    {
        StackShape { depth: 0, aside: Vec::new(), model: Ghost(empty_stack()) }
    }

    /// Takes an operation of that kind into the shape, if it fits the stack;
    /// tells whether it fits.
    fn take(&mut self, kind: OpKind, Ghost(op): Ghost<ScopeOp>) -> (fits: bool)
        requires
            old(self).wf(),
            op.kind == kind,
        ensures
            fits == op_fits(old(self).model(), op),
            fits ==> final(self).wf() && final(self).model() == model_after(old(self).model(), op),
    {
        match kind {
            OpKind::Push => {
                if self.depth >= DEPTH_LIMIT {
                    return false;
                }
                self.depth = self.depth + 1;
            },
            OpKind::Pop(n) => {
                let gone: usize = if n <= self.depth {
                    n
                } else {
                    self.depth
                };
                self.depth = self.depth - gone;
            },
            OpKind::ClearTop(n) => {
                let gone: usize = if n <= self.depth {
                    n
                } else {
                    self.depth
                };
                self.depth = self.depth - gone;
                self.aside.push(gone);
            },
            OpKind::ClearAll => {
                self.aside.push(self.depth);
                self.depth = 0;
            },
            OpKind::Restore => {
                match self.aside.pop() {
                    Some(back) => {
                        if back > DEPTH_LIMIT - self.depth {
                            return false;
                        }
                        self.depth = self.depth + back;
                    },
                    None => {
                        return false;
                    },
                }
            },
            OpKind::Noop => {},
        }
        proof {
            self.model = Ghost(model_after(old(self).model(), op));
        }
        true
    }
}

/// Whether `at` is a byte offset into `line` that lies between two
/// characters.
fn check_position(at: usize, line: &str) -> (fits: bool)
    ensures
        fits == position_fits(at, line@),
{
    at <= line.as_bytes().len() && line.is_char_boundary(at)
}

/// Checks what the tokenizer handed back for a line before it is relied on:
/// that the positions fit the line, and that each operation fits the stack
/// that the ones before it leave, `shape` being the shape of the stack
/// before the line. Where all of this holds, `shape` is the shape of the
/// stack after the line; where it does not, `shape` is of no more use.
pub fn check_ops(ops: &Vec<(usize, ScopeStackOp)>, line: &str, shape: &mut StackShape) -> (usable:
    bool)
    requires
        old(shape).wf(),
    ensures
        usable == ops_usable(ops@, line@, old(shape).model()),
        usable ==> final(shape).wf() && final(shape).model() == models_after(
            old(shape).model(),
            op_models(ops@),
        ),
{
    let ghost models = op_models(ops@);
    let ghost m = shape.model();
    let mut k: usize = 0;
    assert(models.skip(0) =~= models);
    while k < ops.len()
        invariant
            k <= ops.len(),
            models == op_models(ops@),
            m == old(shape).model(),
            shape.wf(),
            forall|j: int| 0 <= j < k ==> position_fits((#[trigger] ops@[j]).0, line@),
            forall|j: int| 0 < j < k ==> ops@[j - 1].0 <= (#[trigger] ops@[j]).0,
            ops_fit(m, models) == ops_fit(shape.model(), models.skip(k as int)),
            models_after(m, models) == models_after(shape.model(), models.skip(k as int)),
        decreases ops.len() - k,
    {
        let at: usize = ops[k].0;
        if !check_position(at, line) {
            assert(!position_fits(ops@[k as int].0, line@));
            return false;
        }
        if k > 0 && ops[k - 1].0 > at {
            assert(ops@[k - 1].0 > ops@[k as int].0);
            return false;
        }
        let ghost now = shape.model();
        proof {
            lemma_ops_step(now, models, k as int);
        }
        let kind = op_kind(&ops[k].1);
        if !shape.take(kind, Ghost(models[k as int])) {
            assert(!ops_fit(now, models.skip(k as int)));
            return false;
        }
        k = k + 1;
    }
    assert(models.skip(ops.len() as int) =~= Seq::<ScopeOp>::empty());
    true
}

/// The names as mathematical values.
pub open spec fn names_view(names: Seq<String>) -> Seq<Seq<char>> {
    names.map_values(|name: String| name@)
}

/// The name of the scope on top of the stack; the empty name for a stack
/// without scopes.
fn top_scope_of(stack: &ScopeStack) -> (name: String)
    ensures
        name@ == top_scope(stack_model(*stack)),
{
    match top_scope_name(stack) {
        Some(name) => name,
        None => String::new(),
    }
}

/// The scope in force at every place of a line where a span begins: walks the
/// operations in order and, wherever one applies further right than the last
/// note, notes the scope on top of the stack before applying it; and once
/// more at the end, if the line goes on after the last note.
pub fn line_scopes(stack: &mut ScopeStack, ops: &Vec<(usize, ScopeStackOp)>, line: &str) -> (names:
    Vec<String>)
    requires
        ops_fit(stack_model(*old(stack)), op_models(ops@)),
    ensures
        names_view(names@) == scope_marks(ops@, stack_model(*old(stack)), line@),
        stack_model(*final(stack)) == models_after(stack_model(*old(stack)), op_models(ops@)),
{
    let ghost models = op_models(ops@);
    let ghost first = stack_model(*stack);
    let end: usize = line.as_bytes().len();
    let mut names: Vec<String> = Vec::new();
    let mut start: usize = 0;
    let mut k: usize = 0;
    assert(models.skip(0) =~= models);
    assert(names_view(names@) =~= Seq::<Seq<char>>::empty());
    while k < ops.len()
        invariant
            k <= ops.len(),
            models == op_models(ops@),
            end == encode_utf8(line@).len(),
            ops_fit(stack_model(*stack), models.skip(k as int)),
            models_after(first, models) == models_after(stack_model(*stack), models.skip(k as int)),
            scope_marks(ops@, first, line@) == names_view(names@) + marks_from(
                ops@,
                k as int,
                start as int,
                stack_model(*stack),
                end as int,
            ),
        decreases ops.len() - k,
    {
        let idx: usize = ops[k].0;
        let ghost before = names_view(names@);
        let ghost m = stack_model(*stack);
        let ghost noted = start as int;
        if idx > start {
            names.push(top_scope_of(stack));
            start = idx;
            assert(names_view(names@) =~= before.push(top_scope(m)));
        }
        proof {
            lemma_ops_step(m, models, k as int);
            lemma_fit_applies(m, models, k as int);
            assert(models[k as int] == op_model(ops@[k as int].1));
        }
        apply_op(stack, &ops[k].1);
        assert(names_view(names@) + marks_from(
            ops@,
            k + 1,
            start as int,
            stack_model(*stack),
            end as int,
        ) =~= before + marks_from(ops@, k as int, noted, m, end as int));
        k = k + 1;
    }
    assert(models.skip(ops.len() as int) =~= Seq::<ScopeOp>::empty());
    let ghost before = names_view(names@);
    if end > start {
        names.push(top_scope_of(stack));
        assert(names_view(names@) =~= before.push(top_scope(stack_model(*stack))));
    }
    names
}

/// Makes the regions of a line from its spans and the scope of each.
pub fn build_line(spans: &Vec<(Style, String)>, scopes: &Vec<String>, font: &FontSelection) -> (regions:
    Vec<Region>)
    requires
        spans.len() == scopes.len(),
    ensures
        regions_view(regions@) == line_regions(spans_view(spans@), names_view(scopes@), *font),
        line_text(regions_view(regions@)) == without_newlines(spans_text(spans_view(spans@))),
        forall|j: int| 0 <= j < regions.len() ==> styled_as_token((#[trigger] regions[j])@, *font),
{
    let mut regions: Vec<Region> = Vec::new();
    let mut j: usize = 0;
    while j < spans.len()
        invariant
            j <= spans.len(),
            spans.len() == scopes.len(),
            regions.len() == j,
            forall|i: int|
                0 <= i < j ==> (#[trigger] regions[i])@ == region_of(
                    spans[i].1@,
                    spans[i].0,
                    scopes[i]@,
                    *font,
                ),
        decreases spans.len() - j,
    {
        regions.push(build_region(spans[j].1.as_str(), &spans[j].0, scopes[j].as_str(), font));
        j = j + 1;
    }
    proof {
        assert(regions_view(regions@) =~= line_regions(
            spans_view(spans@),
            names_view(scopes@),
            *font,
        ));
        lemma_regions_make_line(regions_view(regions@), spans_view(spans@));
        assert forall|i: int| 0 <= i < regions.len() implies styled_as_token(
            (#[trigger] regions[i])@,
            *font,
        ) by {
            let style = spans[i].0;
            let scope = scopes[i]@;
            assert(regions[i]@.style == color_css(style) + font_css(scope, *font)
                && regions[i]@.tooltip == tooltip_of(scope));
        }
    }
    regions
}

/// Highlights a text: splits it into lines, has the tokenizer cut every line
/// into spans, and shows each span in the colours of the theme and in the
/// font of the deepest scope in force where it begins.
///
/// A syntax or theme that the tables do not have is replaced by the first of
/// its table. The result is an error where a table is empty, and where the
/// tokenizer breaks its contract on a line: see [`tokens_usable`].
pub fn highlight(s: &str, options: &RichContentOptions, engine: &Engine) -> (result: Result<
    Vec<Vec<Region>>,
    HighlightError,
>)
    ensures
        result == Err::<Vec<Vec<Region>>, HighlightError>(HighlightError::NoSyntax)
            <==> engine.syntaxes().len() == 0,
        result == Err::<Vec<Vec<Region>>, HighlightError>(HighlightError::NoTheme) <==> (
        engine.syntaxes().len() > 0 && engine.themes().len() == 0),
        result is Ok <==> engine.syntaxes().len() > 0 && engine.themes().len() > 0
            && tokens_usable(engine, options.selected_syntax@, options.selected_theme@, s@),
        result matches Ok(lines) ==> lines_view(lines@) == regions_of_text(
            engine,
            options.selected_syntax@,
            options.selected_theme@,
            options.font_selection,
            s@,
        ),
        result matches Ok(lines) ==> highlighted(lines@, s@, options.font_selection),
{
    proof {
        use_type_invariant(engine);
        engine.lemma_sound();
    }
    let mut parser = match engine.parser_for(options.selected_syntax.as_str()) {
        Some(parser) => parser,
        None => {
            return Err(HighlightError::NoSyntax);
        },
    };
    let highlighter = match engine.highlighter_for(options.selected_theme.as_str()) {
        Some(highlighter) => highlighter,
        None => {
            return Err(HighlightError::NoTheme);
        },
    };
    let mut styles = start_styles(&highlighter);
    let mut scopes = start_scopes();
    let mut shape = StackShape::new();
    let lines = lines_with_endings(s);
    let mut out: Vec<Vec<Region>> = Vec::new();
    let mut y: usize = 0;
    let ghost set = engine.syntaxes;
    let ghost h = highlighter_of(engine, options.selected_theme@);
    let ghost t0 = tokens_at_start(engine, options.selected_syntax@, options.selected_theme@);
    let ghost all = ended_lines(s@);
    proof {
        assert(lines@.map_values(|l: String| l@) =~= all);
    }
    while y < lines.len()
        invariant
            y <= lines.len(),
            lines@.len() == all.len(),
            forall|i: int| 0 <= i < lines.len() ==> (#[trigger] lines[i])@ == all[i],
            all == ended_lines(s@),
            set == engine.syntaxes,
            highlighter == h,
            h == highlighter_of(engine, options.selected_theme@),
            t0 == tokens_at_start(engine, options.selected_syntax@, options.selected_theme@),
            engine.syntaxes().len() > 0,
            engine.themes().len() > 0,
            set_sound(engine.syntaxes),
            parser_of(engine.syntaxes, parser),
            usable_through(t0, all, y as nat, set, h),
            tokens_at(t0, all, y as nat, set, h) == (Tokens {
                parser,
                styles,
                stack: stack_model(scopes),
            }),
            path_model(styles) == stack_model(scopes),
            shape.wf(),
            shape.model() == stack_model(scopes),
            out.len() == y,
            forall|i: int|
                0 <= i < y ==> regions_view(#[trigger] out[i]@) == regions_of_line(
                    tokens_at(t0, all, i as nat, set, h),
                    all[i],
                    set,
                    h,
                    options.font_selection,
                ),
            forall|i: int|
                0 <= i < y ==> line_text(regions_view(#[trigger] out[i]@)) == split_lines(s@)[i],
            forall|i: int, x: int|
                0 <= i < y && 0 <= x < out[i].len() ==> styled_as_token(
                    #[trigger] out[i][x]@,
                    options.font_selection,
                ),
        decreases lines.len() - y,
    {
        let line = lines[y].as_str();
        let ghost t = tokens_at(t0, all, y as nat, set, h);
        let ops = parse_line(&mut parser, line, &engine.syntaxes);
        if !check_ops(&ops, line, &mut shape) {
            proof {
                assert(!line_usable(t, all[y as int], set, h));
                if usable_through(t0, all, all.len(), set, h) {
                    lemma_usable_line(t0, all, all.len(), y as nat, set, h);
                }
            }
            return Err(HighlightError::TokenizerContract);
        }
        let spans = styled_spans(&mut styles, &ops, line, &highlighter);
        let names = line_scopes(&mut scopes, &ops, line);
        if spans.len() != names.len() {
            proof {
                assert(!line_usable(t, all[y as int], set, h));
                if usable_through(t0, all, all.len(), set, h) {
                    lemma_usable_line(t0, all, all.len(), y as nat, set, h);
                }
            }
            return Err(HighlightError::TokenizerContract);
        }
        let regions = build_line(&spans, &names, &options.font_selection);
        proof {
            lemma_ended_line_stripped(s@, y as int);
            assert(line_usable(t, all[y as int], set, h));
            assert(tokens_at(t0, all, (y + 1) as nat, set, h) == tokens_after(
                t,
                all[y as int],
                set,
                h,
            ));
        }
        out.push(regions);
        y = y + 1;
    }
    proof {
        assert(lines_view(out@) =~= regions_of_text(
            engine,
            options.selected_syntax@,
            options.selected_theme@,
            options.font_selection,
            s@,
        ));
    }
    Ok(out)
}

} // verus!
