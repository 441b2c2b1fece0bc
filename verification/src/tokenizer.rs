//! The boundary to the tokenizer and theme engine.
//!
//! Nothing in this file is proved. It declares the engine's types, names what
//! the rest of the library needs to say about their values, and states of
//! each of the engine's functions that the library calls what the engine's
//! code and documentation show. The rest of the library is proved against
//! these statements.

use vstd::prelude::*;
use vstd::utf8::encode_utf8;
use vstd::utf8::is_char_boundary;
use syntect::highlighting::HighlightIterator;
use syntect::highlighting::HighlightState;
use syntect::highlighting::Highlighter;
use syntect::highlighting::ThemeSet;
use syntect::parsing::ClearAmount;
use syntect::parsing::ParseState;
use syntect::parsing::ScopeStack;
use syntect::parsing::ScopeStackOp;
use syntect::parsing::SyntaxSet;
use syntect::util::LinesWithEndings;
use crate::style::Color;
use crate::style::Style;
use crate::text::ended_lines;

verus! {

#[verifier::external_type_specification]
#[verifier::external_body]
pub struct ExSyntaxSet(SyntaxSet);

#[verifier::external_type_specification]
#[verifier::external_body]
pub struct ExThemeSet(ThemeSet);

#[verifier::external_type_specification]
#[verifier::external_body]
pub struct ExParseState(ParseState);

#[verifier::external_type_specification]
#[verifier::external_body]
pub struct ExHighlighter<'a>(Highlighter<'a>);

#[verifier::external_type_specification]
#[verifier::external_body]
pub struct ExHighlightState(HighlightState);

#[verifier::external_type_specification]
#[verifier::external_body]
pub struct ExScopeStack(ScopeStack);

#[verifier::external_type_specification]
#[verifier::external_body]
pub struct ExScopeStackOp(ScopeStackOp);

/// Which operation on a scope stack an operation is, without the scope that a
/// `Push` brings.
#[derive(Clone, Copy, Debug, PartialEq, Eq, Structural)]
pub enum OpKind {
    /// `Push`: puts a scope on the stack.
    Push,
    /// `Pop`: takes that many scopes off the stack, or all if it holds fewer.
    Pop(usize),
    /// `Clear` of the top scopes: sets that many scopes aside as one batch,
    /// or all if the stack holds fewer.
    ClearTop(usize),
    /// `Clear` of all scopes: sets the whole stack aside as one batch.
    ClearAll,
    /// `Restore`: puts the scopes of the last batch back on the stack.
    Restore,
    /// `Noop`: changes nothing.
    Noop,
}

/// An operation on a scope stack as a mathematical value: its kind, and the
/// name of the scope where it brings one.
pub struct ScopeOp {
    pub kind: OpKind,
    /// The name of the scope that a `Push` brings; empty for every other
    /// kind.
    pub scope: Seq<char>,
}

/// A scope stack as a mathematical value.
pub struct StackModel {
    /// The names of the scopes on the stack, the top last.
    pub scopes: Seq<Seq<char>>,
    /// The batches of scopes that were set aside, the last batch last.
    pub aside: Seq<Seq<Seq<char>>>,
}

/// The deepest stack that the highlighter can give a style: it multiplies the
/// depth below the top by three in sixteen bits.
pub const DEPTH_LIMIT: usize = 21845;

/// The names of the syntaxes of a set, in the order of `SyntaxSet::syntaxes`.
pub uninterp spec fn syntax_names(set: SyntaxSet) -> Seq<Seq<char>>;

/// The names of the themes of a set, in the order of its map's keys.
pub uninterp spec fn theme_names(set: ThemeSet) -> Seq<Seq<char>>;

/// The parse state refers to contexts of this syntax set: it was made from
/// one of the set's syntaxes and has parsed lines with this set only.
pub uninterp spec fn parser_of(set: SyntaxSet, state: ParseState) -> bool;

/// The set can be parsed with: each of its syntaxes holds its start context,
/// which no match pops or replaces; each of its patterns compiles under the
/// engine's regular expressions; and each context that a match pushes or
/// sets is linked. A parser is made on the start context of its syntax and
/// keeps it at the bottom of its stack; it compiles a pattern when it first
/// needs it and follows these links; and it stops the program where any of
/// this fails.
pub uninterp spec fn set_sound(set: SyntaxSet) -> bool;

/// The fresh parse state that `ParseState::new` makes for the syntax of that
/// name in the set.
pub uninterp spec fn fresh_parser(set: SyntaxSet, name: Seq<char>) -> ParseState;

/// What `ParseState::parse_line` gives for a line: the operations that the
/// line brings, each with its byte offset, and the parse state after the
/// line.
pub uninterp spec fn parsed(state: ParseState, line: Seq<char>, set: SyntaxSet) -> (
    Seq<(usize, ScopeStackOp)>,
    ParseState,
);

/// The highlighter that `Highlighter::new` makes for the theme of that name
/// in the set.
pub uninterp spec fn fresh_highlighter(themes: ThemeSet, name: Seq<char>) -> Highlighter<'static>;

/// The highlight state that `HighlightState::new` makes for a highlighter and
/// an empty stack.
pub uninterp spec fn fresh_styles(highlighter: Highlighter<'_>) -> HighlightState;

/// What the highlight iterator gives for a line and its operations: the
/// spans, each a style and a text, and the highlight state after the line.
pub uninterp spec fn styled(
    state: HighlightState,
    ops: Seq<(usize, ScopeStackOp)>,
    line: Seq<char>,
    highlighter: Highlighter<'_>,
) -> (Seq<(Style, Seq<char>)>, HighlightState);

/// The operation as a mathematical value.
pub uninterp spec fn op_model(op: ScopeStackOp) -> ScopeOp;

/// A stack that holds nothing.
pub open spec fn empty_stack() -> StackModel {
    StackModel { scopes: Seq::<Seq<char>>::empty(), aside: Seq::<Seq<Seq<char>>>::empty() }
}

/// What a scope stack holds.
pub uninterp spec fn stack_model(stack: ScopeStack) -> StackModel;

/// What the scope stack inside a highlight state holds.
pub uninterp spec fn path_model(state: HighlightState) -> StackModel;

/// The smaller of two numbers.
pub open spec fn at_most(n: int, limit: int) -> int {
    if n <= limit {
        n
    } else {
        limit
    }
}

/// The stack after an operation, as `ScopeStack::apply` makes it.
pub open spec fn model_after(m: StackModel, op: ScopeOp) -> StackModel {
    let depth = m.scopes.len() as int;
    match op.kind {
        OpKind::Push => StackModel { scopes: m.scopes.push(op.scope), aside: m.aside },
        OpKind::Pop(n) => StackModel {
            scopes: m.scopes.take(depth - at_most(n as int, depth)),
            aside: m.aside,
        },
        OpKind::ClearTop(n) => StackModel {
            scopes: m.scopes.take(depth - at_most(n as int, depth)),
            aside: m.aside.push(m.scopes.skip(depth - at_most(n as int, depth))),
        },
        OpKind::ClearAll => StackModel {
            scopes: Seq::<Seq<char>>::empty(),
            aside: m.aside.push(m.scopes),
        },
        OpKind::Restore => if m.aside.len() > 0 {
            StackModel { scopes: m.scopes + m.aside.last(), aside: m.aside.drop_last() }
        } else {
            m
        },
        OpKind::Noop => m,
    }
}

/// The operation can be applied to the stack: a `Restore` finds a batch set
/// aside.
pub open spec fn op_applies(m: StackModel, op: ScopeOp) -> bool {
    op.kind == OpKind::Restore ==> m.aside.len() > 0
}

/// The operation can be applied to the stack, and the stack is then no
/// deeper than the highlighter can give a style.
pub open spec fn op_fits(m: StackModel, op: ScopeOp) -> bool {
    op_applies(m, op) && model_after(m, op).scopes.len() <= DEPTH_LIMIT
}

/// The operations of a line as mathematical values, in order.
pub open spec fn op_models(ops: Seq<(usize, ScopeStackOp)>) -> Seq<ScopeOp> {
    ops.map_values(|op: (usize, ScopeStackOp)| op_model(op.1))
}

/// The stack after the operations, in order.
pub open spec fn models_after(m: StackModel, ops: Seq<ScopeOp>) -> StackModel
    decreases ops.len(),
{
    if ops.len() == 0 {
        m
    } else {
        models_after(model_after(m, ops[0]), ops.skip(1))
    }
}

/// Every one of the operations fits the stack that the ones before it leave.
pub open spec fn ops_fit(m: StackModel, ops: Seq<ScopeOp>) -> bool
    decreases ops.len(),
{
    if ops.len() == 0 {
        true
    } else {
        op_fits(m, ops[0]) && ops_fit(model_after(m, ops[0]), ops.skip(1))
    }
}

/// `at` is a byte offset into `line` that lies between two characters.
pub open spec fn position_fits(at: usize, line: Seq<char>) -> bool {
    at <= encode_utf8(line).len() && is_char_boundary(encode_utf8(line), at as int)
}

/// The positions of the operations are byte offsets into `line`: each between
/// two characters, none before the one in front of it.
pub open spec fn positions_fit(ops: Seq<(usize, ScopeStackOp)>, line: Seq<char>) -> bool {
    &&& forall|k: int| 0 <= k < ops.len() ==> position_fits((#[trigger] ops[k]).0, line)
    &&& forall|k: int| 0 < k < ops.len() ==> ops[k - 1].0 <= (#[trigger] ops[k]).0
}

/// The spans as mathematical values.
pub open spec fn spans_view(spans: Seq<(Style, String)>) -> Seq<(Style, Seq<char>)> {
    spans.map_values(|span: (Style, String)| (span.0, span.1@))
}

/// The texts of the spans, set end to end.
pub open spec fn spans_text(spans: Seq<(Style, Seq<char>)>) -> Seq<char>
    decreases spans.len(),
{
    if spans.len() == 0 {
        Seq::<char>::empty()
    } else {
        spans_text(spans.drop_last()) + spans.last().1
    }
}

/// The name of the syntax without highlighting rules, which the engine
/// expects in every set of syntaxes and adds to the set it ships.
pub open spec fn plain_text_name() -> Seq<char> {
    "Plain Text"@
}

/// The names of the themes that ship with the engine, as the engine's
/// documentation lists them, in the order of the map's keys.
pub open spec fn shipped_theme_names() -> Seq<Seq<char>> {
    seq![
        "InspiredGitHub"@,
        "Solarized (dark)"@,
        "Solarized (light)"@,
        "base16-eighties.dark"@,
        "base16-mocha.dark"@,
        "base16-ocean.dark"@,
        "base16-ocean.light"@,
    ]
}

/// `SyntaxSet::load_defaults_newlines`: the syntaxes that ship with the
/// engine, for lines that keep their `'\n'`. The syntax for plain text, which
/// `SyntaxSet::find_syntax_plain_text` looks up by its name and expects in
/// every set, is among them. The shipped set can be parsed with: the tests
/// find the start context in each of its syntaxes, with no match that pops
/// or replaces it, compile each of its patterns with `Regex::try_compile`,
/// and find each context that a match pushes or sets linked.
#[verifier::external_body]
pub(crate) fn load_syntaxes() -> (set: SyntaxSet)
    ensures
        syntax_names(set).contains(plain_text_name()),
        set_sound(set),
{
    SyntaxSet::load_defaults_newlines()
}

/// `ThemeSet::load_defaults`: the themes that ship with the engine. Its
/// documentation lists the keys of the map.
#[verifier::external_body]
pub(crate) fn load_themes() -> (set: ThemeSet)
    ensures
        theme_names(set) == shipped_theme_names(),
{
    ThemeSet::load_defaults()
}

/// `SyntaxSet::new`: a set without syntaxes, and so without patterns and
/// contexts to go wrong.
#[verifier::external_body]
pub(crate) fn no_syntaxes() -> (set: SyntaxSet)
    ensures
        syntax_names(set).len() == 0,
        set_sound(set),
{
    SyntaxSet::new()
}

/// `ThemeSet::new`: a set without themes.
#[verifier::external_body]
pub(crate) fn no_themes() -> (set: ThemeSet)
    ensures
        theme_names(set).len() == 0,
{
    ThemeSet::new()
}

/// `SyntaxSet::find_syntax_by_name`, then `ParseState::new` on what it found:
/// a fresh parser for the syntax of that name, if the set has one. The parser
/// is made on the start context of the syntax, so the syntax has to hold it.
#[verifier::external_body]
pub(crate) fn start_parser(set: &SyntaxSet, name: &str) -> (parser: Option<ParseState>)
    requires
        set_sound(*set),
    ensures
        parser is Some <==> syntax_names(*set).contains(name@),
        parser matches Some(state) ==> state == fresh_parser(*set, name@) && parser_of(*set, state),
{
    set.find_syntax_by_name(name).map(ParseState::new)
}

/// `SyntaxSet::syntaxes`: the name of the first syntax, if there is any.
#[verifier::external_body]
pub(crate) fn first_syntax_name(set: &SyntaxSet) -> (name: Option<String>)
    ensures
        match name {
            Some(n) => syntax_names(*set).len() > 0 && n@ == syntax_names(*set)[0],
            None => syntax_names(*set).len() == 0,
        },
{
    set.syntaxes().first().map(|syntax| syntax.name.clone())
}

/// `Highlighter::new` on the theme of that name, if the set's map has one.
#[verifier::external_body]
pub(crate) fn start_highlighter<'a>(themes: &'a ThemeSet, name: &str) -> (highlighter: Option<
    Highlighter<'a>,
>)
    ensures
        highlighter is Some <==> theme_names(*themes).contains(name@),
        highlighter matches Some(h) ==> h == fresh_highlighter(*themes, name@),
{
    themes.themes.get(name).map(Highlighter::new)
}

/// `ThemeSet::themes`, a map in the order of its keys: the first key, if
/// there is any.
#[verifier::external_body]
pub(crate) fn first_theme_name(themes: &ThemeSet) -> (name: Option<String>)
    ensures
        match name {
            Some(n) => theme_names(*themes).len() > 0 && n@ == theme_names(*themes)[0],
            None => theme_names(*themes).len() == 0,
        },
{
    themes.themes.keys().next().cloned()
}

/// `HighlightState::new` on an empty `ScopeStack`: the stack inside the state
/// holds nothing.
#[verifier::external_body]
pub(crate) fn start_styles(highlighter: &Highlighter<'_>) -> (state: HighlightState)
    ensures
        state == fresh_styles(*highlighter),
        path_model(state) == empty_stack(),
{
    HighlightState::new(highlighter, ScopeStack::new())
}

/// `ScopeStack::new`: a stack that holds nothing.
#[verifier::external_body]
pub(crate) fn start_scopes() -> (stack: ScopeStack)
    ensures
        stack_model(stack) == empty_stack(),
{
    ScopeStack::new()
}

/// `ParseState::parse_line`: the operations on the scope stack that the line
/// brings, each with the byte offset at which it applies. The engine asks
/// that the set be the one the parser was made from; it stays that parser's
/// set. The parser compiles patterns and follows links as it goes, so the
/// set has to be one that can be parsed with.
#[verifier::external_body]
pub(crate) fn parse_line(state: &mut ParseState, line: &str, set: &SyntaxSet) -> (ops: Vec<
    (usize, ScopeStackOp),
>)
    requires
        set_sound(*set),
        parser_of(*set, *old(state)),
    ensures
        ops@ == parsed(*old(state), line@, *set).0,
        *final(state) == parsed(*old(state), line@, *set).1,
        parser_of(*set, *final(state)),
{
    state.parse_line(line, set)
}

/// Tells the variants of `ScopeStackOp` apart, and the two amounts of a
/// `Clear`.
#[verifier::external_body]
pub(crate) fn op_kind(op: &ScopeStackOp) -> (kind: OpKind)
    ensures
        kind == op_model(*op).kind,
{
    match op {
        ScopeStackOp::Push(_) => OpKind::Push,
        ScopeStackOp::Pop(n) => OpKind::Pop(*n),
        ScopeStackOp::Clear(ClearAmount::TopN(n)) => OpKind::ClearTop(*n),
        ScopeStackOp::Clear(ClearAmount::All) => OpKind::ClearAll,
        ScopeStackOp::Restore => OpKind::Restore,
        ScopeStackOp::Noop => OpKind::Noop,
    }
}

/// `HighlightIterator::new`, run to its end: the line cut at the positions of
/// the operations, each piece with the style in force there. The pieces make
/// up the line. The iterator applies every operation to the scope stack
/// inside the state. It slices the line at the positions, brings back a
/// batch on each `Restore`, and multiplies the depth of the stack in sixteen
/// bits whenever a scope is put on it: so the positions have to fit the
/// line, and every operation has to fit the stack.
#[verifier::external_body]
pub(crate) fn styled_spans(
    state: &mut HighlightState,
    ops: &Vec<(usize, ScopeStackOp)>,
    line: &str,
    highlighter: &Highlighter<'_>,
) -> (spans: Vec<(Style, String)>)
    requires
        positions_fit(ops@, line@),
        ops_fit(path_model(*old(state)), op_models(ops@)),
    ensures
        spans_view(spans@) == styled(*old(state), ops@, line@, *highlighter).0,
        spans_text(spans_view(spans@)) == line@,
        *final(state) == styled(*old(state), ops@, line@, *highlighter).1,
        path_model(*final(state)) == models_after(path_model(*old(state)), op_models(ops@)),
{
    HighlightIterator::new(state, &ops[..], line, highlighter).map(|(s, text)| {
        let (f, b) = (s.foreground, s.background);
        let foreground = Color { r: f.r, g: f.g, b: f.b, a: f.a };
        let background = Color { r: b.r, g: b.g, b: b.b, a: b.a };
        (Style { foreground, background }, text.to_owned())
    }).collect()
}

/// `ScopeStack::apply`: see [`model_after`]. A `Restore` needs a batch to be
/// set aside.
#[verifier::external_body]
pub(crate) fn apply_op(stack: &mut ScopeStack, op: &ScopeStackOp)
    requires
        op_applies(stack_model(*old(stack)), op_model(*op)),
    ensures
        stack_model(*final(stack)) == model_after(stack_model(*old(stack)), op_model(*op)),
{
    stack.apply(op)
}

/// The name of the scope on top of the stack, as `Scope`'s `Display` writes
/// it, if the stack holds a scope.
#[verifier::external_body]
pub(crate) fn top_scope_name(stack: &ScopeStack) -> (name: Option<String>)
    ensures
        match name {
            Some(n) => stack_model(*stack).scopes.len() > 0 && n@ == stack_model(
                *stack,
            ).scopes.last(),
            None => stack_model(*stack).scopes.len() == 0,
        },
{
    match stack.scopes.last() {
        Some(scope) => Some(format!("{}", scope)),
        None => None,
    }
}

/// `LinesWithEndings::from`, run to its end: the lines of the text, each with
/// its `'\n'` where it has one.
#[verifier::external_body]
pub(crate) fn lines_with_endings(text: &str) -> (lines: Vec<String>)
    ensures
        lines@.len() == ended_lines(text@).len(),
        forall|y: int| 0 <= y < lines.len() ==> (#[trigger] lines[y])@ == ended_lines(text@)[y],
{
    LinesWithEndings::from(text).map(|line| line.to_owned()).collect()
}

} // verus!
