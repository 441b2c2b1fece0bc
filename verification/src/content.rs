//! The text of the editor and its styled rendering.
//!
//! A [`Content`] owns the raw text, the choices that decide its rendering,
//! and the rendering itself: for every line of the text the regions it is
//! shown as. The rendering is made anew after every change, so it always
//! belongs to the text it stands beside.

use vstd::prelude::*;
use vstd::string::StringExecFns;
use crate::chars::chars_of;
use crate::chars::push_chars;
use crate::engine::resolved_name;
use crate::engine::Engine;
use crate::highlight::highlight;
use crate::highlight::lemma_empty_text_usable;
use crate::highlight::lemma_regions_of_lines;
use crate::highlight::regions_of_text;
use crate::highlight::tokens_usable;
use crate::metrics::chars_before_line;
use crate::metrics::widths_lawful;
use crate::region::line_text;
use crate::region::regions_view;
use crate::region::shown_text;
use crate::region::styled_as_token;
use crate::region::RegionView;
use crate::state::State;
use crate::style::FontSelection;
use crate::style::HighlightError;
use crate::text::ended_lines;
use crate::text::join_lines;
use crate::text::lemma_join_split;
use crate::text::lemma_line_in_text;
use crate::text::lemma_split_lines_shape;
use crate::text::line_start;
use crate::text::newline_count;
use crate::text::replaced;
use crate::text::split_lines;

pub use crate::metrics::TextBackend;
pub use crate::region::Region;

verus! {

/// The choices that decide how a text is rendered.
#[derive(Clone)]
pub struct RichContentOptions {
    pub font_selection: FontSelection,
    pub selected_syntax: String,
    pub selected_theme: String,
    /// Height of a line, in pixels.
    pub line_height: usize,
}

/// The region as it is measured: its text as it is shown.
pub open spec fn shown_region(r: RegionView) -> RegionView {
    RegionView { text: shown_text(r.text), style: r.style, tooltip: r.tooltip }
}

/// The runs that show the first `x_max` characters of a line: its regions in
/// order, as they are shown, up to the one in which the count is reached, and
/// of that one only the characters that still belong.
pub open spec fn prefix_runs(regions: Seq<RegionView>, x_max: nat) -> Seq<RegionView>
    decreases regions.len(),
{
    if regions.len() == 0 || x_max == 0 {
        Seq::<RegionView>::empty()
    } else {
        let first = regions[0];
        if first.text.len() <= x_max {
            seq![shown_region(first)] + prefix_runs(
                regions.skip(1),
                (x_max - first.text.len()) as nat,
            )
        } else {
            seq![
                RegionView {
                    text: shown_text(first.text.take(x_max as int)),
                    style: first.style,
                    tooltip: first.tooltip,
                },
            ]
        }
    }
}

/// Whatever `measure` returns for some runs is what `widths` gives for them.
pub open spec fn computes<M: Fn(&Vec<Region>) -> usize>(
    measure: M,
    widths: spec_fn(Seq<RegionView>) -> nat,
) -> bool {
    forall|runs: &Vec<Region>, w: usize| #[trigger]
        call_ensures(measure, (runs,), w) ==> w == widths(regions_view(runs@))
}

/// No runs have no width, and the runs of a longer prefix of a line are never
/// narrower than those of a shorter one.
pub open spec fn lawful_widths(widths: spec_fn(Seq<RegionView>) -> nat) -> bool {
    &&& widths(Seq::<RegionView>::empty()) == 0
    &&& forall|line: Seq<RegionView>, a: nat, b: nat|
        a <= b ==> widths(#[trigger] prefix_runs(line, a)) <= widths(
            #[trigger] prefix_runs(line, b),
        )
}

/// `measure` measures text: it takes any runs, and it computes a function of
/// the runs that is lawful.
pub open spec fn measures<M: Fn(&Vec<Region>) -> usize>(measure: M) -> bool {
    &&& forall|runs: &Vec<Region>| #[trigger] call_requires(measure, (runs,))
    &&& exists|widths: spec_fn(Seq<RegionView>) -> nat| #[trigger]
        computes(measure, widths) && lawful_widths(widths)
}

/// The function of the runs that `measure` computes.
pub open spec fn widths_of<M: Fn(&Vec<Region>) -> usize>(measure: M) -> spec_fn(
    Seq<RegionView>,
) -> nat {
    choose|widths: spec_fn(Seq<RegionView>) -> nat| #[trigger]
        computes(measure, widths) && lawful_widths(widths)
}

/// The lines of regions as mathematical values.
pub open spec fn lines_view(lines: Seq<Vec<Region>>) -> Seq<Seq<RegionView>> {
    lines.map_values(|line: Vec<Region>| regions_view(line@))
}

/// The characters of every line.
pub open spec fn texts_of(lines: Seq<Seq<RegionView>>) -> Seq<Seq<char>> {
    lines.map_values(|line: Seq<RegionView>| line_text(line))
}

/// A text and its rendering, as mathematical values.
pub struct ContentView {
    /// The raw text.
    pub text: Seq<char>,
    /// The regions of every line.
    pub lines: Seq<Seq<RegionView>>,
    pub font_selection: FontSelection,
    pub selected_syntax: Seq<char>,
    pub selected_theme: Seq<char>,
    pub line_height: nat,
}

/// What changes together when the text or a choice changes.
struct Document {
    raw: String,
    rich: Vec<Vec<Region>>,
    options: RichContentOptions,
}

/// A text, the choices that decide its rendering, and the rendering: the
/// regions of every line. `M` is the measurer, which tells the width in
/// pixels of runs of text laid out side by side.
pub struct Content<M: Fn(&Vec<Region>) -> usize> {
    doc: Document,
    engine: Engine,
    measure: M,
}

/// The rendering of a text: the regions that highlighting gives to its
/// lines, and an empty list of regions for the empty last line, which
/// highlighting leaves out.
pub open spec fn rendered(
    engine: &Engine,
    syntax: Seq<char>,
    theme: Seq<char>,
    font: FontSelection,
    text: Seq<char>,
) -> Seq<Seq<RegionView>> {
    let lines = regions_of_text(engine, syntax, theme, font, text);
    Seq::new(
        split_lines(text).len(),
        |y: int|
            if y < lines.len() {
                lines[y]
            } else {
                Seq::<RegionView>::empty()
            },
    )
}

/// The rendering belongs to the text and to the choices.
spec fn rendering_of(
    rich: Seq<Vec<Region>>,
    raw: Seq<char>,
    engine: &Engine,
    options: &RichContentOptions,
) -> bool {
    &&& raw.len() <= usize::MAX
    &&& tokens_usable(engine, options.selected_syntax@, options.selected_theme@, raw)
    &&& lines_view(rich) == rendered(
        engine,
        options.selected_syntax@,
        options.selected_theme@,
        options.font_selection,
        raw,
    )
    &&& texts_of(lines_view(rich)) == split_lines(raw)
    &&& forall|y: int, x: int|
        0 <= y < rich.len() && 0 <= x < rich[y].len() ==> styled_as_token(
            #[trigger] rich[y][x]@,
            options.font_selection,
        )
}

impl<M: Fn(&Vec<Region>) -> usize> View for Content<M> {
    type V = ContentView;

    closed spec fn view(&self) -> ContentView {
        ContentView {
            text: self.doc.raw@,
            lines: lines_view(self.doc.rich@),
            font_selection: self.doc.options.font_selection,
            selected_syntax: self.doc.options.selected_syntax@,
            selected_theme: self.doc.options.selected_theme@,
            line_height: self.doc.options.line_height as nat,
        }
    }
}

/// Counts the line separators among the characters.
fn count_newlines(v: &Vec<char>) -> (n: usize)
    ensures
        n == newline_count(v@),
        v@.len() <= usize::MAX,
{
    let mut n: usize = 0;
    let mut i: usize = 0;
    while i < v.len()
        invariant
            i <= v.len(),
            n <= i,
            n == newline_count(v@.take(i as int)),
        decreases v.len() - i,
    {
        assert(v@.take(i + 1).drop_last() =~= v@.take(i as int));
        if v[i] == '\n' {
            n = n + 1;
        }
        i = i + 1;
    }
    assert(v@.take(v.len() as int) =~= v@);
    n
}

/// Renders a text: highlights it, and gives an empty list of regions to the
/// empty last line, which highlighting leaves out.
fn render(raw: &str, options: &RichContentOptions, engine: &Engine) -> (result: Result<
    Vec<Vec<Region>>,
    HighlightError,
>)
    ensures
        result == Err::<Vec<Vec<Region>>, HighlightError>(HighlightError::NoSyntax)
            <==> engine.syntaxes().len() == 0,
        result == Err::<Vec<Vec<Region>>, HighlightError>(HighlightError::NoTheme) <==> (
        engine.syntaxes().len() > 0 && engine.themes().len() == 0),
        result is Ok <==> engine.syntaxes().len() > 0 && engine.themes().len() > 0
            && tokens_usable(engine, options.selected_syntax@, options.selected_theme@, raw@),
        raw@.len() == 0 && engine.syntaxes().len() > 0 && engine.themes().len() > 0
            ==> result is Ok,
        result matches Ok(rich) ==> rendering_of(rich@, raw@, engine, options),
{
    proof {
        if raw@.len() == 0 {
            assert(raw@ =~= Seq::<char>::empty());
            lemma_empty_text_usable(engine, options.selected_syntax@, options.selected_theme@);
        }
    }
    let mut rich = match highlight(raw, options, engine) {
        Ok(rich) => rich,
        Err(e) => {
            return Err(e);
        },
    };
    let chars = chars_of(raw);
    let newlines = count_newlines(&chars);
    let ghost tokens = lines_view(rich@);
    proof {
        lemma_split_lines_shape(raw@);
    }
    while rich.len() <= newlines
        invariant
            newlines == newline_count(raw@),
            split_lines(raw@).len() == newlines + 1,
            tokens.len() == ended_lines(raw@).len(),
            ended_lines(raw@).len() <= rich.len() <= newlines + 1,
            forall|y: int|
                0 <= y < tokens.len() ==> regions_view(#[trigger] rich[y]@) == tokens[y],
            forall|y: int|
                tokens.len() <= y < rich.len() ==> regions_view(#[trigger] rich[y]@)
                    == Seq::<RegionView>::empty(),
            forall|y: int|
                0 <= y < rich.len() ==> line_text(regions_view(#[trigger] rich[y]@)) == split_lines(
                    raw@,
                )[y],
            forall|y: int, x: int|
                0 <= y < rich.len() && 0 <= x < rich[y].len() ==> styled_as_token(
                    #[trigger] rich[y][x]@,
                    options.font_selection,
                ),
        decreases newlines + 1 - rich.len(),
    {
        let empty: Vec<Region> = Vec::new();
        assert(regions_view(empty@) =~= Seq::<RegionView>::empty());
        rich.push(empty);
    }
    assert(texts_of(lines_view(rich@)) =~= split_lines(raw@));
    assert(lines_view(rich@) =~= rendered(
        engine,
        options.selected_syntax@,
        options.selected_theme@,
        options.font_selection,
        raw@,
    ));
    Ok(rich)
}

/// The runs that show the first `x_max` characters of `line`.
fn prefix_of_line(line: &Vec<Region>, x_max: usize) -> (runs: Vec<Region>)
    ensures
        regions_view(runs@) == prefix_runs(regions_view(line@), x_max as nat),
{
    let ghost all = regions_view(line@);
    let mut runs: Vec<Region> = Vec::new();
    let mut num_chars: usize = 0;
    let mut i: usize = 0;
    assert(all.skip(0) =~= all);
    assert(regions_view(runs@) =~= Seq::<RegionView>::empty());
    while i < line.len()
        invariant
            i <= line.len(),
            num_chars <= x_max,
            all == regions_view(line@),
            prefix_runs(all, x_max as nat) == regions_view(runs@) + prefix_runs(
                all.skip(i as int),
                (x_max - num_chars) as nat,
            ),
        decreases line.len() - i,
    {
        if num_chars >= x_max {
            assert(regions_view(runs@) + Seq::<RegionView>::empty() =~= regions_view(runs@));
            return runs;
        }
        let text_len: usize = line[i].num_chars();
        let ghost before = regions_view(runs@);
        proof {
            assert(all.skip(i as int)[0] == line[i as int]@);
            assert(all.skip(i as int).skip(1) =~= all.skip(i + 1));
        }
        if x_max - num_chars >= text_len {
            let run = line[i].shown_run(text_len);
            assert(line[i as int]@.text.take(text_len as int) =~= line[i as int]@.text);
            runs.push(run);
            num_chars = num_chars + text_len;
            assert(regions_view(runs@) =~= before.push(shown_region(line[i as int]@)));
            assert(before + (seq![shown_region(line[i as int]@)] + prefix_runs(
                all.skip(i + 1),
                (x_max - num_chars) as nat,
            )) =~= before.push(shown_region(line[i as int]@)) + prefix_runs(
                all.skip(i + 1),
                (x_max - num_chars) as nat,
            ));
        } else {
            let run = line[i].shown_run(x_max - num_chars);
            runs.push(run);
            assert(regions_view(runs@) =~= before + prefix_runs(
                all.skip(i as int),
                (x_max - num_chars) as nat,
            ));
            return runs;
        }
        i = i + 1;
    }
    assert(all.skip(line.len() as int) =~= Seq::<RegionView>::empty());
    assert(regions_view(runs@) + Seq::<RegionView>::empty() =~= regions_view(runs@));
    runs
}

impl<M: Fn(&Vec<Region>) -> usize> Content<M> {
    /// What holds of every content: the measurer measures text, the rendering
    /// belongs to the text and to the choices, the syntax and the theme are
    /// of the tables, and a line has a height.
    #[verifier::type_invariant]
    pub closed spec fn inv(&self) -> bool {
        &&& measures(self.measure)
        &&& rendering_of(self.doc.rich@, self.doc.raw@, &self.engine, &self.doc.options)
        &&& self.doc.options.line_height > 0
        &&& self.engine.syntaxes().contains(self.doc.options.selected_syntax@)
        &&& self.engine.themes().contains(self.doc.options.selected_theme@)
    }

    /// The measurer: what gives runs of text their width.
    pub closed spec fn measurer(&self) -> M {
        self.measure
    }

    /// The tables of syntaxes and themes that the content is rendered with.
    pub closed spec fn engine(&self) -> Engine {
        self.engine
    }

    /// The names of the syntaxes that the content can be shown in.
    pub open spec fn syntaxes(&self) -> Seq<Seq<char>> {
        self.engine().syntaxes()
    }

    /// The names of the themes that the content can be shown in.
    pub open spec fn themes(&self) -> Seq<Seq<char>> {
        self.engine().themes()
    }

    /// The tokenizer keeps its contract on `text`, with the tables and the
    /// choices of the content.
    pub open spec fn renders(&self, text: Seq<char>) -> bool {
        tokens_usable(&self.engine(), self@.selected_syntax, self@.selected_theme, text)
    }

    /// The regions that `text` is shown as, with the tables and the choices
    /// of the content.
    pub open spec fn rendering(&self, text: Seq<char>) -> Seq<Seq<RegionView>> {
        rendered(
            &self.engine(),
            self@.selected_syntax,
            self@.selected_theme,
            self@.font_selection,
            text,
        )
    }

    /// Takes `s` as the text and renders it with the tables of `engine`. A
    /// syntax or theme that the tables do not have is replaced by the first
    /// of its table, and the content keeps the name that was used. `measure`
    /// tells the width in pixels of the runs it is given, laid out side by
    /// side.
    ///
    /// The result is an error where a table is empty, and where the
    /// tokenizer breaks its contract on a line of the text.
    pub fn from_str(s: &str, options: RichContentOptions, engine: Engine, measure: M) -> (result:
        Result<Self, HighlightError>)
        requires
            measures(measure),
            options.line_height > 0,
        ensures
            result is Ok <==> engine.syntaxes().len() > 0 && engine.themes().len() > 0
                && tokens_usable(
                &engine,
                resolved_name(engine.syntaxes(), options.selected_syntax@),
                resolved_name(engine.themes(), options.selected_theme@),
                s@,
            ),
            result matches Ok(c) ==> {
                &&& c.inv()
                &&& c.measurer() == measure
                &&& c.engine() == engine
                &&& c@.text == s@
                &&& c@.font_selection == options.font_selection
                &&& c@.line_height == options.line_height
                &&& c@.selected_syntax == resolved_name(engine.syntaxes(), options.selected_syntax@)
                &&& c@.selected_theme == resolved_name(engine.themes(), options.selected_theme@)
                &&& c@.lines == c.rendering(s@)
            },
            engine.syntaxes().len() == 0 ==> (result matches Err(e) && e
                == HighlightError::NoSyntax),
            engine.syntaxes().len() > 0 && engine.themes().len() == 0 ==> (result matches Err(e)
                && e == HighlightError::NoTheme),
            engine.syntaxes().len() > 0 && engine.themes().len() > 0 ==> (result matches Err(e)
                ==> e == HighlightError::TokenizerContract),
            engine.syntaxes().len() > 0 && engine.themes().len() > 0 && s@.len() == 0
                ==> result is Ok,
    {
        let selected_syntax = match engine.resolve_syntax(options.selected_syntax.as_str()) {
            Some(name) => name,
            None => {
                return Err(HighlightError::NoSyntax);
            },
        };
        let selected_theme = match engine.resolve_theme(options.selected_theme.as_str()) {
            Some(name) => name,
            None => {
                return Err(HighlightError::NoTheme);
            },
        };
        let ghost wanted_syntax = options.selected_syntax@;
        let ghost wanted_theme = options.selected_theme@;
        let options = RichContentOptions {
            font_selection: options.font_selection,
            selected_syntax,
            selected_theme,
            line_height: options.line_height,
        };
        proof {
            lemma_resolved_is_known(engine.syntaxes(), wanted_syntax);
            lemma_resolved_is_known(engine.themes(), wanted_theme);
        }
        let rich = match render(s, &options, &engine) {
            Ok(rich) => rich,
            Err(e) => {
                return Err(e);
            },
        };
        Ok(Content { doc: Document { raw: s.to_owned(), rich, options }, engine, measure })
    }

    /// Replaces the characters from offset `from` up to offset `to` by `s`
    /// and renders the text anew. Offsets past the end count as the end, and
    /// `to` before `from` counts as `from`: then `s` is only inserted. The
    /// result is an error where the tokenizer breaks its contract on a line
    /// of the new text; then nothing has changed.
    pub fn update(&mut self, from: usize, to: usize, s: &str) -> (result: Result<
        (),
        HighlightError,
    >)
        ensures
            final(self).inv(),
            final(self).measurer() == old(self).measurer(),
            final(self).engine() == old(self).engine(),
            result is Ok <==> old(self).renders(
                replaced(old(self)@.text, from as nat, to as nat, s@),
            ),
            result is Ok ==> final(self)@.text == replaced(
                old(self)@.text,
                from as nat,
                to as nat,
                s@,
            ),
            result is Ok ==> final(self)@.lines == final(self).rendering(final(self)@.text),
            result is Ok ==> final(self)@.font_selection == old(self)@.font_selection
                && final(self)@.selected_syntax == old(self)@.selected_syntax
                && final(self)@.selected_theme == old(self)@.selected_theme
                && final(self)@.line_height == old(self)@.line_height,
            result is Err ==> *final(self) == *old(self),
            result matches Err(e) ==> e == HighlightError::TokenizerContract,
            replaced(old(self)@.text, from as nat, to as nat, s@).len() == 0 ==> result is Ok,
    {
        proof {
            use_type_invariant(&*self);
        }
        let chars = chars_of(self.doc.raw.as_str());
        let len: usize = chars.len();
        let start: usize = if from <= len {
            from
        } else {
            len
        };
        let stop: usize = if to <= len {
            to
        } else {
            len
        };
        let end: usize = if stop < start {
            start
        } else {
            stop
        };
        let mut raw = String::new();
        push_chars(&mut raw, &chars, 0, start);
        raw.append(s);
        push_chars(&mut raw, &chars, end, len);
        assert(raw@ =~= replaced(self.doc.raw@, from as nat, to as nat, s@));
        let options = self.options_copy();
        let rich = match render(raw.as_str(), &options, &self.engine) {
            Ok(rich) => rich,
            Err(e) => {
                return Err(e);
            },
        };
        self.doc = Document { raw, rich, options };
        Ok(())
    }

    /// The raw text.
    pub fn get_raw_text(&self) -> (s: String)
        ensures
            s@ == self@.text,
    {
        self.doc.raw.clone()
    }

    /// Number of characters of the raw text.
    pub fn num_chars(&self) -> (n: usize)
        ensures
            n == self@.text.len(),
    {
        chars_of(self.doc.raw.as_str()).len()
    }

    /// The regions of every line, for showing them.
    pub fn lines(&self) -> (lines: &Vec<Vec<Region>>)
        ensures
            lines_view(lines@) == self@.lines,
    {
        &self.doc.rich
    }

    /// The choices that the rendering was made with.
    pub fn options(&self) -> (options: &RichContentOptions)
        ensures
            options.font_selection == self@.font_selection,
            options.selected_syntax@ == self@.selected_syntax,
            options.selected_theme@ == self@.selected_theme,
            options.line_height == self@.line_height,
    {
        &self.doc.options
    }

    fn options_copy(&self) -> (options: RichContentOptions)
        ensures
            options.font_selection == self.doc.options.font_selection,
            options.selected_syntax@ == self.doc.options.selected_syntax@,
            options.selected_theme@ == self.doc.options.selected_theme@,
            options.line_height == self.doc.options.line_height,
    {
        RichContentOptions {
            font_selection: self.doc.options.font_selection,
            selected_syntax: self.doc.options.selected_syntax.clone(),
            selected_theme: self.doc.options.selected_theme.clone(),
            line_height: self.doc.options.line_height,
        }
    }

    /// Renders the text with other choices and, if that succeeds, takes them.
    fn rerender(&mut self, options: RichContentOptions) -> (result: Result<(), HighlightError>)
        requires
            options.line_height > 0,
            old(self).engine.syntaxes().contains(options.selected_syntax@),
            old(self).engine.themes().contains(options.selected_theme@),
        ensures
            final(self).inv(),
            final(self).measurer() == old(self).measurer(),
            final(self).engine() == old(self).engine(),
            result is Ok <==> tokens_usable(
                &old(self).engine(),
                options.selected_syntax@,
                options.selected_theme@,
                old(self)@.text,
            ),
            result is Ok ==> final(self)@.text == old(self)@.text
                && final(self)@.font_selection == options.font_selection
                && final(self)@.selected_syntax == options.selected_syntax@
                && final(self)@.selected_theme == options.selected_theme@
                && final(self)@.line_height == options.line_height,
            result is Ok ==> final(self)@.lines == final(self).rendering(final(self)@.text),
            result is Err ==> *final(self) == *old(self),
            result matches Err(e) ==> e == HighlightError::TokenizerContract,
    {
        proof {
            use_type_invariant(&*self);
        }
        let rich = match render(self.doc.raw.as_str(), &options, &self.engine) {
            Ok(rich) => rich,
            Err(e) => {
                return Err(e);
            },
        };
        let raw = self.doc.raw.clone();
        self.doc = Document { raw, rich, options };
        Ok(())
    }

    /// Takes another font choice and renders the text anew. The font has no
    /// part in what the tokenizer does, so this succeeds on the text of every
    /// content.
    pub fn set_font(&mut self, font: FontSelection) -> (result: Result<(), HighlightError>)
        ensures
            final(self).inv(),
            final(self).measurer() == old(self).measurer(),
            final(self).engine() == old(self).engine(),
            result is Ok,
            final(self)@.text == old(self)@.text,
            final(self)@.font_selection == font,
            final(self)@.selected_syntax == old(self)@.selected_syntax,
            final(self)@.selected_theme == old(self)@.selected_theme,
            final(self)@.line_height == old(self)@.line_height,
            final(self)@.lines == final(self).rendering(final(self)@.text),
    {
        proof {
            use_type_invariant(&*self);
        }
        let mut options = self.options_copy();
        options.font_selection = font;
        self.rerender(options)
    }

    /// Takes another syntax, or the first of the table if the table has none
    /// of that name, and renders the text anew. The result is an error where
    /// the tokenizer breaks its contract on a line of the text in that
    /// syntax; then nothing has changed.
    pub fn set_syntax(&mut self, syntax: String) -> (result: Result<(), HighlightError>)
        ensures
            final(self).inv(),
            final(self).measurer() == old(self).measurer(),
            final(self).engine() == old(self).engine(),
            result is Ok <==> tokens_usable(
                &old(self).engine(),
                resolved_name(old(self).syntaxes(), syntax@),
                old(self)@.selected_theme,
                old(self)@.text,
            ),
            result is Ok ==> final(self)@.text == old(self)@.text
                && final(self)@.font_selection == old(self)@.font_selection
                && final(self)@.selected_syntax == resolved_name(old(self).syntaxes(), syntax@)
                && final(self)@.selected_theme == old(self)@.selected_theme
                && final(self)@.line_height == old(self)@.line_height,
            result is Ok ==> final(self)@.lines == final(self).rendering(final(self)@.text),
            result is Err ==> *final(self) == *old(self),
            result matches Err(e) ==> e == HighlightError::TokenizerContract,
    {
        proof {
            use_type_invariant(&*self);
        }
        let mut options = self.options_copy();
        options.selected_syntax = match self.engine.resolve_syntax(syntax.as_str()) {
            Some(name) => name,
            None => {
                return Err(HighlightError::NoSyntax);
            },
        };
        proof {
            lemma_resolved_is_known(self.engine.syntaxes(), syntax@);
        }
        self.rerender(options)
    }

    /// Takes another theme, or the first of the table if the table has none
    /// of that name, and renders the text anew. The result is an error where
    /// the tokenizer breaks its contract on a line of the text in that
    /// theme; then nothing has changed.
    pub fn set_theme(&mut self, theme: String) -> (result: Result<(), HighlightError>)
        ensures
            final(self).inv(),
            final(self).measurer() == old(self).measurer(),
            final(self).engine() == old(self).engine(),
            result is Ok <==> tokens_usable(
                &old(self).engine(),
                old(self)@.selected_syntax,
                resolved_name(old(self).themes(), theme@),
                old(self)@.text,
            ),
            result is Ok ==> final(self)@.text == old(self)@.text
                && final(self)@.font_selection == old(self)@.font_selection
                && final(self)@.selected_syntax == old(self)@.selected_syntax
                && final(self)@.selected_theme == resolved_name(old(self).themes(), theme@)
                && final(self)@.line_height == old(self)@.line_height,
            result is Ok ==> final(self)@.lines == final(self).rendering(final(self)@.text),
            result is Err ==> *final(self) == *old(self),
            result matches Err(e) ==> e == HighlightError::TokenizerContract,
    {
        proof {
            use_type_invariant(&*self);
        }
        let mut options = self.options_copy();
        options.selected_theme = match self.engine.resolve_theme(theme.as_str()) {
            Some(name) => name,
            None => {
                return Err(HighlightError::NoTheme);
            },
        };
        proof {
            lemma_resolved_is_known(self.engine.themes(), theme@);
        }
        self.rerender(options)
    }

    /// What is kept of the content between two sessions.
    pub fn get_state(&self) -> (state: State)
        ensures
            state.content@ == self@.text,
            state.font_selection == self@.font_selection,
            state.selected_theme@ == self@.selected_theme,
            state.selected_syntax@ == self@.selected_syntax,
    {
        State {
            content: self.doc.raw.clone(),
            font_selection: self.doc.options.font_selection,
            selected_theme: self.doc.options.selected_theme.clone(),
            selected_syntax: self.doc.options.selected_syntax.clone(),
        }
    }

    /// The regions of all lines, each line with its separator put back where
    /// it had one, make up the raw text.
    pub proof fn lemma_round_trip(&self)
        requires
            self.inv(),
        ensures
            texts_of(self@.lines) == split_lines(self@.text),
            join_lines(texts_of(self@.lines)) == self@.text,
    {
        lemma_join_split(self@.text);
    }

    /// The regions of a content are the rendering of its text, with its
    /// tables and its choices; so two contents with the same text, tables
    /// and choices have the same regions. What the tokenizer leaves out, an
    /// empty last line, has no regions.
    pub proof fn lemma_rendering(&self)
        requires
            self.inv(),
        ensures
            self.renders(self@.text),
            self@.lines == self.rendering(self@.text),
    {
    }

    /// A line that the tokenizer leaves out, the empty last line of a text,
    /// has an empty list of regions.
    pub proof fn lemma_left_out_line(&self, y: int)
        requires
            self.inv(),
            ended_lines(self@.text).len() <= y < split_lines(self@.text).len(),
        ensures
            self@.lines.len() == split_lines(self@.text).len(),
            self@.lines[y] == Seq::<RegionView>::empty(),
    {
        lemma_regions_of_lines(
            &self.engine,
            self@.selected_syntax,
            self@.selected_theme,
            self@.font_selection,
            self@.text,
        );
    }

    /// Every region is styled as a token is, in the font choice of the
    /// content: see [`styled_as_token`].
    pub proof fn lemma_regions_styled(&self)
        requires
            self.inv(),
        ensures
            forall|y: int, x: int|
                0 <= y < self@.lines.len() && 0 <= x < self@.lines[y].len() ==> styled_as_token(
                    #[trigger] self@.lines[y][x],
                    self@.font_selection,
                ),
    {
        assert forall|y: int, x: int|
            0 <= y < self@.lines.len() && 0 <= x < self@.lines[y].len() implies styled_as_token(
            #[trigger] self@.lines[y][x],
            self@.font_selection,
        ) by {
            assert(self@.lines[y][x] == self.doc.rich@[y]@[x]@);
        }
    }

    /// The widths of a content are lawful: see [`widths_lawful`].
    pub proof fn lemma_widths_lawful(&self)
        requires
            self.inv(),
        ensures
            widths_lawful(self),
    {
        let widths = widths_of(self.measure);
        assert(computes(self.measure, widths) && lawful_widths(widths));
        assert forall|y: nat| y < self.spec_num_lines() implies #[trigger] self.spec_width_of_line(
            y,
            0,
        ) == 0 by {
            assert(prefix_runs(self@.lines[y as int], 0) =~= Seq::<RegionView>::empty());
        }
    }

    /// The geometry of a content, told from its text, its regions and its
    /// measurer. This spells out what the four queries of [`TextBackend`]
    /// mean for a content, for use where the measurer's type is known.
    pub proof fn lemma_geometry(&self)
        ensures
            self.spec_num_lines() == split_lines(self@.text).len(),
            forall|y: nat| #[trigger]
                self.spec_num_chars_of_line(y) == split_lines(self@.text)[y as int].len(),
            forall|y: nat, x_max: nat| #[trigger]
                self.spec_width_of_line(y, x_max) == widths_of(self.measurer())(
                    prefix_runs(self@.lines[y as int], x_max),
                ),
            self.spec_line_height() == self@.line_height,
    {
    }

    /// A line has a height.
    pub proof fn lemma_line_has_height(&self)
        requires
            self.inv(),
        ensures
            self@.line_height > 0,
            split_lines(self@.text).len() > 0,
    {
        lemma_split_lines_shape(self@.text);
    }

    /// The text is short enough for its offsets to be machine integers.
    pub proof fn lemma_text_fits(&self)
        requires
            self.inv(),
        ensures
            self@.text.len() <= usize::MAX,
    {
    }

    /// The name that is kept for a syntax or theme is one of the table.
    pub proof fn lemma_choices_known(&self)
        requires
            self.inv(),
        ensures
            self.syntaxes().contains(self@.selected_syntax),
            self.themes().contains(self@.selected_theme),
    {
    }
}

/// The name that stands for a wanted one is in the table, if the table has
/// any name at all.
pub proof fn lemma_resolved_is_known(table: Seq<Seq<char>>, wanted: Seq<char>)
    requires
        table.len() > 0,
    ensures
        table.contains(resolved_name(table, wanted)),
{
    assert(table.contains(table[0]));
}

impl<M: Fn(&Vec<Region>) -> usize> TextBackend for Content<M> {
    open spec fn spec_num_lines(&self) -> nat {
        split_lines(self@.text).len()
    }

    open spec fn spec_num_chars_of_line(&self, y: nat) -> nat {
        split_lines(self@.text)[y as int].len()
    }

    open spec fn spec_width_of_line(&self, y: nat, x_max: nat) -> nat {
        widths_of(self.measurer())(prefix_runs(self@.lines[y as int], x_max))
    }

    open spec fn spec_line_height(&self) -> nat {
        self@.line_height
    }

    fn num_lines(&self) -> (n: usize)
        ensures
            n == split_lines(self@.text).len(),
    {
        proof {
            use_type_invariant(self);
        }
        self.doc.rich.len()
    }

    fn num_chars_of_line(&self, y: usize) -> (n: usize)
        ensures
            n == split_lines(self@.text)[y as int].len(),
    {
        proof {
            use_type_invariant(self);
            lemma_line_in_text(self.doc.raw@, y as nat);
        }
        let line = &self.doc.rich[y];
        let ghost all = regions_view(line@);
        let mut n: usize = 0;
        let mut i: usize = 0;
        assert(all.take(0) =~= Seq::<RegionView>::empty());
        while i < line.len()
            invariant
                i <= line.len(),
                all == regions_view(line@),
                n == line_text(all.take(i as int)).len(),
                line_text(all).len() <= usize::MAX,
            decreases line.len() - i,
        {
            proof {
                assert(all.take(i + 1).drop_last() =~= all.take(i as int));
                lemma_line_text_grows(all, (i + 1) as nat);
            }
            n = n + line[i].num_chars();
            i = i + 1;
        }
        assert(all.take(line.len() as int) =~= all);
        n
    }

    /// The width is what the measurer gives for the runs of the prefix.
    fn width_of_line(&self, y: usize, x_max: usize) -> (w: usize)
        ensures
            exists|runs: &Vec<Region>|
                regions_view(runs@) == prefix_runs(self@.lines[y as int], x_max as nat)
                    && #[trigger] call_ensures(self.measurer(), (runs,), w),
    {
        proof {
            use_type_invariant(self);
        }
        let runs = prefix_of_line(&self.doc.rich[y], x_max);
        let w = (self.measure)(&runs);
        proof {
            let widths = widths_of(self.measure);
            assert(computes(self.measure, widths) && lawful_widths(widths));
            assert(lines_view(self.doc.rich@)[y as int] == regions_view(self.doc.rich@[y as int]@));
        }
        w
    }

    fn line_height(&self) -> (h: usize)
        ensures
            h == self@.line_height,
    {
        self.doc.options.line_height
    }
}

/// A longer prefix of a line has no fewer characters.
pub proof fn lemma_line_text_grows(regions: Seq<RegionView>, n: nat)
    requires
        n <= regions.len(),
    ensures
        line_text(regions.take(n as int)).len() <= line_text(regions).len(),
    decreases regions.len() - n,
{
    if n < regions.len() {
        lemma_line_text_grows(regions, n + 1);
        assert(regions.take(n as int + 1).drop_last() =~= regions.take(n as int));
    } else {
        assert(regions.take(n as int) =~= regions);
    }
}

/// The characters before a line of a content are those before the line's
/// start in the text.
pub proof fn lemma_chars_before_line<M: Fn(&Vec<Region>) -> usize>(c: &Content<M>, y: nat)
    ensures
        chars_before_line(c, y) == line_start(split_lines(c@.text), y),
    decreases y,
{
    if y > 0 {
        lemma_chars_before_line(c, (y - 1) as nat);
    }
}

} // verus!
