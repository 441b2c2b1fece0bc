//! The editor's commands: each moves the caret, changes the text, or both,
//! in a fixed order.

use vstd::prelude::*;
use crate::chars::push_char;
use crate::command::Command;
use crate::content::lemma_chars_before_line;
use crate::content::measures;
use crate::highlight::tokens_usable;
use crate::content::Content;
use crate::content::RichContentOptions;
use crate::cursor::caret_at;
use crate::cursor::caret_clicked;
use crate::cursor::caret_down;
use crate::cursor::caret_fits;
use crate::cursor::caret_left;
use crate::cursor::caret_offset;
use crate::cursor::caret_right;
use crate::cursor::caret_up;
use crate::cursor::Caret;
use crate::cursor::Cursor;
use crate::engine::resolved_name;
use crate::engine::Engine;
use crate::metrics::TextBackend;
use crate::region::Region;
use crate::state::State;
use crate::style::FontSelection;
use crate::style::HighlightError;
use crate::text::lemma_line_in_text;
use crate::text::lemma_line_start_same;
use crate::text::lemma_place_of_offset;
use crate::text::lemma_split_after_char;
use crate::text::lemma_split_from_place;
use crate::text::lemma_split_lines_shape;
use crate::text::replaced;
use crate::text::split_lines;

verus! {

/// Typing `c` with the caret at offset `at`: the character goes in at the
/// caret, and the caret goes past it.
pub open spec fn typed(text: Seq<char>, at: nat, c: char) -> (Seq<char>, nat) {
    (replaced(text, at, at, seq![c]), at + 1)
}

/// Erasing backwards with the caret at offset `at`: the character before the
/// caret goes, and the caret takes its place. At the start of the text
/// nothing happens.
pub open spec fn erased_before(text: Seq<char>, at: nat) -> (Seq<char>, nat) {
    if at > 0 {
        (replaced(text, (at - 1) as nat, at, Seq::<char>::empty()), (at - 1) as nat)
    } else {
        (text, at)
    }
}

/// Erasing forwards with the caret at offset `at`: the character after the
/// caret goes, and the caret stays. At the end of the text nothing happens.
pub open spec fn erased_after(text: Seq<char>, at: nat) -> (Seq<char>, nat) {
    if at < text.len() {
        (replaced(text, at, at + 1, Seq::<char>::empty()), at)
    } else {
        (text, at)
    }
}

/// Typing a character and then erasing backwards gives back the text and
/// puts the caret back at its offset; by [`lemma_place_of_offset`] the caret
/// is then back on its line and at its character index.
pub proof fn lemma_typed_then_erased(text: Seq<char>, at: nat, c: char)
    requires
        at <= text.len(),
    ensures
        erased_before(typed(text, at, c).0, typed(text, at, c).1) == (text, at),
        replaced(replaced(text, at, at, seq![c]), at, at + 1, Seq::<char>::empty()) == text,
{
    let longer = replaced(text, at, at, seq![c]);
    assert(longer =~= text.subrange(0, at as int) + seq![c] + text.subrange(
        at as int,
        text.len() as int,
    ));
    assert(replaced(longer, at, at + 1, Seq::<char>::empty()) =~= text);
}

/// A text that is changed from the caret on: the caret still lies in the
/// text, at the offset it had, and its line now ends with the first line of
/// what follows the caret.
pub proof fn lemma_caret_survives<M: Fn(&Vec<Region>) -> usize>(
    before: &Content<M>,
    after: &Content<M>,
    caret: Caret,
    tail: Seq<char>,
)
    requires
        caret_fits(caret, before),
        after@.text == before@.text.take(caret_offset(caret, before) as int) + tail,
    ensures
        caret_fits(caret, after),
        caret_offset(caret, after) == caret_offset(caret, before),
        caret_offset(caret, before) <= before@.text.len(),
        after.spec_num_lines() == caret.line + split_lines(tail).len(),
        after.spec_num_chars_of_line(caret.line) == caret.char_index + split_lines(tail)[0].len(),
{
    let lines = split_lines(before@.text);
    let changed = split_lines(after@.text);
    lemma_chars_before_line(before, caret.line);
    lemma_chars_before_line(after, caret.line);
    lemma_split_from_place(before@.text, caret.line, caret.char_index, tail);
    lemma_split_lines_shape(tail);
    assert(changed.take(caret.line as int) =~= lines.take(caret.line as int));
    lemma_line_start_same(changed, lines, caret.line);
}

/// Where the caret lies is told by its offset: two carets that lie in the
/// same text at the same offset are on the same line and at the same
/// character index.
pub proof fn lemma_caret_of_offset<M: Fn(&Vec<Region>) -> usize>(
    content: &Content<M>,
    a: Caret,
    b: Caret,
)
    requires
        caret_fits(a, content),
        caret_fits(b, content),
        caret_offset(a, content) == caret_offset(b, content),
    ensures
        a.line == b.line,
        a.char_index == b.char_index,
{
    lemma_chars_before_line(content, a.line);
    lemma_chars_before_line(content, b.line);
    lemma_place_of_offset(split_lines(content@.text), a.line, a.char_index, b.line, b.char_index);
}

/// An editor: a text with its rendering, and the caret in it.
pub struct Controller<M: Fn(&Vec<Region>) -> usize> {
    cursor: Cursor,
    content: Content<M>,
}

impl<M: Fn(&Vec<Region>) -> usize> Controller<M> {
    /// The text and its rendering.
    pub closed spec fn content(&self) -> Content<M> {
        self.content
    }

    /// The caret.
    pub closed spec fn caret(&self) -> Caret {
        self.cursor@
    }

    /// The raw text.
    pub open spec fn text(&self) -> Seq<char> {
        self.content()@.text
    }

    /// Offset of the caret in the raw text.
    pub open spec fn offset(&self) -> nat {
        caret_offset(self.caret(), &self.content())
    }

    /// The caret lies on a line of the text, on a character boundary of that
    /// line.
    pub open spec fn wf(&self) -> bool {
        &&& self.content().inv()
        &&& caret_fits(self.caret(), &self.content())
    }

    /// An editor on the text `txt`, the caret at its start.
    pub fn new(txt: &str, options: RichContentOptions, engine: Engine, measure: M) -> (result:
        Result<Self, HighlightError>)
        requires
            measures(measure),
            options.line_height > 0,
        ensures
            result is Ok <==> engine.syntaxes().len() > 0 && engine.themes().len() > 0
                && tokens_usable(
                &engine,
                resolved_name(engine.syntaxes(), options.selected_syntax@),
                resolved_name(engine.themes(), options.selected_theme@),
                txt@,
            ),
            result matches Ok(c) ==> {
                &&& c.wf()
                &&& c.caret() == (Caret { line: 0, char_index: 0, pixel_x: 0 })
                &&& c.content().measurer() == measure
                &&& c.content().engine() == engine
                &&& c.text() == txt@
                &&& c.content()@.font_selection == options.font_selection
                &&& c.content()@.line_height == options.line_height
                &&& c.content()@.selected_syntax == resolved_name(
                    engine.syntaxes(),
                    options.selected_syntax@,
                )
                &&& c.content()@.selected_theme == resolved_name(
                    engine.themes(),
                    options.selected_theme@,
                )
                &&& c.content()@.lines == c.content().rendering(txt@)
            },
            engine.syntaxes().len() == 0 ==> (result matches Err(e) && e
                == HighlightError::NoSyntax),
            engine.syntaxes().len() > 0 && engine.themes().len() == 0 ==> (result matches Err(e)
                && e == HighlightError::NoTheme),
            engine.syntaxes().len() > 0 && engine.themes().len() > 0 ==> (result matches Err(e)
                ==> e == HighlightError::TokenizerContract),
            engine.syntaxes().len() > 0 && engine.themes().len() > 0 && txt@.len() == 0
                ==> result is Ok,
    {
        match Content::from_str(txt, options, engine, measure) {
            Ok(content) => {
                proof {
                    lemma_split_lines_shape(content@.text);
                }
                Ok(Self { cursor: Cursor::new(), content })
            },
            Err(e) => Err(e),
        }
    }

    /// Horizontal pixel position of the caret.
    pub fn get_x(&self) -> (x: usize)
        requires
            self.wf(),
        ensures
            x == self.content().spec_width_of_line(self.caret().line, self.caret().char_index),
    {
        self.cursor.get_x(&self.content)
    }

    /// Vertical pixel position of the caret.
    pub fn get_y(&self) -> (y: usize)
        requires
            self.caret().line * self.content()@.line_height <= usize::MAX,
        ensures
            y == self.caret().line * self.content()@.line_height,
    {
        self.cursor.get_y(&self.content)
    }

    /// The regions of every line, for showing them.
    pub fn get_lines(&self) -> (lines: &Vec<Vec<Region>>)
        ensures
            crate::content::lines_view(lines@) == self.content()@.lines,
    {
        self.content.lines()
    }

    pub fn get_raw_text(&self) -> (s: String)
        ensures
            s@ == self.text(),
    {
        self.content.get_raw_text()
    }

    pub fn cursor_up(&mut self)
        requires
            old(self).wf(),
        ensures
            final(self).wf(),
            final(self).content() == old(self).content(),
            final(self).caret() == caret_up(old(self).caret(), &old(self).content()),
    {
        self.cursor.cursor_up(&self.content)
    }

    pub fn cursor_down(&mut self)
        requires
            old(self).wf(),
        ensures
            final(self).wf(),
            final(self).content() == old(self).content(),
            final(self).caret() == caret_down(old(self).caret(), &old(self).content()),
    {
        self.cursor.cursor_down(&self.content)
    }

    pub fn cursor_left(&mut self)
        requires
            old(self).wf(),
        ensures
            final(self).wf(),
            final(self).content() == old(self).content(),
            final(self).caret() == caret_left(old(self).caret(), &old(self).content()),
    {
        self.cursor.cursor_left(&self.content)
    }

    pub fn cursor_right(&mut self)
        requires
            old(self).wf(),
        ensures
            final(self).wf(),
            final(self).content() == old(self).content(),
            final(self).caret() == caret_right(old(self).caret(), &old(self).content()),
    {
        self.cursor.cursor_right(&self.content)
    }

    pub fn cursor_home(&mut self)
        requires
            old(self).wf(),
        ensures
            final(self).wf(),
            final(self).content() == old(self).content(),
            final(self).caret() == caret_at(&old(self).content(), old(self).caret().line, 0),
    {
        self.cursor.cursor_home(&self.content)
    }

    pub fn cursor_end(&mut self)
        requires
            old(self).wf(),
        ensures
            final(self).wf(),
            final(self).content() == old(self).content(),
            final(self).caret() == caret_at(
                &old(self).content(),
                old(self).caret().line,
                old(self).content().spec_num_chars_of_line(old(self).caret().line),
            ),
    {
        self.cursor.cursor_end(&self.content)
    }

    /// Places the caret at the character boundary nearest to the pixel
    /// `(x, y)`.
    pub fn mouse_click(&mut self, x: usize, y: usize)
        requires
            old(self).wf(),
        ensures
            final(self).wf(),
            final(self).content() == old(self).content(),
            final(self).caret() == caret_clicked(&old(self).content(), x as nat, y as nat),
    {
        proof {
            use_type_invariant(&self.content);
            self.content.lemma_line_has_height();
        }
        self.cursor.mouse_click(&self.content, x, y)
    }

    /// The tokenizer keeps its contract on `text`, with the tables and the
    /// choices of the editor.
    pub open spec fn renders(&self, text: Seq<char>) -> bool {
        self.content().renders(text)
    }

    /// `after` has the measurer, the tables and the choices of `self`.
    pub open spec fn keeps_choices(&self, after: &Self) -> bool {
        &&& after.content().measurer() == self.content().measurer()
        &&& after.content().engine() == self.content().engine()
        &&& after.content()@.font_selection == self.content()@.font_selection
        &&& after.content()@.selected_syntax == self.content()@.selected_syntax
        &&& after.content()@.selected_theme == self.content()@.selected_theme
        &&& after.content()@.line_height == self.content()@.line_height
    }

    /// `after` is `self` with another text and the caret at another place:
    /// the regions are the rendering of the text, and measurer, tables and
    /// choices are kept.
    pub open spec fn edited(&self, after: &Self) -> bool {
        &&& self.keeps_choices(after)
        &&& after.content()@.lines == after.content().rendering(after.text())
    }

    /// Types a line separator: see [`Self::key_char`].
    pub fn key_enter(&mut self) -> (result: Result<(), HighlightError>)
        requires
            old(self).wf(),
        ensures
            final(self).wf(),
            old(self).edited(final(self)),
            result is Ok <==> old(self).renders(typed(old(self).text(), old(self).offset(), '\n').0),
            result is Ok ==> (final(self).text(), final(self).offset()) == typed(
                old(self).text(),
                old(self).offset(),
                '\n',
            ),
            result is Ok ==> final(self).caret() == caret_right(
                old(self).caret(),
                &final(self).content(),
            ),
            result is Err ==> *final(self) == *old(self),
            result matches Err(e) ==> e == HighlightError::TokenizerContract,
    {
        self.key_char('\n')
    }

    /// Erases the character before the caret: the caret moves one to the
    /// left, then the character it has passed is taken out. At the start of
    /// the text nothing happens. The result is an error where the tokenizer
    /// breaks its contract on the new text; then nothing has changed.
    pub fn key_backspace(&mut self) -> (result: Result<(), HighlightError>)
        requires
            old(self).wf(),
        ensures
            final(self).wf(),
            old(self).edited(final(self)),
            result is Ok <==> old(self).renders(
                erased_before(old(self).text(), old(self).offset()).0,
            ),
            result is Ok ==> (final(self).text(), final(self).offset()) == erased_before(
                old(self).text(),
                old(self).offset(),
            ),
            result is Ok ==> final(self).caret() == caret_left(
                old(self).caret(),
                &old(self).content(),
            ),
            result is Err ==> *final(self) == *old(self),
            result matches Err(e) ==> e == HighlightError::TokenizerContract,
            old(self).offset() == 0 ==> result is Ok,
    {
        proof {
            use_type_invariant(&self.content);
            self.content.lemma_text_fits();
            self.content.lemma_rendering();
            lemma_caret_in_text(&self.content, self.cursor@);
        }
        let idx: usize = self.cursor.get_idx(&self.content);
        if idx > 0 {
            let saved = self.cursor;
            let ghost before = self.content;
            self.cursor.cursor_left(&self.content);
            proof {
                lemma_left_is_one_less(&self.content, saved@);
            }
            match self.content.update(idx - 1, idx, "") {
                Ok(()) => {
                    proof {
                        reveal_strlit("");
                        let tail = before@.text.skip(idx as int);
                        assert(self.content@.text =~= before@.text.take(idx - 1) + tail);
                        lemma_caret_survives(&before, &self.content, self.cursor@, tail);
                    }
                    Ok(())
                },
                Err(e) => {
                    proof {
                        reveal_strlit("");
                    }
                    self.cursor = saved;
                    Err(e)
                },
            }
        } else {
            proof {
                lemma_left_at_start(&self.content, self.cursor@);
            }
            Ok(())
        }
    }

    /// Erases the character after the caret; the caret stays. At the end of
    /// the text nothing happens. The result is an error where the tokenizer
    /// breaks its contract on the new text; then nothing has changed.
    pub fn key_delete(&mut self) -> (result: Result<(), HighlightError>)
        requires
            old(self).wf(),
        ensures
            final(self).wf(),
            old(self).edited(final(self)),
            result is Ok <==> old(self).renders(
                erased_after(old(self).text(), old(self).offset()).0,
            ),
            result is Ok ==> (final(self).text(), final(self).offset()) == erased_after(
                old(self).text(),
                old(self).offset(),
            ),
            result is Ok ==> final(self).caret() == old(self).caret(),
            result is Err ==> *final(self) == *old(self),
            result matches Err(e) ==> e == HighlightError::TokenizerContract,
            old(self).offset() >= old(self).text().len() ==> result is Ok,
    {
        proof {
            use_type_invariant(&self.content);
            self.content.lemma_text_fits();
            self.content.lemma_rendering();
            lemma_caret_in_text(&self.content, self.cursor@);
        }
        let idx: usize = self.cursor.get_idx(&self.content);
        if idx < self.content.num_chars() {
            let ghost before = self.content;
            proof {
                reveal_strlit("");
            }
            match self.content.update(idx, idx + 1, "") {
                Ok(()) => {
                    proof {
                        let tail = before@.text.skip(idx + 1);
                        assert(self.content@.text =~= before@.text.take(idx as int) + tail);
                        lemma_caret_survives(&before, &self.content, self.cursor@, tail);
                    }
                    Ok(())
                },
                Err(e) => Err(e),
            }
        } else {
            Ok(())
        }
    }

    /// Types `c`: the character goes into the text at the caret, then the
    /// caret moves one to the right, past it. The result is an error where
    /// the tokenizer breaks its contract on the new text; then nothing has
    /// changed.
    pub fn key_char(&mut self, c: char) -> (result: Result<(), HighlightError>)
        requires
            old(self).wf(),
        ensures
            final(self).wf(),
            old(self).edited(final(self)),
            result is Ok <==> old(self).renders(typed(old(self).text(), old(self).offset(), c).0),
            result is Ok ==> (final(self).text(), final(self).offset()) == typed(
                old(self).text(),
                old(self).offset(),
                c,
            ),
            result is Ok ==> final(self).caret() == caret_right(
                old(self).caret(),
                &final(self).content(),
            ),
            result is Err ==> *final(self) == *old(self),
            result matches Err(e) ==> e == HighlightError::TokenizerContract,
    {
        proof {
            use_type_invariant(&self.content);
            self.content.lemma_text_fits();
            self.content.lemma_rendering();
            lemma_caret_in_text(&self.content, self.cursor@);
        }
        let idx: usize = self.cursor.get_idx(&self.content);
        let mut s = String::new();
        push_char(&mut s, c);
        assert(s@ =~= seq![c]);
        let ghost before = self.content;
        match self.content.update(idx, idx, s.as_str()) {
            Ok(()) => {
                proof {
                    let rest = before@.text.skip(idx as int);
                    let tail = seq![c] + rest;
                    assert(self.content@.text =~= before@.text.take(idx as int) + tail);
                    lemma_caret_survives(&before, &self.content, self.cursor@, tail);
                    lemma_split_after_char(c, rest);
                    lemma_split_lines_shape(rest);
                    lemma_right_is_one_more(&self.content, self.cursor@);
                }
                self.cursor.cursor_right(&self.content);
                Ok(())
            },
            Err(e) => Err(e),
        }
    }

    /// The text once `command` has been carried out.
    pub open spec fn text_after(&self, command: Command) -> Seq<char> {
        match command {
            Command::Backspace => erased_before(self.text(), self.offset()).0,
            Command::Enter => typed(self.text(), self.offset(), '\n').0,
            Command::Delete => erased_after(self.text(), self.offset()).0,
            Command::Char(c) => typed(self.text(), self.offset(), c).0,
            _ => self.text(),
        }
    }

    /// `after` is the editor once `command` has been carried out on `self`.
    pub open spec fn carried_out(&self, command: Command, after: &Self) -> bool {
        match command {
            Command::CursorUp => after.content() == self.content() && after.caret() == caret_up(
                self.caret(),
                &self.content(),
            ),
            Command::CursorDown => after.content() == self.content() && after.caret()
                == caret_down(self.caret(), &self.content()),
            Command::CursorRight => after.content() == self.content() && after.caret()
                == caret_right(self.caret(), &self.content()),
            Command::CursorLeft => after.content() == self.content() && after.caret()
                == caret_left(self.caret(), &self.content()),
            Command::CursorHome => after.content() == self.content() && after.caret() == caret_at(
                &self.content(),
                self.caret().line,
                0,
            ),
            Command::CursorEnd => after.content() == self.content() && after.caret() == caret_at(
                &self.content(),
                self.caret().line,
                self.content().spec_num_chars_of_line(self.caret().line),
            ),
            Command::Backspace => (after.text(), after.offset()) == erased_before(
                self.text(),
                self.offset(),
            ) && after.caret() == caret_left(self.caret(), &self.content()),
            Command::Enter => (after.text(), after.offset()) == typed(
                self.text(),
                self.offset(),
                '\n',
            ) && after.caret() == caret_right(self.caret(), &after.content()),
            Command::Delete => (after.text(), after.offset()) == erased_after(
                self.text(),
                self.offset(),
            ) && after.caret() == self.caret(),
            Command::Char(c) => (after.text(), after.offset()) == typed(
                self.text(),
                self.offset(),
                c,
            ) && after.caret() == caret_right(self.caret(), &after.content()),
        }
    }

    /// Carries a command out. The result is an error where the tokenizer
    /// breaks its contract on the text that the command would leave; then
    /// nothing has changed. A command that only moves the caret leaves the
    /// text as it is, and so succeeds.
    pub fn run(&mut self, command: Command) -> (result: Result<(), HighlightError>)
        requires
            old(self).wf(),
        ensures
            final(self).wf(),
            old(self).edited(final(self)),
            result is Ok <==> old(self).renders(old(self).text_after(command)),
            result is Ok ==> old(self).carried_out(command, final(self)),
            result is Err ==> *final(self) == *old(self),
            result matches Err(e) ==> e == HighlightError::TokenizerContract,
    {
        proof {
            use_type_invariant(&self.content);
            self.content.lemma_rendering();
        }
        match command {
            Command::CursorUp => {
                self.cursor_up();
                Ok(())
            },
            Command::CursorDown => {
                self.cursor_down();
                Ok(())
            },
            Command::CursorRight => {
                self.cursor_right();
                Ok(())
            },
            Command::CursorLeft => {
                self.cursor_left();
                Ok(())
            },
            Command::CursorHome => {
                self.cursor_home();
                Ok(())
            },
            Command::CursorEnd => {
                self.cursor_end();
                Ok(())
            },
            Command::Backspace => self.key_backspace(),
            Command::Enter => self.key_enter(),
            Command::Delete => self.key_delete(),
            Command::Char(c) => self.key_char(c),
        }
    }

    /// The caret stays on its line and at its character index, and its pixel
    /// position is measured anew in the content of `after`.
    pub open spec fn remeasured(&self, after: &Self) -> bool {
        after.caret() == caret_at(&after.content(), self.caret().line, self.caret().char_index)
    }

    /// Measures the caret's pixel position anew, after the choices have
    /// changed.
    fn remeasure(&mut self)
        requires
            old(self).wf(),
        ensures
            final(self).wf(),
            final(self).content() == old(self).content(),
            old(self).remeasured(final(self)),
    {
        self.cursor.update_x_px(&self.content);
    }

    /// Takes another font choice, renders the text anew and measures the
    /// caret's pixel position anew. The font has no part in what the
    /// tokenizer does, so this succeeds.
    pub fn set_font(&mut self, font: FontSelection) -> (result: Result<(), HighlightError>)
        requires
            old(self).wf(),
        ensures
            final(self).wf(),
            result is Ok,
            old(self).remeasured(final(self)),
            final(self).content().measurer() == old(self).content().measurer(),
            final(self).content().engine() == old(self).content().engine(),
            final(self).text() == old(self).text(),
            final(self).content()@.font_selection == font,
            final(self).content()@.selected_syntax == old(self).content()@.selected_syntax,
            final(self).content()@.selected_theme == old(self).content()@.selected_theme,
            final(self).content()@.line_height == old(self).content()@.line_height,
            final(self).content()@.lines == final(self).content().rendering(final(self).text()),
    {
        match self.content.set_font(font) {
            Ok(()) => {
                self.remeasure();
                Ok(())
            },
            Err(e) => Err(e),
        }
    }

    /// Takes another syntax, or the first of the table if the table has none
    /// of that name, renders the text anew and measures the caret's pixel
    /// position anew. The result is an error where the tokenizer breaks its
    /// contract on the text in that syntax; then nothing has changed.
    pub fn set_syntax(&mut self, syntax: String) -> (result: Result<(), HighlightError>)
        requires
            old(self).wf(),
        ensures
            final(self).wf(),
            result is Ok <==> tokens_usable(
                &old(self).content().engine(),
                resolved_name(old(self).content().syntaxes(), syntax@),
                old(self).content()@.selected_theme,
                old(self).text(),
            ),
            result is Ok ==> old(self).remeasured(final(self)),
            final(self).content().measurer() == old(self).content().measurer(),
            final(self).content().engine() == old(self).content().engine(),
            result is Ok ==> final(self).text() == old(self).text()
                && final(self).content()@.font_selection == old(self).content()@.font_selection
                && final(self).content()@.selected_syntax == resolved_name(
                old(self).content().syntaxes(),
                syntax@,
            ) && final(self).content()@.selected_theme == old(self).content()@.selected_theme
                && final(self).content()@.line_height == old(self).content()@.line_height,
            result is Ok ==> final(self).content()@.lines == final(self).content().rendering(
                final(self).text(),
            ),
            result is Err ==> *final(self) == *old(self),
            result matches Err(e) ==> e == HighlightError::TokenizerContract,
    {
        match self.content.set_syntax(syntax) {
            Ok(()) => {
                self.remeasure();
                Ok(())
            },
            Err(e) => Err(e),
        }
    }

    /// Takes another theme, or the first of the table if the table has none
    /// of that name, renders the text anew and measures the caret's pixel
    /// position anew. The result is an error where the tokenizer breaks its
    /// contract on the text in that theme; then nothing has changed.
    pub fn set_theme(&mut self, theme: String) -> (result: Result<(), HighlightError>)
        requires
            old(self).wf(),
        ensures
            final(self).wf(),
            result is Ok <==> tokens_usable(
                &old(self).content().engine(),
                old(self).content()@.selected_syntax,
                resolved_name(old(self).content().themes(), theme@),
                old(self).text(),
            ),
            result is Ok ==> old(self).remeasured(final(self)),
            final(self).content().measurer() == old(self).content().measurer(),
            final(self).content().engine() == old(self).content().engine(),
            result is Ok ==> final(self).text() == old(self).text()
                && final(self).content()@.font_selection == old(self).content()@.font_selection
                && final(self).content()@.selected_syntax == old(self).content()@.selected_syntax
                && final(self).content()@.selected_theme == resolved_name(
                old(self).content().themes(),
                theme@,
            ) && final(self).content()@.line_height == old(self).content()@.line_height,
            result is Ok ==> final(self).content()@.lines == final(self).content().rendering(
                final(self).text(),
            ),
            result is Err ==> *final(self) == *old(self),
            result matches Err(e) ==> e == HighlightError::TokenizerContract,
    {
        match self.content.set_theme(theme) {
            Ok(()) => {
                self.remeasure();
                Ok(())
            },
            Err(e) => Err(e),
        }
    }

    /// What is kept of the editor between two sessions.
    pub fn get_state(&self) -> (state: State)
        ensures
            state.content@ == self.text(),
            state.font_selection == self.content()@.font_selection,
            state.selected_theme@ == self.content()@.selected_theme,
            state.selected_syntax@ == self.content()@.selected_syntax,
    {
        self.content.get_state()
    }

    /// The choices that the rendering was made with.
    pub fn get_options(&self) -> (options: &RichContentOptions)
        ensures
            options.font_selection == self.content()@.font_selection,
            options.selected_syntax@ == self.content()@.selected_syntax,
            options.selected_theme@ == self.content()@.selected_theme,
            options.line_height == self.content()@.line_height,
    {
        self.content.options()
    }
}

/// Typing a character and then erasing backwards restores the editor: the
/// text is what it was, and the caret is on the line and at the character
/// index where it was. `before`, `between` and `after` are the editor before
/// the character is typed, after it is typed, and after it is erased.
pub proof fn lemma_typing_then_erasing_restores<M: Fn(&Vec<Region>) -> usize>(
    before: &Controller<M>,
    between: &Controller<M>,
    after: &Controller<M>,
    c: char,
)
    requires
        before.wf(),
        after.wf(),
        (between.text(), between.offset()) == typed(before.text(), before.offset(), c),
        (after.text(), after.offset()) == erased_before(between.text(), between.offset()),
    ensures
        after.text() == before.text(),
        after.offset() == before.offset(),
        after.caret().line == before.caret().line,
        after.caret().char_index == before.caret().char_index,
{
    lemma_caret_in_text(&before.content(), before.caret());
    lemma_typed_then_erased(before.text(), before.offset(), c);
    lemma_chars_before_line(&before.content(), before.caret().line);
    lemma_chars_before_line(&after.content(), before.caret().line);
    lemma_caret_of_offset(&after.content(), before.caret(), after.caret());
}

/// A caret that lies in a text lies at an offset of the text.
pub proof fn lemma_caret_in_text<M: Fn(&Vec<Region>) -> usize>(content: &Content<M>, caret: Caret)
    requires
        caret_fits(caret, content),
    ensures
        caret_offset(caret, content) <= content@.text.len(),
{
    lemma_chars_before_line(content, caret.line);
    lemma_line_in_text(content@.text, caret.line);
}

/// One step to the left is one offset less, unless the caret is at the start
/// of the text.
pub proof fn lemma_left_is_one_less<M: Fn(&Vec<Region>) -> usize>(
    content: &Content<M>,
    caret: Caret,
)
    requires
        caret_fits(caret, content),
        caret_offset(caret, content) > 0,
    ensures
        caret_offset(caret_left(caret, content), content) + 1 == caret_offset(caret, content),
{
}

/// At offset 0 a step to the left goes nowhere.
pub proof fn lemma_left_at_start<M: Fn(&Vec<Region>) -> usize>(
    content: &Content<M>,
    caret: Caret,
)
    requires
        caret_offset(caret, content) == 0,
    ensures
        caret_left(caret, content) == caret,
{
}

/// One step to the right is one offset more, unless the caret is at the end
/// of the text.
pub proof fn lemma_right_is_one_more<M: Fn(&Vec<Region>) -> usize>(
    content: &Content<M>,
    caret: Caret,
)
    requires
        caret_fits(caret, content),
        caret.char_index < content.spec_num_chars_of_line(caret.line) || caret.line + 1
            < content.spec_num_lines(),
    ensures
        caret_offset(caret_right(caret, content), content) == caret_offset(caret, content) + 1,
{
}

} // verus!
