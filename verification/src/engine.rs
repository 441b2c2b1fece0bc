//! The tables of syntaxes and themes, loaded once and then only read.

use vstd::prelude::*;
use syntect::highlighting::Highlighter;
use syntect::highlighting::ThemeSet;
use syntect::parsing::ParseState;
use syntect::parsing::SyntaxSet;
use crate::tokenizer::first_syntax_name;
use crate::tokenizer::fresh_highlighter;
use crate::tokenizer::fresh_parser;
use crate::tokenizer::first_theme_name;
use crate::tokenizer::load_syntaxes;
use crate::tokenizer::load_themes;
use crate::tokenizer::no_syntaxes;
use crate::tokenizer::no_themes;
use crate::tokenizer::parser_of;
use crate::tokenizer::set_sound;
use crate::tokenizer::plain_text_name;
use crate::tokenizer::shipped_theme_names;
use crate::tokenizer::start_highlighter;
use crate::tokenizer::start_parser;
use crate::tokenizer::syntax_names;
use crate::tokenizer::theme_names;

verus! {

/// The syntaxes and themes that texts are highlighted with.
pub struct Engine {
    pub(crate) syntaxes: SyntaxSet,
    pub(crate) themes: ThemeSet,
}

/// The name that stands for `wanted` in a table: `wanted` itself where the
/// table has it, and the table's first name where it has not.
pub open spec fn resolved_name(table: Seq<Seq<char>>, wanted: Seq<char>) -> Seq<char> {
    if table.contains(wanted) {
        wanted
    } else {
        table[0]
    }
}

impl Engine {
    /// The syntaxes can be parsed with.
    #[verifier::type_invariant]
    pub closed spec fn inv(&self) -> bool {
        set_sound(self.syntaxes)
    }

    /// The syntaxes of an engine can be parsed with.
    pub(crate) proof fn lemma_sound(&self)
        requires
            self.inv(),
        ensures
            set_sound(self.syntaxes),
    {
    }

    /// The names of the syntaxes, in the table's order.
    pub closed spec fn syntaxes(&self) -> Seq<Seq<char>> {
        syntax_names(self.syntaxes)
    }

    /// The names of the themes, in the table's order.
    pub closed spec fn themes(&self) -> Seq<Seq<char>> {
        theme_names(self.themes)
    }

    /// An engine without syntaxes and without themes.
    pub fn new() -> (engine: Engine)
        ensures
            engine.syntaxes().len() == 0,
            engine.themes().len() == 0,
    {
        Engine { syntaxes: no_syntaxes(), themes: no_themes() }
    }

    /// The engine with the shipped syntaxes in place of its own. The syntax
    /// for plain text is among them; which others are is not told.
    pub fn with_default_syntaxes(self) -> (engine: Engine)
        ensures
            engine.syntaxes().contains(plain_text_name()),
            engine.themes() == self.themes(),
    {
        Engine { syntaxes: load_syntaxes(), themes: self.themes }
    }

    /// The engine with the shipped themes in place of its own: see
    /// [`shipped_theme_names`].
    pub fn with_default_themes(self) -> (engine: Engine)
        ensures
            engine.syntaxes() == self.syntaxes(),
            engine.themes() == shipped_theme_names(),
    {
        proof {
            use_type_invariant(&self);
        }
        Engine { syntaxes: self.syntaxes, themes: load_themes() }
    }

    /// Loads the syntaxes and themes that ship with the engine. The syntax
    /// for plain text is among the syntaxes, and the themes are those of
    /// [`shipped_theme_names`]: so neither table is empty.
    pub fn load_defaults() -> (engine: Engine)
        ensures
            engine.syntaxes().contains(plain_text_name()),
            engine.themes() == shipped_theme_names(),
    {
        Engine { syntaxes: load_syntaxes(), themes: load_themes() }
    }

    /// The syntax that stands for `name`: `name` itself if the table has it,
    /// else the table's first syntax. `None` only for an empty table.
    pub fn resolve_syntax(&self, name: &str) -> (known: Option<String>)
        ensures
            known is Some <==> self.syntaxes().len() > 0,
            known matches Some(n) ==> n@ == resolved_name(self.syntaxes(), name@),
    {
        proof {
            use_type_invariant(self);
            self.lemma_sound();
        }
        match start_parser(&self.syntaxes, name) {
            Some(_) => {
                assert(self.syntaxes().len() > 0);
                Some(name.to_owned())
            },
            None => first_syntax_name(&self.syntaxes),
        }
    }

    /// The theme that stands for `name`: `name` itself if the table has it,
    /// else the table's first theme. `None` only for an empty table.
    pub fn resolve_theme(&self, name: &str) -> (known: Option<String>)
        ensures
            known is Some <==> self.themes().len() > 0,
            known matches Some(n) ==> n@ == resolved_name(self.themes(), name@),
    {
        match start_highlighter(&self.themes, name) {
            Some(_) => {
                assert(self.themes().len() > 0);
                Some(name.to_owned())
            },
            None => first_theme_name(&self.themes),
        }
    }

    /// A fresh parser for the syntax that stands for `name`.
    pub(crate) fn parser_for(&self, name: &str) -> (parser: Option<ParseState>)
        ensures
            parser is Some <==> self.syntaxes().len() > 0,
            parser matches Some(state) ==> parser_of(self.syntaxes, state) && state
                == fresh_parser(self.syntaxes, resolved_name(self.syntaxes(), name@)),
    {
        proof {
            use_type_invariant(self);
            self.lemma_sound();
        }
        match start_parser(&self.syntaxes, name) {
            Some(state) => {
                assert(self.syntaxes().len() > 0);
                Some(state)
            },
            None => match first_syntax_name(&self.syntaxes) {
                Some(first) => {
                    assert(self.syntaxes().contains(self.syntaxes()[0]));
                    start_parser(&self.syntaxes, first.as_str())
                },
                None => None,
            },
        }
    }

    /// A highlighter for the theme that stands for `name`.
    pub(crate) fn highlighter_for<'a>(&'a self, name: &str) -> (highlighter: Option<
        Highlighter<'a>,
    >)
        ensures
            highlighter is Some <==> self.themes().len() > 0,
            highlighter matches Some(h) ==> h == fresh_highlighter(
                self.themes,
                resolved_name(self.themes(), name@),
            ),
    {
        match start_highlighter(&self.themes, name) {
            Some(h) => {
                assert(self.themes().len() > 0);
                Some(h)
            },
            None => match first_theme_name(&self.themes) {
                Some(first) => {
                    assert(self.themes().contains(self.themes()[0]));
                    start_highlighter(&self.themes, first.as_str())
                },
                None => None,
            },
        }
    }
}

} // verus!
