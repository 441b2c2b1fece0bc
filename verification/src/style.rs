//! Colours and styles as plain values, and the user's font choice.

use vstd::prelude::*;

verus! {

/// A colour with transparency, each part from 0 to 255.
#[derive(Clone, Copy, Debug, PartialEq, Eq, Structural)]
pub struct Color {
    pub r: u8,
    pub g: u8,
    pub b: u8,
    pub a: u8,
}

/// The colours that a theme gives to a piece of text.
#[derive(Clone, Copy, Debug, PartialEq, Eq, Structural)]
pub struct Style {
    pub foreground: Color,
    pub background: Color,
}

/// Which font family the text is set in.
#[derive(Clone, Copy, Debug, PartialEq, Eq, Structural)]
pub enum FontSelection {
    /// Every piece in the monospaced family.
    Monospace,
    /// Every piece in the proportional family.
    Sans,
    /// Each piece in the family that suits its lexical scope.
    Mixed,
}

/// Why a text could not be highlighted.
#[derive(Clone, Copy, Debug, PartialEq, Eq, Structural)]
pub enum HighlightError {
    /// The table of syntaxes is empty, so there is none to fall back on.
    NoSyntax,
    /// The table of themes is empty, so there is none to fall back on.
    NoTheme,
    /// The tokenizer broke its side of the contract: its operations did not
    /// fit the line or the stack of scopes, or the spans it cut a line into
    /// were not as many as the scopes found for them.
    TokenizerContract,
}

} // verus!
