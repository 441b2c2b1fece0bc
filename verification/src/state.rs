//! What is kept of an editor between two sessions.

use vstd::prelude::*;
use vstd::string::StringExecFns;
use crate::style::FontSelection;

verus! {

/// All that is needed to set an editor up again: the text and the choices of
/// theme, syntax and font. The caret is not kept.
pub struct State {
    pub content: String,
    pub selected_theme: String,
    pub selected_syntax: String,
    pub font_selection: FontSelection,
}

impl State {
    /// The state of an editor that starts on `content` with the default
    /// choices: the theme `InspiredGitHub`, the syntax `Python`, and each
    /// piece in the font that suits its scope.
    pub fn initial(content: String) -> (state: State)
        ensures
            state.content@ == content@,
            state.selected_theme@ == "InspiredGitHub"@,
            state.selected_syntax@ == "Python"@,
            state.font_selection == FontSelection::Mixed,
    {
        State {
            content,
            selected_theme: String::from_str("InspiredGitHub"),
            selected_syntax: String::from_str("Python"),
            font_selection: FontSelection::Mixed,
        }
    }
}

} // verus!
