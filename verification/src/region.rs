//! Regions: the styled pieces that a line of text is shown as.

use vstd::prelude::*;
use vstd::string::StringExecFns;
use crate::chars::chars_of;
use crate::chars::push_char;
use crate::highlight::color_css;
use crate::highlight::font_css;
use crate::highlight::font_for_scope;
use crate::highlight::style_to_css;
use crate::highlight::tooltip_for_scope;
use crate::highlight::tooltip_of;
use crate::style::FontSelection;
use crate::style::Style;
use crate::text::without_newlines;

verus! {

/// A piece of one line, with the style it is shown in.
#[derive(Clone)]
pub struct Region {
    s: String,
    sty: String,
    title: String,
}

/// A region as a mathematical value.
pub struct RegionView {
    /// The characters of the piece.
    pub text: Seq<char>,
    /// Its style declarations: colours, font family, font size.
    pub style: Seq<char>,
    /// Its tooltip: the lexical scope and the font class.
    pub tooltip: Seq<char>,
}

impl View for Region {
    type V = RegionView;

    closed spec fn view(&self) -> RegionView {
        RegionView { text: self.s@, style: self.sty@, tooltip: self.title@ }
    }
}

/// The regions as mathematical values.
pub open spec fn regions_view(regions: Seq<Region>) -> Seq<RegionView> {
    regions.map_values(|r: Region| r@)
}

/// The characters of a line: the texts of its regions, set end to end.
pub open spec fn line_text(regions: Seq<RegionView>) -> Seq<char>
    decreases regions.len(),
{
    if regions.len() == 0 {
        Seq::<char>::empty()
    } else {
        line_text(regions.drop_last()) + regions.last().text
    }
}

/// The non-breaking space that stands for a space on the screen.
pub open spec fn shown_char(c: char) -> char {
    if c == ' ' {
        '\u{a0}'
    } else {
        c
    }
}

/// The characters as they are shown: each space as a non-breaking space.
pub open spec fn shown_text(s: Seq<char>) -> Seq<char> {
    s.map_values(|c: char| shown_char(c))
}

/// The region that a token becomes: its text without line separators, the
/// colours of its style followed by the font of its scope, and the tooltip of
/// its scope.
pub open spec fn region_of(text: Seq<char>, style: Style, scope: Seq<char>, font: FontSelection)
    -> RegionView {
    RegionView {
        text: without_newlines(text),
        style: color_css(style) + font_css(scope, font),
        tooltip: tooltip_of(scope),
    }
}

/// The region is styled as a token is: with the colours of some style and
/// with the font and the tooltip of some scope.
pub open spec fn styled_as_token(r: RegionView, font: FontSelection) -> bool {
    exists|style: Style, scope: Seq<char>|
        #![trigger color_css(style), tooltip_of(scope)]
        r.style == color_css(style) + font_css(scope, font) && r.tooltip == tooltip_of(scope)
}

impl Region {
    pub fn new(s: String, sty: String, title: String) -> (r: Region)
        ensures
            r@ == (RegionView { text: s@, style: sty@, tooltip: title@ }),
    {
        Region { s, sty, title }
    }

    /// The text of the region.
    pub fn text(&self) -> (s: &str)
        ensures
            s@ == self@.text,
    {
        self.s.as_str()
    }

    /// The style declarations of the region.
    pub fn style(&self) -> (s: &str)
        ensures
            s@ == self@.style,
    {
        self.sty.as_str()
    }

    /// The tooltip of the region.
    pub fn tooltip(&self) -> (s: &str)
        ensures
            s@ == self@.tooltip,
    {
        self.title.as_str()
    }

    /// The text of the region as it is shown: each space as a non-breaking
    /// space.
    pub fn shown(&self) -> (s: String)
        ensures
            s@ == shown_text(self@.text),
    {
        let v = chars_of(self.s.as_str());
        shown_prefix(&v, v.len())
    }

    /// The region with only the first `n` characters of its text, as they are
    /// shown.
    pub(crate) fn shown_run(&self, n: usize) -> (r: Region)
        requires
            n <= self@.text.len(),
        ensures
            r@ == (RegionView {
                text: shown_text(self@.text.take(n as int)),
                style: self@.style,
                tooltip: self@.tooltip,
            }),
    {
        let v = chars_of(self.s.as_str());
        Region { s: shown_prefix(&v, n), sty: self.sty.clone(), title: self.title.clone() }
    }

    /// Number of characters of the text.
    pub(crate) fn num_chars(&self) -> (n: usize)
        ensures
            n == self@.text.len(),
    {
        chars_of(self.s.as_str()).len()
    }
}

/// The first `n` characters of `v` as they are shown.
fn shown_prefix(v: &Vec<char>, n: usize) -> (s: String)
    requires
        n <= v.len(),
    ensures
        s@ == shown_text(v@.take(n as int)),
{
    let mut s = String::new();
    let mut i: usize = 0;
    while i < n
        invariant
            i <= n <= v.len(),
            s@ == shown_text(v@.take(i as int)),
        decreases n - i,
    {
        let c = v[i];
        push_char(
            &mut s,
            if c == ' ' {
                '\u{a0}'
            } else {
                c
            },
        );
        assert(s@ =~= shown_text(v@.take(i + 1)));
        i = i + 1;
    }
    s
}

/// `s` without its line separators.
pub fn strip_newlines(s: &str) -> (r: String)
    ensures
        r@ == without_newlines(s@),
{
    let v = chars_of(s);
    let mut r = String::new();
    let mut i: usize = 0;
    assert(v@.take(0) =~= Seq::<char>::empty());
    reveal_with_fuel(Seq::filter, 1);
    while i < v.len()
        invariant
            i <= v.len(),
            r@ == without_newlines(v@.take(i as int)),
        decreases v.len() - i,
    {
        let c = v[i];
        proof {
            reveal_with_fuel(Seq::filter, 1);
            assert(v@.take(i + 1).drop_last() =~= v@.take(i as int));
            assert(v@.take(i + 1).last() == c);
        }
        if c != '\n' {
            push_char(&mut r, c);
        }
        i = i + 1;
    }
    assert(v@.take(v.len() as int) =~= v@);
    r
}

/// Makes the region of a token: see [`region_of`].
pub fn build_region(text: &str, style: &Style, scope: &str, font: &FontSelection) -> (r: Region)
    ensures
        r@ == region_of(text@, *style, scope@, *font),
{
    let mut sty = style_to_css(style);
    sty.append(font_for_scope(scope, font).as_str());
    Region::new(strip_newlines(text), sty, tooltip_for_scope(scope))
}

} // verus!
