use edix::content::RichContentOptions;
use edix::engine::Engine;
use edix::highlight::font_for_scope;
use edix::highlight::highlight;
use edix::highlight::scope_is_proportional;
use edix::highlight::style_to_css;
use edix::highlight::to_html_color;
use edix::highlight::tooltip_for_scope;
use edix::region::build_region;
use edix::region::strip_newlines;
use edix::region::Region;
use edix::style::Color;
use edix::style::FontSelection;
use edix::style::HighlightError;
use edix::style::Style;

const MONO: &str = "font-family: \"Fira Code\", monospace; font-size: 15px;";
const SANS: &str = "font-family: \"Fira\", sans-serif; font-size: 15px;";

fn options(font: FontSelection, syntax: &str, theme: &str) -> RichContentOptions {
    RichContentOptions {
        font_selection: font,
        selected_syntax: syntax.to_string(),
        selected_theme: theme.to_string(),
        line_height: 20,
    }
}

fn python(font: FontSelection) -> RichContentOptions {
    options(font, "Python", "InspiredGitHub")
}

fn text_of(line: &Vec<Region>) -> String {
    line.iter().map(|r| r.text()).collect()
}

fn region_with<'a>(lines: &'a Vec<Vec<Region>>, text: &str) -> &'a Region {
    lines
        .iter()
        .flat_map(|line| line.iter())
        .find(|r| r.text() == text)
        .expect("a region with that text")
}

#[test]
fn html_color_is_lower_case_hex_with_alpha() {
    let c = Color { r: 255, g: 0, b: 171, a: 9 };
    assert_eq!(to_html_color(&c), "#ff00ab09");
    assert_eq!(to_html_color(&Color { r: 0, g: 0, b: 0, a: 0 }), "#00000000");
    assert_eq!(to_html_color(&Color { r: 16, g: 15, b: 160, a: 255 }), "#100fa0ff");
}

#[test]
fn css_names_foreground_then_background() {
    let style = Style {
        foreground: Color { r: 1, g: 2, b: 3, a: 255 },
        background: Color { r: 255, g: 255, b: 255, a: 255 },
    };
    assert_eq!(style_to_css(&style), "color: #010203ff; background-color: #ffffffff; ");
}

#[test]
fn mixed_mode_picks_the_family_by_scope() {
    assert_eq!(font_for_scope("string.quoted.double", &FontSelection::Mixed), SANS);
    assert_eq!(font_for_scope("keyword.control", &FontSelection::Mixed), MONO);
}

#[test]
fn monospace_and_sans_modes_ignore_the_scope() {
    assert_eq!(font_for_scope("string.quoted.double", &FontSelection::Monospace), MONO);
    assert_eq!(font_for_scope("keyword.control", &FontSelection::Monospace), MONO);
    assert_eq!(font_for_scope("string.quoted.double", &FontSelection::Sans), SANS);
    assert_eq!(font_for_scope("keyword.control", &FontSelection::Sans), SANS);
}

#[test]
fn proportional_scopes_are_the_seven_prefixes() {
    for scope in [
        "comment",
        "comment.line.number-sign.python",
        "string",
        "string.quoted.double",
        "constant",
        "constant.numeric.integer",
        "constant.character",
        "entity.name.function",
        "variable.parameter",
        "meta.generic-name",
        "meta.generic-name.python",
        "support.function.builtin",
    ] {
        assert!(scope_is_proportional(scope), "{}", scope);
    }
    for scope in [
        "",
        "keyword",
        "keyword.control",
        "constant.character.escape",
        "constant.character.escape.python",
        "meta.generic",
        "meta.statement.if.python",
        "source.python",
        "punctuation.definition.string.begin.python",
        "commen",
        "xcomment",
    ] {
        assert!(!scope_is_proportional(scope), "{}", scope);
    }
}

#[test]
fn tooltip_names_scope_and_font_class() {
    assert_eq!(tooltip_for_scope("string.quoted.double"), "string.quoted.double (Sans)");
    assert_eq!(tooltip_for_scope("keyword.control"), "keyword.control (Monospace)");
    assert_eq!(tooltip_for_scope(""), " (Monospace)");
}

#[test]
fn newlines_are_taken_out_wherever_they_stand() {
    assert_eq!(strip_newlines("ab\n"), "ab");
    assert_eq!(strip_newlines("\na\n\nb"), "ab");
    assert_eq!(strip_newlines(""), "");
    assert_eq!(strip_newlines("a b"), "a b");
}

#[test]
fn region_of_a_token_joins_colours_and_font() {
    let style = Style {
        foreground: Color { r: 24, g: 54, b: 145, a: 255 },
        background: Color { r: 255, g: 255, b: 255, a: 255 },
    };
    let r = build_region("hi\n", &style, "string.quoted.double.python", &FontSelection::Mixed);
    assert_eq!(r.text(), "hi");
    assert_eq!(
        r.style(),
        "color: #183691ff; background-color: #ffffffff; font-family: \"Fira\", sans-serif; font-size: 15px;"
    );
    assert_eq!(r.tooltip(), "string.quoted.double.python (Sans)");
}

#[test]
fn region_keeps_what_it_is_made_of() {
    let r = Region::new("a b".to_string(), "color: red;".to_string(), "tip".to_string());
    assert_eq!(r.text(), "a b");
    assert_eq!(r.style(), "color: red;");
    assert_eq!(r.tooltip(), "tip");
    assert_eq!(r.shown(), "a\u{a0}b");
}

#[test]
fn regions_of_a_line_make_up_the_line() {
    let engine = Engine::load_defaults();
    let lines = highlight("x = \"hi\"  # note\nprint(x)\n", &python(FontSelection::Mixed), &engine)
        .expect("the shipped tables highlight Python");
    assert_eq!(lines.len(), 2);
    assert_eq!(text_of(&lines[0]), "x = \"hi\"  # note");
    assert_eq!(text_of(&lines[1]), "print(x)");
}

#[test]
fn highlighting_leaves_out_an_empty_last_line() {
    let engine = Engine::load_defaults();
    let o = python(FontSelection::Mixed);
    assert_eq!(highlight("", &o, &engine).unwrap().len(), 0);
    assert_eq!(highlight("a", &o, &engine).unwrap().len(), 1);
    assert_eq!(highlight("a\n", &o, &engine).unwrap().len(), 1);
    assert_eq!(highlight("a\nb", &o, &engine).unwrap().len(), 2);
    assert_eq!(highlight("\n\n", &o, &engine).unwrap().len(), 2);
}

#[test]
fn string_is_proportional_and_keyword_monospaced_in_mixed_mode() {
    let engine = Engine::load_defaults();
    let lines = highlight("if x:\n    y = \"h\"\n", &python(FontSelection::Mixed), &engine).unwrap();
    let keyword = region_with(&lines, "if");
    assert_eq!(keyword.tooltip(), "keyword.control.flow.conditional.python (Monospace)");
    assert!(keyword.style().ends_with(MONO));
    let string = region_with(&lines, "h");
    assert_eq!(string.tooltip(), "string.quoted.double.python (Sans)");
    assert!(string.style().ends_with(SANS));
}

#[test]
fn every_region_is_styled_with_colours_then_font() {
    let engine = Engine::load_defaults();
    let lines = highlight("def f(a):\n    return a + 1  # c\n", &python(FontSelection::Mixed), &engine)
        .unwrap();
    for r in lines.iter().flat_map(|line| line.iter()) {
        assert!(r.style().starts_with("color: #"), "{}", r.style());
        assert!(r.style().contains("; background-color: #"), "{}", r.style());
        let sans = r.tooltip().ends_with(" (Sans)");
        let mono = r.tooltip().ends_with(" (Monospace)");
        assert!(sans != mono, "{}", r.tooltip());
        assert!(r.style().ends_with(if sans { SANS } else { MONO }), "{}", r.style());
    }
}

#[test]
fn font_mode_overrides_the_scope() {
    let engine = Engine::load_defaults();
    let text = "if x:\n    y = \"h\"\n";
    let mono = highlight(text, &python(FontSelection::Monospace), &engine).unwrap();
    let sans = highlight(text, &python(FontSelection::Sans), &engine).unwrap();
    for r in mono.iter().flat_map(|line| line.iter()) {
        assert!(r.style().ends_with(MONO));
    }
    for r in sans.iter().flat_map(|line| line.iter()) {
        assert!(r.style().ends_with(SANS));
    }
    assert_eq!(region_with(&mono, "h").tooltip(), "string.quoted.double.python (Sans)");
    assert_eq!(
        region_with(&sans, "if").tooltip(),
        "keyword.control.flow.conditional.python (Monospace)"
    );
}

#[test]
fn the_theme_decides_the_colours() {
    let engine = Engine::load_defaults();
    let light = highlight("x", &options(FontSelection::Mixed, "Python", "InspiredGitHub"), &engine)
        .unwrap();
    let dark = highlight("x", &options(FontSelection::Mixed, "Python", "base16-ocean.dark"), &engine)
        .unwrap();
    assert!(light[0][0].style().contains("background-color: #ffffffff"));
    assert!(dark[0][0].style().contains("background-color: #2b303bff"));
}

#[test]
fn unknown_syntax_and_theme_fall_back_to_the_first_of_their_table() {
    let engine = Engine::load_defaults();
    let text = "if x:\n    y = \"h\"\n";
    let fallen = highlight(text, &options(FontSelection::Mixed, "no such", "no such"), &engine)
        .unwrap();
    let first_syntax = engine.resolve_syntax("no such").unwrap();
    let first_theme = engine.resolve_theme("no such").unwrap();
    let named = highlight(text, &options(FontSelection::Mixed, &first_syntax, &first_theme), &engine)
        .unwrap();
    assert_eq!(fallen.len(), named.len());
    for (a, b) in fallen.iter().zip(named.iter()) {
        assert_eq!(a.len(), b.len());
        for (x, y) in a.iter().zip(b.iter()) {
            assert_eq!(x.text(), y.text());
            assert_eq!(x.style(), y.style());
            assert_eq!(x.tooltip(), y.tooltip());
        }
    }
}

#[test]
fn without_syntaxes_nothing_is_highlighted() {
    let o = python(FontSelection::Mixed);
    assert!(matches!(highlight("x", &o, &Engine::new()), Err(HighlightError::NoSyntax)));
    assert!(matches!(highlight("", &o, &Engine::new()), Err(HighlightError::NoSyntax)));
    let themes_only = Engine::new().with_default_themes();
    assert!(matches!(highlight("x", &o, &themes_only), Err(HighlightError::NoSyntax)));
}

#[test]
fn without_themes_nothing_is_highlighted() {
    let o = python(FontSelection::Mixed);
    let syntaxes_only = Engine::new().with_default_syntaxes();
    assert!(matches!(highlight("x", &o, &syntaxes_only), Err(HighlightError::NoTheme)));
    assert!(matches!(highlight("", &o, &syntaxes_only), Err(HighlightError::NoTheme)));
}

#[test]
fn lines_beyond_ascii_get_a_scope_for_every_span() {
    let engine = Engine::load_defaults();
    let lines = highlight("s = \"ééééééé\"   \nwörld = 'é'\n", &python(FontSelection::Mixed), &engine)
        .unwrap();
    assert_eq!(text_of(&lines[0]), "s = \"ééééééé\"   ");
    assert_eq!(text_of(&lines[1]), "wörld = 'é'");
    assert_eq!(region_with(&lines, "ééééééé").tooltip(), "string.quoted.double.python (Sans)");
    assert_eq!(region_with(&lines, "wörld").tooltip(), "meta.generic-name.python (Sans)");
}

#[test]
fn text_beyond_ascii_is_kept_as_it_is() {
    let engine = Engine::load_defaults();
    let lines = highlight(
        "héllo wörld\n\"éééé\" a",
        &options(FontSelection::Mixed, "Plain Text", "InspiredGitHub"),
        &engine,
    )
    .unwrap();
    assert_eq!(text_of(&lines[0]), "héllo wörld");
    assert_eq!(text_of(&lines[1]), "\"éééé\" a");
}

#[test]
fn the_scope_is_carried_from_line_to_line() {
    let engine = Engine::load_defaults();
    let lines = highlight(
        "s = \"\"\"first\nsecond\nthird\"\"\"\nx\n",
        &python(FontSelection::Mixed),
        &engine,
    )
    .unwrap();
    assert_eq!(lines.len(), 4);
    assert_eq!(text_of(&lines[1]), "second");
    for r in lines[1].iter().filter(|r| !r.text().is_empty()) {
        assert!(r.tooltip().starts_with("string.quoted.double.block"), "{}", r.tooltip());
        assert!(r.style().ends_with(SANS));
    }
    assert_eq!(region_with(&lines, "x").tooltip(), "meta.generic-name.python (Sans)");
}

/// How often the parser sets scopes aside and brings them back on this text.
fn clears_and_restores(syntax: &str, text: &str) -> (usize, usize) {
    let set = syntect::parsing::SyntaxSet::load_defaults_newlines();
    let mut state = syntect::parsing::ParseState::new(set.find_syntax_by_name(syntax).unwrap());
    let mut counts = (0, 0);
    for line in syntect::util::LinesWithEndings::from(text) {
        for (_, op) in state.parse_line(line, &set) {
            match op {
                syntect::parsing::ScopeStackOp::Clear(_) => counts.0 += 1,
                syntect::parsing::ScopeStackOp::Restore => counts.1 += 1,
                _ => {}
            }
        }
    }
    counts
}

#[test]
fn scopes_set_aside_inside_a_string_come_back_after_it() {
    let engine = Engine::load_defaults();
    let text = "a = f\"x{b + 1}y\" + r\"\\d+(z)\"\nc = 2\n";
    assert_eq!(clears_and_restores("Python", text), (1, 1));
    let lines = highlight(text, &python(FontSelection::Mixed), &engine).unwrap();
    assert_eq!(text_of(&lines[0]), "a = f\"x{b + 1}y\" + r\"\\d+(z)\"");
    assert_eq!(text_of(&lines[1]), "c = 2");
    assert_eq!(region_with(&lines, "c").tooltip(), "meta.generic-name.python (Sans)");
    assert_eq!(region_with(&lines, "2").tooltip(), "constant.numeric.integer.decimal.python (Sans)");
    let html = highlight(
        "<style>p { color: red }</style>\n<script>var s = `a${b}`;</script>\n<p>t</p>\n",
        &options(FontSelection::Mixed, "HTML", "InspiredGitHub"),
        &engine,
    )
    .unwrap();
    assert_eq!(text_of(&html[0]), "<style>p { color: red }</style>");
    assert_eq!(text_of(&html[1]), "<script>var s = `a${b}`;</script>");
    assert_eq!(region_with(&html, "t").tooltip(), "text.html.basic (Monospace)");
}

#[test]
fn a_stack_deeper_than_the_highlighter_can_style_is_a_contract_error() {
    let engine = Engine::load_defaults();
    let o = options(FontSelection::Mixed, "JSON", "InspiredGitHub");
    let shallow = format!("{}\"s\"\n", "[".repeat(300));
    let lines = highlight(&shallow, &o, &engine).unwrap();
    assert_eq!(text_of(&lines[0]), shallow.trim_end());
    let deep = format!("{}\"s\"\n", "[".repeat(22_000));
    assert!(matches!(highlight(&deep, &o, &engine), Err(HighlightError::TokenizerContract)));
}

#[test]
fn the_same_text_and_choices_give_the_same_regions() {
    let engine = Engine::load_defaults();
    let text = "def f(a):\n    return \"é\" + a  # c\n\n";
    let first = highlight(text, &python(FontSelection::Mixed), &engine).unwrap();
    let second = highlight(text, &python(FontSelection::Mixed), &Engine::load_defaults()).unwrap();
    assert_eq!(first.len(), second.len());
    for (a, b) in first.iter().zip(second.iter()) {
        assert_eq!(a.len(), b.len());
        for (x, y) in a.iter().zip(b.iter()) {
            assert_eq!((x.text(), x.style(), x.tooltip()), (y.text(), y.style(), y.tooltip()));
        }
    }
}

#[test]
fn plain_text_has_one_region_for_each_line() {
    let engine = Engine::load_defaults();
    let lines = highlight("a\nb", &options(FontSelection::Mixed, "Plain Text", "InspiredGitHub"), &engine)
        .unwrap();
    assert_eq!(lines.len(), 2);
    assert_eq!(lines[0].len(), 1);
    assert_eq!(lines[1].len(), 1);
    assert_eq!(lines[0][0].text(), "a");
    assert_eq!(lines[1][0].text(), "b");
    assert_eq!(lines[0][0].tooltip(), "text.plain (Monospace)");
    assert!(lines[0][0].style().ends_with(MONO));
}
