use edix::content::RichContentOptions;
use edix::controller::Controller;
use edix::engine::Engine;
use edix::region::Region;
use edix::style::FontSelection;
use edix::style::HighlightError;

type Measure = fn(&Vec<Region>) -> usize;

fn options(syntax: &str) -> RichContentOptions {
    RichContentOptions {
        font_selection: FontSelection::Mixed,
        selected_syntax: syntax.to_string(),
        selected_theme: "InspiredGitHub".to_string(),
        line_height: 20,
    }
}

/// Eight pixels for every character.
fn uniform(runs: &Vec<Region>) -> usize {
    runs.iter().map(|r| r.text().chars().count()).sum::<usize>() * 8
}

fn editor(text: &str) -> Controller<Measure> {
    Controller::new(text, options("Python"), Engine::load_defaults(), uniform as Measure).unwrap()
}

/// Line and character index of the caret, told from its pixel position.
fn place(c: &Controller<Measure>) -> (usize, usize) {
    (c.get_y() / 20, c.get_x() / 8)
}

#[test]
fn typing_into_an_empty_text_and_erasing_again() {
    let mut c = editor("");
    c.key_char('x').unwrap();
    assert_eq!(c.get_raw_text(), "x");
    assert_eq!(place(&c), (0, 1));
    c.key_backspace().unwrap();
    assert_eq!(c.get_raw_text(), "");
    assert_eq!(place(&c), (0, 0));
}

#[test]
fn a_new_editor_starts_at_the_origin() {
    let c = editor("ab\ncd");
    assert_eq!(c.get_raw_text(), "ab\ncd");
    assert_eq!((c.get_x(), c.get_y()), (0, 0));
    assert_eq!(c.get_lines().len(), 2);
}

#[test]
fn typing_moves_the_caret_past_the_character() {
    let mut c = editor("ad");
    c.cursor_right();
    c.key_char('b').unwrap();
    c.key_char('c').unwrap();
    assert_eq!(c.get_raw_text(), "abcd");
    assert_eq!(place(&c), (0, 3));
}

#[test]
fn enter_breaks_the_line_at_the_caret() {
    let mut c = editor("abcd");
    c.cursor_right();
    c.cursor_right();
    c.key_enter().unwrap();
    assert_eq!(c.get_raw_text(), "ab\ncd");
    assert_eq!(place(&c), (1, 0));
    c.key_enter().unwrap();
    assert_eq!(c.get_raw_text(), "ab\n\ncd");
    assert_eq!(place(&c), (2, 0));
    assert_eq!(c.get_lines().len(), 3);
}

#[test]
fn backspace_at_a_line_start_joins_the_lines() {
    let mut c = editor("ab\ncd");
    c.cursor_down();
    c.cursor_home();
    assert_eq!(place(&c), (1, 0));
    c.key_backspace().unwrap();
    assert_eq!(c.get_raw_text(), "abcd");
    assert_eq!(place(&c), (0, 2));
}

#[test]
fn backspace_at_the_start_of_the_text_does_nothing() {
    let mut c = editor("ab");
    c.key_backspace().unwrap();
    assert_eq!(c.get_raw_text(), "ab");
    assert_eq!(place(&c), (0, 0));
}

#[test]
fn delete_takes_the_character_after_the_caret() {
    let mut c = editor("ab\ncd");
    c.cursor_right();
    c.key_delete().unwrap();
    assert_eq!(c.get_raw_text(), "a\ncd");
    assert_eq!(place(&c), (0, 1));
    c.key_delete().unwrap();
    assert_eq!(c.get_raw_text(), "acd");
    assert_eq!(place(&c), (0, 1));
}

#[test]
fn delete_at_the_end_of_the_text_does_nothing() {
    let mut c = editor("ab");
    c.cursor_end();
    c.key_delete().unwrap();
    assert_eq!(c.get_raw_text(), "ab");
    assert_eq!(place(&c), (0, 2));
}

#[test]
fn typing_then_erasing_restores_text_and_caret_everywhere() {
    let text = "ab\n\ncde\n";
    let len = text.chars().count();
    let mut c = editor(text);
    for at in 0..=len {
        for ch in ['x', '\n', ' '] {
            c.mouse_click(0, 0);
            for _ in 0..at {
                c.cursor_right();
            }
            let before = place(&c);
            c.key_char(ch).unwrap();
            assert_eq!(c.get_raw_text().chars().count(), len + 1);
            c.key_backspace().unwrap();
            assert_eq!(c.get_raw_text(), text);
            assert_eq!(place(&c), before);
        }
    }
}

#[test]
fn arrows_move_the_caret() {
    let mut c = editor("abc\nde\nfgh");
    c.cursor_end();
    assert_eq!(place(&c), (0, 3));
    c.cursor_down();
    assert_eq!(place(&c), (1, 2));
    c.cursor_down();
    assert_eq!(place(&c), (2, 3));
    c.cursor_left();
    assert_eq!(place(&c), (2, 2));
    c.cursor_up();
    assert_eq!(place(&c), (1, 2));
    c.cursor_right();
    assert_eq!(place(&c), (2, 0));
    c.cursor_home();
    c.cursor_up();
    c.cursor_up();
    c.cursor_up();
    assert_eq!(place(&c), (0, 0));
}

#[test]
fn a_click_places_the_caret() {
    let mut c = editor("abc\nde");
    c.mouse_click(17, 25);
    assert_eq!(place(&c), (1, 2));
    assert_eq!((c.get_x(), c.get_y()), (16, 20));
    c.mouse_click(9, 1000);
    assert_eq!(place(&c), (1, 1));
    c.key_char('X').unwrap();
    assert_eq!(c.get_raw_text(), "abc\ndXe");
}

#[test]
fn the_caret_stays_inside_the_text_while_editing() {
    let mut c = editor("ab\ncd");
    let mut step: usize = 3;
    for round in 0..300 {
        step = step.wrapping_mul(37).wrapping_add(round) % 1013;
        match step % 12 {
            0 => c.cursor_up(),
            1 => c.cursor_down(),
            2 => c.cursor_left(),
            3 => c.cursor_right(),
            4 => c.cursor_home(),
            5 => c.cursor_end(),
            6 => c.mouse_click(step % 90, step % 130),
            7 => c.key_enter().unwrap(),
            8 => c.key_backspace().unwrap(),
            9 => c.key_delete().unwrap(),
            10 => c.key_char(' ').unwrap(),
            _ => c.key_char('q').unwrap(),
        }
        let text = c.get_raw_text();
        let lines: Vec<&str> = text.split('\n').collect();
        let (line, index) = place(&c);
        assert!(line < lines.len(), "round {}", round);
        assert!(index <= lines[line].chars().count(), "round {}", round);
        assert_eq!(c.get_lines().len(), lines.len());
    }
}

#[test]
fn text_beyond_ascii_is_typed_and_erased_by_characters() {
    let mut c = editor("s = \"é\"\n");
    c.cursor_end();
    c.cursor_left();
    c.key_char('ö').unwrap();
    assert_eq!(c.get_raw_text(), "s = \"éö\"\n");
    assert_eq!(place(&c), (0, 7));
    c.key_backspace().unwrap();
    c.key_backspace().unwrap();
    assert_eq!(c.get_raw_text(), "s = \"\"\n");
    assert_eq!(place(&c), (0, 5));
}

#[test]
fn without_tables_no_editor_is_made() {
    let measure = uniform as Measure;
    assert!(matches!(
        Controller::new("x", options("Python"), Engine::new(), measure),
        Err(HighlightError::NoSyntax)
    ));
    assert!(matches!(
        Controller::new("", options("Python"), Engine::new().with_default_syntaxes(), measure),
        Err(HighlightError::NoTheme)
    ));
}

#[test]
fn choices_can_be_changed_through_the_editor() {
    let mut c = editor("x = 1");
    c.set_font(FontSelection::Sans).unwrap();
    c.set_syntax("Rust".to_string()).unwrap();
    c.set_theme("Solarized (dark)".to_string()).unwrap();
    assert_eq!(c.get_options().font_selection, FontSelection::Sans);
    assert_eq!(c.get_options().selected_syntax, "Rust");
    assert_eq!(c.get_options().selected_theme, "Solarized (dark)");
    assert_eq!(c.get_options().line_height, 20);
    let state = c.get_state();
    assert_eq!(state.content, "x = 1");
    assert_eq!(state.selected_syntax, "Rust");
    assert_eq!(state.selected_theme, "Solarized (dark)");
    assert_eq!(state.font_selection, FontSelection::Sans);
}

#[test]
fn an_unknown_theme_set_through_the_editor_falls_back() {
    let mut c = editor("x = 1");
    c.set_theme("Solarized (dark)".to_string()).unwrap();
    c.set_theme("Polarized".to_string()).unwrap();
    assert_eq!(c.get_options().selected_theme, "InspiredGitHub");
    c.key_char('y').unwrap();
    assert_eq!(c.get_options().selected_theme, "InspiredGitHub");
    assert!(c.get_lines()[0][0].style().contains("background-color: #ffffffff"));
}

/// Six pixels for a proportional character, eight for a monospaced one.
fn by_family(runs: &Vec<Region>) -> usize {
    runs.iter()
        .map(|r| r.text().chars().count() * if r.style().contains("sans-serif") { 6 } else { 8 })
        .sum()
}

#[test]
fn changing_a_choice_measures_the_caret_anew() {
    let mut c =
        Controller::new("abc = 1", options("Python"), Engine::load_defaults(), by_family as Measure)
            .unwrap();
    c.cursor_right();
    c.cursor_right();
    c.cursor_right();
    // "abc" is a name, shown in the proportional font.
    assert_eq!(c.get_x(), 18);
    c.set_font(FontSelection::Monospace).unwrap();
    assert_eq!(c.get_x(), 24);
    // The remembered pixel position is the new one: one line down it finds
    // the third boundary again.
    c.key_enter().unwrap();
    c.key_char('a').unwrap();
    c.key_char('b').unwrap();
    c.key_char('c').unwrap();
    c.key_char('d').unwrap();
    c.cursor_up();
    assert_eq!((c.get_x(), c.get_y()), (24, 0));
    c.set_font(FontSelection::Sans).unwrap();
    assert_eq!(c.get_x(), 18);
    c.cursor_down();
    assert_eq!((c.get_x(), c.get_y()), (18, 20));
    c.set_syntax("Plain Text".to_string()).unwrap();
    c.set_theme("base16-ocean.dark".to_string()).unwrap();
    assert_eq!((c.get_x(), c.get_y()), (18, 20));
}

#[test]
fn a_keystroke_keeps_the_choices() {
    let mut c = editor("x");
    c.set_font(FontSelection::Sans).unwrap();
    c.set_theme("Solarized (light)".to_string()).unwrap();
    c.key_char('y').unwrap();
    c.key_enter().unwrap();
    c.key_backspace().unwrap();
    c.key_delete().unwrap();
    assert_eq!(c.get_options().font_selection, FontSelection::Sans);
    assert_eq!(c.get_options().selected_syntax, "Python");
    assert_eq!(c.get_options().selected_theme, "Solarized (light)");
    assert_eq!(c.get_options().line_height, 20);
}
