use edix::highlight::build_line;
use edix::highlight::check_ops;
use edix::highlight::line_scopes;
use edix::highlight::StackShape;
use edix::style::Color;
use edix::style::FontSelection;
use edix::style::Style;
use syntect::parsing::ClearAmount;
use syntect::parsing::Scope;
use syntect::parsing::ScopeStack;
use syntect::parsing::ScopeStackOp;

fn push(name: &str) -> ScopeStackOp {
    ScopeStackOp::Push(Scope::new(name).unwrap())
}

fn style() -> Style {
    Style {
        foreground: Color { r: 1, g: 2, b: 3, a: 255 },
        background: Color { r: 255, g: 255, b: 255, a: 255 },
    }
}

#[test]
fn operations_that_fit_are_usable_and_give_a_scope_for_each_piece() {
    let ops = vec![(0, push("source.x")), (2, push("string.y")), (4, ScopeStackOp::Pop(1))];
    let mut shape = StackShape::new();
    assert!(check_ops(&ops, "abcdef", &mut shape));
    let mut stack = ScopeStack::new();
    let names = line_scopes(&mut stack, &ops, "abcdef");
    assert_eq!(names, vec!["source.x", "string.y", "source.x"]);
    assert_eq!(stack.len(), 1);
}

#[test]
fn a_line_without_operations_has_the_scope_of_the_stack() {
    let ops: Vec<(usize, ScopeStackOp)> = Vec::new();
    let mut shape = StackShape::new();
    assert!(check_ops(&ops, "ab", &mut shape));
    let mut stack = ScopeStack::new();
    assert_eq!(line_scopes(&mut stack, &ops, "ab"), vec![""]);
    assert_eq!(line_scopes(&mut stack, &ops, ""), Vec::<String>::new());
    stack.push(Scope::new("text.plain").unwrap());
    assert_eq!(line_scopes(&mut stack, &ops, "ab"), vec!["text.plain"]);
}

#[test]
fn operations_at_one_position_note_one_scope() {
    let ops = vec![
        (0, push("source.x")),
        (0, push("meta.y")),
        (3, ScopeStackOp::Pop(1)),
        (3, push("keyword.z")),
        (3, ScopeStackOp::Noop),
    ];
    let mut shape = StackShape::new();
    assert!(check_ops(&ops, "abc", &mut shape));
    let mut stack = ScopeStack::new();
    // Nothing of the line is left after the last operation.
    assert_eq!(line_scopes(&mut stack, &ops, "abc"), vec!["meta.y"]);
    let mut again = ScopeStack::new();
    assert_eq!(line_scopes(&mut again, &ops, "abcd"), vec!["meta.y", "keyword.z"]);
}

#[test]
fn the_end_of_a_line_is_counted_in_bytes() {
    let ops = vec![(0, push("source.x")), (2, push("string.y"))];
    let mut shape = StackShape::new();
    assert!(check_ops(&ops, "éa", &mut shape));
    let mut stack = ScopeStack::new();
    assert_eq!(line_scopes(&mut stack, &ops, "éa"), vec!["source.x", "string.y"]);
}

#[test]
fn a_position_outside_the_line_is_not_usable() {
    let mut shape = StackShape::new();
    assert!(check_ops(&vec![(3, ScopeStackOp::Noop)], "abc", &mut shape));
    assert!(!check_ops(&vec![(4, ScopeStackOp::Noop)], "abc", &mut StackShape::new()));
    assert!(!check_ops(&vec![(usize::MAX, ScopeStackOp::Noop)], "", &mut StackShape::new()));
}

#[test]
fn a_position_inside_a_character_is_not_usable() {
    assert!(!check_ops(&vec![(1, ScopeStackOp::Noop)], "é", &mut StackShape::new()));
    assert!(check_ops(&vec![(2, ScopeStackOp::Noop)], "é", &mut StackShape::new()));
}

#[test]
fn positions_out_of_order_are_not_usable() {
    let ops = vec![(2, ScopeStackOp::Noop), (1, ScopeStackOp::Noop)];
    assert!(!check_ops(&ops, "abc", &mut StackShape::new()));
    let ops = vec![(1, ScopeStackOp::Noop), (1, ScopeStackOp::Noop), (2, ScopeStackOp::Noop)];
    assert!(check_ops(&ops, "abc", &mut StackShape::new()));
}

#[test]
fn a_restore_needs_scopes_set_aside() {
    assert!(!check_ops(&vec![(0, ScopeStackOp::Restore)], "ab", &mut StackShape::new()));
    let ops = vec![
        (0, push("source.x")),
        (0, ScopeStackOp::Clear(ClearAmount::TopN(1))),
        (1, ScopeStackOp::Restore),
    ];
    let mut shape = StackShape::new();
    assert!(check_ops(&ops, "ab", &mut shape));
    let mut stack = ScopeStack::new();
    assert_eq!(line_scopes(&mut stack, &ops, "ab"), vec!["", "source.x"]);
    // The batch is used up.
    assert!(!check_ops(&vec![(0, ScopeStackOp::Restore)], "ab", &mut shape));
}

#[test]
fn the_shape_follows_the_stack_from_line_to_line() {
    let mut shape = StackShape::new();
    let mut stack = ScopeStack::new();
    let first = vec![
        (0, push("source.x")),
        (1, push("string.y")),
        (2, ScopeStackOp::Clear(ClearAmount::All)),
    ];
    assert!(check_ops(&first, "abc", &mut shape));
    assert_eq!(line_scopes(&mut stack, &first, "abc"), vec!["source.x", "string.y", ""]);
    let second = vec![(1, ScopeStackOp::Restore), (2, ScopeStackOp::Pop(5))];
    assert!(check_ops(&second, "abc", &mut shape));
    assert_eq!(line_scopes(&mut stack, &second, "abc"), vec!["", "string.y", ""]);
    assert_eq!(stack.len(), 0);
}

#[test]
fn a_stack_may_be_as_deep_as_the_limit_and_no_deeper() {
    let scope = Scope::new("meta.x").unwrap();
    let mut ops: Vec<(usize, ScopeStackOp)> =
        (0..21_845).map(|_| (0, ScopeStackOp::Push(scope))).collect();
    assert!(check_ops(&ops, "a", &mut StackShape::new()));
    ops.push((0, ScopeStackOp::Push(scope)));
    assert!(!check_ops(&ops, "a", &mut StackShape::new()));
    // Scopes that come back count as well.
    let mut shape = StackShape::new();
    ops.pop();
    ops.push((0, ScopeStackOp::Clear(ClearAmount::TopN(10))));
    for _ in 0..10 {
        ops.push((0, ScopeStackOp::Push(scope)));
    }
    assert!(check_ops(&ops, "a", &mut shape));
    assert!(!check_ops(&vec![(0, ScopeStackOp::Restore)], "a", &mut shape));
}

#[test]
fn a_line_of_regions_pairs_spans_with_scopes_in_order() {
    let spans = vec![(style(), "x ".to_string()), (style(), "\"s\"".to_string()), (style(), "\n".to_string())];
    let scopes =
        vec!["source.python".to_string(), "string.quoted".to_string(), "source.python".to_string()];
    let regions = build_line(&spans, &scopes, &FontSelection::Mixed);
    assert_eq!(regions.len(), 3);
    assert_eq!(regions[0].text(), "x ");
    assert_eq!(regions[0].tooltip(), "source.python (Monospace)");
    assert_eq!(regions[1].text(), "\"s\"");
    assert_eq!(regions[1].tooltip(), "string.quoted (Sans)");
    assert_eq!(
        regions[1].style(),
        "color: #010203ff; background-color: #ffffffff; font-family: \"Fira\", sans-serif; font-size: 15px;"
    );
    assert_eq!(regions[2].text(), "");
    assert_eq!(build_line(&Vec::new(), &Vec::new(), &FontSelection::Sans).len(), 0);
}
