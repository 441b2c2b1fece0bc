use syntect::parsing::syntax_definition::ContextReference;
use syntect::parsing::syntax_definition::MatchOperation;
use syntect::parsing::syntax_definition::Pattern;
use syntect::parsing::Regex;
use syntect::parsing::Region;
use syntect::parsing::SyntaxSet;

/// Looks for the start context of each of the shipped syntaxes `from..to`,
/// which may only push; compiles every pattern of these syntaxes; and looks
/// at every context that a match pushes or sets. Gives the number of
/// patterns seen and what was found wrong.
fn unsound(from: usize, to: usize) -> (usize, Vec<String>) {
    let builder = SyntaxSet::load_defaults_newlines().into_builder();
    let mut seen = 0;
    let mut wrong: Vec<String> = Vec::new();
    for syntax in builder.syntaxes().iter().skip(from).take(to - from) {
        match syntax.contexts.get("__start") {
            None => wrong.push(format!("{}: no start context", syntax.name)),
            Some(start) => {
                if start.meta_include_prototype {
                    wrong.push(format!("{}: the start context takes in the prototype", syntax.name));
                }
                for pattern in start.patterns.iter() {
                    match pattern {
                        Pattern::Match(m) if matches!(m.operation, MatchOperation::Push(_)) => {}
                        _ => wrong.push(format!("{}: the start context does more than push", syntax.name)),
                    }
                }
            }
        }
        for (name, context) in syntax.contexts.iter() {
            for pattern in context.patterns.iter() {
                if let Pattern::Match(m) = pattern {
                    seen += 1;
                    let regex = if m.has_captures {
                        m.regex_with_refs(&Region::new(), "")
                    } else {
                        m.regex.clone()
                    };
                    if Regex::try_compile(regex.regex_str()).is_some() {
                        wrong.push(format!("{}/{}: {}", syntax.name, name, regex.regex_str()));
                    }
                    let targets: Vec<&ContextReference> = match &m.operation {
                        MatchOperation::Push(v) | MatchOperation::Set(v) => v.iter().collect(),
                        _ => Vec::new(),
                    };
                    for r in targets.into_iter().chain(m.with_prototype.iter()) {
                        if !matches!(r, ContextReference::Direct(_)) {
                            wrong.push(format!("{}/{}: {:?}", syntax.name, name, r));
                        }
                    }
                }
            }
        }
    }
    (seen, wrong)
}

#[test]
fn the_shipped_set_has_seventy_five_syntaxes() {
    assert_eq!(SyntaxSet::load_defaults_newlines().syntaxes().len(), 75);
}

#[test]
fn the_first_quarter_of_the_shipped_syntaxes_can_be_parsed_with() {
    let (seen, wrong) = unsound(0, 19);
    assert!(seen > 0);
    assert_eq!(wrong, Vec::<String>::new());
}

#[test]
fn the_second_quarter_of_the_shipped_syntaxes_can_be_parsed_with() {
    let (seen, wrong) = unsound(19, 38);
    assert!(seen > 0);
    assert_eq!(wrong, Vec::<String>::new());
}

#[test]
fn the_third_quarter_of_the_shipped_syntaxes_can_be_parsed_with() {
    let (seen, wrong) = unsound(38, 57);
    assert!(seen > 0);
    assert_eq!(wrong, Vec::<String>::new());
}

#[test]
fn the_last_quarter_of_the_shipped_syntaxes_can_be_parsed_with() {
    let (seen, wrong) = unsound(57, 75);
    assert!(seen > 0);
    assert_eq!(wrong, Vec::<String>::new());
}
