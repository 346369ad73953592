use nlprule::compile::attributes::parse_match_attribs;
use nlprule::compile::pattern::{
    parse_parallel_tokens, parse_pattern, parse_tokens, parse_unify_tokens,
};
use nlprule::compile::suggest::{parse_match, parse_suggestion, parse_synthesizer_text};
use nlprule::compile::token::{
    get_exceptions, get_last_id, normalize_quantifier, parse_count, parse_token,
};
use nlprule::composition::{Atom, Composition, Matcher, MatcherTarget, Part, Quantifier};
use nlprule::grammar::{Conversion, Synthesizer, SynthesizerPart};
use nlprule::max_matches;
use nlprule::structure;
use nlprule::Error;

fn some(text: &str) -> Option<String> {
    Some(text.to_string())
}

fn show_matcher(m: &Matcher) -> String {
    match m {
        Matcher::String { target, negate, case_sensitive, inflected } => {
            let target = match target {
                MatcherTarget::Text(t) => format!("{:?}", t),
                MatcherTarget::Reference(id) => format!("#{}", id),
            };
            format!(
                "s({}{}{}{})",
                target,
                if *negate { " negate" } else { "" },
                if *case_sensitive { " cs" } else { "" },
                if *inflected { " inflected" } else { "" }
            )
        }
        Matcher::Regex { regex, negate, inflected } => format!(
            "r({:?}{}{})",
            regex.pattern(),
            if *negate { " negate" } else { "" },
            if *inflected { " inflected" } else { "" }
        ),
    }
}

fn show_optional(m: &Option<Matcher>) -> String {
    match m {
        Some(m) => show_matcher(m),
        None => "-".to_string(),
    }
}

fn show_atoms(atoms: &[Atom]) -> String {
    atoms.iter().map(show_atom).collect::<Vec<_>>().join(", ")
}

fn show_atom(atom: &Atom) -> String {
    match atom {
        Atom::True => "True".to_string(),
        Atom::Text(m) => format!("Text {}", show_matcher(m)),
        Atom::WordData { pos, lemma, case_sensitive } => format!(
            "WordData pos={} lemma={}{}",
            show_optional(pos),
            show_optional(lemma),
            if *case_sensitive { " cs" } else { "" }
        ),
        Atom::Chunk(m) => format!("Chunk {}", show_matcher(m)),
        Atom::SpaceBefore(value) => format!("SpaceBefore {}", value),
        Atom::And(atoms) => format!("And[{}]", show_atoms(atoms)),
        Atom::Or(atoms) => format!("Or[{}]", show_atoms(atoms)),
        Atom::Not(atom) => format!("Not({})", show_atom(atom)),
        Atom::Offset(atom, offset) => format!("Offset({}, {})", show_atom(atom), offset),
    }
}

fn show_part(part: &Part) -> String {
    format!(
        "{} {{{},{}}}{}",
        show_atom(&part.atom),
        part.quantifier.min(),
        part.quantifier.max(),
        if part.visible { "" } else { " hidden" }
    )
}

fn show_parts(parts: &[Part]) -> Vec<String> {
    parts.iter().map(show_part).collect()
}

fn show_template(parts: &[SynthesizerPart]) -> Vec<String> {
    parts
        .iter()
        .map(|part| match part {
            SynthesizerPart::Text(text) => format!("{:?}", text),
            SynthesizerPart::Match(m) => format!(
                "\\{}{}{}{}",
                m.id,
                match m.conversion {
                    Conversion::Nop => "",
                    Conversion::AllLower => " alllower",
                    Conversion::StartLower => " startlower",
                    Conversion::StartUpper => " startupper",
                    Conversion::AllUpper => " allupper",
                },
                if m.pos_replacer.is_some() { " pos" } else { "" },
                match &m.regex_replacer {
                    Some((regex, replacement)) =>
                        format!(" {:?}=>{:?}", regex.pattern(), replacement),
                    None => String::new(),
                }
            ),
        })
        .collect()
}

fn unexpected<T>(result: Result<T, Error>) -> String {
    match result {
        Err(Error::Unexpected(message)) => message,
        Err(Error::Unimplemented(message)) => panic!("not implemented: {}", message),
        Ok(_) => panic!("no error"),
    }
}

fn unimplemented<T>(result: Result<T, Error>) -> String {
    match result {
        Err(Error::Unimplemented(message)) => message,
        Err(Error::Unexpected(message)) => panic!("unexpected: {}", message),
        Ok(_) => panic!("no error"),
    }
}

fn token_with_text(text: &str) -> structure::Token {
    let mut token = structure::Token::empty();
    token.parts = Some(vec![structure::TokenPart::Text(text.to_string())]);
    token
}

fn bounds(min: Option<&str>, max: Option<&str>) -> Result<(usize, usize), Error> {
    let q = normalize_quantifier(&min.map(String::from), &max.map(String::from))?;
    Ok((q.min(), q.max()))
}

#[test]
fn the_cap_is_twenty() {
    assert_eq!(max_matches(), 20);
}

#[test]
fn quantifier_defaults_to_once() {
    assert_eq!(bounds(None, None).unwrap(), (1, 1));
}

#[test]
fn quantifier_min_of_minus_one_is_the_cap_on_both_sides() {
    assert_eq!(bounds(Some("-1"), None).unwrap(), (20, 20));
}

#[test]
fn quantifier_max_of_minus_one_is_the_cap() {
    assert_eq!(bounds(None, Some("-1")).unwrap(), (1, 20));
    assert_eq!(bounds(Some("0"), Some("-1")).unwrap(), (0, 20));
}

#[test]
fn quantifier_max_of_one_below_a_larger_min_is_raised() {
    assert_eq!(bounds(Some("3"), None).unwrap(), (3, 20));
    assert_eq!(bounds(Some("2"), Some("1")).unwrap(), (2, 20));
}

#[test]
fn quantifier_keeps_bounds_in_order() {
    assert_eq!(bounds(Some("0"), None).unwrap(), (0, 1));
    assert_eq!(bounds(Some("2"), Some("4")).unwrap(), (2, 4));
    assert_eq!(bounds(Some("1"), Some("1")).unwrap(), (1, 1));
    assert_eq!(bounds(Some("0"), Some("0")).unwrap(), (0, 0));
    assert_eq!(bounds(Some("20"), Some("20")).unwrap(), (20, 20));
}

#[test]
fn quantifier_refuses_bounds_out_of_order() {
    assert_eq!(
        unexpected(bounds(Some("5"), Some("3"))),
        "repetition bounds must satisfy min <= max <= 20"
    );
    assert!(bounds(Some("1"), Some("0")).is_err());
}

#[test]
fn quantifier_refuses_bounds_above_the_cap() {
    assert!(bounds(None, Some("21")).is_err());
    assert!(bounds(Some("21"), None).is_err());
    assert!(bounds(Some("25"), Some("30")).is_err());
}

#[test]
fn quantifier_refuses_what_is_no_number() {
    assert_eq!(unexpected(bounds(Some("many"), None)), "can't parse min as a number");
    assert_eq!(unexpected(bounds(None, Some(""))), "can't parse max as a number");
    assert_eq!(unexpected(bounds(None, Some("-2"))), "can't parse max as a number");
}

#[test]
fn quantifier_new_checks_the_invariant() {
    assert!(Quantifier::new(0, 20).is_some());
    assert!(Quantifier::new(3, 2).is_none());
    assert!(Quantifier::new(0, 21).is_none());
}

#[test]
fn counts_read_minus_one_as_the_cap() {
    assert_eq!(parse_count("-1", "skip").unwrap(), 20);
    assert_eq!(parse_count("7", "skip").unwrap(), 7);
    assert_eq!(parse_count("+7", "skip").unwrap(), 7);
    assert_eq!(unexpected(parse_count("x", "skip")), "can't parse skip as a number");
}

#[test]
fn last_id_counts_visible_parts() {
    let parts = vec![
        Part::new(Atom::True, Quantifier::once(), true),
        Part::new(Atom::True, Quantifier::new(0, 3).unwrap(), false),
        Part::new(Atom::True, Quantifier::once(), true),
    ];
    assert_eq!(get_last_id(&parts), 3);
    assert_eq!(get_last_id(&parts[..2]), 2);
    assert_eq!(get_last_id(&parts[..1]), 2);
    assert_eq!(get_last_id(&[]), 1);
}

#[test]
fn attributes_with_a_text_give_a_text_atom() {
    let atom = parse_match_attribs(&structure::MatchAttributes::empty(), Some(" was "), false, None)
        .unwrap();
    assert_eq!(show_atom(&atom), "Text s(\"was\")");
}

#[test]
fn attributes_without_anything_hold_of_every_token() {
    let atom =
        parse_match_attribs(&structure::MatchAttributes::empty(), None, false, None).unwrap();
    assert_eq!(show_atom(&atom), "And[]");
}

#[test]
fn attributes_take_case_from_around_them() {
    let atom =
        parse_match_attribs(&structure::MatchAttributes::empty(), Some("was"), true, None).unwrap();
    assert_eq!(show_atom(&atom), "Text s(\"was\" cs)");
    let mut attribs = structure::MatchAttributes::empty();
    attribs.case_sensitive = some("no");
    let atom = parse_match_attribs(&attribs, Some("was"), true, None).unwrap();
    assert_eq!(show_atom(&atom), "Text s(\"was\")");
}

#[test]
fn attributes_with_a_regular_expression() {
    let mut attribs = structure::MatchAttributes::empty();
    attribs.regexp = some("yes");
    attribs.negate = some("yes");
    let atom = parse_match_attribs(&attribs, Some("is|was"), false, None).unwrap();
    assert_eq!(show_atom(&atom), "Text r(\"(?i)^(?:is|was)$\" negate)");
    attribs.case_sensitive = some("yes");
    let atom = parse_match_attribs(&attribs, Some("is|was"), false, None).unwrap();
    assert_eq!(show_atom(&atom), "Text r(\"^(?:is|was)$\" negate)");
}

#[test]
fn attributes_with_a_reference_compare_with_an_earlier_match() {
    let mut attribs = structure::MatchAttributes::empty();
    attribs.regexp = some("yes");
    let atom = parse_match_attribs(&attribs, Some("("), false, Some(2)).unwrap();
    assert_eq!(show_atom(&atom), "Text s(#2)");
    let atom = parse_match_attribs(&attribs, None, false, Some(1)).unwrap();
    assert_eq!(show_atom(&atom), "Text s(#1)");
}

#[test]
fn attributes_with_inflected_text_and_tag_make_one_atom() {
    let mut attribs = structure::MatchAttributes::empty();
    attribs.inflected = some("yes");
    attribs.postag = some("VB.*");
    attribs.postag_regexp = some("yes");
    attribs.negate_pos = some("yes");
    let atom = parse_match_attribs(&attribs, Some("be"), false, None).unwrap();
    assert_eq!(
        show_atom(&atom),
        "WordData pos=r(\"^(?:VB.*)$\" negate inflected) lemma=s(\"be\" inflected)"
    );
}

#[test]
fn attributes_with_text_and_tag_make_a_conjunction() {
    let mut attribs = structure::MatchAttributes::empty();
    attribs.postag = some(" VBD ");
    let atom = parse_match_attribs(&attribs, Some("was"), false, None).unwrap();
    assert_eq!(
        show_atom(&atom),
        "And[Text s(\"was\"), WordData pos=s(\"VBD\" cs inflected) lemma=-]"
    );
}

#[test]
fn attributes_with_chunk_and_space() {
    let mut attribs = structure::MatchAttributes::empty();
    attribs.chunk = some("B-NP");
    attribs.spacebefore = some("no");
    let atom = parse_match_attribs(&attribs, None, false, None).unwrap();
    assert_eq!(
        show_atom(&atom),
        "And[Chunk s(\"B-NP\" cs inflected), Chunk s(\"B-NP\" cs inflected), SpaceBefore false]"
    );
    let mut attribs = structure::MatchAttributes::empty();
    attribs.chunk_re = some("[BI]-NP");
    let atom = parse_match_attribs(&attribs, None, false, None).unwrap();
    assert_eq!(show_atom(&atom), "Chunk r(\"^(?:[BI]-NP)$\" inflected)");
    let mut attribs = structure::MatchAttributes::empty();
    attribs.spacebefore = some("yes");
    let atom = parse_match_attribs(&attribs, None, false, None).unwrap();
    assert_eq!(show_atom(&atom), "SpaceBefore true");
}

#[test]
fn attributes_refuse_chunk_beside_chunk_re() {
    let mut attribs = structure::MatchAttributes::empty();
    attribs.chunk = some("B-NP");
    attribs.chunk_re = some("B-.*");
    assert_eq!(
        unexpected(parse_match_attribs(&attribs, None, false, None)),
        "unexpected combination of chunk / chunk_re values."
    );
}

#[test]
fn attributes_refuse_unknown_values() {
    let cases: Vec<(&str, fn(&mut structure::MatchAttributes, Option<String>))> = vec![
        ("case_sensitive", |a, v| a.case_sensitive = v),
        ("inflected", |a, v| a.inflected = v),
        ("regexp", |a, v| a.regexp = v),
        ("postag_regexp", |a, v| a.postag_regexp = v),
        ("negate", |a, v| a.negate = v),
        ("negate_pos", |a, v| a.negate_pos = v),
        ("spacebefore", |a, v| a.spacebefore = v),
    ];
    for (name, set) in cases {
        let mut attribs = structure::MatchAttributes::empty();
        set(&mut attribs, some("maybe"));
        assert_eq!(
            unexpected(parse_match_attribs(&attribs, Some("x"), false, None)),
            format!("unknown {} value maybe", name)
        );
    }
}

#[test]
fn attributes_take_no_for_the_switches_that_can_be_off() {
    let mut attribs = structure::MatchAttributes::empty();
    attribs.negate = some("no");
    attribs.negate_pos = some("no");
    attribs.inflected = some("no");
    let atom = parse_match_attribs(&attribs, Some("x"), false, None).unwrap();
    assert_eq!(show_atom(&atom), "Text s(\"x\")");
    let mut attribs = structure::MatchAttributes::empty();
    attribs.regexp = some("no");
    assert_eq!(
        unexpected(parse_match_attribs(&attribs, Some("x"), false, None)),
        "unknown regexp value no"
    );
}

#[test]
fn attributes_report_a_regular_expression_that_does_not_compile() {
    let mut attribs = structure::MatchAttributes::empty();
    attribs.regexp = some("yes");
    let message = unexpected(parse_match_attribs(&attribs, Some("a(b"), false, None));
    assert!(!message.is_empty());
    let mut attribs = structure::MatchAttributes::empty();
    attribs.postag = some("[");
    attribs.postag_regexp = some("yes");
    assert!(parse_match_attribs(&attribs, None, false, None).is_err());
    let mut attribs = structure::MatchAttributes::empty();
    attribs.chunk_re = some("(");
    assert!(parse_match_attribs(&attribs, None, false, None).is_err());
}

fn exception(text: &str, scope: Option<&str>) -> structure::TokenPart {
    structure::TokenPart::Exception(structure::Exception {
        attributes: structure::MatchAttributes::empty(),
        scope: scope.map(String::from),
        text: some(text),
    })
}

#[test]
fn exceptions_of_a_token_without_content_hold_everywhere() {
    let atom = get_exceptions(&structure::Token::empty(), false, false).unwrap();
    assert_eq!(show_atom(&atom), "True");
}

#[test]
fn exceptions_are_negated_and_shifted() {
    let mut token = token_with_text("was");
    token.parts.as_mut().unwrap().extend(vec![
        exception("a", None),
        exception("b", Some("previous")),
        exception("c", Some("next")),
        exception("d", Some("current")),
    ]);
    let atom = get_exceptions(&token, false, false).unwrap();
    assert_eq!(
        show_atom(&atom),
        "Not(Or[Text s(\"a\"), Offset(Text s(\"b\"), -1), Offset(Text s(\"c\"), 1), Text s(\"d\")])"
    );
    let atom = get_exceptions(&token, false, true).unwrap();
    assert_eq!(
        show_atom(&atom),
        "Not(Or[Offset(Text s(\"b\"), -1), Offset(Text s(\"c\"), 1)])"
    );
}

#[test]
fn a_single_exception_stands_for_itself() {
    let mut token = token_with_text("was");
    token.parts.as_mut().unwrap().push(exception("a", None));
    let atom = get_exceptions(&token, true, false).unwrap();
    assert_eq!(show_atom(&atom), "Not(Text s(\"a\" cs))");
    let atom = get_exceptions(&token, true, true).unwrap();
    assert_eq!(show_atom(&atom), "Not(Or[])");
}

#[test]
fn exceptions_refuse_an_unknown_scope() {
    let mut token = token_with_text("was");
    token.parts.as_mut().unwrap().push(exception("a", Some("nearby")));
    assert_eq!(unexpected(get_exceptions(&token, false, false)), "unknown scope value nearby");
}

#[test]
fn a_plain_token_gives_one_visible_part() {
    let parts = parse_token(&token_with_text("was"), false).unwrap();
    assert_eq!(show_parts(&parts), vec!["And[Text s(\"was\"), Not(Or[])] {1,1}"]);
}

#[test]
fn a_token_without_content() {
    let parts = parse_token(&structure::Token::empty(), false).unwrap();
    assert_eq!(show_parts(&parts), vec!["And[And[], True] {1,1}"]);
}

#[test]
fn a_token_with_skip_gives_a_hidden_part() {
    let mut token = token_with_text("was");
    token.skip = some("3");
    token.parts.as_mut().unwrap().push(exception("not", Some("next")));
    let parts = parse_token(&token, false).unwrap();
    assert_eq!(
        show_parts(&parts),
        vec![
            "And[Text s(\"was\"), Not(Offset(Text s(\"not\"), 1))] {1,1}",
            "Not(Offset(Text s(\"not\"), 1)) {0,3} hidden",
        ]
    );
    token.skip = some("-1");
    let parts = parse_token(&token, false).unwrap();
    assert_eq!(parts[1].quantifier.max(), 20);
    assert!(!parts[1].visible);
    token.skip = some("21");
    assert!(parse_token(&token, false).is_err());
    token.skip = some("some");
    assert_eq!(unexpected(parse_token(&token, false)), "can't parse skip as a number");
}

#[test]
fn a_token_with_a_reference_counts_ids_from_one() {
    let mut token = structure::Token::empty();
    token.parts = Some(vec![structure::TokenPart::Sub(structure::Sub { no: "0".to_string() })]);
    let parts = parse_token(&token, false).unwrap();
    assert_eq!(show_parts(&parts), vec!["And[Text s(#1), Not(Or[])] {1,1}"]);
    token.parts = Some(vec![structure::TokenPart::Sub(structure::Sub { no: "x".to_string() })]);
    assert_eq!(unexpected(parse_token(&token, false)), "can't parse no as a number");
}

#[test]
fn a_token_with_bounds() {
    let mut token = token_with_text("very");
    token.min = some("0");
    token.max = some("2");
    let parts = parse_token(&token, false).unwrap();
    assert_eq!(show_parts(&parts), vec!["And[Text s(\"very\"), Not(Or[])] {0,2}"]);
}

#[test]
fn parallel_tokens_give_their_atoms() {
    let tokens = vec![token_with_text("a"), token_with_text("b")];
    let atoms = parse_parallel_tokens(&tokens, false).unwrap();
    assert_eq!(
        show_atoms(&atoms),
        "And[Text s(\"a\"), Not(Or[])], And[Text s(\"b\"), Not(Or[])]"
    );
    assert!(parse_parallel_tokens(&[], false).unwrap().is_empty());
}

#[test]
fn parallel_tokens_refuse_control_flow() {
    let mut repeated = token_with_text("a");
    repeated.max = some("2");
    assert_eq!(
        unimplemented(parse_parallel_tokens(&[repeated], false)),
        "control flow in parallel tokens is not implemented."
    );
    let mut skipping = token_with_text("a");
    skipping.skip = some("1");
    assert_eq!(
        unimplemented(parse_parallel_tokens(&[token_with_text("b"), skipping], false)),
        "control flow in parallel tokens is not implemented."
    );
}

fn group(texts: &[&str]) -> structure::Tokens {
    structure::Tokens { tokens: texts.iter().map(|t| token_with_text(t)).collect() }
}

#[test]
fn token_combinations_come_one_after_the_other() {
    let tokens = vec![
        structure::TokenCombination::Token(token_with_text("a")),
        structure::TokenCombination::And(group(&["b", "c"])),
        structure::TokenCombination::Or(group(&["d"])),
        structure::TokenCombination::Unify(structure::Unify {
            tokens: vec![
                structure::UnifyTokenCombination::Feature(structure::Feature {
                    id: "number".to_string(),
                }),
                structure::UnifyTokenCombination::Token(token_with_text("e")),
                structure::UnifyTokenCombination::Ignore(structure::Ignore {
                    tokens: vec![structure::TokenCombination::Token(token_with_text("f"))],
                }),
            ],
        }),
    ];
    let parts = parse_tokens(&tokens, false).unwrap();
    assert_eq!(
        show_parts(&parts),
        vec![
            "And[Text s(\"a\"), Not(Or[])] {1,1}",
            "And[And[Text s(\"b\"), Not(Or[])], And[Text s(\"c\"), Not(Or[])]] {1,1}",
            "And[Text s(\"d\"), Not(Or[])] {1,1}",
            "And[Text s(\"e\"), Not(Or[])] {1,1}",
            "And[Text s(\"f\"), Not(Or[])] {1,1}",
        ]
    );
}

#[test]
fn unify_tokens_leave_features_out() {
    let tokens = vec![
        structure::UnifyTokenCombination::Feature(structure::Feature { id: "x".to_string() }),
        structure::UnifyTokenCombination::Or(group(&["a", "b"])),
        structure::UnifyTokenCombination::And(group(&[])),
    ];
    let parts = parse_unify_tokens(&tokens, true).unwrap();
    assert_eq!(
        show_parts(&parts),
        vec![
            "Or[And[Text s(\"a\" cs), Not(Or[])], And[Text s(\"b\" cs), Not(Or[])]] {1,1}",
            "And[] {1,1}",
        ]
    );
}

fn pattern(parts: Vec<structure::PatternPart>) -> structure::Pattern {
    structure::Pattern { case_sensitive: None, parts }
}

#[test]
fn a_pattern_without_marker_marks_everything() {
    let (composition, start, end) = parse_pattern(&pattern(vec![
        structure::PatternPart::Token(token_with_text("a")),
        structure::PatternPart::Token(token_with_text("b")),
    ]))
    .unwrap();
    assert_eq!(composition.parts.len(), 2);
    assert_eq!((start, end), (1, 3));
}

#[test]
fn an_empty_pattern() {
    let (composition, start, end) = parse_pattern(&pattern(vec![])).unwrap();
    assert!(composition.parts.is_empty());
    assert_eq!((start, end), (1, 1));
}

#[test]
fn a_marker_sets_the_span_by_visible_parts() {
    let mut skipping = token_with_text("a");
    skipping.skip = some("2");
    let (composition, start, end) = parse_pattern(&pattern(vec![
        structure::PatternPart::Token(skipping),
        structure::PatternPart::Marker(structure::PatternMarker {
            tokens: vec![
                structure::TokenCombination::Token(token_with_text("b")),
                structure::TokenCombination::Token(token_with_text("c")),
            ],
        }),
        structure::PatternPart::Or(group(&["d", "e"])),
    ]))
    .unwrap();
    assert_eq!(composition.parts.len(), 5);
    assert_eq!((start, end), (2, 4));
}

#[test]
fn a_pattern_hands_its_case_to_the_tokens() {
    let mut p = pattern(vec![structure::PatternPart::Token(token_with_text("a"))]);
    p.case_sensitive = some("yes");
    let (composition, _, _) = parse_pattern(&p).unwrap();
    assert_eq!(show_parts(&composition.parts), vec!["And[Text s(\"a\" cs), Not(Or[])] {1,1}"]);
    p.case_sensitive = some("Yes");
    assert_eq!(unexpected(parse_pattern(&p)), "unknown case_sensitive value Yes");
}

#[test]
fn a_pattern_with_groups_and_unify() {
    let (composition, start, end) = parse_pattern(&pattern(vec![
        structure::PatternPart::And(group(&["a", "b"])),
        structure::PatternPart::Unify(structure::Unify {
            tokens: vec![structure::UnifyTokenCombination::Token(token_with_text("c"))],
        }),
    ]))
    .unwrap();
    assert_eq!(composition.parts.len(), 2);
    assert_eq!((start, end), (1, 3));
}

#[test]
fn template_text_is_split_at_references() {
    let parts = parse_synthesizer_text("Did you mean \\1 or \\2?");
    assert_eq!(
        show_template(&parts),
        vec!["\"Did you mean \"", "\\1", "\" or \"", "\\2", "\"?\""]
    );
}

#[test]
fn template_text_without_references() {
    assert_eq!(show_template(&parse_synthesizer_text("was not")), vec!["\"was not\""]);
    assert!(parse_synthesizer_text("").is_empty());
}

#[test]
fn template_text_of_references_only() {
    assert_eq!(show_template(&parse_synthesizer_text("\\1")), vec!["\\1"]);
    assert_eq!(show_template(&parse_synthesizer_text("\\1\\0")), vec!["\\1", "\\0"]);
    assert_eq!(show_template(&parse_synthesizer_text("\\12")), vec!["\\1", "\"2\""]);
}

#[test]
fn template_text_keeps_backslashes_that_refer_to_nothing() {
    assert_eq!(show_template(&parse_synthesizer_text("a\\")), vec!["\"a\\\\\""]);
    assert_eq!(show_template(&parse_synthesizer_text("a\\b")), vec!["\"a\\\\b\""]);
    assert_eq!(show_template(&parse_synthesizer_text("\\\\1")), vec!["\"\\\\\"", "\\1"]);
    assert_eq!(show_template(&parse_synthesizer_text("é\\1ü")), vec!["\"é\"", "\\1", "\"ü\""]);
}

fn written(parts: &[SynthesizerPart]) -> String {
    parts
        .iter()
        .map(|part| match part {
            SynthesizerPart::Text(text) => text.clone(),
            SynthesizerPart::Match(m) => format!("\\{}", m.id),
        })
        .collect()
}

#[test]
fn template_text_can_be_written_back() {
    for text in ["", "\\1", "a \\1 b \\2\\3 c", "\\", "\\\\", "\\\\9\\", "x\\ay\\0", "ÄÖ\\5Ü"] {
        assert_eq!(written(&parse_synthesizer_text(text)), text);
    }
}

fn composition_of(visible: &[bool]) -> Composition {
    Composition::new(
        visible.iter().map(|v| Part::new(Atom::True, Quantifier::once(), *v)).collect(),
    )
}

#[test]
fn a_reference_above_the_highest_id_is_clamped() {
    let composition = composition_of(&[true, false, true]);
    let m = parse_match(&structure::Match::to("5"), Some(&composition)).unwrap();
    assert_eq!(m.id, 2);
    let m = parse_match(&structure::Match::to("2"), Some(&composition)).unwrap();
    assert_eq!(m.id, 2);
    let m = parse_match(&structure::Match::to("1"), Some(&composition)).unwrap();
    assert_eq!(m.id, 1);
    let m = parse_match(&structure::Match::to("0"), Some(&composition)).unwrap();
    assert_eq!(m.id, 0);
    let m = parse_match(&structure::Match::to("5"), None).unwrap();
    assert_eq!(m.id, 5);
    let m = parse_match(&structure::Match::to("5"), Some(&composition_of(&[]))).unwrap();
    assert_eq!(m.id, 0);
}

#[test]
fn a_reference_with_a_number_that_is_none() {
    assert_eq!(
        unexpected(parse_match(&structure::Match::to("one"), None)),
        "no must be parsable as usize."
    );
}

#[test]
fn a_reference_with_a_case_conversion() {
    for (name, conversion) in [
        ("alllower", Conversion::AllLower),
        ("startlower", Conversion::StartLower),
        ("startupper", Conversion::StartUpper),
        ("allupper", Conversion::AllUpper),
    ] {
        let mut m = structure::Match::to("1");
        m.case_conversion = some(name);
        assert_eq!(parse_match(&m, None).unwrap().conversion, conversion);
    }
    assert_eq!(parse_match(&structure::Match::to("1"), None).unwrap().conversion, Conversion::Nop);
    let mut m = structure::Match::to("1");
    m.case_conversion = some("preserve");
    assert_eq!(unimplemented(parse_match(&m, None)), "case conversion preserve not supported.");
}

#[test]
fn a_reference_with_a_replacement() {
    let mut m = structure::Match::to("1");
    m.regexp_match = some("(?i)a(n?)");
    m.regexp_replace = some("the");
    let parsed = parse_match(&m, None).unwrap();
    let (regex, replacement) = parsed.regex_replacer.as_ref().unwrap();
    assert_eq!(regex.pattern(), "(?i)a(n?)");
    assert_eq!(replacement, "the");
    assert!(parsed.pos_replacer.is_none());
    m.regexp_replace = None;
    assert!(parse_match(&m, None).unwrap().regex_replacer.is_none());
    m.regexp_match = some("(");
    m.regexp_replace = some("x");
    assert!(matches!(parse_match(&m, None), Err(Error::Unexpected(_))));
}

#[test]
fn a_reference_refuses_what_is_not_supported() {
    let first = "postag, postag_regex, postag_replace and text in `match` are not implemented.";
    let mut m = structure::Match::to("1");
    m.postag = some("NN+DT");
    assert_eq!(unimplemented(parse_match(&m, None)), first);
    let mut m = structure::Match::to("1");
    m.postag_regex = some("yes");
    assert_eq!(unimplemented(parse_match(&m, None)), first);
    let mut m = structure::Match::to("1");
    m.postag_replace = some("x");
    assert_eq!(unimplemented(parse_match(&m, None)), first);
    let mut m = structure::Match::to("1");
    m.text = some("x");
    assert_eq!(unimplemented(parse_match(&m, None)), first);
    let mut m = structure::Match::to("x");
    m.include_skipped = some("all");
    assert_eq!(
        unimplemented(parse_match(&m, None)),
        "include_skipped in `match` is not implemented."
    );
}

fn show_synthesizer(s: &Synthesizer) -> (Vec<String>, bool) {
    (show_template(&s.parts), s.use_titlecase_adjust)
}

#[test]
fn a_suggestion_joins_its_pieces() {
    let mut upper = structure::Match::to("7");
    upper.case_conversion = some("startupper");
    let data = structure::Suggestion {
        parts: vec![
            structure::SuggestionPart::Text("\\1 has ".to_string()),
            structure::SuggestionPart::Match(upper),
            structure::SuggestionPart::Text("".to_string()),
        ],
    };
    let composition = composition_of(&[true, true]);
    assert_eq!(
        show_synthesizer(&parse_suggestion(&data, Some(&composition)).unwrap()),
        (vec!["\\1".to_string(), "\" has \"".to_string(), "\\2 startupper".to_string()], true)
    );
    assert_eq!(
        show_synthesizer(&parse_suggestion(&data, None).unwrap()),
        (vec!["\\1".to_string(), "\" has \"".to_string(), "\\7 startupper".to_string()], false)
    );
}

#[test]
fn a_suggestion_passes_on_the_fault_of_a_reference() {
    let data = structure::Suggestion {
        parts: vec![
            structure::SuggestionPart::Text("a".to_string()),
            structure::SuggestionPart::Match(structure::Match::to("")),
        ],
    };
    assert_eq!(unexpected(parse_suggestion(&data, None)), "no must be parsable as usize.");
}
