use nlprule::compile::disambiguate::parse_filter_request;
use nlprule::compile::unify::{parse_pos_filter, parse_tag_form, parse_unify};
use nlprule::disambiguation::{
    Disambiguation, DisambiguationTest, OwnedWordData, POSFilter, Selector,
};
use nlprule::structure;
use nlprule::tokens::Token;
use nlprule::{DisambiguationRule, Error};

fn some(text: &str) -> Option<String> {
    Some(text.to_string())
}

fn data(lemma: &str, pos: &str) -> OwnedWordData {
    OwnedWordData::new(lemma.to_string(), pos.to_string())
}

fn word(text: &str, tags: &[(&str, &str)]) -> Token {
    Token {
        text: text.to_string(),
        char_span: (0, 0),
        has_space_before: true,
        chunks: vec![],
        tags: tags.iter().map(|(lemma, pos)| data(lemma, pos)).collect(),
    }
}

fn tags_of(token: &Token) -> Vec<(String, String)> {
    token.tags.iter().map(|t| (t.lemma.clone(), t.pos.clone())).collect()
}

fn pairs(tags: &[(&str, &str)]) -> Vec<(String, String)> {
    tags.iter().map(|(l, p)| (l.to_string(), p.to_string())).collect()
}

fn show_filter(filter: &POSFilter) -> String {
    match filter {
        POSFilter::Regex(regex) => format!("/{}/", regex.pattern()),
        POSFilter::String(tag) => tag.clone(),
    }
}

fn show_selector(selector: &Selector) -> String {
    match selector {
        Selector::WordData(d) => format!("{}/{}", d.lemma, d.pos),
        Selector::Filter(filter) => show_filter(filter),
    }
}

fn show_optional(selector: &Option<Selector>) -> String {
    selector.as_ref().map_or("-".to_string(), show_selector)
}

fn show(d: &Disambiguation) -> String {
    match d {
        Disambiguation::Remove(s) => {
            format!("Remove[{}]", s.iter().map(show_selector).collect::<Vec<_>>().join(", "))
        }
        Disambiguation::Add(d) => format!(
            "Add[{}]",
            d.iter().map(|d| format!("{}/{}", d.lemma, d.pos)).collect::<Vec<_>>().join(", ")
        ),
        Disambiguation::Replace(d) => format!(
            "Replace[{}]",
            d.iter().map(|d| format!("{}/{}", d.lemma, d.pos)).collect::<Vec<_>>().join(", ")
        ),
        Disambiguation::Filter(s) => {
            format!("Filter[{}]", s.iter().map(show_optional).collect::<Vec<_>>().join(", "))
        }
        Disambiguation::Unify(features, filters, mask) => format!(
            "Unify[{}][{}]{:?}",
            features
                .iter()
                .map(|f| f.iter().map(show_filter).collect::<Vec<_>>().join("|"))
                .collect::<Vec<_>>()
                .join(", "),
            filters
                .iter()
                .map(|f| f.as_ref().map_or("-".to_string(), show_filter))
                .collect::<Vec<_>>()
                .join(", "),
            mask
        ),
        Disambiguation::Nop => "Nop".to_string(),
    }
}

fn unexpected<T>(result: Result<T, Error>) -> String {
    match result {
        Err(Error::Unexpected(message)) => message,
        Err(Error::Unimplemented(message)) => panic!("not implemented: {}", message),
        Ok(_) => panic!("no error"),
    }
}

fn unimplemented<T>(result: Result<T, Error>) -> String {
    match result {
        Err(Error::Unimplemented(message)) => message,
        Err(Error::Unexpected(message)) => panic!("unexpected: {}", message),
        Ok(_) => panic!("no error"),
    }
}

fn token_with_text(text: &str) -> structure::Token {
    let mut token = structure::Token::empty();
    token.parts = Some(vec![structure::TokenPart::Text(text.to_string())]);
    token
}

fn tagged_token(postag: &str, regexp: bool) -> structure::Token {
    let mut token = structure::Token::empty();
    token.attributes.postag = some(postag);
    if regexp {
        token.attributes.postag_regexp = some("yes");
    }
    token
}

fn rule(
    parts: Vec<structure::PatternPart>,
    action: Option<&str>,
    postag: Option<&str>,
    word_datas: Option<Vec<structure::DisambiguationPart>>,
) -> structure::DisambiguationRule {
    structure::DisambiguationRule {
        pattern: structure::Pattern { case_sensitive: None, parts },
        antipatterns: None,
        disambig: structure::Disambiguation {
            word_datas,
            postag: postag.map(String::from),
            action: action.map(String::from),
        },
        filter: None,
        examples: None,
        unifications: None,
    }
}

fn one_token() -> Vec<structure::PatternPart> {
    vec![structure::PatternPart::Token(token_with_text("was"))]
}

fn wd(lemma: Option<&str>, pos: &str) -> structure::DisambiguationPart {
    structure::DisambiguationPart::WordData(structure::WordData {
        pos: pos.to_string(),
        lemma: lemma.map(String::from),
    })
}

fn dm(postag: Option<&str>, regexp: Option<&str>) -> structure::DisambiguationPart {
    structure::DisambiguationPart::Match(structure::DisambiguationMatch {
        postag: postag.map(String::from),
        postag_regexp: regexp.map(String::from),
    })
}

fn compiled(data: &structure::DisambiguationRule) -> String {
    show(&DisambiguationRule::try_from(data).unwrap().disambiguations)
}

#[test]
fn a_filter_on_a_tag_keeps_the_analyses_with_that_tag() {
    let filter = Disambiguation::Filter(vec![Some(Selector::Filter(POSFilter::String(
        "VBD".to_string(),
    )))]);
    let mut tokens = vec![word("was", &[("be", "VBD"), ("be", "VBN")])];
    assert!(filter.apply(&mut tokens, 0, 1));
    assert_eq!(tags_of(&tokens[0]), pairs(&[("be", "VBD")]));
}

#[test]
fn a_rule_with_a_tag_and_no_action_filters_by_that_tag() {
    let rule = DisambiguationRule::try_from(&rule(one_token(), None, Some("VBD"), None)).unwrap();
    assert_eq!(show(&rule.disambiguations), "Filter[/VBD]");
    let mut tokens = vec![word("She", &[("she", "PRP")]), word("was", &[("be", "VBD"), ("be", "VBN")])];
    rule.apply(&mut tokens, &vec![]);
    assert_eq!(tags_of(&tokens[0]), pairs(&[("she", "PRP")]));
    assert_eq!(tags_of(&tokens[1]), pairs(&[("be", "VBD")]));
}

#[test]
fn a_filter_goes_by_position_and_never_empties_a_token() {
    let filter = Disambiguation::Filter(vec![
        None,
        Some(Selector::WordData(data("walk", "NN"))),
        Some(Selector::Filter(POSFilter::String("XX".to_string()))),
    ]);
    let mut tokens = vec![
        word("a", &[("a", "DT"), ("a", "NN")]),
        word("b", &[("walk", "NN"), ("walk", "VB"), ("run", "NN")]),
        word("c", &[("c", "NN"), ("c", "VB")]),
        word("d", &[("d", "NN"), ("d", "VB")]),
        word("e", &[("walk", "NN"), ("e", "VB")]),
    ];
    assert!(filter.apply(&mut tokens, 0, 4));
    assert_eq!(tags_of(&tokens[0]), pairs(&[("a", "DT"), ("a", "NN")]));
    assert_eq!(tags_of(&tokens[1]), pairs(&[("walk", "NN")]));
    assert_eq!(tags_of(&tokens[2]), pairs(&[("c", "NN"), ("c", "VB")]));
    assert_eq!(tags_of(&tokens[3]), pairs(&[("d", "NN"), ("d", "VB")]));
    assert_eq!(tags_of(&tokens[4]), pairs(&[("walk", "NN"), ("e", "VB")]));
}

#[test]
fn remove_takes_away_what_a_selector_picks() {
    let remove = Disambiguation::Remove(vec![
        Selector::WordData(data("be", "VBN")),
        Selector::Filter(POSFilter::Regex(
            nlprule::regex::CompiledRegex::new("NN.*", true, true).unwrap(),
        )),
    ]);
    let mut tokens = vec![
        word("was", &[("be", "VBD"), ("be", "VBN"), ("was", "NNS"), ("have", "VBN")]),
        word("x", &[("x", "NN")]),
        word("y", &[("y", "NN")]),
    ];
    assert!(remove.apply(&mut tokens, 0, 2));
    assert_eq!(tags_of(&tokens[0]), pairs(&[("be", "VBD"), ("have", "VBN")]));
    assert!(tokens[1].tags.is_empty());
    assert_eq!(tags_of(&tokens[2]), pairs(&[("y", "NN")]));
}

#[test]
fn add_and_replace_put_analyses_in() {
    let mut tokens = vec![word("a", &[("a", "DT")]), word("b", &[("b", "NN")]), word("c", &[])];
    assert!(Disambiguation::Add(vec![data("x", "X"), data("y", "Y")]).apply(&mut tokens, 1, 3));
    assert_eq!(tags_of(&tokens[0]), pairs(&[("a", "DT")]));
    assert_eq!(tags_of(&tokens[1]), pairs(&[("b", "NN"), ("x", "X"), ("y", "Y")]));
    assert_eq!(tags_of(&tokens[2]), pairs(&[("x", "X"), ("y", "Y")]));
    assert!(Disambiguation::Replace(vec![data("z", "Z")]).apply(&mut tokens, 0, 2));
    assert_eq!(tags_of(&tokens[0]), pairs(&[("z", "Z")]));
    assert_eq!(tags_of(&tokens[1]), pairs(&[("z", "Z")]));
    assert_eq!(tags_of(&tokens[2]), pairs(&[("x", "X"), ("y", "Y")]));
}

#[test]
fn nop_and_an_empty_span_change_nothing() {
    let mut tokens = vec![word("a", &[("a", "DT")])];
    assert!(Disambiguation::Nop.apply(&mut tokens, 0, 1));
    assert!(Disambiguation::Replace(vec![]).apply(&mut tokens, 1, 1));
    assert!(Disambiguation::Replace(vec![]).apply(&mut tokens, 1, 9));
    assert!(Disambiguation::Replace(vec![]).apply(&mut tokens, 3, 2));
    assert_eq!(tags_of(&tokens[0]), pairs(&[("a", "DT")]));
}

fn number_agreement() -> Disambiguation {
    let value = |v: &str| POSFilter::Regex(
        nlprule::regex::CompiledRegex::new(&format!(".*:{}", v), true, true).unwrap(),
    );
    Disambiguation::Unify(
        vec![vec![value("pl"), value("sg")]],
        vec![None, None, None],
        vec![true, false, true],
    )
}

#[test]
fn unify_makes_tokens_agree() {
    let mut tokens = vec![
        word("the", &[("the", "DT:sg"), ("the", "DT:pl")]),
        word("very", &[("very", "RB")]),
        word("house", &[("house", "NN:sg")]),
    ];
    assert!(number_agreement().apply(&mut tokens, 0, 3));
    assert_eq!(tags_of(&tokens[0]), pairs(&[("the", "DT:sg")]));
    assert_eq!(tags_of(&tokens[1]), pairs(&[("very", "RB")]));
    assert_eq!(tags_of(&tokens[2]), pairs(&[("house", "NN:sg")]));
}

#[test]
fn unify_takes_the_first_value_that_all_agree_on() {
    let mut tokens = vec![
        word("the", &[("the", "DT:sg"), ("the", "DT:pl")]),
        word("very", &[]),
        word("sheep", &[("sheep", "NN:sg"), ("sheep", "NN:pl"), ("sheep", "VB")]),
    ];
    assert!(number_agreement().apply(&mut tokens, 0, 3));
    assert_eq!(tags_of(&tokens[0]), pairs(&[("the", "DT:pl")]));
    assert_eq!(tags_of(&tokens[2]), pairs(&[("sheep", "NN:pl")]));
}

#[test]
fn unify_reports_that_there_is_no_agreement() {
    let mut tokens = vec![
        word("these", &[("this", "DT:pl")]),
        word("very", &[("very", "RB")]),
        word("house", &[("house", "NN:sg")]),
    ];
    assert!(!number_agreement().apply(&mut tokens, 0, 3));
    assert_eq!(tags_of(&tokens[0]), pairs(&[("this", "DT:pl")]));
    assert_eq!(tags_of(&tokens[2]), pairs(&[("house", "NN:sg")]));
}

#[test]
fn unify_heeds_the_own_filter_of_a_token() {
    let value = |v: &str| POSFilter::Regex(
        nlprule::regex::CompiledRegex::new(&format!(".*:{}", v), true, true).unwrap(),
    );
    let unify = Disambiguation::Unify(
        vec![vec![value("sg"), value("pl")], vec![value("m:.*"), value("f:.*")]],
        vec![Some(POSFilter::String("DT:f:pl".to_string())), None],
        vec![true, true],
    );
    let mut tokens = vec![
        word("les", &[("le", "DT:m:pl"), ("le", "DT:f:pl"), ("le", "DT:f:sg")]),
        word("x", &[("x", "NN:m:sg"), ("x", "NN:f:pl"), ("x", "NN:m:pl")]),
    ];
    assert!(unify.apply(&mut tokens, 0, 2));
    assert_eq!(tags_of(&tokens[0]), pairs(&[("le", "DT:f:pl")]));
    assert_eq!(tags_of(&tokens[1]), pairs(&[("x", "NN:f:pl")]));
}

#[test]
fn actions_are_read() {
    let selectors = || Some(vec![wd(Some("be"), "VBD"), dm(Some("VB."), Some("yes"))]);
    let literals = || Some(vec![wd(Some("be"), "VBD"), wd(None, "VBN")]);
    assert_eq!(
        compiled(&rule(one_token(), Some("remove"), None, selectors())),
        "Remove[be/VBD, /^(?:VB.)$/]"
    );
    assert_eq!(
        compiled(&rule(one_token(), Some("remove"), Some("V.*"), selectors())),
        "Remove[/^(?:V.*)$/]"
    );
    assert_eq!(compiled(&rule(one_token(), Some("add"), None, literals())), "Add[be/VBD, /VBN]");
    assert_eq!(
        compiled(&rule(one_token(), Some("replace"), None, literals())),
        "Replace[be/VBD, /VBN]"
    );
    assert_eq!(compiled(&rule(one_token(), Some("ignore_spelling"), None, None)), "Nop");
    assert_eq!(compiled(&rule(one_token(), Some("immunize"), Some("x"), selectors())), "Nop");
    assert_eq!(
        compiled(&rule(one_token(), Some("filter"), None, selectors())),
        "Filter[be/VBD, /^(?:VB.)$/]"
    );
    assert_eq!(
        compiled(&rule(one_token(), Some("filter"), Some("V.*"), selectors())),
        "Filter[/^(?:V.*)$/]"
    );
    assert_eq!(compiled(&rule(one_token(), None, None, selectors())), "Filter[be/VBD, /^(?:VB.)$/]");
    assert_eq!(compiled(&rule(one_token(), None, Some("V.*"), selectors())), "Filter[/V.*]");
    assert_eq!(compiled(&rule(one_token(), None, None, None)), "Filter[]");
}

#[test]
fn actions_refuse_what_they_cannot_take() {
    let selectors = || Some(vec![wd(Some("be"), "VBD"), dm(Some("VB."), None)]);
    assert_eq!(
        unimplemented(DisambiguationRule::try_from(&rule(one_token(), Some("add"), None, selectors()))),
        "match not supported for `add`"
    );
    assert_eq!(
        unimplemented(DisambiguationRule::try_from(&rule(
            one_token(),
            Some("replace"),
            None,
            selectors()
        ))),
        "match not supported for `replace`"
    );
    assert_eq!(
        unimplemented(DisambiguationRule::try_from(&rule(one_token(), Some("add"), Some("x"), None))),
        "postag not supported for `add`."
    );
    assert_eq!(
        unimplemented(DisambiguationRule::try_from(&rule(
            one_token(),
            Some("replace"),
            Some("x"),
            None
        ))),
        "postag not supported for `replace`."
    );
    assert_eq!(
        unimplemented(DisambiguationRule::try_from(&rule(one_token(), Some("delete"), None, None))),
        "action delete"
    );
    assert_eq!(
        unexpected(DisambiguationRule::try_from(&rule(
            one_token(),
            Some("immunize"),
            None,
            Some(vec![dm(None, None)])
        ))),
        "a match in a disambiguation must have a postag"
    );
    assert_eq!(
        unexpected(DisambiguationRule::try_from(&rule(
            one_token(),
            None,
            None,
            Some(vec![dm(Some("x"), Some("no"))])
        ))),
        "unknown postag_regexp value no"
    );
    assert!(DisambiguationRule::try_from(&rule(one_token(), Some("remove"), Some("("), None))
        .is_err());
}

fn group(tokens: Vec<structure::Token>) -> structure::Tokens {
    structure::Tokens { tokens }
}

#[test]
fn filterall_takes_the_tags_that_the_pattern_asks_for() {
    let parts = vec![
        structure::PatternPart::Token(tagged_token("DT", false)),
        structure::PatternPart::Token(token_with_text("x")),
        structure::PatternPart::And(group(vec![tagged_token("N.*", true), tagged_token("V", false)])),
        structure::PatternPart::Or(group(vec![token_with_text("y")])),
    ];
    assert_eq!(
        compiled(&rule(parts, Some("filterall"), None, None)),
        "Filter[DT, -, /^(?:N.*)$/, -]"
    );
    let parts = vec![
        structure::PatternPart::Token(tagged_token("DT", false)),
        structure::PatternPart::Marker(structure::PatternMarker {
            tokens: vec![
                structure::TokenCombination::Token(tagged_token("JJ", false)),
                structure::TokenCombination::Or(group(vec![tagged_token("NN", false)])),
            ],
        }),
        structure::PatternPart::Marker(structure::PatternMarker {
            tokens: vec![structure::TokenCombination::Token(token_with_text("z"))],
        }),
    ];
    assert_eq!(compiled(&rule(parts, Some("filterall"), None, None)), "Filter[JJ, NN, -]");
}

#[test]
fn filterall_refuses_unify_and_empty_groups() {
    let unify = || structure::Unify { tokens: vec![] };
    let parts = vec![structure::PatternPart::Unify(unify())];
    assert_eq!(
        unimplemented(DisambiguationRule::try_from(&rule(parts, Some("filterall"), None, None))),
        "`unify` not supported in `filterall`"
    );
    let parts = vec![structure::PatternPart::Marker(structure::PatternMarker {
        tokens: vec![structure::TokenCombination::Unify(unify())],
    })];
    assert_eq!(
        unimplemented(DisambiguationRule::try_from(&rule(parts, Some("filterall"), None, None))),
        "`unify` not supported in `filterall`"
    );
    let parts = vec![structure::PatternPart::And(group(vec![]))];
    assert_eq!(
        unexpected(DisambiguationRule::try_from(&rule(parts, Some("filterall"), None, None))),
        "a group of tokens must hold a token"
    );
}

fn unification(feature: &str, values: &[(&str, bool)]) -> structure::Unification {
    structure::Unification {
        feature: feature.to_string(),
        equivalences: values
            .iter()
            .map(|(postag, regexp)| structure::Equivalence {
                token: structure::EquivalenceToken {
                    postag: postag.to_string(),
                    postag_regexp: if *regexp { some("yes") } else { None },
                },
            })
            .collect(),
    }
}

fn agreement_block() -> structure::Unify {
    structure::Unify {
        tokens: vec![
            structure::UnifyTokenCombination::Feature(structure::Feature {
                id: "number".to_string(),
            }),
            structure::UnifyTokenCombination::Token(tagged_token("DT.*", true)),
            structure::UnifyTokenCombination::Ignore(structure::Ignore {
                tokens: vec![
                    structure::TokenCombination::Token(tagged_token("RB", false)),
                    structure::TokenCombination::And(group(vec![token_with_text("x")])),
                ],
            }),
            structure::UnifyTokenCombination::Or(group(vec![tagged_token("NN", false)])),
            structure::UnifyTokenCombination::And(group(vec![token_with_text("y")])),
        ],
    }
}

fn unifications() -> Option<Vec<structure::Unification>> {
    Some(vec![
        unification("gender", &[("m", false)]),
        unification("number", &[(".*:sg", true), ("pl", false)]),
        unification("number", &[("other", false)]),
    ])
}

#[test]
fn unify_blocks_are_read() {
    let (features, filters, mask) = parse_unify(&agreement_block(), &unifications()).unwrap();
    assert_eq!(
        show(&Disambiguation::Unify(features, filters, mask)),
        "Unify[/^(?:.*:sg)$/|pl][/^(?:DT.*)$/, RB, -, NN, -][true, false, false, true, true]"
    );
}

#[test]
fn unify_blocks_need_their_features_and_no_nesting() {
    assert_eq!(
        unexpected(parse_unify(&agreement_block(), &None)),
        "no unification for feature number"
    );
    assert_eq!(
        unexpected(parse_unify(
            &agreement_block(),
            &Some(vec![unification("gender", &[("m", false)])])
        )),
        "no unification for feature number"
    );
    let nested = structure::Unify {
        tokens: vec![structure::UnifyTokenCombination::Ignore(structure::Ignore {
            tokens: vec![structure::TokenCombination::Unify(structure::Unify { tokens: vec![] })],
        })],
    };
    assert_eq!(unimplemented(parse_unify(&nested, &None)), "nested unify not supported");
    let empty = structure::Unify {
        tokens: vec![structure::UnifyTokenCombination::And(group(vec![]))],
    };
    assert_eq!(unexpected(parse_unify(&empty, &None)), "a group of tokens must hold a token");
}

#[test]
fn the_action_unify_takes_the_block_of_the_pattern() {
    let mut data = rule(
        vec![structure::PatternPart::Unify(agreement_block())],
        Some("unify"),
        None,
        None,
    );
    data.unifications = unifications();
    let compiled_rule = DisambiguationRule::try_from(&data).unwrap();
    assert!(show(&compiled_rule.disambiguations).starts_with("Unify[/^(?:.*:sg)$/|pl]"));
    assert_eq!((compiled_rule.start, compiled_rule.end), (1, 6));
    let mut data = rule(
        vec![
            structure::PatternPart::Token(token_with_text("a")),
            structure::PatternPart::Marker(structure::PatternMarker {
                tokens: vec![structure::TokenCombination::Unify(agreement_block())],
            }),
        ],
        Some("unify"),
        None,
        None,
    );
    data.unifications = unifications();
    let compiled_rule = DisambiguationRule::try_from(&data).unwrap();
    assert_eq!((compiled_rule.start, compiled_rule.end), (2, 7));
    let data = rule(one_token(), Some("unify"), None, None);
    assert_eq!(
        unimplemented(DisambiguationRule::try_from(&data)),
        "only `unify` as only element in `pattern` is implemented"
    );
    let data = rule(
        vec![structure::PatternPart::Marker(structure::PatternMarker {
            tokens: vec![structure::TokenCombination::Token(token_with_text("a"))],
        })],
        Some("unify"),
        None,
        None,
    );
    assert_eq!(
        unimplemented(DisambiguationRule::try_from(&data)),
        "only `unify` as only element in `marker` is implemented"
    );
}

#[test]
fn tag_filters_are_literal_unless_they_say_regexp() {
    assert_eq!(show_filter(&parse_pos_filter("VB.", &None).unwrap()), "VB.");
    assert_eq!(show_filter(&parse_pos_filter("VB.", &some("yes")).unwrap()), "/^(?:VB.)$/");
    assert_eq!(
        unexpected(parse_pos_filter("VB.", &some("no"))),
        "unknown postag_regexp value no"
    );
    assert!(parse_pos_filter("VB(", &some("yes")).is_err());
    assert!(parse_pos_filter("VB(", &None).is_ok());
    let filter = parse_pos_filter("VB.", &some("yes")).unwrap();
    assert!(filter.passes("VBD"));
    assert!(!filter.passes("VB"));
    assert!(!filter.passes("aVBD"));
    assert!(parse_pos_filter("VB.", &None).unwrap().passes("VB."));
}

#[test]
fn tagged_forms_are_read() {
    let word = parse_tag_form("was[be/VBD,be/VBN]").unwrap();
    assert_eq!(word.text, "was");
    assert_eq!(
        word.tags.iter().map(|t| (t.lemma.as_str(), t.pos.as_str())).collect::<Vec<_>>(),
        vec![("be", "VBD"), ("be", "VBN")]
    );
    let word = parse_tag_form("a[b[c/D,</S>,e,f/g/h,/,i/]rest]").unwrap();
    assert_eq!(word.text, "a");
    assert_eq!(
        word.tags.iter().map(|t| (t.lemma.as_str(), t.pos.as_str())).collect::<Vec<_>>(),
        vec![("b[c", "D"), ("f", "g"), ("", ""), ("i", "")]
    );
    let word = parse_tag_form("[x[y]").unwrap();
    assert_eq!(word.text, "[x");
    assert!(word.tags.is_empty());
    let word = parse_tag_form("a[]]").unwrap();
    assert_eq!(word.text, "a");
}

#[test]
fn tagged_forms_need_text_and_brackets() {
    for form in ["", "was", "[be/VBD]", "was[]", "was[be/VBD", "was]be[", "a["] {
        assert_eq!(
            unexpected(parse_tag_form(form)),
            "a tagged form must be written as text[tags]"
        );
    }
}

#[test]
fn filters_are_asked_for_by_name() {
    let request = parse_filter_request(&structure::Filter {
        class: "org.rules.en.NoDisambiguationFilter".to_string(),
        args: "lemma:be x:a:b y:".to_string(),
    })
    .unwrap();
    assert_eq!(request.name, "NoDisambiguationFilter");
    assert_eq!(
        request.args,
        vec![
            ("lemma".to_string(), "be".to_string()),
            ("x".to_string(), "a:b".to_string()),
            ("y".to_string(), "".to_string())
        ]
    );
    let request = parse_filter_request(&structure::Filter {
        class: "Plain".to_string(),
        args: ":".to_string(),
    })
    .unwrap();
    assert_eq!(request.name, "Plain");
    assert_eq!(request.args, vec![("".to_string(), "".to_string())]);
    for args in ["", "a", "a:b  c:d", "a:b c"] {
        assert_eq!(
            unexpected(parse_filter_request(&structure::Filter {
                class: "a.B".to_string(),
                args: args.to_string()
            })),
            "a filter argument must be written as key:value"
        );
    }
}

fn dexample(
    kind: &str,
    parts: Vec<structure::ExamplePart>,
    input: Option<&str>,
    output: Option<&str>,
) -> structure::DisambiguationExample {
    structure::DisambiguationExample {
        kind: kind.to_string(),
        inputform: input.map(String::from),
        outputform: output.map(String::from),
        parts,
    }
}

fn marker(text: &str) -> structure::ExamplePart {
    structure::ExamplePart::Marker(structure::ExampleMarker { text: text.to_string() })
}

fn plain(text: &str) -> structure::ExamplePart {
    structure::ExamplePart::Text(text.to_string())
}

#[test]
fn a_disambiguation_rule_is_built_whole() {
    let mut data = rule(one_token(), Some("filter"), Some("VBD"), None);
    data.antipatterns = Some(vec![structure::Pattern {
        case_sensitive: None,
        parts: vec![structure::PatternPart::Token(token_with_text("never"))],
    }]);
    data.filter = Some(structure::Filter { class: "a.B".to_string(), args: "k:v".to_string() });
    data.examples = Some(vec![
        dexample("untouched", vec![plain("He "), marker("was"), plain(".")], None, None),
        dexample(
            "ambiguous",
            vec![plain("Er "), marker("wär"), plain(" da.")],
            Some("wär[sein/VBD,sein/VBN]"),
            Some("wär[sein/VBD]"),
        ),
    ]);
    let rule = DisambiguationRule::try_from(&data).unwrap();
    assert_eq!(rule.id, "");
    assert_eq!((rule.start, rule.end), (1, 2));
    assert_eq!(rule.filter.as_ref().unwrap().name, "B");
    match &rule.engine {
        nlprule::rule::Engine::Token(engine) => {
            assert_eq!(engine.composition.parts.len(), 1);
            assert_eq!(engine.antipatterns.len(), 1);
        }
        nlprule::rule::Engine::Text(_, _) => panic!("a rule on tokens"),
    }
    assert_eq!(rule.tests.len(), 2);
    assert!(matches!(&rule.tests[0], DisambiguationTest::Unchanged(text) if text == "He was."));
    match &rule.tests[1] {
        DisambiguationTest::Changed(change) => {
            assert_eq!(change.text, "Er wär da.");
            assert_eq!(change.char_span, (3, 6));
            assert_eq!(change.before.text, "wär");
            assert_eq!(change.before.tags.len(), 2);
            assert_eq!(change.after.tags.len(), 1);
        }
        DisambiguationTest::Unchanged(_) => panic!("a change"),
    }
}

#[test]
fn disambiguation_examples_must_be_complete() {
    let try_with = |example: structure::DisambiguationExample| {
        let mut data = rule(one_token(), None, None, None);
        data.examples = Some(vec![example]);
        DisambiguationRule::try_from(&data)
    };
    assert_eq!(
        unexpected(try_with(dexample("changed", vec![], None, None))),
        "unknown disambiguation example type changed"
    );
    assert_eq!(
        unexpected(try_with(dexample("ambiguous", vec![marker("a")], None, Some("a[b/c]")))),
        "must have inputform when ambiguous example"
    );
    assert_eq!(
        unexpected(try_with(dexample("ambiguous", vec![marker("a")], Some("a[b/c]"), None))),
        "must have outputform when ambiguous example"
    );
    assert_eq!(
        unexpected(try_with(dexample("ambiguous", vec![plain("a")], Some("a[b/c]"), Some("a[b/c]")))),
        "must have marker when ambiguous example"
    );
    assert_eq!(
        unexpected(try_with(dexample("ambiguous", vec![marker("a")], Some("a"), Some("a[b/c]")))),
        "a tagged form must be written as text[tags]"
    );
    assert_eq!(
        unexpected(try_with(dexample("untouched", vec![marker("a"), marker("b")], None, None))),
        "example must have one or zero markers"
    );
}

#[test]
fn a_disambiguation_rule_is_applied_to_the_marked_tokens() {
    let parts = vec![
        structure::PatternPart::Token(token_with_text("she")),
        structure::PatternPart::Marker(structure::PatternMarker {
            tokens: vec![structure::TokenCombination::Token(token_with_text("was"))],
        }),
    ];
    let mut data = rule(parts, Some("replace"), None, Some(vec![wd(Some("be"), "VBD")]));
    data.antipatterns = Some(vec![structure::Pattern {
        case_sensitive: None,
        parts: vec![
            structure::PatternPart::Token(token_with_text("was")),
            structure::PatternPart::Token(token_with_text("never")),
        ],
    }]);
    let rule = DisambiguationRule::try_from(&data).unwrap();
    let sentence = || {
        vec![
            word("She", &[("she", "PRP")]),
            word("was", &[("be", "VBD"), ("be", "VBN")]),
            word("and", &[("and", "CC")]),
            word("she", &[("she", "PRP")]),
            word("was", &[("be", "VBD"), ("be", "VBN")]),
        ]
    };
    let mut tokens = sentence();
    let graphs = rule.find(&tokens);
    assert_eq!(graphs, vec![vec![(0, 2), (0, 1), (1, 2)], vec![(3, 5), (3, 4), (4, 5)]]);
    rule.apply(&mut tokens, &vec![]);
    assert_eq!(tags_of(&tokens[0]), pairs(&[("she", "PRP")]));
    assert_eq!(tags_of(&tokens[1]), pairs(&[("be", "VBD")]));
    assert_eq!(tags_of(&tokens[4]), pairs(&[("be", "VBD")]));
    let mut tokens = sentence();
    rule.apply(&mut tokens, &vec![true]);
    assert_eq!(tags_of(&tokens[1]), pairs(&[("be", "VBD"), ("be", "VBN")]));
    assert_eq!(tags_of(&tokens[4]), pairs(&[("be", "VBD")]));
    let mut tokens = sentence();
    rule.apply(&mut tokens, &vec![false, true, true]);
    assert_eq!(tags_of(&tokens[1]), pairs(&[("be", "VBD")]));
    assert_eq!(tags_of(&tokens[4]), pairs(&[("be", "VBD"), ("be", "VBN")]));
    let mut tokens = sentence();
    tokens.push(word("never", &[]));
    rule.apply(&mut tokens, &vec![]);
    assert_eq!(tags_of(&tokens[1]), pairs(&[("be", "VBD")]));
    assert_eq!(tags_of(&tokens[4]), pairs(&[("be", "VBD"), ("be", "VBN")]));
    let mut tokens = sentence();
    rule.change(&mut tokens, &vec![(0, 0)]);
    assert_eq!(tags_of(&tokens[1]), pairs(&[("be", "VBD"), ("be", "VBN")]));
}

#[test]
fn word_data_without_a_lemma() {
    let d = OwnedWordData::from(&structure::WordData { pos: "NN".to_string(), lemma: None });
    assert_eq!((d.lemma.as_str(), d.pos.as_str()), ("", "NN"));
    let d = OwnedWordData::from(&structure::WordData { pos: "NN".to_string(), lemma: some("x") });
    assert_eq!((d.lemma.as_str(), d.pos.as_str()), ("x", "NN"));
    assert!(Selector::WordData(data("", "NN")).picks(&data("anything", "NN")));
    assert!(!Selector::WordData(data("", "NN")).picks(&data("anything", "VB")));
    assert!(!Selector::WordData(data("x", "NN")).picks(&data("anything", "NN")));
}
