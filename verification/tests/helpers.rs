use nlprule::find::{byte_position, char_position, find_all, find_at, replace_all};
use nlprule::grammar::{Conversion, Match, Synthesizer, SynthesizerPart};
use nlprule::regex::CompiledRegex;
use nlprule::synthesis::{convert, text_of_span, title_case_adjust};
use nlprule::text::{
    capitalize, digit_of, find_char, is_same_word, parse_usize, same_text, split, trim,
    uncapitalize,
};
use nlprule::tokens::{Sentence, Token};
use nlprule::Error;

#[test]
fn trim_takes_white_space_from_both_ends() {
    assert_eq!(trim("  a b \t\n"), "a b");
    assert_eq!(trim("a"), "a");
    assert_eq!(trim(""), "");
    assert_eq!(trim(" \u{a0}\u{3000} "), "");
    assert_eq!(trim("\u{2003}ä ö\u{85}"), "ä ö");
}

#[test]
fn numbers_are_read_in_decimal() {
    assert_eq!(parse_usize("0"), Some(0));
    assert_eq!(parse_usize("007"), Some(7));
    assert_eq!(parse_usize("+12"), Some(12));
    assert_eq!(parse_usize("18446744073709551615"), "18446744073709551615".parse().ok());
    assert_eq!(parse_usize("18446744073709551616"), "18446744073709551616".parse().ok());
    assert_eq!(parse_usize("99999999999999999999999"), None);
    for text in ["", "+", "-1", "1a", " 1", "1 ", "++1", "٣", "1.0"] {
        assert_eq!(parse_usize(text), None);
        assert_eq!(text.parse::<usize>().ok(), None);
    }
    assert_eq!(digit_of('7'), Some(7));
    assert_eq!(digit_of('a'), None);
    assert_eq!(digit_of('٣'), None);
}

#[test]
fn texts_are_split_at_every_separator() {
    let split_like_std = |text: &str, sep: char| {
        assert_eq!(split(text, sep), text.split(sep).map(String::from).collect::<Vec<_>>());
    };
    for text in ["", "a", "a|b", "|", "||", "a||b|", "|ä|ö", "no bars"] {
        split_like_std(text, '|');
    }
    assert_eq!(split("a,b", ','), vec!["a".to_string(), "b".to_string()]);
    assert_eq!(find_char("a:b:c", ':'), Some(1));
    assert_eq!(find_char("äö:", ':'), Some(2));
    assert_eq!(find_char("abc", ':'), None);
}

#[test]
fn texts_are_compared_with_or_without_case() {
    assert!(same_text("a", "a"));
    assert!(!same_text("a", "A"));
    assert!(!is_same_word("Straße", "strasse", false));
    assert!(is_same_word("ÄRGER", "ärger", false));
    assert!(!is_same_word("ÄRGER", "ärger", true));
    assert!(is_same_word("x", "x", true));
}

#[test]
fn first_letters_change_case() {
    assert_eq!(capitalize("was not"), "Was not");
    assert_eq!(capitalize("ärger"), "Ärger");
    assert_eq!(capitalize("ßa"), "SSa");
    assert_eq!(capitalize(""), "");
    assert_eq!(capitalize("1a"), "1a");
    assert_eq!(uncapitalize("Was Not"), "was Not");
    assert_eq!(uncapitalize("İx"), "i\u{307}x");
    assert_eq!(uncapitalize(""), "");
}

#[test]
fn conversions_change_case() {
    assert_eq!(convert("was Not", Conversion::Nop), "was Not");
    assert_eq!(convert("was Not", Conversion::AllLower), "was not");
    assert_eq!(convert("Was Not", Conversion::StartLower), "was Not");
    assert_eq!(convert("was Not", Conversion::StartUpper), "Was Not");
    assert_eq!(convert("was Not", Conversion::AllUpper), "WAS NOT");
}

#[test]
fn the_capital_follows_the_matched_text() {
    assert_eq!(title_case_adjust("Was", "has not".to_string()), "Has not");
    assert_eq!(title_case_adjust("was", "has not".to_string()), "has not");
    assert_eq!(title_case_adjust("", "has not".to_string()), "has not");
    assert_eq!(title_case_adjust("1", "has not".to_string()), "has not");
    assert_eq!(title_case_adjust("Ä", "".to_string()), "");
    for (matched, text) in [("Was", "has"), ("was", "has"), ("W", "ßa"), ("W", ""), ("", "x")] {
        let once = title_case_adjust(matched, text.to_string());
        let twice = title_case_adjust(matched, once.clone());
        assert_eq!(once, twice);
    }
}

#[test]
fn regular_expressions_are_compiled_with_their_flags() {
    assert_eq!(CompiledRegex::new("a|b", true, true).unwrap().pattern(), "^(?:a|b)$");
    assert_eq!(CompiledRegex::new("a|b", true, false).unwrap().pattern(), "(?i)^(?:a|b)$");
    assert_eq!(CompiledRegex::new("a|b", false, true).unwrap().pattern(), "a|b");
    assert_eq!(CompiledRegex::new("a|b", false, false).unwrap().pattern(), "(?i)a|b");
    assert!(matches!(CompiledRegex::new("a(", true, true), Err(Error::Unexpected(m)) if !m.is_empty()));
    assert_eq!(CompiledRegex::new("(a)(?:b)(c(d))", false, true).unwrap().captures_len(), 3);
    assert_eq!(CompiledRegex::new("abc", false, true).unwrap().captures_len(), 0);
}

#[test]
fn regular_expressions_match_whole_texts() {
    let whole = CompiledRegex::new("a|ab", true, true).unwrap();
    assert!(whole.is_match("a"));
    assert!(whole.is_match("ab"));
    assert!(!whole.is_match("abc"));
    assert!(!whole.is_match("A"));
    assert!(!whole.is_match(""));
    let any_case = CompiledRegex::new("ärger.*", true, false).unwrap();
    assert!(any_case.is_match("Ärgernis"));
    assert!(!any_case.is_match("das Ärgernis"));
    let part = CompiledRegex::new("a|ab", false, true).unwrap();
    assert!(part.is_match("ab"));
    assert!(!part.is_match("abc"));
}

#[test]
fn places_are_counted_in_characters() {
    let text = "aä€𝄞b";
    assert_eq!(
        (0..=5).map(|k| byte_position(text, k)).collect::<Vec<_>>(),
        vec![0, 1, 3, 6, 10, 11]
    );
    assert_eq!(
        (0..=12).map(|b| char_position(text, b)).collect::<Vec<_>>(),
        vec![
            Some(0), Some(1), None, Some(2), None, None, Some(3), None, None, None, Some(4),
            Some(5), None
        ]
    );
    assert_eq!(char_position("", 0), Some(0));
    assert_eq!(char_position("", 1), None);
}

#[test]
fn matches_are_found_by_characters() {
    let regex = CompiledRegex::new("(ä+)(b)?", false, true).unwrap();
    let text = "€ää äb€";
    assert_eq!(find_at(&regex, text, 0), Some(vec![Some((1, 3)), Some((1, 3)), None]));
    assert_eq!(find_at(&regex, text, 2), Some(vec![Some((2, 3)), Some((2, 3)), None]));
    assert_eq!(find_at(&regex, text, 3), Some(vec![Some((4, 6)), Some((4, 5)), Some((5, 6))]));
    assert_eq!(find_at(&regex, text, 6), None);
    assert_eq!(find_at(&regex, text, 7), None);
    assert_eq!(
        find_all(&regex, text),
        vec![
            vec![Some((1, 3)), Some((1, 3)), None],
            vec![Some((4, 6)), Some((4, 5)), Some((5, 6))]
        ]
    );
    assert!(find_all(&regex, "").is_empty());
}

fn spans_like_onig(pattern: &str, text: &str) {
    let regex = CompiledRegex::new(pattern, false, true).unwrap();
    let chars = |byte: usize| text[..byte].chars().count();
    let expected: Vec<(usize, usize)> = onig::Regex::new(pattern)
        .unwrap()
        .find_iter(text)
        .map(|(s, e)| (chars(s), chars(e)))
        .collect();
    let found: Vec<(usize, usize)> =
        find_all(&regex, text).iter().map(|groups| groups[0].unwrap()).collect();
    assert_eq!(found, expected);
    assert_eq!(replace_all(&regex, text, "<>"), onig::Regex::new(pattern).unwrap().replace_all(text, "<>"));
}

#[test]
fn matches_of_no_characters_are_passed_over_behind_a_match() {
    spans_like_onig("a*", "baaac");
    spans_like_onig("a*", "äaä");
    spans_like_onig("", "äb");
    spans_like_onig("", "");
    spans_like_onig("x*", "");
    spans_like_onig("b|", "abba");
    spans_like_onig("\\b", "ein Ärger");
    spans_like_onig("a+", "aa a aaa");
    spans_like_onig("(?=a)", "aaa");
}

#[test]
fn replacements_are_made_everywhere() {
    let regex = CompiledRegex::new("an?", false, false).unwrap();
    assert_eq!(replace_all(&regex, "An apple and a pear", "the"), "the thepple thed the pether");
    assert_eq!(replace_all(&regex, "", "the"), "");
    assert_eq!(replace_all(&regex, "öö", "the"), "öö");
    let regex = CompiledRegex::new("ö", false, true).unwrap();
    assert_eq!(replace_all(&regex, "öö€ö", ""), "€");
    assert_eq!(replace_all(&regex, "öö€ö", "oe"), "oeoe€oe");
}

#[test]
fn spans_give_their_text() {
    assert_eq!(text_of_span("aä€b", Some((1, 3))), "ä€");
    assert_eq!(text_of_span("aä€b", Some((4, 4))), "");
    assert_eq!(text_of_span("aä€b", Some((0, 4))), "aä€b");
    assert_eq!(text_of_span("aä€b", Some((3, 5))), "");
    assert_eq!(text_of_span("aä€b", Some((3, 2))), "");
    assert_eq!(text_of_span("aä€b", None), "");
}

fn reference(id: usize, conversion: Conversion, replace: Option<(&str, &str)>) -> SynthesizerPart {
    SynthesizerPart::Match(Match::new(
        id,
        conversion,
        None,
        replace.map(|(find, with)| {
            (CompiledRegex::new(find, false, true).unwrap(), with.to_string())
        }),
    ))
}

#[test]
fn a_template_fills_in_what_was_matched() {
    let text = "Ein großer Ärger";
    let groups = vec![Some((0, 16)), Some((0, 3)), None, Some((11, 16))];
    let marked = Some((4, 10));
    let template = |parts, adjust| Synthesizer { parts, use_titlecase_adjust: adjust };
    let plain = template(
        vec![
            reference(3, Conversion::AllUpper, None),
            SynthesizerPart::Text(": ".to_string()),
            reference(0, Conversion::Nop, Some(("ß", "ss"))),
            reference(2, Conversion::Nop, None),
            reference(1, Conversion::StartLower, Some(("n", "ne"))),
        ],
        true,
    );
    assert_eq!(plain.apply(text, &groups, marked), Some("ÄRGER: grossereine".to_string()));
    let adjusted = template(vec![reference(0, Conversion::Nop, None)], true);
    assert_eq!(adjusted.apply(text, &groups, Some((0, 3))), Some("Ein".to_string()));
    let adjusted = template(vec![SynthesizerPart::Text("ein".to_string())], true);
    assert_eq!(adjusted.apply(text, &groups, Some((11, 16))), Some("Ein".to_string()));
    assert_eq!(adjusted.apply(text, &groups, marked), Some("ein".to_string()));
    assert_eq!(adjusted.apply(text, &groups, None), Some("ein".to_string()));
    let fixed = template(vec![SynthesizerPart::Text("ein".to_string())], false);
    assert_eq!(fixed.apply(text, &groups, Some((11, 16))), Some("ein".to_string()));
    let missing = template(
        vec![SynthesizerPart::Text("x".to_string()), reference(4, Conversion::Nop, None)],
        false,
    );
    assert_eq!(missing.apply(text, &groups, marked), None);
    assert_eq!(template(vec![], true).apply(text, &groups, marked), Some(String::new()));
}

#[test]
fn a_sentence_needs_tokens_that_lie_in_its_text() {
    let token = |span| Token {
        text: "x".to_string(),
        char_span: span,
        has_space_before: false,
        chunks: vec![],
        tags: vec![],
    };
    assert!(Sentence::new("äbc".to_string(), vec![token((0, 3)), token((3, 3))]).is_some());
    assert!(Sentence::new("äbc".to_string(), vec![token((0, 4))]).is_none());
    assert!(Sentence::new("äbc".to_string(), vec![token((0, 1)), token((2, 1))]).is_none());
    let sentence = Sentence::new("äbc".to_string(), vec![token((1, 2))]).unwrap();
    assert_eq!(sentence.text(), "äbc");
    assert_eq!(sentence.tokens().len(), 1);
    let (text, tokens) = sentence.into_parts();
    assert_eq!((text.as_str(), tokens.len()), ("äbc", 1));
}

#[test]
fn errors_describe_themselves() {
    assert_eq!(Error::unexpected("x").message(), "unexpected condition: x");
    assert_eq!(Error::unimplemented("y").message(), "feature not implemented: y");
}
