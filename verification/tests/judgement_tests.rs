use code_judge::judgement::build_prompt;
use code_judge::judgement::parse_judgement;
use code_judge::judgement::ParseError;

#[test]
fn parse_well_formed_reply() {
    let judgement = parse_judgement("Looks clean overall.\n4.5").unwrap();
    assert_eq!(judgement.message, "Looks clean overall.");
    assert_eq!(judgement.score, "4.5");
    assert_eq!(judgement.score.parse::<f64>().unwrap(), 4.5);
}

#[test]
fn reply_without_newline_has_no_score_line() {
    assert_eq!(parse_judgement("4.5").unwrap_err(), ParseError::NoScoreLine);
}

#[test]
fn reply_with_non_numeric_final_line_is_invalid() {
    assert_eq!(
        parse_judgement("Some notes\nnot-a-number").unwrap_err(),
        ParseError::InvalidScore
    );
}

#[test]
fn reply_with_empty_final_line_is_invalid() {
    assert_eq!(parse_judgement("Some notes\n").unwrap_err(), ParseError::InvalidScore);
}

#[test]
fn score_line_tolerates_trailing_whitespace_only() {
    let judgement = parse_judgement("msg\n4.5 \t ").unwrap();
    assert_eq!(judgement.score, "4.5");

    assert_eq!(parse_judgement("msg\n 4.5").unwrap_err(), ParseError::InvalidScore);
}

#[test]
fn message_is_trimmed_of_surrounding_whitespace() {
    let judgement = parse_judgement("  a critique \t\n3.0").unwrap();
    assert_eq!(judgement.message, "a critique");
}

#[test]
fn message_keeps_inner_newlines() {
    let judgement = parse_judgement("first\nsecond\n2.0").unwrap();
    assert_eq!(judgement.message, "first\nsecond");
    assert_eq!(judgement.score, "2.0");
}

#[test]
fn score_grammar_accepts_float_forms() {
    for score in ["-3e2", "5.", ".5", "5.e3", "+inf", "NaN", "1.5E-3", "INFINITY", "007", "-0", "0.25e+10"] {
        let reply = format!("m\n{}", score);
        let judgement = parse_judgement(&reply).unwrap();
        assert_eq!(judgement.score, score);
        assert!(judgement.score.parse::<f64>().is_ok());
    }
}

#[test]
fn score_grammar_rejects_non_floats() {
    for score in ["", "nope", "1e", "--1", "4.5.6", ".", "+", "1.2e+", "0x10", "4,5", "in"] {
        let reply = format!("m\n{}", score);
        assert_eq!(parse_judgement(&reply).unwrap_err(), ParseError::InvalidScore);
    }
}

#[test]
fn prompt_is_built_from_template_code_and_assertions() {
    let prompt = build_prompt(
        "CODE:<code>\nRULES:<assertions>",
        "x=1",
        &vec!["A".to_string(), "B".to_string()],
    );
    assert_eq!(prompt, "CODE:```x=1```\nRULES:- A\n- B");
}

#[test]
fn prompt_replaces_only_the_first_occurrence_of_a_token() {
    let prompt = build_prompt("<code><code>", "y", &vec![]);
    assert_eq!(prompt, "```y```<code>");
}

#[test]
fn prompt_with_empty_assertion_list() {
    let prompt = build_prompt("A:<assertions>;", "c", &vec![]);
    assert_eq!(prompt, "A:;");
}

#[test]
fn prompt_keeps_template_without_tokens() {
    let prompt = build_prompt("nothing to fill", "c", &vec!["A".to_string()]);
    assert_eq!(prompt, "nothing to fill");
}
