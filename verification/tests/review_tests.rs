use code_judge::analyzer::IssueType;
use code_judge::judgement::CompletionError;
use code_judge::review::analyze_code;
use code_judge::review::judge_score;
use code_judge::review::ReviewError;

const TEMPLATE: &str = "CODE:<code>\nRULES:<assertions>";

fn one_assertion() -> Vec<String> {
    vec!["Keep functions short.".to_string()]
}

#[test]
fn review_combines_judgement_and_issues() {
    // One line, 120 characters long, containing "TODO".
    let code = "TODO".to_string() + &"x".repeat(116);
    assert_eq!(code.chars().count(), 120);

    let result = analyze_code(code, &one_assertion(), TEMPLATE, |_p: String| {
        Ok::<String, CompletionError>("Fine.\n3.0".to_string())
    });

    let (judgement, issues) = result.unwrap();
    assert_eq!(judgement.score, "3.0");
    assert_eq!(judgement.score.parse::<f64>().unwrap(), 3.0);
    assert_eq!(judgement.message, "Fine.");
    assert_eq!(issues.len(), 2);
    assert_eq!(issues[0].line_number, 1);
    assert_eq!(issues[0].issue_type, IssueType::StyleIssue);
    assert_eq!(issues[1].line_number, 1);
    assert_eq!(issues[1].issue_type, IssueType::Todo);
}

#[test]
fn failing_capability_fails_the_whole_review() {
    let code = "TODO on a perfectly analyzable line".to_string();

    let result = analyze_code(code, &one_assertion(), TEMPLATE, |_p: String| {
        Err::<String, CompletionError>(CompletionError { message: "connection refused".to_string() })
    });

    match result {
        Err(ReviewError::Completion(e)) => assert_eq!(e.message, "connection refused"),
        _ => panic!("expected a completion failure"),
    }
}

#[test]
fn unparsable_reply_fails_the_whole_review() {
    let code = "TODO".to_string();

    let result = analyze_code(code, &one_assertion(), TEMPLATE, |_p: String| {
        Ok::<String, CompletionError>("no score anywhere".to_string())
    });

    assert!(matches!(
        result,
        Err(ReviewError::Parse(code_judge::judgement::ParseError::NoScoreLine))
    ));
}

#[test]
fn judge_score_sends_the_built_prompt() {
    let seen = std::rc::Rc::new(std::cell::RefCell::new(String::new()));
    let seen_in_closure = seen.clone();
    let result = judge_score(
        "x=1",
        &vec!["A".to_string(), "B".to_string()],
        TEMPLATE,
        move |p: String| {
            *seen_in_closure.borrow_mut() = p;
            Ok::<String, CompletionError>("ok\n1.0".to_string())
        },
    );
    assert!(result.is_ok());
    assert_eq!(*seen.borrow(), "CODE:```x=1```\nRULES:- A\n- B");
}

#[test]
fn judge_score_parses_the_reply() {
    let result = judge_score("x".repeat(10).as_str(), &one_assertion(), TEMPLATE, |_p: String| {
        Ok::<String, CompletionError>(" A short critique. \n4.5".to_string())
    });
    let judgement = result.unwrap();
    assert_eq!(judgement.message, "A short critique.");
    assert_eq!(judgement.score, "4.5");
}

#[test]
fn judge_score_propagates_an_invalid_score() {
    let result = judge_score("x", &one_assertion(), TEMPLATE, |_p: String| {
        Ok::<String, CompletionError>("notes\nfour and a half".to_string())
    });
    assert!(matches!(
        result,
        Err(ReviewError::Parse(code_judge::judgement::ParseError::InvalidScore))
    ));
}
