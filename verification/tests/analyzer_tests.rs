use code_judge::analyzer::Analyzer;
use code_judge::analyzer::IssueType;
use code_judge::model::ModelProviderName;

#[test]
fn test_dependencies_load() {
    assert!(true);
}

#[test]
fn test_analyze_code() {
    let code = "fn main() {\n    // TODO: Implement this very long line that should trigger a length warning in our analysis\n}".to_string();
    let analyzer = Analyzer::new(code);
    let issues = analyzer.analyze();

    assert_eq!(issues.len(), 1);
}

#[test]
fn analyze_is_deterministic() {
    let code = "a line with TODO\n".to_string() + &"y".repeat(140) + "\nplain";
    let first = Analyzer::new(code.clone()).analyze();
    let second = Analyzer::new(code).analyze();
    assert_eq!(first, second);
}

#[test]
fn line_of_101_characters_is_flagged() {
    let issues = Analyzer::new("x".repeat(101)).analyze();
    assert_eq!(issues.len(), 1);
    assert_eq!(issues[0].line_number, 1);
    assert_eq!(issues[0].issue_type, IssueType::StyleIssue);
    assert_eq!(issues[0].message, "Line exceeds 100 characters");
}

#[test]
fn line_of_100_characters_is_not_flagged() {
    let issues = Analyzer::new("x".repeat(100)).analyze();
    assert!(issues.is_empty());
}

#[test]
fn todo_anywhere_in_a_line_is_flagged() {
    let issues = Analyzer::new("let x = 1; // TODO: tidy".to_string()).analyze();
    assert_eq!(issues.len(), 1);
    assert_eq!(issues[0].line_number, 1);
    assert_eq!(issues[0].issue_type, IssueType::Todo);
    assert_eq!(issues[0].message, "TODO comment found");

    let embedded = Analyzer::new("abTODOcd".to_string()).analyze();
    assert_eq!(embedded.len(), 1);
    assert_eq!(embedded[0].issue_type, IssueType::Todo);
}

#[test]
fn todo_match_is_case_sensitive() {
    let issues = Analyzer::new("// todo: lower case does not count".to_string()).analyze();
    assert!(issues.is_empty());
}

#[test]
fn line_with_both_problems_yields_exactly_two_issues() {
    let line = "TODO".to_string() + &"x".repeat(97);
    assert_eq!(line.chars().count(), 101);
    let issues = Analyzer::new(line).analyze();
    assert_eq!(issues.len(), 2);
    assert_eq!(issues[0].line_number, 1);
    assert_eq!(issues[0].issue_type, IssueType::StyleIssue);
    assert_eq!(issues[1].line_number, 1);
    assert_eq!(issues[1].issue_type, IssueType::Todo);
}

#[test]
fn line_numbers_are_one_based_and_follow_newlines() {
    let issues = Analyzer::new("clean\nstill clean\nhas a TODO".to_string()).analyze();
    assert_eq!(issues.len(), 1);
    assert_eq!(issues[0].line_number, 3);
    assert_eq!(issues[0].issue_type, IssueType::Todo);
}

#[test]
fn empty_text_yields_no_issues() {
    assert!(Analyzer::new(String::new()).analyze().is_empty());
}

#[test]
fn line_length_counts_characters_not_bytes() {
    // 99 two-byte characters: 198 bytes but only 99 characters, so no issue.
    let issues = Analyzer::new("\u{e9}".repeat(99)).analyze();
    assert!(issues.is_empty());
    let flagged = Analyzer::new("\u{e9}".repeat(101)).analyze();
    assert_eq!(flagged.len(), 1);
    assert_eq!(flagged[0].issue_type, IssueType::StyleIssue);
}

#[test]
fn provider_names() {
    assert_eq!(ModelProviderName::OPENAI.as_str(), "openai");
    assert_eq!(ModelProviderName::OPENROUTER.as_str(), "openrouter");
    assert_eq!(ModelProviderName::ANTHROPIC.as_str(), "anthropic");
}
