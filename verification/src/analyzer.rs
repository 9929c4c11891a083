//! Deterministic, rule-based static analysis of source text.
//!
//! The text is read line by line (lines are the segments between newline
//! characters; the final line need not be newline-terminated). Each line is
//! held against two rules, in this order: a line of more than 100 characters
//! yields a style issue, and a line containing the marker `"TODO"` yields a
//! todo issue. Both rules may fire on the same line.

use vstd::prelude::*;

verus! {

use vstd::string::StrSliceExecFns;
use crate::text::find_char_from;
use crate::text::lemma_find_char_from;
use crate::text::lemma_find_sub_from;
use crate::text::match_at;
use crate::text::find_char;
use crate::text::find_sub;

/// The kinds of issue the analysis can report. `PotentialBug` and
/// `Performance` exist for forward extension; no current rule produces them.
#[derive(Debug, PartialEq, Eq, Structural)]
pub enum IssueType {
    StyleIssue,
    PotentialBug,
    Performance,
    Todo,
}

/// One finding, tied to a 1-based line number.
#[derive(Debug)]
pub struct CodeIssue {
    pub line_number: usize,
    pub issue_type: IssueType,
    pub message: String,
}

/// The mathematical image of a `CodeIssue`.
pub ghost struct IssueView {
    pub line_number: int,
    pub issue_type: IssueType,
    pub message: Seq<char>,
}

impl View for CodeIssue {
    type V = IssueView;

    open spec fn view(&self) -> IssueView {
        IssueView {
            line_number: self.line_number as int,
            issue_type: self.issue_type,
            message: self.message@,
        }
    }
}

impl PartialEq for CodeIssue {
    fn eq(&self, other: &Self) -> (r: bool) {
        self.line_number == other.line_number && self.issue_type == other.issue_type
            && self.message == other.message
    }
}

impl vstd::std_specs::cmp::PartialEqSpecImpl for CodeIssue {
    open spec fn obeys_eq_spec() -> bool {
        true
    }

    open spec fn eq_spec(&self, other: &Self) -> bool {
        self.line_number == other.line_number && self.issue_type == other.issue_type
            && self.message@ == other.message@
    }
}

pub open spec fn style_message() -> Seq<char> {
    "Line exceeds 100 characters"@
}

pub open spec fn todo_message() -> Seq<char> {
    "TODO comment found"@
}

pub open spec fn todo_marker() -> Seq<char> {
    "TODO"@
}

/// Whether the marker `"TODO"` occurs in `line` as a substring.
pub open spec fn contains_todo(line: Seq<char>) -> bool {
    exists|k: int| match_at(line, todo_marker(), k)
}

/// The issues the two rules yield for one line, in rule order.
pub open spec fn issues_for_line(num: int, line: Seq<char>) -> Seq<IssueView> {
    let style = if line.len() > 100 {
        seq![
            (IssueView {
                line_number: num,
                issue_type: IssueType::StyleIssue,
                message: style_message(),
            }),
        ]
    } else {
        Seq::empty()
    };
    let todo = if contains_todo(line) {
        seq![
            (IssueView { line_number: num, issue_type: IssueType::Todo, message: todo_message() }),
        ]
    } else {
        Seq::empty()
    };
    style + todo
}

/// The issues for the lines of `s` from position `i` on, the line at `i`
/// being line `num`.
pub open spec fn analyze_from(s: Seq<char>, i: int, num: int) -> Seq<IssueView>
    decreases s.len() - i,
    via analyze_from_decreases
{
    if 0 <= i <= s.len() {
        let j = find_char_from(s, '\n', i);
        let line = s.subrange(i, j);
        if j == s.len() {
            issues_for_line(num, line)
        } else {
            issues_for_line(num, line) + analyze_from(s, j + 1, num + 1)
        }
    } else {
        Seq::empty()
    }
}

#[via_fn]
proof fn analyze_from_decreases(s: Seq<char>, i: int, num: int) {
    if 0 <= i <= s.len() {
        lemma_find_char_from(s, '\n', i);
    }
}

/// All issues of the text `s`: the two rules applied to each line, lines in
/// order, 1-based numbering.
pub open spec fn analyze_spec(s: Seq<char>) -> Seq<IssueView> {
    analyze_from(s, 0, 1)
}

pub open spec fn issues_view(v: Seq<CodeIssue>) -> Seq<IssueView> {
    v.map_values(|iss: CodeIssue| iss@)
}

pub fn has_todo(line: &str) -> (r: bool)
    ensures
        r == contains_todo(line@),
{
    proof {
        lemma_find_sub_from(line@, todo_marker(), 0);
    }
    match find_sub(line, "TODO") {
        Some(_) => true,
        None => false,
    }
}

/// The rule-based analyzer; it holds the text it scans.
pub struct Analyzer {
    pub code: String,
}

impl Analyzer {
    pub fn new(code: String) -> (r: Self)
        ensures
            r.code@ == code@,
    {
        Self { code }
    }

    /// Scan the text line by line and report every issue the rules yield.
    pub fn analyze(&self) -> (issues: Vec<CodeIssue>)
        requires
            self.code@.len() < usize::MAX,
        ensures
            issues_view(issues@) == analyze_spec(self.code@),
    {
        let s: &str = self.code.as_str();
        let n = s.unicode_len();
        let mut issues: Vec<CodeIssue> = Vec::new();
        let mut i: usize = 0;
        let mut line_no: usize = 1;
        loop
            invariant_except_break
                s@ == self.code@,
                n == s@.len(),
                n < usize::MAX,
                0 <= i <= n,
                1 <= line_no <= i + 1,
                issues_view(issues@) + analyze_from(s@, i as int, line_no as int) == analyze_spec(
                    s@,
                ),
            ensures
                issues_view(issues@) == analyze_spec(s@),
            decreases n - i,
        {
            let j = find_char(s, '\n', i);
            let line = s.substring_char(i, j);
            let ghost pre = issues@;
            if line.unicode_len() > 100 {
                issues.push(
                    CodeIssue {
                        line_number: line_no,
                        issue_type: IssueType::StyleIssue,
                        message: "Line exceeds 100 characters".to_owned(),
                    },
                );
            }
            if has_todo(line) {
                issues.push(
                    CodeIssue {
                        line_number: line_no,
                        issue_type: IssueType::Todo,
                        message: "TODO comment found".to_owned(),
                    },
                );
            }
            proof {
                assert(issues_view(issues@) =~= issues_view(pre) + issues_for_line(
                    line_no as int,
                    line@,
                ));
                if j == n {
                    assert(analyze_from(s@, i as int, line_no as int) == issues_for_line(
                        line_no as int,
                        line@,
                    ));
                    assert(issues_view(issues@) =~= issues_view(pre) + analyze_from(
                        s@,
                        i as int,
                        line_no as int,
                    ));
                } else {
                    assert(analyze_from(s@, i as int, line_no as int) == issues_for_line(
                        line_no as int,
                        line@,
                    ) + analyze_from(s@, j as int + 1, line_no as int + 1));
                    assert(issues_view(issues@) + analyze_from(s@, j as int + 1, line_no as int + 1)
                        =~= issues_view(pre) + analyze_from(s@, i as int, line_no as int));
                }
            }
            if j == n {
                break ;
            }
            i = j + 1;
            line_no += 1;
        }
        issues
    }
}

/// The result of one full pass over a file, bundling the text with what was
/// found.
pub struct CodeAnalysis {
    pub code: String,
    pub issues: Vec<CodeIssue>,
    pub ai_response: String,
}

/// Law: the analysis is a pure function of the text — any two analysis
/// results for the same text are equal, element for element.
pub proof fn lemma_analyze_deterministic(code: Seq<char>, r1: Seq<IssueView>, r2: Seq<IssueView>)
    requires
        r1 == analyze_spec(code),
        r2 == analyze_spec(code),
    ensures
        r1 == r2,
{
}

/// Law: a line yields a style issue exactly when it is longer than 100
/// characters; a line of 100 characters or fewer yields none.
pub proof fn lemma_style_rule(num: int, line: Seq<char>)
    ensures
        line.len() > 100 ==> issues_for_line(num, line).contains(
            (IssueView {
                line_number: num,
                issue_type: IssueType::StyleIssue,
                message: style_message(),
            }),
        ),
        line.len() <= 100 ==> forall|k: int|
            0 <= k < issues_for_line(num, line).len() ==> (#[trigger] issues_for_line(num, line)[k]).issue_type
                != IssueType::StyleIssue,
{
    let iss = issues_for_line(num, line);
    if line.len() > 100 {
        assert(iss[0] == (IssueView {
            line_number: num,
            issue_type: IssueType::StyleIssue,
            message: style_message(),
        }));
    }
}

/// Law: a line yields a todo issue exactly when the marker `"TODO"` occurs in
/// it as a substring.
pub proof fn lemma_todo_rule(num: int, line: Seq<char>)
    ensures
        contains_todo(line) ==> issues_for_line(num, line).contains(
            (IssueView { line_number: num, issue_type: IssueType::Todo, message: todo_message() }),
        ),
        !contains_todo(line) ==> forall|k: int|
            0 <= k < issues_for_line(num, line).len() ==> (#[trigger] issues_for_line(num, line)[k]).issue_type
                != IssueType::Todo,
{
    let iss = issues_for_line(num, line);
    if contains_todo(line) {
        assert(iss[iss.len() - 1] == (IssueView {
            line_number: num,
            issue_type: IssueType::Todo,
            message: todo_message(),
        }));
    }
}

/// Law: a text without a newline is analyzed as one single line, line 1.
pub proof fn lemma_single_line(s: Seq<char>)
    requires
        forall|k: int| 0 <= k < s.len() ==> s[k] != '\n',
    ensures
        analyze_spec(s) == issues_for_line(1, s),
{
    lemma_find_char_from(s, '\n', 0);
    assert(s.subrange(0, s.len() as int) =~= s);
}

/// Law: a line that satisfies both rules yields exactly two issues, the style
/// issue first and the todo issue second.
pub proof fn lemma_both_rules(num: int, line: Seq<char>)
    requires
        line.len() > 100,
        contains_todo(line),
    ensures
        issues_for_line(num, line) == seq![
            (IssueView {
                line_number: num,
                issue_type: IssueType::StyleIssue,
                message: style_message(),
            }),
            (IssueView { line_number: num, issue_type: IssueType::Todo, message: todo_message() }),
        ],
{
    assert(issues_for_line(num, line) =~= seq![
        (IssueView {
            line_number: num,
            issue_type: IssueType::StyleIssue,
            message: style_message(),
        }),
        (IssueView { line_number: num, issue_type: IssueType::Todo, message: todo_message() }),
    ]);
}

} // verus!
