//! The top-level operation: obtain and parse a judgement of the source text,
//! run the rule-based analysis, and combine the two.
//!
//! The completion capability is injected as a function from a prompt to a
//! reply (or a failure). It is called exactly once per run; the library
//! never retries, never falls back to a default score, and returns no partial
//! result: if the judgement step fails, the whole operation fails.

use vstd::prelude::*;

verus! {

use crate::analyzer::Analyzer;
use crate::analyzer::CodeIssue;
use crate::analyzer::analyze_spec;
use crate::analyzer::issues_view;
use crate::judgement::CompletionError;
use crate::judgement::Judgement;
use crate::judgement::JudgementView;
use crate::judgement::ParseError;
use crate::judgement::build_prompt;
use crate::judgement::parse_judgement;
use crate::judgement::prompt_spec;

/// Why a run failed: the completion capability failed, or its reply could
/// not be parsed. Either way the cause is carried through unchanged.
#[derive(Debug)]
pub enum ReviewError {
    Completion(CompletionError),
    Parse(ParseError),
}

/// That `out` is an outcome the completion capability allows for the one
/// prompt this run puts to it.
pub open spec fn completion_outcome<F: FnOnce(String) -> Result<String, CompletionError>>(
    complete: F,
    template: Seq<char>,
    code: Seq<char>,
    list: Seq<Seq<char>>,
    out: Result<String, CompletionError>,
) -> bool {
    exists|p: String|
        p@ == prompt_spec(template, code, list) && #[trigger] call_ensures(complete, (p,), out)
}

/// Build the prompt for `code` and `assertions` from `template`, put it to
/// the completion capability once, and parse the reply.
///
/// A capability failure is propagated unchanged; a reply is parsed exactly as
/// `parse_spec` says, and no judgement is produced from a reply that fails
/// the parse.
pub fn judge_score<F: FnOnce(String) -> Result<String, CompletionError>>(
    code: &str,
    assertions: &Vec<String>,
    template: &str,
    complete: F,
) -> (r: Result<Judgement, ReviewError>)
    requires
        forall|p: String| call_requires(complete, (p,)),
    ensures
        match r {
            Ok(j) => exists|reply: String|
                {
                    &&& #[trigger] completion_outcome(
                        complete,
                        template@,
                        code@,
                        assertions.deep_view(),
                        Ok(reply),
                    )
                    &&& crate::judgement::parse_spec(reply@) == Ok::<JudgementView, ParseError>(j@)
                },
            Err(ReviewError::Completion(e)) => completion_outcome(
                complete,
                template@,
                code@,
                assertions.deep_view(),
                Err(e),
            ),
            Err(ReviewError::Parse(pe)) => exists|reply: String|
                {
                    &&& #[trigger] completion_outcome(
                        complete,
                        template@,
                        code@,
                        assertions.deep_view(),
                        Ok(reply),
                    )
                    &&& crate::judgement::parse_spec(reply@) == Err::<JudgementView, ParseError>(pe)
                },
        },
        r matches Ok(j) ==> crate::score::is_float_text(j.score@),
{
    let prompt = build_prompt(template, code, assertions);
    let ghost prompt_snapshot = prompt;
    let outcome = complete(prompt);
    match outcome {
        Err(e) => {
            proof {
                assert(call_ensures(
                    complete,
                    (prompt_snapshot,),
                    Err::<String, CompletionError>(e),
                ));
            }
            Err(ReviewError::Completion(e))
        },
        Ok(reply) => {
            let ghost reply_snapshot = reply;
            proof {
                assert(call_ensures(
                    complete,
                    (prompt_snapshot,),
                    Ok::<String, CompletionError>(reply_snapshot),
                ));
                assert(completion_outcome(
                    complete,
                    template@,
                    code@,
                    assertions.deep_view(),
                    Ok(reply_snapshot),
                ));
            }
            match parse_judgement(reply.as_str()) {
                Ok(j) => Ok(j),
                Err(pe) => Err(ReviewError::Parse(pe)),
            }
        },
    }
}

/// Run the full judgement of `code`: obtain and parse a judgement, then run
/// the rule-based analysis, and return both.
///
/// The two parts have no data dependency on each other, but failure is total:
/// if the judgement step fails, the error is returned and no issues are.
pub fn analyze_code<F: FnOnce(String) -> Result<String, CompletionError>>(
    code: String,
    assertions: &Vec<String>,
    template: &str,
    complete: F,
) -> (r: Result<(Judgement, Vec<CodeIssue>), ReviewError>)
    requires
        code@.len() < usize::MAX,
        forall|p: String| call_requires(complete, (p,)),
    ensures
        match r {
            Ok(jr) => {
                &&& exists|reply: String|
                    {
                        &&& #[trigger] completion_outcome(
                            complete,
                            template@,
                            code@,
                            assertions.deep_view(),
                            Ok(reply),
                        )
                        &&& crate::judgement::parse_spec(reply@) == Ok::<
                            JudgementView,
                            ParseError,
                        >(jr.0@)
                    }
                &&& issues_view(jr.1@) == analyze_spec(code@)
            },
            Err(ReviewError::Completion(e)) => completion_outcome(
                complete,
                template@,
                code@,
                assertions.deep_view(),
                Err(e),
            ),
            Err(ReviewError::Parse(pe)) => exists|reply: String|
                {
                    &&& #[trigger] completion_outcome(
                        complete,
                        template@,
                        code@,
                        assertions.deep_view(),
                        Ok(reply),
                    )
                    &&& crate::judgement::parse_spec(reply@) == Err::<JudgementView, ParseError>(pe)
                },
        },
{
    let judgement = match judge_score(code.as_str(), assertions, template, complete) {
        Ok(j) => j,
        Err(e) => {
            return Err(e);
        },
    };
    let analyzer = Analyzer::new(code);
    let issues = analyzer.analyze();
    Ok((judgement, issues))
}

} // verus!
