//! The judgement pipeline's data and pure steps: building the prompt that is
//! put to the completion capability, and parsing the raw reply into a
//! validated `Judgement`.

use vstd::prelude::*;

verus! {

use vstd::string::StrSliceExecFns;
use vstd::string::StringExecFns;
use crate::text::replace_first_spec;
use crate::text::replace_first;
use crate::text::rfind_char_before;
use crate::text::lemma_rfind_char_before;
use crate::text::rfind_char;
use crate::text::trim_spec;
use crate::text::trim;
use crate::text::trim_end_spec;
use crate::text::trim_end;
use crate::score::is_float_text;
use crate::score::score_text_ok;

/// The structured result of the judge's critique: a prose message and a
/// score. The score is kept in its validated textual form — the library holds
/// no floating-point values, and turning the text into a number is the
/// presentation layer's concern.
#[derive(Debug)]
pub struct Judgement {
    pub score: String,
    pub message: String,
}

/// The mathematical image of a `Judgement`.
pub ghost struct JudgementView {
    pub score: Seq<char>,
    pub message: Seq<char>,
}

impl View for Judgement {
    type V = JudgementView;

    open spec fn view(&self) -> JudgementView {
        JudgementView { score: self.score@, message: self.message@ }
    }
}

/// Why a raw reply could not be parsed.
#[derive(Debug, PartialEq, Eq, Structural)]
pub enum ParseError {
    /// The reply holds no newline, so it has no final score line.
    NoScoreLine,
    /// The reply's final line does not spell a floating-point number.
    InvalidScore,
}

/// A failure of the completion capability (authentication, network, a
/// malformed or empty upstream payload). The capability describes the
/// failure; the library carries it through unchanged.
#[derive(Debug)]
pub struct CompletionError {
    pub message: String,
}

pub open spec fn code_token() -> Seq<char> {
    "<code>"@
}

pub open spec fn assertions_token() -> Seq<char> {
    "<assertions>"@
}

/// The source code wrapped in a triple-backtick fence, with no language tag
/// and no escaping of backticks inside the code.
pub open spec fn fence_spec(code: Seq<char>) -> Seq<char> {
    "```"@ + code + "```"@
}

pub open spec fn assertion_item(a: Seq<char>) -> Seq<char> {
    "- "@ + a
}

/// The assertion list formatted as one `- ` item per assertion, in input
/// order, joined by single newlines.
pub open spec fn assertions_block_spec(list: Seq<Seq<char>>) -> Seq<char>
    decreases list.len(),
{
    if list.len() == 0 {
        Seq::empty()
    } else if list.len() == 1 {
        assertion_item(list[0])
    } else {
        assertions_block_spec(list.drop_last()) + "\n"@ + assertion_item(list.last())
    }
}

/// The full prompt: the template with its first `<code>` replaced by the
/// fenced code, then its first `<assertions>` replaced by the formatted
/// assertion block.
pub open spec fn prompt_spec(template: Seq<char>, code: Seq<char>, list: Seq<Seq<char>>) -> Seq<
    char,
> {
    replace_first_spec(
        replace_first_spec(template, code_token(), fence_spec(code)),
        assertions_token(),
        assertions_block_spec(list),
    )
}

pub fn fence_code(code: &str) -> (r: String)
    ensures
        r@ == fence_spec(code@),
{
    let mut out = "```".to_owned();
    out.append(code);
    out.append("```");
    out
}

pub fn format_assertions(assertions: &Vec<String>) -> (r: String)
    ensures
        r@ == assertions_block_spec(assertions.deep_view()),
{
    let ghost list = assertions.deep_view();
    let mut out = String::new();
    let mut idx: usize = 0;
    while idx < assertions.len()
        invariant
            list == assertions.deep_view(),
            list.len() == assertions@.len(),
            0 <= idx <= assertions@.len(),
            out@ == assertions_block_spec(list.take(idx as int)),
        decreases assertions@.len() - idx,
    {
        if idx > 0 {
            out.append("\n");
        }
        out.append("- ");
        out.append(assertions[idx].as_str());
        proof {
            let t = list.take(idx as int + 1);
            assert(t.drop_last() =~= list.take(idx as int));
            assert(t.last() == assertions@[idx as int]@);
            if idx == 0 {
                assert(out@ =~= assertion_item(t[0]));
            } else {
                assert(out@ =~= assertions_block_spec(t.drop_last()) + "\n"@ + assertion_item(
                    t.last(),
                ));
            }
        }
        idx += 1;
    }
    proof {
        assert(list.take(list.len() as int) =~= list);
    }
    out
}

/// Build the full prompt from the template, the source code and the
/// assertion list.
pub fn build_prompt(template: &str, code: &str, assertions: &Vec<String>) -> (r: String)
    ensures
        r@ == prompt_spec(template@, code@, assertions.deep_view()),
{
    let fenced = fence_code(code);
    let block = format_assertions(assertions);
    let step = replace_first(template, "<code>", fenced.as_str());
    replace_first(step.as_str(), "<assertions>", block.as_str())
}

/// The parse of a raw reply. The reply is split at its last newline:
/// everything before it is the message (trimmed of surrounding whitespace),
/// and the final line is the score (trimmed of trailing whitespace, and
/// required to spell a floating-point number). A reply with no newline has no
/// score line; any other deviation is an invalid score. No judgement comes
/// from a reply that fails this parse.
pub open spec fn parse_spec(reply: Seq<char>) -> Result<JudgementView, ParseError> {
    let k = rfind_char_before(reply, '\n', reply.len() as int);
    if k == -1 {
        Err(ParseError::NoScoreLine)
    } else {
        let score = trim_end_spec(reply.subrange(k + 1, reply.len() as int));
        if is_float_text(score) {
            Ok(JudgementView { score, message: trim_spec(reply.subrange(0, k)) })
        } else {
            Err(ParseError::InvalidScore)
        }
    }
}

pub open spec fn judgement_result_view(r: Result<Judgement, ParseError>) -> Result<
    JudgementView,
    ParseError,
> {
    match r {
        Ok(j) => Ok(j@),
        Err(e) => Err(e),
    }
}

/// Parse a raw reply into a judgement, exactly as `parse_spec` says.
pub fn parse_judgement(reply: &str) -> (r: Result<Judgement, ParseError>)
    ensures
        judgement_result_view(r) == parse_spec(reply@),
        r matches Ok(j) ==> is_float_text(j.score@),
{
    let n = reply.unicode_len();
    match rfind_char(reply, '\n') {
        None => Err(ParseError::NoScoreLine),
        Some(k) => {
            proof {
                lemma_rfind_char_before(reply@, '\n', reply@.len() as int);
            }
            let score = trim_end(reply.substring_char(k + 1, n));
            if score_text_ok(score) {
                let message = trim(reply.substring_char(0, k));
                Ok(Judgement { score: score.to_owned(), message: message.to_owned() })
            } else {
                Err(ParseError::InvalidScore)
            }
        },
    }
}

} // verus!
