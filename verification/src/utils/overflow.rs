//! Detection of context overflow: a turn that failed, or silently went wrong,
//! because the input did not fit the model's context window.

use vstd::prelude::*;
use crate::types::message::{AssistantMessage, AssistantMessageView};
use crate::types::usage::StopReason;

verus! {

/// Whether `pattern` is a regular expression that the `regex` crate accepts
/// and that matches somewhere in `text`.
pub uninterp spec fn regex_matches(pattern: Seq<char>, text: Seq<char>) -> bool;

/// Compiles `pattern` with `Regex::new` and searches `text` with
/// `Regex::is_match`. A pattern that does not compile matches nothing.
#[verifier::external_body]
fn pattern_matches(pattern: &str, text: &str) -> (hit: bool)
    ensures
        hit == regex_matches(pattern@, text@),
{
    match regex::Regex::new(pattern) {
        Ok(regex) => regex.is_match(text),
        Err(_) => false,
    }
}

/// The error texts by which providers report a context overflow, as
/// case-insensitive regular expressions.
pub open spec fn overflow_patterns() -> Seq<Seq<char>> {
    Seq::empty().push("(?i)prompt is too long"@).push(
        "(?i)input is too long for requested model"@,
    ).push("(?i)exceeds the context window"@).push(
        "(?i)input token count.*exceeds the maximum"@,
    ).push("(?i)maximum prompt length is \\d+"@).push(
        "(?i)reduce the length of the messages"@,
    ).push("(?i)maximum context length is \\d+ tokens"@).push("(?i)exceeds the limit of \\d+"@).push(
        "(?i)exceeds the available context size"@,
    ).push("(?i)greater than the context length"@).push("(?i)context window exceeds limit"@).push(
        "(?i)context[_ ]length[_ ]exceeded"@,
    ).push("(?i)too many tokens"@).push("(?i)token limit exceeded"@)
}

/// The error text of providers that report only a status code.
pub open spec fn status_code_pattern() -> Seq<char> {
    "(?i)^4(00|13|29)\\s*(status code)?\\s*\\(no body\\)"@
}

/// Whether any of the patterns matches the text.
pub open spec fn matches_any(patterns: Seq<Seq<char>>, text: Seq<char>) -> bool {
    exists|i: int| 0 <= i < patterns.len() && regex_matches(#[trigger] patterns[i], text)
}

/// Whether a message shows a context overflow.
///
/// Either the turn ended in an error whose text reports one, or a context
/// window is given and the turn stopped normally although its input, cached
/// tokens included, exceeds the window.
pub open spec fn context_overflow(message: AssistantMessageView, context_window: Option<u32>) -> bool {
    ||| (message.stop_reason == StopReason::Error && message.error_message.is_some() && (
    matches_any(overflow_patterns(), message.error_message.unwrap()) || regex_matches(
        status_code_pattern(),
        message.error_message.unwrap(),
    )))
    ||| (context_window.is_some() && message.stop_reason == StopReason::Stop
        && message.usage.input + message.usage.cache_read > context_window.unwrap())
}

/// The patterns by which overflow errors are recognized.
pub fn get_overflow_patterns() -> (patterns: Vec<&'static str>)
    ensures
        patterns.deep_view() == overflow_patterns(),
{
    let mut patterns: Vec<&'static str> = Vec::new();
    patterns.push("(?i)prompt is too long");
    patterns.push("(?i)input is too long for requested model");
    patterns.push("(?i)exceeds the context window");
    patterns.push("(?i)input token count.*exceeds the maximum");
    patterns.push("(?i)maximum prompt length is \\d+");
    patterns.push("(?i)reduce the length of the messages");
    patterns.push("(?i)maximum context length is \\d+ tokens");
    patterns.push("(?i)exceeds the limit of \\d+");
    patterns.push("(?i)exceeds the available context size");
    patterns.push("(?i)greater than the context length");
    patterns.push("(?i)context window exceeds limit");
    patterns.push("(?i)context[_ ]length[_ ]exceeded");
    patterns.push("(?i)too many tokens");
    patterns.push("(?i)token limit exceeded");
    assert(patterns.deep_view() =~= overflow_patterns());
    patterns
}

/// Whether any of the overflow patterns matches the text.
fn matches_overflow_pattern(text: &str) -> (hit: bool)
    ensures
        hit == matches_any(overflow_patterns(), text@),
{
    let patterns = get_overflow_patterns();
    let ghost views = patterns.deep_view();
    let mut i: usize = 0;
    while i < patterns.len()
        invariant
            i <= patterns.len(),
            views == patterns.deep_view(),
            views == overflow_patterns(),
            forall|k: int| 0 <= k < i ==> !regex_matches(#[trigger] views[k], text@),
        decreases patterns.len() - i,
    {
        assert(views[i as int] == patterns[i as int]@);
        if pattern_matches(patterns[i], text) {
            return true;
        }
        i += 1;
    }
    false
}

/// Checks whether an assistant message shows a context overflow: by its error
/// text, or, where a context window is given, by an input that exceeds it
/// although the turn stopped normally.
pub fn is_context_overflow(message: &AssistantMessage, context_window: Option<u32>) -> (overflow:
    bool)
    ensures
        overflow == context_overflow(message.deep_view(), context_window),
{
    if message.stop_reason == StopReason::Error {
        if let Some(error_msg) = &message.error_message {
            if matches_overflow_pattern(error_msg.as_str()) {
                return true;
            }
            if pattern_matches(
                "(?i)^4(00|13|29)\\s*(status code)?\\s*\\(no body\\)",
                error_msg.as_str(),
            ) {
                return true;
            }
        }
    }
    if let Some(window) = context_window {
        if message.stop_reason == StopReason::Stop {
            let input_tokens = message.usage.input as u128 + message.usage.cache_read as u128;
            if input_tokens > window as u128 {
                return true;
            }
        }
    }
    false
}

} // verus!
