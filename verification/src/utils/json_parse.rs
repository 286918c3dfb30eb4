//! Reading JSON that has not arrived in full.
//!
//! While a tool call streams in, its arguments are a prefix of a JSON text.
//! The functions here guess how the text would end, and fall back to the
//! empty object where no guess parses.

use vstd::prelude::*;
use vstd::string::StringExecFns;
use crate::utils::json::{empty_json_object, empty_object, json_from_text, json_or_empty, parse_json};
use crate::utils::text::{str_chars, string_from_chars};

verus! {

/// The endings that are tried, in this order.
pub open spec fn common_completions() -> Seq<Seq<char>> {
    Seq::empty().push("}"@).push("}}"@).push("\"}"@).push("\"}}"@).push("null}"@).push(
        "null}}"@,
    ).push("]}"@).push("]}}"@)
}

/// What `text` parses to with the first of the endings from index `from` on
/// that makes it parse.
pub open spec fn first_completion(text: Seq<char>, endings: Seq<Seq<char>>, from: int) -> Option<
    serde_json::Value,
>
    decreases endings.len() - from,
{
    if from < 0 || from >= endings.len() {
        None
    } else {
        match json_from_text(text + endings[from]) {
            Some(value) => Some(value),
            None => first_completion(text, endings, from + 1),
        }
    }
}

/// What a possibly incomplete JSON text is read as: what it parses to as it
/// stands, else what it parses to with the first common ending that makes it
/// parse, else the empty object.
pub open spec fn streaming_json(text: Seq<char>) -> serde_json::Value {
    match json_from_text(text) {
        Some(value) => value,
        None => match first_completion(text, common_completions(), 0) {
            Some(value) => value,
            None => empty_object(),
        },
    }
}

/// Parses potentially incomplete JSON by trying common endings.
pub fn parse_streaming_json(s: &str) -> (value: serde_json::Value)
    ensures
        value == streaming_json(s@),
{
    if let Some(value) = parse_json(s) {
        return value;
    }
    let completions: [&str; 8] = ["}", "}}", "\"}", "\"}}", "null}", "null}}", "]}", "]}}"];
    let ghost endings = common_completions();
    let mut i: usize = 0;
    while i < 8
        invariant
            i <= 8,
            json_from_text(s@).is_none(),
            endings == common_completions(),
            forall|k: int| 0 <= k < 8 ==> (#[trigger] completions[k])@ == endings[k],
            first_completion(s@, endings, 0) == first_completion(s@, endings, i as int),
        decreases 8 - i,
    {
        let mut attempt = s.to_owned();
        attempt.append(completions[i]);
        assert(endings.len() == 8);
        assert(attempt@ == s@ + endings[i as int]);
        if let Some(value) = parse_json(attempt.as_str()) {
            return value;
        }
        i += 1;
    }
    assert(endings.len() == 8);
    empty_json_object()
}

/// Where a scan of JSON text stands: the brackets that are open, innermost
/// last, whether the scan is inside a string, and whether the next character
/// is escaped.
pub struct Nesting {
    pub open: Seq<char>,
    pub in_string: bool,
    pub escape_next: bool,
}

/// The scan after one more character.
pub open spec fn nesting_step(state: Nesting, c: char) -> Nesting {
    if state.escape_next {
        Nesting { open: state.open, in_string: state.in_string, escape_next: false }
    } else if c == '\\' && state.in_string {
        Nesting { open: state.open, in_string: state.in_string, escape_next: true }
    } else if c == '"' {
        Nesting { open: state.open, in_string: !state.in_string, escape_next: false }
    } else if state.in_string {
        state
    } else if c == '{' || c == '[' {
        Nesting { open: state.open.push(c), in_string: false, escape_next: false }
    } else if c == '}' && state.open.len() > 0 && state.open.last() == '{' {
        Nesting { open: state.open.drop_last(), in_string: false, escape_next: false }
    } else if c == ']' && state.open.len() > 0 && state.open.last() == '[' {
        Nesting { open: state.open.drop_last(), in_string: false, escape_next: false }
    } else {
        state
    }
}

/// The scan of a whole text.
pub open spec fn nesting(text: Seq<char>) -> Nesting
    decreases text.len(),
{
    if text.len() == 0 {
        Nesting { open: Seq::empty(), in_string: false, escape_next: false }
    } else {
        nesting_step(nesting(text.drop_last()), text.last())
    }
}

/// The closing brackets for the open ones, innermost first.
pub open spec fn closers(open: Seq<char>) -> Seq<char>
    decreases open.len(),
{
    if open.len() == 0 {
        Seq::empty()
    } else if open.last() == '{' {
        seq!['}'] + closers(open.drop_last())
    } else {
        seq![']'] + closers(open.drop_last())
    }
}

/// The ending that closes what a text leaves open: the string, if the text
/// ends inside one, then every open bracket, innermost first.
pub open spec fn smart_completion(text: Seq<char>) -> Seq<char> {
    let state = nesting(text);
    if state.in_string {
        seq!['"'] + closers(state.open)
    } else {
        closers(state.open)
    }
}

/// What a possibly incomplete JSON text is read as by bracket tracking: what
/// it parses to as it stands, else what it parses to once everything it
/// leaves open is closed, else the empty object.
pub open spec fn smart_streaming_json(text: Seq<char>) -> serde_json::Value {
    match json_from_text(text) {
        Some(value) => value,
        None => json_or_empty(text + smart_completion(text)),
    }
}

/// Parses potentially incomplete JSON by closing exactly what the text leaves
/// open, in nesting order.
pub fn parse_streaming_json_smart(s: &str) -> (value: serde_json::Value)
    ensures
        value == smart_streaming_json(s@),
{
    if let Some(value) = parse_json(s) {
        return value;
    }
    let chars = str_chars(s);
    let mut stack: Vec<char> = Vec::new();
    let mut in_string = false;
    let mut escape_next = false;
    let mut i: usize = 0;
    assert(chars@.take(0) =~= Seq::<char>::empty());
    while i < chars.len()
        invariant
            i <= chars.len(),
            chars@ == s@,
            nesting(chars@.take(i as int)) == (Nesting { open: stack@, in_string, escape_next }),
            forall|k: int| 0 <= k < stack@.len() ==> stack@[k] == '{' || stack@[k] == '[',
        decreases chars.len() - i,
    {
        proof {
            assert(chars@.take(i + 1).drop_last() =~= chars@.take(i as int));
            assert(chars@.take(i + 1).last() == chars@[i as int]);
        }
        let c = chars[i];
        if escape_next {
            escape_next = false;
        } else if c == '\\' && in_string {
            escape_next = true;
        } else if c == '"' {
            in_string = !in_string;
        } else if in_string {
        } else if c == '{' || c == '[' {
            stack.push(c);
        } else if c == '}' && stack.len() > 0 && stack[stack.len() - 1] == '{' {
            stack.pop();
        } else if c == ']' && stack.len() > 0 && stack[stack.len() - 1] == '[' {
            stack.pop();
        }
        i += 1;
    }
    assert(chars@.take(chars.len() as int) =~= chars@);
    let mut completion: Vec<char> = Vec::new();
    if in_string {
        completion.push('"');
    }
    let ghost head = completion@;
    let mut depth: usize = stack.len();
    assert(stack@.take(depth as int) =~= stack@);
    while depth > 0
        invariant
            depth <= stack.len(),
            head + closers(stack@) == completion@ + closers(stack@.take(depth as int)),
            forall|k: int| 0 <= k < stack@.len() ==> stack@[k] == '{' || stack@[k] == '[',
        decreases depth,
    {
        let ghost open = stack@.take(depth as int);
        let ghost before = completion@;
        proof {
            assert(open.drop_last() =~= stack@.take(depth - 1));
            assert(open.last() == stack@[depth - 1]);
        }
        if stack[depth - 1] == '{' {
            completion.push('}');
            assert(before + (seq!['}'] + closers(open.drop_last())) =~= completion@ + closers(
                open.drop_last(),
            ));
        } else {
            completion.push(']');
            assert(before + (seq![']'] + closers(open.drop_last())) =~= completion@ + closers(
                open.drop_last(),
            ));
        }
        depth -= 1;
    }
    proof {
        assert(stack@.take(0) =~= Seq::<char>::empty());
        assert(completion@ + Seq::<char>::empty() =~= completion@);
        if in_string {
            assert(head =~= seq!['"']);
        } else {
            assert(head + closers(stack@) =~= closers(stack@));
        }
    }
    let mut attempt = s.to_owned();
    attempt.append(string_from_chars(completion.as_slice()).as_str());
    match parse_json(attempt.as_str()) {
        Some(value) => value,
        None => empty_json_object(),
    }
}

} // verus!
