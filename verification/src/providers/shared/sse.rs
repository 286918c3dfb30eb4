//! Framing of a Server-Sent-Event stream.
//!
//! The body arrives as byte chunks that cut lines anywhere. The reader decodes
//! each chunk, joins it to the unfinished line it holds, and hands out the
//! payload of every complete `data: ` line up to the `[DONE]` sentinel.

use vstd::prelude::*;
use crate::utils::text::{
    chars_eq, chars_match_at, chars_range, contains_seq, find_chars, first_occurrence,
    lemma_first_occurrence, occurs_at, starts_with_seq, str_chars, string_from_chars, trim,
    trim_chars,
};

verus! {

/// The text that `String::from_utf8_lossy` decodes `bytes` to: their UTF-8
/// reading, with U+FFFD in place of every invalid sequence.
pub uninterp spec fn utf8_lossy(bytes: Seq<u8>) -> Seq<char>;

/// Calls `String::from_utf8_lossy`.
#[verifier::external_body]
fn decode_utf8_lossy(bytes: &[u8]) -> (text: String)
    ensures
        text@ == utf8_lossy(bytes@),
{
    String::from_utf8_lossy(bytes).into_owned()
}

/// The line feed that ends a line.
pub open spec fn line_end() -> Seq<char> {
    seq!['\n']
}

/// The prefix of a line that carries a payload.
pub open spec fn data_prefix() -> Seq<char> {
    "data: "@
}

/// The payload that ends a stream.
pub open spec fn done_sentinel() -> Seq<char> {
    "[DONE]"@
}

/// What a line means, once trimmed.
pub enum SseLine {
    /// An empty line, a comment, or a field other than `data`.
    Skip,
    /// A payload.
    Data(Seq<char>),
    /// The end of the stream.
    Done,
}

/// Reads one line without its line feed.
pub open spec fn read_line(line: Seq<char>) -> SseLine {
    let trimmed = trim(line);
    if trimmed.len() == 0 || trimmed[0] == ':' {
        SseLine::Skip
    } else if starts_with_seq(trimmed, data_prefix()) {
        let data = trimmed.skip(data_prefix().len() as int);
        if data == done_sentinel() {
            SseLine::Done
        } else {
            SseLine::Data(data)
        }
    } else {
        SseLine::Skip
    }
}

/// Outcome of reading a buffer: the payloads of its complete lines in order,
/// whether the end of the stream was reached, and what is left unread.
pub struct SseScan {
    pub payloads: Seq<Seq<char>>,
    pub done: bool,
    pub rest: Seq<char>,
}

/// Reads the complete lines of `buffer` in order, up to and including the
/// first that ends the stream. An unfinished last line is left unread, and so
/// is everything behind the line that ends the stream.
pub open spec fn sse_scan(buffer: Seq<char>) -> SseScan
    decreases buffer.len(),
{
    match first_occurrence(buffer, line_end()) {
        Some(at) => {
            if 0 <= at < buffer.len() {
                let rest = buffer.skip(at + 1);
                match read_line(buffer.take(at)) {
                    SseLine::Done => SseScan { payloads: Seq::empty(), done: true, rest },
                    SseLine::Skip => sse_scan(rest),
                    SseLine::Data(data) => {
                        let after = sse_scan(rest);
                        SseScan {
                            payloads: seq![data] + after.payloads,
                            done: after.done,
                            rest: after.rest,
                        }
                    },
                }
            } else {
                SseScan { payloads: Seq::empty(), done: false, rest: buffer }
            }
        },
        None => SseScan { payloads: Seq::empty(), done: false, rest: buffer },
    }
}

/// Splits the byte chunks of an event stream into payloads.
pub struct SseLineReader {
    buffer: Vec<char>,
    done: bool,
}

/// The payloads as strings.
pub open spec fn payload_views(payloads: Seq<String>) -> Seq<Seq<char>> {
    payloads.map_values(|payload: String| payload@)
}

impl SseLineReader {
    /// The unfinished line held so far.
    pub closed spec fn pending(&self) -> Seq<char> {
        self.buffer@
    }

    /// Whether the end of the stream was reached.
    pub closed spec fn finished(&self) -> bool {
        self.done
    }

    /// A reader that has read nothing.
    pub fn new() -> (reader: Self)
        ensures
            reader.pending() == Seq::<char>::empty(),
            !reader.finished(),
    {
        SseLineReader { buffer: Vec::new(), done: false }
    }

    /// Whether the end of the stream was reached.
    pub fn is_done(&self) -> (done: bool)
        ensures
            done == self.finished(),
    {
        self.done
    }

    /// Takes the next byte chunk and returns the payloads of the lines it
    /// completes, in order. Once the end of the stream was reached, nothing
    /// more is read.
    pub fn feed(&mut self, bytes: &[u8]) -> (payloads: Vec<String>)
        ensures
            old(self).finished() ==> {
                &&& payloads@.len() == 0
                &&& final(self).finished()
                &&& final(self).pending() == old(self).pending()
            },
            !old(self).finished() ==> {
                let scanned = sse_scan(old(self).pending() + utf8_lossy(bytes@));
                &&& payload_views(payloads@) == scanned.payloads
                &&& final(self).finished() == scanned.done
                &&& final(self).pending() == scanned.rest
            },
    {
        let mut payloads: Vec<String> = Vec::new();
        if self.done {
            return payloads;
        }
        let decoded = decode_utf8_lossy(bytes);
        let mut added = str_chars(decoded.as_str());
        self.buffer.append(&mut added);
        let newline: Vec<char> = vec!['\n'];
        let prefix = str_chars("data: ");
        let sentinel = str_chars("[DONE]");
        assert(newline@ =~= line_end());
        let ghost goal = sse_scan(old(self).pending() + utf8_lossy(bytes@));
        assert(payload_views(payloads@) =~= Seq::<Seq<char>>::empty());
        assert(payload_views(payloads@) + goal.payloads =~= goal.payloads);
        let mut more = true;
        while more
            invariant
                newline@ == line_end(),
                prefix@ == data_prefix(),
                sentinel@ == done_sentinel(),
                more ==> !self.done,
                more ==> goal.payloads == payload_views(payloads@) + sse_scan(
                    self.buffer@,
                ).payloads,
                more ==> goal.done == sse_scan(self.buffer@).done,
                more ==> goal.rest == sse_scan(self.buffer@).rest,
                !more ==> goal.payloads == payload_views(payloads@),
                !more ==> goal.done == self.done,
                !more ==> goal.rest == self.buffer@,
            decreases self.buffer@.len(), if more { 1int } else { 0int },
        {
            let ghost buffer = self.buffer@;
            proof {
                lemma_first_occurrence(buffer, line_end());
            }
            match find_chars(self.buffer.as_slice(), newline.as_slice()) {
                None => {
                    more = false;
                    assert(payload_views(payloads@) + Seq::<Seq<char>>::empty()
                        =~= payload_views(payloads@));
                },
                Some(line_end_index) => {
                    let raw = chars_range(self.buffer.as_slice(), 0, line_end_index);
                    let line = trim_chars(raw.as_slice());
                    let rest = chars_range(
                        self.buffer.as_slice(),
                        line_end_index + 1,
                        self.buffer.len(),
                    );
                    self.buffer = rest;
                    proof {
                        assert(buffer.take(line_end_index as int) == buffer.subrange(
                            0,
                            line_end_index as int,
                        ));
                        assert(buffer.skip(line_end_index + 1) == buffer.subrange(
                            line_end_index + 1,
                            buffer.len() as int,
                        ));
                    }
                    if line.len() == 0 || line[0] == ':' {
                    } else if chars_match_at(line.as_slice(), prefix.as_slice(), 0) {
                        let data = chars_range(line.as_slice(), prefix.len(), line.len());
                        proof {
                            assert(line@.skip(prefix@.len() as int) == line@.subrange(
                                prefix@.len() as int,
                                line@.len() as int,
                            ));
                        }
                        if chars_eq(data.as_slice(), sentinel.as_slice()) {
                            self.done = true;
                            more = false;
                            assert(payload_views(payloads@) + Seq::<Seq<char>>::empty()
                                =~= payload_views(payloads@));
                        } else {
                            let ghost before = payload_views(payloads@);
                            let payload = string_from_chars(data.as_slice());
                            payloads.push(payload);
                            proof {
                                let after = sse_scan(self.buffer@);
                                assert(payload_views(payloads@) =~= before.push(data@));
                                assert(before + (seq![data@] + after.payloads) =~= before.push(
                                    data@,
                                ) + after.payloads);
                            }
                        }
                    }
                },
            }
        }
        payloads
    }
}

} // verus!
