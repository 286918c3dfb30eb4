//! Incremental recognition of `<think>` and `</think>` markers in a stream of
//! text chunks.
//!
//! The scanner splits what it is fed into text and thinking fragments. A
//! marker may be cut anywhere by a chunk boundary, so the scanner holds back
//! the longest tail of what it has seen that could still grow into the marker
//! it is waiting for.

use vstd::prelude::*;
use vstd::std_specs::cmp::PartialEqSpecImpl;
use crate::utils::text::{
    chars_match_prefix_at, chars_range, ends_with_seq, find_chars, first_occurrence,
    is_first_occurrence, lemma_first_occurrence, occurs_at, str_chars, string_from_chars,
};

verus! {

/// A piece of scanned input: plain text, or the inside of a think block.
#[derive(Debug)]
pub enum ThinkFragment {
    Text(String),
    Thinking(String),
}

/// What a fragment says: its kind and its characters.
pub enum ThinkFragmentView {
    Text(Seq<char>),
    Thinking(Seq<char>),
}

impl DeepView for ThinkFragment {
    type V = ThinkFragmentView;

    open spec fn deep_view(&self) -> ThinkFragmentView {
        match self {
            ThinkFragment::Text(s) => ThinkFragmentView::Text(s@),
            ThinkFragment::Thinking(s) => ThinkFragmentView::Thinking(s@),
        }
    }
}

impl Clone for ThinkFragment {
    fn clone(&self) -> (copy: Self)
        ensures
            copy.deep_view() == self.deep_view(),
    {
        match self {
            ThinkFragment::Text(s) => ThinkFragment::Text(s.clone()),
            ThinkFragment::Thinking(s) => ThinkFragment::Thinking(s.clone()),
        }
    }
}

impl PartialEq for ThinkFragment {
    fn eq(&self, other: &Self) -> (same: bool)
    {
        match (self, other) {
            (ThinkFragment::Text(a), ThinkFragment::Text(b)) => *a == *b,
            (ThinkFragment::Thinking(a), ThinkFragment::Thinking(b)) => *a == *b,
            _ => false,
        }
    }
}

impl PartialEqSpecImpl for ThinkFragment {
    open spec fn obeys_eq_spec() -> bool {
        true
    }

    open spec fn eq_spec(&self, other: &Self) -> bool {
        self.deep_view() == other.deep_view()
    }
}

impl Eq for ThinkFragment {

}

/// The marker that opens a think block.
pub open spec fn open_tag() -> Seq<char> {
    "<think>"@
}

/// The marker that closes a think block.
pub open spec fn close_tag() -> Seq<char> {
    "</think>"@
}

/// The marker the scanner waits for: the closing one inside a think block, the
/// opening one outside.
pub open spec fn awaited_tag(in_thinking: bool) -> Seq<char> {
    if in_thinking {
        close_tag()
    } else {
        open_tag()
    }
}

/// The last `k` characters of `input` are the first `k` of `tag`, and `k` is
/// neither zero nor the whole tag.
pub open spec fn is_partial_tag_suffix(input: Seq<char>, tag: Seq<char>, k: int) -> bool {
    &&& 1 <= k < tag.len()
    &&& ends_with_seq(input, tag.take(k))
}

/// The greatest `k <= bound` for which the last `k` characters of `input` start
/// `tag` without completing it; zero when there is none.
pub open spec fn partial_suffix_upto(input: Seq<char>, tag: Seq<char>, bound: int) -> int
    decreases bound,
{
    if bound <= 0 {
        0
    } else if is_partial_tag_suffix(input, tag, bound) {
        bound
    } else {
        partial_suffix_upto(input, tag, bound - 1)
    }
}

/// Length of the longest tail of `input` that is a proper, non-empty prefix of
/// `tag`; zero when no tail is.
pub open spec fn partial_suffix_len(input: Seq<char>, tag: Seq<char>) -> int {
    partial_suffix_upto(input, tag, tag.len() - 1)
}

/// The fragment list that holds `chars` as one fragment of the given kind, or
/// nothing when `chars` is empty.
pub open spec fn piece(in_thinking: bool, chars: Seq<char>) -> Seq<ThinkFragmentView> {
    if chars.len() == 0 {
        Seq::empty()
    } else if in_thinking {
        seq![ThinkFragmentView::Thinking(chars)]
    } else {
        seq![ThinkFragmentView::Text(chars)]
    }
}

/// Outcome of scanning a buffer: the fragments that can be released, the mode
/// the scanner ends in, and the tail it holds back.
pub struct Scan {
    pub fragments: Seq<ThinkFragmentView>,
    pub in_thinking: bool,
    pub rest: Seq<char>,
}

/// Scans `buffer` starting in the given mode.
///
/// While the awaited marker occurs, what stands before its first occurrence is
/// released in the current kind, the marker is consumed and the mode flips.
/// Once it no longer occurs, everything is released but the longest tail that
/// could still grow into the marker.
pub open spec fn scan(in_thinking: bool, buffer: Seq<char>) -> Scan
    decreases buffer.len(),
{
    let tag = awaited_tag(in_thinking);
    match first_occurrence(buffer, tag) {
        Some(at) => {
            if 0 <= at && at + tag.len() <= buffer.len() && tag.len() > 0 {
                let after = scan(!in_thinking, buffer.skip(at + tag.len()));
                Scan {
                    fragments: piece(in_thinking, buffer.take(at)) + after.fragments,
                    in_thinking: after.in_thinking,
                    rest: after.rest,
                }
            } else {
                Scan { fragments: Seq::empty(), in_thinking, rest: buffer }
            }
        },
        None => {
            let safe = buffer.len() - partial_suffix_len(buffer, tag);
            Scan {
                fragments: piece(in_thinking, buffer.take(safe)),
                in_thinking,
                rest: buffer.skip(safe),
            }
        },
    }
}

/// Splits a stream of text chunks into text and thinking fragments.
#[derive(Debug)]
pub struct ThinkTagParser {
    buffer: Vec<char>,
    in_thinking_block: bool,
}

impl Default for ThinkTagParser {
    fn default() -> (parser: Self)
        ensures
            parser.pending() == Seq::<char>::empty(),
            !parser.in_thinking(),
    {
        ThinkTagParser::new()
    }
}

impl ThinkTagParser {
    /// The characters held back so far.
    pub closed spec fn pending(&self) -> Seq<char> {
        self.buffer@
    }

    /// Whether the scanner is inside a think block.
    pub closed spec fn in_thinking(&self) -> bool {
        self.in_thinking_block
    }

    /// A scanner outside any think block with nothing held back.
    pub fn new() -> (parser: Self)
        ensures
            parser.pending() == Seq::<char>::empty(),
            !parser.in_thinking(),
    {
        ThinkTagParser { buffer: Vec::new(), in_thinking_block: false }
    }

    /// Appends `chunk` to what is held back and releases every fragment that is
    /// now decided. Empty fragments are never released.
    pub fn feed(&mut self, chunk: &str) -> (fragments: Vec<ThinkFragment>)
        ensures
            fragments.deep_view() == scan(
                old(self).in_thinking(),
                old(self).pending() + chunk@,
            ).fragments,
            final(self).in_thinking() == scan(
                old(self).in_thinking(),
                old(self).pending() + chunk@,
            ).in_thinking,
            final(self).pending() == scan(
                old(self).in_thinking(),
                old(self).pending() + chunk@,
            ).rest,
    {
        let mut added = str_chars(chunk);
        self.buffer.append(&mut added);
        let ghost goal = scan(old(self).in_thinking(), old(self).pending() + chunk@);
        let mut fragments: Vec<ThinkFragment> = Vec::new();
        assert(fragments.deep_view() =~= Seq::<ThinkFragmentView>::empty());
        assert(fragments.deep_view() + goal.fragments =~= goal.fragments);
        let mut more = true;
        while more
            invariant
                goal.fragments == fragments.deep_view() + scan(
                    self.in_thinking_block,
                    self.buffer@,
                ).fragments,
                goal.in_thinking == scan(self.in_thinking_block, self.buffer@).in_thinking,
                goal.rest == scan(self.in_thinking_block, self.buffer@).rest,
                !more ==> scan(self.in_thinking_block, self.buffer@) == (Scan {
                    fragments: Seq::empty(),
                    in_thinking: self.in_thinking_block,
                    rest: self.buffer@,
                }),
            decreases self.buffer@.len(), if more { 1int } else { 0int },
        {
            more = if self.in_thinking_block {
                self.emit_thinking_fragment(&mut fragments)
            } else {
                self.emit_text_fragment(&mut fragments)
            };
        }
        assert(fragments.deep_view() + Seq::<ThinkFragmentView>::empty()
            =~= fragments.deep_view());
        fragments
    }

    /// Releases whatever is held back, as thinking inside a think block and as
    /// text outside, and returns the scanner to text mode.
    pub fn flush(&mut self) -> (fragments: Vec<ThinkFragment>)
        ensures
            fragments.deep_view() == piece(old(self).in_thinking(), old(self).pending()),
            final(self).pending() == Seq::<char>::empty(),
            !final(self).in_thinking(),
    {
        let mut fragments: Vec<ThinkFragment> = Vec::new();
        if self.buffer.len() == 0 {
            self.in_thinking_block = false;
            assert(fragments.deep_view() =~= Seq::<ThinkFragmentView>::empty());
            return fragments;
        }
        let pending = string_from_chars(self.buffer.as_slice());
        self.buffer = Vec::new();
        if self.in_thinking_block {
            fragments.push(ThinkFragment::Thinking(pending));
        } else {
            fragments.push(ThinkFragment::Text(pending));
        }
        self.in_thinking_block = false;
        assert(fragments.deep_view() =~= piece(old(self).in_thinking(), old(self).pending()));
        fragments
    }

    /// One scanning step outside a think block. Returns whether the opening
    /// marker was consumed, in which case there may be more to release.
    fn emit_text_fragment(&mut self, fragments: &mut Vec<ThinkFragment>) -> (more: bool)
        requires
            !old(self).in_thinking_block,
        ensures
            step_done(
                *old(self),
                *final(self),
                old(fragments).deep_view(),
                final(fragments).deep_view(),
                more,
            ),
    {
        let tag = str_chars("<think>");
        let ghost tag_seq = awaited_tag(false);
        proof {
            lemma_tag_lengths();
            lemma_first_occurrence(self.buffer@, tag_seq);
        }
        let ghost had = fragments.deep_view();
        if let Some(tag_index) = find_chars(self.buffer.as_slice(), tag.as_slice()) {
            let text = chars_range(self.buffer.as_slice(), 0, tag_index);
            self.push_non_empty_text(text.as_slice(), fragments);
            let rest = chars_range(
                self.buffer.as_slice(),
                tag_index + tag.len(),
                self.buffer.len(),
            );
            self.buffer = rest;
            self.in_thinking_block = true;
            proof {
                let buf = old(self).buffer@;
                assert(buf.take(tag_index as int) == buf.subrange(0, tag_index as int));
                assert(buf.skip(tag_index + tag_seq.len()) == buf.subrange(
                    tag_index + tag_seq.len(),
                    buf.len() as int,
                ));
                let after = scan(true, self.buffer@);
                assert(had + (piece(false, buf.take(tag_index as int)) + after.fragments) =~= (had
                    + piece(false, buf.take(tag_index as int))) + after.fragments);
            }
            return true;
        }
        let partial_suffix = partial_tag_suffix_len(self.buffer.as_slice(), tag.as_slice());
        proof {
            lemma_partial_suffix_bounds(self.buffer@, tag_seq);
        }
        let safe_len = self.buffer.len() - partial_suffix;
        if safe_len == 0 {
            proof {
                lemma_settled(false, self.buffer@);
                assert(had + Seq::<ThinkFragmentView>::empty() =~= had);
                assert(self.buffer@.take(0) =~= Seq::<char>::empty());
            }
            return false;
        }
        let text = chars_range(self.buffer.as_slice(), 0, safe_len);
        self.push_non_empty_text(text.as_slice(), fragments);
        let rest = chars_range(self.buffer.as_slice(), safe_len, self.buffer.len());
        self.buffer = rest;
        proof {
            let buf = old(self).buffer@;
            assert(buf.take(safe_len as int) == buf.subrange(0, safe_len as int));
            assert(buf.skip(safe_len as int) == buf.subrange(safe_len as int, buf.len() as int));
            lemma_tail_settled(false, buf);
            assert((had + piece(false, buf.take(safe_len as int)))
                + Seq::<ThinkFragmentView>::empty() =~= had + piece(
                false,
                buf.take(safe_len as int),
            ));
        }
        false
    }

    /// One scanning step inside a think block. Returns whether the closing
    /// marker was consumed, in which case there may be more to release.
    fn emit_thinking_fragment(&mut self, fragments: &mut Vec<ThinkFragment>) -> (more: bool)
        requires
            old(self).in_thinking_block,
        ensures
            step_done(
                *old(self),
                *final(self),
                old(fragments).deep_view(),
                final(fragments).deep_view(),
                more,
            ),
    {
        let tag = str_chars("</think>");
        let ghost tag_seq = awaited_tag(true);
        proof {
            lemma_tag_lengths();
            lemma_first_occurrence(self.buffer@, tag_seq);
        }
        let ghost had = fragments.deep_view();
        if let Some(tag_index) = find_chars(self.buffer.as_slice(), tag.as_slice()) {
            let thinking = chars_range(self.buffer.as_slice(), 0, tag_index);
            self.push_non_empty_thinking(thinking.as_slice(), fragments);
            let rest = chars_range(
                self.buffer.as_slice(),
                tag_index + tag.len(),
                self.buffer.len(),
            );
            self.buffer = rest;
            self.in_thinking_block = false;
            proof {
                let buf = old(self).buffer@;
                assert(buf.take(tag_index as int) == buf.subrange(0, tag_index as int));
                assert(buf.skip(tag_index + tag_seq.len()) == buf.subrange(
                    tag_index + tag_seq.len(),
                    buf.len() as int,
                ));
                let after = scan(false, self.buffer@);
                assert(had + (piece(true, buf.take(tag_index as int)) + after.fragments) =~= (had
                    + piece(true, buf.take(tag_index as int))) + after.fragments);
            }
            return true;
        }
        let partial_suffix = partial_tag_suffix_len(self.buffer.as_slice(), tag.as_slice());
        proof {
            lemma_partial_suffix_bounds(self.buffer@, tag_seq);
        }
        let safe_len = self.buffer.len() - partial_suffix;
        if safe_len == 0 {
            proof {
                lemma_settled(true, self.buffer@);
                assert(had + Seq::<ThinkFragmentView>::empty() =~= had);
                assert(self.buffer@.take(0) =~= Seq::<char>::empty());
            }
            return false;
        }
        let thinking = chars_range(self.buffer.as_slice(), 0, safe_len);
        self.push_non_empty_thinking(thinking.as_slice(), fragments);
        let rest = chars_range(self.buffer.as_slice(), safe_len, self.buffer.len());
        self.buffer = rest;
        proof {
            let buf = old(self).buffer@;
            assert(buf.take(safe_len as int) == buf.subrange(0, safe_len as int));
            assert(buf.skip(safe_len as int) == buf.subrange(safe_len as int, buf.len() as int));
            lemma_tail_settled(true, buf);
            assert((had + piece(true, buf.take(safe_len as int)))
                + Seq::<ThinkFragmentView>::empty() =~= had + piece(
                true,
                buf.take(safe_len as int),
            ));
        }
        false
    }

    /// Appends `text` as a text fragment unless it is empty.
    fn push_non_empty_text(&self, text: &[char], fragments: &mut Vec<ThinkFragment>)
        ensures
            final(fragments).deep_view() == old(fragments).deep_view() + piece(false, text@),
    {
        if text.len() == 0 {
            assert(fragments.deep_view() + Seq::<ThinkFragmentView>::empty()
                =~= fragments.deep_view());
            return ;
        }
        fragments.push(ThinkFragment::Text(string_from_chars(text)));
        assert(fragments.deep_view() =~= old(fragments).deep_view() + piece(false, text@));
    }

    /// Appends `thinking` as a thinking fragment unless it is empty.
    fn push_non_empty_thinking(&self, thinking: &[char], fragments: &mut Vec<ThinkFragment>)
        ensures
            final(fragments).deep_view() == old(fragments).deep_view() + piece(true, thinking@),
    {
        if thinking.len() == 0 {
            assert(fragments.deep_view() + Seq::<ThinkFragmentView>::empty()
                =~= fragments.deep_view());
            return ;
        }
        fragments.push(ThinkFragment::Thinking(string_from_chars(thinking)));
        assert(fragments.deep_view() =~= old(fragments).deep_view() + piece(true, thinking@));
    }
}

/// What one scanning step achieves: the fragments released so far followed by a
/// scan of what is left equal those released before followed by a scan of what was
/// there, and a step that reports more work has shortened the buffer.
spec fn step_done(
    before: ThinkTagParser,
    after: ThinkTagParser,
    had: Seq<ThinkFragmentView>,
    have: Seq<ThinkFragmentView>,
    more: bool,
) -> bool {
    let was = scan(before.in_thinking_block, before.buffer@);
    let now = scan(after.in_thinking_block, after.buffer@);
    &&& had + was.fragments == have + now.fragments
    &&& was.in_thinking == now.in_thinking
    &&& was.rest == now.rest
    &&& after.buffer@.len() <= before.buffer@.len()
    &&& more ==> after.buffer@.len() < before.buffer@.len()
    &&& !more ==> now == (Scan {
        fragments: Seq::empty(),
        in_thinking: after.in_thinking_block,
        rest: after.buffer@,
    })
}

/// Length of the longest tail of `input` that starts `tag` without completing
/// it.
fn partial_tag_suffix_len(input: &[char], tag: &[char]) -> (len: usize)
    ensures
        len == partial_suffix_len(input@, tag@),
{
    if tag.len() == 0 {
        return 0;
    }
    let mut suffix_len: usize = tag.len() - 1;
    while suffix_len >= 1
        invariant
            suffix_len < tag.len(),
            partial_suffix_len(input@, tag@) == partial_suffix_upto(
                input@,
                tag@,
                suffix_len as int,
            ),
        decreases suffix_len,
    {
        if suffix_len <= input.len() && chars_match_prefix_at(
            input,
            tag,
            suffix_len,
            input.len() - suffix_len,
        ) {
            assert(tag@.take(suffix_len as int).len() == suffix_len);
            return suffix_len;
        }
        proof {
            if suffix_len <= input.len() {
                assert(tag@.take(suffix_len as int).len() == suffix_len);
            }
            assert(!is_partial_tag_suffix(input@, tag@, suffix_len as int));
        }
        suffix_len -= 1;
    }
    0
}

/// Both markers are non-empty.
pub proof fn lemma_tag_lengths()
    ensures
        open_tag().len() == 7,
        close_tag().len() == 8,
        forall|m: bool| #[trigger] awaited_tag(m).len() >= 7,
{
    reveal_strlit("<think>");
    reveal_strlit("</think>");
}

/// The held-back tail is shorter than the marker and no longer than the input.
pub proof fn lemma_partial_suffix_bounds(input: Seq<char>, tag: Seq<char>)
    requires
        tag.len() > 0,
    ensures
        0 <= partial_suffix_len(input, tag) < tag.len(),
        partial_suffix_len(input, tag) <= input.len(),
        partial_suffix_len(input, tag) > 0 ==> is_partial_tag_suffix(
            input,
            tag,
            partial_suffix_len(input, tag),
        ),
        forall|k: int|
            partial_suffix_len(input, tag) < k ==> !is_partial_tag_suffix(input, tag, k),
{
    lemma_partial_suffix_upto(input, tag, tag.len() - 1);
}

proof fn lemma_partial_suffix_upto(input: Seq<char>, tag: Seq<char>, bound: int)
    requires
        bound < tag.len(),
    ensures
        0 <= partial_suffix_upto(input, tag, bound),
        partial_suffix_upto(input, tag, bound) <= bound || partial_suffix_upto(input, tag, bound)
            == 0,
        partial_suffix_upto(input, tag, bound) <= input.len(),
        partial_suffix_upto(input, tag, bound) > 0 ==> is_partial_tag_suffix(
            input,
            tag,
            partial_suffix_upto(input, tag, bound),
        ),
        forall|k: int|
            partial_suffix_upto(input, tag, bound) < k <= bound ==> !is_partial_tag_suffix(
                input,
                tag,
                k,
            ),
    decreases bound,
{
    if bound <= 0 {
    } else if is_partial_tag_suffix(input, tag, bound) {
        assert(tag.take(bound).len() == bound);
    } else {
        lemma_partial_suffix_upto(input, tag, bound - 1);
    }
}

/// A buffer that is nothing but a held-back tail scans to itself.
pub proof fn lemma_settled(in_thinking: bool, buffer: Seq<char>)
    requires
        first_occurrence(buffer, awaited_tag(in_thinking)).is_none(),
        partial_suffix_len(buffer, awaited_tag(in_thinking)) == buffer.len(),
    ensures
        scan(in_thinking, buffer) == (Scan {
            fragments: Seq::empty(),
            in_thinking,
            rest: buffer,
        }),
{
    assert(buffer.take(0) =~= Seq::<char>::empty());
    assert(buffer.skip(0) =~= buffer);
}

/// What a scan holds back, when the awaited marker does not occur, scans to
/// itself.
pub proof fn lemma_tail_settled(in_thinking: bool, buffer: Seq<char>)
    requires
        first_occurrence(buffer, awaited_tag(in_thinking)).is_none(),
    ensures
        ({
            let tag = awaited_tag(in_thinking);
            let tail = buffer.skip(buffer.len() - partial_suffix_len(buffer, tag));
            scan(in_thinking, tail) == (Scan {
                fragments: Seq::empty(),
                in_thinking,
                rest: tail,
            })
        }),
{
    let tag = awaited_tag(in_thinking);
    lemma_tag_lengths();
    lemma_partial_suffix_bounds(buffer, tag);
    let keep = partial_suffix_len(buffer, tag);
    let tail = buffer.skip(buffer.len() - keep);
    lemma_first_occurrence(buffer, tag);
    lemma_first_occurrence(tail, tag);
    assert(tail.len() == keep);
    assert forall|j: int| !occurs_at(tail, tag, j) by {
        if occurs_at(tail, tag, j) {
            assert(j + tag.len() <= tail.len());
        }
    }
    lemma_partial_suffix_bounds(tail, tag);
    if keep > 0 {
        assert(is_partial_tag_suffix(buffer, tag, keep));
        assert(buffer.subrange(buffer.len() - keep, buffer.len() as int) == tag.take(keep));
        assert(tail =~= tag.take(keep));
        assert(tail.subrange(tail.len() - keep, tail.len() as int) =~= tail);
        assert(is_partial_tag_suffix(tail, tag, keep));
        if partial_suffix_len(tail, tag) < keep {
            assert(!is_partial_tag_suffix(tail, tag, keep));
        }
    }
    assert(partial_suffix_len(tail, tag) == tail.len());
    lemma_settled(in_thinking, tail);
}

/// The characters of `chars`, each marked with the kind it was released in
/// (`true` for thinking).
pub open spec fn labelled(in_thinking: bool, chars: Seq<char>) -> Seq<(bool, char)> {
    chars.map_values(|c: char| (in_thinking, c))
}

/// The characters of one fragment, each marked with the fragment's kind.
pub open spec fn fragment_chars(fragment: ThinkFragmentView) -> Seq<(bool, char)> {
    match fragment {
        ThinkFragmentView::Text(chars) => labelled(false, chars),
        ThinkFragmentView::Thinking(chars) => labelled(true, chars),
    }
}

/// The marked characters of a fragment list, in order: what the list says once
/// the boundaries between neighbouring fragments of one kind are forgotten.
pub open spec fn tagged(fragments: Seq<ThinkFragmentView>) -> Seq<(bool, char)>
    decreases fragments.len(),
{
    if fragments.len() == 0 {
        Seq::empty()
    } else {
        tagged(fragments.drop_last()) + fragment_chars(fragments.last())
    }
}

/// All chunks joined in order.
pub open spec fn concat_chunks(chunks: Seq<Seq<char>>) -> Seq<char>
    decreases chunks.len(),
{
    if chunks.len() == 0 {
        Seq::empty()
    } else {
        chunks[0] + concat_chunks(chunks.drop_first())
    }
}

/// The marked characters released by feeding `chunks` one after another to a
/// scanner in the given state and flushing it at the end.
pub open spec fn fed_output(in_thinking: bool, pending: Seq<char>, chunks: Seq<Seq<char>>) -> Seq<
    (bool, char),
>
    decreases chunks.len(),
{
    if chunks.len() == 0 {
        tagged(piece(in_thinking, pending))
    } else {
        let step = scan(in_thinking, pending + chunks[0]);
        tagged(step.fragments) + fed_output(step.in_thinking, step.rest, chunks.drop_first())
    }
}

/// The state of a scanner between two feeds: scanning what it holds back
/// releases nothing and changes nothing.
pub open spec fn settled(in_thinking: bool, pending: Seq<char>) -> bool {
    scan(in_thinking, pending) == (Scan { fragments: Seq::empty(), in_thinking, rest: pending })
}

/// At index `from`, `input` either holds the whole of `tag` or runs out while
/// still agreeing with it.
pub open spec fn could_start(input: Seq<char>, tag: Seq<char>, from: int) -> bool {
    ||| occurs_at(input, tag, from)
    ||| (0 <= from <= input.len() && input.len() - from < tag.len() && input.skip(from)
        == tag.take(input.len() - from))
}

/// The marked characters of two fragment lists joined are those of the one
/// followed by those of the other.
pub proof fn lemma_tagged_concat(a: Seq<ThinkFragmentView>, b: Seq<ThinkFragmentView>)
    ensures
        tagged(a + b) == tagged(a) + tagged(b),
    decreases b.len(),
{
    if b.len() == 0 {
        assert(a + b =~= a);
        assert(tagged(a) + tagged(b) =~= tagged(a));
    } else {
        lemma_tagged_concat(a, b.drop_last());
        assert((a + b).drop_last() =~= a + b.drop_last());
        assert((a + b).last() == b.last());
        assert((tagged(a) + tagged(b.drop_last())) + fragment_chars(b.last()) =~= tagged(a) + (
        tagged(b.drop_last()) + fragment_chars(b.last())));
    }
}

/// The marked characters of a piece are its characters, marked with its kind.
pub proof fn lemma_tagged_piece(in_thinking: bool, chars: Seq<char>)
    ensures
        tagged(piece(in_thinking, chars)) == labelled(in_thinking, chars),
{
    let p = piece(in_thinking, chars);
    if chars.len() == 0 {
        assert(labelled(in_thinking, chars) =~= Seq::<(bool, char)>::empty());
    } else {
        assert(p.drop_last() =~= Seq::<ThinkFragmentView>::empty());
        assert(tagged(p.drop_last()) =~= Seq::<(bool, char)>::empty());
        assert(tagged(p) =~= fragment_chars(p.last()));
    }
}

proof fn lemma_labelled_concat(in_thinking: bool, a: Seq<char>, b: Seq<char>)
    ensures
        labelled(in_thinking, a + b) == labelled(in_thinking, a) + labelled(in_thinking, b),
{
    assert(labelled(in_thinking, a + b) =~= labelled(in_thinking, a) + labelled(in_thinking, b));
}

/// What a scan ends in is settled.
pub proof fn lemma_scan_settles(in_thinking: bool, buffer: Seq<char>)
    ensures
        settled(scan(in_thinking, buffer).in_thinking, scan(in_thinking, buffer).rest),
    decreases buffer.len(),
{
    let tag = awaited_tag(in_thinking);
    lemma_tag_lengths();
    lemma_first_occurrence(buffer, tag);
    match first_occurrence(buffer, tag) {
        Some(at) => {
            lemma_scan_settles(!in_thinking, buffer.skip(at + tag.len()));
        },
        None => {
            lemma_tail_settled(in_thinking, buffer);
        },
    }
}

/// A prefix at no index of which the awaited marker could start is released as
/// it stands, and does not change how the rest is scanned.
proof fn lemma_scan_release(in_thinking: bool, u: Seq<char>, v: Seq<char>)
    requires
        forall|j: int| 0 <= j < u.len() ==> !could_start(u + v, awaited_tag(in_thinking), j),
    ensures
        tagged(scan(in_thinking, u + v).fragments) == labelled(in_thinking, u) + tagged(
            scan(in_thinking, v).fragments,
        ),
        scan(in_thinking, u + v).in_thinking == scan(in_thinking, v).in_thinking,
        scan(in_thinking, u + v).rest == scan(in_thinking, v).rest,
{
    let tag = awaited_tag(in_thinking);
    let x = u + v;
    let n = u.len() as int;
    lemma_tag_lengths();
    lemma_first_occurrence(x, tag);
    lemma_first_occurrence(v, tag);
    match first_occurrence(x, tag) {
        Some(at) => {
            assert(at >= n) by {
                if at < n {
                    assert(could_start(x, tag, at));
                }
            }
            assert(occurs_at(v, tag, at - n)) by {
                assert(v.subrange(at - n, at - n + tag.len()) =~= x.subrange(at, at + tag.len()));
            }
            assert forall|j: int| 0 <= j < at - n implies !occurs_at(v, tag, j) by {
                if occurs_at(v, tag, j) {
                    assert(x.subrange(j + n, j + n + tag.len()) =~= v.subrange(j, j + tag.len()));
                    assert(occurs_at(x, tag, j + n));
                }
            }
            assert(is_first_occurrence(v, tag, at - n));
            assert(first_occurrence(v, tag) == Some(at - n));
            assert(x.skip(at + tag.len()) =~= v.skip(at - n + tag.len()));
            assert(x.take(at) =~= u + v.take(at - n));
            let after = scan(!in_thinking, x.skip(at + tag.len()));
            lemma_tagged_concat(piece(in_thinking, x.take(at)), after.fragments);
            lemma_tagged_concat(piece(in_thinking, v.take(at - n)), after.fragments);
            lemma_tagged_piece(in_thinking, x.take(at));
            lemma_tagged_piece(in_thinking, v.take(at - n));
            lemma_labelled_concat(in_thinking, u, v.take(at - n));
            assert((labelled(in_thinking, u) + labelled(in_thinking, v.take(at - n))) + tagged(
                after.fragments,
            ) =~= labelled(in_thinking, u) + (labelled(in_thinking, v.take(at - n)) + tagged(
                after.fragments,
            )));
        },
        None => {
            assert forall|j: int| !occurs_at(v, tag, j) by {
                if occurs_at(v, tag, j) {
                    assert(x.subrange(j + n, j + n + tag.len()) =~= v.subrange(j, j + tag.len()));
                    assert(occurs_at(x, tag, j + n));
                }
            }
            assert(first_occurrence(v, tag).is_none());
            lemma_partial_suffix_bounds(x, tag);
            lemma_partial_suffix_bounds(v, tag);
            let kx = partial_suffix_len(x, tag);
            let kv = partial_suffix_len(v, tag);
            assert(kx <= v.len()) by {
                if kx > v.len() {
                    let j = x.len() - kx;
                    assert(is_partial_tag_suffix(x, tag, kx));
                    assert(tag.take(kx).len() == kx);
                    assert(x.skip(j) =~= x.subrange(x.len() - kx, x.len() as int));
                    assert(could_start(x, tag, j));
                }
            }
            assert forall|k: int| 1 <= k <= v.len() implies (is_partial_tag_suffix(x, tag, k)
                <==> is_partial_tag_suffix(v, tag, k)) by {
                if k < tag.len() {
                    assert(tag.take(k).len() == k);
                    assert(x.subrange(x.len() - k, x.len() as int) =~= v.subrange(
                        v.len() - k,
                        v.len() as int,
                    ));
                }
            }
            assert(kx == kv) by {
                if kx > kv {
                    assert(is_partial_tag_suffix(x, tag, kx));
                    assert(is_partial_tag_suffix(v, tag, kx));
                }
                if kv > kx {
                    assert(is_partial_tag_suffix(v, tag, kv));
                    assert(is_partial_tag_suffix(x, tag, kv));
                }
            }
            let sv = v.len() - kv;
            assert(x.take(x.len() - kx) =~= u + v.take(sv));
            assert(x.skip(x.len() - kx) =~= v.skip(sv));
            lemma_tagged_piece(in_thinking, x.take(x.len() - kx));
            lemma_tagged_piece(in_thinking, v.take(sv));
            lemma_labelled_concat(in_thinking, u, v.take(sv));
        },
    }
}

/// Scanning a buffer in two parts releases the same marked characters, and
/// ends in the same state, as scanning it whole.
pub proof fn lemma_scan_split(in_thinking: bool, a: Seq<char>, b: Seq<char>)
    ensures
        ({
            let first = scan(in_thinking, a);
            let second = scan(first.in_thinking, first.rest + b);
            let whole = scan(in_thinking, a + b);
            &&& tagged(whole.fragments) == tagged(first.fragments) + tagged(second.fragments)
            &&& whole.in_thinking == second.in_thinking
            &&& whole.rest == second.rest
        }),
    decreases a.len(),
{
    let tag = awaited_tag(in_thinking);
    let x = a + b;
    lemma_tag_lengths();
    lemma_first_occurrence(a, tag);
    lemma_first_occurrence(x, tag);
    match first_occurrence(a, tag) {
        Some(at) => {
            assert(occurs_at(x, tag, at)) by {
                assert(x.subrange(at, at + tag.len()) =~= a.subrange(at, at + tag.len()));
            }
            assert forall|j: int| 0 <= j < at implies !occurs_at(x, tag, j) by {
                if occurs_at(x, tag, j) {
                    assert(a.subrange(j, j + tag.len()) =~= x.subrange(j, j + tag.len()));
                    assert(occurs_at(a, tag, j));
                }
            }
            assert(is_first_occurrence(x, tag, at));
            assert(first_occurrence(x, tag) == Some(at));
            let a2 = a.skip(at + tag.len());
            assert(x.skip(at + tag.len()) =~= a2 + b);
            assert(x.take(at) =~= a.take(at));
            lemma_scan_split(!in_thinking, a2, b);
            let head = piece(in_thinking, a.take(at));
            let first2 = scan(!in_thinking, a2);
            let second = scan(first2.in_thinking, first2.rest + b);
            let whole2 = scan(!in_thinking, a2 + b);
            lemma_tagged_concat(head, first2.fragments);
            lemma_tagged_concat(head, whole2.fragments);
            assert(tagged(head) + (tagged(first2.fragments) + tagged(second.fragments)) =~= (
            tagged(head) + tagged(first2.fragments)) + tagged(second.fragments));
        },
        None => {
            lemma_partial_suffix_bounds(a, tag);
            let keep = partial_suffix_len(a, tag);
            let safe = a.len() - keep;
            let u = a.take(safe);
            let p = a.skip(safe);
            assert(u + (p + b) =~= x);
            assert forall|j: int| 0 <= j < u.len() implies !could_start(u + (p + b), tag, j) by {
                let k = a.len() - j;
                if occurs_at(x, tag, j) {
                    if j + tag.len() <= a.len() {
                        assert(a.subrange(j, j + tag.len()) =~= x.subrange(j, j + tag.len()));
                        assert(occurs_at(a, tag, j));
                    } else {
                        assert(tag.take(k).len() == k);
                        assert(a.subrange(a.len() - k, a.len() as int) =~= x.subrange(
                            j,
                            j + tag.len(),
                        ).take(k));
                        assert(is_partial_tag_suffix(a, tag, k));
                    }
                }
                if x.len() - j < tag.len() && x.skip(j) == tag.take(x.len() - j) {
                    assert(tag.take(k).len() == k);
                    assert(a.subrange(a.len() - k, a.len() as int) =~= x.skip(j).take(k));
                    assert(tag.take(x.len() - j).take(k) =~= tag.take(k));
                    assert(is_partial_tag_suffix(a, tag, k));
                }
            }
            lemma_scan_release(in_thinking, u, p + b);
            lemma_tagged_piece(in_thinking, u);
        },
    }
}

/// However an input is cut into chunks, feeding the chunks in turn and flushing
/// releases the same marked characters as feeding the input in one piece and
/// flushing. This holds of any scanner between two feeds.
pub proof fn lemma_chunking_from(in_thinking: bool, pending: Seq<char>, chunks: Seq<Seq<char>>)
    requires
        settled(in_thinking, pending),
    ensures
        fed_output(in_thinking, pending, chunks) == fed_output(
            in_thinking,
            pending,
            seq![concat_chunks(chunks)],
        ),
    decreases chunks.len(),
{
    let joined = concat_chunks(chunks);
    let one = seq![joined];
    assert(one.drop_first() =~= Seq::<Seq<char>>::empty());
    let whole = scan(in_thinking, pending + joined);
    assert(fed_output(in_thinking, pending, one) == tagged(whole.fragments) + tagged(
        piece(whole.in_thinking, whole.rest),
    )) by {
        assert(fed_output(whole.in_thinking, whole.rest, one.drop_first()) == tagged(
            piece(whole.in_thinking, whole.rest),
        ));
    }
    if chunks.len() == 0 {
        assert(pending + joined =~= pending);
        assert(tagged(whole.fragments) =~= Seq::<(bool, char)>::empty());
        assert(tagged(whole.fragments) + tagged(piece(in_thinking, pending)) =~= tagged(
            piece(in_thinking, pending),
        ));
    } else {
        let rest = chunks.drop_first();
        let tail = concat_chunks(rest);
        let step = scan(in_thinking, pending + chunks[0]);
        lemma_scan_settles(in_thinking, pending + chunks[0]);
        lemma_chunking_from(step.in_thinking, step.rest, rest);
        let tail_one = seq![tail];
        assert(tail_one.drop_first() =~= Seq::<Seq<char>>::empty());
        let second = scan(step.in_thinking, step.rest + tail);
        assert(fed_output(step.in_thinking, step.rest, tail_one) == tagged(second.fragments)
            + tagged(piece(second.in_thinking, second.rest))) by {
            assert(fed_output(second.in_thinking, second.rest, tail_one.drop_first()) == tagged(
                piece(second.in_thinking, second.rest),
            ));
        }
        lemma_scan_split(in_thinking, pending + chunks[0], tail);
        assert((pending + chunks[0]) + tail =~= pending + joined);
        assert(tagged(step.fragments) + (tagged(second.fragments) + tagged(
            piece(second.in_thinking, second.rest),
        )) =~= (tagged(step.fragments) + tagged(second.fragments)) + tagged(
            piece(second.in_thinking, second.rest),
        ));
    }
}

/// However an input is cut into chunks, a fresh scanner that is fed the chunks
/// in turn and then flushed releases the same marked characters as one that is
/// fed the whole input at once and then flushed.
pub proof fn lemma_chunking_invariance(chunks: Seq<Seq<char>>)
    ensures
        fed_output(false, Seq::empty(), chunks) == fed_output(
            false,
            Seq::empty(),
            seq![concat_chunks(chunks)],
        ),
{
    let none = Seq::<char>::empty();
    lemma_tag_lengths();
    lemma_first_occurrence(none, awaited_tag(false));
    assert forall|j: int| !occurs_at(none, awaited_tag(false), j) by {}
    lemma_partial_suffix_bounds(none, awaited_tag(false));
    lemma_settled(false, none);
    lemma_chunking_from(false, none, chunks);
}

/// A beginning of the opening marker that stops short of the whole marker is
/// held back when it is fed to a scanner outside a think block that holds
/// nothing: nothing is released, and a flush then releases it as text.
pub proof fn lemma_dangling_prefix_is_held_back(k: int)
    requires
        1 <= k < open_tag().len(),
    ensures
        scan(false, open_tag().take(k)) == (Scan {
            fragments: Seq::empty(),
            in_thinking: false,
            rest: open_tag().take(k),
        }),
        piece(false, open_tag().take(k)) == seq![ThinkFragmentView::Text(open_tag().take(k))],
{
    let tag = open_tag();
    let buffer = tag.take(k);
    lemma_tag_lengths();
    lemma_first_occurrence(buffer, tag);
    assert forall|j: int| !occurs_at(buffer, tag, j) by {
        if occurs_at(buffer, tag, j) {
            assert(j + tag.len() <= buffer.len());
        }
    }
    lemma_partial_suffix_bounds(buffer, tag);
    assert(buffer.subrange(buffer.len() - k, buffer.len() as int) =~= buffer);
    assert(is_partial_tag_suffix(buffer, tag, k));
    if partial_suffix_len(buffer, tag) < k {
        assert(!is_partial_tag_suffix(buffer, tag, k));
    }
    lemma_settled(false, buffer);
}

/// A think block with nothing inside releases nothing: fed to a scanner
/// outside a think block that holds nothing, the opening marker followed at
/// once by the closing marker yields no fragment and leaves the scanner as it
/// was.
pub proof fn lemma_empty_think_block_releases_nothing()
    ensures
        scan(false, open_tag() + close_tag()) == (Scan {
            fragments: Seq::empty(),
            in_thinking: false,
            rest: Seq::empty(),
        }),
{
    let input = open_tag() + close_tag();
    lemma_tag_lengths();
    assert(occurs_at(input, open_tag(), 0)) by {
        assert(input.subrange(0, open_tag().len() as int) =~= open_tag());
    }
    assert(is_first_occurrence(input, open_tag(), 0));
    lemma_first_occurrence(input, open_tag());
    let inside = input.skip(open_tag().len() as int);
    assert(inside =~= close_tag());
    assert(input.take(0) =~= Seq::<char>::empty());
    assert(occurs_at(inside, close_tag(), 0)) by {
        assert(inside.subrange(0, close_tag().len() as int) =~= close_tag());
    }
    assert(is_first_occurrence(inside, close_tag(), 0));
    lemma_first_occurrence(inside, close_tag());
    let after = inside.skip(close_tag().len() as int);
    assert(after =~= Seq::<char>::empty());
    assert(inside.take(0) =~= Seq::<char>::empty());
    lemma_first_occurrence(after, open_tag());
    assert forall|j: int| !occurs_at(after, open_tag(), j) by {}
    lemma_partial_suffix_bounds(after, open_tag());
    lemma_settled(false, after);
    let last = scan(false, after);
    let middle = scan(true, inside);
    assert(middle.fragments =~= Seq::<ThinkFragmentView>::empty());
    assert(scan(false, input).fragments =~= Seq::<ThinkFragmentView>::empty());
}

} // verus!
