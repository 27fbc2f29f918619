//! The parser state: a token stream with one-token look-ahead, the
//! append-only event stream that records tree construction, the nesting
//! counter, and the accumulated error list.
//!
//! The well-formedness invariant `LuaParser::wf` ties everything together:
//! the nesting counter equals the net node depth of the event stream, no
//! prefix of the stream closes more nodes than it has opened, every parent
//! redirection written by `precede` points forward at a node-start event,
//! and the token-eat events are exactly the consumed prefix of the token
//! stream. The balance and round-trip laws are corollaries, stated at the
//! bottom of this file.
use vstd::prelude::*;
use crate::kind::{LuaSyntaxKind, LuaTokenKind, SourceRange};
use crate::marker::{MarkEvent, Marker};
use crate::parser_error::LuaParseError;

verus! {

/// One lexed token: its kind and the byte range of its text.
#[derive(Debug, Clone, Copy, PartialEq, Eq, Structural)]
pub struct Token {
    pub kind: LuaTokenKind,
    pub range: SourceRange,
}

/// Contribution of one event to the nesting depth.
pub open spec fn event_delta(e: MarkEvent) -> int {
    match e {
        MarkEvent::NodeStart { .. } => 1,
        MarkEvent::EatToken { .. } => 0,
        MarkEvent::NodeEnd => -1,
    }
}

/// Net nesting depth of an event sequence: node starts minus node ends.
pub open spec fn depth(s: Seq<MarkEvent>) -> int
    decreases s.len(),
{
    if s.len() == 0 {
        0
    } else {
        depth(s.drop_last()) + event_delta(s.last())
    }
}

/// No prefix of the sequence closes more nodes than it has opened.
pub open spec fn nonneg_prefixes(s: Seq<MarkEvent>) -> bool {
    forall|k: int| #![auto] 0 <= k <= s.len() ==> depth(s.take(k)) >= 0
}

/// The event stream decomposes into properly nested start/end pairs with
/// no dangling opens.
pub open spec fn balanced(s: Seq<MarkEvent>) -> bool {
    depth(s) == 0 && nonneg_prefixes(s)
}

/// Every parent slot written by `precede` points forward at a node-start
/// event; `0` is the "no redirection" default.
pub open spec fn parents_valid(s: Seq<MarkEvent>) -> bool {
    forall|i: int| #![auto]
        0 <= i < s.len() && s[i] is NodeStart ==> s[i]->NodeStart_parent == 0 || (
        i < s[i]->NodeStart_parent < s.len() && s[s[i]->NodeStart_parent as int] is NodeStart)
}

/// The subsequence of token-eat events, in event order.
pub open spec fn eaten(s: Seq<MarkEvent>) -> Seq<MarkEvent>
    decreases s.len(),
{
    if s.len() == 0 {
        Seq::empty()
    } else if s.last() is EatToken {
        eaten(s.drop_last()).push(s.last())
    } else {
        eaten(s.drop_last())
    }
}

/// Indices that held a node-start event still hold one of the same kind: a
/// parse step only appends events, redirects parent slots of earlier node
/// starts, or reclassifies node starts it recorded itself.
pub open spec fn starts_preserved(a: Seq<MarkEvent>, b: Seq<MarkEvent>) -> bool {
    a.len() <= b.len() && forall|i: int| #![auto]
        0 <= i < a.len() && a[i] is NodeStart ==> (b[i] is NodeStart && b[i]->NodeStart_kind == a[i]->NodeStart_kind)
}

/// Errors are only ever appended, never rewritten or dropped.
pub open spec fn errors_extended(a: Seq<LuaParseError>, b: Seq<LuaParseError>) -> bool {
    a.len() <= b.len() && forall|i: int| #![auto] 0 <= i < a.len() ==> b[i] == a[i]
}

pub open spec fn token_event(t: Token) -> MarkEvent {
    MarkEvent::EatToken { kind: t.kind, range: t.range }
}

pub open spec fn tokens_as_events(ts: Seq<Token>) -> Seq<MarkEvent> {
    ts.map_values(|t: Token| token_event(t))
}

/// Total text length of the first `i` tokens.
pub open spec fn prefix_len(ts: Seq<Token>, i: int) -> int
    decreases i,
{
    if i <= 0 {
        0
    } else {
        prefix_len(ts, i - 1) + ts[i - 1].range.length
    }
}

/// The lexer's contract: the tokens tile the source text, each starting
/// where the previous one ended, together covering all of it.
pub open spec fn tokens_tile(ts: Seq<Token>, text_len: int) -> bool {
    (forall|i: int| #![auto] 0 <= i < ts.len() ==> ts[i].range.start_offset == prefix_len(ts, i))
        && prefix_len(ts, ts.len() as int) == text_len
}

pub proof fn lemma_depth_push(s: Seq<MarkEvent>, e: MarkEvent)
    ensures
        depth(s.push(e)) == depth(s) + event_delta(e),
{
    assert(s.push(e).drop_last() =~= s);
}

pub proof fn lemma_eaten_push(s: Seq<MarkEvent>, e: MarkEvent)
    ensures
        eaten(s.push(e)) == if e is EatToken {
            eaten(s).push(e)
        } else {
            eaten(s)
        },
{
    assert(s.push(e).drop_last() =~= s);
}

pub proof fn lemma_nonneg_push(s: Seq<MarkEvent>, e: MarkEvent)
    requires
        nonneg_prefixes(s),
        depth(s) + event_delta(e) >= 0,
    ensures
        nonneg_prefixes(s.push(e)),
{
    lemma_depth_push(s, e);
    assert forall|k: int| 0 <= k <= s.push(e).len() implies depth(s.push(e).take(k)) >= 0 by {
        if k <= s.len() {
            assert(s.push(e).take(k) =~= s.take(k));
        } else {
            assert(s.push(e).take(k) =~= s.push(e));
        }
    }
}

pub proof fn lemma_parents_push(s: Seq<MarkEvent>, e: MarkEvent)
    requires
        parents_valid(s),
        e is NodeStart ==> e->NodeStart_parent == 0,
    ensures
        parents_valid(s.push(e)),
{
    let s2 = s.push(e);
    assert forall|i: int|
        0 <= i < s2.len() && s2[i] is NodeStart implies s2[i]->NodeStart_parent == 0 || (
    i < s2[i]->NodeStart_parent < s2.len()
        && s2[s2[i]->NodeStart_parent as int] is NodeStart) by {
        if i < s.len() {
            assert(s2[i] == s[i]);
            if s[i]->NodeStart_parent != 0 {
                assert(s2[s[i]->NodeStart_parent as int] == s[s[i]->NodeStart_parent as int]);
            }
        }
    }
}

pub proof fn lemma_depth_le_len(s: Seq<MarkEvent>)
    ensures
        depth(s) <= s.len(),
    decreases s.len(),
{
    if s.len() > 0 {
        lemma_depth_le_len(s.drop_last());
    }
}

pub proof fn lemma_depth_update(s: Seq<MarkEvent>, i: int, e: MarkEvent)
    requires
        0 <= i < s.len(),
        event_delta(e) == event_delta(s[i]),
    ensures
        depth(s.update(i, e)) == depth(s),
    decreases s.len(),
{
    if i == s.len() - 1 {
        assert(s.update(i, e).drop_last() =~= s.drop_last());
        assert(s.update(i, e).last() == e);
    } else {
        assert(s.update(i, e).drop_last() =~= s.drop_last().update(i, e));
        lemma_depth_update(s.drop_last(), i, e);
        assert(s.update(i, e).last() == s.last());
    }
}

pub proof fn lemma_nonneg_update(s: Seq<MarkEvent>, i: int, e: MarkEvent)
    requires
        0 <= i < s.len(),
        event_delta(e) == event_delta(s[i]),
        nonneg_prefixes(s),
    ensures
        nonneg_prefixes(s.update(i, e)),
{
    assert forall|k: int| 0 <= k <= s.update(i, e).len() implies depth(
        s.update(i, e).take(k),
    ) >= 0 by {
        if k <= i {
            assert(s.update(i, e).take(k) =~= s.take(k));
        } else {
            assert(s.update(i, e).take(k) =~= s.take(k).update(i, e));
            lemma_depth_update(s.take(k), i, e);
        }
    }
}

pub proof fn lemma_eaten_update(s: Seq<MarkEvent>, i: int, e: MarkEvent)
    requires
        0 <= i < s.len(),
        !(s[i] is EatToken),
        !(e is EatToken),
    ensures
        eaten(s.update(i, e)) == eaten(s),
    decreases s.len(),
{
    if i == s.len() - 1 {
        assert(s.update(i, e).drop_last() =~= s.drop_last());
        assert(s.update(i, e).last() == e);
    } else {
        assert(s.update(i, e).drop_last() =~= s.drop_last().update(i, e));
        lemma_eaten_update(s.drop_last(), i, e);
        assert(s.update(i, e).last() == s.last());
    }
}

/// Rewriting a node-start event with another node-start event whose parent
/// slot is either unchanged or points forward at a node-start keeps all
/// parent slots valid.
pub proof fn lemma_parents_update_start(s: Seq<MarkEvent>, i: int, e: MarkEvent)
    requires
        parents_valid(s),
        0 <= i < s.len(),
        s[i] is NodeStart,
        e is NodeStart,
        e->NodeStart_parent == s[i]->NodeStart_parent || (i < e->NodeStart_parent < s.len()
            && s[e->NodeStart_parent as int] is NodeStart),
    ensures
        parents_valid(s.update(i, e)),
{
    let s2 = s.update(i, e);
    assert forall|j: int|
        0 <= j < s2.len() && s2[j] is NodeStart implies s2[j]->NodeStart_parent == 0 || (
    j < s2[j]->NodeStart_parent < s2.len()
        && s2[s2[j]->NodeStart_parent as int] is NodeStart) by {
        let pj = s2[j]->NodeStart_parent;
        if j == i {
            if pj != 0 {
                assert(j < pj < s.len() && s[pj as int] is NodeStart);
                assert(s2[pj as int] == s[pj as int]);
            }
        } else {
            assert(s2[j] == s[j]);
            if pj != 0 {
                if pj == i {
                    assert(s2[pj as int] == e);
                } else {
                    assert(s2[pj as int] == s[pj as int]);
                }
            }
        }
    }
}

/// The parser: source text, token stream with cursor, event stream,
/// nesting counter and error list.
pub struct LuaParser {
    pub text: Vec<u8>,
    pub tokens: Vec<Token>,
    pub index: usize,
    pub events: Vec<MarkEvent>,
    pub mark_level: usize,
    pub errors: Vec<LuaParseError>,
}

impl LuaParser {
    pub open spec fn wf(self) -> bool {
        &&& self.index <= self.tokens@.len()
        &&& self.mark_level == depth(self.events@)
        &&& nonneg_prefixes(self.events@)
        &&& parents_valid(self.events@)
        &&& eaten(self.events@) == tokens_as_events(self.tokens@.take(self.index as int))
        &&& tokens_tile(self.tokens@, self.text@.len() as int)
    }

    pub open spec fn spec_current_token(self) -> LuaTokenKind {
        if self.index < self.tokens@.len() {
            self.tokens@[self.index as int].kind
        } else {
            LuaTokenKind::TkEof
        }
    }

    pub open spec fn spec_current_range(self) -> SourceRange {
        if self.index < self.tokens@.len() {
            self.tokens@[self.index as int].range
        } else {
            SourceRange { start_offset: self.text@.len() as usize, length: 0 }
        }
    }

    pub open spec fn spec_peek_next(self) -> LuaTokenKind {
        if self.index + 1 < self.tokens@.len() {
            self.tokens@[self.index + 1].kind
        } else {
            LuaTokenKind::TkEof
        }
    }

    /// A fresh parser over a lexed token stream that tiles the text.
    pub fn new(text: Vec<u8>, tokens: Vec<Token>) -> (p: LuaParser)
        requires
            tokens_tile(tokens@, text@.len() as int),
        ensures
            p.wf(),
            p.text@ == text@,
            p.tokens@ == tokens@,
            p.index == 0,
            p.events@ == Seq::<MarkEvent>::empty(),
            p.mark_level == 0,
            p.errors@ == Seq::<LuaParseError>::empty(),
    {
        let p = LuaParser {
            text,
            tokens,
            index: 0,
            events: Vec::new(),
            mark_level: 0,
            errors: Vec::new(),
        };
        proof {
            assert(p.tokens@.take(0) =~= Seq::<Token>::empty());
            assert(eaten(p.events@) =~= tokens_as_events(p.tokens@.take(0)));
        }
        p
    }

    /// Kind of the token at the cursor, or end-of-file past the last token.
    pub fn current_token(&self) -> (k: LuaTokenKind)
        ensures
            k == self.spec_current_token(),
    {
        if self.index < self.tokens.len() {
            self.tokens[self.index].kind
        } else {
            LuaTokenKind::TkEof
        }
    }

    /// Source range of the token at the cursor, or an empty range at the
    /// end of the text.
    pub fn current_token_range(&self) -> (r: SourceRange)
        ensures
            r == self.spec_current_range(),
    {
        if self.index < self.tokens.len() {
            self.tokens[self.index].range
        } else {
            SourceRange { start_offset: self.text.len(), length: 0 }
        }
    }

    /// One-token look-ahead.
    pub fn peek_next_token(&self) -> (k: LuaTokenKind)
        ensures
            k == self.spec_peek_next(),
    {
        if self.index < self.tokens.len() && self.index + 1 < self.tokens.len() {
            self.tokens[self.index + 1].kind
        } else {
            LuaTokenKind::TkEof
        }
    }

    /// Consume the current token: record a token-eat event and advance.
    pub fn bump(&mut self)
        requires
            old(self).wf(),
            old(self).index < old(self).tokens@.len(),
        ensures
            final(self).wf(),
            final(self).index == old(self).index + 1,
            final(self).events@ == old(self).events@.push(
                token_event(old(self).tokens@[old(self).index as int]),
            ),
            final(self).text@ == old(self).text@,
            final(self).tokens@ == old(self).tokens@,
            final(self).mark_level == old(self).mark_level,
            final(self).errors@ == old(self).errors@,
    {
        // the length witness bounds index + 1 within usize
        let _bound: usize = self.tokens.len();
        let t = self.tokens[self.index];
        self.events.push(MarkEvent::EatToken { kind: t.kind, range: t.range });
        self.index = self.index + 1;
        proof {
            let ev = token_event(t);
            lemma_depth_push(old(self).events@, ev);
            lemma_nonneg_push(old(self).events@, ev);
            lemma_parents_push(old(self).events@, ev);
            lemma_eaten_push(old(self).events@, ev);
            assert(self.tokens@.take(self.index as int) =~= self.tokens@.take(
                old(self).index as int,
            ).push(t));
            assert(tokens_as_events(self.tokens@.take(self.index as int)) =~= tokens_as_events(
                self.tokens@.take(old(self).index as int),
            ).push(ev));
        }
    }

    /// Open a node: record a node-start event, return its handle.
    pub fn mark(&mut self, kind: LuaSyntaxKind) -> (m: Marker)
        requires
            old(self).wf(),
        ensures
            final(self).wf(),
            m.position == old(self).events@.len(),
            final(self).events@ == old(self).events@.push((MarkEvent::NodeStart { kind, parent: 0 })),
            final(self).mark_level == old(self).mark_level + 1,
            final(self).text@ == old(self).text@,
            final(self).tokens@ == old(self).tokens@,
            final(self).index == old(self).index,
            final(self).errors@ == old(self).errors@,
    {
        let position = self.events.len();
        self.events.push(MarkEvent::NodeStart { kind, parent: 0 });
        proof {
            let ev = MarkEvent::NodeStart { kind, parent: 0 };
            lemma_depth_push(old(self).events@, ev);
            lemma_nonneg_push(old(self).events@, ev);
            lemma_parents_push(old(self).events@, ev);
            lemma_eaten_push(old(self).events@, ev);
            lemma_depth_le_len(old(self).events@);
        }
        // the length witness bounds the nesting counter within usize
        let _bound: usize = self.events.len();
        self.mark_level = self.mark_level + 1;
        Marker::new(position)
    }

    /// Close the innermost open node: record a node-end event.
    pub fn push_node_end(&mut self)
        requires
            old(self).wf(),
            old(self).mark_level >= 1,
        ensures
            final(self).wf(),
            final(self).events@ == old(self).events@.push(MarkEvent::NodeEnd),
            final(self).mark_level == old(self).mark_level - 1,
            final(self).text@ == old(self).text@,
            final(self).tokens@ == old(self).tokens@,
            final(self).index == old(self).index,
            final(self).errors@ == old(self).errors@,
    {
        self.mark_level = self.mark_level - 1;
        self.events.push(MarkEvent::NodeEnd);
        proof {
            lemma_depth_push(old(self).events@, MarkEvent::NodeEnd);
            lemma_nonneg_push(old(self).events@, MarkEvent::NodeEnd);
            lemma_parents_push(old(self).events@, MarkEvent::NodeEnd);
            lemma_eaten_push(old(self).events@, MarkEvent::NodeEnd);
        }
    }

    /// Record a parse error; the list only grows.
    pub fn push_error(&mut self, error: LuaParseError)
        requires
            old(self).wf(),
        ensures
            final(self).wf(),
            final(self).errors@ == old(self).errors@.push(error),
            final(self).events@ == old(self).events@,
            final(self).text@ == old(self).text@,
            final(self).tokens@ == old(self).tokens@,
            final(self).index == old(self).index,
            final(self).mark_level == old(self).mark_level,
    {
        self.errors.push(error);
    }
}

/// Text of the consumed tokens, concatenated in event order.
pub open spec fn eaten_text(s: Seq<MarkEvent>, text: Seq<u8>) -> Seq<u8>
    decreases s.len(),
{
    if s.len() == 0 {
        Seq::empty()
    } else if s.last() is EatToken {
        eaten_text(s.drop_last(), text) + range_text(text, s.last()->EatToken_range)
    } else {
        eaten_text(s.drop_last(), text)
    }
}

/// The bytes a source range denotes; empty if the range does not fit.
pub open spec fn range_text(text: Seq<u8>, r: SourceRange) -> Seq<u8> {
    if r.start_offset + r.length <= text.len() {
        text.subrange(r.start_offset as int, r.start_offset + r.length)
    } else {
        Seq::empty()
    }
}

/// Concatenating token texts commutes with restricting the stream to its
/// token-eat events.
proof fn lemma_eaten_text_eaten(s: Seq<MarkEvent>, text: Seq<u8>)
    ensures
        eaten_text(s, text) == eaten_text(eaten(s), text),
    decreases s.len(),
{
    if s.len() > 0 {
        lemma_eaten_text_eaten(s.drop_last(), text);
        if s.last() is EatToken {
            assert(eaten(s).drop_last() =~= eaten(s.drop_last()));
            assert(eaten(s).last() == s.last());
        }
    }
}

proof fn lemma_prefix_len_mono(ts: Seq<Token>, i: int, j: int)
    requires
        0 <= i <= j,
    ensures
        prefix_len(ts, i) <= prefix_len(ts, j),
    decreases j - i,
{
    if i < j {
        lemma_prefix_len_mono(ts, i, j - 1);
    }
}

proof fn lemma_prefix_len_stable(a: Seq<Token>, b: Seq<Token>, i: int)
    requires
        0 <= i <= a.len(),
        a.len() <= b.len(),
        forall|k: int| #![auto] 0 <= k < a.len() ==> a[k] == b[k],
    ensures
        prefix_len(a, i) == prefix_len(b, i),
    decreases i,
{
    if i > 0 {
        lemma_prefix_len_stable(a, b, i - 1);
    }
}

/// Tokens that tile the first `prefix_len(ts, ts.len())` bytes of the text
/// concatenate, in order, to exactly those bytes.
proof fn lemma_tiles_concat(ts: Seq<Token>, text: Seq<u8>)
    requires
        forall|i: int| #![auto] 0 <= i < ts.len() ==> ts[i].range.start_offset == prefix_len(
            ts,
            i,
        ),
        prefix_len(ts, ts.len() as int) <= text.len(),
    ensures
        eaten_text(tokens_as_events(ts), text) == text.take(prefix_len(ts, ts.len() as int)),
    decreases ts.len(),
{
    let n = ts.len() as int;
    if ts.len() == 0 {
        assert(eaten_text(tokens_as_events(ts), text) =~= text.take(0));
    } else {
        let hd = ts.drop_last();
        assert forall|i: int| #![auto]
            0 <= i < hd.len() implies hd[i].range.start_offset == prefix_len(hd, i) by {
            lemma_prefix_len_stable(hd, ts, i);
        }
        lemma_prefix_len_stable(hd, ts, n - 1);
        lemma_prefix_len_mono(ts, n - 1, n);
        lemma_tiles_concat(hd, text);
        let evs = tokens_as_events(ts);
        assert(evs.drop_last() =~= tokens_as_events(hd));
        assert(evs.last() == token_event(ts.last()));
        let last = ts.last();
        let start = last.range.start_offset as int;
        assert(start == prefix_len(ts, n - 1));
        assert(start + last.range.length == prefix_len(ts, n));
        assert(range_text(text, last.range) == text.subrange(start, start + last.range.length));
        assert(eaten_text(evs, text) =~= text.take(prefix_len(ts, n)));
    }
}

/// A prefix of the stream never carries more consumed text than the whole
/// stream.
pub proof fn lemma_eaten_text_take_le(s: Seq<MarkEvent>, text: Seq<u8>, k: int)
    requires
        0 <= k <= s.len(),
    ensures
        eaten_text(s.take(k), text).len() <= eaten_text(s, text).len(),
    decreases s.len() - k,
{
    if k < s.len() {
        lemma_eaten_text_take_le(s, text, k + 1);
        assert(s.take(k + 1).drop_last() =~= s.take(k));
        assert(s.take(k + 1).last() == s[k]);
    } else {
        assert(s.take(k) =~= s);
    }
}

/// The consumed token text never exceeds the source text; this bounds the
/// tree builder's width arithmetic.
pub proof fn lemma_eaten_text_bounded(p: LuaParser)
    requires
        p.wf(),
    ensures
        eaten_text(p.events@, p.text@).len() <= p.text@.len(),
{
    let ts = p.tokens@.take(p.index as int);
    lemma_eaten_text_eaten(p.events@, p.text@);
    assert(eaten(p.events@) == tokens_as_events(ts));
    assert forall|i: int| #![auto]
        0 <= i < ts.len() implies ts[i].range.start_offset == prefix_len(ts, i) by {
        lemma_prefix_len_stable(ts, p.tokens@, i);
    }
    lemma_prefix_len_stable(ts, p.tokens@, p.index as int);
    lemma_prefix_len_mono(p.tokens@, p.index as int, p.tokens@.len() as int);
    lemma_prefix_len_mono(ts, 0, ts.len() as int);
    lemma_tiles_concat(ts, p.text@);
}

/// Balance invariant: once every opened node has been closed again, the
/// event stream decomposes into properly nested start/end pairs and the
/// nesting depth is back to zero.
pub proof fn lemma_event_stream_balanced(p: LuaParser)
    requires
        p.wf(),
        p.mark_level == 0,
    ensures
        balanced(p.events@),
{
}

/// Round trip: when the parser has consumed the whole token stream,
/// concatenating every consumed token's original text, in event order,
/// reproduces the source text exactly.
pub proof fn lemma_round_trip(p: LuaParser)
    requires
        p.wf(),
        p.index == p.tokens@.len(),
    ensures
        eaten_text(p.events@, p.text@) == p.text@,
{
    let ts = p.tokens@;
    let n = ts.len() as int;
    assert(ts.take(n) =~= ts);
    lemma_eaten_text_eaten(p.events@, p.text@);
    assert(eaten(p.events@) == tokens_as_events(ts));
    lemma_tiles_concat(ts, p.text@);
    assert(p.text@.take(p.text@.len() as int) =~= p.text@);
}

} // verus!
