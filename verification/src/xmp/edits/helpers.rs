//! A small cursor over a `&str` for hand written parsers.
//!
//! The cursor keeps a byte offset into the input. All positions and spans are
//! byte offsets, the way Rust slices strings.
use vstd::prelude::*;
use vstd::utf8::*;
use vstd::string::*;

use crate::text::{
    at_boundary, bytes_match_at, char_width, chars_between, chars_from, find_str, first_char,
    first_occurrence, lemma_between, lemma_between_bytes, lemma_occurrence_boundaries, lemma_step,
    lemma_tail_boundary, occurs_at, substr, suffix, tail, width,
};

verus! {

broadcast use vstd::seq::group_seq_axioms, encode_utf8_valid_utf8, encode_utf8_decode_utf8;

/// A byte range of the parsed input, reported with errors.
#[derive(Clone, Copy, Debug, PartialEq, Eq)]
pub struct Span {
    pub offset: usize,
    pub len: usize,
}

/// The span of the byte range `start..end` (empty when `end < start`).
pub open spec fn span_of(start: int, end: int) -> Span {
    Span { offset: start as usize, len: if end >= start { (end - start) as usize } else { 0 } }
}

fn make_span(start: usize, end: usize) -> (r: Span)
    ensures
        r == span_of(start as int, end as int),
{
    Span { offset: start, len: if end >= start { end - start } else { 0 } }
}

/// Could not advance as we are at the end of input.
#[derive(Clone, Copy, Debug, PartialEq, Eq)]
pub struct AdvanceError(pub Span);

/// Can not get the upcoming char since we are at the end of the input.
#[derive(Clone, Copy, Debug, PartialEq, Eq)]
pub struct PeekError(pub Span);

#[derive(Clone, Copy, Debug, PartialEq, Eq)]
pub enum AcceptMinOneWhitespaceError {
    /// No whitespace: the input ended.
    NoUpcomingChar(PeekError),
    /// There is not a single whitespace character (require one or more).
    NoWhitespace(Span),
}

#[derive(Clone, Debug, PartialEq, Eq)]
pub enum AcceptError {
    /// Not enough characters left in input to match.
    NotEnoughCharsLeft(Span),
    /// Next text did not match `required`.
    DoesNotMatch { label: Span, required: String },
}

/// The text of an [`AcceptError`] as characters.
pub enum AcceptErrorView {
    NotEnoughCharsLeft(Span),
    DoesNotMatch { label: Span, required: Seq<char> },
}

impl View for AcceptError {
    type V = AcceptErrorView;

    open spec fn view(&self) -> AcceptErrorView {
        match self {
            AcceptError::NotEnoughCharsLeft(s) => AcceptErrorView::NotEnoughCharsLeft(*s),
            AcceptError::DoesNotMatch { label, required } => AcceptErrorView::DoesNotMatch {
                label: *label,
                required: required@,
            },
        }
    }
}

/// Required text was not in the leftover input.
#[derive(Clone, Debug, PartialEq, Eq)]
pub struct AdvanceBeyondError {
    pub label: Span,
    pub required: String,
}

/// The text of an [`AdvanceBeyondError`] as characters.
pub struct AdvanceBeyondErrorView {
    pub label: Span,
    pub required: Seq<char>,
}

impl View for AdvanceBeyondError {
    type V = AdvanceBeyondErrorView;

    open spec fn view(&self) -> AdvanceBeyondErrorView {
        AdvanceBeyondErrorView { label: self.label, required: self.required@ }
    }
}

/// The character that starts at byte `p` of `b`.
pub open spec fn next_char(b: Seq<u8>, p: int) -> char {
    chars_from(b, p)[0]
}

/// Result of peeking at byte `p` of `b`.
pub open spec fn spec_upcoming(b: Seq<u8>, p: int) -> Result<char, PeekError> {
    if p < b.len() {
        Ok(next_char(b, p))
    } else {
        Err(PeekError(span_of(p, p)))
    }
}

pub proof fn lemma_width(c: char)
    ensures
        1 <= width(c) <= 4,
{
}

/// Byte position where a scan from `p` stops: the first character for which
/// `stop` holds, or the end of the input.
pub open spec fn scan_until(b: Seq<u8>, p: int, stop: spec_fn(char) -> bool) -> int
    decreases b.len() - p,
{
    if p >= b.len() {
        p
    } else if stop(next_char(b, p)) {
        p
    } else if p + width(next_char(b, p)) > b.len() {
        p
    } else {
        proof {
            lemma_width(next_char(b, p));
        }
        scan_until(b, p + width(next_char(b, p)), stop)
    }
}

/// Stop at the character `c`.
pub open spec fn stop_at(c: char) -> spec_fn(char) -> bool {
    |x: char| x == c
}

/// Stop at the first character that is not whitespace.
pub open spec fn stop_at_non_whitespace() -> spec_fn(char) -> bool {
    |x: char| !is_unicode_whitespace(x)
}

/// The Unicode `White_Space` property (`char::is_whitespace`).
pub open spec fn is_unicode_whitespace(c: char) -> bool {
    let u = c as u32;
    ||| 0x09 <= u <= 0x0D
    ||| u == 0x20
    ||| u == 0x85
    ||| u == 0xA0
    ||| u == 0x1680
    ||| 0x2000 <= u <= 0x200A
    ||| u == 0x2028
    ||| u == 0x2029
    ||| u == 0x202F
    ||| u == 0x205F
    ||| u == 0x3000
}

/// Whether `c` is whitespace (`char::is_whitespace`).
pub fn is_whitespace(c: char) -> (r: bool)
    ensures
        r == is_unicode_whitespace(c),
{
    let u = c as u32;
    (0x09 <= u && u <= 0x0D) || u == 0x20 || u == 0x85 || u == 0xA0 || u == 0x1680 || (0x2000 <= u
        && u <= 0x200A) || u == 0x2028 || u == 0x2029 || u == 0x202F || u == 0x205F || u == 0x3000
}

/// Whether accepting `req` at `p` would slice the input inside a character.
pub open spec fn accept_panics(b: Seq<u8>, p: int, req: Seq<char>) -> bool {
    encode_utf8(req).len() <= b.len() - p && !is_char_boundary(b, p + encode_utf8(req).len())
}

/// Accepting the text `req` at byte `p`.
pub open spec fn spec_accept(b: Seq<u8>, p: int, req: Seq<char>) -> (Result<Seq<char>, AcceptErrorView>, int) {
    let rb = encode_utf8(req);
    if rb.len() > b.len() - p {
        (Err(AcceptErrorView::NotEnoughCharsLeft(span_of(p, b.len() as int))), p)
    } else if b.subrange(p, p + rb.len()) == rb {
        (Ok(req), p + rb.len())
    } else {
        (Err(AcceptErrorView::DoesNotMatch { label: span_of(p, p + rb.len()), required: req }), p)
    }
}

/// Accepting one or more whitespace characters at byte `p`.
pub open spec fn spec_ws1(b: Seq<u8>, p: int) -> (Result<Seq<char>, AcceptMinOneWhitespaceError>, int) {
    if p >= b.len() {
        (Err(AcceptMinOneWhitespaceError::NoUpcomingChar(PeekError(span_of(p, p)))), p)
    } else if !is_unicode_whitespace(next_char(b, p)) {
        (Err(AcceptMinOneWhitespaceError::NoWhitespace(span_of(p, width(next_char(b, p)) as int))), p)
    } else {
        let q = scan_until(b, p, stop_at_non_whitespace());
        (Ok(chars_between(b, p, q)), q)
    }
}

/// Moving past the first occurrence of `req` at or after byte `p`.
pub open spec fn spec_advance_beyond(b: Seq<u8>, p: int, req: Seq<char>) -> (Result<Span, AdvanceBeyondErrorView>, int) {
    let rb = encode_utf8(req);
    match first_occurrence(tail(b, p), rb) {
        None => (Err(AdvanceBeyondErrorView { label: span_of(p, p), required: req }), p),
        Some(i) => (Ok(span_of(p + i, p + i + rb.len())), p + i + rb.len()),
    }
}

pub proof fn lemma_scan_bounds(b: Seq<u8>, p: int, stop: spec_fn(char) -> bool)
    requires
        at_boundary(b, p),
    ensures
        p <= scan_until(b, p, stop) <= b.len(),
        at_boundary(b, scan_until(b, p, stop)),
        forall|i: int|
            0 <= i < chars_between(b, p, scan_until(b, p, stop)).len() ==> !stop(
                #[trigger] chars_between(b, p, scan_until(b, p, stop))[i],
            ),
        scan_until(b, p, stop) < b.len() ==> stop(next_char(b, scan_until(b, p, stop))),
    decreases b.len() - p,
{
    let q = scan_until(b, p, stop);
    if p >= b.len() {
        assert(b.subrange(p, p) =~= Seq::<u8>::empty());
    } else if stop(next_char(b, p)) {
        assert(b.subrange(p, p) =~= Seq::<u8>::empty());
    } else {
        lemma_step(b, p);
        let w = width(next_char(b, p));
        lemma_scan_bounds(b, p + w, stop);
        lemma_between(b, p, p + w);
        lemma_between(b, p + w, q);
        lemma_between(b, p, q);
        let whole = chars_between(b, p, q);
        let rest = chars_between(b, p + w, q);
        assert(chars_from(b, p) == whole + chars_from(b, q));
        assert(chars_from(b, p + w) == rest + chars_from(b, q));
        assert(chars_from(b, p + w) == chars_from(b, p).drop_first());
        assert(whole.len() == rest.len() + 1);
        assert forall|i: int| 0 <= i < whole.len() implies !stop(#[trigger] whole[i]) by {
            if i == 0 {
                assert(whole[0] == chars_from(b, p)[0]);
            } else {
                assert(whole[i] == chars_from(b, p)[i]);
                assert(rest[i - 1] == chars_from(b, p + w)[i - 1]);
            }
        }
    }
}

/// A cursor into a string; the position is a byte offset.
pub struct ParserHelper<'a> {
    pub input: &'a str,
    byte_pos: usize,
}

impl<'a> ParserHelper<'a> {
    /// The byte offset of the cursor.
    pub closed spec fn pos(&self) -> int {
        self.byte_pos as int
    }

    /// The bytes of the input.
    pub closed spec fn bytes(&self) -> Seq<u8> {
        self.input.spec_bytes()
    }

    /// The cursor stands on a character boundary of its input.
    pub open spec fn wf(&self) -> bool {
        &&& at_boundary(self.bytes(), self.pos())
        &&& self.bytes().len() <= usize::MAX
    }

    /// The characters that are left after the cursor.
    pub open spec fn rest(&self) -> Seq<char> {
        chars_from(self.bytes(), self.pos())
    }

    pub fn new(input: &'a str) -> (r: Self)
        ensures
            r.wf(),
            r.bytes() == input.spec_bytes(),
            r.pos() == 0,
    {
        let n = input.as_bytes().len();
        proof {
            is_char_boundary_start_end_of_seq(input.spec_bytes());
        }
        Self { input, byte_pos: 0 }
    }

    /// The span from `s.len()` bytes before the cursor to the cursor.
    pub fn span_till_current_pos(&self, s: &str) -> (r: Span)
        requires
            s.spec_bytes().len() <= self.pos(),
        ensures
            r == span_of(self.pos() - s.spec_bytes().len(), self.pos()),
    {
        let n = s.as_bytes().len();
        make_span(self.byte_pos - n, self.byte_pos)
    }

    /// The empty span at the cursor.
    pub fn span_at_current_pos(&self) -> (r: Span)
        ensures
            r == span_of(self.pos(), self.pos()),
    {
        make_span(self.byte_pos, self.byte_pos)
    }

    fn bytes_left(&self) -> (r: usize)
        requires
            self.wf(),
        ensures
            r == self.bytes().len() - self.pos(),
    {
        self.input.as_bytes().len() - self.byte_pos
    }

    fn leftover(&self) -> (r: &'a str)
        requires
            self.wf(),
        ensures
            r.spec_bytes() == tail(self.bytes(), self.pos()),
            r@ == self.rest(),
    {
        suffix(self.input, self.byte_pos)
    }

    fn upcoming_char(&self) -> (r: Result<char, PeekError>)
        requires
            self.wf(),
        ensures
            r == spec_upcoming(self.bytes(), self.pos()),
    {
        let rest = self.leftover();
        proof {
            if self.pos() < self.bytes().len() {
                lemma_step(self.bytes(), self.pos());
            } else {
                assert(tail(self.bytes(), self.pos()) =~= Seq::<u8>::empty());
            }
        }
        match first_char(rest) {
            Some(c) => Ok(c),
            None => Err(PeekError(make_span(self.byte_pos, self.byte_pos))),
        }
    }

    /// Moves over the upcoming character and returns it.
    pub fn advance_char(&mut self) -> (r: Result<char, AdvanceError>)
        requires
            old(self).wf(),
        ensures
            final(self).wf(),
            final(self).bytes() == old(self).bytes(),
            old(self).pos() <= final(self).pos(),
            match spec_upcoming(old(self).bytes(), old(self).pos()) {
                Ok(c) => r == Ok::<char, AdvanceError>(c) && final(self).pos() == old(self).pos()
                    + width(c),
                Err(PeekError(s)) => r == Err::<char, AdvanceError>(AdvanceError(s))
                    && final(self).pos() == old(self).pos(),
            },
    {
        let c = match self.upcoming_char() {
            Ok(c) => c,
            Err(PeekError(s)) => return Err(AdvanceError(s)),
        };
        proof {
            lemma_step(self.bytes(), self.pos());
        }
        self.byte_pos += char_width(c);
        Ok(c)
    }

    /// Whether [`Self::accept`] of `required` would cut a character in two.
    pub fn accept_would_panic(&self, required: &str) -> (r: bool)
        requires
            self.wf(),
        ensures
            r == accept_panics(self.bytes(), self.pos(), required@),
    {
        let n = required.as_bytes().len();
        if n > self.bytes_left() {
            false
        } else {
            !self.input.is_char_boundary(self.byte_pos + n)
        }
    }

    /// Moves over `required` if the input continues with it.
    pub fn accept(&mut self, required: &str) -> (r: Result<&'a str, AcceptError>)
        requires
            old(self).wf(),
            required@.len() > 0,
            !accept_panics(old(self).bytes(), old(self).pos(), required@),
        ensures
            final(self).wf(),
            final(self).bytes() == old(self).bytes(),
            old(self).pos() <= final(self).pos(),
            ({
                let (sr, sp) = spec_accept(old(self).bytes(), old(self).pos(), required@);
                &&& final(self).pos() == sp
                &&& match (r, sr) {
                    (Ok(x), Ok(y)) => x@ == y,
                    (Err(e), Err(f)) => e@ == f,
                    _ => false,
                }
            }),
    {
        let ghost b = self.bytes();
        let ghost p = self.pos();
        let rb = required.as_bytes();
        let n = rb.len();
        proof {
            assert(encode_utf8(required@) == required.spec_bytes());
            assert(n > 0) by {
                assert(encode_utf8(required@) =~= encode_scalar(required@[0] as u32) + encode_utf8(
                    required@.drop_first(),
                ));
            }
        }
        if n > self.bytes_left() {
            return Err(AcceptError::NotEnoughCharsLeft(make_span(self.byte_pos, self.input.as_bytes().len())));
        }
        let start = self.byte_pos;
        if bytes_match_at(self.input.as_bytes(), rb, start) {
            proof {
                lemma_occurrence_boundaries(b, rb@, p);
                lemma_between_bytes(b, p, p + n);
                assert(b.subrange(p, p + n) == rb@);
            }
            let s = substr(self.input, start, start + n);
            self.byte_pos = start + n;
            Ok(s)
        } else {
            Err(AcceptError::DoesNotMatch {
                label: make_span(start, start + n),
                required: required.to_owned(),
            })
        }
    }

    /// Moves to the first character for which `stop_before` holds (or the end)
    /// and returns the text moved over.
    pub fn accept_until_char_with(&mut self, stop_before: impl Fn(char) -> bool) -> (r: &'a str)
        requires
            old(self).wf(),
            forall|c: char| call_requires(stop_before, (c,)),
        ensures
            final(self).wf(),
            final(self).bytes() == old(self).bytes(),
            old(self).pos() <= final(self).pos(),
            r@ == chars_between(old(self).bytes(), old(self).pos(), final(self).pos()),
            forall|i: int|
                0 <= i < r@.len() ==> call_ensures(stop_before, (#[trigger] r@[i],), false),
            final(self).pos() < final(self).bytes().len() ==> call_ensures(
                stop_before,
                (next_char(final(self).bytes(), final(self).pos()),),
                true,
            ),
    {
        let ghost b = self.bytes();
        let start = self.byte_pos;
        proof {
            assert(b.subrange(start as int, start as int) =~= Seq::<u8>::empty());
        }
        loop
            invariant
                self.wf(),
                self.input@ == old(self).input@,
                self.bytes() == b,
                forall|c: char| call_requires(stop_before, (c,)),
                start <= self.pos(),
                at_boundary(b, start as int),
                forall|i: int|
                    0 <= i < chars_between(b, start as int, self.pos()).len() ==> call_ensures(
                        stop_before,
                        (#[trigger] chars_between(b, start as int, self.pos())[i],),
                        false,
                    ),
            ensures
                self.wf(),
                self.input@ == old(self).input@,
                start <= self.pos(),
                forall|i: int|
                    0 <= i < chars_between(b, start as int, self.pos()).len() ==> call_ensures(
                        stop_before,
                        (#[trigger] chars_between(b, start as int, self.pos())[i],),
                        false,
                    ),
                self.pos() < b.len() ==> call_ensures(
                    stop_before,
                    (next_char(b, self.pos()),),
                    true,
                ),
            decreases b.len() - self.pos(),
        {
            let c = match self.upcoming_char() {
                Ok(c) => c,
                Err(_) => break,
            };
            let stop = stop_before(c);
            if stop {
                break;
            }
            proof {
                let p = self.pos();
                lemma_step(b, p);
                let w = width(c);
                lemma_between(b, start as int, p);
                lemma_between(b, start as int, p + w);
                lemma_between(b, p, p + w);
                let before = chars_between(b, start as int, p);
                let after = chars_between(b, start as int, p + w);
                assert(chars_from(b, start as int) == before + chars_from(b, p));
                assert(chars_from(b, start as int) == after + chars_from(b, p + w));
                assert(chars_from(b, p) == seq![c] + chars_from(b, p + w));
                assert(after =~= before.push(c)) by {
                    assert(before + chars_from(b, p) =~= before.push(c) + chars_from(b, p + w));
                    assert(after + chars_from(b, p + w) =~= before.push(c) + chars_from(b, p + w));
                    assert(after.len() == before.len() + 1);
                    assert forall|i: int| 0 <= i < after.len() implies after[i] == before.push(c)[i] by {
                        assert((after + chars_from(b, p + w))[i] == (before.push(c) + chars_from(b, p + w))[i]);
                    }
                }
                assert forall|i: int| 0 <= i < after.len() implies call_ensures(
                    stop_before,
                    (#[trigger] after[i],),
                    false,
                ) by {
                    if i < before.len() {
                        assert(after[i] == before[i]);
                    } else {
                        assert(after[i] == c);
                    }
                }
            }
            self.byte_pos += char_width(c);
        }
        proof {
            lemma_between(b, start as int, self.pos());
        }
        substr(self.input, start, self.byte_pos)
    }

    /// Moves while `stop` does not hold, exactly as [`scan_until`] describes.
    fn scan(&mut self, stop_char: Option<char>) -> (r: &'a str)
        requires
            old(self).wf(),
        ensures
            final(self).wf(),
            final(self).bytes() == old(self).bytes(),
            old(self).pos() <= final(self).pos(),
            final(self).pos() == scan_until(
                old(self).bytes(),
                old(self).pos(),
                match stop_char {
                    Some(c) => stop_at(c),
                    None => stop_at_non_whitespace(),
                },
            ),
            r@ == chars_between(old(self).bytes(), old(self).pos(), final(self).pos()),
    {
        let ghost b = self.bytes();
        let ghost stop = match stop_char {
            Some(c) => stop_at(c),
            None => stop_at_non_whitespace(),
        };
        let start = self.byte_pos;
        loop
            invariant
                self.wf(),
                self.input@ == old(self).input@,
                self.bytes() == b,
                start <= self.pos(),
                at_boundary(b, start as int),
                stop == match stop_char {
                    Some(c) => stop_at(c),
                    None => stop_at_non_whitespace(),
                },
                scan_until(b, start as int, stop) == scan_until(b, self.pos(), stop),
            ensures
                self.wf(),
                self.input@ == old(self).input@,
                start <= self.pos(),
                scan_until(b, start as int, stop) == self.pos(),
            decreases b.len() - self.pos(),
        {
            let c = match self.upcoming_char() {
                Ok(c) => c,
                Err(_) => break,
            };
            let halt = match stop_char {
                Some(s) => c == s,
                None => !is_whitespace(c),
            };
            if halt {
                break;
            }
            proof {
                lemma_step(b, self.pos());
            }
            self.byte_pos += char_width(c);
        }
        proof {
            lemma_between(b, start as int, self.pos());
        }
        substr(self.input, start, self.byte_pos)
    }

    /// Moves to the first `stop_before` (or the end) and returns the text moved over.
    pub fn accept_until_char(&mut self, stop_before: char) -> (r: &'a str)
        requires
            old(self).wf(),
        ensures
            final(self).wf(),
            final(self).bytes() == old(self).bytes(),
            old(self).pos() <= final(self).pos(),
            final(self).pos() == scan_until(old(self).bytes(), old(self).pos(), stop_at(stop_before)),
            r@ == chars_between(old(self).bytes(), old(self).pos(), final(self).pos()),
    {
        self.scan(Some(stop_before))
    }

    /// Moves over one or more whitespace characters.
    pub fn accept_one_or_more_whitespace(&mut self) -> (r: Result<&'a str, AcceptMinOneWhitespaceError>)
        requires
            old(self).wf(),
        ensures
            final(self).wf(),
            final(self).bytes() == old(self).bytes(),
            old(self).pos() <= final(self).pos(),
            ({
                let (sr, sp) = spec_ws1(old(self).bytes(), old(self).pos());
                &&& final(self).pos() == sp
                &&& match (r, sr) {
                    (Ok(x), Ok(y)) => x@ == y,
                    (Err(e), Err(f)) => e == f,
                    _ => false,
                }
            }),
    {
        let c = match self.upcoming_char() {
            Ok(c) => c,
            Err(e) => return Err(AcceptMinOneWhitespaceError::NoUpcomingChar(e)),
        };
        if !is_whitespace(c) {
            Err(AcceptMinOneWhitespaceError::NoWhitespace(make_span(self.byte_pos, char_width(c))))
        } else {
            Ok(self.scan(None))
        }
    }

    /// Moves past the first occurrence of `required`; returns its span.
    pub fn advance_beyond(&mut self, required: &str) -> (r: Result<Span, AdvanceBeyondError>)
        requires
            old(self).wf(),
        ensures
            final(self).wf(),
            final(self).bytes() == old(self).bytes(),
            old(self).pos() <= final(self).pos(),
            ({
                let (sr, sp) = spec_advance_beyond(old(self).bytes(), old(self).pos(), required@);
                &&& final(self).pos() == sp
                &&& match (r, sr) {
                    (Ok(x), Ok(y)) => x == y,
                    (Err(e), Err(f)) => e@ == f,
                    _ => false,
                }
            }),
    {
        let ghost b = self.bytes();
        let ghost p = self.pos();
        let rest = self.leftover();
        match find_str(rest, required) {
            None => Err(AdvanceBeyondError {
                required: required.to_owned(),
                label: self.span_at_current_pos(),
            }),
            Some(start) => {
                let n = required.as_bytes().len();
                proof {
                    let t = tail(b, p);
                    valid_utf8_split(b, p);
                    if n > 0 {
                        lemma_occurrence_boundaries(t, required.spec_bytes(), start as int);
                        is_char_boundary_start_end_of_seq(t);
                    } else {
                        is_char_boundary_start_end_of_seq(t);
                        assert(t.subrange(0, 0) =~= required.spec_bytes());
                        assert(occurs_at(t, required.spec_bytes(), 0));
                        assert(start == 0);
                    }
                    lemma_tail_boundary(b, p, start + n);
                }
                self.byte_pos = self.byte_pos + start + n;
                Ok(make_span(self.byte_pos - n, self.byte_pos))
            },
        }
    }
}

} // verus!
