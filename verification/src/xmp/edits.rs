//! The darktable history of edits recorded in an XMP sidecar.
pub mod helpers;

use vstd::prelude::*;
use vstd::string::*;

use crate::num::{parse_usize, unsigned_text_value};
use crate::text::{at_boundary, chars_between, lemma_between_bytes, str_eq, width};
use crate::xmp::edits::helpers::{
    accept_panics, lemma_scan_bounds, next_char, scan_until, span_of, spec_accept,
    spec_advance_beyond, spec_ws1, stop_at, AcceptError, AcceptErrorView,
    AcceptMinOneWhitespaceError, AdvanceBeyondError, AdvanceBeyondErrorView, ParserHelper, Span,
};

verus! {

broadcast use vstd::seq::group_seq_axioms;

/// Modules that darktable always runs to render a raw.
#[derive(Clone, Copy, Debug, PartialEq, Eq, Hash)]
pub enum Render {
    Demosaic,
    RawPrepare,
    Gamma,
    ColorOut,
    ColorIn,
    Flip,
    ChannelMixerRGB,
}

/// Modules that change the look of the picture.
#[derive(Clone, Copy, Debug, PartialEq, Eq, Hash)]
pub enum PostProcess {
    Highlights,
    Temperature,
    LenseCorrection,
    Agx,
    Exposure,
}

#[derive(Clone, Debug, PartialEq, Eq, Hash)]
pub enum Operation {
    PostProcess(PostProcess),
    Render(Render),
    Unknown(String),
}

/// An [`Operation`] with the name of an unknown one as characters.
pub enum OperationView {
    PostProcess(PostProcess),
    Render(Render),
    Unknown(Seq<char>),
}

impl View for Operation {
    type V = OperationView;

    open spec fn view(&self) -> OperationView {
        match self {
            Operation::PostProcess(p) => OperationView::PostProcess(*p),
            Operation::Render(r) => OperationView::Render(*r),
            Operation::Unknown(s) => OperationView::Unknown(s@),
        }
    }
}

/// One entry of darktable's history stack.
#[derive(Clone, Debug, PartialEq, Eq, Hash)]
pub struct Edit {
    pub num: usize,
    pub operation: Operation,
    pub enabled: bool,
}

pub struct EditView {
    pub num: usize,
    pub operation: OperationView,
    pub enabled: bool,
}

impl View for Edit {
    type V = EditView;

    open spec fn view(&self) -> EditView {
        EditView { num: self.num, operation: self.operation@, enabled: self.enabled }
    }
}

/// The operation darktable names `s`.
pub open spec fn spec_parse_operation(s: Seq<char>) -> OperationView {
    if s == "rawprepare"@ {
        OperationView::Render(Render::RawPrepare)
    } else if s == "demosaic"@ {
        OperationView::Render(Render::Demosaic)
    } else if s == "colorin"@ {
        OperationView::Render(Render::ColorIn)
    } else if s == "colorout"@ {
        OperationView::Render(Render::ColorOut)
    } else if s == "gamma"@ {
        OperationView::Render(Render::Gamma)
    } else if s == "flip"@ {
        OperationView::Render(Render::Flip)
    } else if s == "channelmixerrgb"@ {
        OperationView::Render(Render::ChannelMixerRGB)
    } else if s == "temperature"@ {
        OperationView::PostProcess(PostProcess::Temperature)
    } else if s == "highlights"@ {
        OperationView::PostProcess(PostProcess::Highlights)
    } else if s == "agx"@ {
        OperationView::PostProcess(PostProcess::Agx)
    } else if s == "exposure"@ {
        OperationView::PostProcess(PostProcess::Exposure)
    } else if s == "lens"@ {
        OperationView::PostProcess(PostProcess::LenseCorrection)
    } else {
        OperationView::Unknown(s)
    }
}

pub fn parse_operation(s: &str) -> (r: Operation)
    ensures
        r@ == spec_parse_operation(s@),
{
    if str_eq(s, "rawprepare") {
        Operation::Render(Render::RawPrepare)
    } else if str_eq(s, "demosaic") {
        Operation::Render(Render::Demosaic)
    } else if str_eq(s, "colorin") {
        Operation::Render(Render::ColorIn)
    } else if str_eq(s, "colorout") {
        Operation::Render(Render::ColorOut)
    } else if str_eq(s, "gamma") {
        Operation::Render(Render::Gamma)
    } else if str_eq(s, "flip") {
        Operation::Render(Render::Flip)
    } else if str_eq(s, "channelmixerrgb") {
        Operation::Render(Render::ChannelMixerRGB)
    } else if str_eq(s, "temperature") {
        Operation::PostProcess(PostProcess::Temperature)
    } else if str_eq(s, "highlights") {
        Operation::PostProcess(PostProcess::Highlights)
    } else if str_eq(s, "agx") {
        Operation::PostProcess(PostProcess::Agx)
    } else if str_eq(s, "exposure") {
        Operation::PostProcess(PostProcess::Exposure)
    } else if str_eq(s, "lens") {
        Operation::PostProcess(PostProcess::LenseCorrection)
    } else {
        Operation::Unknown(s.to_owned())
    }
}

/// Why one entry of the history could not be read.
#[derive(Debug, PartialEq, Eq)]
pub enum ParseFieldError {
    /// Could not parse number of edit operation.
    CouldNotParseNum { label: Span, error: std::num::ParseIntError },
    /// Could not parse whether operation is enabled, expected `1` or `0`.
    ParseEnabled(Span),
    AcceptNum(AcceptError),
    WhiteSpace(AcceptMinOneWhitespaceError),
    CouldNotFindFieldEnd(AdvanceBeyondError),
}

/// A [`ParseFieldError`] without the details of a number that did not parse.
pub enum ParseFieldErrorView {
    CouldNotParseNum { label: Span },
    ParseEnabled(Span),
    AcceptNum(AcceptErrorView),
    WhiteSpace(AcceptMinOneWhitespaceError),
    CouldNotFindFieldEnd(AdvanceBeyondErrorView),
}

impl View for ParseFieldError {
    type V = ParseFieldErrorView;

    open spec fn view(&self) -> ParseFieldErrorView {
        match self {
            ParseFieldError::CouldNotParseNum { label, .. } => ParseFieldErrorView::CouldNotParseNum {
                label: *label,
            },
            ParseFieldError::ParseEnabled(s) => ParseFieldErrorView::ParseEnabled(*s),
            ParseFieldError::AcceptNum(e) => ParseFieldErrorView::AcceptNum(e@),
            ParseFieldError::WhiteSpace(e) => ParseFieldErrorView::WhiteSpace(*e),
            ParseFieldError::CouldNotFindFieldEnd(e) => ParseFieldErrorView::CouldNotFindFieldEnd(e@),
        }
    }
}

/// Why the history could not be read.
#[derive(Debug, PartialEq, Eq)]
pub enum ParseFieldsError {
    /// Could not parse one of the edits.
    Field(ParseFieldError),
    WhiteSpace(AcceptMinOneWhitespaceError),
}

pub enum ParseFieldsErrorView {
    Field(ParseFieldErrorView),
    WhiteSpace(AcceptMinOneWhitespaceError),
}

impl View for ParseFieldsError {
    type V = ParseFieldsErrorView;

    open spec fn view(&self) -> ParseFieldsErrorView {
        match self {
            ParseFieldsError::Field(e) => ParseFieldsErrorView::Field(e@),
            ParseFieldsError::WhiteSpace(e) => ParseFieldsErrorView::WhiteSpace(*e),
        }
    }
}

/// What reading one entry gives: the entry (none when no entry starts here)
/// or an error, and the byte position after it.
pub type FieldStep = (Result<Option<EditView>, ParseFieldErrorView>, int);

/// Reading the `enabled` attribute and the end of an entry at byte `p`.
#[verifier::opaque]
pub open spec fn spec_field_enabled(b: Seq<u8>, p: int, num: usize, operation: OperationView) -> Option<FieldStep> {
    let (r1, p1) = spec_ws1(b, p);
    match r1 {
        Err(e) => Some((Err(ParseFieldErrorView::WhiteSpace(e)), p1)),
        Ok(_) => if accept_panics(b, p1, "darktable:enabled=\""@) {
            None
        } else {
            let (r2, p2) = spec_accept(b, p1, "darktable:enabled=\""@);
            match r2 {
                Err(e) => Some((Err(ParseFieldErrorView::AcceptNum(e)), p2)),
                Ok(_) => {
                    let p3 = scan_until(b, p2, stop_at('"'));
                    let text = chars_between(b, p2, p3);
                    if text != "0"@ && text != "1"@ {
                        Some((Err(ParseFieldErrorView::ParseEnabled(span_of(p2, p3))), p3))
                    } else {
                        let enabled = text == "1"@;
                        let (r4, p4) = spec_advance_beyond(b, p3, "/>"@);
                        match r4 {
                            Err(e) => Some((Err(ParseFieldErrorView::CouldNotFindFieldEnd(e)), p4)),
                            Ok(_) => {
                                let (r5, p5) = spec_ws1(b, p4);
                                match r5 {
                                    Err(e) => Some((Err(ParseFieldErrorView::WhiteSpace(e)), p5)),
                                    Ok(_) => Some(
                                        (
                                            Ok(
                                                Some(
                                                    EditView { num, operation, enabled },
                                                ),
                                            ),
                                            p5,
                                        ),
                                    ),
                                }
                            },
                        }
                    }
                },
            }
        },
    }
}

/// Reading the `operation` attribute of an entry at byte `p`.
#[verifier::opaque]
pub open spec fn spec_field_operation(b: Seq<u8>, p: int, num: usize) -> Option<FieldStep> {
    let (r1, p1) = spec_ws1(b, p);
    match r1 {
        Err(e) => Some((Err(ParseFieldErrorView::WhiteSpace(e)), p1)),
        Ok(_) => if accept_panics(b, p1, "darktable:operation=\""@) {
            None
        } else {
            let (r2, p2) = spec_accept(b, p1, "darktable:operation=\""@);
            match r2 {
                Err(e) => Some((Err(ParseFieldErrorView::AcceptNum(e)), p2)),
                Ok(_) => {
                    let p3 = scan_until(b, p2, stop_at('"'));
                    let operation = spec_parse_operation(chars_between(b, p2, p3));
                    if p3 >= b.len() {
                        None
                    } else {
                        spec_field_enabled(b, p3 + width(next_char(b, p3)), num, operation)
                    }
                },
            }
        },
    }
}

/// Reading one entry of the history at byte `p`; `None` where the input is
/// cut off right after an attribute value (the reader gives up there).
#[verifier::opaque]
pub open spec fn spec_accept_field(b: Seq<u8>, p: int) -> Option<FieldStep> {
    if accept_panics(b, p, "<rdf:li"@) {
        None
    } else {
        let (r0, p0) = spec_accept(b, p, "<rdf:li"@);
        match r0 {
            Err(_) => Some((Ok(None), p0)),
            Ok(_) => {
                let (r1, p1) = spec_ws1(b, p0);
                match r1 {
                    Err(e) => Some((Err(ParseFieldErrorView::WhiteSpace(e)), p1)),
                    Ok(_) => if accept_panics(b, p1, "darktable:num=\""@) {
                        None
                    } else {
                        let (r2, p2) = spec_accept(b, p1, "darktable:num=\""@);
                        match r2 {
                            Err(e) => Some((Err(ParseFieldErrorView::AcceptNum(e)), p2)),
                            Ok(_) => {
                                let p3 = scan_until(b, p2, stop_at('"'));
                                let num = unsigned_text_value(chars_between(b, p2, p3));
                                if !(num is Some && num->0 <= usize::MAX) {
                                    Some(
                                        (
                                            Err(
                                                ParseFieldErrorView::CouldNotParseNum {
                                                    label: span_of(p2, p3),
                                                },
                                            ),
                                            p3,
                                        ),
                                    )
                                } else if p3 >= b.len() {
                                    None
                                } else {
                                    spec_field_operation(
                                        b,
                                        p3 + width(next_char(b, p3)),
                                        num->0 as usize,
                                    )
                                }
                            },
                        }
                    },
                }
            },
        }
    }
}

pub open spec fn result_view<T: View, E: View>(r: Result<T, E>) -> Result<T::V, E::V> {
    match r {
        Ok(t) => Ok(t@),
        Err(e) => Err(e@),
    }
}

pub open spec fn option_edit_view(r: Result<Option<Edit>, ParseFieldError>) -> Result<Option<EditView>, ParseFieldErrorView> {
    match r {
        Ok(Some(e)) => Ok(Some(e@)),
        Ok(None) => Ok(None),
        Err(e) => Err(e@),
    }
}

impl<'a> ParserHelper<'a> {
    /// Moves over the closing quote of an attribute value.
    fn close_quote(&mut self) -> (r: bool)
        requires
            old(self).wf(),
        ensures
            final(self).wf(),
            final(self).bytes() == old(self).bytes(),
            old(self).pos() <= final(self).pos(),
            r == (old(self).pos() < old(self).bytes().len()),
            r ==> final(self).pos() == old(self).pos() + width(next_char(old(self).bytes(), old(self).pos())),
    {
        match self.advance_char() {
            Ok(_) => true,
            Err(_) => false,
        }
    }

    /// Reads the `enabled` attribute and the end of an entry.
    #[verifier::rlimit(50)]
    fn accept_field_enabled(&mut self, num: usize, operation: Operation) -> (r: Option<Result<Option<Edit>, ParseFieldError>>)
        requires
            old(self).wf(),
        ensures
            final(self).wf(),
            final(self).bytes() == old(self).bytes(),
            old(self).pos() <= final(self).pos(),
            match spec_field_enabled(old(self).bytes(), old(self).pos(), num, operation@) {
                None => r is None,
                Some((sr, sp)) => r matches Some(x) && option_edit_view(x) == sr && final(self).pos() == sp,
            },
    {
        proof {
            reveal(spec_field_enabled);
        }
        match self.accept_one_or_more_whitespace() {
            Err(e) => return Some(Err(ParseFieldError::WhiteSpace(e))),
            Ok(_) => {},
        }
        proof {
            reveal_strlit("darktable:enabled=\"");
        }
        if self.accept_would_panic("darktable:enabled=\"") {
            return None;
        }
        match self.accept("darktable:enabled=\"") {
            Err(e) => return Some(Err(ParseFieldError::AcceptNum(e))),
            Ok(_) => {},
        }
        let ghost b = self.bytes();
        let ghost p2 = self.pos();
        let enabled = self.accept_until_char('"');
        proof {
            lemma_scan_bounds(b, p2, stop_at('"'));
            lemma_between_bytes(b, p2, self.pos());
            reveal_strlit("0");
            reveal_strlit("1");
        }
        let enabled = if str_eq(enabled, "0") {
            false
        } else if str_eq(enabled, "1") {
            true
        } else {
            return Some(Err(ParseFieldError::ParseEnabled(self.span_till_current_pos(enabled))));
        };
        match self.advance_beyond("/>") {
            Err(e) => return Some(Err(ParseFieldError::CouldNotFindFieldEnd(e))),
            Ok(_) => {},
        }
        match self.accept_one_or_more_whitespace() {
            Err(e) => return Some(Err(ParseFieldError::WhiteSpace(e))),
            Ok(_) => {},
        }
        Some(Ok(Some(Edit { num, operation, enabled })))
    }

    /// Reads the `operation` attribute and the rest of an entry.
    #[verifier::rlimit(50)]
    fn accept_field_operation(&mut self, num: usize) -> (r: Option<Result<Option<Edit>, ParseFieldError>>)
        requires
            old(self).wf(),
        ensures
            final(self).wf(),
            final(self).bytes() == old(self).bytes(),
            old(self).pos() <= final(self).pos(),
            match spec_field_operation(old(self).bytes(), old(self).pos(), num) {
                None => r is None,
                Some((sr, sp)) => r matches Some(x) && option_edit_view(x) == sr && final(self).pos() == sp,
            },
    {
        proof {
            reveal(spec_field_operation);
        }
        match self.accept_one_or_more_whitespace() {
            Err(e) => return Some(Err(ParseFieldError::WhiteSpace(e))),
            Ok(_) => {},
        }
        proof {
            reveal_strlit("darktable:operation=\"");
        }
        if self.accept_would_panic("darktable:operation=\"") {
            return None;
        }
        match self.accept("darktable:operation=\"") {
            Err(e) => return Some(Err(ParseFieldError::AcceptNum(e))),
            Ok(_) => {},
        }
        let operation = self.accept_until_char('"');
        let operation = parse_operation(operation);
        if !self.close_quote() {
            return None;
        }
        self.accept_field_enabled(num, operation)
    }

    /// Reads one entry of the history (`None` inside: no entry starts here).
    /// The outer `None` marks input cut off right after an attribute value.
    #[verifier::rlimit(50)]
    pub fn accept_field_checked(&mut self) -> (r: Option<Result<Option<Edit>, ParseFieldError>>)
        requires
            old(self).wf(),
        ensures
            final(self).wf(),
            final(self).bytes() == old(self).bytes(),
            match spec_accept_field(old(self).bytes(), old(self).pos()) {
                None => r is None,
                Some((sr, sp)) => r matches Some(x) && option_edit_view(x) == sr && final(self).pos() == sp,
            },
            r matches Some(Ok(Some(_))) ==> old(self).pos() < final(self).pos(),
    {
        proof {
            reveal(spec_accept_field);
            reveal_strlit("<rdf:li");
            reveal_strlit("darktable:num=\"");
        }
        if self.accept_would_panic("<rdf:li") {
            return None;
        }
        match self.accept("<rdf:li") {
            Err(_) => return Some(Ok(None)),
            Ok(_) => {},
        }
        match self.accept_one_or_more_whitespace() {
            Err(e) => return Some(Err(ParseFieldError::WhiteSpace(e))),
            Ok(_) => {},
        }
        if self.accept_would_panic("darktable:num=\"") {
            return None;
        }
        match self.accept("darktable:num=\"") {
            Err(e) => return Some(Err(ParseFieldError::AcceptNum(e))),
            Ok(_) => {},
        }
        let ghost b = self.bytes();
        let ghost p2 = self.pos();
        let num = self.accept_until_char('"');
        proof {
            lemma_scan_bounds(b, p2, stop_at('"'));
            lemma_between_bytes(b, p2, self.pos());
        }
        let num = match parse_usize(num) {
            Ok(n) => n,
            Err(error) => {
                return Some(
                    Err(
                        ParseFieldError::CouldNotParseNum {
                            label: self.span_till_current_pos(num),
                            error,
                        },
                    ),
                );
            },
        };
        if !self.close_quote() {
            return None;
        }
        self.accept_field_operation(num)
    }

    /// Reads one entry of the history; `None` when no entry starts here.
    pub fn accept_field(&mut self) -> (r: Result<Option<Edit>, ParseFieldError>)
        requires
            old(self).wf(),
            spec_accept_field(old(self).bytes(), old(self).pos()) is Some,
        ensures
            final(self).wf(),
            final(self).bytes() == old(self).bytes(),
            ({
                let (sr, sp) = spec_accept_field(old(self).bytes(), old(self).pos())->0;
                option_edit_view(r) == sr && final(self).pos() == sp
            }),
    {
        match self.accept_field_checked() {
            Some(r) => r,
            None => {
                proof {
                    assert(false);
                }
                Ok(None)
            },
        }
    }
}

/// Reading entries of the history from byte `p` until no entry starts.
#[verifier::opaque]
pub open spec fn spec_fields(b: Seq<u8>, p: int) -> Option<Result<Seq<EditView>, ParseFieldErrorView>>
    decreases b.len() - p,
{
    match spec_accept_field(b, p) {
        None => None,
        Some((Err(e), _)) => Some(Err(e)),
        Some((Ok(None), _)) => Some(Ok(seq![])),
        Some((Ok(Some(e)), q)) => if p < q <= b.len() {
            match spec_fields(b, q) {
                None => None,
                Some(Err(x)) => Some(Err(x)),
                Some(Ok(es)) => Some(Ok(seq![e] + es)),
            }
        } else {
            None
        },
    }
}

/// The history of edits in the XMP text `b`; `None` where the input is cut
/// off right after an attribute value of an entry.
#[verifier::opaque]
pub open spec fn spec_parse_edits(b: Seq<u8>) -> Option<Result<Seq<EditView>, ParseFieldsErrorView>> {
    let (r0, p0) = spec_advance_beyond(b, 0, "<darktable:history>"@);
    match r0 {
        Err(_) => Some(Ok(seq![])),
        Ok(_) => {
            let (r1, p1) = spec_advance_beyond(b, p0, "<rdf:Seq>"@);
            match r1 {
                Err(_) => Some(Ok(seq![])),
                Ok(_) => {
                    let (r2, p2) = spec_ws1(b, p1);
                    match r2 {
                        Err(e) => Some(Err(ParseFieldsErrorView::WhiteSpace(e))),
                        Ok(_) => edits_outcome(spec_fields(b, p2)),
                    }
                },
            }
        },
    }
}

pub open spec fn edits_outcome(f: Option<Result<Seq<EditView>, ParseFieldErrorView>>) -> Option<Result<Seq<EditView>, ParseFieldsErrorView>> {
    match f {
        None => None,
        Some(Err(e)) => Some(Err(ParseFieldsErrorView::Field(e))),
        Some(Ok(es)) => Some(Ok(es)),
    }
}

pub open spec fn edits_view(es: Seq<Edit>) -> Seq<EditView> {
    es.map_values(|e: Edit| e@)
}

pub open spec fn edits_result_view(r: Result<Vec<Edit>, ParseFieldsError>) -> Result<Seq<EditView>, ParseFieldsErrorView> {
    match r {
        Ok(es) => Ok(edits_view(es@)),
        Err(e) => Err(e@),
    }
}

pub open spec fn after_edits(acc: Seq<EditView>, rest: Option<Result<Seq<EditView>, ParseFieldErrorView>>) -> Option<Result<Seq<EditView>, ParseFieldErrorView>> {
    match rest {
        None => None,
        Some(Err(e)) => Some(Err(e)),
        Some(Ok(es)) => Some(Ok(acc + es)),
    }
}

proof fn lemma_fields_step(b: Seq<u8>, p: int, q: int, before: Seq<EditView>, e: EditView)
    requires
        spec_accept_field(b, p) == Some::<FieldStep>((Ok(Some(e)), q)),
        p < q <= b.len(),
    ensures
        after_edits(before, spec_fields(b, p)) == after_edits(before.push(e), spec_fields(b, q)),
{
    reveal(spec_fields);
    match spec_fields(b, q) {
        Some(Ok(es)) => {
            assert(before + (seq![e] + es) =~= before.push(e) + es);
        },
        _ => {},
    }
}

proof fn lemma_fields_end(b: Seq<u8>, p: int, before: Seq<EditView>)
    ensures
        spec_accept_field(b, p) is None ==> after_edits(before, spec_fields(b, p)) is None,
        spec_accept_field(b, p) matches Some((Err(e), _)) ==> after_edits(before, spec_fields(b, p))
            == Some(Err::<Seq<EditView>, ParseFieldErrorView>(e)),
        spec_accept_field(b, p) matches Some((Ok(None), _)) ==> after_edits(before, spec_fields(b, p))
            == Some(Ok::<Seq<EditView>, ParseFieldErrorView>(before)),
{
    reveal(spec_fields);
    assert(before + Seq::<EditView>::empty() =~= before);
}

/// Reads darktable's history of edits from XMP text. No history, or an empty
/// one, gives no edits. `None` marks text cut off right after an attribute
/// value of an entry.
#[verifier::rlimit(50)]
pub fn parse_edits_checked(input: &str) -> (r: Option<Result<Vec<Edit>, ParseFieldsError>>)
    ensures
        match spec_parse_edits(input.spec_bytes()) {
            None => r is None,
            Some(x) => r matches Some(y) && edits_result_view(y) == x,
        },
{
    proof {
        reveal(spec_parse_edits);
    }
    let mut s = ParserHelper::new(input);
    let ghost b = s.bytes();
    let none: Vec<Edit> = Vec::new();
    assert(edits_view(none@) =~= Seq::<EditView>::empty());
    match s.advance_beyond("<darktable:history>") {
        Err(_) => return Some(Ok(none)),
        Ok(_) => {},
    }
    if s.advance_beyond("<rdf:Seq>").is_err() {
        // an empty sequence is written as the end tag alone
        return Some(Ok(none));
    }
    match s.accept_one_or_more_whitespace() {
        Err(e) => return Some(Err(ParseFieldsError::WhiteSpace(e))),
        Ok(_) => {},
    }
    let ghost p0 = s.pos();
    let mut edits: Vec<Edit> = none;
    proof {
        match spec_fields(b, p0) {
            Some(Ok(es)) => {
                assert(edits_view(edits@) + es =~= es);
            },
            _ => {},
        }
    }
    loop
        invariant
            s.wf(),
            s.bytes() == b,
            spec_fields(b, p0) == after_edits(edits_view(edits@), spec_fields(b, s.pos())),
            spec_parse_edits(input.spec_bytes()) == edits_outcome(spec_fields(b, p0)),
        decreases b.len() - s.pos(),
    {
        let ghost p = s.pos();
        proof {
            lemma_fields_end(b, p, edits_view(edits@));
        }
        match s.accept_field_checked() {
            None => return None,
            Some(Err(e)) => return Some(Err(ParseFieldsError::Field(e))),
            Some(Ok(None)) => {
                return Some(Ok(edits));
            },
            Some(Ok(Some(e))) => {
                let ghost before = edits_view(edits@);
                let ghost ev = e@;
                edits.push(e);
                proof {
                    assert(edits_view(edits@) =~= before.push(ev));
                    lemma_fields_step(b, p, s.pos(), before, ev);
                }
            },
        }
    }
}

/// Reads darktable's history of edits from XMP text. No history, or an empty
/// one, gives no edits.
pub fn parse_edits(s: &str) -> (r: Result<Vec<Edit>, ParseFieldsError>)
    requires
        spec_parse_edits(s.spec_bytes()) is Some,
    ensures
        edits_result_view(r) == spec_parse_edits(s.spec_bytes())->0,
{
    match parse_edits_checked(s) {
        Some(r) => r,
        None => {
            proof {
                assert(false);
            }
            Ok(Vec::new())
        },
    }
}

} // verus!
