//! What an XMP sidecar says about a raw: its rating, the raw it describes and
//! darktable's history of edits.
pub mod edits;

use vstd::prelude::*;
use vstd::string::*;
use vstd::utf8::*;
use std::hash::{DefaultHasher, Hasher};
use vstd::std_specs::hash::DefaultHasherAdditionalSpecFns;

use crate::fs::{
    join_path, path_join, path_with_extension, with_extension, InputFile, PreviewFile, SourceDir,
    TargetDir,
};
use crate::fs::{path_normal, XmpFile};
use crate::num::{parse_i32, signed_text_value};
use crate::path_map::PathMap;
use crate::text::{
    lemma_encode_nonempty, at_boundary, bytes_contain, find_str, first_occurrence, lemma_between, lemma_occurrence_boundaries,
    lemma_tail_boundary, substr, suffix, tail, lemma_ascii_encoding, lemma_encode_ascii_byte, lemma_encode_concat,
    lemma_first_occurrence_is,
    occurs_at,
};
use crate::xmp::edits::{
    edits_view, parse_edits_checked, spec_parse_edits, Edit, EditView, Operation, OperationView,
    ParseFieldsError, PostProcess, Render,
    ParseFieldsErrorView,
};

verus! {

broadcast use vstd::seq::group_seq_axioms, encode_utf8_valid_utf8, encode_utf8_decode_utf8;

/// A star rating as the XMP standard defines it: -1 marks a rejected picture.
#[derive(Debug, Clone, Copy, PartialEq, Eq)]
pub enum Rating {
    Rejected,
    Unrated,
    One,
    Two,
    Three,
    Four,
    Five,
}

impl Rating {
    /// The number the XMP standard writes for this rating.
    pub open spec fn value(self) -> int {
        match self {
            Rating::Rejected => -1,
            Rating::Unrated => 0,
            Rating::One => 1,
            Rating::Two => 2,
            Rating::Three => 3,
            Rating::Four => 4,
            Rating::Five => 5,
        }
    }

    /// The rating written as `v`, if `v` is one.
    pub open spec fn of_value(v: int) -> Option<Rating> {
        if v == -1 {
            Some(Rating::Rejected)
        } else if v == 0 {
            Some(Rating::Unrated)
        } else if v == 1 {
            Some(Rating::One)
        } else if v == 2 {
            Some(Rating::Two)
        } else if v == 3 {
            Some(Rating::Three)
        } else if v == 4 {
            Some(Rating::Four)
        } else if v == 5 {
            Some(Rating::Five)
        } else {
            None
        }
    }

    /// One or more stars.
    pub fn is_rated(&self) -> (r: bool)
        ensures
            r == (self.value() > 0),
    {
        match self {
            Rating::Rejected | Rating::Unrated => false,
            Rating::One | Rating::Two | Rating::Three | Rating::Four | Rating::Five => true,
        }
    }

    pub fn number(&self) -> (r: i8)
        ensures
            r as int == self.value(),
    {
        match self {
            Rating::Rejected => -1,
            Rating::Unrated => 0,
            Rating::One => 1,
            Rating::Two => 2,
            Rating::Three => 3,
            Rating::Four => 4,
            Rating::Five => 5,
        }
    }

    /// How the XMP standard writes this rating.
    pub open spec fn spec_text(self) -> Seq<char> {
        match self {
            Rating::Rejected => "-1"@,
            Rating::Unrated => "0"@,
            Rating::One => "1"@,
            Rating::Two => "2"@,
            Rating::Three => "3"@,
            Rating::Four => "4"@,
            Rating::Five => "5"@,
        }
    }

    /// The rating as text (its number in decimal).
    pub fn text(&self) -> (r: &'static str)
        ensures
            r@ == self.spec_text(),
    {
        match self {
            Rating::Rejected => "-1",
            Rating::Unrated => "0",
            Rating::One => "1",
            Rating::Two => "2",
            Rating::Three => "3",
            Rating::Four => "4",
            Rating::Five => "5",
        }
    }

    /// Reads the `xmp:Rating` attribute of XMP text.
    pub fn from_str(s: &str) -> (r: Result<Self, XmpError>)
        ensures
            match spec_rating(s.spec_bytes()) {
                RatingOutcome::Rated(x) => r == Ok::<Rating, XmpError>(x),
                RatingOutcome::NoRatingStart => r == Err::<Rating, XmpError>(XmpError::NoRatingStart),
                RatingOutcome::NoFieldEnd => r == Err::<Rating, XmpError>(XmpError::NoFieldEnd),
                RatingOutcome::NotNumber => r matches Err(XmpError::RatingNotNumber(_)),
                RatingOutcome::OutOfRange => r == Err::<Rating, XmpError>(XmpError::RatingOutOfRange),
            },
    {
        let ghost b = s.spec_bytes();
        proof {
            reveal(spec_rating);
            reveal_strlit("xmp:Rating=\"");
        }
        let (start, end) = match field_value(s, "xmp:Rating=\"") {
            FieldValue::NoStart => return Err(XmpError::NoRatingStart),
            FieldValue::NoEnd => return Err(XmpError::NoFieldEnd),
            FieldValue::Found(a, z) => (a, z),
        };
        let text = substr(s, start, end);
        let rating = match parse_i32(text) {
            Ok(v) => v,
            Err(e) => return Err(XmpError::RatingNotNumber(e)),
        };
        match rating {
            -1 => Ok(Rating::Rejected),
            0 => Ok(Rating::Unrated),
            1 => Ok(Rating::One),
            2 => Ok(Rating::Two),
            3 => Ok(Rating::Three),
            4 => Ok(Rating::Four),
            5 => Ok(Rating::Five),
            _ => Err(XmpError::RatingOutOfRange),
        }
    }
}

/// Where the value of an attribute `name="value"` lies in XMP text.
pub enum FieldValue {
    /// The attribute is not there.
    NoStart,
    /// The value has no closing quote.
    NoEnd,
    /// The value is between these byte positions.
    Found(usize, usize),
}

/// The byte range of the value of the first attribute that starts with `start`
/// (which holds the opening quote): up to the next `"`.
#[verifier::opaque]
pub open spec fn spec_field_value(b: Seq<u8>, start: Seq<char>) -> FieldValue {
    match first_occurrence(b, encode_utf8(start)) {
        None => FieldValue::NoStart,
        Some(i) => {
            let st = i + encode_utf8(start).len();
            match first_occurrence(tail(b, st), encode_utf8("\""@)) {
                None => FieldValue::NoEnd,
                Some(j) => FieldValue::Found(st as usize, (st + j) as usize),
            }
        },
    }
}

/// Finds the value of the attribute that starts with `start`.
#[verifier::rlimit(60)]
pub fn field_value(s: &str, start: &str) -> (r: FieldValue)
    requires
        start@.len() > 0,
    ensures
        r == spec_field_value(s.spec_bytes(), start@),
        r matches FieldValue::Found(a, z) ==> a <= z && at_boundary(s.spec_bytes(), a as int)
            && at_boundary(s.spec_bytes(), z as int),
{
    let ghost b = s.spec_bytes();
    let len = s.as_bytes().len();
    proof {
        reveal(spec_field_value);
        lemma_encode_nonempty(start@);
        reveal_strlit("\"");
        lemma_encode_nonempty("\""@);
    }
    let i = match find_str(s, start) {
        None => return FieldValue::NoStart,
        Some(i) => i,
    };
    let n = start.as_bytes().len();
    proof {
        lemma_occurrence_boundaries(b, start.spec_bytes(), i as int);
    }
    let st = i + n;
    let rest = suffix(s, st);
    let j = match find_str(rest, "\"") {
        None => return FieldValue::NoEnd,
        Some(j) => j,
    };
    proof {
        valid_utf8_split(b, st as int);
        lemma_occurrence_boundaries(tail(b, st as int), "\"".spec_bytes(), j as int);
        lemma_tail_boundary(b, st as int, j as int);
    }
    FieldValue::Found(st, st + j)
}

/// What reading the rating gives.
pub enum RatingOutcome {
    Rated(Rating),
    NoRatingStart,
    NoFieldEnd,
    NotNumber,
    OutOfRange,
}

/// The rating written in XMP text `b`.
#[verifier::opaque]
pub open spec fn spec_rating(b: Seq<u8>) -> RatingOutcome {
    match spec_field_value(b, "xmp:Rating=\""@) {
        FieldValue::NoStart => RatingOutcome::NoRatingStart,
        FieldValue::NoEnd => RatingOutcome::NoFieldEnd,
        FieldValue::Found(a, z) => match signed_text_value(decode_utf8(b.subrange(a as int, z as int))) {
            None => RatingOutcome::NotNumber,
            Some(v) => if v < i32::MIN || v > i32::MAX {
                RatingOutcome::NotNumber
            } else {
                match Rating::of_value(v) {
                    Some(x) => RatingOutcome::Rated(x),
                    None => RatingOutcome::OutOfRange,
                }
            },
        },
    }
}

/// What reading the raw's file name gives.
pub enum RawOutcome {
    Raw(Seq<char>),
    NoRawListed,
    NoFieldEnd,
    RawWithoutExtension,
}

/// The file name of the raw that XMP text `b` describes.
#[verifier::opaque]
pub open spec fn spec_raw(b: Seq<u8>) -> RawOutcome {
    match spec_field_value(b, "xmpMM:DerivedFrom=\""@) {
        FieldValue::NoStart => RawOutcome::NoRawListed,
        FieldValue::NoEnd => RawOutcome::NoFieldEnd,
        FieldValue::Found(a, z) => {
            let name = b.subrange(a as int, z as int);
            if name.contains(0x2Eu8) {
                RawOutcome::Raw(decode_utf8(name))
            } else {
                RawOutcome::RawWithoutExtension
            }
        },
    }
}

/// Reads the file name of the raw the XMP text describes (`xmpMM:DerivedFrom`);
/// the name must have an extension.
pub fn parse_raw(s: &str) -> (r: Result<String, XmpError>)
    ensures
        match spec_raw(s.spec_bytes()) {
            RawOutcome::Raw(name) => r matches Ok(x) && x@ == name,
            RawOutcome::NoRawListed => r == Err::<String, XmpError>(XmpError::NoRawListed),
            RawOutcome::NoFieldEnd => r == Err::<String, XmpError>(XmpError::NoFieldEnd),
            RawOutcome::RawWithoutExtension => r == Err::<String, XmpError>(
                XmpError::RawWithoutExtension,
            ),
        },
{
    proof {
        reveal(spec_raw);
        reveal_strlit("xmpMM:DerivedFrom=\"");
    }
    let (start, end) = match field_value(s, "xmpMM:DerivedFrom=\"") {
        FieldValue::NoStart => return Err(XmpError::NoRawListed),
        FieldValue::NoEnd => return Err(XmpError::NoFieldEnd),
        FieldValue::Found(a, z) => (a, z),
    };
    let file_name = substr(s, start, end);
    if bytes_contain(file_name.as_bytes(), 0x2E) {
        Ok(file_name.to_owned())
    } else {
        Err(XmpError::RawWithoutExtension)
    }
}

/// Why an XMP sidecar could not be used.
#[derive(Debug)]
pub enum XmpError {
    /// File does not exist.
    NotFound(String),
    /// Could not read xmp file.
    Io { message: String, path: String },
    /// There was no rating field.
    NoRatingStart,
    /// The rating field did not end.
    NoFieldEnd,
    /// The rating was not a number.
    RatingNotNumber(std::num::ParseIntError),
    /// The XMP spec requires a rating to be between -1 and (including) 5.
    RatingOutOfRange,
    /// Xmp misses the field that lists the raw it describes.
    NoRawListed,
    /// The file name listed in the Xmp has no extension.
    RawWithoutExtension,
    /// Could not parse the list of edits.
    ParseEdits(ParseFieldsError),
}

impl XmpError {
    /// The error for a failed read of the sidecar at `path`.
    pub fn from_io(not_found: bool, message: String, path: String) -> (r: Self)
        ensures
            not_found ==> r == XmpError::NotFound(path),
            !not_found ==> r == (XmpError::Io { message, path }),
    {
        if not_found {
            XmpError::NotFound(path)
        } else {
            XmpError::Io { message, path }
        }
    }
}

/// The eight bytes of `n`, least significant first.
pub open spec fn le_bytes(n: u64) -> Seq<u8> {
    seq![
        (n & 0xff) as u8,
        ((n >> 8) & 0xff) as u8,
        ((n >> 16) & 0xff) as u8,
        ((n >> 24) & 0xff) as u8,
        ((n >> 32) & 0xff) as u8,
        ((n >> 40) & 0xff) as u8,
        ((n >> 48) & 0xff) as u8,
        ((n >> 56) & 0xff) as u8,
    ]
}

fn le_bytes_of(n: u64) -> (r: Vec<u8>)
    ensures
        r@ == le_bytes(n),
{
    let mut v: Vec<u8> = Vec::new();
    v.push((n & 0xff) as u8);
    v.push(((n >> 8) & 0xff) as u8);
    v.push(((n >> 16) & 0xff) as u8);
    v.push(((n >> 24) & 0xff) as u8);
    v.push(((n >> 32) & 0xff) as u8);
    v.push(((n >> 40) & 0xff) as u8);
    v.push(((n >> 48) & 0xff) as u8);
    v.push(((n >> 56) & 0xff) as u8);
    assert(v@ =~= le_bytes(n));
    v
}

/// A byte that tells the operations apart.
pub open spec fn operation_tag(op: OperationView) -> u8 {
    match op {
        OperationView::Render(Render::Demosaic) => 0,
        OperationView::Render(Render::RawPrepare) => 1,
        OperationView::Render(Render::Gamma) => 2,
        OperationView::Render(Render::ColorOut) => 3,
        OperationView::Render(Render::ColorIn) => 4,
        OperationView::Render(Render::Flip) => 5,
        OperationView::Render(Render::ChannelMixerRGB) => 6,
        OperationView::PostProcess(PostProcess::Highlights) => 10,
        OperationView::PostProcess(PostProcess::Temperature) => 11,
        OperationView::PostProcess(PostProcess::LenseCorrection) => 12,
        OperationView::PostProcess(PostProcess::Agx) => 13,
        OperationView::PostProcess(PostProcess::Exposure) => 14,
        OperationView::Unknown(_) => 20,
    }
}

/// The name of an operation that is not known by name (empty otherwise).
pub open spec fn operation_name(op: OperationView) -> Seq<u8> {
    match op {
        OperationView::Unknown(name) => encode_utf8(name),
        _ => Seq::empty(),
    }
}

/// What the fingerprint is fed for one edit, write by write: its number, the
/// operation, the length and bytes of an unknown operation's name, and
/// whether it is enabled.
pub open spec fn edit_feed(e: EditView) -> Seq<Seq<u8>> {
    seq![
        le_bytes(e.num as u64),
        seq![operation_tag(e.operation)],
        le_bytes(operation_name(e.operation).len() as u64),
        operation_name(e.operation),
        seq![if e.enabled { 1u8 } else { 0u8 }],
    ]
}

/// What the fingerprint is fed for a history of edits, in order.
pub open spec fn edits_feed(es: Seq<EditView>) -> Seq<Seq<u8>>
    decreases es.len(),
{
    if es.len() == 0 {
        Seq::empty()
    } else {
        edits_feed(es.drop_last()) + edit_feed(es.last())
    }
}

/// Different numbers have different bytes.
proof fn lemma_le_bytes_injective(n: u64, m: u64)
    requires
        le_bytes(n) == le_bytes(m),
    ensures
        n == m,
{
    assert(le_bytes(n)[0] == le_bytes(m)[0]);
    assert(le_bytes(n)[1] == le_bytes(m)[1]);
    assert(le_bytes(n)[2] == le_bytes(m)[2]);
    assert(le_bytes(n)[3] == le_bytes(m)[3]);
    assert(le_bytes(n)[4] == le_bytes(m)[4]);
    assert(le_bytes(n)[5] == le_bytes(m)[5]);
    assert(le_bytes(n)[6] == le_bytes(m)[6]);
    assert(le_bytes(n)[7] == le_bytes(m)[7]);
    assert(n == m) by (bit_vector)
        requires
            (n & 0xff) as u8 == (m & 0xff) as u8,
            ((n >> 8) & 0xff) as u8 == ((m >> 8) & 0xff) as u8,
            ((n >> 16) & 0xff) as u8 == ((m >> 16) & 0xff) as u8,
            ((n >> 24) & 0xff) as u8 == ((m >> 24) & 0xff) as u8,
            ((n >> 32) & 0xff) as u8 == ((m >> 32) & 0xff) as u8,
            ((n >> 40) & 0xff) as u8 == ((m >> 40) & 0xff) as u8,
            ((n >> 48) & 0xff) as u8 == ((m >> 48) & 0xff) as u8,
            ((n >> 56) & 0xff) as u8 == ((m >> 56) & 0xff) as u8,
    ;
}

/// The fingerprint is fed every field of an edit: edits fed alike are
/// equal in number, operation and whether they are enabled.
pub proof fn law_edit_feed_injective(a: EditView, b: EditView)
    requires
        edit_feed(a) == edit_feed(b),
    ensures
        a == b,
{
    assert(edit_feed(a)[0] == edit_feed(b)[0]);
    assert(edit_feed(a)[1] == edit_feed(b)[1]);
    assert(edit_feed(a)[3] == edit_feed(b)[3]);
    assert(edit_feed(a)[4] == edit_feed(b)[4]);
    lemma_le_bytes_injective(a.num as u64, b.num as u64);
    assert(a.num == b.num);
    assert(operation_tag(a.operation) == seq![operation_tag(a.operation)][0]);
    assert(operation_tag(a.operation) == operation_tag(b.operation));
    assert(a.enabled == b.enabled) by {
        assert(seq![if a.enabled { 1u8 } else { 0u8 }][0] == seq![if b.enabled { 1u8 } else { 0u8 }][0]);
    }
    if a.operation is Unknown {
        assert(b.operation is Unknown);
        assert(encode_utf8(a.operation->Unknown_0) == encode_utf8(b.operation->Unknown_0));
        assert(decode_utf8(encode_utf8(a.operation->Unknown_0)) == a.operation->Unknown_0);
        assert(decode_utf8(encode_utf8(b.operation->Unknown_0)) == b.operation->Unknown_0);
    }
    assert(a.operation == b.operation);
}

proof fn lemma_edits_feed_len(es: Seq<EditView>)
    ensures
        edits_feed(es).len() == 5 * es.len(),
    decreases es.len(),
{
    if es.len() > 0 {
        lemma_edits_feed_len(es.drop_last());
    }
}

/// The fingerprint tells histories apart: histories fed alike are equal, so
/// a history that differs in any field of any edit (its number, operation or
/// whether it is enabled), or in the order or number of edits, is fed
/// differently.
pub proof fn law_edits_feed_injective(a: Seq<EditView>, b: Seq<EditView>)
    requires
        edits_feed(a) == edits_feed(b),
    ensures
        a == b,
    decreases a.len(),
{
    lemma_edits_feed_len(a);
    lemma_edits_feed_len(b);
    assert(a.len() == b.len());
    if a.len() == 0 {
        assert(a =~= b);
    } else {
        let fa = edits_feed(a.drop_last());
        let fb = edits_feed(b.drop_last());
        lemma_edits_feed_len(a.drop_last());
        lemma_edits_feed_len(b.drop_last());
        let n = fa.len() as int;
        assert(edits_feed(a) == fa + edit_feed(a.last()));
        assert(edits_feed(b) == fb + edit_feed(b.last()));
        assert(edits_feed(a).subrange(0, n) =~= fa);
        assert(edits_feed(b).subrange(0, n) =~= fb);
        assert(edits_feed(a).subrange(n, n + 5) =~= edit_feed(a.last()));
        assert(edits_feed(b).subrange(n, n + 5) =~= edit_feed(b.last()));
        law_edits_feed_injective(a.drop_last(), b.drop_last());
        law_edit_feed_injective(a.last(), b.last());
        assert(a =~= a.drop_last().push(a.last()));
        assert(b =~= b.drop_last().push(b.last()));
    }
}

fn tag_of(op: &Operation) -> (r: u8)
    ensures
        r == operation_tag(op@),
{
    match op {
        Operation::Render(Render::Demosaic) => 0,
        Operation::Render(Render::RawPrepare) => 1,
        Operation::Render(Render::Gamma) => 2,
        Operation::Render(Render::ColorOut) => 3,
        Operation::Render(Render::ColorIn) => 4,
        Operation::Render(Render::Flip) => 5,
        Operation::Render(Render::ChannelMixerRGB) => 6,
        Operation::PostProcess(PostProcess::Highlights) => 10,
        Operation::PostProcess(PostProcess::Temperature) => 11,
        Operation::PostProcess(PostProcess::LenseCorrection) => 12,
        Operation::PostProcess(PostProcess::Agx) => 13,
        Operation::PostProcess(PostProcess::Exposure) => 14,
        Operation::Unknown(_) => 20,
    }
}

/// Feeds one edit to `hasher`.
fn feed_edit(hasher: &mut DefaultHasher, e: &Edit)
    ensures
        final(hasher)@ == old(hasher)@ + edit_feed(e@),
{
    let num = le_bytes_of(e.num as u64);
    hasher.write(num.as_slice());
    let mut tag: Vec<u8> = Vec::new();
    tag.push(tag_of(&e.operation));
    hasher.write(tag.as_slice());
    let empty: Vec<u8> = Vec::new();
    let name: &[u8] = match &e.operation {
        Operation::Unknown(n) => n.as_str().as_bytes(),
        _ => empty.as_slice(),
    };
    let len = le_bytes_of(name.len() as u64);
    hasher.write(len.as_slice());
    hasher.write(name);
    let mut enabled: Vec<u8> = Vec::new();
    enabled.push(if e.enabled { 1u8 } else { 0u8 });
    hasher.write(enabled.as_slice());
    proof {
        assert(name@ == operation_name(e@.operation));
        assert(tag@ =~= seq![operation_tag(e@.operation)]);
        assert(enabled@ =~= seq![if e.enabled { 1u8 } else { 0u8 }]);
        assert(final(hasher)@ =~= old(hasher)@ + edit_feed(e@));
    }
}

/// A fingerprint of the history of edits, stored to notice when edits change.
#[derive(Debug, Clone, Copy, PartialEq, Eq, Structural)]
pub struct EditHash(pub u64);

impl EditHash {
    /// The fingerprint stored for a preview made without known edits.
    pub fn no_edits() -> (r: EditHash)
        ensures
            r.0 == 0,
    {
        EditHash(0)
    }
}

/// What the crate keeps of an XMP sidecar.
#[derive(Debug, Clone)]
pub struct Xmp {
    pub rating: Rating,
    /// if the edits changed we need to re-export
    pub edits: Vec<Edit>,
    /// File name of the raw, relative to the sidecar's directory.
    pub raw: String,
}

pub struct XmpView {
    pub rating: Rating,
    pub edits: Seq<EditView>,
    pub raw: Seq<char>,
}

impl View for Xmp {
    type V = XmpView;

    open spec fn view(&self) -> XmpView {
        XmpView { rating: self.rating, edits: edits_view(self.edits@), raw: self.raw@ }
    }
}

/// What reading a whole sidecar gives.
pub enum XmpOutcome {
    Parsed(XmpView),
    Rating(RatingOutcome),
    Edits(ParseFieldsErrorView),
    Raw(RawOutcome),
}

/// The sidecar described by XMP text `b`: rating, then edits, then raw; the
/// first that fails decides. `None` where the edits are cut off right after an
/// attribute value.
#[verifier::opaque]
pub open spec fn spec_xmp(b: Seq<u8>) -> Option<XmpOutcome> {
    match spec_rating(b) {
        RatingOutcome::Rated(rating) => match spec_parse_edits(b) {
            None => None,
            Some(Err(e)) => Some(XmpOutcome::Edits(e)),
            Some(Ok(edits)) => match spec_raw(b) {
                RawOutcome::Raw(raw) => Some(XmpOutcome::Parsed(XmpView { rating, edits, raw })),
                other => Some(XmpOutcome::Raw(other)),
            },
        },
        other => Some(XmpOutcome::Rating(other)),
    }
}

/// The exec result matches what `spec_xmp` says.
pub open spec fn xmp_matches(r: Result<Xmp, XmpError>, o: XmpOutcome) -> bool {
    match o {
        XmpOutcome::Parsed(v) => r matches Ok(x) && x@ == v,
        XmpOutcome::Rating(RatingOutcome::NoRatingStart) => r matches Err(XmpError::NoRatingStart),
        XmpOutcome::Rating(RatingOutcome::NoFieldEnd) => r matches Err(XmpError::NoFieldEnd),
        XmpOutcome::Rating(RatingOutcome::NotNumber) => r matches Err(XmpError::RatingNotNumber(_)),
        XmpOutcome::Rating(RatingOutcome::OutOfRange) => r matches Err(XmpError::RatingOutOfRange),
        XmpOutcome::Rating(RatingOutcome::Rated(_)) => false,
        XmpOutcome::Edits(e) => r matches Err(XmpError::ParseEdits(x)) && x@ == e,
        XmpOutcome::Raw(RawOutcome::NoRawListed) => r matches Err(XmpError::NoRawListed),
        XmpOutcome::Raw(RawOutcome::NoFieldEnd) => r matches Err(XmpError::NoFieldEnd),
        XmpOutcome::Raw(RawOutcome::RawWithoutExtension) => r matches Err(XmpError::RawWithoutExtension),
        XmpOutcome::Raw(RawOutcome::Raw(_)) => false,
    }
}

impl Xmp {
    /// Reads a sidecar from its text. `None` where the history of edits is
    /// cut off right after an attribute value.
    pub fn from_text_checked(s: &str) -> (r: Option<Result<Xmp, XmpError>>)
        ensures
            match spec_xmp(s.spec_bytes()) {
                None => r is None,
                Some(o) => r matches Some(x) && xmp_matches(x, o),
            },
    {
        proof {
            reveal(spec_xmp);
        }
        let rating = match Rating::from_str(s) {
            Ok(r) => r,
            Err(e) => return Some(Err(e)),
        };
        let edits = match parse_edits_checked(s) {
            None => return None,
            Some(Ok(e)) => e,
            Some(Err(e)) => return Some(Err(XmpError::ParseEdits(e))),
        };
        let raw = match parse_raw(s) {
            Ok(r) => r,
            Err(e) => return Some(Err(e)),
        };
        Some(Ok(Xmp { rating, edits, raw }))
    }

    /// Reads a sidecar from its text.
    pub fn from_text(s: &str) -> (r: Result<Xmp, XmpError>)
        requires
            spec_xmp(s.spec_bytes()) is Some,
        ensures
            xmp_matches(r, spec_xmp(s.spec_bytes())->0),
    {
        match Self::from_text_checked(s) {
            Some(r) => r,
            None => {
                proof {
                    assert(false);
                }
                Err(XmpError::NoRatingStart)
            },
        }
    }

    /// A fingerprint of the edits, and of nothing else: what `DefaultHasher`
    /// gives for the feed of the edits. There always is one.
    pub fn edit_hash(&self) -> (r: Option<EditHash>)
        ensures
            r == Some(EditHash(DefaultHasher::spec_finish(edits_feed(edits_view(self.edits@))))),
    {
        let mut hasher = DefaultHasher::new();
        let mut i: usize = 0;
        while i < self.edits.len()
            invariant
                i <= self.edits@.len(),
                hasher@ == edits_feed(edits_view(self.edits@).take(i as int)),
            decreases self.edits.len() - i,
        {
            feed_edit(&mut hasher, &self.edits[i]);
            proof {
                let es = edits_view(self.edits@);
                assert(es.take(i + 1).drop_last() =~= es.take(i as int));
                assert(es.take(i + 1).last() == self.edits@[i as int]@);
            }
            i += 1;
        }
        assert(edits_view(self.edits@).take(i as int) =~= edits_view(self.edits@));
        Some(EditHash(hasher.finish()))
    }

    /// Where the preview of the raw goes in `target`: the raw's name with `.jpg`.
    pub fn preview_file(&self, target: &TargetDir) -> (r: PreviewFile)
        ensures
            r.0@ == path_with_extension(path_join(target.0.0@, self.raw@), "jpg"@),
    {
        let joined = join_path(target.0.0.as_str(), self.raw.as_str());
        proof {
            crate::fs::lemma_extensions_plain();
        }
        PreviewFile(with_extension(joined.as_str(), "jpg"))
    }

    /// The raw in `source`.
    pub fn raw_file(&self, source: &SourceDir) -> (r: InputFile)
        ensures
            r.0@ == path_join(source.0.0@, self.raw@),
    {
        InputFile(join_path(source.0.0.as_str(), self.raw.as_str()))
    }

    /// One or more stars.
    pub fn rated(&self) -> (r: bool)
        ensures
            r == (self.rating.value() > 0),
    {
        match self.rating {
            Rating::Rejected | Rating::Unrated => false,
            Rating::One | Rating::Two | Rating::Three | Rating::Four | Rating::Five => true,
        }
    }
}

/// What is known of a sidecar that was asked for.
#[derive(Debug)]
pub enum XmpState {
    /// Someone is reading it.
    Loading,
    Loaded(Xmp),
    Error(XmpError),
}

/// The state that the outcome of reading a sidecar leaves.
pub open spec fn state_of(r: Result<Xmp, XmpError>) -> XmpState {
    match r {
        Ok(x) => XmpState::Loaded(x),
        Err(e) => XmpState::Error(e),
    }
}

/// What to do when a sidecar is asked for.
#[derive(Debug, Clone, Copy, PartialEq, Eq)]
pub enum Lookup {
    /// It was read before: take what [`ParsedXmps::state`] holds.
    Ready,
    /// Someone else is reading it: wait until they are done.
    Wait,
    /// Nobody read it yet: read it, then [`ParsedXmps::finish`].
    Load,
}

/// Sidecars read during one scan, so that each is read once.
#[derive(Debug)]
pub struct ParsedXmps {
    map: PathMap<XmpState>,
}

impl ParsedXmps {
    pub closed spec fn view(&self) -> Map<Seq<char>, XmpState> {
        self.map.view()
    }

    pub closed spec fn wf(&self) -> bool {
        self.map.wf()
    }

    pub fn new() -> (r: Self)
        ensures
            r.wf(),
            r.view() == Map::<Seq<char>, XmpState>::empty(),
    {
        ParsedXmps { map: PathMap::new() }
    }

    /// Asks for the sidecar at `path` (however spelled); the first one to ask
    /// claims the read.
    pub fn begin(&mut self, path: &XmpFile) -> (r: Lookup)
        requires
            old(self).wf(),
        ensures
            final(self).wf(),
            (final(self).view(), r) == begin_step(old(self).view(), path_normal(path.0@)),
    {
        let found = match self.map.get(path.0.as_str()) {
            None => None,
            Some(XmpState::Loading) => Some(Lookup::Wait),
            Some(_) => Some(Lookup::Ready),
        };
        match found {
            Some(l) => l,
            None => {
                self.map.insert(path.0.clone(), XmpState::Loading);
                Lookup::Load
            },
        }
    }

    /// What is known of the sidecar at `path`.
    pub fn state(&self, path: &XmpFile) -> (r: Option<&XmpState>)
        requires
            self.wf(),
        ensures
            self.view().contains_key(path_normal(path.0@)) ==> (r matches Some(v) && *v == self.view()[path_normal(
                path.0@,
            )]),
            !self.view().contains_key(path_normal(path.0@)) ==> r is None,
    {
        self.map.get(path.0.as_str())
    }

    /// Stores what reading the sidecar at `path` gave; the read must have
    /// been claimed by [`ParsedXmps::begin`] and not yet finished.
    pub fn finish(&mut self, path: &XmpFile, result: Result<Xmp, XmpError>)
        requires
            old(self).wf(),
            old(self).view().contains_key(path_normal(path.0@)),
            old(self).view()[path_normal(path.0@)] is Loading,
        ensures
            final(self).wf(),
            final(self).view() == finish_step(old(self).view(), path_normal(path.0@), result),
    {
        let state = match result {
            Ok(x) => XmpState::Loaded(x),
            Err(e) => XmpState::Error(e),
        };
        self.map.insert(path.0.clone(), state);
    }

    /// [`Self::finish`] where the read of `path` is claimed and not yet
    /// finished; `false`, with nothing changed, otherwise (for instance
    /// when the cache was emptied meanwhile).
    pub fn try_finish(&mut self, path: &XmpFile, result: Result<Xmp, XmpError>) -> (r: bool)
        requires
            old(self).wf(),
        ensures
            final(self).wf(),
            r == (old(self).view().contains_key(path_normal(path.0@)) && old(self).view()[path_normal(path.0@)] is Loading),
            r ==> final(self).view() == finish_step(old(self).view(), path_normal(path.0@), result),
            !r ==> final(self).view() == old(self).view(),
    {
        let claimed = match self.map.get(path.0.as_str()) {
            Some(XmpState::Loading) => true,
            _ => false,
        };
        if claimed {
            self.finish(path, result);
        }
        claimed
    }
}

/// What asking for the sidecar `key` does to the cache `m`, and the answer.
pub open spec fn begin_step(m: Map<Seq<char>, XmpState>, key: Seq<char>) -> (Map<Seq<char>, XmpState>, Lookup) {
    if !m.contains_key(key) {
        (m.insert(key, XmpState::Loading), Lookup::Load)
    } else if m[key] is Loading {
        (m, Lookup::Wait)
    } else {
        (m, Lookup::Ready)
    }
}

/// What storing the outcome of reading the sidecar `key` does to the cache.
pub open spec fn finish_step(m: Map<Seq<char>, XmpState>, key: Seq<char>, result: Result<Xmp, XmpError>) -> Map<
    Seq<char>,
    XmpState,
> {
    m.insert(key, state_of(result))
}

/// A sidecar is read at most once: once anyone asked for it, every later ask
/// is told to wait or to take the stored outcome, never to read it again.
pub proof fn law_read_claimed_once(m: Map<Seq<char>, XmpState>, key: Seq<char>, other: Seq<char>)
    ensures
        begin_step(m, key).0.contains_key(key),
        begin_step(begin_step(m, key).0, key).1 != Lookup::Load,
        m.contains_key(other) ==> begin_step(m, key).0.contains_key(other),
{
}

/// Every ask after the read was stored gets that one outcome: a stored
/// outcome is ready, and neither asking for any sidecar nor storing the
/// outcome of another claimed read changes it.
pub proof fn law_outcome_kept(
    m: Map<Seq<char>, XmpState>,
    key: Seq<char>,
    result: Result<Xmp, XmpError>,
    other: Seq<char>,
    other_result: Result<Xmp, XmpError>,
)
    requires
        m.contains_key(key),
        m[key] is Loading,
    ensures
        finish_step(m, key, result)[key] == state_of(result),
        begin_step(finish_step(m, key, result), key) == (finish_step(m, key, result), Lookup::Ready),
        begin_step(finish_step(m, key, result), other).0[key] == state_of(result),
        finish_step(m, key, result).contains_key(other) && finish_step(m, key, result)[other] is Loading
            ==> finish_step(finish_step(m, key, result), other, other_result)[key] == state_of(result),
{
}

/// A rating written as text reads back as the same rating.
pub proof fn law_rating_text_round_trip(r: Rating)
    ensures
        signed_text_value(r.spec_text()) == Some(r.value()),
        Rating::of_value(r.value()) == Some(r),
{
    reveal_strlit("-1");
    reveal_strlit("0");
    reveal_strlit("1");
    reveal_strlit("2");
    reveal_strlit("3");
    reveal_strlit("4");
    reveal_strlit("5");
    let t = r.spec_text();
    if r == Rating::Rejected {
        assert(t.drop_first() =~= seq!['1']);
        assert(crate::num::digits_value(seq!['1']) == 1) by {
            let one = seq!['1'];
            assert(one.drop_last() =~= Seq::<char>::empty());
            assert(one.last() == '1');
            assert(('1' as u32) == 0x31);
            assert(crate::num::digits_value(one) == crate::num::digits_value(one.drop_last()) * 10 + ((one.last() as u32) - 0x30));
        }
    } else {
        assert(t.len() == 1);
        assert(t[0] != '+' && t[0] != '-');
        assert(crate::num::digits_value(t) == crate::num::digits_value(t.drop_last()) * 10 + ((t.last() as u32) - 0x30));
        assert(t.drop_last() =~= Seq::<char>::empty());
    }
}

/// A rating's text is plain ASCII without quotes.
proof fn lemma_rating_text_plain(r: Rating)
    ensures
        forall|i: int|
            0 <= i < r.spec_text().len() ==> (#[trigger] r.spec_text()[i] as u32) < 0x80 && (r.spec_text()[i] as u32)
                != 0x22,
{
    match r {
        Rating::Rejected => reveal_strlit("-1"),
        Rating::Unrated => reveal_strlit("0"),
        Rating::One => reveal_strlit("1"),
        Rating::Two => reveal_strlit("2"),
        Rating::Three => reveal_strlit("3"),
        Rating::Four => reveal_strlit("4"),
        Rating::Five => reveal_strlit("5"),
    }
}

/// The bytes of a rating's text hold no quote.
proof fn lemma_rating_bytes_plain(r: Rating)
    ensures
        forall|i: int| 0 <= i < encode_utf8(r.spec_text()).len() ==> #[trigger] encode_utf8(r.spec_text())[i] != 0x22u8,
{
    lemma_rating_text_plain(r);
    lemma_ascii_encoding(r.spec_text());
    assert forall|i: int| 0 <= i < encode_utf8(r.spec_text()).len() implies #[trigger] encode_utf8(r.spec_text())[i]
        != 0x22u8 by {
        let v = r.spec_text()[i] as u32;
        assert(v < 0x80 && v != 0x22 ==> (v as u8) != 0x22u8) by (bit_vector);
    }
}

/// Before the end of `pre`, `m` occurs in `pre + m + after` where it occurs
/// in `pre + m`.
proof fn lemma_occurrence_before_end(pre: Seq<u8>, m: Seq<u8>, after: Seq<u8>)
    ensures
        forall|j: int| 0 <= j < pre.len() ==> occurs_at(pre + m + after, m, j) == #[trigger] occurs_at(pre + m, m, j),
{
    assert forall|j: int| 0 <= j < pre.len() implies occurs_at(pre + m + after, m, j) == #[trigger] occurs_at(
        pre + m,
        m,
        j,
    ) by {
        assert((pre + m + after).subrange(j, j + m.len()) =~= (pre + m).subrange(j, j + m.len()));
    }
}

/// In `t + "\"" + rest`, where `t` holds no quote, the first quote follows `t`.
proof fn lemma_first_quote(t: Seq<u8>, rest: Seq<u8>)
    requires
        forall|i: int| 0 <= i < t.len() ==> #[trigger] t[i] != 0x22u8,
    ensures
        first_occurrence(t + encode_utf8("\""@) + rest, encode_utf8("\""@)) == Some(t.len() as int),
{
    reveal_strlit("\"");
    lemma_ascii_encoding("\""@);
    let q = encode_utf8("\""@);
    assert(q =~= seq![0x22u8]);
    let tl = t + q + rest;
    assert(tl.subrange(t.len() as int, t.len() + 1int) =~= q);
    assert forall|j: int| 0 <= j < t.len() implies !occurs_at(tl, q, j) by {
        assert(tl[j] == t[j]);
        assert(tl.subrange(j, j + 1)[0] == tl[j]);
    }
    lemma_first_occurrence_is(tl, q, t.len() as int);
}

/// After text in which `start` does not begin, the value of the attribute
/// that `start` opens is the quote-free bytes `t` that follow it.
#[verifier::spinoff_prover]
#[verifier::rlimit(40)]
proof fn lemma_field_value_found(pre: Seq<u8>, start: Seq<char>, t: Seq<u8>, rest: Seq<u8>)
    requires
        forall|j: int| 0 <= j < pre.len() ==> !occurs_at(pre + encode_utf8(start), encode_utf8(start), j),
        forall|i: int| 0 <= i < t.len() ==> #[trigger] t[i] != 0x22u8,
    ensures
        spec_field_value(pre + encode_utf8(start) + t + encode_utf8("\""@) + rest, start) == FieldValue::Found(
            (pre.len() + encode_utf8(start).len()) as usize,
            (pre.len() + encode_utf8(start).len() + t.len()) as usize,
        ),
{
    let m = encode_utf8(start);
    let q = encode_utf8("\""@);
    let after = t + q + rest;
    let b = pre + m + t + q + rest;
    let p = pre.len() as int;
    let st = p + m.len();
    lemma_occurrence_before_end(pre, m, after);
    assert(b =~= pre + m + after);
    assert(b.subrange(p, p + m.len()) =~= m);
    assert forall|j: int| 0 <= j < p implies !occurs_at(b, m, j) by {
        assert(!occurs_at(pre + m, m, j));
    }
    lemma_first_occurrence_is(b, m, p);
    assert(tail(b, st) =~= after);
    lemma_first_quote(t, rest);
    reveal(spec_field_value);
}

/// A rating written into XMP text reads back as that rating: after any text
/// that holds no rating attribute, `xmp:Rating="` with the rating's text and
/// a closing quote, then anything.
pub proof fn law_rating_reads_back(r: Rating, pre: Seq<u8>, rest: Seq<u8>)
    requires
        forall|j: int|
            0 <= j < pre.len() ==> !occurs_at(
                pre + encode_utf8("xmp:Rating=\""@),
                encode_utf8("xmp:Rating=\""@),
                j,
            ),
        (pre + encode_utf8("xmp:Rating=\""@) + encode_utf8(r.spec_text()) + encode_utf8("\""@) + rest).len()
            <= usize::MAX,
    ensures
        spec_rating(pre + encode_utf8("xmp:Rating=\""@) + encode_utf8(r.spec_text()) + encode_utf8("\""@) + rest)
            == RatingOutcome::Rated(r),
{
    let t = encode_utf8(r.spec_text());
    let b = pre + encode_utf8("xmp:Rating=\""@) + t + encode_utf8("\""@) + rest;
    let st = pre.len() + encode_utf8("xmp:Rating=\""@).len() as int;
    lemma_rating_bytes_plain(r);
    lemma_field_value_found(pre, "xmp:Rating=\""@, t, rest);
    assert(b.subrange(st, st + t.len() as int) =~= t);
    assert(decode_utf8(t) == r.spec_text());
    law_rating_text_round_trip(r);
    assert(i32::MIN <= r.value() <= i32::MAX);
    reveal(spec_rating);
}

/// The raw a sidecar names is read back as written, and any name with an
/// extension (a dot) is accepted, whatever the raw's kind: after text that
/// holds no `xmpMM:DerivedFrom` attribute, `xmpMM:DerivedFrom="` with a file
/// name holding no quote and a closing quote, then anything, gives that name
/// when it holds a dot, and `RawWithoutExtension` when it holds none.
pub proof fn law_raw_reads_back(name: Seq<char>, pre: Seq<u8>, rest: Seq<u8>)
    requires
        forall|j: int|
            0 <= j < pre.len() ==> !occurs_at(
                pre + encode_utf8("xmpMM:DerivedFrom=\""@),
                encode_utf8("xmpMM:DerivedFrom=\""@),
                j,
            ),
        forall|i: int| 0 <= i < name.len() ==> #[trigger] name[i] != '"',
        (pre + encode_utf8("xmpMM:DerivedFrom=\""@) + encode_utf8(name) + encode_utf8("\""@) + rest).len() <= usize::MAX,
    ensures
        name.contains('.') ==> spec_raw(
            pre + encode_utf8("xmpMM:DerivedFrom=\""@) + encode_utf8(name) + encode_utf8("\""@) + rest,
        ) == RawOutcome::Raw(name),
        !name.contains('.') ==> spec_raw(
            pre + encode_utf8("xmpMM:DerivedFrom=\""@) + encode_utf8(name) + encode_utf8("\""@) + rest,
        ) == RawOutcome::RawWithoutExtension,
{
    let t = encode_utf8(name);
    let b = pre + encode_utf8("xmpMM:DerivedFrom=\""@) + t + encode_utf8("\""@) + rest;
    let st = pre.len() + encode_utf8("xmpMM:DerivedFrom=\""@).len() as int;
    lemma_encode_ascii_byte(name, 0x22u8);
    lemma_encode_ascii_byte(name, 0x2Eu8);
    assert(('"' as u32) == 0x22 && ('.' as u32) == 0x2E);
    if exists|j: int| 0 <= j < name.len() && #[trigger] name[j] as u32 == 0x22u8 as u32 {
        let j = choose|j: int| 0 <= j < name.len() && #[trigger] name[j] as u32 == 0x22u8 as u32;
        vstd::utf8::char_u32_cast(name[j], 0x22);
        vstd::utf8::char_u32_cast('"', 0x22);
        assert(name[j] == '"');
    }
    assert forall|i: int| 0 <= i < t.len() implies #[trigger] t[i] != 0x22u8 by {
        if t[i] == 0x22u8 {
            assert(t.contains(0x22u8));
        }
    }
    lemma_field_value_found(pre, "xmpMM:DerivedFrom=\""@, t, rest);
    assert(b.subrange(st, st + t.len() as int) =~= t);
    assert(decode_utf8(t) == name);
    if name.contains('.') {
        let j = choose|j: int| 0 <= j < name.len() && name[j] == '.';
        assert(name[j] as u32 == 0x2Eu8 as u32);
    }
    if exists|j: int| 0 <= j < name.len() && #[trigger] name[j] as u32 == 0x2Eu8 as u32 {
        let j = choose|j: int| 0 <= j < name.len() && #[trigger] name[j] as u32 == 0x2Eu8 as u32;
        vstd::utf8::char_u32_cast(name[j], 0x2E);
        vstd::utf8::char_u32_cast('.', 0x2E);
        assert(name[j] == '.');
    }
    reveal(spec_raw);
}

/// Nothing in `<rdf:Description ` starts a rating attribute.
proof fn lemma_description_holds_no_rating() 
    ensures
        forall|j: int|
            0 <= j < encode_utf8("<rdf:Description "@).len() ==> !occurs_at(
                encode_utf8("<rdf:Description "@) + encode_utf8("xmp:Rating=\""@),
                encode_utf8("xmp:Rating=\""@),
                j,
            ),
{
    reveal_strlit("<rdf:Description ");
    reveal_strlit("xmp:Rating=\"");
    let d = "<rdf:Description "@;
    let k = "xmp:Rating=\""@;
    assert forall|i: int| 0 <= i < d.len() implies (#[trigger] d[i] as u32) < 0x80 && d[i] != 'x' by {}
    assert forall|i: int| 0 <= i < k.len() implies (#[trigger] k[i] as u32) < 0x80 by {}
    lemma_ascii_encoding(d);
    lemma_ascii_encoding(k);
    let pre = encode_utf8(d);
    let m = encode_utf8(k);
    assert forall|j: int| 0 <= j < pre.len() implies !occurs_at(pre + m, m, j) by {
        let v = d[j] as u32;
        assert(v != ('x' as u32));
        assert(v < 0x80 && v != 0x78 ==> (v as u8) != 0x78u8) by (bit_vector);
        assert((pre + m)[j] == pre[j]);
        if occurs_at(pre + m, m, j) {
            assert((pre + m).subrange(j, j + m.len())[0] == (pre + m)[j]);
            assert(m[0] == (k[0] as u32) as u8);
        }
    }
}

/// A rating written the way a sidecar holds it,
/// `<rdf:Description xmp:Rating="<rating>"/>`, reads back as that rating.
pub proof fn law_description_rating_reads_back(r: Rating)
    ensures
        spec_rating(encode_utf8("<rdf:Description xmp:Rating=\""@ + r.spec_text() + "\"/>"@)) == RatingOutcome::Rated(r),
{
    reveal_strlit("<rdf:Description xmp:Rating=\"");
    reveal_strlit("<rdf:Description ");
    reveal_strlit("xmp:Rating=\"");
    reveal_strlit("\"/>");
    reveal_strlit("\"");
    reveal_strlit("/>");
    let d = "<rdf:Description "@;
    let k = "xmp:Rating=\""@;
    let q = "\""@;
    let e = "/>"@;
    let t = r.spec_text();
    assert("<rdf:Description xmp:Rating=\""@ + t + "\"/>"@ =~= d + k + t + q + e);
    lemma_encode_concat(d + k + t + q, e);
    lemma_encode_concat(d + k + t, q);
    lemma_encode_concat(d + k, t);
    lemma_encode_concat(d, k);
    lemma_description_holds_no_rating();
    lemma_rating_text_plain(r);
    assert forall|i: int| 0 <= i < (d + k + t + q + e).len() implies (#[trigger] (d + k + t + q + e)[i] as u32) < 0x80 by {
        if i >= d.len() + k.len() && i < d.len() + k.len() + t.len() {
            assert((d + k + t + q + e)[i] == t[i - d.len() - k.len()]);
        }
    }
    lemma_ascii_encoding(d + k + t + q + e);
    assert(t.len() <= 2) by {
        reveal_strlit("-1");
        reveal_strlit("0");
        reveal_strlit("1");
        reveal_strlit("2");
        reveal_strlit("3");
        reveal_strlit("4");
        reveal_strlit("5");
    }
    assert(encode_utf8(d + k + t + q + e) == encode_utf8(d) + encode_utf8(k) + encode_utf8(t) + encode_utf8(q)
        + encode_utf8(e));
    assert(encode_utf8(d + k + t + q + e).len() < 100);
    law_rating_reads_back(r, encode_utf8(d), encode_utf8(e));
}

/// Equal histories of edits give equal fingerprints, whatever else the
/// sidecars hold.
pub proof fn law_equal_edits_equal_hash(a: Xmp, b: Xmp)
    requires
        a@.edits == b@.edits,
    ensures
        DefaultHasher::spec_finish(edits_feed(a@.edits)) == DefaultHasher::spec_finish(edits_feed(b@.edits)),
{
}

} // verus!
