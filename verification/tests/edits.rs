use dark_sorter::test_support::small_raw_xmp_template;
use dark_sorter::xmp::edits::helpers::{
    AcceptError, AcceptMinOneWhitespaceError, AdvanceError, ParserHelper, PeekError, Span,
};
use dark_sorter::xmp::edits::{
    parse_edits, parse_edits_checked, parse_operation, Edit, Operation, ParseFieldError,
    ParseFieldsError, PostProcess, Render,
};

fn edit(num: usize, operation: Operation) -> Edit {
    Edit { num, operation, enabled: true }
}

#[test]
fn non_empty() {
    let xmp = small_raw_xmp_template();
    assert_eq!(
        parse_edits(&xmp).unwrap(),
        vec![
            edit(0, Operation::Render(Render::RawPrepare)),
            edit(1, Operation::Render(Render::Demosaic)),
            edit(2, Operation::Render(Render::ColorIn)),
            edit(3, Operation::Render(Render::ColorOut)),
            edit(4, Operation::Render(Render::Gamma)),
            edit(5, Operation::PostProcess(PostProcess::Temperature)),
            edit(6, Operation::PostProcess(PostProcess::Highlights)),
            edit(7, Operation::PostProcess(PostProcess::Agx)),
            edit(8, Operation::Render(Render::ChannelMixerRGB)),
            edit(9, Operation::PostProcess(PostProcess::Exposure)),
            edit(10, Operation::Render(Render::Flip)),
            edit(11, Operation::PostProcess(PostProcess::LenseCorrection)),
        ]
    );
}

#[test]
fn operations_by_name() {
    assert_eq!(parse_operation("rawprepare"), Operation::Render(Render::RawPrepare));
    assert_eq!(parse_operation("demosaic"), Operation::Render(Render::Demosaic));
    assert_eq!(parse_operation("colorin"), Operation::Render(Render::ColorIn));
    assert_eq!(parse_operation("colorout"), Operation::Render(Render::ColorOut));
    assert_eq!(parse_operation("gamma"), Operation::Render(Render::Gamma));
    assert_eq!(parse_operation("flip"), Operation::Render(Render::Flip));
    assert_eq!(parse_operation("channelmixerrgb"), Operation::Render(Render::ChannelMixerRGB));
    assert_eq!(parse_operation("temperature"), Operation::PostProcess(PostProcess::Temperature));
    assert_eq!(parse_operation("highlights"), Operation::PostProcess(PostProcess::Highlights));
    assert_eq!(parse_operation("agx"), Operation::PostProcess(PostProcess::Agx));
    assert_eq!(parse_operation("exposure"), Operation::PostProcess(PostProcess::Exposure));
    assert_eq!(parse_operation("lens"), Operation::PostProcess(PostProcess::LenseCorrection));
    assert_eq!(parse_operation("Lens"), Operation::Unknown("Lens".to_string()));
    assert_eq!(parse_operation(""), Operation::Unknown(String::new()));
}

#[test]
fn no_history_means_no_edits() {
    assert_eq!(parse_edits("<x:xmpmeta></x:xmpmeta>").unwrap(), Vec::new());
}

#[test]
fn empty_sequence_means_no_edits() {
    let xmp = "<darktable:history>\n <rdf:Seq/>\n</darktable:history>";
    assert_eq!(parse_edits(xmp).unwrap(), Vec::new());
}

#[test]
fn history_needs_whitespace_after_seq() {
    let xmp = "<darktable:history><rdf:Seq></rdf:Seq>";
    assert_eq!(
        parse_edits(xmp),
        Err(ParseFieldsError::WhiteSpace(AcceptMinOneWhitespaceError::NoWhitespace(Span {
            offset: 28,
            len: 0
        })))
    );
}

#[test]
fn disabled_and_unknown_edits() {
    let xmp = "<darktable:history><rdf:Seq>\n<rdf:li darktable:num=\"3\" darktable:operation=\"sharpen\" darktable:enabled=\"0\"/>\n</rdf:Seq>";
    assert_eq!(
        parse_edits(xmp).unwrap(),
        vec![Edit { num: 3, operation: Operation::Unknown("sharpen".to_string()), enabled: false }]
    );
}

#[test]
fn enabled_must_be_zero_or_one() {
    let xmp = "<darktable:history><rdf:Seq>\n<rdf:li darktable:num=\"3\" darktable:operation=\"flip\" darktable:enabled=\"yes\"/>\n</rdf:Seq>";
    let start = xmp.find("yes").unwrap();
    assert_eq!(
        parse_edits(xmp),
        Err(ParseFieldsError::Field(ParseFieldError::ParseEnabled(Span { offset: start, len: 3 })))
    );
}

#[test]
fn edit_number_must_be_a_number() {
    let xmp = "<darktable:history><rdf:Seq>\n<rdf:li darktable:num=\"x1\" darktable:operation=\"flip\" darktable:enabled=\"1\"/>\n</rdf:Seq>";
    let start = xmp.find("x1").unwrap();
    match parse_edits(xmp) {
        Err(ParseFieldsError::Field(ParseFieldError::CouldNotParseNum { label, .. })) => {
            assert_eq!(label, Span { offset: start, len: 2 })
        }
        other => panic!("unexpected {other:?}"),
    }
}

#[test]
fn wrong_attribute_is_reported() {
    let xmp = "<darktable:history><rdf:Seq>\n<rdf:li darktable:nom=\"1\" darktable:operation=\"flip\" darktable:enabled=\"1\"/>\n</rdf:Seq>";
    let start = xmp.find("darktable:nom").unwrap();
    assert_eq!(
        parse_edits(xmp),
        Err(ParseFieldsError::Field(ParseFieldError::AcceptNum(AcceptError::DoesNotMatch {
            label: Span { offset: start, len: 15 },
            required: "darktable:num=\"".to_string(),
        })))
    );
}

#[test]
fn cut_off_entry_is_reported() {
    let xmp = "<darktable:history><rdf:Seq>\n<rdf:li darktable:num=\"1\" darktable:operation=\"flip\" darktable:enabled=\"1\" ";
    match parse_edits(xmp) {
        Err(ParseFieldsError::Field(ParseFieldError::CouldNotFindFieldEnd(_))) => {}
        other => panic!("unexpected {other:?}"),
    }
}

#[test]
fn text_cut_after_a_value_is_flagged() {
    let xmp = "<darktable:history><rdf:Seq>\n<rdf:li darktable:num=\"1";
    assert!(parse_edits_checked(xmp).is_none());
}

#[test]
fn helper_advances_over_characters() {
    let mut p = ParserHelper::new("aé");
    assert_eq!(p.advance_char(), Ok('a'));
    assert_eq!(p.advance_char(), Ok('é'));
    assert_eq!(p.advance_char(), Err(AdvanceError(Span { offset: 3, len: 0 })));
}

#[test]
fn helper_accepts_required_text() {
    let mut p = ParserHelper::new("<rdf:li x");
    assert_eq!(p.accept("<rdf:li"), Ok("<rdf:li"));
    assert_eq!(p.span_at_current_pos(), Span { offset: 7, len: 0 });
    assert_eq!(
        p.accept("xyz"),
        Err(AcceptError::NotEnoughCharsLeft(Span { offset: 7, len: 2 }))
    );
    assert_eq!(
        p.accept("yz"),
        Err(AcceptError::DoesNotMatch { label: Span { offset: 7, len: 2 }, required: "yz".to_string() })
    );
}

#[test]
fn helper_reads_until_a_character() {
    let mut p = ParserHelper::new("12\" rest");
    let num = p.accept_until_char('"');
    assert_eq!(num, "12");
    assert_eq!(p.span_till_current_pos(num), Span { offset: 0, len: 2 });
    assert_eq!(p.advance_char(), Ok('"'));
    let rest = p.accept_until_char_with(|c| c == 'x');
    assert_eq!(rest, " rest");
}

#[test]
fn helper_needs_whitespace() {
    let mut p = ParserHelper::new(" \n\tx");
    assert!(p.accept_one_or_more_whitespace().is_ok());
    assert_eq!(p.span_at_current_pos(), Span { offset: 3, len: 0 });
    assert_eq!(
        p.accept_one_or_more_whitespace(),
        Err(AcceptMinOneWhitespaceError::NoWhitespace(Span { offset: 3, len: 0 }))
    );
    let mut end = ParserHelper::new("");
    assert_eq!(
        end.accept_one_or_more_whitespace(),
        Err(AcceptMinOneWhitespaceError::NoUpcomingChar(PeekError(Span { offset: 0, len: 0 })))
    );
}

#[test]
fn helper_advances_beyond_a_marker() {
    let mut p = ParserHelper::new("abc/>def");
    assert!(p.advance_beyond("/>").is_ok());
    assert_eq!(p.accept_until_char('x'), "def");
    let mut q = ParserHelper::new("abc");
    assert!(q.advance_beyond("/>").is_err());
}
