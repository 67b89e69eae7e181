use dark_sorter::fs::{Dir, SourceDir, TargetDir, XmpFile};
use dark_sorter::test_support::{sidecar_for, sidecar_text, TestFile};
use dark_sorter::xmp::{parse_raw, EditHash, Lookup, ParsedXmps, Rating, Xmp, XmpError, XmpState};

fn sidecar(rating: &str, raw: &str) -> String {
    sidecar_text(rating, raw)
}

#[test]
fn rating_is_read() {
    assert!(matches!(Rating::from_str("xmp:Rating=\"4\""), Ok(Rating::Four)));
    assert!(matches!(Rating::from_str("a xmp:Rating=\"-1\" b"), Ok(Rating::Rejected)));
    assert!(matches!(Rating::from_str("xmp:Rating=\"0\""), Ok(Rating::Unrated)));
    assert!(matches!(Rating::from_str("xmp:Rating=\"+5\""), Ok(Rating::Five)));
}

#[test]
fn rating_errors() {
    assert!(matches!(Rating::from_str("no rating here"), Err(XmpError::NoRatingStart)));
    assert!(matches!(Rating::from_str("xmp:Rating=\"4"), Err(XmpError::NoFieldEnd)));
    assert!(matches!(Rating::from_str("xmp:Rating=\"four\""), Err(XmpError::RatingNotNumber(_))));
    assert!(matches!(Rating::from_str("xmp:Rating=\"\""), Err(XmpError::RatingNotNumber(_))));
    assert!(matches!(Rating::from_str("xmp:Rating=\"6\""), Err(XmpError::RatingOutOfRange)));
    assert!(matches!(Rating::from_str("xmp:Rating=\"-2\""), Err(XmpError::RatingOutOfRange)));
}

#[test]
fn first_rating_counts() {
    assert!(matches!(
        Rating::from_str("xmp:Rating=\"2\" xmp:Rating=\"3\""),
        Ok(Rating::Two)
    ));
}

#[test]
fn rating_numbers_and_stars() {
    let all = [
        (Rating::Rejected, -1, false),
        (Rating::Unrated, 0, false),
        (Rating::One, 1, true),
        (Rating::Two, 2, true),
        (Rating::Three, 3, true),
        (Rating::Four, 4, true),
        (Rating::Five, 5, true),
    ];
    for (rating, number, rated) in all {
        assert_eq!(rating.number(), number);
        assert_eq!(rating.is_rated(), rated);
        assert_eq!(rating.text(), number.to_string());
    }
}

#[test]
fn rating_written_reads_back() {
    for rating in [
        Rating::Rejected,
        Rating::Unrated,
        Rating::One,
        Rating::Two,
        Rating::Three,
        Rating::Four,
        Rating::Five,
    ] {
        let text = sidecar_for(TestFile::A, rating);
        assert_eq!(Rating::from_str(&text).unwrap(), rating);
    }
}

#[test]
fn raw_is_read() {
    assert_eq!(parse_raw("xmpMM:DerivedFrom=\"DSC_001.NEF\"").unwrap(), "DSC_001.NEF");
    assert!(matches!(parse_raw("nothing"), Err(XmpError::NoRawListed)));
    assert!(matches!(parse_raw("xmpMM:DerivedFrom=\"DSC_001.NEF"), Err(XmpError::NoFieldEnd)));
    assert!(matches!(parse_raw("xmpMM:DerivedFrom=\"DSC_001\""), Err(XmpError::RawWithoutExtension)));
}

#[test]
fn whole_sidecar_is_read() {
    let xmp = Xmp::from_text(&sidecar("3", "a")).unwrap();
    assert_eq!(xmp.rating, Rating::Three);
    assert_eq!(xmp.raw, "a.NEF");
    assert_eq!(xmp.edits.len(), 12);
    assert!(xmp.rated());
    let unrated = Xmp::from_text(&sidecar("0", "a")).unwrap();
    assert!(!unrated.rated());
}

#[test]
fn sidecar_errors_come_in_order() {
    assert!(matches!(Xmp::from_text(&sidecar("x", "a")), Err(XmpError::RatingNotNumber(_))));
    let no_raw = sidecar("1", "a").replace("xmpMM:DerivedFrom", "xmpMM:Other");
    assert!(matches!(Xmp::from_text(&no_raw), Err(XmpError::NoRawListed)));
    let bad_edits = sidecar("1", "a").replace("darktable:enabled=\"1\"", "darktable:enabled=\"2\"");
    assert!(matches!(Xmp::from_text(&bad_edits), Err(XmpError::ParseEdits(_))));
}

#[test]
fn edit_hash_follows_edits() {
    let a = Xmp::from_text(&sidecar("3", "a")).unwrap();
    let b = Xmp::from_text(&sidecar("5", "b")).unwrap();
    assert_eq!(a.edit_hash(), b.edit_hash());
    let changed = sidecar("3", "a").replace("darktable:operation=\"flip\"", "darktable:operation=\"crop\"");
    let c = Xmp::from_text(&changed).unwrap();
    assert!(a.edit_hash().is_some());
    assert_ne!(a.edit_hash(), c.edit_hash());
    assert_eq!(EditHash::no_edits(), EditHash(0));
}

#[test]
fn preview_and_raw_paths() {
    let xmp = Xmp::from_text(&sidecar("3", "a")).unwrap();
    let target = TargetDir(Dir("/t/event".to_string()));
    assert_eq!(xmp.preview_file(&target).0, "/t/event/a.jpg");
    let source = SourceDir(Dir("/s/event".to_string()));
    assert_eq!(xmp.raw_file(&source).0, "/s/event/a.NEF");
}

#[test]
fn io_errors() {
    assert!(matches!(
        XmpError::from_io(true, "gone".to_string(), "/x.xmp".to_string()),
        XmpError::NotFound(p) if p == "/x.xmp"
    ));
    assert!(matches!(
        XmpError::from_io(false, "denied".to_string(), "/x.xmp".to_string()),
        XmpError::Io { message, path } if message == "denied" && path == "/x.xmp"
    ));
}

#[test]
fn sidecar_read_once() {
    let mut xmps = ParsedXmps::new();
    let path = XmpFile("/s/a.NEF.xmp".to_string());
    assert!(xmps.state(&path).is_none());
    assert_eq!(xmps.begin(&path), Lookup::Load);
    assert!(matches!(xmps.state(&path), Some(XmpState::Loading)));
    assert_eq!(xmps.begin(&path), Lookup::Wait);
    xmps.finish(&path, Xmp::from_text(&sidecar("2", "a")));
    assert_eq!(xmps.begin(&path), Lookup::Ready);
    assert!(matches!(xmps.state(&path), Some(XmpState::Loaded(x)) if x.rating == Rating::Two));
    let other = XmpFile("/s/b.NEF.xmp".to_string());
    assert_eq!(xmps.begin(&other), Lookup::Load);
    xmps.finish(&other, Err(XmpError::NoRawListed));
    assert_eq!(xmps.begin(&other), Lookup::Ready);
    assert!(matches!(xmps.state(&other), Some(XmpState::Error(XmpError::NoRawListed))));
}

#[test]
fn every_written_rating_reads_back() {
    let all = [
        Rating::Rejected,
        Rating::Unrated,
        Rating::One,
        Rating::Two,
        Rating::Three,
        Rating::Four,
        Rating::Five,
    ];
    for r in all {
        let text = format!("<rdf:Description xmp:Rating=\"{}\"/>", r.text());
        assert_eq!(Rating::from_str(&text).ok(), Some(r));
    }
}

#[test]
fn another_spelling_of_a_claimed_sidecar_waits() {
    let mut xmps = ParsedXmps::new();
    let path = XmpFile("/s/trip/a.NEF.xmp".to_string());
    let same = XmpFile("/s//trip/./a.NEF.xmp".to_string());
    assert_eq!(xmps.begin(&path), Lookup::Load);
    assert_eq!(xmps.begin(&same), Lookup::Wait);
    xmps.finish(&same, Err(XmpError::NoRawListed));
    assert_eq!(xmps.begin(&path), Lookup::Ready);
    assert!(matches!(xmps.state(&path), Some(XmpState::Error(XmpError::NoRawListed))));
}

#[test]
fn only_a_claimed_read_is_finished() {
    let mut xmps = ParsedXmps::new();
    let path = XmpFile("/s/a.NEF.xmp".to_string());
    assert!(!xmps.try_finish(&path, Err(XmpError::NoRawListed)));
    assert!(xmps.state(&path).is_none());
    assert_eq!(xmps.begin(&path), Lookup::Load);
    assert!(xmps.try_finish(&path, Err(XmpError::NoRawListed)));
    assert!(!xmps.try_finish(&path, Xmp::from_text(&sidecar("2", "a"))));
    assert!(matches!(xmps.state(&path), Some(XmpState::Error(XmpError::NoRawListed))));
}
