use dark_sorter::fs::{BaseTargetDir, Dir, SourceDir, TargetDir};
use dark_sorter::test_support::{
    expected_preview, preview_jpeg_content, raw_content, sidecar_for, small_raw_xmp_template,
    test_subdir, SourceDirBuilder, TargetDirBuilder, TestFile,
};
use dark_sorter::xmp::edits::parse_edits;
use dark_sorter::xmp::{parse_raw, Rating};

#[test]
fn test_file_paths() {
    assert_eq!(TestFile::A.name(), "a");
    let source = SourceDir(Dir("/src/some_event/some_day".to_string()));
    assert_eq!(TestFile::A.xmp_file(&source).0, "/src/some_event/some_day/a.NEF.xmp");
    let target = TargetDir(Dir("/t".to_string()));
    assert_eq!(TestFile::A.jpg_preview(&target).0, "/t/a.jpg");
    assert_eq!(test_subdir().0, "some_event/some_day");
    let base = BaseTargetDir(TargetDir(Dir("/t".to_string())));
    assert_eq!(expected_preview(&base, TestFile::A).0, "/t/some_event/some_day/a.jpg");
}

#[test]
fn builders_keep_sets() {
    let b = SourceDirBuilder::new().with_rated(vec![TestFile::A, TestFile::A]).with_unrated(vec![]);
    assert!(!b.conflicting());
    assert_eq!(b.rating_writes(), vec![(TestFile::A, Rating::Unrated), (TestFile::A, Rating::Four)]);
    let both = b.with_unrated(vec![TestFile::A]);
    assert!(both.conflicting());
    let t = TargetDirBuilder::new().with_preview(vec![TestFile::A]).with_preview(vec![TestFile::A]);
    assert_eq!(t.previews(), &vec![TestFile::A]);
    assert!(TargetDirBuilder::default().previews().is_empty());
}

#[test]
fn contents() {
    assert_eq!(preview_jpeg_content(), "this is totally a preview jpg of a rated raw /s.");
    assert_eq!(raw_content(true), "this is a raw photo that is rated, I swear! /s.");
    assert_eq!(raw_content(false), "this is a raw photo that is not rated, I swear! /s.");
}

#[test]
fn sidecar_is_the_filled_template() {
    let template = small_raw_xmp_template();
    let filled = template.replace("<FILENAME>", "a").replace("<RATING>", "4");
    assert_eq!(sidecar_for(TestFile::A, Rating::Four), filled);
    assert_eq!(parse_raw(&filled).unwrap(), "a.NEF");
    assert_eq!(parse_edits(&filled).unwrap().len(), 12);
    assert!(matches!(Rating::from_str(&template), Err(_)));
}
