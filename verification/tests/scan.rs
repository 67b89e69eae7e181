use dark_sorter::fs::{BaseTargetDir, Dir, DirName, InputFile, PreviewFile, TargetDir, XmpFile};
use dark_sorter::scan::preview::{
    change_of, export_by_copy, should_remove, should_remove_all, sidecars_of, sum_changes, update_needs_preview_check,
    update_plan, Change, UpdatePlan,
};
use dark_sorter::scan::{classify_source_entry, classify_target_entry, scan_end, ScanEnd, SourceEntry};
use dark_sorter::test_support::sidecar_text;
use dark_sorter::xmp::{EditHash, Xmp, XmpError};

#[test]
fn source_entries() {
    assert_eq!(
        classify_source_entry(true, false, "trip".to_string(), "/r/trip".to_string()),
        SourceEntry::Dir(DirName("trip".to_string()))
    );
    assert_eq!(
        classify_source_entry(false, true, "a.NEF.xmp".to_string(), "/r/a.NEF.xmp".to_string()),
        SourceEntry::Xmp(XmpFile("/r/a.NEF.xmp".to_string()))
    );
    assert_eq!(
        classify_source_entry(false, true, "a.NEF".to_string(), "/r/a.NEF".to_string()),
        SourceEntry::Other
    );
    assert_eq!(
        classify_source_entry(false, false, "a.xmp".to_string(), "/r/a.xmp".to_string()),
        SourceEntry::Other
    );
}

#[test]
fn target_entries() {
    assert_eq!(
        classify_target_entry(true, "/t/a.jpg".to_string()),
        Some(PreviewFile("/t/a.jpg".to_string()))
    );
    assert_eq!(classify_target_entry(false, "/t/a.jpg".to_string()), None);
    assert_eq!(classify_target_entry(true, "/t/a.png".to_string()), None);
}

#[test]
fn empty_dirs_are_removed_but_not_the_root() {
    let base = BaseTargetDir(TargetDir(Dir("/t".to_string())));
    let sub = TargetDir(Dir("/t/trip".to_string()));
    assert_eq!(
        scan_end(2, -2, &sub, &base, true),
        ScanEnd { remove_dir: true, signal_dir_empty: true, signal_added: false }
    );
    assert_eq!(
        scan_end(0, 0, &base.0, &base, false),
        ScanEnd { remove_dir: false, signal_dir_empty: false, signal_added: false }
    );
    assert_eq!(
        scan_end(1, 1, &sub, &base, true),
        ScanEnd { remove_dir: false, signal_dir_empty: false, signal_added: true }
    );
    assert_eq!(
        scan_end(3, -1, &sub, &base, false),
        ScanEnd { remove_dir: false, signal_dir_empty: false, signal_added: false }
    );
}

#[test]
fn changes_add_up() {
    assert_eq!(Change::Added.as_num(), 1);
    assert_eq!(Change::Removed.as_num(), -1);
    assert_eq!(Change::Unchanged.as_num(), 0);
    assert_eq!(Change::Added.add(4), 5);
    assert_eq!(Change::Removed.add(4), 3);
    assert_eq!(
        sum_changes(&vec![Change::Added, Change::Removed, Change::Removed, Change::Unchanged]),
        -1
    );
    assert_eq!(sum_changes(&Vec::new()), 0);
}

#[test]
fn changed_edits_export_again() {
    let now = Some(EditHash(7));
    let before = Some(EditHash(3));
    assert_eq!(update_plan(now, before, true, false), UpdatePlan::Export { record: EditHash(7) });
    assert!(!update_needs_preview_check(now, before, true));
}

#[test]
fn missing_preview_is_exported() {
    assert_eq!(update_plan(Some(EditHash(7)), Some(EditHash(7)), true, true), UpdatePlan::Export {
        record: EditHash(7)
    });
    assert_eq!(update_plan(None, None, true, true), UpdatePlan::Export { record: EditHash(0) });
    assert!(update_needs_preview_check(Some(EditHash(7)), Some(EditHash(7)), true));
    assert!(update_needs_preview_check(Some(EditHash(7)), None, true));
}

#[test]
fn present_preview_is_kept() {
    assert_eq!(update_plan(Some(EditHash(7)), Some(EditHash(7)), true, false), UpdatePlan::Keep);
    assert_eq!(update_plan(Some(EditHash(7)), None, true, false), UpdatePlan::Keep);
}

#[test]
fn unrated_preview_is_removed() {
    assert_eq!(update_plan(Some(EditHash(7)), Some(EditHash(3)), false, true), UpdatePlan::RemovePreview);
    assert!(!update_needs_preview_check(None, None, false));
}

#[test]
fn export_is_not_repeated() {
    let plan = update_plan(Some(EditHash(9)), Some(EditHash(1)), true, true);
    let UpdatePlan::Export { record } = plan else { panic!("expected an export") };
    assert_eq!(update_plan(Some(EditHash(9)), Some(record), true, false), UpdatePlan::Keep);
    let plan = update_plan(None, None, true, true);
    let UpdatePlan::Export { record } = plan else { panic!("expected an export") };
    assert_eq!(update_plan(None, Some(record), true, false), UpdatePlan::Keep);
}

#[test]
fn change_of_plans() {
    assert_eq!(change_of(UpdatePlan::Export { record: EditHash(1) }, false), Change::Added);
    assert_eq!(change_of(UpdatePlan::Keep, true), Change::Unchanged);
    assert_eq!(change_of(UpdatePlan::RemovePreview, true), Change::Removed);
    assert_eq!(change_of(UpdatePlan::RemovePreview, false), Change::Unchanged);
}

#[test]
fn stale_previews() {
    let rated = Xmp::from_text(&sidecar_text("2", "a")).unwrap();
    assert!(matches!(should_remove(Ok(rated)), Ok(false)));
    let unrated = Xmp::from_text(&sidecar_text("-1", "a")).unwrap();
    assert!(matches!(should_remove(Ok(unrated)), Ok(true)));
    assert!(matches!(should_remove(Err(XmpError::NotFound("/x".to_string()))), Ok(true)));
    assert!(matches!(should_remove(Err(XmpError::NoRawListed)), Err(XmpError::NoRawListed)));
}

#[test]
fn jpgs_are_copied() {
    assert!(export_by_copy(&InputFile("/r/a.jpg".to_string())));
    assert!(!export_by_copy(&InputFile("/r/a.JPG".to_string())));
    assert!(!export_by_copy(&InputFile("/r/a.NEF".to_string())));
}

#[test]
fn unchecked_preview_does_not_matter() {
    for (current, exported, rated) in [
        (Some(EditHash(1)), Some(EditHash(2)), true),
        (Some(EditHash(1)), Some(EditHash(1)), false),
        (None, None, false),
    ] {
        assert!(!update_needs_preview_check(current, exported, rated));
        assert_eq!(
            update_plan(current, exported, rated, true),
            update_plan(current, exported, rated, false)
        );
    }
}

#[test]
fn the_root_is_kept_however_spelled() {
    let base = BaseTargetDir(TargetDir(Dir("/t".to_string())));
    let root = TargetDir(Dir("/t/".to_string()));
    assert_eq!(
        scan_end(0, 0, &root, &base, true),
        ScanEnd { remove_dir: false, signal_dir_empty: true, signal_added: false }
    );
    let sub = TargetDir(Dir("/t//trip/".to_string()));
    assert_eq!(
        scan_end(0, 0, &sub, &base, false),
        ScanEnd { remove_dir: true, signal_dir_empty: false, signal_added: false }
    );
}

#[test]
fn a_preview_belongs_to_sidecars_of_any_raw_kind() {
    let preview = PreviewFile("/t/trip/a.jpg".to_string());
    let xmps = vec![
        XmpFile("/s/trip/a.DNG.xmp".to_string()),
        XmpFile("/s/trip/b.NEF.xmp".to_string()),
        XmpFile("/s/trip/a.NEF.xmp".to_string()),
        XmpFile("/s/trip/ab.NEF.xmp".to_string()),
    ];
    assert_eq!(
        sidecars_of(&preview, &xmps),
        vec![XmpFile("/s/trip/a.DNG.xmp".to_string()), XmpFile("/s/trip/a.NEF.xmp".to_string())]
    );
    assert!(sidecars_of(&PreviewFile("/t/trip/c.jpg".to_string()), &xmps).is_empty());
}

#[test]
fn a_rated_dng_sidecar_keeps_its_preview() {
    let rated = || Xmp::from_text(&sidecar_text("4", "a.DNG"));
    let unrated = || Xmp::from_text(&sidecar_text("0", "a.NEF"));
    let gone = || Err(XmpError::NotFound("/s/a.NEF.xmp".to_string()));
    assert!(matches!(should_remove_all(vec![rated()]), Ok(false)));
    assert!(matches!(should_remove_all(vec![gone(), rated()]), Ok(false)));
    assert!(matches!(should_remove_all(vec![unrated(), gone()]), Ok(true)));
    assert!(matches!(should_remove_all(vec![]), Ok(true)));
    assert!(matches!(should_remove_all(vec![unrated(), Err(XmpError::NoFieldEnd), rated()]), Err(XmpError::NoFieldEnd)));
}
