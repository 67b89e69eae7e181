use dark_sorter::fs::{BaseSourceDir, BaseTargetDir, Dir, SourceDir, TargetDir, XmpFile};
use dark_sorter::scan::preview::Change;
use dark_sorter::test_support::sidecar_text;
use dark_sorter::watcher::{
    after_change, event_action, events_to_forward, forward_outcome, may_concern_sidecar,
    sidecar_for_event, when_preview_removed, AfterChange, EmptyDirPlan, Event, EventAction, EventKind, EventStep,
    Exiting, FanMask, ResultExt, SendOutcome,
};
use dark_sorter::xmp::{Xmp, XmpError};

fn source() -> BaseSourceDir {
    BaseSourceDir(SourceDir(Dir("/raws".to_string())))
}

const ALL: FanMask = FanMask { close_write: true, delete: true, moved_from: true, moved_to: true };

#[test]
fn only_sidecars_in_the_source_tree_concern_us() {
    assert!(may_concern_sidecar("/raws/trip/a.NEF.xmp", &source()));
    assert!(!may_concern_sidecar("/raws/trip/a.NEF", &source()));
    assert!(!may_concern_sidecar("/home/a.NEF.xmp", &source()));
}

#[test]
fn one_event_per_kind() {
    let events = events_to_forward("/raws/a.NEF.xmp", &source(), true, ALL);
    let kinds: Vec<EventKind> = events.iter().map(|e| e.kind).collect();
    assert_eq!(
        kinds,
        vec![
            EventKind::FileModificationComplete,
            EventKind::FileDeleted,
            EventKind::FileMovedFrom,
            EventKind::FileMovedTo
        ]
    );
    assert!(events.iter().all(|e| e.xmp_file.0 == "/raws/a.NEF.xmp"));
    let written = FanMask { close_write: true, delete: false, moved_from: false, moved_to: false };
    assert_eq!(events_to_forward("/raws/a.NEF.xmp", &source(), true, written).len(), 1);
}

#[test]
fn irrelevant_events_are_dropped() {
    assert!(events_to_forward("/raws/a.NEF", &source(), true, ALL).is_empty());
    assert!(events_to_forward("/other/a.NEF.xmp", &source(), true, ALL).is_empty());
}

#[test]
fn removals_are_forwarded_though_the_file_is_gone() {
    let events = events_to_forward("/raws/a.NEF.xmp", &source(), false, ALL);
    let kinds: Vec<EventKind> = events.iter().map(|e| e.kind).collect();
    assert_eq!(kinds, vec![EventKind::FileDeleted, EventKind::FileMovedFrom]);
    let deleted = FanMask { close_write: false, delete: true, moved_from: false, moved_to: false };
    let events = events_to_forward("/raws/trip/b.NEF.xmp", &source(), false, deleted);
    assert_eq!(events, vec![Event { xmp_file: XmpFile("/raws/trip/b.NEF.xmp".to_string()), kind: EventKind::FileDeleted }]);
    let written = FanMask { close_write: true, delete: false, moved_from: false, moved_to: true };
    assert!(events_to_forward("/raws/a.NEF.xmp", &source(), false, written).is_empty());
}

#[test]
fn forwarding_outcomes() {
    assert_eq!(forward_outcome(&vec![SendOutcome::Sent, SendOutcome::Sent], false, false), Ok(false));
    assert_eq!(forward_outcome(&vec![], true, false), Ok(true));
    assert_eq!(
        forward_outcome(&vec![SendOutcome::Sent, SendOutcome::Full, SendOutcome::Closed], false, false),
        Ok(true)
    );
    assert_eq!(forward_outcome(&vec![SendOutcome::Closed, SendOutcome::Full], false, true), Err(Exiting));
}

#[test]
fn an_earlier_loss_is_kept() {
    assert_eq!(forward_outcome(&vec![], false, true), Ok(true));
    assert_eq!(forward_outcome(&vec![SendOutcome::Sent], false, true), Ok(true));
}

#[test]
fn events_ask_for() {
    assert_eq!(event_action(EventKind::FileDeleted), EventAction::CleanUp);
    assert_eq!(event_action(EventKind::FileMovedFrom), EventAction::CleanUp);
    assert_eq!(event_action(EventKind::FileModificationComplete), EventAction::Update);
    assert_eq!(event_action(EventKind::FileMovedTo), EventAction::Update);
}

#[test]
fn what_a_read_sidecar_leads_to() {
    let gone = || Err(XmpError::NotFound("/x".to_string()));
    assert!(matches!(sidecar_for_event(EventKind::FileDeleted, gone()), Ok(EventStep::CleanUp)));
    assert!(matches!(sidecar_for_event(EventKind::FileMovedFrom, gone()), Ok(EventStep::CleanUp)));
    assert!(matches!(sidecar_for_event(EventKind::FileModificationComplete, gone()), Ok(EventStep::Nothing)));
    assert!(matches!(sidecar_for_event(EventKind::FileMovedTo, gone()), Ok(EventStep::Nothing)));
    assert!(matches!(
        sidecar_for_event(EventKind::FileModificationComplete, Err(XmpError::NoFieldEnd)),
        Err(XmpError::NoFieldEnd)
    ));
    let xmp = Xmp::from_text(&sidecar_text("1", "a")).unwrap();
    assert!(matches!(sidecar_for_event(EventKind::FileMovedTo, Ok(xmp.clone())), Ok(EventStep::Update(_))));
    assert!(matches!(sidecar_for_event(EventKind::FileDeleted, Ok(xmp)), Ok(EventStep::CleanUp)));
}

#[test]
fn what_follows_a_change() {
    assert_eq!(after_change(Change::Added), AfterChange::MarkDirNotEmpty);
    assert_eq!(after_change(Change::Removed), AfterChange::CheckDirEmpty);
    assert_eq!(after_change(Change::Unchanged), AfterChange::Nothing);
    let base = BaseTargetDir(TargetDir(Dir("/t".to_string())));
    let dir = TargetDir(Dir("/t/trip".to_string()));
    assert_eq!(when_preview_removed(true, &dir, &base), EmptyDirPlan { remove_dir: true, mark_empty: true });
    assert_eq!(when_preview_removed(true, &base.0, &base), EmptyDirPlan { remove_dir: false, mark_empty: true });
    assert_eq!(when_preview_removed(false, &dir, &base), EmptyDirPlan { remove_dir: false, mark_empty: false });
}

#[test]
fn expected_errors_become_values() {
    let not_found: Result<u8, &str> = Err("not found");
    assert_eq!(not_found.ignore_err_if(|e| *e == "not found", 7), Ok(7));
    let other: Result<u8, &str> = Err("denied");
    assert_eq!(other.ignore_err_if(|e| *e == "not found", 7), Err("denied"));
    let fine: Result<u8, &str> = Ok(1);
    assert_eq!(fine.ignore_err_if(|_| true, 7), Ok(1));
}

#[test]
fn the_root_is_not_removed_however_spelled() {
    let base = BaseTargetDir(TargetDir(Dir("/t/".to_string())));
    let root = TargetDir(Dir("/t".to_string()));
    assert_eq!(when_preview_removed(true, &root, &base), EmptyDirPlan { remove_dir: false, mark_empty: true });
}
