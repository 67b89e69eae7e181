use dark_sorter::fs::{BaseTargetDir, Dir, PreviewFile, TargetDir};
use dark_sorter::immich::client::{
    all_libraries_request, create_library_request, current_user_request, delete_library_request,
    give_up_after, is_success_status, log_after_wait, scan_library_request, ApiError, ApiKey, CreateLibrary, Library,
    LibraryId, Method, RetryError, RetryLog, UserId,
};
use dark_sorter::immich::{
    created_for, lib_name_for_dir, managed_libraries, managed_library, rescan_due,
    signal_follow_up, try_lib_name_for_dir, ManagedLibrary, SendResult, SignalFollowUp, SyncState,
};

fn base() -> BaseTargetDir {
    BaseTargetDir(TargetDir(Dir("/jpgs".to_string())))
}

fn dir(p: &str) -> TargetDir {
    TargetDir(Dir(p.to_string()))
}

fn library(id: &str, path: &str, name: &str, owner: &str) -> Library {
    Library {
        id: LibraryId(id.to_string()),
        import_paths: vec![path.to_string()],
        name: name.to_string(),
        owner_id: UserId(owner.to_string()),
    }
}

fn managed(id: &str, path: &str) -> ManagedLibrary {
    ManagedLibrary { id: LibraryId(id.to_string()), import_path: dir(path), last_scanned: None }
}

#[test]
fn library_names() {
    assert_eq!(lib_name_for_dir(&dir("/jpgs/2024/trip"), &base()), "z-dark-sorter:/2024/trip");
    assert_eq!(try_lib_name_for_dir(&dir("/other"), &base()), None);
}

#[test]
fn only_our_libraries_are_managed() {
    let me = UserId("me".to_string());
    let libs = vec![
        library("1", "/jpgs/trip", "z-dark-sorter:/trip", "me"),
        library("2", "/jpgs/other", "z-dark-sorter:/other", "someone else"),
        library("3", "/jpgs/mine", "holiday", "me"),
        library("4", "/photos/x", "z-dark-sorter:/x", "me"),
        library("5", "/jpgs/b", "z-dark-sorter:/b", "me"),
    ];
    assert!(managed_library(&libs[0], &me, &base()).is_some());
    assert!(managed_library(&libs[3], &me, &base()).is_none());
    let ours = managed_libraries(libs, &me, &base());
    let ids: Vec<&str> = ours.iter().map(|l| l.id.0.as_str()).collect();
    assert_eq!(ids, vec!["1", "5"]);
    assert_eq!(ours[1].import_path, dir("/jpgs/b"));
    assert!(ours.iter().all(|l| l.last_scanned.is_none()));
    let no_paths = Library { import_paths: Vec::new(), ..library("6", "", "z-dark-sorter:/", "me") };
    assert!(managed_library(&no_paths, &me, &base()).is_none());
}

#[test]
fn created_library_must_import_the_dir() {
    let lib = library("9", "/jpgs/trip", "z-dark-sorter:/trip", "me");
    assert!(created_for(&lib, &dir("/jpgs/trip")));
    assert!(!created_for(&lib, &dir("/jpgs/other")));
    let adopted = ManagedLibrary::adopt_created(lib, dir("/jpgs/trip"));
    assert_eq!(adopted.id, LibraryId("9".to_string()));
}

#[test]
fn empty_dir_drops_its_library() {
    let mut state = SyncState::new(vec![managed("1", "/jpgs/a"), managed("2", "/jpgs/b")]);
    assert_eq!(state.on_empty_dir(&dir("/jpgs/a")), Some(LibraryId("1".to_string())));
    assert_eq!(state.on_empty_dir(&dir("/jpgs/a")), None);
    assert_eq!(state.library_for(&dir("/jpgs/b")), Some(LibraryId("2".to_string())));
    assert_eq!(state.library_for(&dir("/jpgs/a")), None);
}

#[test]
fn one_scan_per_library() {
    let mut state = SyncState::new(vec![managed("1", "/jpgs/a")]);
    state.add_library(managed("2", "/jpgs/b"));
    let a = dir("/jpgs/a");
    let b = dir("/jpgs/b");
    state.on_file_added(PreviewFile("/jpgs/a/x.jpg".to_string()), &a, 1_000);
    state.on_file_added(PreviewFile("/jpgs/b/y.jpg".to_string()), &b, 2_000);
    state.on_file_added(PreviewFile("/jpgs/a/z.jpg".to_string()), &a, 3_000);
    let first = state.take_next_pending().unwrap();
    assert_eq!(first.library_id, LibraryId("1".to_string()));
    assert_eq!(first.triggers_at, 31_000);
    assert_eq!(
        first.paths,
        vec![PreviewFile("/jpgs/a/x.jpg".to_string()), PreviewFile("/jpgs/a/z.jpg".to_string())]
    );
    let second = state.take_next_pending().unwrap();
    assert_eq!(second.library_id, LibraryId("2".to_string()));
    assert_eq!(second.triggers_at, 32_000);
    assert!(state.take_next_pending().is_none());
}

#[test]
fn recently_scanned_library_waits() {
    let mut lib = managed("1", "/jpgs/a");
    lib.last_scanned = Some(100_000);
    let mut state = SyncState::new(vec![lib]);
    state.on_file_added(PreviewFile("/jpgs/a/x.jpg".to_string()), &dir("/jpgs/a"), 110_000);
    assert_eq!(state.take_next_pending().unwrap().triggers_at, 140_000);
    let mut old = managed("2", "/jpgs/b");
    old.last_scanned = Some(0);
    let mut state = SyncState::new(vec![old]);
    state.on_file_added(PreviewFile("/jpgs/b/x.jpg".to_string()), &dir("/jpgs/b"), 40_000);
    assert_eq!(state.take_next_pending().unwrap().triggers_at, 40_000);
}

#[test]
fn overflow_and_follow_ups() {
    assert!(rescan_due(true, 300, 512));
    assert!(!rescan_due(true, 256, 512));
    assert!(!rescan_due(false, 512, 512));
    assert_eq!(signal_follow_up(SendResult::Sent), SignalFollowUp::Nothing);
    assert_eq!(signal_follow_up(SendResult::Full), SignalFollowUp::MarkOverflow);
    assert_eq!(signal_follow_up(SendResult::Closed), SignalFollowUp::ReportStopped);
}

#[test]
fn which_failures_are_retried() {
    assert!(ApiError::FailedToSend("x".to_string()).is_recoverable());
    assert!(ApiError::FailedToReceive("x".to_string()).is_recoverable());
    assert!(ApiError::BadStatus(500).is_recoverable());
    assert!(ApiError::BadStatus(503).is_recoverable());
    for code in [400, 403, 404, 405, 501] {
        assert!(!ApiError::BadStatus(code).is_recoverable());
    }
    assert!(!ApiError::InvalidJson { error: "e".to_string(), response: "r".to_string() }.is_recoverable());
    assert!(matches!(give_up_after(ApiError::BadStatus(500)), Ok(ApiError::BadStatus(500))));
    assert!(matches!(
        give_up_after(ApiError::BadStatus(404)),
        Err(RetryError::Unrecoverable(ApiError::BadStatus(404)))
    ));
}

#[test]
fn long_waits_are_logged() {
    assert_eq!(log_after_wait(6000, true), (RetryLog::Warn, false));
    assert_eq!(log_after_wait(6000, false), (RetryLog::Debug, false));
    assert_eq!(log_after_wait(5000, true), (RetryLog::Quiet, true));
}

#[test]
fn requests() {
    let id = LibraryId("abc".to_string());
    let r = scan_library_request(&id);
    assert_eq!((r.method, r.path.as_str()), (Method::Post, "libraries/abc/scan"));
    let r = delete_library_request(&id);
    assert_eq!((r.method, r.path.as_str()), (Method::Delete, "libraries/abc"));
    let r = current_user_request();
    assert_eq!((r.method, r.path.as_str()), (Method::Get, "users/me"));
    let r = all_libraries_request();
    assert_eq!((r.method, r.path.as_str()), (Method::Get, "libraries"));
    let r = create_library_request();
    assert_eq!((r.method, r.path.as_str()), (Method::Post, "libraries"));
}

#[test]
fn create_request_body() {
    let owner = UserId("me".to_string());
    let body = CreateLibrary::new(Vec::new(), "/jpgs/trip", "z-dark-sorter:/trip".to_string(), &owner);
    assert_eq!(body.import_paths, vec!["/jpgs/trip".to_string()]);
    assert_eq!(body.owner_id, owner);
    assert_eq!(body.name, "z-dark-sorter:/trip");
    assert_eq!(ApiKey::from_str("secret").0, "secret");
    assert_eq!(UserId::zero().0, "");
    assert!(LibraryId::zero().same_as(&LibraryId(String::new())));
}

#[test]
fn success_statuses() {
    assert!(is_success_status(200));
    assert!(is_success_status(204));
    assert!(!is_success_status(199));
    assert!(!is_success_status(300));
    assert!(!is_success_status(404));
}

#[test]
fn later_library_for_a_dir_wins() {
    let state = SyncState::new(vec![managed("1", "/jpgs/a"), managed("2", "/jpgs/a")]);
    assert_eq!(state.library_for(&dir("/jpgs/a")), Some(LibraryId("2".to_string())));
}

#[test]
fn a_printed_key_hides_its_value() {
    let key = ApiKey::from_str("secret");
    assert_eq!(key.redacted().0, "<value redacted for security>");
    assert_eq!(key.0, "secret");
}

#[test]
fn a_file_outside_managed_dirs_changes_nothing() {
    let mut state = SyncState::new(vec![managed("1", "/jpgs/a")]);
    assert!(!state.try_on_file_added(PreviewFile("/jpgs/b/x.jpg".to_string()), &dir("/jpgs/b"), 1_000));
    assert!(state.take_next_pending().is_none());
    assert!(state.try_on_file_added(PreviewFile("/jpgs/a/x.jpg".to_string()), &dir("/jpgs/a/"), 1_000));
    assert_eq!(state.take_next_pending().unwrap().triggers_at, 31_000);
}
