use dark_sorter::darktable_cli::{
    assess_file_state, darktable_home_dir, export_args, export_program, FileStateError,
    MAX_PARALLEL_EXPORTS, PREVIEW_MODE,
};
use dark_sorter::fs::{FileMeta, InputFile, MetadataExtExt, PreviewFile, XmpFile};
use dark_sorter::main_loop::{after_event, AfterEvent, AfterScan, MainLoop};

fn meta(mode: u32, uid: u32, gid: u32) -> FileMeta {
    FileMeta { is_file: true, is_dir: false, mode, uid, gid }
}

#[test]
fn files_are_checked_before_export() {
    let input = meta(0o600, 1, 1);
    assert_eq!(assess_file_state(&input, None, None, 1, 5), Ok(()));
    let dir = FileMeta { is_file: false, is_dir: true, ..input };
    assert_eq!(assess_file_state(&dir, None, None, 1, 5), Err(FileStateError::InputNotAFile));
    assert_eq!(assess_file_state(&input, None, None, 2, 5), Err(FileStateError::InputNotReadable));
    let group_readable = meta(0o640, 9, 5);
    assert_eq!(assess_file_state(&group_readable, None, None, 2, 5), Ok(()));
    let locked_dir = FileMeta { is_file: false, is_dir: true, mode: 0o755, uid: 9, gid: 5 };
    assert_eq!(
        assess_file_state(&input, Some(locked_dir), None, 1, 5),
        Err(FileStateError::OutputDirNotWritable)
    );
    let group_dir = FileMeta { mode: 0o775, ..locked_dir };
    assert_eq!(assess_file_state(&input, Some(group_dir), None, 1, 5), Ok(()));
    let other_group_dir = FileMeta { gid: 6, ..group_dir };
    assert_eq!(
        assess_file_state(&input, Some(other_group_dir), None, 1, 5),
        Err(FileStateError::OutputDirNotWritable)
    );
    let own_dir = FileMeta { uid: 1, ..locked_dir };
    let foreign_output = meta(0o644, 9, 9);
    assert_eq!(
        assess_file_state(&input, Some(own_dir), Some(foreign_output), 1, 5),
        Err(FileStateError::OutputNotWritable)
    );
    let group_output = meta(0o664, 9, 5);
    assert_eq!(assess_file_state(&input, Some(own_dir), Some(group_output), 1, 5), Ok(()));
}

#[test]
fn export_command_line() {
    assert_eq!(export_program(), "nice");
    let args = export_args(
        &InputFile("/r/a.NEF".to_string()),
        &XmpFile("/r/a.NEF.xmp".to_string()),
        &PreviewFile("/t/a.jpg".to_string()),
    );
    assert_eq!(
        args,
        vec![
            "--adjustment=19",
            "darktable-cli",
            "/r/a.NEF",
            "/r/a.NEF.xmp",
            "/t/a.jpg",
            "--core",
            "--library",
            ":memory:",
            "--conf",
            "plugins/lighttable/export/metadata_flags=1"
        ]
    );
}

#[test]
fn scratch_homes() {
    assert_eq!(MAX_PARALLEL_EXPORTS, 1);
    assert_eq!(darktable_home_dir("/var/cache", 0), "/var/cache/dark-sorter/darktable_cache_0");
    assert_eq!(darktable_home_dir("/home/u/.cache/", 0), "/home/u/.cache/dark-sorter/darktable_cache_0");
}

#[test]
fn exported_previews_are_readable_by_all() {
    let exported = meta(PREVIEW_MODE, 7, 7);
    assert_eq!(PREVIEW_MODE, 0o644);
    assert!(exported.anyone_can_read());
    assert!(exported.user_can_write(7));
    assert!(!exported.anyone_can_write());
    assert!(!exported.user_can_write(8));
}

#[test]
fn scans_then_watching() {
    let mut state = MainLoop::new();
    assert_eq!(state.after_scan(true), AfterScan::StartWatching);
    assert_eq!(state.after_scan(true), AfterScan::ResumeWatching);
    assert_eq!(state.after_scan(true), AfterScan::ResumeWatching);
    let mut once = MainLoop::new();
    assert_eq!(once.after_scan(false), AfterScan::Finish);
}

#[test]
fn overflow_forces_rescan() {
    assert_eq!(after_event(true, true), AfterEvent::ClearWatcherAndRescan);
    assert_eq!(after_event(true, false), AfterEvent::ClearWatcherAndRescan);
    assert_eq!(after_event(false, true), AfterEvent::Rescan);
    assert_eq!(after_event(false, false), AfterEvent::Handle);
}
