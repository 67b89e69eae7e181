use dark_sorter::fs::{
    file_handle_limit, BaseSourceDir, BaseTargetDir, Dir, DirName, FileMeta, InputFile,
    MetadataExtExt, NotAPreviewFile, NotAnXmpFile, NotBaseSubDir, PreviewFile, SourceDir,
    TargetDir, XmpFile,
};

fn xmp(p: &str) -> XmpFile {
    XmpFile(p.to_string())
}

fn preview(p: &str) -> PreviewFile {
    PreviewFile(p.to_string())
}

#[test]
fn sidecar_corresponds_to_preview() {
    assert!(xmp("hi/test.NEF.xmp").corresponds_to(&preview("by/test.jpg")));
    assert!(xmp("hi/test.DNG.xmp").corresponds_to(&preview("by/test.jpg")));
    assert!(xmp("hi/test.JPG.xmp").corresponds_to(&preview("by/test.JPG")));
    assert!(xmp("hello/hi/test.png.xmp").corresponds_to(&preview("goodby/see you/test.png")));
    assert!(!xmp("hi/test.NEF.xmp").corresponds_to(&preview("by/other.jpg")));
    assert_eq!(xmp("hi/test.NEF.xmp").try_corresponds_to(&preview("/")), None);
}

#[test]
fn preview_path_mirrors_source() {
    let source = BaseSourceDir(SourceDir(Dir("/raws".to_string())));
    let target = BaseTargetDir(TargetDir(Dir("/jpgs".to_string())));
    let x = xmp("/raws/2024/trip/DSC_1.NEF.xmp");
    assert_eq!(x.preview_path(&source, &target).0, "/jpgs/2024/trip/DSC_1.jpg");
    assert_eq!(xmp("/elsewhere/a.NEF.xmp").try_preview_path(&source, &target), None);
}

#[test]
fn sidecar_parts() {
    let x = xmp("/raws/trip/DSC_1.NEF.xmp");
    assert_eq!(x.input_file().0, "/raws/trip/DSC_1.NEF");
    assert_eq!(x.file_stem(), "DSC_1.NEF");
    assert_eq!(x.parent_dir().0 .0, "/raws/trip");
    assert_eq!(xmp("/").try_parent_dir(), None);
}

#[test]
fn preview_parts() {
    let p = preview("/jpgs/trip/DSC_1.jpg");
    let source = SourceDir(Dir("/raws/trip".to_string()));
    assert_eq!(p.xmp_path(&source).0, "/raws/trip/DSC_1.NEF.xmp");
    assert_eq!(p.dir().0 .0, "/jpgs/trip");
    assert_eq!(p.file_stem(), "DSC_1");
    assert_eq!(preview("/").try_dir(), None);
    assert_eq!(preview("/").try_file_stem(), None);
}

#[test]
fn entries_by_extension() {
    assert_eq!(XmpFile::try_from_path("/a/b.NEF.xmp".to_string()), Ok(xmp("/a/b.NEF.xmp")));
    assert_eq!(XmpFile::try_from_path("/a/b.NEF".to_string()), Err(NotAnXmpFile));
    assert_eq!(PreviewFile::try_from_path("/a/b.jpg".to_string()), Ok(preview("/a/b.jpg")));
    assert_eq!(PreviewFile::try_from_path("/a/b.JPG".to_string()), Err(NotAPreviewFile));
}

#[test]
fn ready_made_pictures_need_no_export() {
    assert!(InputFile("/a/b.jpg".to_string()).needs_no_export());
    assert!(InputFile("/a/b.JPEG".to_string()).needs_no_export());
    assert!(InputFile("/a/b.Png".to_string()).needs_no_export());
    assert!(InputFile("/a/b.gif".to_string()).needs_no_export());
    assert!(!InputFile("/a/b.NEF".to_string()).needs_no_export());
    assert_eq!(InputFile("/a/b".to_string()).try_needs_no_export(), None);
}

#[test]
fn target_dirs_under_the_root() {
    let base = BaseTargetDir(TargetDir(Dir("/jpgs".to_string())));
    let dir = TargetDir::try_new("/jpgs/2024/trip", &base).unwrap();
    assert_eq!(dir.relative_to_base(&base), "2024/trip");
    assert_eq!(TargetDir::try_new("/raws/2024", &base), Err(NotBaseSubDir));
    assert_eq!(TargetDir(Dir("/other".to_string())).try_relative_to_base(&base), None);
    assert!(dir.same_as(&TargetDir(Dir("/jpgs/2024/trip".to_string()))));
}

#[test]
fn subdirs() {
    let name = DirName("trip".to_string());
    let base = BaseSourceDir(SourceDir(Dir("/raws".to_string())));
    assert_eq!(base.subdir(&name).0 .0, "/raws/trip");
    let target = BaseTargetDir(TargetDir(Dir("/jpgs".to_string())));
    assert_eq!(target.subdir(&name).0 .0, "/jpgs/trip");
    assert_eq!(target.0.subdir(&name).subdir(&name).0 .0, "/jpgs/trip/trip");
}

#[test]
fn permission_bits() {
    let meta = FileMeta { is_file: true, is_dir: false, mode: 0o640, uid: 10, gid: 20 };
    assert!(meta.user_can_read(10));
    assert!(meta.user_can_write(10));
    assert!(!meta.user_can_read(11));
    assert!(meta.group_can_read(20));
    assert!(!meta.group_can_write(20));
    assert!(!meta.anyone_can_read());
    let open = FileMeta { mode: 0o666, ..meta };
    assert!(open.anyone_can_write());
    assert!(open.user_can_write(99));
    assert!(open.group_can_write(99));
}

#[test]
fn open_file_limit() {
    assert_eq!(file_handle_limit(1024), Some(1014));
    assert_eq!(file_handle_limit(10), Some(0));
    assert_eq!(file_handle_limit(9), None);
}
