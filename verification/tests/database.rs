use dark_sorter::database::{pack_for_storage, unpack_stored, Db, LoadDbError, OpenSharedError};
use dark_sorter::fs::XmpFile;
use dark_sorter::xmp::EditHash;

fn path(p: &str) -> XmpFile {
    XmpFile(p.to_string())
}

#[test]
fn read_gives_back_the_write() {
    let mut db = Db::new();
    assert_eq!(db.get(&path("/a.xmp")), None);
    db.insert(path("/a.xmp"), EditHash(1));
    db.insert(path("/b.xmp"), EditHash(2));
    db.insert(path("/a.xmp"), EditHash(3));
    assert_eq!(db.get(&path("/a.xmp")), Some(EditHash(3)));
    assert_eq!(db.get(&path("/b.xmp")), Some(EditHash(2)));
    assert_eq!(db.get(&path("/c.xmp")), None);
}

#[test]
fn pairs_round_trip() {
    let db = Db::from_pairs(vec![
        (path("/a.xmp"), EditHash(1)),
        (path("/b.xmp"), EditHash(2)),
        (path("/a.xmp"), EditHash(5)),
    ]);
    let pairs = db.to_pairs();
    assert_eq!(pairs.len(), 2);
    let again = Db::from_pairs(pairs);
    assert_eq!(again.get(&path("/a.xmp")), Some(EditHash(5)));
    assert_eq!(again.get(&path("/b.xmp")), Some(EditHash(2)));
    assert_eq!(Db::default().to_pairs(), Vec::new());
}

#[test]
fn stored_contents_unpack_to_what_was_packed() {
    let serialized = b"some serialized record \x00\x01\x02".to_vec();
    let packed = pack_for_storage(&serialized).unwrap();
    assert_ne!(packed, serialized);
    assert_eq!(unpack_stored(&packed).unwrap(), serialized);
}

#[test]
fn garbage_does_not_unpack() {
    assert!(matches!(unpack_stored(b"not zlib at all"), Err(LoadDbError::DeserComprr(_))));
}

#[test]
fn missing_file_is_not_found() {
    let missing = OpenSharedError::IoOpening { not_found: true, message: "gone".to_string() };
    assert!(matches!(LoadDbError::from_open_error(missing), LoadDbError::NotFound));
    let denied = OpenSharedError::IoOpening { not_found: false, message: "denied".to_string() };
    assert!(matches!(
        LoadDbError::from_open_error(denied),
        LoadDbError::Opening(OpenSharedError::IoOpening { not_found: false, .. })
    ));
    assert!(matches!(
        LoadDbError::from_open_error(OpenSharedError::TimedOut),
        LoadDbError::Opening(OpenSharedError::TimedOut)
    ));
}

#[test]
fn a_path_is_found_however_spelled() {
    let mut db = Db::new();
    db.insert(path("/s//trip/./a.xmp"), EditHash(7));
    assert_eq!(db.get(&path("/s/trip/a.xmp")), Some(EditHash(7)));
    db.insert(path("/s/trip/a.xmp"), EditHash(8));
    assert_eq!(db.get(&path("/s//trip/a.xmp")), Some(EditHash(8)));
    assert_eq!(db.to_pairs().len(), 1);
}
