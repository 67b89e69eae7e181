//! Which edits each preview was exported with, so that a preview is exported
//! again when its edits change.
use vstd::prelude::*;

use crate::fs::{path_normal, XmpFile};
use crate::path_map::{distinct_paths, normal_keys, pairs_map, PathMap};
use crate::xmp::EditHash;

verus! {

/// The record of exported previews: for each sidecar (by path) the
/// fingerprint of the edits its preview was made with.
#[derive(Debug)]
pub struct Db {
    map: PathMap<EditHash>,
}

/// What a lookup of `path` in a record gives.
pub open spec fn lookup(m: Map<Seq<char>, EditHash>, path: Seq<char>) -> Option<EditHash> {
    if m.contains_key(path) {
        Some(m[path])
    } else {
        None
    }
}

/// The record a list of pairs gives when recorded in order, each path by its
/// normal form.
pub open spec fn record_of(pairs: Seq<(XmpFile, EditHash)>) -> Map<Seq<char>, EditHash>
    decreases pairs.len(),
{
    if pairs.len() == 0 {
        Map::empty()
    } else {
        record_of(pairs.drop_last()).insert(path_normal(pairs.last().0.0@), pairs.last().1)
    }
}

impl Db {
    /// The record as a map from sidecar path to fingerprint.
    pub closed spec fn view(&self) -> Map<Seq<char>, EditHash> {
        self.map.view()
    }

    pub closed spec fn wf(&self) -> bool {
        self.map.wf()
    }

    /// An empty record.
    pub fn new() -> (r: Db)
        ensures
            r.wf(),
            r.view() == Map::<Seq<char>, EditHash>::empty(),
    {
        Db { map: PathMap::new() }
    }

    /// The fingerprint recorded for `path` (or for another spelling of it).
    pub fn get(&self, path: &XmpFile) -> (r: Option<EditHash>)
        requires
            self.wf(),
        ensures
            r == lookup(self.view(), path_normal(path.0@)),
    {
        match self.map.get(path.0.as_str()) {
            Some(h) => Some(*h),
            None => None,
        }
    }

    /// Records `hash` for `path`, replacing what was recorded for it.
    pub fn insert(&mut self, path: XmpFile, hash: EditHash)
        requires
            old(self).wf(),
        ensures
            final(self).wf(),
            final(self).view() == old(self).view().insert(path_normal(path.0@), hash),
    {
        self.map.insert(path.0, hash);
    }

    /// A record holding the given pairs; a later pair for the same path wins.
    pub fn from_pairs(pairs: Vec<(XmpFile, EditHash)>) -> (r: Db)
        ensures
            r.wf(),
            r.view() == record_of(pairs@),
    {
        let mut db = Db::new();
        let mut i: usize = 0;
        while i < pairs.len()
            invariant
                i <= pairs@.len(),
                db.wf(),
                db.view() == record_of(pairs@.take(i as int)),
            decreases pairs.len() - i,
        {
            let path = XmpFile(pairs[i].0.0.clone());
            let hash = pairs[i].1;
            proof {
                assert(pairs@.take(i + 1).drop_last() =~= pairs@.take(i as int));
            }
            db.insert(path, hash);
            i += 1;
        }
        assert(pairs@.take(pairs@.len() as int) =~= pairs@);
        db
    }

    /// The recorded pairs, each path once (in normal form).
    pub fn to_pairs(&self) -> (r: Vec<(XmpFile, EditHash)>)
        requires
            self.wf(),
        ensures
            record_of(r@) == self.view(),
            forall|i: int, j: int| 0 <= i < j < r@.len() ==> #[trigger] r@[i].0.0@ != #[trigger] r@[j].0.0@,
            forall|i: int| 0 <= i < r@.len() ==> path_normal(#[trigger] r@[i].0.0@) == r@[i].0.0@,
    {
        let entries = self.map.entries();
        let mut out: Vec<(XmpFile, EditHash)> = Vec::new();
        let mut i: usize = 0;
        while i < entries.len()
            invariant
                i <= entries@.len(),
                normal_keys(entries@),
                distinct_paths(entries@),
                out@.len() == i,
                forall|j: int| 0 <= j < i ==> #[trigger] out@[j].0.0 == entries@[j].0 && out@[j].1 == entries@[j].1,
                record_of(out@) == pairs_map(entries@.take(i as int)),
            decreases entries.len() - i,
        {
            let ghost before = out@;
            out.push((XmpFile(entries[i].0.clone()), entries[i].1));
            proof {
                assert(out@.drop_last() =~= before);
                assert(entries@.take(i + 1).drop_last() =~= entries@.take(i as int));
                assert(path_normal(entries@[i as int].0@) == entries@[i as int].0@);
            }
            i += 1;
        }
        assert(entries@.take(entries@.len() as int) =~= entries@);
        assert forall|a: int, b: int| 0 <= a < b < out@.len() implies #[trigger] out@[a].0.0@ != #[trigger] out@[b].0.0@ by {
            assert(out@[a].0.0 == entries@[a].0);
            assert(out@[b].0.0 == entries@[b].0);
        }
        assert forall|a: int| 0 <= a < out@.len() implies path_normal(#[trigger] out@[a].0.0@) == out@[a].0.0@ by {
            assert(out@[a].0.0 == entries@[a].0);
        }
        out
    }
}

impl Default for Db {
    fn default() -> (r: Self)
        ensures
            r.wf(),
            r.view() == Map::<Seq<char>, EditHash>::empty(),
    {
        Db::new()
    }
}

/// Reading back a write: after recording `hash` for `path`, a lookup of
/// `path`, however spelled, gives `hash`, and a lookup of any path that names
/// another file gives what it gave before.
pub proof fn law_lookup_after_insert(m: Map<Seq<char>, EditHash>, path: Seq<char>, hash: EditHash, other: Seq<char>)
    ensures
        lookup(m.insert(path_normal(path), hash), path_normal(path)) == Some(hash),
        path_normal(other) != path_normal(path) ==> lookup(m.insert(path_normal(path), hash), path_normal(other))
            == lookup(m, path_normal(other)),
{
}

/// Why the db file could not be opened.
#[derive(Debug)]
pub enum OpenSharedError {
    /// Some process is holding an exclusive lock to the file.
    TimedOut,
    /// Io error while opening the file.
    IoOpening { not_found: bool, message: String },
    /// Io error prevented figuring out the lock state.
    IoLocking(String),
}

/// Why the db could not be loaded.
#[derive(Debug)]
pub enum LoadDbError {
    /// Could not get path for user data dir.
    GetDataPath,
    /// Db file not found.
    NotFound,
    /// Io error opening file.
    Opening(OpenSharedError),
    /// Could not deserialize compressed.
    DeserComprr(String),
}

impl LoadDbError {
    /// A missing file is `NotFound`; any other failure to open stays as it is.
    pub fn from_open_error(e: OpenSharedError) -> (r: LoadDbError)
        ensures
            (e matches OpenSharedError::IoOpening { not_found: true, .. }) ==> r is NotFound,
            !(e matches OpenSharedError::IoOpening { not_found: true, .. }) ==> r == LoadDbError::Opening(e),
    {
        match e {
            OpenSharedError::IoOpening { not_found: true, message } => LoadDbError::NotFound,
            other => LoadDbError::Opening(other),
        }
    }
}

#[verifier::external_type_specification]
#[verifier::external_body]
pub struct ExIoError(std::io::Error);

/// What zlib decompression of `data` gives (`None`: not a zlib stream).
pub uninterp spec fn zlib_decompressed(data: Seq<u8>) -> Option<Seq<u8>>;

/// What zlib compression at the best level gives for `data`.
pub uninterp spec fn zlib_compressed_best(data: Seq<u8>) -> Seq<u8>;

/// Calls `flate2::read::ZlibDecoder` and reads it to the end.
#[verifier::external_body]
fn inflate(data: &[u8]) -> (r: Result<Vec<u8>, std::io::Error>)
    ensures
        r is Ok <==> zlib_decompressed(data@) is Some,
        r matches Ok(v) ==> v@ == zlib_decompressed(data@)->0,
{
    let mut out = Vec::new();
    std::io::Read::read_to_end(&mut flate2::read::ZlibDecoder::new(data), &mut out).map(|_| out)
}

/// Calls `flate2::read::ZlibEncoder` at `Compression::best()` and reads it to
/// the end. Reading from a slice into a `Vec` cannot fail: flate2's read
/// loop only reports an error when the compressor does, and miniz_oxide's
/// `deflate` does so only for bad parameters or a failed output callback,
/// neither of which this use has. zlib is lossless: decompressing the stream
/// gives `data` back.
#[verifier::external_body]
fn deflate_best(data: &[u8]) -> (r: Result<Vec<u8>, std::io::Error>)
    ensures
        r is Ok,
        r matches Ok(v) ==> v@ == zlib_compressed_best(data@),
        r matches Ok(v) ==> zlib_decompressed(v@) == Some(data@),
{
    let mut out = Vec::new();
    let mut encoder = flate2::read::ZlibEncoder::new(data, flate2::Compression::best());
    std::io::Read::read_to_end(&mut encoder, &mut out).map(|_| out)
}

/// The serialized record held in the compressed contents of the db file.
pub fn unpack_stored(contents: &[u8]) -> (r: Result<Vec<u8>, LoadDbError>)
    ensures
        zlib_decompressed(contents@) is Some ==> (r matches Ok(v) && v@ == zlib_decompressed(contents@)->0),
        zlib_decompressed(contents@) is None ==> (r matches Err(LoadDbError::DeserComprr(m)) && m@.len() == 0),
{
    match inflate(contents) {
        Ok(v) => Ok(v),
        Err(_) => Err(LoadDbError::DeserComprr(String::new())),
    }
}

/// The contents of the db file for a serialized record: zlib at the best level
/// (zlib has no checksum to spare; corruption only means a new export).
pub fn pack_for_storage(serialized: &[u8]) -> (r: Option<Vec<u8>>)
    ensures
        r is Some,
        r matches Some(v) ==> v@ == zlib_compressed_best(serialized@),
        r matches Some(v) ==> zlib_decompressed(v@) == Some(serialized@),
{
    match deflate_best(serialized) {
        Ok(v) => Some(v),
        Err(_) => None,
    }
}

} // verus!
