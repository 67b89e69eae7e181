//! Keeping Immich in step with the target tree: one external library per
//! directory of previews, scanned a while after previews change.
pub mod client;

use vstd::prelude::*;
use vstd::string::*;
use itertools::Itertools;

use crate::fs::{path_normal, path_strip_prefix, BaseTargetDir, Dir, PreviewFile, TargetDir};
use crate::immich::client::{Library, LibraryId, UserId};
use crate::path_map::PathMap;

verus! {

/// The prefix of the names of the libraries this crate manages (`z` sorts
/// them to the bottom of alphabetical lists).
pub open spec fn managed_prefix() -> Seq<char> {
    "z-dark-sorter:/"@
}

/// The name of the library for `dir`: the prefix and the path relative to the
/// target root.
pub fn lib_name_for_dir(dir: &TargetDir, base: &BaseTargetDir) -> (r: String)
    requires
        path_strip_prefix(dir.0.0@, base.0.0.0@) is Some,
    ensures
        r@ == managed_prefix() + path_strip_prefix(dir.0.0@, base.0.0.0@)->0,
{
    let relative = dir.relative_to_base(base);
    let mut name = String::from_str("z-dark-sorter:/");
    name.append(relative.as_str());
    name
}

/// [`lib_name_for_dir`], `None` when `dir` is not inside the target root.
pub fn try_lib_name_for_dir(dir: &TargetDir, base: &BaseTargetDir) -> (r: Option<String>)
    ensures
        path_strip_prefix(dir.0.0@, base.0.0.0@) is None ==> r is None,
        path_strip_prefix(dir.0.0@, base.0.0.0@) is Some ==> (r matches Some(n) && n@ == managed_prefix()
            + path_strip_prefix(dir.0.0@, base.0.0.0@)->0),
{
    match dir.try_relative_to_base(base) {
        Some(_) => Some(lib_name_for_dir(dir, base)),
        None => None,
    }
}


/// Whether a sync that lost events should rescan: it lost some and its queue
/// is more than half empty again.
pub fn rescan_due(overflown: bool, capacity: usize, max_capacity: usize) -> (r: bool)
    ensures
        r == (overflown && capacity > max_capacity / 2),
{
    overflown && capacity > max_capacity / 2
}

/// How handing an event to the sync went.
#[derive(Debug, Clone, Copy, PartialEq, Eq, Structural)]
pub enum SendResult {
    Sent,
    Full,
    Closed,
}

/// What follows handing an event to the sync.
#[derive(Debug, Clone, Copy, PartialEq, Eq, Structural)]
pub enum SignalFollowUp {
    Nothing,
    /// The queue was full: remember to rescan.
    MarkOverflow,
    /// The sync stopped: report why.
    ReportStopped,
}

pub fn signal_follow_up(r: SendResult) -> (f: SignalFollowUp)
    ensures
        r == SendResult::Sent ==> f == SignalFollowUp::Nothing,
        r == SendResult::Full ==> f == SignalFollowUp::MarkOverflow,
        r == SendResult::Closed ==> f == SignalFollowUp::ReportStopped,
{
    match r {
        SendResult::Sent => SignalFollowUp::Nothing,
        SendResult::Full => SignalFollowUp::MarkOverflow,
        SendResult::Closed => SignalFollowUp::ReportStopped,
    }
}

/// A library this crate manages.
#[derive(Debug, Clone)]
pub struct ManagedLibrary {
    pub id: LibraryId,
    /// The directory Immich imports.
    pub import_path: TargetDir,
    /// When a scan was last asked for (milliseconds).
    pub last_scanned: Option<u64>,
}

/// Whether an Immich library is one of ours: owned by `owner`, named with the
/// managed prefix, and importing a directory under the target root.
pub open spec fn is_managed(lib: Library, owner: Seq<char>, base: Seq<char>) -> bool {
    &&& lib.owner_id.0@ == owner
    &&& lib.import_paths@.len() > 0
    &&& crate::fs::path_starts_with(lib.import_paths@[0]@, base)
    &&& managed_prefix().len() <= lib.name@.len()
    &&& lib.name@.subrange(0, managed_prefix().len() as int) == managed_prefix()
}

/// The id and import path of each managed library among `libs`, in order.
pub open spec fn managed_entries(libs: Seq<Library>, owner: Seq<char>, base: Seq<char>) -> Seq<(LibraryId, Seq<char>)>
    decreases libs.len(),
{
    if libs.len() == 0 {
        Seq::empty()
    } else {
        let rest = managed_entries(libs.drop_last(), owner, base);
        if is_managed(libs.last(), owner, base) {
            rest.push((libs.last().id, libs.last().import_paths@[0]@))
        } else {
            rest
        }
    }
}

/// The id and import path of each library of `libs`.
pub open spec fn entries_of(libs: Seq<ManagedLibrary>) -> Seq<(LibraryId, Seq<char>)> {
    libs.map_values(|m: ManagedLibrary| (m.id, m.import_path.0.0@))
}

/// `lib` as a managed library when it is one of ours.
pub fn managed_library(lib: &Library, owner: &UserId, base: &BaseTargetDir) -> (r: Option<ManagedLibrary>)
    ensures
        is_managed(*lib, owner.0@, base.0.0.0@) ==> (r matches Some(m) && m.id == lib.id
            && m.import_path.0.0@ == lib.import_paths@[0]@ && m.last_scanned is None),
        !is_managed(*lib, owner.0@, base.0.0.0@) ==> r is None,
{
    proof {
        reveal_strlit("z-dark-sorter:/");
    }
    if lib.owner_id.same_as(owner) && lib.import_paths.len() > 0 && crate::text::str_starts_with(
        lib.name.as_str(),
        "z-dark-sorter:/",
    ) {
        match TargetDir::try_new(lib.import_paths[0].as_str(), base) {
            Ok(dir) => Some(ManagedLibrary { id: LibraryId(lib.id.0.clone()), import_path: dir, last_scanned: None }),
            Err(_) => None,
        }
    } else {
        None
    }
}

/// The managed libraries among the libraries Immich lists, in order.
pub fn managed_libraries(libs: Vec<Library>, owner: &UserId, base: &BaseTargetDir) -> (r: Vec<ManagedLibrary>)
    ensures
        entries_of(r@) == managed_entries(libs@, owner.0@, base.0.0.0@),
        forall|i: int| 0 <= i < r@.len() ==> (#[trigger] r@[i]).last_scanned is None,
{
    let mut out: Vec<ManagedLibrary> = Vec::new();
    let mut j: usize = 0;
    while j < libs.len()
        invariant
            j <= libs@.len(),
            entries_of(out@) == managed_entries(libs@.take(j as int), owner.0@, base.0.0.0@),
            forall|i: int| 0 <= i < out@.len() ==> (#[trigger] out@[i]).last_scanned is None,
        decreases libs.len() - j,
    {
        let ghost before = out@;
        assert(libs@.take(j + 1).drop_last() =~= libs@.take(j as int));
        assert(libs@.take(j + 1).last() == libs@[j as int]);
        match managed_library(&libs[j], owner, base) {
            Some(m) => {
                out.push(m);
                assert(entries_of(out@) =~= entries_of(before).push((m.id, m.import_path.0.0@)));
            },
            None => {},
        }
        j += 1;
    }
    assert(libs@.take(j as int) =~= libs@);
    out
}

/// A scan of a library that waits for its time to come.
#[derive(Debug, Clone)]
pub struct PendingScan {
    /// When the scan is due (milliseconds).
    pub triggers_at: u64,
    pub library_id: LibraryId,
    /// The previews that changed since the scan was asked for.
    pub paths: Vec<PreviewFile>,
}

/// Calls `Itertools::position_min_by_key` on the due times: the position of
/// the earliest due scan, the first of equally early ones.
#[verifier::external_body]
fn position_of_earliest(scans: &Vec<PendingScan>) -> (r: Option<usize>)
    ensures
        r is None <==> scans@.len() == 0,
        r matches Some(i) ==> i < scans@.len() && (forall|j: int|
            0 <= j < scans@.len() ==> scans@[i as int].triggers_at <= #[trigger] scans@[j].triggers_at)
            && (forall|j: int| 0 <= j < i ==> scans@[i as int].triggers_at < #[trigger] scans@[j].triggers_at),
{
    scans.iter().position_min_by_key(|ps| ps.triggers_at)
}

/// Each library has at most one pending scan.
pub open spec fn one_scan_per_library(pending: Seq<PendingScan>) -> bool {
    forall|i: int, j: int| 0 <= i < j < pending.len() ==> #[trigger] pending[i].library_id.0@ != #[trigger] pending[j].library_id.0@
}

/// The delay before a library is scanned: none when its last scan is over
/// thirty seconds ago, thirty seconds otherwise.
pub open spec fn scan_delay(last_scanned: Option<u64>, now: u64) -> u64 {
    match last_scanned {
        Some(t) => if t <= now && (now - t) / 1000 > 30 {
            0
        } else {
            30000
        },
        None => 30000,
    }
}

/// `after` is `before` with `file` added to the paths of the scan at `i`.
pub open spec fn path_added(before: Seq<PendingScan>, after: Seq<PendingScan>, i: int, file: PreviewFile) -> bool {
    &&& after.len() == before.len()
    &&& forall|j: int| 0 <= j < after.len() && j != i ==> #[trigger] after[j] == before[j]
    &&& after[i].triggers_at == before[i].triggers_at
    &&& after[i].library_id == before[i].library_id
    &&& after[i].paths@ == before[i].paths@.push(file)
}

/// How the waiting scans change when `file` of library `lib` is added at
/// `now`: a scan already waiting for the library takes the file along;
/// otherwise a new one, due after [`scan_delay`], is put last.
pub open spec fn scan_for_added(
    before: Seq<PendingScan>,
    after: Seq<PendingScan>,
    lib: ManagedLibrary,
    file: PreviewFile,
    now: u64,
) -> bool {
    let id = lib.id;
    if exists|i: int| 0 <= i < before.len() && #[trigger] before[i].library_id.0@ == id.0@ {
        let i = choose|i: int| 0 <= i < before.len() && #[trigger] before[i].library_id.0@ == id.0@;
        path_added(before, after, i, file)
    } else {
        &&& after.len() == before.len() + 1
        &&& after.drop_last() == before
        &&& after.last().library_id == id
        &&& after.last().paths@ == seq![file]
        &&& after.last().triggers_at == now + scan_delay(lib.last_scanned, now)
    }
}

/// The libraries of `libs` by the directory they import (in normal form); a
/// later one for the same directory replaces an earlier one.
pub open spec fn libs_by_dir(libs: Seq<ManagedLibrary>) -> Map<Seq<char>, ManagedLibrary>
    decreases libs.len(),
{
    if libs.len() == 0 {
        Map::empty()
    } else {
        libs_by_dir(libs.drop_last()).insert(path_normal(libs.last().import_path.0.0@), libs.last())
    }
}

/// The state of the sync: the managed libraries by imported directory and the
/// scans that wait for their time.
#[derive(Debug)]
pub struct SyncState {
    libs: PathMap<ManagedLibrary>,
    pending: Vec<PendingScan>,
}

impl ManagedLibrary {
    /// A field-by-field copy.
    pub fn copy(&self) -> (r: ManagedLibrary)
        ensures
            r == *self,
    {
        ManagedLibrary {
            id: LibraryId(self.id.0.clone()),
            import_path: TargetDir(Dir(self.import_path.0.0.clone())),
            last_scanned: self.last_scanned,
        }
    }

    /// The library Immich created for `dir`, managed from now on. Immich
    /// must have taken `dir` as the library's first import path.
    pub fn adopt_created(lib: Library, dir: TargetDir) -> (r: ManagedLibrary)
        requires
            lib.import_paths@.len() > 0,
            lib.import_paths@[0]@ == dir.0.0@,
        ensures
            r.id == lib.id,
            r.import_path == dir,
            r.last_scanned is None,
    {
        ManagedLibrary { id: lib.id, import_path: dir, last_scanned: None }
    }
}

/// Whether Immich took `dir` as the first import path of the library it
/// created for it.
pub fn created_for(lib: &Library, dir: &TargetDir) -> (r: bool)
    ensures
        r == (lib.import_paths@.len() > 0 && lib.import_paths@[0]@ == dir.0.0@),
{
    lib.import_paths.len() > 0 && crate::text::str_eq(lib.import_paths[0].as_str(), dir.0.0.as_str())
}

impl SyncState {
    pub closed spec fn libs(&self) -> Map<Seq<char>, ManagedLibrary> {
        self.libs.view()
    }

    pub closed spec fn pending(&self) -> Seq<PendingScan> {
        self.pending@
    }

    /// Libraries are held by their directory, and no library waits for two scans.
    pub closed spec fn wf(&self) -> bool {
        &&& self.libs.wf()
        &&& forall|k: Seq<char>| #[trigger] self.libs.view().contains_key(k) ==> path_normal(self.libs.view()[k].import_path.0.0@) == k
        &&& one_scan_per_library(self.pending@)
    }

    /// The sync state for the managed libraries found in Immich (a later
    /// library for the same directory replaces an earlier one).
    pub fn new(libs: Vec<ManagedLibrary>) -> (r: SyncState)
        ensures
            r.wf(),
            r.pending().len() == 0,
            r.libs() == libs_by_dir(libs@),
    {
        let mut map: PathMap<ManagedLibrary> = PathMap::new();
        let mut i: usize = 0;
        while i < libs.len()
            invariant
                i <= libs@.len(),
                map.wf(),
                map.view() == libs_by_dir(libs@.take(i as int)),
                forall|k: Seq<char>| #[trigger] map.view().contains_key(k) ==> path_normal(map.view()[k].import_path.0.0@) == k,
            decreases libs.len() - i,
        {
            let lib = libs[i].copy();
            let key = lib.import_path.0.0.clone();
            map.insert(key, lib);
            assert(libs@.take(i + 1).drop_last() =~= libs@.take(i as int));
            i += 1;
        }
        assert(libs@.take(i as int) =~= libs@);
        SyncState { libs: map, pending: Vec::new() }
    }

    /// The library managed for `dir`, if any.
    pub fn library_for(&self, dir: &TargetDir) -> (r: Option<LibraryId>)
        requires
            self.wf(),
        ensures
            self.libs().contains_key(path_normal(dir.0.0@)) ==> r == Some(self.libs()[path_normal(dir.0.0@)].id),
            !self.libs().contains_key(path_normal(dir.0.0@)) ==> r is None,
    {
        match self.libs.get(dir.0.0.as_str()) {
            Some(lib) => Some(LibraryId(lib.id.0.clone())),
            None => None,
        }
    }

    /// `dir` has no previews left: stop managing its library and give back
    /// its id, to be deleted in Immich.
    pub fn on_empty_dir(&mut self, dir: &TargetDir) -> (r: Option<LibraryId>)
        requires
            old(self).wf(),
        ensures
            final(self).wf(),
            final(self).libs() == old(self).libs().remove(path_normal(dir.0.0@)),
            final(self).pending() == old(self).pending(),
            old(self).libs().contains_key(path_normal(dir.0.0@)) ==> r == Some(old(self).libs()[path_normal(dir.0.0@)].id),
            !old(self).libs().contains_key(path_normal(dir.0.0@)) ==> r is None,
    {
        match self.libs.remove(dir.0.0.as_str()) {
            Some(lib) => Some(lib.id),
            None => None,
        }
    }

    /// Manage a library Immich created for its import path.
    pub fn add_library(&mut self, lib: ManagedLibrary)
        requires
            old(self).wf(),
        ensures
            final(self).wf(),
            final(self).libs() == old(self).libs().insert(path_normal(lib.import_path.0.0@), lib),
            final(self).pending() == old(self).pending(),
    {
        let key = lib.import_path.0.0.clone();
        self.libs.insert(key, lib);
    }

    /// The position of the pending scan of library `id`, if any.
    fn pending_position(&self, id: &LibraryId) -> (r: Option<usize>)
        ensures
            r matches Some(i) ==> i < self.pending@.len() && self.pending@[i as int].library_id.0@ == id.0@,
            r is None ==> forall|j: int| 0 <= j < self.pending@.len() ==> #[trigger] self.pending@[j].library_id.0@ != id.0@,
    {
        let mut i: usize = 0;
        while i < self.pending.len()
            invariant
                i <= self.pending@.len(),
                forall|j: int| 0 <= j < i ==> #[trigger] self.pending@[j].library_id.0@ != id.0@,
            decreases self.pending.len() - i,
        {
            if self.pending[i].library_id.same_as(id) {
                return Some(i);
            }
            i += 1;
        }
        None
    }

    /// [`Self::on_file_added`] where `dir` has a managed library; `false`,
    /// with nothing changed, where it has none.
    pub fn try_on_file_added(&mut self, file: PreviewFile, dir: &TargetDir, now: u64) -> (r: bool)
        requires
            old(self).wf(),
            now + 30000 <= u64::MAX,
        ensures
            final(self).wf(),
            r == old(self).libs().contains_key(path_normal(dir.0.0@)),
            !r ==> *final(self) == *old(self),
            r ==> final(self).libs() == old(self).libs() && scan_for_added(
                old(self).pending(),
                final(self).pending(),
                old(self).libs()[path_normal(dir.0.0@)],
                file,
                now,
            ),
    {
        match self.library_for(dir) {
            Some(_) => {
                self.on_file_added(file, dir, now);
                true
            },
            None => false,
        }
    }

    /// The preview `file` in `dir` was added or changed at `now`
    /// (milliseconds): the library of `dir` gets a scan. A scan already
    /// waiting for that library takes the file along; otherwise a new one is
    /// due after [`scan_delay`].
    pub fn on_file_added(&mut self, file: PreviewFile, dir: &TargetDir, now: u64)
        requires
            old(self).wf(),
            old(self).libs().contains_key(path_normal(dir.0.0@)),
            now + 30000 <= u64::MAX,
        ensures
            final(self).wf(),
            final(self).libs() == old(self).libs(),
            scan_for_added(old(self).pending(), final(self).pending(), old(self).libs()[path_normal(dir.0.0@)], file, now),
    {
        let ghost id_spec = self.libs()[path_normal(dir.0.0@)].id;
        let (id, last_scanned) = match self.libs.get(dir.0.0.as_str()) {
            Some(lib) => (LibraryId(lib.id.0.clone()), lib.last_scanned),
            None => {
                proof {
                    assert(false);
                }
                (LibraryId::zero(), None)
            },
        };
        let ghost old_pending = self.pending@;
        match self.pending_position(&id) {
            Some(i) => {
                let mut scan = self.pending.remove(i);
                scan.paths.push(file);
                self.pending.insert(i, scan);
                proof {
                    assert(path_added(old_pending, self.pending@, i as int, file));
                    assert forall|a: int, b: int| 0 <= a < b < self.pending@.len() implies #[trigger] self.pending@[a].library_id.0@
                        != #[trigger] self.pending@[b].library_id.0@ by {
                        assert(old_pending[a].library_id.0@ != old_pending[b].library_id.0@);
                    }
                    let c = choose|c: int| 0 <= c < old_pending.len() && #[trigger] old_pending[c].library_id.0@ == id_spec.0@;
                    if c != i {
                        if c < i {
                            assert(old_pending[c].library_id.0@ != old_pending[i as int].library_id.0@);
                        } else {
                            assert(old_pending[i as int].library_id.0@ != old_pending[c].library_id.0@);
                        }
                    }
                }
            },
            None => {
                let delay: u64 = match last_scanned {
                    Some(t) => if t <= now && (now - t) / 1000 > 30 {
                        0
                    } else {
                        30000
                    },
                    None => 30000,
                };
                let mut paths: Vec<PreviewFile> = Vec::new();
                paths.push(file);
                self.pending.push(PendingScan { triggers_at: now + delay, library_id: id, paths });
                proof {
                    assert(self.pending@.drop_last() =~= old_pending);
                    assert(paths@ =~= seq![file]);
                    assert forall|a: int, b: int| 0 <= a < b < self.pending@.len() implies #[trigger] self.pending@[a].library_id.0@
                        != #[trigger] self.pending@[b].library_id.0@ by {
                        if b == old_pending.len() {
                            assert(old_pending[a].library_id.0@ != id_spec.0@);
                        } else {
                            assert(old_pending[a].library_id.0@ != old_pending[b].library_id.0@);
                        }
                    }
                }
            },
        }
    }

    /// Takes the scan that is due first (the first of equally early ones)
    /// out of the waiting scans; `None` when none waits.
    pub fn take_next_pending(&mut self) -> (r: Option<PendingScan>)
        requires
            old(self).wf(),
        ensures
            final(self).wf(),
            final(self).libs() == old(self).libs(),
            old(self).pending().len() == 0 <==> r is None,
            old(self).pending().len() == 0 ==> final(self).pending() == old(self).pending(),
            r matches Some(p) ==> exists|i: int| #![trigger old(self).pending()[i]]
                0 <= i < old(self).pending().len()
                && p == old(self).pending()[i]
                && (forall|j: int| 0 <= j < old(self).pending().len() ==> p.triggers_at <= #[trigger] old(self).pending()[j].triggers_at)
                && (forall|j: int| 0 <= j < i ==> p.triggers_at < #[trigger] old(self).pending()[j].triggers_at)
                && final(self).pending() == old(self).pending().update(i, old(self).pending().last()).drop_last(),
    {
        let ghost old_pending = self.pending@;
        match position_of_earliest(&self.pending) {
            Some(i) => {
                let p = self.pending.swap_remove(i);
                proof {
                    let n = old_pending.len() as int;
                    let upd = old_pending.update(i as int, old_pending.last());
                    assert forall|a: int, b: int| 0 <= a < b < self.pending@.len() implies #[trigger] self.pending@[a].library_id.0@
                        != #[trigger] self.pending@[b].library_id.0@ by {
                        let oa = if a == i { n - 1 } else { a };
                        let ob = if b == i { n - 1 } else { b };
                        assert(self.pending@[a] == old_pending[oa]);
                        assert(self.pending@[b] == old_pending[ob]);
                        if oa < ob {
                            assert(old_pending[oa].library_id.0@ != old_pending[ob].library_id.0@);
                        } else {
                            assert(old_pending[ob].library_id.0@ != old_pending[oa].library_id.0@);
                        }
                    }
                    assert(old_pending[i as int] == p);
                    assert(self.pending@ == old_pending.update(i as int, old_pending.last()).drop_last());
                    assert(forall|j: int| 0 <= j < old_pending.len() ==> p.triggers_at <= #[trigger] old_pending[j].triggers_at);
                    assert(forall|j: int| 0 <= j < i ==> p.triggers_at < #[trigger] old_pending[j].triggers_at);
                    assert(old(self).pending()[i as int] == p);
                }
                Some(p)
            },
            None => None,
        }
    }
}

} // verus!
