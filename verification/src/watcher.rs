//! Reacting to file events: which events matter and what each one leads to.
//!
//! The whole filesystem that holds the photos is watched, so most events are
//! about other files; only sidecars inside the source tree are forwarded.
use vstd::prelude::*;

use crate::fs::{path_extension, path_normal, path_starts_with, BaseSourceDir, BaseTargetDir, TargetDir, XmpFile};
use crate::scan::preview::Change;
use crate::xmp::{Xmp, XmpError};

verus! {

#[derive(Debug, Clone, Copy, PartialEq, Eq, Structural)]
pub enum EventKind {
    FileModificationComplete,
    FileDeleted,
    FileMovedTo,
    FileMovedFrom,
}

/// A change to a sidecar.
#[derive(Debug, Clone, PartialEq, Eq)]
pub struct Event {
    pub xmp_file: XmpFile,
    pub kind: EventKind,
}

/// The bits of a file event mask that matter here.
#[derive(Debug, Clone, Copy, PartialEq, Eq, Structural)]
pub struct FanMask {
    pub close_write: bool,
    pub delete: bool,
    pub moved_from: bool,
    pub moved_to: bool,
}

/// The kinds to forward for an event mask, in this order: written, deleted,
/// moved away, moved here. A write or a move here counts only when the path
/// is a file now; a deletion or a move away counts whatever is at the path
/// (mostly nothing any more).
pub open spec fn spec_kinds(m: FanMask, is_file: bool) -> Seq<EventKind> {
    (if m.close_write && is_file { seq![EventKind::FileModificationComplete] } else { seq![] }) + (if m.delete {
        seq![EventKind::FileDeleted]
    } else {
        seq![]
    }) + (if m.moved_from { seq![EventKind::FileMovedFrom] } else { seq![] }) + (if m.moved_to && is_file {
        seq![EventKind::FileMovedTo]
    } else {
        seq![]
    })
}

/// Whether an event about `path` may concern a sidecar of the source tree:
/// it ends in `.xmp` and lies under the source root.
pub fn may_concern_sidecar(path: &str, dir: &BaseSourceDir) -> (r: bool)
    ensures
        r == (path_extension(path@) == Some("xmp"@) && path_starts_with(path@, dir.0.0.0@)),
{
    crate::fs::has_extension(path, "xmp") && crate::fs::starts_with(path, dir.0.0.0.as_str())
}

/// The events to forward for a file event about `path` (which is a file when
/// `is_file`): one per kind of [`spec_kinds`], for sidecars of the source
/// tree only.
pub fn events_to_forward(path: &str, dir: &BaseSourceDir, is_file: bool, mask: FanMask) -> (r: Vec<Event>)
    ensures
        !may_concern(path@, dir.0.0.0@) ==> r@.len() == 0,
        may_concern(path@, dir.0.0.0@) ==> r@.len() == spec_kinds(mask, is_file).len()
            && forall|i: int|
            0 <= i < r@.len() ==> #[trigger] r@[i].kind == spec_kinds(mask, is_file)[i] && r@[i].xmp_file.0@ == path@,
{
    let mut out: Vec<Event> = Vec::new();
    if !may_concern_sidecar(path, dir) {
        return out;
    }
    if mask.close_write && is_file {
        out.push(Event { xmp_file: XmpFile(path.to_owned()), kind: EventKind::FileModificationComplete });
    }
    if mask.delete {
        out.push(Event { xmp_file: XmpFile(path.to_owned()), kind: EventKind::FileDeleted });
    }
    if mask.moved_from {
        out.push(Event { xmp_file: XmpFile(path.to_owned()), kind: EventKind::FileMovedFrom });
    }
    if mask.moved_to && is_file {
        out.push(Event { xmp_file: XmpFile(path.to_owned()), kind: EventKind::FileMovedTo });
    }
    assert(out@.len() == spec_kinds(mask, is_file).len());
    out
}

pub open spec fn may_concern(path: Seq<char>, dir: Seq<char>) -> bool {
    path_extension(path) == Some("xmp"@) && path_starts_with(path, dir)
}

/// How handing an event on to the queue went.
#[derive(Debug, Clone, Copy, PartialEq, Eq, Structural)]
pub enum SendOutcome {
    Sent,
    /// The queue was full: the event is lost.
    Full,
    /// Nobody listens any more.
    Closed,
}

/// The receiving side is gone: stop watching.
#[derive(Debug, Clone, Copy, PartialEq, Eq)]
pub struct Exiting;

/// The first send that did not go through, if any.
pub open spec fn first_failure(sends: Seq<SendOutcome>) -> Option<SendOutcome>
    decreases sends.len(),
{
    if sends.len() == 0 {
        None
    } else if sends[0] != SendOutcome::Sent {
        Some(sends[0])
    } else {
        first_failure(sends.drop_first())
    }
}

/// What the watcher's overflow flag becomes after the events of one file
/// event were offered to the queue: `Exiting` when the first refused send
/// found the queue closed; overflown when a send found the queue full, the
/// kernel dropped events, or it was overflown already (a loss is kept until
/// the watcher is cleared, so that a rescan recovers it).
pub open spec fn spec_forward(sends: Seq<SendOutcome>, kernel_overflow: bool, overflown: bool) -> Result<bool, Exiting> {
    match first_failure(sends) {
        Some(SendOutcome::Closed) => Err(Exiting),
        Some(_) => Ok(true),
        None => Ok(overflown || kernel_overflow),
    }
}

/// See [`spec_forward`].
pub fn forward_outcome(sends: &Vec<SendOutcome>, kernel_overflow: bool, overflown: bool) -> (r: Result<bool, Exiting>)
    ensures
        r == spec_forward(sends@, kernel_overflow, overflown),
{
    let mut i: usize = 0;
    assert(sends@.skip(0) =~= sends@);
    while i < sends.len()
        invariant
            i <= sends@.len(),
            first_failure(sends@) == first_failure(sends@.skip(i as int)),
            forall|j: int| 0 <= j < i ==> sends@[j] == SendOutcome::Sent,
        decreases sends.len() - i,
    {
        proof {
            assert(sends@.skip(i as int).drop_first() =~= sends@.skip(i + 1));
        }
        match sends[i] {
            SendOutcome::Sent => {},
            SendOutcome::Full => return Ok(true),
            SendOutcome::Closed => return Err(Exiting),
        }
        i += 1;
    }
    proof {
        assert(sends@.skip(i as int).len() == 0);
    }
    Ok(overflown || kernel_overflow)
}

/// A loss is not forgotten: an overflown watcher stays overflown whatever
/// the next file event forwards, unless the queue is closed.
pub proof fn law_overflow_sticks(sends: Seq<SendOutcome>, kernel_overflow: bool)
    ensures
        spec_forward(sends, kernel_overflow, true) is Ok ==> spec_forward(sends, kernel_overflow, true)
            == Ok::<bool, Exiting>(true),
{
}

/// What an event asks for.
#[derive(Debug, Clone, Copy, PartialEq, Eq, Structural)]
pub enum EventAction {
    /// The sidecar went away: remove its preview.
    CleanUp,
    /// The sidecar was written (some tools move the new version over the old
    /// one): update its preview.
    Update,
}

/// Deletions and moves away clean up; writes and moves here update.
pub open spec fn event_action_of(kind: EventKind) -> EventAction {
    if kind == EventKind::FileDeleted || kind == EventKind::FileMovedFrom {
        EventAction::CleanUp
    } else {
        EventAction::Update
    }
}

pub fn event_action(kind: EventKind) -> (r: EventAction)
    ensures
        r == event_action_of(kind),
{
    match kind {
        EventKind::FileDeleted | EventKind::FileMovedFrom => EventAction::CleanUp,
        EventKind::FileModificationComplete | EventKind::FileMovedTo => EventAction::Update,
    }
}

/// What handling an event comes down to, once its sidecar was read.
#[derive(Debug)]
pub enum EventStep {
    /// The sidecar went away: remove its preview.
    CleanUp,
    /// The sidecar was written: update its preview from what it now holds.
    Update(Xmp),
    /// A written sidecar that is gone again (deleted before the event was
    /// handled): its own deletion event does the clean-up.
    Nothing,
}

/// What an event leads to, given what reading its sidecar gave. A deletion
/// or a move away cleans up whether the sidecar is still there or not found;
/// a write updates from the sidecar, and is nothing to do when it is not
/// found. Other read errors are passed on.
pub fn sidecar_for_event(kind: EventKind, read: Result<Xmp, XmpError>) -> (r: Result<EventStep, XmpError>)
    ensures
        match read {
            Err(XmpError::NotFound(_)) => r matches Ok(step) && (if event_action_of(kind) == EventAction::CleanUp {
                step is CleanUp
            } else {
                step is Nothing
            }),
            Err(e) => r == Err::<EventStep, XmpError>(e),
            Ok(x) => r matches Ok(step) && (if event_action_of(kind) == EventAction::CleanUp {
                step is CleanUp
            } else {
                step == EventStep::Update(x)
            }),
        },
{
    let action = event_action(kind);
    match read {
        Ok(x) => match action {
            EventAction::CleanUp => Ok(EventStep::CleanUp),
            EventAction::Update => Ok(EventStep::Update(x)),
        },
        Err(XmpError::NotFound(_)) => match action {
            EventAction::CleanUp => Ok(EventStep::CleanUp),
            EventAction::Update => Ok(EventStep::Nothing),
        },
        Err(e) => Err(e),
    }
}

/// Each kind is forwarded from its own mask bit alone, and at most once:
/// a write or a move here when its bit is set and the path is a file, a
/// deletion or a move away when its bit is set, whatever the other bits say.
pub proof fn law_kind_by_own_bit(m: FanMask, is_file: bool)
    ensures
        spec_kinds(m, is_file).contains(EventKind::FileModificationComplete) == (m.close_write && is_file),
        spec_kinds(m, is_file).contains(EventKind::FileDeleted) == m.delete,
        spec_kinds(m, is_file).contains(EventKind::FileMovedFrom) == m.moved_from,
        spec_kinds(m, is_file).contains(EventKind::FileMovedTo) == (m.moved_to && is_file),
        forall|i: int, j: int|
            0 <= i < j < spec_kinds(m, is_file).len() ==> #[trigger] spec_kinds(m, is_file)[i] != #[trigger] spec_kinds(
                m,
                is_file,
            )[j],
{
    let a: Seq<EventKind> = if m.close_write && is_file { seq![EventKind::FileModificationComplete] } else { seq![] };
    let b: Seq<EventKind> = if m.delete { seq![EventKind::FileDeleted] } else { seq![] };
    let c: Seq<EventKind> = if m.moved_from { seq![EventKind::FileMovedFrom] } else { seq![] };
    let d: Seq<EventKind> = if m.moved_to && is_file { seq![EventKind::FileMovedTo] } else { seq![] };
    let k = spec_kinds(m, is_file);
    assert(k =~= a + b + c + d);
    let rank = |e: EventKind| match e {
        EventKind::FileModificationComplete => 0int,
        EventKind::FileDeleted => 1int,
        EventKind::FileMovedFrom => 2int,
        EventKind::FileMovedTo => 3int,
    };
    assert forall|i: int| 0 <= i < k.len() implies (#[trigger] k[i] == EventKind::FileModificationComplete ==> m.close_write
        && is_file) && (k[i] == EventKind::FileDeleted ==> m.delete) && (k[i] == EventKind::FileMovedFrom ==> m.moved_from)
        && (k[i] == EventKind::FileMovedTo ==> m.moved_to && is_file) by {
        if i < a.len() {
            assert(k[i] == a[i]);
        } else if i < a.len() + b.len() {
            assert(k[i] == b[i - a.len()]);
        } else if i < a.len() + b.len() + c.len() {
            assert(k[i] == c[i - a.len() - b.len()]);
        } else {
            assert(k[i] == d[i - a.len() - b.len() - c.len()]);
        }
    }
    assert forall|i: int, j: int| 0 <= i < j < k.len() implies #[trigger] k[i] != #[trigger] k[j] by {
        assert forall|x: int, y: int| 0 <= x < y < k.len() implies rank(k[x]) < rank(k[y]) by {
            if x < a.len() {
                assert(k[x] == a[x]);
            } else if x < a.len() + b.len() {
                assert(k[x] == b[x - a.len()]);
            } else if x < a.len() + b.len() + c.len() {
                assert(k[x] == c[x - a.len() - b.len()]);
            } else {
                assert(k[x] == d[x - a.len() - b.len() - c.len()]);
            }
            if y < a.len() {
                assert(k[y] == a[y]);
            } else if y < a.len() + b.len() {
                assert(k[y] == b[y - a.len()]);
            } else if y < a.len() + b.len() + c.len() {
                assert(k[y] == c[y - a.len() - b.len()]);
            } else {
                assert(k[y] == d[y - a.len() - b.len() - c.len()]);
            }
        }
        assert(rank(k[i]) < rank(k[j]));
    }
    if m.close_write && is_file {
        assert(k[0] == EventKind::FileModificationComplete);
    }
    if m.delete {
        assert(k[a.len() as int] == EventKind::FileDeleted);
    }
    if m.moved_from {
        assert(k[(a.len() + b.len()) as int] == EventKind::FileMovedFrom);
    }
    if m.moved_to && is_file {
        assert(k[(a.len() + b.len() + c.len()) as int] == EventKind::FileMovedTo);
    }
}

/// A deleted or moved-away sidecar is forwarded whatever is left at its path,
/// and its event cleans up the preview, also when the sidecar is not found.
pub proof fn law_removal_cleans_up(m: FanMask, is_file: bool, kind: EventKind)
    requires
        kind == EventKind::FileDeleted && m.delete || kind == EventKind::FileMovedFrom && m.moved_from,
    ensures
        spec_kinds(m, is_file).contains(kind),
        event_action_of(kind) == EventAction::CleanUp,
{
    let k = spec_kinds(m, is_file);
    let a: Seq<EventKind> = if m.close_write && is_file { seq![EventKind::FileModificationComplete] } else { seq![] };
    if kind == EventKind::FileDeleted {
        assert(k[a.len() as int] == kind);
    } else {
        let b: Seq<EventKind> = if m.delete { seq![EventKind::FileDeleted] } else { seq![] };
        assert(k[(a.len() + b.len()) as int] == kind);
    }
}

/// What follows a handled event, by the change it made.
#[derive(Debug, Clone, Copy, PartialEq, Eq, Structural)]
pub enum AfterChange {
    /// A preview was added: Immich hears the directory is not empty.
    MarkDirNotEmpty,
    /// A preview was removed: check whether the directory has previews left.
    CheckDirEmpty,
    Nothing,
}

pub fn after_change(change: Change) -> (r: AfterChange)
    ensures
        change == Change::Added ==> r == AfterChange::MarkDirNotEmpty,
        change == Change::Removed ==> r == AfterChange::CheckDirEmpty,
        change == Change::Unchanged ==> r == AfterChange::Nothing,
{
    match change {
        Change::Added => AfterChange::MarkDirNotEmpty,
        Change::Removed => AfterChange::CheckDirEmpty,
        Change::Unchanged => AfterChange::Nothing,
    }
}

/// What happens to a directory whose last preview was removed.
#[derive(Debug, Clone, Copy, PartialEq, Eq, Structural)]
pub struct EmptyDirPlan {
    /// Remove the directory (never the target root).
    pub remove_dir: bool,
    /// Tell Immich the directory is empty.
    pub mark_empty: bool,
}

pub fn when_preview_removed(no_previews_left: bool, dir: &TargetDir, base: &BaseTargetDir) -> (r: EmptyDirPlan)
    ensures
        no_previews_left ==> r == (EmptyDirPlan { remove_dir: path_normal(dir.0.0@) != path_normal(base.0.0.0@), mark_empty: true }),
        !no_previews_left ==> r == (EmptyDirPlan { remove_dir: false, mark_empty: false }),
{
    if no_previews_left {
        EmptyDirPlan { remove_dir: !dir.same_as(&base.0), mark_empty: true }
    } else {
        EmptyDirPlan { remove_dir: false, mark_empty: false }
    }
}

/// Turning an error that is expected into a value.
pub trait ResultExt<T, E>: Sized {
    /// An error for which `filter` holds becomes `Ok(val)`; other results
    /// stay as they are.
    fn ignore_err_if<F: FnOnce(&E) -> bool>(self, filter: F, val: T) -> (r: Self)
        requires
            forall|e: &E| filter.requires((e,)),
    ;
}

impl<T, E> ResultExt<T, E> for Result<T, E> {
    fn ignore_err_if<F: FnOnce(&E) -> bool>(self, filter: F, val: T) -> (r: Self)
        ensures
            self is Ok ==> r == self,
            self is Err ==> (filter.ensures((&self->Err_0,), true) && r == Ok::<T, E>(val)) || (filter.ensures(
                (&self->Err_0,),
                false,
            ) && r == self),
    {
        match self {
            Ok(v) => Ok(v),
            Err(e) => {
                if filter(&e) {
                    Ok(val)
                } else {
                    Err(e)
                }
            },
        }
    }
}

} // verus!
