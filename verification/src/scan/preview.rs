//! Deciding, per sidecar, whether its preview is exported, kept or removed.
use vstd::prelude::*;

use crate::fs::{name_before_dot, path_extension, path_file_stem, InputFile, PreviewFile, XmpFile};
use crate::xmp::{EditHash, Xmp, XmpError};

verus! {

/// How the number of previews in a directory changed.
#[derive(Debug, Clone, Copy, PartialEq, Eq, Structural)]
pub enum Change {
    Unchanged,
    Added,
    Removed,
}

impl Change {
    /// The change in the number of previews.
    pub open spec fn value(self) -> int {
        match self {
            Change::Unchanged => 0,
            Change::Added => 1,
            Change::Removed => -1,
        }
    }

    pub fn as_num(&self) -> (r: isize)
        ensures
            r == self.value(),
    {
        match self {
            Change::Unchanged => 0,
            Change::Added => 1,
            Change::Removed => -1,
        }
    }

    /// `rhs` counted with this change.
    pub fn add(self, rhs: isize) -> (r: isize)
        requires
            isize::MIN <= rhs + self.value() <= isize::MAX,
        ensures
            r == rhs + self.value(),
    {
        match self {
            Change::Unchanged => rhs,
            Change::Added => rhs + 1,
            Change::Removed => rhs - 1,
        }
    }
}

/// The net change of a list of changes.
pub open spec fn net_change(changes: Seq<Change>) -> int
    decreases changes.len(),
{
    if changes.len() == 0 {
        0
    } else {
        net_change(changes.drop_last()) + changes.last().value()
    }
}

proof fn lemma_net_change_bounds(changes: Seq<Change>)
    ensures
        -changes.len() <= net_change(changes) <= changes.len(),
    decreases changes.len(),
{
    if changes.len() > 0 {
        lemma_net_change_bounds(changes.drop_last());
    }
}

/// Adds up the changes of the sidecars of a directory.
pub fn sum_changes(changes: &Vec<Change>) -> (r: isize)
    requires
        changes@.len() <= isize::MAX,
    ensures
        r == net_change(changes@),
{
    let mut sum: isize = 0;
    let mut i: usize = 0;
    while i < changes.len()
        invariant
            i <= changes@.len() <= isize::MAX,
            sum == net_change(changes@.take(i as int)),
        decreases changes.len() - i,
    {
        proof {
            assert(changes@.take(i + 1).drop_last() =~= changes@.take(i as int));
            lemma_net_change_bounds(changes@.take(i as int));
        }
        sum = changes[i].add(sum);
        i += 1;
    }
    assert(changes@.take(changes@.len() as int) =~= changes@);
    sum
}

/// What to do with the preview of one sidecar.
#[derive(Debug, Clone, Copy, PartialEq, Eq, Structural)]
pub enum UpdatePlan {
    /// Make the preview and record that it was made with these edits.
    Export { record: EditHash },
    /// The preview is fine as it is.
    Keep,
    /// The picture is not rated: remove its preview if there is one.
    RemovePreview,
}

/// The edits changed since the preview was made (both known and different).
pub open spec fn edits_changed(current: Option<EditHash>, exported: Option<EditHash>) -> bool {
    current is Some && exported is Some && current->0 != exported->0
}

/// What to do with the preview of a sidecar: a rated picture is exported again
/// when its edits changed, exported when its preview is missing (recording
/// its edits, or no edits when they are unknown), and kept otherwise; the
/// preview of a picture that is not rated is removed.
pub open spec fn spec_update_plan(current: Option<EditHash>, exported: Option<EditHash>, rated: bool, preview_missing: bool) -> UpdatePlan {
    if edits_changed(current, exported) && rated {
        UpdatePlan::Export { record: current->0 }
    } else if rated && preview_missing {
        UpdatePlan::Export {
            record: match current {
                Some(h) => h,
                None => EditHash(0),
            },
        }
    } else if rated {
        UpdatePlan::Keep
    } else {
        UpdatePlan::RemovePreview
    }
}

/// Whether the plan for a sidecar depends on the preview being missing (only
/// then does the file system need to be asked).
pub fn update_needs_preview_check(current: Option<EditHash>, exported: Option<EditHash>, rated: bool) -> (r: bool)
    ensures
        r == (rated && !edits_changed(current, exported)),
{
    let changed = match (current, exported) {
        (Some(c), Some(e)) => c.0 != e.0,
        _ => false,
    };
    rated && !changed
}

/// Decides what happens to the preview of a sidecar.
pub fn update_plan(current: Option<EditHash>, exported: Option<EditHash>, rated: bool, preview_missing: bool) -> (r: UpdatePlan)
    ensures
        r == spec_update_plan(current, exported, rated, preview_missing),
{
    let changed = match (current, exported) {
        (Some(c), Some(e)) => c.0 != e.0,
        _ => false,
    };
    if changed && rated {
        UpdatePlan::Export {
            record: match current {
                Some(h) => h,
                None => EditHash::no_edits(),
            },
        }
    } else if rated && preview_missing {
        UpdatePlan::Export {
            record: match current {
                Some(h) => h,
                None => EditHash::no_edits(),
            },
        }
    } else if rated {
        UpdatePlan::Keep
    } else {
        UpdatePlan::RemovePreview
    }
}

/// The plan by case: an unrated picture loses its preview; a rated one whose
/// preview is missing is exported, whatever the record holds, recording its
/// current fingerprint (`EditHash(0)` when it has none); a rated one whose
/// recorded fingerprint differs from its current one is exported again,
/// recording the current one; a rated one with its preview in place and
/// unchanged (or unknown) edits keeps it.
pub proof fn law_plan_by_case(current: Option<EditHash>, exported: Option<EditHash>, rated: bool, preview_missing: bool)
    ensures
        !rated ==> spec_update_plan(current, exported, rated, preview_missing) == UpdatePlan::RemovePreview,
        rated && preview_missing ==> spec_update_plan(current, exported, rated, preview_missing) == (UpdatePlan::Export {
            record: match current {
                Some(h) => h,
                None => EditHash(0),
            },
        }),
        rated && current is Some && exported is Some && current->0 != exported->0 ==> spec_update_plan(
            current,
            exported,
            rated,
            preview_missing,
        ) == (UpdatePlan::Export { record: current->0 }),
        rated && !preview_missing && !(current is Some && exported is Some && current->0 != exported->0)
            ==> spec_update_plan(current, exported, rated, preview_missing) == UpdatePlan::Keep,
{
}

/// Where no check is needed, whether the preview is missing changes nothing.
pub proof fn law_plan_ignores_unchecked_preview(current: Option<EditHash>, exported: Option<EditHash>, rated: bool)
    requires
        !(rated && !edits_changed(current, exported)),
    ensures
        spec_update_plan(current, exported, rated, true) == spec_update_plan(current, exported, rated, false),
{
}

/// An export is not repeated: once a preview was exported and its edits
/// recorded, planning again with that record and the preview in place keeps
/// it.
pub proof fn law_export_then_keep(current: Option<EditHash>, exported: Option<EditHash>, preview_missing: bool)
    requires
        spec_update_plan(current, exported, true, preview_missing) is Export,
    ensures
        spec_update_plan(current, Some(spec_update_plan(current, exported, true, preview_missing)->record), true, false)
            == UpdatePlan::Keep,
{
}

/// The change a planned update makes to the number of previews; `removed`
/// tells whether removing the preview found one to remove.
pub fn change_of(plan: UpdatePlan, removed: bool) -> (r: Change)
    ensures
        r == match plan {
            UpdatePlan::Export { .. } => Change::Added,
            UpdatePlan::Keep => Change::Unchanged,
            UpdatePlan::RemovePreview => if removed {
                Change::Removed
            } else {
                Change::Unchanged
            },
        },
{
    match plan {
        UpdatePlan::Export { .. } => Change::Added,
        UpdatePlan::Keep => Change::Unchanged,
        UpdatePlan::RemovePreview => if removed {
            Change::Removed
        } else {
            Change::Unchanged
        },
    }
}

/// Whether the preview for an existing preview file must go, given what
/// reading its sidecar gave: a missing sidecar or an unrated picture removes
/// it; any other read error is passed on.
pub fn should_remove(read: Result<Xmp, XmpError>) -> (r: Result<bool, XmpError>)
    ensures
        match read {
            Ok(x) => r == Ok::<bool, XmpError>(!(x.rating.value() > 0)),
            Err(XmpError::NotFound(_)) => r == Ok::<bool, XmpError>(true),
            Err(e) => r == Err::<bool, XmpError>(e),
        },
{
    match read {
        Ok(x) => Ok(!x.rated()),
        Err(XmpError::NotFound(_)) => Ok(true),
        Err(e) => Err(e),
    }
}

/// Whether the sidecar at `xmp` is one of the preview at `preview`
/// (`<name>.<raw extension>.xmp` for `<name>.jpg`, as
/// [`XmpFile::corresponds_to`] decides).
pub open spec fn spec_corresponds(xmp: Seq<char>, preview: Seq<char>) -> bool {
    &&& path_file_stem(xmp) is Some
    &&& path_file_stem(preview) is Some
    &&& name_before_dot(path_file_stem(xmp)->0) == path_file_stem(preview)->0
}

/// The sidecars among `xmps` that are the preview's, in their order.
pub open spec fn corresponding(xmps: Seq<Seq<char>>, preview: Seq<char>) -> Seq<Seq<char>>
    decreases xmps.len(),
{
    if xmps.len() == 0 {
        Seq::empty()
    } else {
        let rest = corresponding(xmps.drop_last(), preview);
        if spec_corresponds(xmps.last(), preview) {
            rest.push(xmps.last())
        } else {
            rest
        }
    }
}

pub open spec fn xmp_paths(xmps: Seq<XmpFile>) -> Seq<Seq<char>> {
    xmps.map_values(|x: XmpFile| x.0@)
}

/// The sidecars of a directory (`xmps`) that belong to `preview`: its
/// sidecar may be for a raw of any kind (`.NEF`, `.DNG`, ...).
pub fn sidecars_of(preview: &PreviewFile, xmps: &Vec<XmpFile>) -> (r: Vec<XmpFile>)
    ensures
        xmp_paths(r@) == corresponding(xmp_paths(xmps@), preview.0@),
{
    let mut out: Vec<XmpFile> = Vec::new();
    let mut i: usize = 0;
    while i < xmps.len()
        invariant
            i <= xmps@.len(),
            xmp_paths(out@) == corresponding(xmp_paths(xmps@.take(i as int)), preview.0@),
        decreases xmps.len() - i,
    {
        let ghost before = out@;
        let x = &xmps[i];
        let ours = match x.try_corresponds_to(preview) {
            Some(b) => b,
            None => false,
        };
        proof {
            assert(xmp_paths(xmps@.take(i + 1)).drop_last() =~= xmp_paths(xmps@.take(i as int)));
            assert(xmp_paths(xmps@.take(i + 1)).last() == x.0@);
        }
        if ours {
            out.push(XmpFile(x.0.clone()));
            assert(xmp_paths(out@) =~= xmp_paths(before).push(x.0@));
        }
        i += 1;
    }
    assert(xmps@.take(xmps@.len() as int) =~= xmps@);
    out
}

/// What reading the sidecars of a preview says about it, in their order: the
/// first that keeps it (rated) or fails to read decides; when none does (all
/// unrated or not found, or there are none) it is removed.
pub open spec fn remove_decision(reads: Seq<Result<Xmp, XmpError>>) -> Result<bool, XmpError>
    decreases reads.len(),
{
    if reads.len() == 0 {
        Ok(true)
    } else {
        match reads[0] {
            Ok(x) => if x.rating.value() > 0 {
                Ok(false)
            } else {
                remove_decision(reads.drop_first())
            },
            Err(XmpError::NotFound(_)) => remove_decision(reads.drop_first()),
            Err(e) => Err(e),
        }
    }
}

/// Whether a preview must go, given what reading each of its sidecars gave
/// (see [`remove_decision`]); for one sidecar this is [`should_remove`].
pub fn should_remove_all(reads: Vec<Result<Xmp, XmpError>>) -> (r: Result<bool, XmpError>)
    ensures
        r == remove_decision(reads@),
{
    let ghost all = reads@;
    let mut rest = reads;
    let ghost mut i: int = 0;
    assert(all.skip(0) =~= all);
    while rest.len() > 0
        invariant
            0 <= i <= all.len(),
            all == reads@,
            rest@ == all.skip(i),
            remove_decision(all) == remove_decision(all.skip(i)),
        decreases rest.len(),
    {
        let read = rest.remove(0);
        proof {
            assert(read == all.skip(i)[0]);
            assert(all.skip(i).drop_first() =~= all.skip(i + 1));
            assert(all.skip(i).len() > 0);
            assert(remove_decision(all.skip(i)) == match read {
                Ok(x) => if x.rating.value() > 0 {
                    Ok(false)
                } else {
                    remove_decision(all.skip(i + 1))
                },
                Err(XmpError::NotFound(_)) => remove_decision(all.skip(i + 1)),
                Err(e) => Err(e),
            });
        }
        match should_remove(read) {
            Ok(false) => return Ok(false),
            Ok(true) => {},
            Err(e) => return Err(e),
        }
        proof {
            i = i + 1;
        }
    }
    Ok(true)
}

/// When every sidecar of a preview was read or is not found, the preview
/// stays exactly when one of them is rated, whatever its raw's kind.
pub proof fn law_kept_by_a_rated_sidecar(reads: Seq<Result<Xmp, XmpError>>)
    requires
        forall|i: int| 0 <= i < reads.len() ==> (#[trigger] reads[i] is Ok || reads[i] matches Err(XmpError::NotFound(_))),
    ensures
        remove_decision(reads) == Ok::<bool, XmpError>(
            !exists|i: int| 0 <= i < reads.len() && (#[trigger] reads[i] matches Ok(x) && x.rating.value() > 0),
        ),
    decreases reads.len(),
{
    if reads.len() > 0 {
        let rest = reads.drop_first();
        assert forall|i: int| 0 <= i < rest.len() implies (#[trigger] rest[i] is Ok || rest[i] matches Err(
            XmpError::NotFound(_),
        )) by {
            assert(rest[i] == reads[i + 1]);
        }
        law_kept_by_a_rated_sidecar(rest);
        if exists|i: int| 0 <= i < rest.len() && (#[trigger] rest[i] matches Ok(x) && x.rating.value() > 0) {
            let i = choose|i: int| 0 <= i < rest.len() && (#[trigger] rest[i] matches Ok(x) && x.rating.value() > 0);
            assert(reads[i + 1] == rest[i]);
        }
        if exists|i: int| 0 <= i < reads.len() && (#[trigger] reads[i] matches Ok(x) && x.rating.value() > 0) {
            let i = choose|i: int| 0 <= i < reads.len() && (#[trigger] reads[i] matches Ok(x) && x.rating.value() > 0);
            if i > 0 {
                assert(rest[i - 1] == reads[i]);
            }
        }
    }
}

/// Whether a preview is made by copying the input (a `.jpg`) instead of
/// exporting it.
pub fn export_by_copy(raw: &InputFile) -> (r: bool)
    ensures
        r == (path_extension(raw.0@) == Some("jpg"@)),
{
    crate::fs::has_extension(raw.0.as_str(), "jpg")
}

} // verus!
