//! Exporting previews with `darktable-cli`: the checks made before an export,
//! the command line it runs with, and where its scratch homes live.
use vstd::prelude::*;

use crate::fs::{join_path, path_join, FileMeta, InputFile, MetadataExtExt, PreviewFile, XmpFile};

verus! {

/// Exports previews by running `darktable-cli`.
#[derive(Debug, Clone, Copy)]
pub struct DarktableCli;

/// darktable's export is already highly parallel: one file is exported at a time.
pub const MAX_PARALLEL_EXPORTS: usize = 1;

/// The mode an exported preview gets: anyone may read it, its owner may
/// also write it.
pub const PREVIEW_MODE: u32 = 0o644;

/// Why an export would fail before darktable even starts.
#[derive(Debug, Clone, Copy, PartialEq, Eq, Structural)]
pub enum FileStateError {
    /// The input is not a file.
    InputNotAFile,
    /// The darktable-cli user has no permission to read the input.
    InputNotReadable,
    /// Neither the darktable-cli user nor its group may write to the output's directory.
    OutputDirNotWritable,
    /// The darktable-cli user has no permission to write to an existing output file.
    OutputNotWritable,
}

/// The outcome of checking the files of an export, in the order the checks
/// are made: the input must be a readable file, and an existing output
/// directory and an existing output file must be writable, each for the user
/// or the group (the photo group may read the raws and write the previews).
pub open spec fn file_state(
    input: FileMeta,
    output_dir: Option<FileMeta>,
    output: Option<FileMeta>,
    user: u32,
    group: u32,
) -> Result<(), FileStateError> {
    if !input.is_file {
        Err(FileStateError::InputNotAFile)
    } else if !(input.spec_user_can_read(user) || input.spec_group_can_read(group)) {
        Err(FileStateError::InputNotReadable)
    } else if output_dir matches Some(d) && !(d.spec_user_can_write(user) || d.spec_group_can_write(group)) {
        Err(FileStateError::OutputDirNotWritable)
    } else if output matches Some(o) && !(o.spec_user_can_write(user) || o.spec_group_can_write(group)) {
        Err(FileStateError::OutputNotWritable)
    } else {
        Ok(())
    }
}

/// Checks that darktable-cli, running as `user` and `group`, can read the
/// input and write the output. `output_dir` and `output` are `None` where
/// those do not exist yet.
pub fn assess_file_state(
    input: &FileMeta,
    output_dir: Option<FileMeta>,
    output: Option<FileMeta>,
    user: u32,
    group: u32,
) -> (r: Result<(), FileStateError>)
    ensures
        r == file_state(*input, output_dir, output, user, group),
{
    if !input.is_file {
        return Err(FileStateError::InputNotAFile);
    }
    let readable = input.user_can_read(user) || input.group_can_read(group);
    if !readable {
        return Err(FileStateError::InputNotReadable);
    }
    match output_dir {
        Some(d) => {
            let writable = d.user_can_write(user) || d.group_can_write(group);
            if !writable {
                return Err(FileStateError::OutputDirNotWritable);
            }
        },
        None => {},
    }
    match output {
        Some(o) => {
            let writable = o.user_can_write(user) || o.group_can_write(group);
            if !writable {
                return Err(FileStateError::OutputNotWritable);
            }
        },
        None => {},
    }
    Ok(())
}

/// The program an export runs: darktable-cli at the lowest priority.
pub fn export_program() -> (r: &'static str)
    ensures
        r@ == "nice"@,
{
    "nice"
}

/// The arguments of `nice` for an export of `input` with the edits of `xmp`
/// to `output`: no darktable library file is made, and the exported file
/// carries its metadata.
pub fn export_args(input: &InputFile, xmp: &XmpFile, output: &PreviewFile) -> (r: Vec<String>)
    ensures
        r@.map_values(|a: String| a@) == seq![
            "--adjustment=19"@,
            "darktable-cli"@,
            input.0@,
            xmp.0@,
            output.0@,
            "--core"@,
            "--library"@,
            ":memory:"@,
            "--conf"@,
            "plugins/lighttable/export/metadata_flags=1"@,
        ],
{
    let mut args: Vec<String> = Vec::new();
    args.push("--adjustment=19".to_owned());
    args.push("darktable-cli".to_owned());
    args.push(input.0.clone());
    args.push(xmp.0.clone());
    args.push(output.0.clone());
    args.push("--core".to_owned());
    args.push("--library".to_owned());
    args.push(":memory:".to_owned());
    args.push("--conf".to_owned());
    args.push("plugins/lighttable/export/metadata_flags=1".to_owned());
    assert(args@.map_values(|a: String| a@) =~= seq![
        "--adjustment=19"@,
        "darktable-cli"@,
        input.0@,
        xmp.0@,
        output.0@,
        "--core"@,
        "--library"@,
        ":memory:"@,
        "--conf"@,
        "plugins/lighttable/export/metadata_flags=1"@,
    ]);
    args
}

/// The name of the scratch home of export slot `slot`.
pub open spec fn home_name(slot: usize) -> Seq<char> {
    if slot == 0 {
        "darktable_cache_0"@
    } else {
        "darktable_cache_1"@
    }
}

/// The scratch home darktable-cli gets in export slot `slot` (it keeps its
/// configuration under `HOME`): `<cache_root>/dark-sorter/darktable_cache_<slot>`,
/// apart from the user's real darktable home.
pub fn darktable_home_dir(cache_root: &str, slot: usize) -> (r: String)
    requires
        slot < MAX_PARALLEL_EXPORTS,
    ensures
        r@ == path_join(path_join(cache_root@, "dark-sorter"@), home_name(slot)),
{
    let app = join_path(cache_root, "dark-sorter");
    if slot == 0 {
        join_path(app.as_str(), "darktable_cache_0")
    } else {
        join_path(app.as_str(), "darktable_cache_1")
    }
}

/// An export is allowed only where darktable-cli can read the input and
/// write where the output goes: through the bits for everybody, or as the
/// owning user, or as the owning group. In particular a file that is neither
/// the user's nor the group's is refused unless everybody may read it.
pub proof fn law_export_needs_access(
    input: FileMeta,
    output_dir: Option<FileMeta>,
    output: Option<FileMeta>,
    user: u32,
    group: u32,
)
    ensures
        file_state(input, output_dir, output, user, group) is Ok ==> {
            &&& input.is_file
            &&& input.mode & 0o004 == 0o004 || (input.uid == user && input.mode & 0o400 == 0o400) || (input.gid == group
                && input.mode & 0o040 == 0o040)
        },
        file_state(input, output_dir, output, user, group) is Ok && output_dir is Some ==> ({
            let d = output_dir->0;
            d.mode & 0o002 == 0o002 || (d.uid == user && d.mode & 0o200 == 0o200) || (d.gid == group && d.mode & 0o020
                == 0o020)
        }),
        file_state(input, output_dir, output, user, group) is Ok && output is Some ==> ({
            let o = output->0;
            o.mode & 0o002 == 0o002 || (o.uid == user && o.mode & 0o200 == 0o200) || (o.gid == group && o.mode & 0o020
                == 0o020)
        }),
        input.is_file && input.uid != user && input.gid != group && input.mode & 0o004 != 0o004 ==> file_state(
            input,
            output_dir,
            output,
            user,
            group,
        ) == Err::<(), FileStateError>(FileStateError::InputNotReadable),
{
}

/// An exported preview, owned by `user`, can be read by anyone and written
/// by its owner.
pub proof fn law_preview_mode_access(meta: FileMeta, user: u32, group: u32)
    requires
        meta.mode == PREVIEW_MODE,
        meta.uid == user,
    ensures
        meta.spec_anyone_can_read(),
        meta.spec_user_can_read(user),
        meta.spec_group_can_read(group),
        meta.spec_user_can_write(user),
        !meta.spec_anyone_can_write(),
{
    let m = meta.mode;
    assert(m & 0o004 == 0o004) by (bit_vector)
        requires
            m == 0o644u32,
    ;
    assert(m & 0o200 == 0o200) by (bit_vector)
        requires
            m == 0o644u32,
    ;
    assert(m & 0o002 != 0o002) by (bit_vector)
        requires
            m == 0o644u32,
    ;
}

} // verus!
