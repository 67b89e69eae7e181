//! Walking the source tree: what each directory entry is, and what a scanned
//! directory leaves behind.
pub mod preview;

use vstd::prelude::*;

use crate::fs::{
    path_extension, path_normal, BaseTargetDir, DirName, PreviewFile, TargetDir, XmpFile,
};

verus! {

/// A directory entry of the source tree.
#[derive(Debug, Clone, PartialEq, Eq)]
pub enum SourceEntry {
    /// A directory to scan as well.
    Dir(DirName),
    /// A sidecar.
    Xmp(XmpFile),
    /// Anything else.
    Other,
}

/// What a source entry is: directories are scanned, files ending in `.xmp`
/// are sidecars, the rest is ignored.
pub fn classify_source_entry(is_dir: bool, is_file: bool, name: String, path: String) -> (r: SourceEntry)
    ensures
        is_dir ==> r == SourceEntry::Dir(DirName(name)),
        !is_dir && is_file && path_extension(path@) == Some("xmp"@) ==> r == SourceEntry::Xmp(XmpFile(path)),
        !is_dir && !(is_file && path_extension(path@) == Some("xmp"@)) ==> r == SourceEntry::Other,
{
    if is_dir {
        SourceEntry::Dir(DirName(name))
    } else if is_file {
        match XmpFile::try_from_path(path) {
            Ok(x) => SourceEntry::Xmp(x),
            Err(_) => SourceEntry::Other,
        }
    } else {
        SourceEntry::Other
    }
}

/// A target entry is a preview when it is a file ending in `.jpg`.
pub fn classify_target_entry(is_file: bool, path: String) -> (r: Option<PreviewFile>)
    ensures
        is_file && path_extension(path@) == Some("jpg"@) ==> r == Some(PreviewFile(path)),
        !(is_file && path_extension(path@) == Some("jpg"@)) ==> r is None,
{
    if is_file {
        match PreviewFile::try_from_path(path) {
            Ok(p) => Some(p),
            Err(_) => None,
        }
    } else {
        None
    }
}

/// What is left to do once a directory of the target tree is up to date.
#[derive(Debug, Clone, Copy, PartialEq, Eq, Structural)]
pub struct ScanEnd {
    /// Remove the (now empty) directory.
    pub remove_dir: bool,
    /// Tell Immich the directory holds no previews.
    pub signal_dir_empty: bool,
    /// Tell Immich about the previews that were added.
    pub signal_added: bool,
}

/// A directory whose previews all went (the previews found plus the net
/// change is zero) is removed unless it is the target root, and Immich hears
/// it is empty; otherwise Immich hears of the added previews.
pub fn scan_end(previews: usize, net: isize, target: &TargetDir, base: &BaseTargetDir, immich: bool) -> (r: ScanEnd)
    ensures
        previews + net == 0 ==> r == (ScanEnd {
            remove_dir: path_normal(target.0.0@) != path_normal(base.0.0.0@),
            signal_dir_empty: immich,
            signal_added: false,
        }),
        previews + net != 0 ==> r == (ScanEnd { remove_dir: false, signal_dir_empty: false, signal_added: immich }),
{
    let empty = if net >= 0 {
        previews == 0 && net == 0
    } else {
        previews as u128 == (0 - (net as i128)) as u128
    };
    if empty {
        ScanEnd { remove_dir: !target.same_as(&base.0), signal_dir_empty: immich, signal_added: false }
    } else {
        ScanEnd { remove_dir: false, signal_dir_empty: false, signal_added: immich }
    }
}

} // verus!
