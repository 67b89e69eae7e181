//! Paths of the source tree (raws and sidecars) and of the target tree
//! (previews), and what file permissions allow.
//!
//! Paths are held as UTF-8 text; the path arithmetic itself is `std::path`'s.
use vstd::prelude::*;
use vstd::string::*;

use vstd::utf8::*;

use crate::text::{
    at_boundary, find_str, first_occurrence, lemma_encode_nonempty, lemma_occurrence_boundaries,
    str_eq, substr,
};

verus! {

broadcast use vstd::seq::group_seq_axioms, encode_utf8_valid_utf8, encode_utf8_decode_utf8;

/// `Path::join`: `rel` appended to `base` (or `rel` alone when it is absolute).
pub uninterp spec fn path_join(base: Seq<char>, rel: Seq<char>) -> Seq<char>;

/// `Path::with_extension`: the path with its extension replaced by `ext`.
pub uninterp spec fn path_with_extension(p: Seq<char>, ext: Seq<char>) -> Seq<char>;

/// `Path::with_added_extension`: the path with `ext` added as one more extension.
pub uninterp spec fn path_with_added_extension(p: Seq<char>, ext: Seq<char>) -> Seq<char>;

/// `Path::file_stem`: the file name without its last extension.
pub uninterp spec fn path_file_stem(p: Seq<char>) -> Option<Seq<char>>;

/// `Path::parent`: the path without its last component.
pub uninterp spec fn path_parent(p: Seq<char>) -> Option<Seq<char>>;

/// `Path::strip_prefix`: the rest of `p` when `base` is a prefix of its components.
pub uninterp spec fn path_strip_prefix(p: Seq<char>, base: Seq<char>) -> Option<Seq<char>>;

/// `Path::starts_with`: whether `base` is a prefix of the components of `p`.
pub uninterp spec fn path_starts_with(p: Seq<char>, base: Seq<char>) -> bool;

/// The path `p` rebuilt from its components (`Path::components` collected
/// into a `PathBuf`): two paths are equal as paths exactly when these are
/// equal as text.
pub uninterp spec fn path_normal(p: Seq<char>) -> Seq<char>;

/// `Path::extension`: the extension of the file name.
pub uninterp spec fn path_extension(p: Seq<char>) -> Option<Seq<char>>;

/// The extensions the crate gives files hold no path separator.
pub proof fn lemma_extensions_plain()
    ensures
        !""@.contains('/'),
        !"jpg"@.contains('/'),
        !"NEF"@.contains('/'),
        !"xmp"@.contains('/'),
{
    reveal_strlit("");
    reveal_strlit("jpg");
    reveal_strlit("NEF");
    reveal_strlit("xmp");
    assert(!""@.contains('/'));
    assert(!"jpg"@.contains('/')) by {
        if "jpg"@.contains('/') {
            let i = choose|i: int| 0 <= i < "jpg"@.len() && "jpg"@[i] == '/';
        }
    }
    assert(!"NEF"@.contains('/')) by {
        if "NEF"@.contains('/') {
            let i = choose|i: int| 0 <= i < "NEF"@.len() && "NEF"@[i] == '/';
        }
    }
    assert(!"xmp"@.contains('/')) by {
        if "xmp"@.contains('/') {
            let i = choose|i: int| 0 <= i < "xmp"@.len() && "xmp"@[i] == '/';
        }
    }
}

pub open spec fn opt_text(o: Option<String>) -> Option<Seq<char>> {
    match o {
        Some(s) => Some(s@),
        None => None,
    }
}

/// Calls `Path::join`; the result is given back as text (UTF-8 in, UTF-8 out).
/// As `Path::join` and `PathBuf::push` document it on Unix: an absolute
/// `rel` (one that starts with `/`) replaces `base`; a relative one is
/// appended to `base` after a `/`, which is added only where `base` does not
/// end in one. What an empty `base` or an empty `rel` gives is left unsaid.
#[verifier::external_body]
pub(crate) fn join_path(base: &str, rel: &str) -> (r: String)
    ensures
        r@ == path_join(base@, rel@),
        rel@.len() > 0 && rel@[0] == '/' ==> r@ == rel@,
        rel@.len() > 0 && rel@[0] != '/' && base@.len() > 0 && base@.last() != '/' ==> r@ == base@ + seq!['/'] + rel@,
        rel@.len() > 0 && rel@[0] != '/' && base@.len() > 0 && base@.last() == '/' ==> r@ == base@ + rel@,
{
    std::path::Path::new(base).join(rel).to_string_lossy().into_owned()
}

/// Calls `Path::with_extension`, which panics on an extension holding a
/// path separator.
#[verifier::external_body]
pub(crate) fn with_extension(p: &str, ext: &str) -> (r: String)
    requires
        !ext@.contains('/'),
    ensures
        r@ == path_with_extension(p@, ext@),
{
    std::path::Path::new(p).with_extension(ext).to_string_lossy().into_owned()
}

/// Calls `Path::with_added_extension`, which panics on an extension holding
/// a path separator.
#[verifier::external_body]
pub(crate) fn with_added_extension(p: &str, ext: &str) -> (r: String)
    requires
        !ext@.contains('/'),
    ensures
        r@ == path_with_added_extension(p@, ext@),
{
    std::path::Path::new(p).with_added_extension(ext).to_string_lossy().into_owned()
}

/// Calls `Path::components` and collects them into a `PathBuf`. Collecting
/// the components of a path made that way gives it back unchanged.
#[verifier::external_body]
pub(crate) fn normalize_path(p: &str) -> (r: String)
    ensures
        r@ == path_normal(p@),
        path_normal(r@) == r@,
{
    std::path::Path::new(p).components().collect::<std::path::PathBuf>().to_string_lossy().into_owned()
}

/// Calls `Path::file_stem`.
#[verifier::external_body]
fn file_stem_of(p: &str) -> (r: Option<String>)
    ensures
        opt_text(r) == path_file_stem(p@),
{
    std::path::Path::new(p).file_stem().map(|s| s.to_string_lossy().into_owned())
}

/// Calls `Path::parent`.
#[verifier::external_body]
fn parent_of(p: &str) -> (r: Option<String>)
    ensures
        opt_text(r) == path_parent(p@),
{
    std::path::Path::new(p).parent().map(|s| s.to_string_lossy().into_owned())
}

/// Calls `Path::strip_prefix`.
#[verifier::external_body]
fn strip_prefix_of(p: &str, base: &str) -> (r: Option<String>)
    ensures
        opt_text(r) == path_strip_prefix(p@, base@),
{
    std::path::Path::new(p).strip_prefix(base).ok().map(|s| s.to_string_lossy().into_owned())
}

/// Calls `Path::starts_with`.
#[verifier::external_body]
fn starts_with_path(p: &str, base: &str) -> (r: bool)
    ensures
        r == path_starts_with(p@, base@),
{
    std::path::Path::new(p).starts_with(base)
}

/// Calls `Path::extension`.
#[verifier::external_body]
fn extension_of(p: &str) -> (r: Option<String>)
    ensures
        opt_text(r) == path_extension(p@),
{
    std::path::Path::new(p).extension().map(|s| s.to_string_lossy().into_owned())
}

/// The name of a directory entry.
#[derive(Clone, Debug, PartialEq, Eq, Hash, PartialOrd, Ord)]
pub struct DirName(pub String);

/// A directory that is not the root.
#[derive(Clone, Debug, PartialEq, Eq, Hash, PartialOrd, Ord)]
pub struct Dir(pub String);

impl Dir {
    pub fn subdir(&self, dir: &DirName) -> (r: Self)
        ensures
            r.0@ == path_join(self.0@, dir.0@),
    {
        Dir(join_path(self.0.as_str(), dir.0.as_str()))
    }

    /// The same directory: equal as paths, component by component (a
    /// trailing `/` or a doubled one makes no difference).
    pub fn same_as(&self, other: &Dir) -> (r: bool)
        ensures
            r == (path_normal(self.0@) == path_normal(other.0@)),
    {
        let a = normalize_path(self.0.as_str());
        let b = normalize_path(other.0.as_str());
        str_eq(a.as_str(), b.as_str())
    }

    pub fn display(&self) -> (r: String)
        ensures
            r@ == self.0@,
    {
        self.0.clone()
    }
}

/// A directory of the target tree.
#[derive(Clone, Debug, PartialEq, Eq, Hash, PartialOrd, Ord)]
pub struct TargetDir(pub Dir);

/// A directory of the source tree.
#[derive(Clone, Debug, PartialEq, Eq, Hash, PartialOrd, Ord)]
pub struct SourceDir(pub Dir);

/// The root of the target tree.
#[derive(Clone, Debug, PartialEq, Eq, Hash, PartialOrd, Ord)]
pub struct BaseTargetDir(pub TargetDir);

/// The root of the source tree.
#[derive(Clone, Debug, PartialEq, Eq, Hash, PartialOrd, Ord)]
pub struct BaseSourceDir(pub SourceDir);

/// Not a subdir of the base target dir.
#[derive(Clone, Copy, Debug, PartialEq, Eq)]
pub struct NotBaseSubDir;

impl BaseTargetDir {
    pub fn subdir(&self, dir: &DirName) -> (r: TargetDir)
        ensures
            r.0.0@ == path_join(self.0.0.0@, dir.0@),
    {
        self.0.subdir(dir)
    }
}

impl BaseSourceDir {
    pub fn subdir(&self, dir: &DirName) -> (r: SourceDir)
        ensures
            r.0.0@ == path_join(self.0.0.0@, dir.0@),
    {
        self.0.subdir(dir)
    }
}

impl TargetDir {
    pub fn subdir(&self, dir: &DirName) -> (r: Self)
        ensures
            r.0.0@ == path_join(self.0.0@, dir.0@),
    {
        TargetDir(self.0.subdir(dir))
    }

    /// `path` as a target directory, when it lies under the base target dir.
    pub fn try_new(path: &str, base: &BaseTargetDir) -> (r: Result<Self, NotBaseSubDir>)
        ensures
            path_starts_with(path@, base.0.0.0@) ==> (r matches Ok(t) && t.0.0@ == path@),
            !path_starts_with(path@, base.0.0.0@) ==> r == Err::<TargetDir, NotBaseSubDir>(
                NotBaseSubDir,
            ),
    {
        if starts_with_path(path, base.0.0.0.as_str()) {
            Ok(TargetDir(Dir(path.to_owned())))
        } else {
            Err(NotBaseSubDir)
        }
    }

    /// The path of this directory relative to the base target dir.
    pub fn relative_to_base(&self, base: &BaseTargetDir) -> (r: String)
        requires
            path_strip_prefix(self.0.0@, base.0.0.0@) is Some,
        ensures
            r@ == path_strip_prefix(self.0.0@, base.0.0.0@)->0,
    {
        match strip_prefix_of(self.0.0.as_str(), base.0.0.0.as_str()) {
            Some(r) => r,
            None => {
                proof {
                    assert(false);
                }
                String::new()
            },
        }
    }

    /// The path relative to the base target dir, `None` when this directory
    /// does not lie under it.
    pub fn try_relative_to_base(&self, base: &BaseTargetDir) -> (r: Option<String>)
        ensures
            opt_text(r) == path_strip_prefix(self.0.0@, base.0.0.0@),
    {
        match strip_prefix_of(self.0.0.as_str(), base.0.0.0.as_str()) {
            Some(_) => Some(self.relative_to_base(base)),
            None => None,
        }
    }

    /// The same directory.
    pub fn same_as(&self, other: &TargetDir) -> (r: bool)
        ensures
            r == (path_normal(self.0.0@) == path_normal(other.0.0@)),
    {
        self.0.same_as(&other.0)
    }
}

impl SourceDir {
    pub fn subdir(&self, dir: &DirName) -> (r: Self)
        ensures
            r.0.0@ == path_join(self.0.0@, dir.0@),
    {
        SourceDir(self.0.subdir(dir))
    }
}

/// A raw (or other picture) that previews are made from.
#[derive(Clone, Debug, PartialEq, Eq, Hash, PartialOrd, Ord)]
pub struct InputFile(pub String);

/// A jpg preview in the target tree.
#[derive(Clone, Debug, PartialEq, Eq, Hash, PartialOrd, Ord)]
pub struct PreviewFile(pub String);

/// An XMP sidecar in the source tree.
#[derive(Clone, Debug, PartialEq, Eq, Hash, PartialOrd, Ord)]
pub struct XmpFile(pub String);

/// Not path ending in jpg.
#[derive(Clone, Copy, Debug, PartialEq, Eq)]
pub struct NotAPreviewFile;

/// Not a path ending in xmp.
#[derive(Clone, Copy, Debug, PartialEq, Eq)]
pub struct NotAnXmpFile;

/// Whether the components of `base` start the path `p`.
pub fn starts_with(p: &str, base: &str) -> (r: bool)
    ensures
        r == path_starts_with(p@, base@),
{
    starts_with_path(p, base)
}

/// Whether the path `p` has exactly the extension `want`.
pub fn has_extension(p: &str, want: &str) -> (r: bool)
    ensures
        r == (path_extension(p@) == Some(want@)),
{
    let e = extension_of(p);
    extension_is(&e, want)
}

/// Whether the extension `e` is exactly `want`.
fn extension_is(e: &Option<String>, want: &str) -> (r: bool)
    ensures
        r == (opt_text(*e) == Some(want@)),
{
    match e {
        Some(x) => str_eq(x.as_str(), want),
        None => false,
    }
}

impl PreviewFile {
    /// The file name without the `.jpg`.
    pub fn file_stem(&self) -> (r: String)
        requires
            path_file_stem(self.0@) is Some,
        ensures
            r@ == path_file_stem(self.0@)->0,
    {
        match file_stem_of(self.0.as_str()) {
            Some(s) => s,
            None => {
                proof {
                    assert(false);
                }
                String::new()
            },
        }
    }

    /// The file name without the `.jpg`, `None` for a path without file name.
    pub fn try_file_stem(&self) -> (r: Option<String>)
        ensures
            opt_text(r) == path_file_stem(self.0@),
    {
        match file_stem_of(self.0.as_str()) {
            Some(_) => Some(self.file_stem()),
            None => None,
        }
    }

    /// The sidecar `<stem>.NEF.xmp` in `source`, the one a preview of a NEF raw
    /// was made for; a scan looks for a sidecar of any raw kind
    /// ([`crate::scan::preview::sidecars_of`]).
    pub fn xmp_path(&self, source: &SourceDir) -> (r: XmpFile)
        requires
            path_file_stem(self.0@) is Some,
        ensures
            r.0@ == path_with_added_extension(
                path_with_added_extension(
                    path_join(source.0.0@, path_file_stem(self.0@)->0),
                    "NEF"@,
                ),
                "xmp"@,
            ),
    {
        let stem = self.file_stem();
        let joined = join_path(source.0.0.as_str(), stem.as_str());
        proof {
            lemma_extensions_plain();
        }
        let nef = with_added_extension(joined.as_str(), "NEF");
        XmpFile(with_added_extension(nef.as_str(), "xmp"))
    }

    /// [`Self::xmp_path`], `None` for a path without file name.
    pub fn try_xmp_path(&self, source: &SourceDir) -> (r: Option<XmpFile>)
        ensures
            path_file_stem(self.0@) is None ==> r is None,
            path_file_stem(self.0@) is Some ==> (r matches Some(x) && x.0@
                == path_with_added_extension(
                path_with_added_extension(
                    path_join(source.0.0@, path_file_stem(self.0@)->0),
                    "NEF"@,
                ),
                "xmp"@,
            )),
    {
        match file_stem_of(self.0.as_str()) {
            Some(_) => Some(self.xmp_path(source)),
            None => None,
        }
    }

    /// The dir the preview file is in.
    pub fn dir(&self) -> (r: TargetDir)
        requires
            path_parent(self.0@) is Some,
        ensures
            r.0.0@ == path_parent(self.0@)->0,
    {
        match parent_of(self.0.as_str()) {
            Some(p) => TargetDir(Dir(p)),
            None => {
                proof {
                    assert(false);
                }
                TargetDir(Dir(String::new()))
            },
        }
    }

    /// [`Self::dir`], `None` for a path without parent.
    pub fn try_dir(&self) -> (r: Option<TargetDir>)
        ensures
            path_parent(self.0@) is None ==> r is None,
            path_parent(self.0@) is Some ==> (r matches Some(d) && d.0.0@ == path_parent(self.0@)->0),
    {
        match parent_of(self.0.as_str()) {
            Some(_) => Some(self.dir()),
            None => None,
        }
    }

    /// A directory entry at `path` as a preview: it must end in `.jpg`.
    pub fn try_from_path(path: String) -> (r: Result<Self, NotAPreviewFile>)
        ensures
            path_extension(path@) == Some("jpg"@) ==> r == Ok::<PreviewFile, NotAPreviewFile>(
                PreviewFile(path),
            ),
            path_extension(path@) != Some("jpg"@) ==> r == Err::<PreviewFile, NotAPreviewFile>(
                NotAPreviewFile,
            ),
    {
        let ext = extension_of(path.as_str());
        if extension_is(&ext, "jpg") {
            Ok(PreviewFile(path))
        } else {
            Err(NotAPreviewFile)
        }
    }
}

impl XmpFile {
    /// A directory entry at `path` as a sidecar: it must end in `.xmp`.
    pub fn try_from_path(path: String) -> (r: Result<Self, NotAnXmpFile>)
        ensures
            path_extension(path@) == Some("xmp"@) ==> r == Ok::<XmpFile, NotAnXmpFile>(
                XmpFile(path),
            ),
            path_extension(path@) != Some("xmp"@) ==> r == Err::<XmpFile, NotAnXmpFile>(
                NotAnXmpFile,
            ),
    {
        let ext = extension_of(path.as_str());
        if extension_is(&ext, "xmp") {
            Ok(XmpFile(path))
        } else {
            Err(NotAnXmpFile)
        }
    }

    /// The raw next to the sidecar: the path without the `.xmp`.
    pub fn input_file(&self) -> (r: InputFile)
        ensures
            r.0@ == path_with_extension(self.0@, ""@),
    {
        proof {
            lemma_extensions_plain();
        }
        InputFile(with_extension(self.0.as_str(), ""))
    }

    /// The file name without `.xmp` (so it includes the raw's extension).
    pub fn file_stem(&self) -> (r: String)
        requires
            path_file_stem(self.0@) is Some,
        ensures
            r@ == path_file_stem(self.0@)->0,
    {
        match file_stem_of(self.0.as_str()) {
            Some(s) => s,
            None => {
                proof {
                    assert(false);
                }
                String::new()
            },
        }
    }

    /// [`Self::file_stem`], `None` for a path without file name.
    pub fn try_file_stem(&self) -> (r: Option<String>)
        ensures
            opt_text(r) == path_file_stem(self.0@),
    {
        match file_stem_of(self.0.as_str()) {
            Some(_) => Some(self.file_stem()),
            None => None,
        }
    }

    /// The directory of the sidecar.
    pub fn parent_dir(&self) -> (r: SourceDir)
        requires
            path_parent(self.0@) is Some,
        ensures
            r.0.0@ == path_parent(self.0@)->0,
    {
        match parent_of(self.0.as_str()) {
            Some(p) => SourceDir(Dir(p)),
            None => {
                proof {
                    assert(false);
                }
                SourceDir(Dir(String::new()))
            },
        }
    }

    /// [`Self::parent_dir`], `None` for a path without parent.
    pub fn try_parent_dir(&self) -> (r: Option<SourceDir>)
        ensures
            path_parent(self.0@) is None ==> r is None,
            path_parent(self.0@) is Some ==> (r matches Some(d) && d.0.0@ == path_parent(self.0@)->0),
    {
        match parent_of(self.0.as_str()) {
            Some(_) => Some(self.parent_dir()),
            None => None,
        }
    }

    /// Where the preview of this sidecar goes: the same place under the target
    /// root, named after the raw without its extension, ending in `.jpg`.
    pub fn preview_path(&self, source: &BaseSourceDir, target: &BaseTargetDir) -> (r: PreviewFile)
        requires
            path_strip_prefix(self.0@, source.0.0.0@) is Some,
        ensures
            r.0@ == path_with_extension(
                path_with_extension(
                    path_join(target.0.0.0@, path_strip_prefix(self.0@, source.0.0.0@)->0),
                    ""@,
                ),
                "jpg"@,
            ),
    {
        let relative = match strip_prefix_of(self.0.as_str(), source.0.0.0.as_str()) {
            Some(r) => r,
            None => {
                proof {
                    assert(false);
                }
                String::new()
            },
        };
        let in_target = join_path(target.0.0.0.as_str(), relative.as_str());
        proof {
            lemma_extensions_plain();
        }
        let bare = with_extension(in_target.as_str(), "");
        PreviewFile(with_extension(bare.as_str(), "jpg"))
    }

    /// [`Self::preview_path`], `None` when the sidecar is not inside `source`.
    pub fn try_preview_path(&self, source: &BaseSourceDir, target: &BaseTargetDir) -> (r: Option<PreviewFile>)
        ensures
            path_strip_prefix(self.0@, source.0.0.0@) is None ==> r is None,
            path_strip_prefix(self.0@, source.0.0.0@) is Some ==> (r matches Some(p) && p.0@
                == path_with_extension(
                path_with_extension(
                    path_join(target.0.0.0@, path_strip_prefix(self.0@, source.0.0.0@)->0),
                    ""@,
                ),
                "jpg"@,
            )),
    {
        match strip_prefix_of(self.0.as_str(), source.0.0.0.as_str()) {
            Some(_) => Some(self.preview_path(source, target)),
            None => None,
        }
    }
}

/// The part of a file stem before its first `.` (all of it when there is none).
pub open spec fn name_before_dot(stem: Seq<char>) -> Seq<char> {
    let b = encode_utf8(stem);
    match first_occurrence(b, encode_utf8("."@)) {
        Some(i) => decode_utf8(b.subrange(0, i)),
        None => stem,
    }
}

fn before_dot(stem: &str) -> (r: &str)
    ensures
        r@ == name_before_dot(stem@),
{
    proof {
        reveal_strlit(".");
        lemma_encode_nonempty("."@);
        is_char_boundary_start_end_of_seq(stem.spec_bytes());
    }
    match find_str(stem, ".") {
        Some(i) => {
            proof {
                lemma_occurrence_boundaries(stem.spec_bytes(), ".".spec_bytes(), i as int);
            }
            substr(stem, 0, i)
        },
        None => stem,
    }
}

/// ASCII upper case letters read as lower case.
pub open spec fn ascii_lower(b: u8) -> u8 {
    if 0x41 <= b <= 0x5A {
        (b + 0x20) as u8
    } else {
        b
    }
}

/// Equal when ASCII letters are compared regardless of case (`eq_ignore_ascii_case`).
pub open spec fn eq_ignore_ascii_case(x: Seq<u8>, y: Seq<u8>) -> bool {
    x.len() == y.len() && forall|i: int| 0 <= i < x.len() ==> ascii_lower(#[trigger] x[i]) == ascii_lower(y[i])
}

fn bytes_eq_ignore_ascii_case(x: &[u8], y: &[u8]) -> (r: bool)
    ensures
        r == eq_ignore_ascii_case(x@, y@),
{
    if x.len() != y.len() {
        return false;
    }
    let mut i: usize = 0;
    while i < x.len()
        invariant
            x.len() == y.len(),
            i <= x.len(),
            forall|j: int| 0 <= j < i ==> ascii_lower(#[trigger] x@[j]) == ascii_lower(y@[j]),
        decreases x.len() - i,
    {
        let a = if 0x41 <= x[i] && x[i] <= 0x5A { x[i] + 0x20 } else { x[i] };
        let b = if 0x41 <= y[i] && y[i] <= 0x5A { y[i] + 0x20 } else { y[i] };
        if a != b {
            return false;
        }
        i += 1;
    }
    true
}

/// Extensions of pictures that are copied as they are instead of exported.
pub open spec fn ready_made_extension(ext: Seq<char>) -> bool {
    let e = encode_utf8(ext);
    ||| eq_ignore_ascii_case(e, encode_utf8("jpeg"@))
    ||| eq_ignore_ascii_case(e, encode_utf8("jpg"@))
    ||| eq_ignore_ascii_case(e, encode_utf8("gif"@))
    ||| eq_ignore_ascii_case(e, encode_utf8("png"@))
}

impl InputFile {
    /// Whether the picture is already a jpeg, gif or png, so that it needs no
    /// export (any case of the extension).
    pub fn needs_no_export(&self) -> (r: bool)
        requires
            path_extension(self.0@) is Some,
        ensures
            r == ready_made_extension(path_extension(self.0@)->0),
    {
        let ext = match extension_of(self.0.as_str()) {
            Some(e) => e,
            None => {
                proof {
                    assert(false);
                }
                return false;
            },
        };
        let e = ext.as_str().as_bytes();
        bytes_eq_ignore_ascii_case(e, "jpeg".as_bytes()) || bytes_eq_ignore_ascii_case(e, "jpg".as_bytes())
            || bytes_eq_ignore_ascii_case(e, "gif".as_bytes()) || bytes_eq_ignore_ascii_case(
            e,
            "png".as_bytes(),
        )
    }

    /// [`Self::needs_no_export`], `None` for a file without extension.
    pub fn try_needs_no_export(&self) -> (r: Option<bool>)
        ensures
            path_extension(self.0@) is None ==> r is None,
            path_extension(self.0@) is Some ==> r == Some(ready_made_extension(path_extension(self.0@)->0)),
    {
        match extension_of(self.0.as_str()) {
            Some(_) => Some(self.needs_no_export()),
            None => None,
        }
    }
}

impl XmpFile {
    /// Whether `preview` is the preview of the raw this sidecar describes:
    /// the sidecar's name up to its first `.` is the preview's stem.
    pub fn corresponds_to(&self, preview: &PreviewFile) -> (r: bool)
        requires
            path_file_stem(self.0@) is Some,
            path_file_stem(preview.0@) is Some,
        ensures
            r == (name_before_dot(path_file_stem(self.0@)->0) == path_file_stem(preview.0@)->0),
    {
        let stem = self.file_stem();
        let preview_stem = preview.file_stem();
        str_eq(before_dot(stem.as_str()), preview_stem.as_str())
    }

    /// [`Self::corresponds_to`], `None` when either path has no file name.
    pub fn try_corresponds_to(&self, preview: &PreviewFile) -> (r: Option<bool>)
        ensures
            (path_file_stem(self.0@) is None || path_file_stem(preview.0@) is None) ==> r is None,
            (path_file_stem(self.0@) is Some && path_file_stem(preview.0@) is Some) ==> r == Some(
                name_before_dot(path_file_stem(self.0@)->0) == path_file_stem(preview.0@)->0,
            ),
    {
        match (file_stem_of(self.0.as_str()), file_stem_of(preview.0.as_str())) {
            (Some(_), Some(_)) => Some(self.corresponds_to(preview)),
            _ => None,
        }
    }
}

/// What the crate reads of a file's metadata.
#[derive(Clone, Copy, Debug, PartialEq, Eq)]
pub struct FileMeta {
    pub is_file: bool,
    pub is_dir: bool,
    /// Unix permission bits.
    pub mode: u32,
    pub uid: u32,
    pub gid: u32,
}

impl FileMeta {
    pub open spec fn spec_anyone_can_read(&self) -> bool {
        self.mode & 0o004 == 0o004
    }

    pub open spec fn spec_anyone_can_write(&self) -> bool {
        self.mode & 0o002 == 0o002
    }

    pub open spec fn spec_user_can_read(&self, user_id: u32) -> bool {
        self.spec_anyone_can_read() || (self.mode & 0o400 == 0o400 && self.uid == user_id)
    }

    pub open spec fn spec_user_can_write(&self, user_id: u32) -> bool {
        self.spec_anyone_can_write() || (self.mode & 0o200 == 0o200 && self.uid == user_id)
    }

    pub open spec fn spec_group_can_read(&self, group_id: u32) -> bool {
        self.spec_anyone_can_read() || (self.mode & 0o040 == 0o040 && self.gid == group_id)
    }

    pub open spec fn spec_group_can_write(&self, group_id: u32) -> bool {
        self.spec_anyone_can_write() || (self.mode & 0o020 == 0o020 && self.gid == group_id)
    }
}

/// Permission is granted by the class a process falls in: the owner bits
/// speak only for the owning user, the group bits only for the owning group;
/// anyone else needs the bits for everybody.
pub proof fn law_permissions_by_owner(meta: FileMeta, user: u32, group: u32)
    ensures
        meta.spec_user_can_read(user) ==> meta.spec_anyone_can_read() || meta.uid == user,
        meta.spec_user_can_write(user) ==> meta.spec_anyone_can_write() || meta.uid == user,
        meta.spec_group_can_read(group) ==> meta.spec_anyone_can_read() || meta.gid == group,
        meta.spec_group_can_write(group) ==> meta.spec_anyone_can_write() || meta.gid == group,
        meta.uid != user && meta.gid != group ==> (meta.spec_user_can_read(user) || meta.spec_group_can_read(group))
            == (meta.mode & 0o004 == 0o004),
        meta.uid != user && meta.gid != group ==> (meta.spec_user_can_write(user) || meta.spec_group_can_write(group))
            == (meta.mode & 0o002 == 0o002),
        meta.gid == group && meta.mode & 0o040 == 0o040 ==> meta.spec_group_can_read(group),
        meta.gid == group && meta.mode & 0o020 == 0o020 ==> meta.spec_group_can_write(group),
        meta.uid == user && meta.mode & 0o400 == 0o400 ==> meta.spec_user_can_read(user),
        meta.uid == user && meta.mode & 0o200 == 0o200 ==> meta.spec_user_can_write(user),
{
}

/// Who may read and write a file, by its permission bits.
pub trait MetadataExtExt {
    fn anyone_can_read(&self) -> bool;

    fn anyone_can_write(&self) -> bool;

    fn user_can_read(&self, user_id: u32) -> bool;

    fn user_can_write(&self, user_id: u32) -> bool;

    fn group_can_read(&self, group_id: u32) -> bool;

    fn group_can_write(&self, group_id: u32) -> bool;
}

impl MetadataExtExt for FileMeta {
    fn anyone_can_read(&self) -> (r: bool)
        ensures
            r == self.spec_anyone_can_read(),
    {
        self.mode & 0o004 == 0o004
    }

    fn anyone_can_write(&self) -> (r: bool)
        ensures
            r == self.spec_anyone_can_write(),
    {
        self.mode & 0o002 == 0o002
    }

    fn user_can_read(&self, user_id: u32) -> (r: bool)
        ensures
            r == self.spec_user_can_read(user_id),
    {
        self.anyone_can_read() || (self.mode & 0o400 == 0o400 && self.uid == user_id)
    }

    fn user_can_write(&self, user_id: u32) -> (r: bool)
        ensures
            r == self.spec_user_can_write(user_id),
    {
        self.anyone_can_write() || (self.mode & 0o200 == 0o200 && self.uid == user_id)
    }

    fn group_can_read(&self, group_id: u32) -> (r: bool)
        ensures
            r == self.spec_group_can_read(group_id),
    {
        self.anyone_can_read() || (self.mode & 0o040 == 0o040 && self.gid == group_id)
    }

    fn group_can_write(&self, group_id: u32) -> (r: bool)
        ensures
            r == self.spec_group_can_write(group_id),
    {
        self.anyone_can_write() || (self.mode & 0o020 == 0o020 && self.gid == group_id)
    }
}

/// The number of files the crate keeps open at once: ten below the soft
/// limit on open files, which leaves room for the rest of the process;
/// `None` when the limit is too low for that.
pub fn file_handle_limit(soft_limit: u64) -> (r: Option<u64>)
    ensures
        soft_limit >= 10 ==> r == Some((soft_limit - 10) as u64),
        soft_limit < 10 ==> r is None,
{
    soft_limit.checked_sub(10)
}

} // verus!
