//! What tests build their source and target trees from: the test pictures,
//! where their files go, and what those files hold.
use vstd::prelude::*;
use vstd::string::*;

use crate::fs::{
    join_path, path_join, path_with_added_extension, with_added_extension, BaseTargetDir, DirName,
    PreviewFile, SourceDir, TargetDir, XmpFile,
};
use crate::xmp::Rating;

verus! {

/// The directory, below each root, that the test pictures live in.
pub fn test_subdir() -> (r: DirName)
    ensures
        r.0@ == "some_event/some_day"@,
{
    DirName("some_event/some_day".to_owned())
}

/// What a made-up preview holds.
pub fn preview_jpeg_content() -> (r: &'static str)
    ensures
        r@ == "this is totally a preview jpg of a rated raw /s."@,
{
    "this is totally a preview jpg of a rated raw /s."
}

/// What a made-up raw holds, by whether it is rated.
pub fn raw_content(rated: bool) -> (r: &'static str)
    ensures
        rated ==> r@ == "this is a raw photo that is rated, I swear! /s."@,
        !rated ==> r@ == "this is a raw photo that is not rated, I swear! /s."@,
{
    if rated {
        "this is a raw photo that is rated, I swear! /s."
    } else {
        "this is a raw photo that is not rated, I swear! /s."
    }
}

/// A test picture.
#[derive(Debug, Clone, Copy, PartialEq, Eq, Hash, Structural)]
pub enum TestFile {
    A,
}

impl TestFile {
    pub open spec fn spec_name(self) -> Seq<char> {
        match self {
            TestFile::A => "a"@,
        }
    }

    /// The file name of the picture, without extensions.
    pub fn name(self) -> (r: &'static str)
        ensures
            r@ == self.spec_name(),
    {
        match self {
            TestFile::A => "a",
        }
    }

    /// The sidecar of the picture's raw (`<name>.NEF.xmp`) in `source`.
    pub fn xmp_file(self, source: &SourceDir) -> (r: XmpFile)
        ensures
            r.0@ == path_with_added_extension(
                path_with_added_extension(path_join(source.0.0@, self.spec_name()), "NEF"@),
                "xmp"@,
            ),
    {
        let base = join_path(source.0.0.as_str(), self.name());
        proof {
            crate::fs::lemma_extensions_plain();
        }
        let raw = with_added_extension(base.as_str(), "NEF");
        XmpFile(with_added_extension(raw.as_str(), "xmp"))
    }

    /// The preview of the picture (`<name>.jpg`) in `target`.
    pub fn jpg_preview(self, target: &TargetDir) -> (r: PreviewFile)
        ensures
            r.0@ == path_with_added_extension(path_join(target.0.0@, self.spec_name()), "jpg"@),
    {
        let base = join_path(target.0.0.as_str(), self.name());
        proof {
            crate::fs::lemma_extensions_plain();
        }
        PreviewFile(with_added_extension(base.as_str(), "jpg"))
    }
}

/// Where the preview of `file` goes below the target root.
pub fn expected_preview(target: &BaseTargetDir, file: TestFile) -> (r: PreviewFile)
    ensures
        r.0@ == path_with_added_extension(
            path_join(path_join(target.0.0.0@, "some_event/some_day"@), file.spec_name()),
            "jpg"@,
        ),
{
    let dir = target.subdir(&test_subdir());
    file.jpg_preview(&dir)
}

/// The set a list of test pictures stands for.
pub open spec fn file_set(files: Seq<TestFile>) -> Set<TestFile> {
    files.to_set()
}

/// Adds the pictures of `files` that `set` does not hold yet.
fn extend_set(set: &mut Vec<TestFile>, files: Vec<TestFile>)
    ensures
        final(set)@.to_set() == old(set)@.to_set() + files@.to_set(),
        final(set)@.no_duplicates() <== old(set)@.no_duplicates(),
{
    let mut i: usize = 0;
    while i < files.len()
        invariant
            i <= files@.len(),
            set@.to_set() == old(set)@.to_set() + files@.take(i as int).to_set(),
            old(set)@.no_duplicates() ==> set@.no_duplicates(),
        decreases files.len() - i,
    {
        let f = files[i];
        let mut found = false;
        let mut j: usize = 0;
        while j < set.len()
            invariant
                j <= set@.len(),
                found == exists|k: int| 0 <= k < j && set@[k] == f,
            decreases set.len() - j,
        {
            if set[j] == f {
                found = true;
            }
            j += 1;
        }
        let ghost before = set@;
        if !found {
            set.push(f);
        }
        proof {
            assert(files@.take(i + 1) =~= files@.take(i as int).push(f));
            assert(files@.take(i + 1).to_set() =~= files@.take(i as int).to_set().insert(f)) by {
                files@.take(i as int).lemma_push_to_set_commute(f);
            }
            if !found {
                assert(set@ =~= before.push(f));
                before.lemma_push_to_set_commute(f);
                assert(set@.to_set() =~= before.to_set().insert(f));
            } else {
                assert(before.to_set().contains(f)) by {
                    let k = choose|k: int| 0 <= k < j && before[k] == f;
                    assert(before.contains(f));
                }
                assert(before.to_set().insert(f) =~= before.to_set());
            }
            assert(set@.to_set() =~= old(set)@.to_set() + files@.take(i + 1).to_set());
        }
        i += 1;
    }
    assert(files@.take(files@.len() as int) =~= files@);
}

/// The pictures a source tree is made with, by whether they are rated.
#[derive(Debug, Clone, Default)]
pub struct SourceDirBuilder {
    rated: Vec<TestFile>,
    unrated: Vec<TestFile>,
}

impl SourceDirBuilder {
    pub closed spec fn rated_set(&self) -> Set<TestFile> {
        self.rated@.to_set()
    }

    pub closed spec fn unrated_set(&self) -> Set<TestFile> {
        self.unrated@.to_set()
    }

    /// The pictures in the order they are written: the unrated ones, then
    /// the rated ones.
    pub closed spec fn listed(&self) -> Seq<TestFile> {
        self.unrated@ + self.rated@
    }

    pub fn new() -> (r: SourceDirBuilder)
        ensures
            r.rated_set() == Set::<TestFile>::empty(),
            r.unrated_set() == Set::<TestFile>::empty(),
    {
        let r = SourceDirBuilder { rated: Vec::new(), unrated: Vec::new() };
        assert(r.rated@.to_set() =~= Set::<TestFile>::empty());
        assert(r.unrated@.to_set() =~= Set::<TestFile>::empty());
        r
    }

    /// Adds rated pictures.
    pub fn with_rated(self, files: Vec<TestFile>) -> (r: SourceDirBuilder)
        ensures
            r.rated_set() == self.rated_set() + files@.to_set(),
            r.unrated_set() == self.unrated_set(),
    {
        let mut this = self;
        extend_set(&mut this.rated, files);
        this
    }

    /// Adds unrated pictures.
    pub fn with_unrated(self, files: Vec<TestFile>) -> (r: SourceDirBuilder)
        ensures
            r.unrated_set() == self.unrated_set() + files@.to_set(),
            r.rated_set() == self.rated_set(),
    {
        let mut this = self;
        extend_set(&mut this.unrated, files);
        this
    }

    /// Whether a picture is listed both rated and unrated (a tree cannot be
    /// built from that).
    pub fn conflicting(&self) -> (r: bool)
        ensures
            r == exists|f: TestFile| self.rated_set().contains(f) && self.unrated_set().contains(f),
    {
        let mut i: usize = 0;
        while i < self.rated.len()
            invariant
                i <= self.rated@.len(),
                forall|k: int| 0 <= k < i ==> !self.unrated@.contains(#[trigger] self.rated@[k]),
            decreases self.rated.len() - i,
        {
            let f = self.rated[i];
            let mut j: usize = 0;
            while j < self.unrated.len()
                invariant
                    j <= self.unrated@.len(),
                    i < self.rated@.len(),
                    f == self.rated@[i as int],
                    forall|k: int| 0 <= k < j ==> self.unrated@[k] != f,
                decreases self.unrated.len() - j,
            {
                if self.unrated[j] == f {
                    proof {
                        assert(self.rated@[i as int] == f);
                        assert(self.unrated@[j as int] == f);
                        assert(self.rated@.contains(f));
                        assert(self.unrated@.contains(f));
                        assert(self.rated_set().contains(f) && self.unrated_set().contains(f));
                    }
                    return true;
                }
                j += 1;
            }
            i += 1;
        }
        proof {
            assert forall|f: TestFile| !(self.rated_set().contains(f) && self.unrated_set().contains(f)) by {
                if self.rated@.contains(f) && self.unrated@.contains(f) {
                    let k = choose|k: int| 0 <= k < self.rated@.len() && self.rated@[k] == f;
                    assert(!self.unrated@.contains(self.rated@[k]));
                }
            }
        }
        false
    }

    /// The sidecars to write, in order, with the rating each gets: first
    /// every picture unrated, then every picture rated four stars (a later
    /// write replaces an earlier one).
    pub fn rating_writes(&self) -> (r: Vec<(TestFile, Rating)>)
        ensures
            r@.len() == 2 * self.listed().len(),
            forall|i: int| 0 <= i < self.listed().len() ==> (#[trigger] r@[i]) == (self.listed()[i], Rating::Unrated),
            forall|i: int|
                self.listed().len() <= i < r@.len() ==> (#[trigger] r@[i]) == (self.listed()[i - self.listed().len()], Rating::Four),
    {
        let mut all: Vec<TestFile> = Vec::new();
        let mut i: usize = 0;
        while i < self.unrated.len()
            invariant
                i <= self.unrated@.len(),
                all@ == self.unrated@.take(i as int),
            decreases self.unrated.len() - i,
        {
            all.push(self.unrated[i]);
            assert(self.unrated@.take(i + 1) =~= self.unrated@.take(i as int).push(self.unrated@[i as int]));
            i += 1;
        }
        assert(self.unrated@.take(i as int) =~= self.unrated@);
        let mut j: usize = 0;
        while j < self.rated.len()
            invariant
                j <= self.rated@.len(),
                all@ == self.unrated@ + self.rated@.take(j as int),
            decreases self.rated.len() - j,
        {
            all.push(self.rated[j]);
            assert(self.rated@.take(j + 1) =~= self.rated@.take(j as int).push(self.rated@[j as int]));
            assert(self.unrated@ + self.rated@.take(j + 1) =~= (self.unrated@ + self.rated@.take(j as int)).push(
                self.rated@[j as int],
            ));
            j += 1;
        }
        assert(self.rated@.take(j as int) =~= self.rated@);
        let mut writes: Vec<(TestFile, Rating)> = Vec::new();
        let mut k: usize = 0;
        while k < all.len()
            invariant
                k <= all@.len(),
                all@ == self.listed(),
                writes@.len() == k,
                forall|x: int| 0 <= x < k ==> (#[trigger] writes@[x]) == (all@[x], Rating::Unrated),
            decreases all.len() - k,
        {
            writes.push((all[k], Rating::Unrated));
            k += 1;
        }
        let mut m: usize = 0;
        while m < all.len()
            invariant
                m <= all@.len(),
                all@ == self.listed(),
                writes@.len() == all@.len() + m,
                forall|x: int| 0 <= x < all@.len() ==> (#[trigger] writes@[x]) == (all@[x], Rating::Unrated),
                forall|x: int| all@.len() <= x < all@.len() + m ==> (#[trigger] writes@[x]) == (all@[x - all@.len()], Rating::Four),
            decreases all.len() - m,
        {
            writes.push((all[m], Rating::Four));
            m += 1;
        }
        writes
    }
}

/// The previews a target tree is made with.
#[derive(Debug, Clone, Default)]
pub struct TargetDirBuilder {
    preview: Vec<TestFile>,
}

impl TargetDirBuilder {
    pub closed spec fn preview_set(&self) -> Set<TestFile> {
        self.preview@.to_set()
    }

    pub fn new() -> (r: TargetDirBuilder)
        ensures
            r.preview_set() == Set::<TestFile>::empty(),
    {
        let r = TargetDirBuilder { preview: Vec::new() };
        assert(r.preview@.to_set() =~= Set::<TestFile>::empty());
        r
    }

    /// Adds pictures that get a preview.
    pub fn with_preview(self, files: Vec<TestFile>) -> (r: TargetDirBuilder)
        ensures
            r.preview_set() == self.preview_set() + files@.to_set(),
    {
        let mut this = self;
        extend_set(&mut this.preview, files);
        this
    }

    /// The pictures that get a preview, each once.
    pub fn previews(&self) -> (r: &Vec<TestFile>)
        ensures
            r@.to_set() == self.preview_set(),
    {
        &self.preview
    }
}

/// The text of the test sidecar before its rating.
pub open spec fn sidecar_head() -> Seq<char> {
    "<?xml version=\"1.0\" encoding=\"UTF-8\"?>\n<x:xmpmeta xmlns:x=\"adobe:ns:meta/\" x:xmptk=\"XMP Core 4.4.0-Exiv2\">\n <rdf:RDF xmlns:rdf=\"http://www.w3.org/1999/02/22-rdf-syntax-ns#\">\n  <rdf:Description rdf:about=\"\"\n    xmlns:xmp=\"http://ns.adobe.com/xap/1.0/\"\n    xmlns:xmpMM=\"http://ns.adobe.com/xap/1.0/mm/\"\n    xmlns:darktable=\"http://darktable.sf.net/\"\n   xmp:Rating=\""@
}

/// The text of the test sidecar between its rating and the raw's name.
pub open spec fn sidecar_middle() -> Seq<char> {
    "\"\n   xmpMM:DerivedFrom=\""@
}

/// The text of the test sidecar after the raw's name: the raw is a `.NEF`,
/// and darktable's history holds twelve enabled edits.
pub open spec fn sidecar_tail() -> Seq<char> {
    ".NEF\"\n   darktable:history_end=\"12\">\n   <darktable:masks_history>\n    <rdf:Seq/>\n   </darktable:masks_history>\n   <darktable:history>\n    <rdf:Seq>\n     <rdf:li\n      darktable:num=\"0\"\n      darktable:operation=\"rawprepare\"\n      darktable:enabled=\"1\"\n      darktable:modversion=\"2\"\n      darktable:multi_priority=\"0\"/>\n     <rdf:li\n      darktable:num=\"1\"\n      darktable:operation=\"demosaic\"\n      darktable:enabled=\"1\"\n      darktable:modversion=\"4\"\n      darktable:multi_priority=\"0\"/>\n     <rdf:li\n      darktable:num=\"2\"\n      darktable:operation=\"colorin\"\n      darktable:enabled=\"1\"\n      darktable:modversion=\"7\"\n      darktable:multi_priority=\"0\"/>\n     <rdf:li\n      darktable:num=\"3\"\n      darktable:operation=\"colorout\"\n      darktable:enabled=\"1\"\n      darktable:modversion=\"5\"\n      darktable:multi_priority=\"0\"/>\n     <rdf:li\n      darktable:num=\"4\"\n      darktable:operation=\"gamma\"\n      darktable:enabled=\"1\"\n      darktable:modversion=\"1\"\n      darktable:multi_priority=\"0\"/>\n     <rdf:li\n      darktable:num=\"5\"\n      darktable:operation=\"temperature\"\n      darktable:enabled=\"1\"\n      darktable:modversion=\"4\"\n      darktable:multi_priority=\"0\"/>\n     <rdf:li\n      darktable:num=\"6\"\n      darktable:operation=\"highlights\"\n      darktable:enabled=\"1\"\n      darktable:modversion=\"4\"\n      darktable:multi_priority=\"0\"/>\n     <rdf:li\n      darktable:num=\"7\"\n      darktable:operation=\"agx\"\n      darktable:enabled=\"1\"\n      darktable:modversion=\"7\"\n      darktable:multi_priority=\"0\"/>\n     <rdf:li\n      darktable:num=\"8\"\n      darktable:operation=\"channelmixerrgb\"\n      darktable:enabled=\"1\"\n      darktable:modversion=\"3\"\n      darktable:multi_priority=\"0\"/>\n     <rdf:li\n      darktable:num=\"9\"\n      darktable:operation=\"exposure\"\n      darktable:enabled=\"1\"\n      darktable:modversion=\"6\"\n      darktable:multi_priority=\"0\"/>\n     <rdf:li\n      darktable:num=\"10\"\n      darktable:operation=\"flip\"\n      darktable:enabled=\"1\"\n      darktable:modversion=\"2\"\n      darktable:multi_priority=\"0\"/>\n     <rdf:li\n      darktable:num=\"11\"\n      darktable:operation=\"lens\"\n      darktable:enabled=\"1\"\n      darktable:modversion=\"10\"\n      darktable:multi_priority=\"0\"/>\n    </rdf:Seq>\n   </darktable:history>\n  </rdf:Description>\n </rdf:RDF>\n</x:xmpmeta>\n"@
}

/// The test sidecar with the placeholders `<RATING>` and `<FILENAME>` where
/// the rating and the raw's name go.
pub fn small_raw_xmp_template() -> (r: String)
    ensures
        r@ == sidecar_head() + "<RATING>"@ + sidecar_middle() + "<FILENAME>"@ + sidecar_tail(),
{
    sidecar_text("<RATING>", "<FILENAME>")
}

/// The test sidecar with `rating` and `name` filled in.
pub fn sidecar_text(rating: &str, name: &str) -> (r: String)
    ensures
        r@ == sidecar_head() + rating@ + sidecar_middle() + name@ + sidecar_tail(),
{
    let mut s = String::from_str("<?xml version=\"1.0\" encoding=\"UTF-8\"?>\n<x:xmpmeta xmlns:x=\"adobe:ns:meta/\" x:xmptk=\"XMP Core 4.4.0-Exiv2\">\n <rdf:RDF xmlns:rdf=\"http://www.w3.org/1999/02/22-rdf-syntax-ns#\">\n  <rdf:Description rdf:about=\"\"\n    xmlns:xmp=\"http://ns.adobe.com/xap/1.0/\"\n    xmlns:xmpMM=\"http://ns.adobe.com/xap/1.0/mm/\"\n    xmlns:darktable=\"http://darktable.sf.net/\"\n   xmp:Rating=\"");
    s.append(rating);
    s.append("\"\n   xmpMM:DerivedFrom=\"");
    s.append(name);
    s.append(".NEF\"\n   darktable:history_end=\"12\">\n   <darktable:masks_history>\n    <rdf:Seq/>\n   </darktable:masks_history>\n   <darktable:history>\n    <rdf:Seq>\n     <rdf:li\n      darktable:num=\"0\"\n      darktable:operation=\"rawprepare\"\n      darktable:enabled=\"1\"\n      darktable:modversion=\"2\"\n      darktable:multi_priority=\"0\"/>\n     <rdf:li\n      darktable:num=\"1\"\n      darktable:operation=\"demosaic\"\n      darktable:enabled=\"1\"\n      darktable:modversion=\"4\"\n      darktable:multi_priority=\"0\"/>\n     <rdf:li\n      darktable:num=\"2\"\n      darktable:operation=\"colorin\"\n      darktable:enabled=\"1\"\n      darktable:modversion=\"7\"\n      darktable:multi_priority=\"0\"/>\n     <rdf:li\n      darktable:num=\"3\"\n      darktable:operation=\"colorout\"\n      darktable:enabled=\"1\"\n      darktable:modversion=\"5\"\n      darktable:multi_priority=\"0\"/>\n     <rdf:li\n      darktable:num=\"4\"\n      darktable:operation=\"gamma\"\n      darktable:enabled=\"1\"\n      darktable:modversion=\"1\"\n      darktable:multi_priority=\"0\"/>\n     <rdf:li\n      darktable:num=\"5\"\n      darktable:operation=\"temperature\"\n      darktable:enabled=\"1\"\n      darktable:modversion=\"4\"\n      darktable:multi_priority=\"0\"/>\n     <rdf:li\n      darktable:num=\"6\"\n      darktable:operation=\"highlights\"\n      darktable:enabled=\"1\"\n      darktable:modversion=\"4\"\n      darktable:multi_priority=\"0\"/>\n     <rdf:li\n      darktable:num=\"7\"\n      darktable:operation=\"agx\"\n      darktable:enabled=\"1\"\n      darktable:modversion=\"7\"\n      darktable:multi_priority=\"0\"/>\n     <rdf:li\n      darktable:num=\"8\"\n      darktable:operation=\"channelmixerrgb\"\n      darktable:enabled=\"1\"\n      darktable:modversion=\"3\"\n      darktable:multi_priority=\"0\"/>\n     <rdf:li\n      darktable:num=\"9\"\n      darktable:operation=\"exposure\"\n      darktable:enabled=\"1\"\n      darktable:modversion=\"6\"\n      darktable:multi_priority=\"0\"/>\n     <rdf:li\n      darktable:num=\"10\"\n      darktable:operation=\"flip\"\n      darktable:enabled=\"1\"\n      darktable:modversion=\"2\"\n      darktable:multi_priority=\"0\"/>\n     <rdf:li\n      darktable:num=\"11\"\n      darktable:operation=\"lens\"\n      darktable:enabled=\"1\"\n      darktable:modversion=\"10\"\n      darktable:multi_priority=\"0\"/>\n    </rdf:Seq>\n   </darktable:history>\n  </rdf:Description>\n </rdf:RDF>\n</x:xmpmeta>\n");
    s
}

/// The sidecar of `file` with `rating`, as the test trees hold it.
pub fn sidecar_for(file: TestFile, rating: Rating) -> (r: String)
    ensures
        r@ == sidecar_head() + rating.spec_text() + sidecar_middle() + file.spec_name() + sidecar_tail(),
{
    sidecar_text(rating.text(), file.name())
}

} // verus!
