# dark_sorter

Keeps a tree of jpeg previews next to a tree of raw photos: every raw whose
XMP sidecar gives it one or more stars gets a preview exported by
`darktable-cli`, previews of pictures that lose their rating are removed, and
previews are exported again when darktable's history of edits changes.
Optionally each directory of previews is an external library in Immich,
rescanned a while after its previews change.

- `src/` is the library, verified with Verus: the sidecar parsers (rating,
  raw file name, darktable history), the path rules between the two trees, the
  decisions of a scan, of the file watcher and of the main loop, the record of
  exported edits, the checks made before an export, and the state of the
  Immich sync.
- `app/` is the program around it: command line, file system and process
  I/O, fanotify, HTTP calls to Immich, and the serde copies of library types.
- `tests/` exercises the library on concrete values.
