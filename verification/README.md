# previewer

The verified core of a GNOME image and PDF viewer that annotates documents
and signs PDFs with a saved signature.

`src/` is the library, checked by Verus:

- `undo`: the bounded undo / redo history with coalescing of repeated
  edits, its mathematical model (`UndoHistory`) and the laws it obeys
  (redo inverts undo, a coalescing run records once, the capacity bound).
- `editor`: the editing decisions over any item type: deleting the
  selection (undo right after gives the items back), adding a drawn shape
  or a text box, closing the inline text editor, undo and redo, the undo
  key of each style edit, search stepping that wraps at both ends, the
  overwrite question asked once per path, saving, and turning the view.
- `decode`, `codec`, `raster`: RGBA8 image buffers, decoding through the
  `image` crate, quarter-turn rotation (four turns are the identity).
- `import`: PNG signature import, trimmed to the bounding box of the
  non-transparent pixels.
- `surface`: premultiplied BGRA rows for Cairo image surfaces, and the way
  back to straight RGBA (opaque images survive the round trip).
- `order`: the stable by-id order of the signature library and the
  highest-first order in which annotations are removed.
- `library`, `settings`, `sidecar`, `paths`, `text`: where files live and
  how they are named.
- `pdf_names`: the PDF names and strings through which arrowheads, fonts
  and text survive a save and a re-open.
- `ui`, `selection`, `annotation`, `render`, `stroke`: the toolkit-free
  decisions and plain types of the viewer.

`app/` holds what the library cannot (its `editor` drives the library's
editing decisions over the real annotations): file and environment access, JSON
persistence, the floating-point annotation geometry, and the PDF engine
plumbing (pdfium and lopdf).

`tests/` exercises the library with the real outside crates linked.
