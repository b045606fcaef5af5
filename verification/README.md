# norad

A library for the [Unified Font Object](http://unifiedfontobject.org) format: fonts,
their layers and glyphs, glif files, feature files, kerning, groups and designspace
documents, with the rules of the format stated in contracts and proved with Verus.

## Layout

- `src/` is the verified library. Floats are carried by their bits (`FloatBits`,
  `Float32Bits`); where a number must be read or written as text, or computed with,
  the caller hands the library a function that does it.
  - `glyph/`: glyphs and their outlines; the glif reader (`parse`, `attrs`, `xml`),
    the glif writer (`serialize`, `writer`), the outline builder and the drawing of
    contours as paths.
  - `layer.rs`, `font.rs`, `non_file_io.rs`: layers and layer sets, the font,
    loading a font through a source of files, and saving it as the list of files to
    write. Packages of format version 3 are read; older ones are refused with
    `SourceUnsupportedFormatVersion`.
  - `fontinfo.rs`, `groups.rs`, `kerning.rs`, `features.rs`, `datastore.rs`,
    `designspace.rs`: the other parts of a font package and of designspace documents.
  - `plist_ops.rs`: the property-list operations the library makes with the `plist`
    crate, each with the contract it relies on.
- `tests/` runs the library on concrete fonts and glyphs.
- `app/` reads and writes packages and glif files on disk, holds the serde forms of
  the property-list types, and does the floating-point work (`kurbo` paths,
  transforms, format versions).
