# xgr_pbxproj

A Verus library that turns a typed project description into the files of an
Xcode project: the object graph of `project.pbxproj` with its stable object
identifiers, the text of the project file, the references Xcode gives each
object (MD5 digests of seed strings), schemes, breakpoints and property lists.

Layout:

- `src/` — the verified library. `model.rs` holds the project description;
  `generator.rs`, `embed.rs`, `transitive.rs` and `scripts.rs` build the
  graph; `references.rs` walks it and gives each object its reference;
  `serialize.rs` writes the project file; `schemes.rs`, `scheme_files.rs`,
  `plist.rs` and `xml.rs` write the other files; `laws.rs` states what holds
  across calls.
- `tests/` — tests that run the library on concrete projects.
- `app/` — the thin layer that reads and writes files and runs commands.
