# core_lib

The verified core of a 2D pattern-drafting CAD program, written in Verus.

A pattern is a *document*: an ordered history of construction tools (base
points, end lines, along-line points, normals, bisectors, arcs, splines,
pieces, ...), each referring to earlier tools by id, plus a table of
measurements and custom variables. Geometry is resolved from that history.

## Layout

- `src/` — the verified library.
  - `document.rs`: the tool history, its well-formedness (unique ids, a
    counter above every id, distinct variable names), adding, removing,
    replacing and re-inserting tools. Adding and replacing check that every
    referenced tool exists; removing refuses a tool that is still used.
  - `undo.rs`: recorded edits, undo and redo, and the laws relating them:
    undoing an edit restores the document; undo then redo and redo then
    undo give back what was there; and a history built by the recording
    edits, undo and redo keeps matching its document (every reference
    resolves, every undoable edit is done in the document reached by
    undoing the later ones), so any number of undos followed by as many
    redos gives back the same document and history.
  - `tool_controller.rs`: the click-by-click state machine of the drafting
    canvas and the dialogs that finish a tool.
  - `action_script.rs`: replaying a scripted list of named actions onto a
    document, with the name table that resolves point names to ids.
  - `formula/`: tokenizer, parser and the built-in function table of the
    formula language.
  - `container.rs`, `variable.rs`, `geo.rs`, `id.rs`, `scalar.rs`: the
    resolved-object store and the value types.
  - `output.rs`, `run_args.rs`, `recompute.rs`, `sync_loop.rs`, `watch.rs`:
    the geometry snapshot, command-line argument parsing, dependency
    lookup, and the decision step of the measurement-file sync loop.
- `tests/` — tests of the library on concrete values.
- `app/` — the program around the library: file and JSON I/O, the file
  watcher, floating-point geometry and formula evaluation, image export
  and the drafting window.

Coordinates and formula values cross the library boundary as `Real`, the
bit pattern of an IEEE double; `==` on it is IEEE equality, and all
arithmetic on such values happens in `app/`.
