# drafftink

The document model and editing rules of the DrafftInk whiteboard, written in
Verus: every function in `src/` is verified against its `requires`/`ensures`
contract, and the laws that tie functions together (undo/redo, z-order moves,
grouping, snapshot and code round trips, keyboard shortcuts) are stated and proved as
proof functions.

Geometry (coordinates, sizes, hit testing, rendering) is floating-point and
lives in `app/`, which carries it as the payload `P` of the library's
`Shape<P>`.

## Layout

- `src/canvas.rs` — the canvas document: shapes by identifier, z-order,
  undo/redo history, grouping, export of a selection; the canvas selection.
- `src/zorder.rs` — z-order operations and their laws.
- `src/shapes/` — identifiers, colours, style enumerations, groups of shapes,
  text colour runs, image formats and base64 data.
- `src/crdt/` — the collaborative document on Loro (z-order list, shape keys,
  name, undo) and the integer encodings of shape fields.
- `src/collab.rs` — collaboration: the room, the queue of messages for the
  relay server, awareness, and the handling of the server's messages
  (decoding and importing peers' CRDT data).
- `src/excalidraw.rs` — reading an Excalidraw file's JSON (through
  serde_json), its colours, and choosing shape kinds and styles for the
  imported elements.
- `src/press.rs` — what a pointer press starts and how it changes the
  selection; what a release commits (selection rectangles, new shapes,
  cancelled copies).
- `src/actions.rs` — the document edits of the menus and buttons: undo,
  redo, clearing, z-order moves of the selection.
- `src/input.rs` — pressed buttons and keys, drags and double clicks.
- `src/keys.rs` — which command a key press asks for; the toolbar's tools.
- `src/url.rs` — room and server from the page address; WebSocket URLs.
- `src/shortcuts.rs`, `src/ui.rs`, `src/selection.rs`, `src/text_util.rs`.
- `app/` — geometry, camera, hit testing, handles, the pointer gestures'
  geometry, the JSON files and the Excalidraw geometry, the shape fields in the collaborative document, the JSON form of the
  collaboration messages, pointer timing.
- `tests/` — tests of the library on concrete values.
