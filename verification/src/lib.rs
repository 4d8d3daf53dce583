//! Core data structures and editing rules of the DrafftInk whiteboard.
//!
//! Geometry (coordinates, sizes, rotation) is kept outside this crate; what
//! stands here is the integer, identifier and text logic of the whiteboard:
//! style enums and their cycling, colours, the document's z-order and undo
//! history, grouping, text colour runs, image formats and data, the
//! collaborative document's structure and field encodings, the Excalidraw
//! import decisions, the input state machine, keyboard commands and
//! shortcuts, the page-address parameters and the plain state behind the
//! user interface.
pub mod actions;
pub mod canvas;
pub mod collab;
pub mod crdt;
pub mod excalidraw;
pub mod input;
pub mod keys;
pub mod press;
pub mod selection;
pub mod shapes;
pub mod shortcuts;
pub mod text_util;
pub mod ui;
pub mod url;
pub mod zorder;
