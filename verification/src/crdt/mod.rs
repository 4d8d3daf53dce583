//! The collaborative (CRDT) document and the encodings of shape fields in it.
pub mod convert;
pub mod schema;
pub use schema::{CrdtDocument, NAME_KEY, SHAPES_KEY, Z_ORDER_KEY};
