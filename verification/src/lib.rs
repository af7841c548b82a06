//! Columnar in-memory arrays: typed value buffers paired with validity masks,
//! a gather ("take") kernel over them, an eight-lane comparison layer and a
//! growable builder for fixed-size binary arrays.

pub mod error;
pub mod datatypes;
pub mod types;
pub mod bitmap;
pub mod buffer;
pub mod array;
pub mod compute;
