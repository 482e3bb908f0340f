//! Reader for legacy dBASE III+ tabular database files: a fixed 32-byte
//! header, a table of 32-byte field descriptors, and fixed-width records.
//!
//! All decoding works on an in-memory byte stream; opening a path and any
//! other I/O belongs to the caller.

pub mod error;
pub mod field;
pub mod file;
pub mod header;
pub mod record;
pub(crate) mod text;

pub use error::DbfError;
pub use field::Field;
pub use file::File;
pub use header::FileType;
pub use header::Header;
pub use record::DbfType;
pub use record::Record;
