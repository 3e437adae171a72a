//! In-memory documentation store for configuration options.
//!
//! The crate loads machine-generated JSON documentation for configuration
//! options, normalizes two differently shaped schemas into one canonical
//! record type, and answers case-insensitive prefix and substring queries
//! against option names.

pub mod docs;
pub mod errors;
pub mod jsonval;
pub mod normalize;
pub mod store;
pub mod strutil;

pub use docs::{Description, JsonOptionDocumentation, OptionDocumentation};
pub use errors::Errors;
pub use normalize::try_from_slice;
pub use store::{DocEntry, OptionsDatabase, OptionsDatabaseType};
