//! A typed store for the options of a book.
//!
//! A schema declares every option: its key, the kind of value that it
//! holds, its default and what it is for. `schema` holds the schema text and
//! parses it, `init` makes a store from a schema, `store` keeps the values
//! and holds every raw value that is set to the kind that the schema
//! declares for its key, and `describe` renders the schema for a reader.
//! `laws` states what follows for every store, `lines` what holds of the
//! lines of a description, and `builtin` what the text of the schema of the
//! library declares for the options that those laws single out.

pub mod builtin;
pub mod describe;
pub mod error;
pub mod init;
pub mod laws;
pub mod lines;
pub mod path;
pub mod schema;
pub mod store;
pub mod text;
pub mod value;

pub use error::Error;
pub use schema::{SchemaEntry, OPTIONS};
pub use store::BookOptions;
pub use value::{BookOption, OptionKind};
