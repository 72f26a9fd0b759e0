//! An embedded analytical database as a backend of tools, resources and prompts.
//!
//! A binding is one statement that the operator fixed, exposed under a name.
//! This library holds the rules of such a backend and leaves the engine, the
//! expression evaluator, the read-only guard, the network and the clock to the
//! program around it:
//!
//! - [`types`] and [`register`]: the operator's description of a binding, and the
//!   checks that it has to pass.
//! - [`plugin`] and [`call`]: the registered bindings, and what becomes of a call
//!   to one of them.
//! - [`duckdb`], [`params`] and [`surface`]: the statements that are sent, the
//!   values that are bound to them, and the rows that come back.
//! - [`envelope`] and [`audit`]: the replies, and the trail of failures.
//! - [`watch`]: watching a database file for changes.
//! - [`json`], [`names`], [`sql`] and [`text`]: the data that all of these are
//!   made of.
//! - [`laws`]: what holds of the library as a whole.

pub mod audit;
pub mod call;
pub mod duckdb;
pub mod envelope;
pub mod json;
pub mod laws;
pub mod names;
pub mod params;
pub mod plugin;
pub mod register;
pub mod sql;
pub mod surface;
pub mod text;
pub mod types;
pub mod watch;

pub use plugin::DuckDbBackendPlugin;
pub use types::{
    validate_completion, validate_list_query, validate_read_file,
    CatalogFilterConfig as DuckDbCatalogFilterConfig, CompletionConfig as DuckDbCompletionConfig,
    DuckDbAttach, DuckDbBackendSpec, DuckDbOperation, DuckDbQueryConfig,
    ListQueryConfig as DuckDbListQueryConfig, ListQueryMode,
    ReadFileConfig as DuckDbReadFileConfig, ReadFileFormat,
};
