//! The operator's description of a binding, and the checks that it has to pass
//! before anything is registered.
//!
//! One binding is one operator-fixed statement, exposed as one tool, resource
//! or prompt. Caller input reaches the engine only as bound values.

use vstd::prelude::*;

use crate::names::NameMap;
use crate::sql::{count_placeholders, placeholders};
use crate::surface::Surface;
use crate::text::{
    blank, contains, contains_text, decimal, each_once, identifier, is_blank,
    is_identifier, opt_text, push_once, rejection, texts, trim, trimmed, u128_text,
};

verus! {

/// One database to attach at open, as `ATTACH '<source>' AS <alias>`.
#[derive(Debug, Clone)]
pub struct DuckDbAttach {
    /// The catalog alias; `[A-Za-z_][A-Za-z0-9_]*`.
    pub alias: String,
    /// A file path or a connection string, fixed by the operator.
    pub source: String,
    /// Attach the catalog read-only.
    pub read_only: bool,
}

/// What a binding does.
#[derive(Debug, Clone, Copy, PartialEq, Eq, Structural)]
pub enum DuckDbOperation {
    /// Run the operator-fixed statement.
    Query,
    /// List tables and views from `information_schema.tables`.
    ListTables,
    /// List the columns of a table from `information_schema.columns`.
    ListColumns,
    /// Read rows of a Parquet or CSV file that the operator configured.
    ReadFile,
}

impl Default for DuckDbOperation {
    fn default() -> (op: DuckDbOperation)
        ensures
            op == DuckDbOperation::Query,
    {
        DuckDbOperation::Query
    }
}

impl DuckDbOperation {
    /// The word that stands for this operation on the wire.
    pub open spec fn word(self) -> Seq<char> {
        match self {
            DuckDbOperation::Query => "query"@,
            DuckDbOperation::ListTables => "list_tables"@,
            DuckDbOperation::ListColumns => "list_columns"@,
            DuckDbOperation::ReadFile => "read_file"@,
        }
    }

    /// The word that stands for this operation on the wire.
    #[must_use]
    pub fn as_str(self) -> (word: &'static str)
        ensures
            word@ == self.word(),
    {
        match self {
            DuckDbOperation::Query => "query",
            DuckDbOperation::ListTables => "list_tables",
            DuckDbOperation::ListColumns => "list_columns",
            DuckDbOperation::ReadFile => "read_file",
        }
    }

    /// Whether this operation reads the catalog.
    #[must_use]
    pub fn is_catalog(self) -> (r: bool)
        ensures
            r == (self == DuckDbOperation::ListTables || self == DuckDbOperation::ListColumns),
    {
        match self {
            DuckDbOperation::ListTables | DuckDbOperation::ListColumns => true,
            _ => false,
        }
    }
}

/// The format of an external file.
#[derive(Debug, Clone, Copy, PartialEq, Eq, Structural)]
pub enum ReadFileFormat {
    /// Read through `read_parquet`.
    Parquet,
    /// Read through `read_csv_auto`.
    Csv,
}

impl Default for ReadFileFormat {
    fn default() -> (format: ReadFileFormat)
        ensures
            format == ReadFileFormat::Parquet,
    {
        ReadFileFormat::Parquet
    }
}

impl ReadFileFormat {
    /// The table function of the engine that reads this format.
    pub open spec fn function_name(self) -> Seq<char> {
        match self {
            ReadFileFormat::Parquet => "read_parquet"@,
            ReadFileFormat::Csv => "read_csv_auto"@,
        }
    }

    /// The table function of the engine that reads this format.
    #[must_use]
    pub fn table_function(self) -> (name: &'static str)
        ensures
            name@ == self.function_name(),
    {
        match self {
            ReadFileFormat::Parquet => "read_parquet",
            ReadFileFormat::Csv => "read_csv_auto",
        }
    }
}

/// An external file to read. The path is the operator's: no caller argument
/// reaches it.
#[derive(Debug, Clone, PartialEq)]
pub struct ReadFileConfig {
    /// The file path or glob.
    pub path: String,
    /// The file format.
    pub format: ReadFileFormat,
    /// The columns to read; all of them where this is empty.
    pub columns: Vec<String>,
    /// The condition on rows, whose `?` placeholders are bound from the
    /// parameters.
    pub predicate: Option<String>,
}

/// The filters of a catalog operation. Each is a fixed value with, optionally,
/// the name of a call argument that overrides it.
#[derive(Debug, Clone, PartialEq)]
pub struct CatalogFilterConfig {
    pub catalog: Option<String>,
    pub schema: Option<String>,
    pub table: Option<String>,
    pub table_type: Option<String>,
    pub catalog_arg: Option<String>,
    pub schema_arg: Option<String>,
    pub table_arg: Option<String>,
    pub table_type_arg: Option<String>,
}

impl Default for CatalogFilterConfig {
    fn default() -> (cfg: CatalogFilterConfig)
        ensures
            cfg.is_empty(),
    {
        CatalogFilterConfig {
            catalog: None,
            schema: None,
            table: None,
            table_type: None,
            catalog_arg: None,
            schema_arg: None,
            table_arg: None,
            table_type_arg: None,
        }
    }
}

/// The texts that are there, in order.
pub open spec fn given(list: Seq<Option<Seq<char>>>) -> Seq<Seq<char>>
    decreases list.len(),
{
    if list.len() == 0 {
        Seq::empty()
    } else {
        match list.last() {
            Some(t) => given(list.drop_last()).push(t),
            None => given(list.drop_last()),
        }
    }
}

/// Adds an optional name to a list of distinct names.
fn note_name(names: &mut Vec<String>, arg: &Option<String>, Ghost(seen): Ghost<Seq<Option<Seq<char>>>>)
    requires
        texts(old(names)@) == each_once(given(seen)),
    ensures
        texts(final(names)@) == each_once(given(seen.push(opt_text(*arg)))),
{
    proof {
        assert(seen.push(opt_text(*arg)).drop_last() == seen);
    }
    match arg {
        Some(name) => {
            assert(given(seen).push(name@).drop_last() == given(seen));
            push_once(names, name.as_str());
        },
        None => {},
    }
}

impl CatalogFilterConfig {
    /// No filter is set.
    pub open spec fn is_empty(self) -> bool {
        &&& self.catalog is None
        &&& self.schema is None
        &&& self.table is None
        &&& self.table_type is None
        &&& self.catalog_arg is None
        &&& self.schema_arg is None
        &&& self.table_arg is None
        &&& self.table_type_arg is None
    }

    /// The argument names in filter order, where they are set.
    pub open spec fn args(self) -> Seq<Option<Seq<char>>> {
        seq![
            opt_text(self.catalog_arg),
            opt_text(self.schema_arg),
            opt_text(self.table_arg),
            opt_text(self.table_type_arg),
        ]
    }

    /// The call arguments that the filters read, each once, in filter order.
    #[must_use]
    pub fn argument_names(&self) -> (names: Vec<String>)
        ensures
            texts(names@) == each_once(given(self.args())),
    {
        let mut names: Vec<String> = Vec::new();
        let ghost none = Seq::<Option<Seq<char>>>::empty();
        assert(texts(names@) =~= each_once(given(none)));
        note_name(&mut names, &self.catalog_arg, Ghost(none));
        let ghost one = none.push(opt_text(self.catalog_arg));
        note_name(&mut names, &self.schema_arg, Ghost(one));
        let ghost two = one.push(opt_text(self.schema_arg));
        note_name(&mut names, &self.table_arg, Ghost(two));
        let ghost three = two.push(opt_text(self.table_arg));
        note_name(&mut names, &self.table_type_arg, Ghost(three));
        assert(three.push(opt_text(self.table_type_arg)) =~= self.args());
        names
    }
}

/// The bounds on one query.
#[derive(Debug, Clone)]
pub struct DuckDbQueryConfig {
    /// The ceiling on one call, in milliseconds. It is not kept here: a
    /// registered binding hands it, greater than zero, to the program that runs
    /// the engine.
    pub statement_timeout_ms: u64,
    /// The number of rows that are kept; further rows are counted only.
    pub max_rows: usize,
}

impl Default for DuckDbQueryConfig {
    fn default() -> (cfg: DuckDbQueryConfig)
        ensures
            cfg.statement_timeout_ms == 30_000,
            cfg.max_rows == 100_000,
    {
        DuckDbQueryConfig {
            statement_timeout_ms: default_statement_timeout_ms(),
            max_rows: default_max_rows(),
        }
    }
}

/// Thirty seconds.
pub fn default_statement_timeout_ms() -> (ms: u64)
    ensures
        ms == 30_000,
{
    30_000
}

/// A hundred thousand rows.
pub fn default_max_rows() -> (rows: usize)
    ensures
        rows == 100_000,
{
    100_000
}

/// Bindings are read-only unless the operator says otherwise.
pub fn default_read_only() -> (read_only: bool)
    ensures
        read_only,
{
    true
}

/// Two pooled connections.
pub fn default_pool_max_size() -> (size: usize)
    ensures
        size == 2,
{
    2
}

/// A hundred rows to a page.
pub fn default_list_page_size() -> (rows: u64)
    ensures
        rows == 100,
{
    100
}

/// The operator's description of a binding.
#[derive(Debug, Clone)]
pub struct DuckDbBackendSpec {
    /// `:memory:`, or the path of a database file.
    pub database: String,
    /// Open a file read-only, and accept read-only statements alone.
    pub read_only: bool,
    /// Let the engine reach files and the network beyond the database.
    pub allow_external_access: bool,
    /// Statements to run when a connection is opened.
    pub init_sql: Vec<String>,
    /// Databases to attach after `init_sql`.
    pub attach: Vec<DuckDbAttach>,
    /// What the binding does.
    pub operation: DuckDbOperation,
    /// The statement of a query binding.
    pub statement: String,
    /// The filters of a catalog binding.
    pub catalog_filters: CatalogFilterConfig,
    /// The file of a file-reading binding.
    pub read_file: Option<ReadFileConfig>,
    /// Expressions over the call arguments, one for each `?` in order.
    pub params: Vec<String>,
    /// The bounds on one query.
    pub query: DuckDbQueryConfig,
    /// The size of the connection pool of a file database.
    pub pool_max_size: usize,
    /// The surface that the binding serves.
    pub surface: Surface,
    /// A fixed resource URI, on the resource surface.
    pub uri: Option<String>,
    /// The statement that lists resources.
    pub list_query: Option<ListQueryConfig>,
    /// The single-row read of a resource template.
    pub read_query: Option<String>,
    /// The completion query of each template variable.
    pub variable_completions: NameMap<CompletionConfig>,
}

impl DuckDbBackendSpec {
    /// The description of a binding on `database` with everything else left
    /// out.
    pub fn new(database: String) -> (spec: DuckDbBackendSpec)
        ensures
            spec.database == database,
            spec.read_only,
            !spec.allow_external_access,
            spec.init_sql@.len() == 0,
            spec.attach@.len() == 0,
            spec.operation == DuckDbOperation::Query,
            spec.statement@.len() == 0,
            spec.catalog_filters.is_empty(),
            spec.read_file is None,
            spec.params@.len() == 0,
            spec.query.statement_timeout_ms == 30_000,
            spec.query.max_rows == 100_000,
            spec.pool_max_size == 2,
            spec.surface == Surface::Tool,
            spec.uri is None,
            spec.list_query is None,
            spec.read_query is None,
            spec.variable_completions.listing().len() == 0,
    {
        DuckDbBackendSpec {
            database,
            read_only: default_read_only(),
            allow_external_access: false,
            init_sql: Vec::new(),
            attach: Vec::new(),
            operation: DuckDbOperation::default(),
            statement: String::new(),
            catalog_filters: CatalogFilterConfig::default(),
            read_file: None,
            params: Vec::new(),
            query: DuckDbQueryConfig::default(),
            pool_max_size: default_pool_max_size(),
            surface: Surface::default(),
            uri: None,
            list_query: None,
            read_query: None,
            variable_completions: NameMap::new(),
        }
    }
}

/// How a listing is paged.
#[derive(Debug, Clone, Copy, PartialEq, Eq, Structural)]
pub enum ListQueryMode {
    /// By the last value of a column: the first `?` is that value, the second
    /// the page size.
    Keyset,
    /// By a running offset: the first `?` is the page size, the second the
    /// offset.
    Offset,
}

impl Default for ListQueryMode {
    fn default() -> (mode: ListQueryMode)
        ensures
            mode == ListQueryMode::Keyset,
    {
        ListQueryMode::Keyset
    }
}

/// The statement that lists resources, and how it is paged.
#[derive(Debug, Clone, PartialEq)]
pub struct ListQueryConfig {
    /// One row for each resource: a column `uri` and optionally `name`,
    /// `description` and `mime_type`.
    pub sql: String,
    pub mode: ListQueryMode,
    /// The column that a keyset listing is paged by.
    pub cursor_column: Option<String>,
    /// Rows to a page, 1 to 1000.
    pub page_size: u64,
}

/// The query that completes one template variable.
#[derive(Debug, Clone, PartialEq)]
pub struct CompletionConfig {
    /// Candidates in the first column. Its single `?` is bound to the prefix
    /// that the caller typed.
    pub sql: String,
    /// The number of candidates; a hundred where it is left out.
    pub max_results: Option<u32>,
}

/// The column of a keyset listing, without white space at its ends; empty where
/// none is configured.
pub open spec fn cursor_column_text(cfg: ListQueryConfig) -> Seq<char> {
    match cfg.cursor_column {
        Some(c) => trimmed(c@),
        None => Seq::empty(),
    }
}

/// Why a listing is rejected, if it is.
pub open spec fn list_query_rejection(cfg: ListQueryConfig) -> Option<Seq<char>> {
    let column = cursor_column_text(cfg);
    if is_blank(cfg.sql@) {
        Some("list_query.sql must not be empty"@)
    } else if !(1 <= cfg.page_size <= 1_000) {
        Some("list_query.page_size ("@ + decimal(cfg.page_size as int) + ") must be in 1..=1000"@)
    } else if cfg.mode == ListQueryMode::Offset {
        None
    } else if column.len() == 0 {
        Some("list_query.cursor_column is required for mode: keyset"@)
    } else if !is_identifier(column) {
        Some("list_query.cursor_column '"@ + column + "' is not a safe SQL identifier"@)
    } else {
        None
    }
}

/// Checks the statement that lists resources: a statement, a page size of 1 to
/// 1000 and, for a keyset listing, a column that is a safe identifier.
pub fn validate_list_query(cfg: &ListQueryConfig) -> (r: Result<(), String>)
    ensures
        rejection(r) == list_query_rejection(*cfg),
{
    if blank(cfg.sql.as_str()) {
        return Err("list_query.sql must not be empty".to_owned());
    }
    if cfg.page_size == 0 || cfg.page_size > 1_000 {
        let mut message = "list_query.page_size (".to_owned();
        message.append(u128_text(cfg.page_size as u128).as_str());
        message.append(") must be in 1..=1000");
        return Err(message);
    }
    if cfg.mode == ListQueryMode::Keyset {
        let column = match &cfg.cursor_column {
            Some(c) => trim(c.as_str()),
            None => String::new(),
        };
        if column.as_str().is_empty() {
            return Err("list_query.cursor_column is required for mode: keyset".to_owned());
        }
        if !is_safe_sql_identifier(column.as_str()) {
            let mut message = "list_query.cursor_column '".to_owned();
            message.append(column.as_str());
            message.append("' is not a safe SQL identifier");
            return Err(message);
        }
    }
    Ok(())
}

/// Why a completion query is rejected, if it is.
pub open spec fn completion_rejection(name: Seq<char>, sql: Seq<char>) -> Option<Seq<char>> {
    if is_blank(sql) {
        Some("variable_completions."@ + name + ".sql must not be empty"@)
    } else if placeholders(sql) != 1 {
        Some(
            "variable_completions."@ + name
                + ".sql must reference exactly one `?` placeholder (bound to the typed prefix)"@,
        )
    } else {
        None
    }
}

/// Checks the completion query of the template variable `name`: a statement
/// with exactly one placeholder, for the prefix. A `?` in a string literal, a
/// quoted name or a comment is none.
pub fn validate_completion(name: &str, cfg: &CompletionConfig) -> (r: Result<(), String>)
    ensures
        rejection(r) == completion_rejection(name@, cfg.sql@),
{
    if blank(cfg.sql.as_str()) {
        let mut message = "variable_completions.".to_owned();
        message.append(name);
        message.append(".sql must not be empty");
        return Err(message);
    }
    if count_placeholders(cfg.sql.as_str()) != 1 {
        let mut message = "variable_completions.".to_owned();
        message.append(name);
        message.append(
            ".sql must reference exactly one `?` placeholder (bound to the typed prefix)",
        );
        return Err(message);
    }
    Ok(())
}

/// The first name that is no safe identifier.
pub open spec fn first_unsafe(names: Seq<Seq<char>>) -> Option<Seq<char>>
    decreases names.len(),
{
    if names.len() == 0 {
        None
    } else if !is_identifier(names[0]) {
        Some(names[0])
    } else {
        first_unsafe(names.drop_first())
    }
}

/// Why an external file is rejected, if it is.
pub open spec fn read_file_rejection(cfg: ReadFileConfig) -> Option<Seq<char>> {
    if is_blank(cfg.path@) {
        Some("read_file.path must not be empty"@)
    } else if contains_text(cfg.path@, "cred://"@) {
        Some(
            "read_file.path must not contain a bare cred:// URI — use ${cred://…} (resolved at config load)"@,
        )
    } else if first_unsafe(texts(cfg.columns@)) is Some {
        Some(
            "read_file.columns entry '"@ + first_unsafe(texts(cfg.columns@))->0
                + "' is not a safe SQL identifier"@,
        )
    } else if cfg.predicate matches Some(p) && is_blank(p@) {
        Some("read_file.predicate must not be empty when set"@)
    } else {
        None
    }
}

/// Checks an external file: a path without a bare credential reference, columns
/// that are safe identifiers, and a condition that is not blank.
pub fn validate_read_file(cfg: &ReadFileConfig) -> (r: Result<(), String>)
    ensures
        rejection(r) == read_file_rejection(*cfg),
{
    if blank(cfg.path.as_str()) {
        return Err("read_file.path must not be empty".to_owned());
    }
    if contains(cfg.path.as_str(), "cred://") {
        return Err(
            "read_file.path must not contain a bare cred:// URI — use ${cred://…} (resolved at config load)".to_owned(),
        );
    }
    let ghost columns = texts(cfg.columns@);
    let mut i: usize = 0;
    assert(columns.skip(0) == columns);
    while i < cfg.columns.len()
        invariant
            columns == texts(cfg.columns@),
            i <= cfg.columns@.len(),
            !is_blank(cfg.path@),
            !contains_text(cfg.path@, "cred://"@),
            first_unsafe(columns.skip(i as int)) == first_unsafe(columns),
        decreases cfg.columns@.len() - i,
    {
        assert(columns.skip(i as int)[0] == cfg.columns@[i as int]@);
        if !is_safe_sql_identifier(cfg.columns[i].as_str()) {
            let mut message = "read_file.columns entry '".to_owned();
            message.append(cfg.columns[i].as_str());
            message.append("' is not a safe SQL identifier");
            return Err(message);
        }
        assert(columns.skip(i as int).drop_first() == columns.skip(i + 1));
        i += 1;
    }
    match &cfg.predicate {
        Some(p) => {
            if blank(p.as_str()) {
                return Err("read_file.predicate must not be empty when set".to_owned());
            }
        },
        None => {},
    }
    Ok(())
}

/// Whether `s` is a safe SQL identifier: `[A-Za-z_][A-Za-z0-9_]*`.
pub fn is_safe_sql_identifier(s: &str) -> (r: bool)
    ensures
        r == is_identifier(s@),
{
    identifier(s)
}

} // verus!
