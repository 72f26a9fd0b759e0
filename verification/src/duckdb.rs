//! What is sent to the engine, and what is made of its answer.
//!
//! Statements are built here from the operator's configuration alone; values
//! that come from a caller are bound to their `?` placeholders. Rows come back
//! as plain cells and leave as JSON, capped at a number of rows.

use vstd::prelude::*;
use vstd::utf8::{decode_utf8, valid_utf8};

use crate::json::{
    integer, object, object_push, object_tree, trees, Json, JsonObject, JsonTree, Members,
};
use crate::params::{bind_views, BindView, DuckBind};
use crate::text::{
    apostrophes_doubled, blank, decimal, double_apostrophes, i128_text, identifier, is_blank,
    is_identifier, join, joined, opt_str, opt_text, same_text, texts, u128_text,
};
use crate::types::DuckDbAttach;

verus! {

// ------------------------------------------------------------------ statements

/// Whether an alias is safe to stand in a statement: `[A-Za-z_][A-Za-z0-9_]*`.
pub fn valid_attach_alias(alias: &str) -> (r: bool)
    ensures
        r == is_identifier(alias@),
{
    identifier(alias)
}

/// The filters of one catalog call; a filter that is left out does not restrict.
#[derive(Debug, Clone, PartialEq)]
pub struct CatalogFilters {
    pub catalog: Option<String>,
    pub schema: Option<String>,
    pub table: Option<String>,
    pub table_type: Option<String>,
}

impl Default for CatalogFilters {
    fn default() -> (filters: CatalogFilters)
        ensures
            filters.catalog is None,
            filters.schema is None,
            filters.table is None,
            filters.table_type is None,
    {
        CatalogFilters { catalog: None, schema: None, table: None, table_type: None }
    }
}

/// The model of the filters of one call.
pub struct FiltersView {
    pub catalog: Option<Seq<char>>,
    pub schema: Option<Seq<char>>,
    pub table: Option<Seq<char>>,
    pub table_type: Option<Seq<char>>,
}

impl View for CatalogFilters {
    type V = FiltersView;

    open spec fn view(&self) -> FiltersView {
        FiltersView {
            catalog: opt_text(self.catalog),
            schema: opt_text(self.schema),
            table: opt_text(self.table),
            table_type: opt_text(self.table_type),
        }
    }
}

/// A column with the value that it has to equal, where one is given.
pub type Filter = (Seq<char>, Option<Seq<char>>);

/// A filter restricts where its value is given and not empty.
pub open spec fn restricts(value: Option<Seq<char>>) -> bool {
    value matches Some(v) && v.len() > 0
}

/// One condition for each filter that restricts, in order.
pub open spec fn conditions(filters: Seq<Filter>) -> Seq<Seq<char>>
    decreases filters.len(),
{
    if filters.len() == 0 {
        Seq::empty()
    } else if restricts(filters.last().1) {
        conditions(filters.drop_last()).push(filters.last().0 + " = ?"@)
    } else {
        conditions(filters.drop_last())
    }
}

/// The value of each filter that restricts, in order.
pub open spec fn filter_binds(filters: Seq<Filter>) -> Seq<BindView>
    decreases filters.len(),
{
    if filters.len() == 0 {
        Seq::empty()
    } else if restricts(filters.last().1) {
        filter_binds(filters.drop_last()).push(BindView::Str(filters.last().1->0))
    } else {
        filter_binds(filters.drop_last())
    }
}

/// A statement with its conditions, if there are any, between head and tail.
pub open spec fn with_conditions(
    head: Seq<char>,
    conditions: Seq<Seq<char>>,
    tail: Seq<char>,
) -> Seq<char> {
    if conditions.len() == 0 {
        head + tail
    } else {
        head + " WHERE "@ + joined(conditions, " AND "@) + tail
    }
}

/// The filters of a listing of tables.
pub open spec fn table_filters(f: FiltersView) -> Seq<Filter> {
    column_filters(f).push(("table_type"@, f.table_type))
}

/// The filters of a listing of columns.
pub open spec fn column_filters(f: FiltersView) -> Seq<Filter> {
    Seq::<Filter>::empty().push(("table_catalog"@, f.catalog)).push(
        ("table_schema"@, f.schema),
    ).push(("table_name"@, f.table))
}

/// The statement that lists tables.
pub open spec fn list_tables_text(f: FiltersView) -> Seq<char> {
    with_conditions(
        "SELECT table_catalog, table_schema, table_name, table_type FROM information_schema.tables"@,
        conditions(table_filters(f)),
        " ORDER BY table_schema, table_name"@,
    )
}

/// The statement that lists columns.
pub open spec fn list_columns_text(f: FiltersView) -> Seq<char> {
    with_conditions(
        "SELECT table_name, column_name, data_type, is_nullable, ordinal_position FROM information_schema.columns"@,
        conditions(column_filters(f)),
        " ORDER BY table_name, ordinal_position"@,
    )
}

/// Adds the condition `column = ?` and its bind, where the filter restricts.
fn push_eq_filter(
    wheres: &mut Vec<String>,
    binds: &mut Vec<DuckBind>,
    column: &str,
    value: &Option<String>,
    Ghost(filters): Ghost<Seq<Filter>>,
)
    requires
        texts(old(wheres)@) == conditions(filters),
        bind_views(old(binds)@) == filter_binds(filters),
    ensures
        texts(final(wheres)@) == conditions(filters.push((column@, opt_text(*value)))),
        bind_views(final(binds)@) == filter_binds(filters.push((column@, opt_text(*value)))),
{
    let ghost longer = filters.push((column@, opt_text(*value)));
    assert(longer.drop_last() =~= filters);
    match value {
        Some(v) => {
            if !v.as_str().is_empty() {
                let mut condition = column.to_owned();
                condition.append(" = ?");
                wheres.push(condition);
                binds.push(DuckBind::Str(v.clone()));
                assert(texts(wheres@) =~= texts(old(wheres)@).push(column@ + " = ?"@));
                assert(bind_views(binds@) =~= bind_views(old(binds)@).push(BindView::Str(v@)));
            }
        },
        None => {},
    }
}

/// `head`, the conditions if there are any, and `tail`.
fn assemble(head: &str, wheres: &Vec<String>, tail: &str) -> (sql: String)
    ensures
        sql@ == with_conditions(head@, texts(wheres@), tail@),
{
    let mut sql = head.to_owned();
    if wheres.len() > 0 {
        sql.append(" WHERE ");
        sql.append(join(wheres, " AND ").as_str());
    }
    sql.append(tail);
    sql
}

/// The statement that lists tables and views, with the values of its filters.
/// Each filter stands in the statement as a `?` and never as its value.
#[must_use]
pub fn build_list_tables_sql(filters: &CatalogFilters) -> (r: (String, Vec<DuckBind>))
    ensures
        r.0@ == list_tables_text(filters@),
        bind_views(r.1@) == filter_binds(table_filters(filters@)),
{
    let mut binds: Vec<DuckBind> = Vec::new();
    let mut wheres: Vec<String> = Vec::new();
    let ghost none = Seq::<Filter>::empty();
    assert(texts(wheres@) =~= conditions(none));
    assert(bind_views(binds@) =~= filter_binds(none));
    push_eq_filter(&mut wheres, &mut binds, "table_catalog", &filters.catalog, Ghost(none));
    let ghost one = none.push(("table_catalog"@, opt_text(filters.catalog)));
    push_eq_filter(&mut wheres, &mut binds, "table_schema", &filters.schema, Ghost(one));
    let ghost two = one.push(("table_schema"@, opt_text(filters.schema)));
    push_eq_filter(&mut wheres, &mut binds, "table_name", &filters.table, Ghost(two));
    let ghost three = two.push(("table_name"@, opt_text(filters.table)));
    push_eq_filter(&mut wheres, &mut binds, "table_type", &filters.table_type, Ghost(three));
    let sql = assemble(
        "SELECT table_catalog, table_schema, table_name, table_type FROM information_schema.tables",
        &wheres,
        " ORDER BY table_schema, table_name",
    );
    (sql, binds)
}

/// The statement that lists columns, with the values of its filters. Each
/// filter stands in the statement as a `?` and never as its value.
#[must_use]
pub fn build_list_columns_sql(filters: &CatalogFilters) -> (r: (String, Vec<DuckBind>))
    ensures
        r.0@ == list_columns_text(filters@),
        bind_views(r.1@) == filter_binds(column_filters(filters@)),
{
    let mut binds: Vec<DuckBind> = Vec::new();
    let mut wheres: Vec<String> = Vec::new();
    let ghost none = Seq::<Filter>::empty();
    assert(texts(wheres@) =~= conditions(none));
    assert(bind_views(binds@) =~= filter_binds(none));
    push_eq_filter(&mut wheres, &mut binds, "table_catalog", &filters.catalog, Ghost(none));
    let ghost one = none.push(("table_catalog"@, opt_text(filters.catalog)));
    push_eq_filter(&mut wheres, &mut binds, "table_schema", &filters.schema, Ghost(one));
    let ghost two = one.push(("table_schema"@, opt_text(filters.schema)));
    push_eq_filter(&mut wheres, &mut binds, "table_name", &filters.table, Ghost(two));
    let sql = assemble(
        "SELECT table_name, column_name, data_type, is_nullable, ordinal_position FROM information_schema.columns",
        &wheres,
        " ORDER BY table_name, ordinal_position",
    );
    (sql, binds)
}

/// The columns to read: all of them where none is named.
pub open spec fn projection_text(columns: Seq<Seq<char>>) -> Seq<char> {
    if columns.len() == 0 {
        "*"@
    } else {
        joined(columns, ", "@)
    }
}

/// The statement that reads a file. It is made of configuration alone.
pub open spec fn read_file_text(
    table_function: Seq<char>,
    path: Seq<char>,
    columns: Seq<Seq<char>>,
    predicate: Option<Seq<char>>,
) -> Seq<char> {
    let read = "SELECT "@ + projection_text(columns) + " FROM "@ + table_function + "('"@
        + apostrophes_doubled(path) + "')"@;
    match predicate {
        Some(p) => if is_blank(p) {
            read
        } else {
            read + " WHERE "@ + p
        },
        None => read,
    }
}

/// The statement that reads rows of the configured file: the path as a quoted
/// literal, the columns or `*`, and the condition where it is not blank.
#[must_use]
pub fn build_read_file_sql(
    table_function: &str,
    path: &str,
    columns: &Vec<String>,
    predicate: Option<&str>,
) -> (sql: String)
    ensures
        sql@ == read_file_text(table_function@, path@, texts(columns@), opt_str(predicate)),
{
    let projection = if columns.len() == 0 {
        "*".to_owned()
    } else {
        join(columns, ", ")
    };
    let mut sql = "SELECT ".to_owned();
    sql.append(projection.as_str());
    sql.append(" FROM ");
    sql.append(table_function);
    sql.append("('");
    sql.append(double_apostrophes(path).as_str());
    sql.append("')");
    match predicate {
        Some(p) => {
            if !blank(p) {
                sql.append(" WHERE ");
                sql.append(p);
            }
        },
        None => {},
    }
    sql
}

// --------------------------------------------------------------------- opening

/// What a pool of connections to a database file opens them with.
#[derive(Debug)]
pub struct DuckDbManager {
    pub database: String,
    pub read_only: bool,
    pub allow_external_access: bool,
    pub init_sql: Vec<String>,
    pub attach: Vec<DuckDbAttach>,
}

impl DuckDbManager {
    #[must_use]
    pub fn new(
        database: String,
        read_only: bool,
        allow_external_access: bool,
        init_sql: Vec<String>,
        attach: Vec<DuckDbAttach>,
    ) -> (manager: DuckDbManager)
        ensures
            manager.database == database,
            manager.read_only == read_only,
            manager.allow_external_access == allow_external_access,
            manager.init_sql == init_sql,
            manager.attach == attach,
    {
        DuckDbManager { database, read_only, allow_external_access, init_sql, attach }
    }
}

/// One step of setting up a fresh connection.
#[derive(Debug, PartialEq)]
pub enum SetupStep {
    /// Run `sql`. Where it fails, opening fails with `failure` and the text of
    /// the engine's error behind it.
    Run { sql: String, failure: String },
    /// Opening fails with this message.
    Refuse(String),
}

/// The model of a step.
pub enum StepView {
    Run(Seq<char>, Seq<char>),
    Refuse(Seq<char>),
}

impl View for SetupStep {
    type V = StepView;

    open spec fn view(&self) -> StepView {
        match *self {
            SetupStep::Run { sql, failure } => StepView::Run(sql@, failure@),
            SetupStep::Refuse(message) => StepView::Refuse(message@),
        }
    }
}

/// The models of a list of steps.
pub open spec fn step_views(steps: Seq<SetupStep>) -> Seq<StepView> {
    steps.map_values(|s: SetupStep| s@)
}

/// How a connection is opened: the engine's guards, then the steps in order up
/// to the first that fails.
#[derive(Debug)]
pub struct OpenPlan {
    /// Whether the engine may reach files and the network.
    pub external_access: bool,
    /// Whether the database file is opened read-only.
    pub open_read_only: bool,
    pub steps: Vec<SetupStep>,
}

impl OpenPlan {
    /// This is how a connection with such settings is opened.
    pub open spec fn is_of(
        self,
        database: Seq<char>,
        read_only: bool,
        allow_external_access: bool,
        init_sql: Seq<Seq<char>>,
        attach: Seq<DuckDbAttach>,
    ) -> bool {
        &&& self.external_access == allow_external_access
        &&& self.open_read_only == (read_only && database != ":memory:"@)
        &&& step_views(self.steps@) == setup_steps(init_sql, attach)
    }
}

/// The operator's statements, as steps.
pub open spec fn init_steps(init_sql: Seq<Seq<char>>) -> Seq<StepView> {
    Seq::new(
        init_sql.len(),
        |i: int| StepView::Run(init_sql[i], "DuckDB init_sql["@ + decimal(i) + "] failed: "@),
    )
}

/// The statement that attaches a database.
pub open spec fn attach_text(a: DuckDbAttach) -> Seq<char> {
    "ATTACH '"@ + apostrophes_doubled(a.source@) + "' AS "@ + a.alias@ + (if a.read_only {
        " (READ_ONLY)"@
    } else {
        ""@
    })
}

/// The step that attaches a database: refused where the alias is not safe.
pub open spec fn attach_step(a: DuckDbAttach) -> StepView {
    if is_identifier(a.alias@) {
        StepView::Run(attach_text(a), "DuckDB attach `"@ + a.alias@ + "` failed: "@)
    } else {
        StepView::Refuse("DuckDB attach alias `"@ + a.alias@ + "` is not a safe identifier"@)
    }
}

/// The databases to attach, as steps; nothing follows a refusal.
pub open spec fn attach_steps(attach: Seq<DuckDbAttach>) -> Seq<StepView>
    decreases attach.len(),
{
    if attach.len() == 0 {
        Seq::empty()
    } else {
        let before = attach_steps(attach.drop_last());
        if before.len() > 0 && before.last() is Refuse {
            before
        } else {
            before.push(attach_step(attach.last()))
        }
    }
}

/// The steps of opening: `init_sql`, then the databases to attach.
pub open spec fn setup_steps(init_sql: Seq<Seq<char>>, attach: Seq<DuckDbAttach>) -> Seq<StepView> {
    init_steps(init_sql) + attach_steps(attach)
}

/// The step that attaches `a`.
fn attach_step_of(a: &DuckDbAttach) -> (step: SetupStep)
    ensures
        step@ == attach_step(*a),
{
    if !valid_attach_alias(a.alias.as_str()) {
        let mut message = "DuckDB attach alias `".to_owned();
        message.append(a.alias.as_str());
        message.append("` is not a safe identifier");
        return SetupStep::Refuse(message);
    }
    let mode = if a.read_only {
        " (READ_ONLY)"
    } else {
        ""
    };
    let mut sql = "ATTACH '".to_owned();
    sql.append(double_apostrophes(a.source.as_str()).as_str());
    sql.append("' AS ");
    sql.append(a.alias.as_str());
    sql.append(mode);
    let mut failure = "DuckDB attach `".to_owned();
    failure.append(a.alias.as_str());
    failure.append("` failed: ");
    SetupStep::Run { sql, failure }
}

/// How a connection to `database` is opened. A file is opened read-only where
/// `read_only` says so; `:memory:` cannot be. External access is off unless it
/// is allowed. Then `init_sql` runs, and the databases are attached.
pub fn plan_open(
    database: &str,
    read_only: bool,
    allow_external_access: bool,
    init_sql: &Vec<String>,
    attach: &Vec<DuckDbAttach>,
) -> (plan: OpenPlan)
    ensures
        plan.external_access == allow_external_access,
        plan.open_read_only == (read_only && database@ != ":memory:"@),
        step_views(plan.steps@) == setup_steps(texts(init_sql@), attach@),
        plan.is_of(database@, read_only, allow_external_access, texts(init_sql@), attach@),
{
    let is_memory = same_text(database, ":memory:");
    let mut steps: Vec<SetupStep> = Vec::new();
    let ghost inits = init_steps(texts(init_sql@));
    let mut i: usize = 0;
    assert(step_views(steps@) =~= inits.take(0));
    while i < init_sql.len()
        invariant
            i <= init_sql@.len(),
            inits == init_steps(texts(init_sql@)),
            step_views(steps@) == inits.take(i as int),
        decreases init_sql@.len() - i,
    {
        let mut failure = "DuckDB init_sql[".to_owned();
        failure.append(u128_text(i as u128).as_str());
        failure.append("] failed: ");
        let ghost before = step_views(steps@);
        steps.push(SetupStep::Run { sql: init_sql[i].clone(), failure });
        assert(step_views(steps@) =~= before.push(inits[i as int]));
        assert(inits.take(i + 1) =~= inits.take(i as int).push(inits[i as int]));
        i += 1;
    }
    assert(inits.take(i as int) =~= inits);
    assert(inits + attach_steps(attach@.take(0)) =~= inits);
    let mut k: usize = 0;
    let mut refused = false;
    while k < attach.len()
        invariant
            k <= attach@.len(),
            step_views(steps@) == inits + attach_steps(attach@.take(k as int)),
            refused == (attach_steps(attach@.take(k as int)).len() > 0 && attach_steps(
                attach@.take(k as int),
            ).last() is Refuse),
        decreases attach@.len() - k,
    {
        let ghost before = attach_steps(attach@.take(k as int));
        assert(attach@.take(k + 1).drop_last() =~= attach@.take(k as int));
        assert(attach@.take(k + 1).last() == attach@[k as int]);
        if !refused {
            let step = attach_step_of(&attach[k]);
            refused = match &step {
                SetupStep::Refuse(_) => true,
                _ => false,
            };
            let ghost views = step_views(steps@);
            steps.push(step);
            assert(step_views(steps@) =~= views.push(step@));
            assert(inits + before.push(step@) =~= (inits + before).push(step@));
        }
        k += 1;
    }
    assert(attach@.take(k as int) =~= attach@);
    OpenPlan {
        external_access: allow_external_access,
        open_read_only: read_only && !is_memory,
        steps,
    }
}

/// What went wrong between this backend and the engine, with the text of the
/// error.
#[derive(Debug)]
pub enum EngineFault {
    /// External access could not be configured.
    ExternalAccess(String),
    /// Read-only access could not be configured.
    ReadOnly(String),
    /// The database could not be opened.
    Open(String),
    /// The worker that opens a pooled connection broke down.
    OpenWorker(String),
    /// The pool could not be built.
    PoolBuild(String),
    /// A pooled connection did not answer.
    Recycle(String),
    /// The statement could not be prepared.
    Prepare(String),
    /// The statement could not be run.
    Query(String),
    /// A row could not be read.
    RowRead(String),
}

impl EngineFault {
    /// The message that this is reported with.
    pub open spec fn report(self) -> Seq<char> {
        match self {
            EngineFault::ExternalAccess(e) => "DuckDB config (external access) failed: "@ + e@,
            EngineFault::ReadOnly(e) => "DuckDB config (read-only) failed: "@ + e@,
            EngineFault::Open(e) => "DuckDB open failed: "@ + e@,
            EngineFault::OpenWorker(e) => "DuckDB open worker task failed: "@ + e@,
            EngineFault::PoolBuild(e) => "DuckDB pool build failed: "@ + e@,
            EngineFault::Recycle(e) => "recycle ping failed: "@ + e@,
            EngineFault::Prepare(e) => "DuckDB prepare failed: "@ + e@,
            EngineFault::Query(e) => "DuckDB query failed: "@ + e@,
            EngineFault::RowRead(e) => "DuckDB row read failed: "@ + e@,
        }
    }

    /// The message that this is reported with.
    pub fn message(&self) -> (message: String)
        ensures
            message@ == self.report(),
    {
        let (what, e) = match self {
            EngineFault::ExternalAccess(e) => ("DuckDB config (external access) failed: ", e),
            EngineFault::ReadOnly(e) => ("DuckDB config (read-only) failed: ", e),
            EngineFault::Open(e) => ("DuckDB open failed: ", e),
            EngineFault::OpenWorker(e) => ("DuckDB open worker task failed: ", e),
            EngineFault::PoolBuild(e) => ("DuckDB pool build failed: ", e),
            EngineFault::Recycle(e) => ("recycle ping failed: ", e),
            EngineFault::Prepare(e) => ("DuckDB prepare failed: ", e),
            EngineFault::Query(e) => ("DuckDB query failed: ", e),
            EngineFault::RowRead(e) => ("DuckDB row read failed: ", e),
        };
        let mut message = what.to_owned();
        message.append(e.as_str());
        message
    }
}

// ------------------------------------------------------------------------ rows

/// The unit of a point in time.
#[derive(Debug, Clone, Copy, PartialEq, Eq, Structural)]
pub enum TimeUnit {
    Second,
    Millisecond,
    Microsecond,
    Nanosecond,
}

impl TimeUnit {
    /// The name of the unit.
    pub open spec fn word(self) -> Seq<char> {
        match self {
            TimeUnit::Second => "Second"@,
            TimeUnit::Millisecond => "Millisecond"@,
            TimeUnit::Microsecond => "Microsecond"@,
            TimeUnit::Nanosecond => "Nanosecond"@,
        }
    }

    /// The name of the unit.
    pub fn name(self) -> (name: &'static str)
        ensures
            name@ == self.word(),
    {
        match self {
            TimeUnit::Second => "Second",
            TimeUnit::Millisecond => "Millisecond",
            TimeUnit::Microsecond => "Microsecond",
            TimeUnit::Nanosecond => "Nanosecond",
        }
    }
}

/// One value of a row.
#[derive(Debug)]
pub enum DuckCell {
    Null,
    Boolean(bool),
    TinyInt(i8),
    SmallInt(i16),
    Int(i32),
    BigInt(i64),
    UTinyInt(u8),
    USmallInt(u16),
    UInt(u32),
    UBigInt(u64),
    HugeInt(i128),
    /// A floating-point value; none where it is not finite.
    Real(Option<serde_json::Number>),
    /// A decimal, in its own notation.
    Decimal(String),
    /// Text, in UTF-8 as the engine stores it.
    Text(Vec<u8>),
    Blob(Vec<u8>),
    Timestamp(TimeUnit, i64),
    Date32(i32),
    Time64(TimeUnit, i64),
    Interval { months: i32, days: i32, nanos: i64 },
    /// A value of any other type, in the engine's own notation.
    Other(String),
}

/// The character that stands for six bits in base64, in the standard alphabet.
pub open spec fn base64_char(n: int) -> char {
    if n < 26 {
        ((65 + n) as u8) as char
    } else if n < 52 {
        ((97 + n - 26) as u8) as char
    } else if n < 62 {
        ((48 + n - 52) as u8) as char
    } else if n == 62 {
        '+'
    } else {
        '/'
    }
}

/// Bytes in base64: four characters for each three bytes, six bits to a
/// character, with `=` in place of those that a last, short group lacks.
pub open spec fn base64_text(bytes: Seq<u8>) -> Seq<char>
    decreases bytes.len(),
{
    if bytes.len() == 0 {
        Seq::empty()
    } else {
        let a = bytes[0] as int;
        let b = if bytes.len() > 1 { bytes[1] as int } else { 0 };
        let c = if bytes.len() > 2 { bytes[2] as int } else { 0 };
        let group = seq![
            base64_char(a / 4),
            base64_char((a % 4) * 16 + b / 16),
            if bytes.len() > 1 { base64_char((b % 16) * 4 + c / 64) } else { '=' },
            if bytes.len() > 2 { base64_char(c % 64) } else { '=' },
        ];
        if bytes.len() <= 3 {
            group
        } else {
            group + base64_text(bytes.skip(3))
        }
    }
}

/// The text that std reads from bytes, where what is no UTF-8 is replaced.
pub uninterp spec fn lossy_text(bytes: Seq<u8>) -> Seq<char>;

/// `Engine::encode` of `base64`, with the engine `STANDARD`: the standard
/// alphabet, with padding.
#[verifier::external_body]
fn encode_base64(bytes: &Vec<u8>) -> (text: String)
    ensures
        text@ == base64_text(bytes@),
{
    base64::Engine::encode(&base64::engine::general_purpose::STANDARD, bytes)
}

/// `String::from_utf8_lossy` of std: valid UTF-8 is decoded as it is.
#[verifier::external_body]
fn decode_lossy(bytes: &Vec<u8>) -> (text: String)
    ensures
        text@ == lossy_text(bytes@),
        valid_utf8(bytes@) ==> text@ == decode_utf8(bytes@),
{
    String::from_utf8_lossy(bytes).into_owned()
}

/// An integer: a number where an `i64` holds it, and its decimal text where not.
pub open spec fn integer_tree(i: int) -> JsonTree {
    if i64::MIN <= i <= i64::MAX {
        JsonTree::Number(decimal(i))
    } else {
        JsonTree::Str(decimal(i))
    }
}

/// The text of a text cell: its UTF-8, decoded; where it is none, what std makes
/// of it.
pub open spec fn cell_text(bytes: Seq<u8>) -> Seq<char> {
    if valid_utf8(bytes) {
        decode_utf8(bytes)
    } else {
        lossy_text(bytes)
    }
}

/// What a cell becomes.
pub open spec fn cell_tree(cell: DuckCell) -> JsonTree {
    match cell {
        DuckCell::Null => JsonTree::Null,
        DuckCell::Boolean(b) => JsonTree::Bool(b),
        DuckCell::TinyInt(i) => integer_tree(i as int),
        DuckCell::SmallInt(i) => integer_tree(i as int),
        DuckCell::Int(i) => integer_tree(i as int),
        DuckCell::BigInt(i) => integer_tree(i as int),
        DuckCell::UTinyInt(i) => integer_tree(i as int),
        DuckCell::USmallInt(i) => integer_tree(i as int),
        DuckCell::UInt(i) => integer_tree(i as int),
        DuckCell::UBigInt(i) => integer_tree(i as int),
        DuckCell::HugeInt(i) => integer_tree(i as int),
        DuckCell::Real(Some(n)) => Json::Number(n).tree(),
        DuckCell::Real(None) => JsonTree::Null,
        DuckCell::Decimal(text) => JsonTree::Str(text@),
        DuckCell::Text(bytes) => JsonTree::Str(cell_text(bytes@)),
        DuckCell::Blob(bytes) => JsonTree::Str(base64_text(bytes@)),
        DuckCell::Timestamp(unit, n) => JsonTree::Str(decimal(n as int) + " "@ + unit.word()),
        DuckCell::Date32(d) => JsonTree::Str(decimal(d as int)),
        DuckCell::Time64(unit, n) => JsonTree::Str(decimal(n as int) + " "@ + unit.word()),
        DuckCell::Interval { months, days, nanos } => JsonTree::Str(
            decimal(months as int) + "mo "@ + decimal(days as int) + "d "@ + decimal(nanos as int)
                + "ns"@,
        ),
        DuckCell::Other(text) => JsonTree::Str(text@),
    }
}

/// An integer: a number where an `i64` holds it, and its decimal text where not.
fn wide_integer(i: i128) -> (j: Json)
    ensures
        j.tree() == integer_tree(i as int),
{
    if i64::MIN as i128 <= i && i <= i64::MAX as i128 {
        integer(i as i64)
    } else {
        Json::Str(i128_text(i))
    }
}

/// A point in time: its number and its unit.
fn point_in_time(unit: TimeUnit, n: i64) -> (j: Json)
    ensures
        j.tree() == JsonTree::Str(decimal(n as int) + " "@ + unit.word()),
{
    let mut text = i128_text(n as i128);
    text.append(" ");
    text.append(unit.name());
    Json::Str(text)
}

/// Projects one value to JSON. Integers beyond `i64` and decimals become text,
/// so that no digit is lost; a text keeps its characters; bytes become base64; a floating-point value that is
/// not finite becomes null.
pub fn value_ref_to_json(cell: &DuckCell) -> (j: Json)
    ensures
        j.tree() == cell_tree(*cell),
{
    match cell {
        DuckCell::Null => Json::Null,
        DuckCell::Boolean(b) => Json::Bool(*b),
        DuckCell::TinyInt(i) => integer(*i as i64),
        DuckCell::SmallInt(i) => integer(*i as i64),
        DuckCell::Int(i) => integer(*i as i64),
        DuckCell::BigInt(i) => integer(*i),
        DuckCell::UTinyInt(i) => integer(*i as i64),
        DuckCell::USmallInt(i) => integer(*i as i64),
        DuckCell::UInt(i) => integer(*i as i64),
        DuckCell::UBigInt(i) => wide_integer(*i as i128),
        DuckCell::HugeInt(i) => wide_integer(*i),
        DuckCell::Real(Some(n)) => Json::Number(n.clone()),
        DuckCell::Real(None) => Json::Null,
        DuckCell::Decimal(text) => Json::Str(text.clone()),
        DuckCell::Text(bytes) => Json::Str(decode_lossy(bytes)),
        DuckCell::Blob(bytes) => Json::Str(encode_base64(bytes)),
        DuckCell::Timestamp(unit, n) => point_in_time(*unit, *n),
        DuckCell::Date32(d) => Json::Str(i128_text(*d as i128)),
        DuckCell::Time64(unit, n) => point_in_time(*unit, *n),
        DuckCell::Interval { months, days, nanos } => {
            let mut text = i128_text(*months as i128);
            text.append("mo ");
            text.append(i128_text(*days as i128).as_str());
            text.append("d ");
            text.append(i128_text(*nanos as i128).as_str());
            text.append("ns");
            Json::Str(text)
        },
        DuckCell::Other(text) => Json::Str(text.clone()),
    }
}

/// The cells of a row in column order; none where a cell could not be read.
pub type Row = Seq<Option<DuckCell>>;

/// The value of the cell at a column: null where it is missing or could not be
/// read.
pub open spec fn column_tree(cells: Row, i: int) -> JsonTree {
    if i < cells.len() {
        match cells[i] {
            Some(cell) => cell_tree(cell),
            None => JsonTree::Null,
        }
    } else {
        JsonTree::Null
    }
}

/// The columns of a row with their values, in order.
pub open spec fn row_pairs(columns: Seq<Seq<char>>, cells: Row) -> Members {
    Seq::new(columns.len(), |i: int| (columns[i], column_tree(cells, i)))
}

/// What a row becomes: an object with a member for each column; of columns with
/// one name the last counts.
pub open spec fn row_tree(columns: Seq<Seq<char>>, cells: Row) -> JsonTree {
    object_tree(row_pairs(columns, cells))
}

/// One row as an object of its columns.
pub fn row_to_json(columns: &Vec<String>, cells: &Vec<Option<DuckCell>>) -> (row: Json)
    ensures
        row.tree() == row_tree(texts(columns@), cells@),
{
    let ghost pairs = row_pairs(texts(columns@), cells@);
    let mut members = JsonObject::new();
    let mut i: usize = 0;
    assert(pairs.take(0) =~= Members::empty());
    while i < columns.len()
        invariant
            i <= columns@.len(),
            pairs == row_pairs(texts(columns@), cells@),
            members.entries() == object(pairs.take(i as int)),
        decreases columns@.len() - i,
    {
        let value = if i < cells.len() {
            match &cells[i] {
                Some(cell) => value_ref_to_json(cell),
                None => Json::Null,
            }
        } else {
            Json::Null
        };
        proof {
            assert(value.tree() == column_tree(cells@, i as int));
            assert(pairs.take(i + 1) =~= pairs.take(i as int).push(pairs[i as int]));
            object_push(pairs.take(i as int), pairs[i as int]);
        }
        members = members.with(columns[i].as_str(), value);
        i += 1;
    }
    assert(pairs.take(i as int) =~= pairs);
    Json::Object(members)
}

/// What a query gave: its rows up to the cap, whether there were more, and how
/// many there were in all.
#[derive(Debug)]
pub struct QueryOutcome {
    pub rows: Vec<Json>,
    pub truncated: bool,
    pub row_count: usize,
}

/// What the rows become: the first `max_rows` of them.
pub open spec fn kept_rows(columns: Seq<Seq<char>>, max_rows: int, all: Seq<Row>) -> Seq<JsonTree> {
    Seq::new(
        if all.len() <= max_rows {
            all.len()
        } else {
            max_rows as nat
        },
        |i: int| row_tree(columns, all[i]),
    )
}

impl QueryOutcome {
    /// This is the outcome of a query that gave the rows `all`.
    pub open spec fn is_of(self, columns: Seq<Seq<char>>, max_rows: int, all: Seq<Row>) -> bool {
        &&& trees(self.rows@) == kept_rows(columns, max_rows, all)
        &&& self.truncated == (all.len() > max_rows)
        &&& self.row_count == all.len()
    }
}

/// Takes the rows of a query one by one, keeps those up to the cap and counts
/// them all.
#[derive(Debug)]
pub struct RowCollector {
    columns: Vec<String>,
    max_rows: usize,
    outcome: QueryOutcome,
}

impl RowCollector {
    /// The names of the columns.
    pub closed spec fn columns(self) -> Seq<Seq<char>> {
        texts(self.columns@)
    }

    /// The number of rows that are kept.
    pub closed spec fn max_rows(self) -> int {
        self.max_rows as int
    }

    /// What has been collected.
    pub closed spec fn outcome(self) -> QueryOutcome {
        self.outcome
    }

    /// The rows taken so far are `all`.
    pub open spec fn has_taken(self, all: Seq<Row>) -> bool {
        self.outcome().is_of(self.columns(), self.max_rows(), all)
    }

    /// A collector that has taken no row.
    pub fn new(columns: Vec<String>, max_rows: usize) -> (collector: RowCollector)
        ensures
            collector.columns() == texts(columns@),
            collector.max_rows() == max_rows,
            collector.has_taken(Seq::empty()),
    {
        let outcome = QueryOutcome { rows: Vec::new(), truncated: false, row_count: 0 };
        assert(trees(outcome.rows@) =~= kept_rows(texts(columns@), max_rows as int, Seq::empty()));
        RowCollector { columns, max_rows, outcome }
    }

    /// The number of rows taken so far.
    pub fn row_count(&self) -> (n: usize)
        ensures
            n == self.outcome().row_count,
    {
        self.outcome.row_count
    }

    /// Takes one more row.
    pub fn push(&mut self, cells: &Vec<Option<DuckCell>>)
        requires
            old(self).outcome().row_count < usize::MAX,
        ensures
            final(self).columns() == old(self).columns(),
            final(self).max_rows() == old(self).max_rows(),
            forall|all: Seq<Row>| #[trigger]
                old(self).has_taken(all) ==> final(self).has_taken(all.push(cells@)),
    {
        self.outcome.row_count = self.outcome.row_count + 1;
        if self.outcome.rows.len() >= self.max_rows {
            self.outcome.truncated = true;
        } else {
            let row = row_to_json(&self.columns, cells);
            self.outcome.rows.push(row);
        }
        proof {
            assert forall|all: Seq<Row>| #[trigger] old(self).has_taken(all) implies self.has_taken(
                all.push(cells@),
            ) by {
                let columns = old(self).columns();
                let max_rows = old(self).max_rows();
                let before = trees(old(self).outcome().rows@);
                assert(before == kept_rows(columns, max_rows, all));
                assert(before.len() == old(self).outcome().rows@.len());
                assert(trees(self.outcome().rows@) =~= kept_rows(
                    columns,
                    max_rows,
                    all.push(cells@),
                )) by {
                    let after = trees(self.outcome().rows@);
                    assert forall|i: int| 0 <= i < after.len() implies after[i] == kept_rows(
                        columns,
                        max_rows,
                        all.push(cells@),
                    )[i] by {
                        if i < before.len() {
                            assert(before[i] == kept_rows(columns, max_rows, all)[i]);
                            assert(self.outcome().rows@[i] == old(self).outcome().rows@[i]);
                        }
                    }
                }
            }
        }
    }

    /// What the query gave, once its rows have been taken.
    pub fn finish(self) -> (outcome: QueryOutcome)
        ensures
            outcome == self.outcome(),
    {
        self.outcome
    }
}

} // verus!
