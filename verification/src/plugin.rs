//! The registered bindings, and what becomes of a call to one of them.
//!
//! The engine, the expression evaluator and the clock lie outside: a call is
//! looked up and read here; what it sends and what it replies is decided in
//! [`crate::call`].

use vstd::prelude::*;

use crate::call::{accept_arguments, tool_name, tool_name_of};
use crate::envelope::{
    catalog_envelope_schema, catalog_row_schema, envelope_schema, list_columns_columns,
    list_columns_names, list_tables_columns, list_tables_names, result_envelope_schema,
};
use crate::json::{object_push, object_tree, parsed, string, Json, JsonObject, JsonTree, Members};
use crate::names::NameMap;
use crate::params::{
    all_argument_idents, arguments_referenced_by_params, open_schema, params_input_schema, sources,
    CompiledParam,
};
use crate::register::{
    accepted_aliases_are_safe, attach_rejection, check_spec, judged, spec_rejection, Verdicts,
};
use crate::surface::Surface;
use crate::text::{each_once, is_blank, is_identifier, rejection, same_text, texts};
use crate::types::{
    given, list_query_rejection, read_file_rejection, CatalogFilterConfig, CompletionConfig,
    DuckDbAttach, DuckDbBackendSpec, DuckDbOperation, ListQueryConfig, ReadFileConfig,
};

verus! {

/// Why a request to this backend fails.
#[derive(Debug, PartialEq)]
pub enum BackendError {
    /// The description of a binding, or the payload of a call, is not accepted.
    InvalidSpec { message: String },
    /// No binding has this name.
    ProfileNotFound { backend_name: String },
    /// The engine failed.
    Transport { message: String },
}

/// The model of an error.
pub enum ErrorView {
    InvalidSpec(Seq<char>),
    ProfileNotFound(Seq<char>),
    Transport(Seq<char>),
}

impl View for BackendError {
    type V = ErrorView;

    open spec fn view(&self) -> ErrorView {
        match *self {
            BackendError::InvalidSpec { message } => ErrorView::InvalidSpec(message@),
            BackendError::ProfileNotFound { backend_name } => ErrorView::ProfileNotFound(
                backend_name@,
            ),
            BackendError::Transport { message } => ErrorView::Transport(message@),
        }
    }
}

// -------------------------------------------------------------------- profiles

/// A registered binding.
#[derive(Debug, Clone)]
pub struct DuckDbProfile {
    /// Whether connections are pooled: those to a file are, those to `:memory:`
    /// are opened anew for each call.
    pub pooled: bool,
    pub database: String,
    pub read_only: bool,
    pub allow_external_access: bool,
    pub init_sql: Vec<String>,
    pub attach: Vec<DuckDbAttach>,
    pub operation: DuckDbOperation,
    pub statement: String,
    pub catalog_filters: CatalogFilterConfig,
    pub read_file: Option<ReadFileConfig>,
    pub compiled_params: Vec<CompiledParam>,
    pub max_rows: usize,
    pub timeout_ms: u64,
    pub surface: Surface,
    pub surface_uri: Option<String>,
    pub list_query: Option<ListQueryConfig>,
    pub read_query: Option<String>,
    pub variable_completions: NameMap<CompletionConfig>,
}

impl DuckDbProfile {
    /// What holds of every registered binding.
    pub open spec fn is_sound(self) -> bool {
        &&& self.pooled == (self.database@ != ":memory:"@)
        &&& !is_blank(self.database@)
        &&& self.max_rows > 0
        &&& self.timeout_ms > 0
        &&& self.operation == DuckDbOperation::ReadFile ==> {
            &&& self.allow_external_access
            &&& self.read_file matches Some(cfg) && read_file_rejection(cfg) is None
        }
        &&& self.list_query matches Some(cfg) ==> list_query_rejection(cfg) is None
        &&& forall|i: int|
            0 <= i < self.attach@.len() ==> is_identifier((#[trigger] self.attach@[i]).alias@)
    }

    /// This is the binding that a description describes.
    pub open spec fn is_of(self, spec: DuckDbBackendSpec) -> bool {
        &&& self.pooled == (spec.database@ != ":memory:"@)
        &&& self.database == spec.database
        &&& self.read_only == spec.read_only
        &&& self.allow_external_access == spec.allow_external_access
        &&& self.init_sql == spec.init_sql
        &&& self.attach == spec.attach
        &&& self.operation == spec.operation
        &&& self.statement == spec.statement
        &&& self.catalog_filters == spec.catalog_filters
        &&& self.read_file == spec.read_file
        &&& sources(self.compiled_params@) == texts(spec.params@)
        &&& self.max_rows == spec.query.max_rows
        &&& self.timeout_ms == spec.query.statement_timeout_ms
        &&& self.surface == spec.surface
        &&& self.surface_uri == spec.uri
        &&& self.list_query == spec.list_query
        &&& self.read_query == spec.read_query
        &&& self.variable_completions == spec.variable_completions
    }
}

/// Why a binding is not registered, if it is not: its description is rejected,
/// a parameter does not compile, or the pool of a file cannot be built.
pub open spec fn registration_rejection(
    spec: DuckDbBackendSpec,
    guard: Map<Seq<char>, Option<String>>,
    compiled: Result<(), String>,
    pool: Result<(), String>,
) -> Option<Seq<char>> {
    if spec_rejection(spec, guard) is Some {
        spec_rejection(spec, guard)
    } else if compiled is Err {
        rejection(compiled)
    } else if spec.database@ != ":memory:"@ {
        rejection(pool)
    } else {
        None
    }
}

/// A description that is accepted describes a sound binding.
pub proof fn accepted_is_sound(
    spec: DuckDbBackendSpec,
    guard: Map<Seq<char>, Option<String>>,
    profile: DuckDbProfile,
)
    requires
        spec_rejection(spec, guard) is None,
        profile.is_of(spec),
    ensures
        profile.is_sound(),
{
    assert(attach_rejection(spec.attach@) is None);
    accepted_aliases_are_safe(spec.attach@);
}

/// The parameters with the given expressions.
fn params_of(expressions: Vec<String>) -> (params: Vec<CompiledParam>)
    ensures
        sources(params@) == texts(expressions@),
{
    let mut params: Vec<CompiledParam> = Vec::new();
    let mut i: usize = 0;
    while i < expressions.len()
        invariant
            i <= expressions@.len(),
            params@.len() == i,
            forall|k: int| 0 <= k < i ==> (#[trigger] params@[k]).source@ == expressions@[k]@,
        decreases expressions@.len() - i,
    {
        params.push(CompiledParam { source: expressions[i].clone() });
        i += 1;
    }
    assert(sources(params@) =~= texts(expressions@));
    params
}

/// A call that has been looked up and read.
#[derive(Debug)]
pub struct Call {
    pub arguments: Json,
    pub tool_name: String,
}

/// A call that is refused, with what it is counted under.
#[derive(Debug)]
pub struct Refusal {
    pub error: BackendError,
    pub label: &'static str,
}

/// What a payload holds: the empty object where it is empty.
pub open spec fn payload_tree(payload: Seq<u8>) -> Result<JsonTree, Seq<char>> {
    if payload.len() == 0 {
        Ok(object_tree(Members::empty()))
    } else {
        parsed(payload)
    }
}

/// `r` is what becomes of registering a binding: refused, it changes nothing;
/// accepted, it stands under its name, and all others stay.
pub open spec fn is_registration(
    before: Map<Seq<char>, DuckDbProfile>,
    name: Seq<char>,
    spec: DuckDbBackendSpec,
    rejected: Option<Seq<char>>,
    after: Map<Seq<char>, DuckDbProfile>,
    r: Result<(), BackendError>,
) -> bool {
    match rejected {
        Some(message) => {
            &&& r matches Err(e) && e@ == ErrorView::InvalidSpec(message)
            &&& after == before
        },
        None => {
            &&& r is Ok
            &&& after == before.insert(name, after[name])
            &&& after[name].is_of(spec)
        },
    }
}

/// `r` is a call that has been looked up and read, or why it is refused.
pub open spec fn is_begun(
    profiles: Map<Seq<char>, DuckDbProfile>,
    name: Seq<char>,
    payload: Seq<u8>,
    headers: Seq<(String, String)>,
    r: Result<Call, Refusal>,
) -> bool {
    match r {
        Ok(call) => {
            &&& profiles.dom().contains(name)
            &&& payload_tree(payload) == Ok::<JsonTree, Seq<char>>(call.arguments.tree())
            &&& call.tool_name@ == tool_name_of(headers, name)
        },
        Err(refusal) => if !profiles.dom().contains(name) {
            &&& refusal.error@ == ErrorView::ProfileNotFound(name)
            &&& refusal.label@ == "profile_not_found"@
        } else {
            &&& payload_tree(payload) matches Err(e)
            &&& refusal.error@ == ErrorView::InvalidSpec(
                "DuckDB plugin payload is not valid JSON: "@ + e,
            )
            &&& refusal.label@ == "invalid_spec"@
        },
    }
}

/// The operation that the schemas of a name describe: that of the binding, or a
/// query where there is none.
pub open spec fn described_operation(
    profiles: Map<Seq<char>, DuckDbProfile>,
    name: Seq<char>,
) -> DuckDbOperation {
    if profiles.dom().contains(name) {
        profiles[name].operation
    } else {
        DuckDbOperation::Query
    }
}

/// The schema of the replies of an operation: rows of the catalog are typed,
/// other rows are not.
pub open spec fn reply_schema(operation: DuckDbOperation) -> JsonTree {
    match operation {
        DuckDbOperation::ListTables => envelope_schema(catalog_row_schema(list_tables_names())),
        DuckDbOperation::ListColumns => envelope_schema(catalog_row_schema(list_columns_names())),
        _ => envelope_schema(object_tree(Members::empty())),
    }
}

/// The call arguments that a binding reads.
pub open spec fn argument_names_of(profile: DuckDbProfile) -> Seq<Seq<char>> {
    if profile.operation == DuckDbOperation::ListTables || profile.operation
        == DuckDbOperation::ListColumns {
        each_once(given(profile.catalog_filters.args()))
    } else {
        each_once(all_argument_idents(sources(profile.compiled_params@)))
    }
}

/// The schema of the arguments of a name: none is named where there is no
/// binding.
pub open spec fn argument_schema(
    profiles: Map<Seq<char>, DuckDbProfile>,
    name: Seq<char>,
) -> JsonTree {
    open_schema(
        if profiles.dom().contains(name) {
            argument_names_of(profiles[name])
        } else {
            Seq::empty()
        },
    )
}

/// The backend: its registered bindings by name.
#[derive(Debug)]
pub struct DuckDbBackendPlugin {
    profiles: NameMap<DuckDbProfile>,
}

impl Default for DuckDbBackendPlugin {
    fn default() -> (plugin: DuckDbBackendPlugin)
        ensures
            plugin@ == Map::<Seq<char>, DuckDbProfile>::empty(),
    {
        DuckDbBackendPlugin::new()
    }
}

impl View for DuckDbBackendPlugin {
    type V = Map<Seq<char>, DuckDbProfile>;

    closed spec fn view(&self) -> Map<Seq<char>, DuckDbProfile> {
        self.profiles@
    }
}

impl DuckDbBackendPlugin {
    #[verifier::type_invariant]
    spec fn well_formed(self) -> bool {
        forall|name: Seq<char>| #[trigger]
            self.profiles@.dom().contains(name) ==> self.profiles@[name].is_sound()
    }

    /// The backend without bindings.
    #[must_use]
    pub fn new() -> (plugin: DuckDbBackendPlugin)
        ensures
            plugin@ == Map::<Seq<char>, DuckDbProfile>::empty(),
    {
        DuckDbBackendPlugin { profiles: NameMap::new() }
    }

    /// The kind of binding that this backend serves.
    pub fn kind(&self) -> (kind: &'static str)
        ensures
            kind@ == "duckdb"@,
    {
        "duckdb"
    }

    /// The identifier of this backend.
    pub fn id(&self) -> (id: &'static str)
        ensures
            id@ == "dev.mcpg.backend.duckdb"@,
    {
        "dev.mcpg.backend.duckdb"
    }

    /// The binding with this name, where there is one.
    pub fn profile(&self, backend_name: &str) -> (profile: Option<&DuckDbProfile>)
        ensures
            match profile {
                Some(p) => {
                    &&& self@.dom().contains(backend_name@)
                    &&& *p == self@[backend_name@]
                    &&& p.is_sound()
                },
                None => !self@.dom().contains(backend_name@),
            },
    {
        proof {
            use_type_invariant(self);
        }
        self.profiles.get(backend_name)
    }

    /// Registers a binding under a name, in place of one that had it. Where the
    /// description, a parameter or the pool is rejected, nothing changes.
    /// `compiled` and `pool` tell how the expressions were compiled and how the
    /// pool of a file was built.
    pub fn register_profile(
        &mut self,
        backend_name: &str,
        spec: DuckDbBackendSpec,
        guard: &Verdicts,
        compiled: Result<(), String>,
        pool: Result<(), String>,
    ) -> (r: Result<(), BackendError>)
        requires
            judged(spec, guard@),
        ensures
            match registration_rejection(spec, guard@, compiled, pool) {
                Some(message) => {
                    &&& r matches Err(e) && e@ == ErrorView::InvalidSpec(message)
                    &&& final(self)@ == old(self)@
                },
                None => {
                    &&& r is Ok
                    &&& final(self)@ == old(self)@.insert(backend_name@, final(self)@[backend_name@])
                    &&& final(self)@[backend_name@].is_of(spec)
                },
            },
            is_registration(
                old(self)@,
                backend_name@,
                spec,
                registration_rejection(spec, guard@, compiled, pool),
                final(self)@,
                r,
            ),
    {
        match check_spec(&spec, guard) {
            Ok(_) => {},
            Err(message) => {
                return Err(BackendError::InvalidSpec { message });
            },
        }
        match compiled {
            Ok(_) => {},
            Err(message) => {
                return Err(BackendError::InvalidSpec { message });
            },
        }
        let is_memory = same_text(spec.database.as_str(), ":memory:");
        if !is_memory {
            match pool {
                Ok(_) => {},
                Err(message) => {
                    return Err(BackendError::InvalidSpec { message });
                },
            }
        }
        let ghost described = spec;
        let profile = DuckDbProfile {
            pooled: !is_memory,
            database: spec.database,
            read_only: spec.read_only,
            allow_external_access: spec.allow_external_access,
            init_sql: spec.init_sql,
            attach: spec.attach,
            operation: spec.operation,
            statement: spec.statement,
            catalog_filters: spec.catalog_filters,
            read_file: spec.read_file,
            compiled_params: params_of(spec.params),
            max_rows: spec.query.max_rows,
            timeout_ms: spec.query.statement_timeout_ms,
            surface: spec.surface,
            surface_uri: spec.uri,
            list_query: spec.list_query,
            read_query: spec.read_query,
            variable_completions: spec.variable_completions,
        };
        proof {
            use_type_invariant(&*self);
            accepted_is_sound(described, guard@, profile);
        }
        let mut profiles: NameMap<DuckDbProfile> = NameMap::new();
        std::mem::swap(&mut profiles, &mut self.profiles);
        let profiles = profiles.with(backend_name, profile);
        self.profiles = profiles;
        Ok(())
    }

    /// Looks up the binding of a call, and reads its payload and the name of its
    /// tool.
    pub fn begin_call(
        &self,
        backend_name: &str,
        payload: &[u8],
        headers: &Vec<(String, String)>,
    ) -> (r: Result<Call, Refusal>)
        ensures
            match r {
                Ok(call) => {
                    &&& self@.dom().contains(backend_name@)
                    &&& payload_tree(payload@) == Ok::<JsonTree, Seq<char>>(call.arguments.tree())
                    &&& call.tool_name@ == tool_name_of(headers@, backend_name@)
                },
                Err(refusal) => if !self@.dom().contains(backend_name@) {
                    &&& refusal.error@ == ErrorView::ProfileNotFound(backend_name@)
                    &&& refusal.label@ == "profile_not_found"@
                } else {
                    &&& payload_tree(payload@) matches Err(e)
                    &&& refusal.error@ == ErrorView::InvalidSpec(
                        "DuckDB plugin payload is not valid JSON: "@ + e,
                    )
                    &&& refusal.label@ == "invalid_spec"@
                },
            },
            is_begun(self@, backend_name@, payload@, headers@, r),
    {
        if self.profile(backend_name).is_none() {
            let error = BackendError::ProfileNotFound { backend_name: backend_name.to_owned() };
            return Err(Refusal { error, label: "profile_not_found" });
        }
        let read = if payload.len() == 0 {
            Ok(Json::Object(JsonObject::new()))
        } else {
            Json::parse(payload)
        };
        match accept_arguments(read) {
            Ok(arguments) => Ok(Call { arguments, tool_name: tool_name(headers, backend_name) }),
            Err(error) => Err(Refusal { error, label: "invalid_spec" }),
        }
    }

    /// The schema of the replies of a binding.
    pub fn output_schema(&self, backend_name: &str) -> (schema: Option<Json>)
        ensures
            schema matches Some(j) && j.tree() == reply_schema(
                described_operation(self@, backend_name@),
            ),
    {
        let operation = match self.profile(backend_name) {
            Some(profile) => profile.operation,
            None => DuckDbOperation::Query,
        };
        let schema = match operation {
            DuckDbOperation::ListTables => catalog_envelope_schema(
                list_tables_columns().as_slice(),
            ),
            DuckDbOperation::ListColumns => catalog_envelope_schema(
                list_columns_columns().as_slice(),
            ),
            _ => result_envelope_schema(),
        };
        Some(schema)
    }

    /// The schema of the arguments of a binding: an open object that names the
    /// arguments which the binding reads. The path of a file is never one.
    pub fn input_schema(&self, backend_name: &str) -> (schema: Option<Json>)
        ensures
            schema matches Some(j) && j.tree() == open_schema(
                if self@.dom().contains(backend_name@) {
                    argument_names_of(self@[backend_name@])
                } else {
                    Seq::empty()
                },
            ),
            schema matches Some(j) && j.tree() == argument_schema(self@, backend_name@),
    {
        let names = match self.profile(backend_name) {
            Some(profile) => {
                if profile.operation.is_catalog() {
                    profile.catalog_filters.argument_names()
                } else {
                    arguments_referenced_by_params(&profile.compiled_params)
                }
            },
            None => {
                let none: Vec<String> = Vec::new();
                assert(texts(none@) =~= Seq::<Seq<char>>::empty());
                none
            },
        };
        Some(params_input_schema(&names))
    }

    /// What the audit trail holds of every call.
    pub fn audit_metadata(&self) -> (metadata: JsonObject)
        ensures
            JsonTree::Object(metadata.entries()) == object_tree(
                Members::empty().push(("duckdb.transport"@, JsonTree::Str("plugin"@))),
            ),
    {
        broadcast use object_push;

        JsonObject::new().with("duckdb.transport", string("plugin"))
    }
}

} // verus!
