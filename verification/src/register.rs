//! The checks that the description of a binding has to pass before it is
//! registered. They run in a fixed order, and the first that fails decides.
//!
//! Whether a statement is read-only is judged by a guard outside this library:
//! [`guarded_statements`] tells which statements it has to judge, and its
//! verdicts come back in a map from statements to rejections.

use vstd::prelude::*;

use crate::names::NameMap;
use crate::surface::Surface;
use crate::text::{
    blank, contains, contains_text, decimal, is_blank, is_identifier, opt_text, rejection, texts,
    u128_text,
};
use crate::duckdb::valid_attach_alias;
use crate::types::{
    completion_rejection, list_query_rejection, read_file_rejection, validate_completion,
    validate_list_query, validate_read_file, CatalogFilterConfig, CompletionConfig, DuckDbAttach,
    DuckDbBackendSpec, DuckDbOperation, ListQueryConfig, ReadFileConfig,
};

verus! {

/// The verdicts of the read-only guard: for each statement, why it is rejected,
/// or nothing where it is read-only.
pub type Verdicts = NameMap<Option<String>>;

/// The first reason of two.
pub open spec fn first_of(a: Option<Seq<char>>, b: Option<Seq<char>>) -> Option<Seq<char>> {
    if a is Some {
        a
    } else {
        b
    }
}

// ----------------------------------------------------------------- credentials

/// Why a text is rejected for a bare credential reference, if it is.
pub open spec fn bare_cred_rejection(field: Seq<char>, value: Seq<char>) -> Option<Seq<char>> {
    if contains_text(value, "cred://"@) {
        Some(
            field
                + " must not contain a bare cred:// URI — use ${cred://…} (resolved at config load)"@,
        )
    } else {
        None
    }
}

/// Rejects a bare `cred://` reference: it would reach the engine as it stands.
pub fn reject_bare_cred(field: &str, value: &str) -> (r: Result<(), String>)
    ensures
        rejection(r) == bare_cred_rejection(field@, value@),
{
    if contains(value, "cred://") {
        let mut message = field.to_owned();
        message.append(
            " must not contain a bare cred:// URI — use ${cred://…} (resolved at config load)",
        );
        return Err(message);
    }
    Ok(())
}

// ------------------------------------------------------------------- operation

/// A text is there and not blank.
pub open spec fn is_filled(text: Option<String>) -> bool {
    text matches Some(t) && !is_blank(t@)
}

/// Whether a text is there and not blank.
fn filled(text: &Option<String>) -> (r: bool)
    ensures
        r == is_filled(*text),
{
    match text {
        Some(t) => !blank(t.as_str()),
        None => false,
    }
}

/// Why the operation of a binding lacks something, if it does.
pub open spec fn operation_rejection(spec: DuckDbBackendSpec) -> Option<Seq<char>> {
    match spec.operation {
        DuckDbOperation::Query => if is_blank(spec.statement@) && !is_filled(spec.read_query) {
            Some(
                "statement must not be empty (or set `read_query` for a resource_template read binding)"@,
            )
        } else {
            None
        },
        DuckDbOperation::ListColumns => if !is_filled(spec.catalog_filters.table) && !is_filled(
            spec.catalog_filters.table_arg,
        ) {
            Some(
                "operation: list_columns requires a catalog_filters.table or .table_arg (the table whose columns to list)"@,
            )
        } else {
            None
        },
        DuckDbOperation::ListTables => None,
        DuckDbOperation::ReadFile => match spec.read_file {
            None => Some("operation: read_file requires a `read_file` config block"@),
            Some(cfg) => first_of(
                read_file_rejection(cfg),
                if !spec.allow_external_access {
                    Some(
                        "operation: read_file requires allow_external_access=true (it reads files outside the database)"@,
                    )
                } else {
                    match cfg.predicate {
                        Some(p) => bare_cred_rejection("read_file.predicate"@, p@),
                        None => None,
                    }
                },
            ),
        },
    }
}

/// Checks that the operation of a binding has what it needs. Reading a file
/// needs external access.
pub fn check_operation(spec: &DuckDbBackendSpec) -> (r: Result<(), String>)
    ensures
        rejection(r) == operation_rejection(*spec),
{
    match spec.operation {
        DuckDbOperation::Query => {
            if blank(spec.statement.as_str()) && !filled(&spec.read_query) {
                return Err(
                    "statement must not be empty (or set `read_query` for a resource_template read binding)".to_owned(),
                );
            }
        },
        DuckDbOperation::ListColumns => {
            if !filled(&spec.catalog_filters.table) && !filled(&spec.catalog_filters.table_arg) {
                return Err(
                    "operation: list_columns requires a catalog_filters.table or .table_arg (the table whose columns to list)".to_owned(),
                );
            }
        },
        DuckDbOperation::ListTables => {},
        DuckDbOperation::ReadFile => {
            match &spec.read_file {
                None => {
                    return Err("operation: read_file requires a `read_file` config block".to_owned());
                },
                Some(cfg) => {
                    match validate_read_file(cfg) {
                        Ok(_) => {},
                        Err(message) => {
                            return Err(message);
                        },
                    }
                    if !spec.allow_external_access {
                        return Err(
                            "operation: read_file requires allow_external_access=true (it reads files outside the database)".to_owned(),
                        );
                    }
                    match &cfg.predicate {
                        Some(p) => {
                            return reject_bare_cred("read_file.predicate", p.as_str());
                        },
                        None => {},
                    }
                },
            }
        },
    }
    Ok(())
}

/// Why a bound of a binding is rejected, if one is.
pub open spec fn bounds_rejection(spec: DuckDbBackendSpec) -> Option<Seq<char>> {
    if spec.query.statement_timeout_ms == 0 {
        Some("query.statement_timeout_ms must be greater than 0"@)
    } else if spec.query.max_rows == 0 {
        Some("query.max_rows must be greater than 0"@)
    } else if spec.pool_max_size == 0 {
        Some("pool_max_size must be greater than 0"@)
    } else {
        None
    }
}

/// Checks that no bound of a binding is zero.
pub fn check_bounds(spec: &DuckDbBackendSpec) -> (r: Result<(), String>)
    ensures
        rejection(r) == bounds_rejection(*spec),
{
    if spec.query.statement_timeout_ms == 0 {
        return Err("query.statement_timeout_ms must be greater than 0".to_owned());
    }
    if spec.query.max_rows == 0 {
        return Err("query.max_rows must be greater than 0".to_owned());
    }
    if spec.pool_max_size == 0 {
        return Err("pool_max_size must be greater than 0".to_owned());
    }
    Ok(())
}

// ----------------------------------------------------------------------- setup

/// Why an entry of a list is rejected for a bare credential reference, the first
/// first, if one is.
pub open spec fn list_cred_rejection(field: Seq<char>, list: Seq<Seq<char>>) -> Option<Seq<char>>
    decreases list.len(),
{
    if list.len() == 0 {
        None
    } else {
        first_of(
            list_cred_rejection(field, list.drop_last()),
            bare_cred_rejection(field + "["@ + decimal(list.len() - 1) + "]"@, list.last()),
        )
    }
}

/// Rejects a bare credential reference in any entry of a list.
pub fn check_list_creds(field: &str, list: &Vec<String>) -> (r: Result<(), String>)
    ensures
        rejection(r) == list_cred_rejection(field@, texts(list@)),
{
    let ghost all = texts(list@);
    let mut i: usize = 0;
    while i < list.len()
        invariant
            i <= list@.len(),
            all == texts(list@),
            list_cred_rejection(field@, all.take(i as int)) is None,
        decreases list@.len() - i,
    {
        assert(all.take(i + 1).drop_last() =~= all.take(i as int));
        assert(all.take(i + 1).last() == list@[i as int]@);
        let mut entry = field.to_owned();
        entry.append("[");
        entry.append(u128_text(i as u128).as_str());
        entry.append("]");
        match reject_bare_cred(entry.as_str(), list[i].as_str()) {
            Ok(_) => {},
            Err(message) => {
                proof {
                    list_cred_rejection_stays(field@, all, i + 1);
                }
                return Err(message);
            },
        }
        i += 1;
    }
    assert(all.take(i as int) =~= all);
    Ok(())
}

/// The first reason stands, whatever follows.
proof fn list_cred_rejection_stays(field: Seq<char>, all: Seq<Seq<char>>, n: int)
    requires
        0 <= n <= all.len(),
        list_cred_rejection(field, all.take(n)) is Some,
    ensures
        list_cred_rejection(field, all) == list_cred_rejection(field, all.take(n)),
    decreases all.len() - n,
{
    if n == all.len() {
        assert(all.take(n) =~= all);
    } else {
        assert(all.take(n + 1).drop_last() =~= all.take(n));
        list_cred_rejection_stays(field, all, n + 1);
    }
}

/// Why a database to attach is rejected, if it is.
pub open spec fn target_rejection(a: DuckDbAttach) -> Option<Seq<char>> {
    if !is_identifier(a.alias@) {
        Some("attach alias `"@ + a.alias@ + "` must match [A-Za-z_][A-Za-z0-9_]*"@)
    } else {
        bare_cred_rejection("attach["@ + a.alias@ + "].source"@, a.source@)
    }
}

/// Why a database to attach is rejected, the first first, if one is.
pub open spec fn attach_rejection(attach: Seq<DuckDbAttach>) -> Option<Seq<char>>
    decreases attach.len(),
{
    if attach.len() == 0 {
        None
    } else {
        first_of(attach_rejection(attach.drop_last()), target_rejection(attach.last()))
    }
}

/// Checks one database to attach.
fn check_target(a: &DuckDbAttach) -> (r: Result<(), String>)
    ensures
        rejection(r) == target_rejection(*a),
{
    if !valid_attach_alias(a.alias.as_str()) {
        let mut message = "attach alias `".to_owned();
        message.append(a.alias.as_str());
        message.append("` must match [A-Za-z_][A-Za-z0-9_]*");
        return Err(message);
    }
    let mut field = "attach[".to_owned();
    field.append(a.alias.as_str());
    field.append("].source");
    reject_bare_cred(field.as_str(), a.source.as_str())
}

/// Checks the databases to attach: safe aliases, and no bare credential
/// reference.
pub fn check_attach(attach: &Vec<DuckDbAttach>) -> (r: Result<(), String>)
    ensures
        rejection(r) == attach_rejection(attach@),
{
    let mut i: usize = 0;
    while i < attach.len()
        invariant
            i <= attach@.len(),
            attach_rejection(attach@.take(i as int)) is None,
        decreases attach@.len() - i,
    {
        assert(attach@.take(i + 1).drop_last() =~= attach@.take(i as int));
        assert(attach@.take(i + 1).last() == attach@[i as int]);
        match check_target(&attach[i]) {
            Ok(_) => {},
            Err(message) => {
                proof {
                    attach_rejection_stays(attach@, i + 1);
                }
                return Err(message);
            },
        }
        i += 1;
    }
    assert(attach@.take(i as int) =~= attach@);
    Ok(())
}

/// The first reason stands, whatever follows.
proof fn attach_rejection_stays(all: Seq<DuckDbAttach>, n: int)
    requires
        0 <= n <= all.len(),
        attach_rejection(all.take(n)) is Some,
    ensures
        attach_rejection(all) == attach_rejection(all.take(n)),
    decreases all.len() - n,
{
    if n == all.len() {
        assert(all.take(n) =~= all);
    } else {
        assert(all.take(n + 1).drop_last() =~= all.take(n));
        attach_rejection_stays(all, n + 1);
    }
}

/// Every database to attach of an accepted list has a safe alias.
pub proof fn accepted_aliases_are_safe(attach: Seq<DuckDbAttach>)
    requires
        attach_rejection(attach) is None,
    ensures
        forall|i: int| 0 <= i < attach.len() ==> is_identifier((#[trigger] attach[i]).alias@),
    decreases attach.len(),
{
    if attach.len() > 0 {
        let shorter = attach.drop_last();
        accepted_aliases_are_safe(shorter);
        assert forall|i: int| 0 <= i < attach.len() implies is_identifier(
            (#[trigger] attach[i]).alias@,
        ) by {
            if i < shorter.len() {
                assert(shorter[i] == attach[i]);
            }
        }
    }
}

// ------------------------------------------------------------------- the guard

/// The statements of completions, in order of their names.
pub open spec fn completion_statements(listing: Seq<(Seq<char>, CompletionConfig)>) -> Seq<
    Seq<char>,
> {
    listing.map_values(|e: (Seq<char>, CompletionConfig)| e.1.sql@)
}

/// The statement of a query, where the guard has to judge it.
pub open spec fn guarded_statement(spec: DuckDbBackendSpec) -> Seq<Seq<char>> {
    if spec.operation == DuckDbOperation::Query && !is_blank(spec.statement@) {
        Seq::empty().push(spec.statement@)
    } else {
        Seq::empty()
    }
}

/// The read of a resource template, where there is one.
pub open spec fn guarded_read(spec: DuckDbBackendSpec) -> Seq<Seq<char>> {
    match spec.read_query {
        Some(rq) => Seq::empty().push(rq@),
        None => Seq::empty(),
    }
}

/// The statement of a listing, where there is one.
pub open spec fn guarded_listing(spec: DuckDbBackendSpec) -> Seq<Seq<char>> {
    match spec.list_query {
        Some(lq) => Seq::empty().push(lq.sql@),
        None => Seq::empty(),
    }
}

/// The statements that the guard has to judge: all of the operator's statements
/// of a read-only binding.
pub open spec fn guarded(spec: DuckDbBackendSpec) -> Seq<Seq<char>> {
    if spec.read_only {
        guarded_statement(spec) + guarded_read(spec) + guarded_listing(spec)
            + completion_statements(spec.variable_completions.listing())
    } else {
        Seq::empty()
    }
}

/// The statements that the guard has to judge before this binding can be
/// registered.
pub fn guarded_statements(spec: &DuckDbBackendSpec) -> (statements: Vec<String>)
    ensures
        texts(statements@) == guarded(*spec),
{
    let mut statements: Vec<String> = Vec::new();
    assert(texts(statements@) =~= Seq::<Seq<char>>::empty());
    if !spec.read_only {
        return statements;
    }
    if spec.operation == DuckDbOperation::Query && !blank(spec.statement.as_str()) {
        statements.push(spec.statement.clone());
    }
    assert(texts(statements@) =~= guarded_statement(*spec));
    match &spec.read_query {
        Some(rq) => {
            statements.push(rq.clone());
        },
        None => {},
    }
    assert(texts(statements@) =~= guarded_statement(*spec) + guarded_read(*spec));
    match &spec.list_query {
        Some(lq) => {
            statements.push(lq.sql.clone());
        },
        None => {},
    }
    let ghost fixed = guarded_statement(*spec) + guarded_read(*spec) + guarded_listing(*spec);
    assert(texts(statements@) =~= fixed);
    let ghost rest = completion_statements(spec.variable_completions.listing());
    let count: usize = spec.variable_completions.len();
    let mut i: usize = 0;
    assert(fixed + rest.take(0) =~= fixed);
    while i < count
        invariant
            i <= count,
            count == spec.variable_completions.listing().len(),
            rest == completion_statements(spec.variable_completions.listing()),
            texts(statements@) == fixed + rest.take(i as int),
        decreases count - i,
    {
        let ghost before = texts(statements@);
        statements.push(spec.variable_completions.value(i).sql.clone());
        assert(texts(statements@) =~= before.push(rest[i as int]));
        assert(fixed + rest.take(i + 1) =~= (fixed + rest.take(i as int)).push(rest[i as int]));
        i += 1;
    }
    assert(rest.take(i as int) =~= rest);
    statements
}

/// The guard has judged every statement that it has to.
pub open spec fn judged(spec: DuckDbBackendSpec, guard: Map<Seq<char>, Option<String>>) -> bool {
    forall|i: int| 0 <= i < guarded(spec).len() ==> guard.dom().contains(#[trigger] guarded(spec)[i])
}

/// Why the guard rejects a statement, if it does.
pub open spec fn verdict(guard: Map<Seq<char>, Option<String>>, statement: Seq<char>) -> Option<
    Seq<char>,
> {
    opt_text(guard[statement])
}

/// What the guard says of a statement that it has judged.
fn ask(guard: &Verdicts, statement: &str) -> (r: Result<(), String>)
    requires
        guard@.dom().contains(statement@),
    ensures
        rejection(r) == verdict(guard@, statement@),
{
    match guard.get(statement) {
        Some(Some(reason)) => Err(reason.clone()),
        _ => Ok(()),
    }
}

/// Why the statement of a query is not read-only, if it has to be and is not.
pub open spec fn statement_rejection(
    spec: DuckDbBackendSpec,
    guard: Map<Seq<char>, Option<String>>,
) -> Option<Seq<char>> {
    if spec.operation == DuckDbOperation::Query && spec.read_only && !is_blank(spec.statement@) {
        verdict(guard, spec.statement@)
    } else {
        None
    }
}

/// Checks the statement of a query against the guard.
pub fn check_statement(spec: &DuckDbBackendSpec, guard: &Verdicts) -> (r: Result<(), String>)
    requires
        judged(*spec, guard@),
    ensures
        rejection(r) == statement_rejection(*spec, guard@),
{
    if spec.operation == DuckDbOperation::Query && spec.read_only && !blank(
        spec.statement.as_str(),
    ) {
        assert(guarded(*spec)[0] == spec.statement@);
        return ask(guard, spec.statement.as_str());
    }
    Ok(())
}

// ------------------------------------------------------------------ the surface

/// Why the `uri` of a binding is rejected, if it is.
pub open spec fn uri_rejection(spec: DuckDbBackendSpec) -> Option<Seq<char>> {
    match spec.uri {
        Some(uri) => if spec.surface != Surface::Resource {
            Some(
                "`uri` is only valid with `surface: resource` (this binding is `surface: "@
                    + spec.surface.word() + "`)"@,
            )
        } else if is_blank(uri@) {
            Some("`uri` must not be empty"@)
        } else {
            None
        },
        None => None,
    }
}

/// Checks the `uri` of a binding: only on the resource surface, and not blank.
pub fn check_uri(spec: &DuckDbBackendSpec) -> (r: Result<(), String>)
    ensures
        rejection(r) == uri_rejection(*spec),
{
    match &spec.uri {
        Some(uri) => {
            if spec.surface != Surface::Resource {
                let mut message =
                    "`uri` is only valid with `surface: resource` (this binding is `surface: ".to_owned();
                message.append(spec.surface.as_str());
                message.append("`)");
                return Err(message);
            }
            if blank(uri.as_str()) {
                return Err("`uri` must not be empty".to_owned());
            }
        },
        None => {},
    }
    Ok(())
}

/// Why the `read_query` of a binding is rejected, if it is.
pub open spec fn read_query_rejection(
    spec: DuckDbBackendSpec,
    guard: Map<Seq<char>, Option<String>>,
) -> Option<Seq<char>> {
    match spec.read_query {
        Some(rq) => if is_blank(rq@) {
            Some("`read_query` must not be empty"@)
        } else if spec.surface != Surface::Resource {
            Some(
                "`read_query` is only valid with `surface: resource` (this binding is `surface: "@
                    + spec.surface.word() + "`)"@,
            )
        } else {
            first_of(
                bare_cred_rejection("read_query"@, rq@),
                if spec.read_only {
                    verdict(guard, rq@)
                } else {
                    None
                },
            )
        },
        None => None,
    }
}

/// Checks the `read_query` of a binding: not blank, only on the resource
/// surface, without a bare credential reference, and read-only under the guard.
pub fn check_read_query(spec: &DuckDbBackendSpec, guard: &Verdicts) -> (r: Result<(), String>)
    requires
        judged(*spec, guard@),
    ensures
        rejection(r) == read_query_rejection(*spec, guard@),
{
    match &spec.read_query {
        Some(rq) => {
            if blank(rq.as_str()) {
                return Err("`read_query` must not be empty".to_owned());
            }
            if spec.surface != Surface::Resource {
                let mut message =
                    "`read_query` is only valid with `surface: resource` (this binding is `surface: ".to_owned();
                message.append(spec.surface.as_str());
                message.append("`)");
                return Err(message);
            }
            match reject_bare_cred("read_query", rq.as_str()) {
                Ok(_) => {},
                Err(message) => {
                    return Err(message);
                },
            }
            if spec.read_only {
                assert(guarded(*spec)[guarded_statement(*spec).len() as int] == rq@);
                return ask(guard, rq.as_str());
            }
        },
        None => {},
    }
    Ok(())
}

// -------------------------------------------------------- listing, completions

/// Why the listing of a binding is rejected, if it is.
pub open spec fn listing_rejection(
    spec: DuckDbBackendSpec,
    guard: Map<Seq<char>, Option<String>>,
) -> Option<Seq<char>> {
    match spec.list_query {
        Some(lq) => first_of(
            list_query_rejection(lq),
            first_of(
                bare_cred_rejection("list_query.sql"@, lq.sql@),
                if spec.read_only {
                    verdict(guard, lq.sql@)
                } else {
                    None
                },
            ),
        ),
        None => None,
    }
}

/// Checks the listing of a binding.
pub fn check_listing(spec: &DuckDbBackendSpec, guard: &Verdicts) -> (r: Result<(), String>)
    requires
        judged(*spec, guard@),
    ensures
        rejection(r) == listing_rejection(*spec, guard@),
{
    match &spec.list_query {
        Some(lq) => {
            match validate_list_query(lq) {
                Ok(_) => {},
                Err(message) => {
                    return Err(message);
                },
            }
            match reject_bare_cred("list_query.sql", lq.sql.as_str()) {
                Ok(_) => {},
                Err(message) => {
                    return Err(message);
                },
            }
            if spec.read_only {
                let ghost at = guarded_statement(*spec).len() + guarded_read(*spec).len();
                assert(guarded(*spec)[at as int] == lq.sql@);
                return ask(guard, lq.sql.as_str());
            }
        },
        None => {},
    }
    Ok(())
}

/// Why one completion is rejected, if it is.
pub open spec fn one_completion_rejection(
    entry: (Seq<char>, CompletionConfig),
    read_only: bool,
    guard: Map<Seq<char>, Option<String>>,
) -> Option<Seq<char>> {
    first_of(
        completion_rejection(entry.0, entry.1.sql@),
        first_of(
            bare_cred_rejection("variable_completions."@ + entry.0 + ".sql"@, entry.1.sql@),
            if read_only {
                verdict(guard, entry.1.sql@)
            } else {
                None
            },
        ),
    )
}

/// Why a completion is rejected, the first in order of names first, if one is.
pub open spec fn completions_rejection(
    listing: Seq<(Seq<char>, CompletionConfig)>,
    read_only: bool,
    guard: Map<Seq<char>, Option<String>>,
) -> Option<Seq<char>>
    decreases listing.len(),
{
    if listing.len() == 0 {
        None
    } else {
        first_of(
            completions_rejection(listing.drop_last(), read_only, guard),
            one_completion_rejection(listing.last(), read_only, guard),
        )
    }
}

/// Checks one completion.
fn check_completion(name: &str, cfg: &CompletionConfig, read_only: bool, guard: &Verdicts) -> (r:
    Result<(), String>)
    requires
        read_only ==> guard@.dom().contains(cfg.sql@),
    ensures
        rejection(r) == one_completion_rejection((name@, *cfg), read_only, guard@),
{
    match validate_completion(name, cfg) {
        Ok(_) => {},
        Err(message) => {
            return Err(message);
        },
    }
    let mut field = "variable_completions.".to_owned();
    field.append(name);
    field.append(".sql");
    match reject_bare_cred(field.as_str(), cfg.sql.as_str()) {
        Ok(_) => {},
        Err(message) => {
            return Err(message);
        },
    }
    if read_only {
        ask(guard, cfg.sql.as_str())
    } else {
        Ok(())
    }
}

/// Checks the completions of a binding in order of their names.
pub fn check_completions(spec: &DuckDbBackendSpec, guard: &Verdicts) -> (r: Result<(), String>)
    requires
        judged(*spec, guard@),
    ensures
        rejection(r) == completions_rejection(
            spec.variable_completions.listing(),
            spec.read_only,
            guard@,
        ),
{
    let ghost listing = spec.variable_completions.listing();
    let count: usize = spec.variable_completions.len();
    let mut i: usize = 0;
    while i < count
        invariant
            i <= count,
            count == listing.len(),
            listing == spec.variable_completions.listing(),
            judged(*spec, guard@),
            completions_rejection(listing.take(i as int), spec.read_only, guard@) is None,
        decreases count - i,
    {
        let name = spec.variable_completions.name(i);
        let cfg = spec.variable_completions.value(i);
        proof {
            assert(listing.take(i + 1).drop_last() =~= listing.take(i as int));
            assert(listing.take(i + 1).last() == (name@, *cfg));
            if spec.read_only {
                let fixed = guarded_statement(*spec) + guarded_read(*spec) + guarded_listing(*spec);
                assert(guarded(*spec)[fixed.len() + i] == cfg.sql@);
            }
        }
        match check_completion(name.as_str(), cfg, spec.read_only, guard) {
            Ok(_) => {},
            Err(message) => {
                proof {
                    completions_rejection_stays(listing, spec.read_only, guard@, i + 1);
                }
                return Err(message);
            },
        }
        i += 1;
    }
    assert(listing.take(i as int) =~= listing);
    Ok(())
}

/// The first reason stands, whatever follows.
proof fn completions_rejection_stays(
    all: Seq<(Seq<char>, CompletionConfig)>,
    read_only: bool,
    guard: Map<Seq<char>, Option<String>>,
    n: int,
)
    requires
        0 <= n <= all.len(),
        completions_rejection(all.take(n), read_only, guard) is Some,
    ensures
        completions_rejection(all, read_only, guard) == completions_rejection(
            all.take(n),
            read_only,
            guard,
        ),
    decreases all.len() - n,
{
    if n == all.len() {
        assert(all.take(n) =~= all);
    } else {
        assert(all.take(n + 1).drop_last() =~= all.take(n));
        completions_rejection_stays(all, read_only, guard, n + 1);
    }
}

// ------------------------------------------------------------ the other fields

/// Why a field is rejected for a bare credential reference, where it is given.
pub open spec fn opt_cred_rejection(field: Seq<char>, value: Option<String>) -> Option<Seq<char>> {
    match value {
        Some(v) => bare_cred_rejection(field, v@),
        None => None,
    }
}

/// Rejects a bare credential reference in a field, where it is given.
fn check_opt_cred(field: &str, value: &Option<String>) -> (r: Result<(), String>)
    ensures
        rejection(r) == opt_cred_rejection(field@, *value),
{
    match value {
        Some(v) => reject_bare_cred(field, v.as_str()),
        None => Ok(()),
    }
}

/// Why a filter of the catalog is rejected for a bare credential reference, if
/// one is.
pub open spec fn filters_cred_rejection(cfg: CatalogFilterConfig) -> Option<Seq<char>> {
    first_of(
        opt_cred_rejection("catalog_filters.catalog"@, cfg.catalog),
        first_of(
            opt_cred_rejection("catalog_filters.schema"@, cfg.schema),
            first_of(
                opt_cred_rejection("catalog_filters.table"@, cfg.table),
                first_of(
                    opt_cred_rejection("catalog_filters.table_type"@, cfg.table_type),
                    first_of(
                        opt_cred_rejection("catalog_filters.catalog_arg"@, cfg.catalog_arg),
                        first_of(
                            opt_cred_rejection("catalog_filters.schema_arg"@, cfg.schema_arg),
                            first_of(
                                opt_cred_rejection("catalog_filters.table_arg"@, cfg.table_arg),
                                opt_cred_rejection(
                                    "catalog_filters.table_type_arg"@,
                                    cfg.table_type_arg,
                                ),
                            ),
                        ),
                    ),
                ),
            ),
        ),
    )
}

/// Rejects a bare credential reference in a filter of the catalog.
pub fn check_filter_creds(cfg: &CatalogFilterConfig) -> (r: Result<(), String>)
    ensures
        rejection(r) == filters_cred_rejection(*cfg),
{
    if let Some(message) = failed(check_opt_cred("catalog_filters.catalog", &cfg.catalog)) {
        return Err(message);
    }
    if let Some(message) = failed(check_opt_cred("catalog_filters.schema", &cfg.schema)) {
        return Err(message);
    }
    if let Some(message) = failed(check_opt_cred("catalog_filters.table", &cfg.table)) {
        return Err(message);
    }
    if let Some(message) = failed(check_opt_cred("catalog_filters.table_type", &cfg.table_type)) {
        return Err(message);
    }
    if let Some(message) = failed(check_opt_cred("catalog_filters.catalog_arg", &cfg.catalog_arg)) {
        return Err(message);
    }
    if let Some(message) = failed(check_opt_cred("catalog_filters.schema_arg", &cfg.schema_arg)) {
        return Err(message);
    }
    if let Some(message) = failed(check_opt_cred("catalog_filters.table_arg", &cfg.table_arg)) {
        return Err(message);
    }
    check_opt_cred("catalog_filters.table_type_arg", &cfg.table_type_arg)
}

/// Why a file is rejected for a bare credential reference, if it is.
pub open spec fn file_cred_rejection(cfg: Option<ReadFileConfig>) -> Option<Seq<char>> {
    match cfg {
        Some(cfg) => first_of(
            bare_cred_rejection("read_file.path"@, cfg.path@),
            first_of(
                list_cred_rejection("read_file.columns"@, texts(cfg.columns@)),
                opt_cred_rejection("read_file.predicate"@, cfg.predicate),
            ),
        ),
        None => None,
    }
}

/// Rejects a bare credential reference in a file, whatever the operation is.
pub fn check_file_creds(cfg: &Option<ReadFileConfig>) -> (r: Result<(), String>)
    ensures
        rejection(r) == file_cred_rejection(*cfg),
{
    match cfg {
        Some(cfg) => {
            if let Some(message) = failed(reject_bare_cred("read_file.path", cfg.path.as_str())) {
                return Err(message);
            }
            if let Some(message) = failed(check_list_creds("read_file.columns", &cfg.columns)) {
                return Err(message);
            }
            check_opt_cred("read_file.predicate", &cfg.predicate)
        },
        None => Ok(()),
    }
}

/// Why the cursor column of a listing is rejected for a bare credential
/// reference, if it is.
pub open spec fn cursor_cred_rejection(cfg: Option<ListQueryConfig>) -> Option<Seq<char>> {
    match cfg {
        Some(cfg) => opt_cred_rejection("list_query.cursor_column"@, cfg.cursor_column),
        None => None,
    }
}

/// Why one of the fields that no other check has looked at is rejected for a
/// bare credential reference, if one is.
pub open spec fn other_cred_rejection(spec: DuckDbBackendSpec) -> Option<Seq<char>> {
    first_of(
        filters_cred_rejection(spec.catalog_filters),
        first_of(
            file_cred_rejection(spec.read_file),
            first_of(
                list_cred_rejection("params"@, texts(spec.params@)),
                first_of(
                    opt_cred_rejection("uri"@, spec.uri),
                    cursor_cred_rejection(spec.list_query),
                ),
            ),
        ),
    )
}

/// Rejects a bare credential reference in the fields that no other check has
/// looked at, so that none is accepted in any field.
pub fn check_other_creds(spec: &DuckDbBackendSpec) -> (r: Result<(), String>)
    ensures
        rejection(r) == other_cred_rejection(*spec),
{
    if let Some(message) = failed(check_filter_creds(&spec.catalog_filters)) {
        return Err(message);
    }
    if let Some(message) = failed(check_file_creds(&spec.read_file)) {
        return Err(message);
    }
    if let Some(message) = failed(check_list_creds("params", &spec.params)) {
        return Err(message);
    }
    if let Some(message) = failed(check_opt_cred("uri", &spec.uri)) {
        return Err(message);
    }
    match &spec.list_query {
        Some(cfg) => check_opt_cred("list_query.cursor_column", &cfg.cursor_column),
        None => Ok(()),
    }
}

// ------------------------------------------------------------------- the whole

/// Why the description of a binding is rejected, if it is: the first check that
/// fails, in this order.
pub open spec fn spec_rejection(
    spec: DuckDbBackendSpec,
    guard: Map<Seq<char>, Option<String>>,
) -> Option<Seq<char>> {
    if is_blank(spec.database@) {
        Some("database must not be empty"@)
    } else {
        first_of(
            operation_rejection(spec),
            first_of(
                bounds_rejection(spec),
                first_of(
                    bare_cred_rejection("database"@, spec.database@),
                    first_of(
                        bare_cred_rejection("statement"@, spec.statement@),
                        first_of(
                            list_cred_rejection("init_sql"@, texts(spec.init_sql@)),
                            first_of(
                                attach_rejection(spec.attach@),
                                first_of(
                                    statement_rejection(spec, guard),
                                    first_of(
                                        uri_rejection(spec),
                                        first_of(
                                            read_query_rejection(spec, guard),
                                            first_of(
                                                listing_rejection(spec, guard),
                                                first_of(
                                                    completions_rejection(
                                                        spec.variable_completions.listing(),
                                                        spec.read_only,
                                                        guard,
                                                    ),
                                                    other_cred_rejection(spec),
                                                ),
                                            ),
                                        ),
                                    ),
                                ),
                            ),
                        ),
                    ),
                ),
            ),
        )
    }
}

/// Whether a check has failed, and if so with what message.
fn failed(r: Result<(), String>) -> (message: Option<String>)
    ensures
        opt_text(message) == rejection(r),
{
    match r {
        Ok(_) => None,
        Err(message) => Some(message),
    }
}

/// Checks the description of a binding, with the guard's verdicts on its
/// statements.
pub fn check_spec(spec: &DuckDbBackendSpec, guard: &Verdicts) -> (r: Result<(), String>)
    requires
        judged(*spec, guard@),
    ensures
        rejection(r) == spec_rejection(*spec, guard@),
{
    if blank(spec.database.as_str()) {
        return Err("database must not be empty".to_owned());
    }
    if let Some(message) = failed(check_operation(spec)) {
        return Err(message);
    }
    if let Some(message) = failed(check_bounds(spec)) {
        return Err(message);
    }
    if let Some(message) = failed(reject_bare_cred("database", spec.database.as_str())) {
        return Err(message);
    }
    if let Some(message) = failed(reject_bare_cred("statement", spec.statement.as_str())) {
        return Err(message);
    }
    if let Some(message) = failed(check_list_creds("init_sql", &spec.init_sql)) {
        return Err(message);
    }
    if let Some(message) = failed(check_attach(&spec.attach)) {
        return Err(message);
    }
    if let Some(message) = failed(check_statement(spec, guard)) {
        return Err(message);
    }
    if let Some(message) = failed(check_uri(spec)) {
        return Err(message);
    }
    if let Some(message) = failed(check_read_query(spec, guard)) {
        return Err(message);
    }
    if let Some(message) = failed(check_listing(spec, guard)) {
        return Err(message);
    }
    if let Some(message) = failed(check_completions(spec, guard)) {
        return Err(message);
    }
    check_other_creds(spec)
}

} // verus!
