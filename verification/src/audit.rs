//! What the audit trail holds of a call that failed.

use vstd::prelude::*;

use crate::json::{object_push, object_tree, string, unsigned, Json, JsonObject, JsonTree, Members};
use crate::text::{decimal, opt_str, opt_text, same_text, u128_text};

verus! {

/// The action that an outcome is audited under, where it is audited.
pub open spec fn action_for(label: Seq<char>) -> Option<Seq<char>> {
    if label == "timeout"@ {
        Some("dev.mcpg.backend.duckdb.request_timeout"@)
    } else if label == "transport_error"@ {
        Some("dev.mcpg.backend.duckdb.request_failed"@)
    } else if label == "duckdb_error"@ {
        Some("dev.mcpg.backend.duckdb.query_rejected"@)
    } else if label == "invalid_spec"@ {
        Some("dev.mcpg.backend.duckdb.request_failed"@)
    } else {
        None
    }
}

/// The action that an outcome is audited under: failures are, and a success or
/// an unknown binding is not.
pub fn audit_action_for_outcome(label: &str) -> (action: Option<&'static str>)
    ensures
        opt_str(action) == action_for(label@),
{
    if same_text(label, "timeout") {
        Some("dev.mcpg.backend.duckdb.request_timeout")
    } else if same_text(label, "transport_error") {
        Some("dev.mcpg.backend.duckdb.request_failed")
    } else if same_text(label, "duckdb_error") {
        Some("dev.mcpg.backend.duckdb.query_rejected")
    } else if same_text(label, "invalid_spec") {
        Some("dev.mcpg.backend.duckdb.request_failed")
    } else {
        None
    }
}

/// Who a call was made by.
#[derive(Debug)]
pub struct Identity {
    pub kind: String,
    pub trust_level: String,
    pub subject_id: Option<String>,
    pub auth_provider: Option<String>,
    pub issuer: Option<String>,
    pub roles: Vec<String>,
    pub groups: Vec<String>,
    pub scopes: Vec<String>,
    pub attributes: JsonObject,
}

impl Identity {
    /// This backend itself, as an actor.
    pub open spec fn is_system(self) -> bool {
        &&& self.kind@ == "system"@
        &&& self.trust_level@ == "verified"@
        &&& opt_text(self.subject_id) == Some("dev.mcpg.backend.duckdb"@)
        &&& self.auth_provider is None
        &&& self.issuer is None
        &&& self.roles@.len() == 0
        &&& self.groups@.len() == 0
        &&& self.scopes@.len() == 0
        &&& self.attributes.entries().len() == 0
    }
}

/// This backend itself, as the actor of a call that came without an identity.
pub fn synthetic_system_identity() -> (identity: Identity)
    ensures
        identity.is_system(),
{
    Identity {
        kind: "system".to_owned(),
        trust_level: "verified".to_owned(),
        subject_id: Some("dev.mcpg.backend.duckdb".to_owned()),
        auth_provider: None,
        issuer: None,
        roles: Vec::new(),
        groups: Vec::new(),
        scopes: Vec::new(),
        attributes: JsonObject::new(),
    }
}

/// One entry of the audit trail. It always tells of a failure.
#[derive(Debug)]
pub struct AuditRecord {
    pub event_id: String,
    pub occurred_at: String,
    pub actor: Identity,
    pub action: String,
    pub resource: String,
    pub request_id: String,
    pub details: Json,
}

/// The details of an entry.
pub open spec fn details_tree(
    backend_name: Seq<char>,
    duration_ms: u128,
    label: Seq<char>,
    alias: Seq<char>,
    reason: Option<Seq<char>>,
) -> JsonTree {
    let details = Members::empty().push(("backend"@, JsonTree::Str(backend_name))).push(
        ("duration_ms"@, JsonTree::Number(decimal((duration_ms as u64) as int))),
    ).push(("outcome"@, JsonTree::Str(label))).push(("alias"@, JsonTree::Str(alias)));
    match reason {
        Some(reason) => object_tree(details.push(("reason"@, JsonTree::Str(reason)))),
        None => object_tree(details),
    }
}

/// The details of an entry.
fn details_of(backend_name: &str, duration_ms: u128, label: &str, alias: &str, reason: Option<&str>) -> (
details: Json)
    ensures
        details.tree() == details_tree(backend_name@, duration_ms, label@, alias@, opt_str(reason)),
{
    broadcast use object_push;

    let details = JsonObject::new().with("backend", string(backend_name)).with(
        "duration_ms",
        unsigned(
            #[verifier::truncate]
            (duration_ms as u64),
        ),
    ).with("outcome", string(label)).with("alias", string(alias));
    match reason {
        Some(reason) => Json::Object(details.with("reason", string(reason))),
        None => Json::Object(details),
    }
}

/// `record` is the entry of a call in the audit trail.
pub open spec fn is_entry(
    backend_name: Seq<char>,
    label: Seq<char>,
    reason: Option<Seq<char>>,
    identity: Option<Identity>,
    request_id: Seq<char>,
    duration_ms: u128,
    duration_ns: u128,
    alias: Seq<char>,
    occurred_at: Seq<char>,
    record: Option<AuditRecord>,
) -> bool {
    match record {
        Some(record) => {
            &&& action_for(label) == Some(record.action@)
            &&& record.event_id@ == "duckdb-"@ + request_id + "-"@ + decimal(duration_ns as int)
            &&& record.occurred_at@ == occurred_at
            &&& (match identity {
                Some(identity) => record.actor == identity,
                None => record.actor.is_system(),
            })
            &&& record.resource@ == "duckdb-binding://"@ + backend_name
            &&& record.request_id@ == request_id
            &&& record.details.tree() == details_tree(
                backend_name,
                duration_ms,
                label,
                alias,
                reason,
            )
        },
        None => action_for(label) is None,
    }
}

/// The entry of a call in the audit trail: none where its outcome is not
/// audited. The actor is the caller, or this backend where the call came
/// without an identity.
pub fn audit_record(
    backend_name: &str,
    label: &str,
    reason: Option<&str>,
    identity: Option<Identity>,
    request_id: &str,
    duration_ms: u128,
    duration_ns: u128,
    alias: &str,
    occurred_at: String,
) -> (record: Option<AuditRecord>)
    ensures
        match record {
            Some(record) => {
                &&& action_for(label@) == Some(record.action@)
                &&& record.event_id@ == "duckdb-"@ + request_id@ + "-"@ + decimal(duration_ns as int)
                &&& record.occurred_at == occurred_at
                &&& (match identity {
                    Some(identity) => record.actor == identity,
                    None => record.actor.is_system(),
                })
                &&& record.resource@ == "duckdb-binding://"@ + backend_name@
                &&& record.request_id@ == request_id@
                &&& record.details.tree() == details_tree(
                    backend_name@,
                    duration_ms,
                    label@,
                    alias@,
                    opt_str(reason),
                )
            },
            None => action_for(label@) is None,
        },
        is_entry(
            backend_name@,
            label@,
            opt_str(reason),
            identity,
            request_id@,
            duration_ms,
            duration_ns,
            alias@,
            occurred_at@,
            record,
        ),
{
    match audit_action_for_outcome(label) {
        Some(action) => {
            let actor = match identity {
                Some(identity) => identity,
                None => synthetic_system_identity(),
            };
            let details = details_of(backend_name, duration_ms, label, alias, reason);
            let mut event_id = "duckdb-".to_owned();
            event_id.append(request_id);
            event_id.append("-");
            event_id.append(u128_text(duration_ns).as_str());
            let mut resource = "duckdb-binding://".to_owned();
            resource.append(backend_name);
            Some(
                AuditRecord {
                    event_id,
                    occurred_at,
                    actor,
                    action: action.to_owned(),
                    resource,
                    request_id: request_id.to_owned(),
                    details,
                },
            )
        },
        None => None,
    }
}

} // verus!
