//! The surfaces that a binding serves besides the tool envelope: the contents
//! of a resource, the messages of a prompt, the pages of a listing and the
//! candidates of a completion.

use vstd::prelude::*;

use crate::json::{
    field, object_push, object_tree, rendered, str_field, string, trees, Json, JsonObject, JsonTree,
    Members,
};
use crate::text::{decimal, opt_str, opt_text, texts, trim, u128_text};
use crate::types::{cursor_column_text, ListQueryConfig, ListQueryMode};

verus! {

/// The surface that a binding serves.
#[derive(Debug, Clone, Copy, PartialEq, Eq, Structural)]
pub enum Surface {
    /// Rows in the tool envelope.
    Tool,
    /// Rows as the contents of a resource.
    Resource,
    /// Rows as the messages of a prompt.
    Prompt,
}

impl Default for Surface {
    fn default() -> (surface: Surface)
        ensures
            surface == Surface::Tool,
    {
        Surface::Tool
    }
}

impl Surface {
    /// The word that stands for this surface on the wire.
    pub open spec fn word(self) -> Seq<char> {
        match self {
            Surface::Tool => "tool"@,
            Surface::Resource => "resource"@,
            Surface::Prompt => "prompt"@,
        }
    }

    /// The word that stands for this surface on the wire.
    pub fn as_str(self) -> (word: &'static str)
        ensures
            word@ == self.word(),
    {
        match self {
            Surface::Tool => "tool",
            Surface::Resource => "resource",
            Surface::Prompt => "prompt",
        }
    }
}

// ------------------------------------------------------------------------ text

/// The text of a value, bare: a string as it is, a number or a truth value as it
/// prints, a list or an object rendered; none for null.
pub open spec fn bare_text(tree: JsonTree) -> Option<Seq<char>> {
    match tree {
        JsonTree::Null => None,
        JsonTree::Bool(true) => Some("true"@),
        JsonTree::Bool(false) => Some("false"@),
        JsonTree::Number(text) => Some(text),
        JsonTree::Str(s) => Some(s),
        _ => Some(rendered(tree)),
    }
}

/// The text of a value, bare; none for null.
pub fn text_of_value(value: &Json) -> (text: Option<String>)
    ensures
        opt_text(text) == bare_text(value.tree()),
{
    match value {
        Json::Null => None,
        Json::Str(s) => Some(s.clone()),
        other => Some(other.to_text()),
    }
}

/// The name of the first column of a row.
pub open spec fn first_key(row: JsonTree) -> Option<Seq<char>> {
    match row {
        JsonTree::Object(members) => if members.len() > 0 {
            Some(members[0].0)
        } else {
            None
        },
        _ => None,
    }
}

/// The name of the first column of the first row.
pub open spec fn first_column_of(rows: Seq<JsonTree>) -> Option<Seq<char>> {
    if rows.len() > 0 {
        first_key(rows[0])
    } else {
        None
    }
}

/// The name of the first column of the first row.
pub fn first_column(rows: &Vec<Json>) -> (name: Option<String>)
    ensures
        opt_text(name) == first_column_of(trees(rows@)),
{
    if rows.len() == 0 {
        return None;
    }
    assert(trees(rows@)[0] == rows@[0].tree());
    match &rows[0] {
        Json::Object(object) => {
            if object.len() > 0 {
                Some(object.key(0).clone())
            } else {
                None
            }
        },
        _ => None,
    }
}

// -------------------------------------------------------------------- contents

/// The URI of a resource: the configured one, or else the one that the call
/// asks for, where it is not empty.
pub open spec fn resource_uri(configured: Option<Seq<char>>, arguments: JsonTree) -> Option<
    Seq<char>,
> {
    match configured {
        Some(uri) => Some(uri),
        None => match str_field(arguments, "uri"@) {
            Some(uri) => if uri.len() > 0 {
                Some(uri)
            } else {
                None
            },
            None => None,
        },
    }
}

/// The URI of a resource: the configured one, or else the one that the call
/// asks for; none where there is neither, or the one asked for is empty.
pub fn resolve_resource_uri(configured: &Option<String>, arguments: &Json) -> (uri: Option<String>)
    ensures
        opt_text(uri) == resource_uri(opt_text(*configured), arguments.tree()),
{
    match configured {
        Some(uri) => Some(uri.clone()),
        None => match arguments.get_str("uri") {
            Some(uri) => if uri.as_str().is_empty() {
                None
            } else {
                Some(uri.clone())
            },
            None => None,
        },
    }
}

/// The contents of a resource: its rows, rendered, under its URI.
pub open spec fn contents_tree(uri: Seq<char>, rows: Seq<JsonTree>) -> JsonTree {
    object_tree(
        Members::empty().push(
            (
                "contents"@,
                JsonTree::Array(
                    Seq::empty().push(
                        object_tree(
                            Members::empty().push(("uri"@, JsonTree::Str(uri))).push(
                                ("text"@, JsonTree::Str(rendered(JsonTree::Array(rows)))),
                            ).push(("mimeType"@, JsonTree::Str("application/json"@))),
                        ),
                    ),
                ),
            ),
        ),
    )
}

/// The text of a list of rows.
fn rendered_rows(rows: Vec<Json>) -> (text: String)
    ensures
        text@ == rendered(JsonTree::Array(trees(rows@))),
{
    Json::Array(rows).to_text()
}

/// The contents of a resource: its rows, rendered, under its URI.
pub fn resource_contents_body(uri: &str, rows: Vec<Json>) -> (body: Json)
    ensures
        body.tree() == contents_tree(uri@, trees(rows@)),
{
    broadcast use object_push;

    let text = rendered_rows(rows);
    let content = Json::Object(
        JsonObject::new().with("uri", string(uri)).with("text", Json::Str(text)).with(
            "mimeType",
            string("application/json"),
        ),
    );
    let mut contents: Vec<Json> = Vec::new();
    contents.push(content);
    assert(trees(contents@) =~= Seq::empty().push(content.tree()));
    Json::Object(JsonObject::new().with("contents", Json::Array(contents)))
}

/// The messages of a prompt: one, from the user, with the rows rendered.
pub open spec fn messages_tree(rows: Seq<JsonTree>) -> JsonTree {
    object_tree(
        Members::empty().push(
            (
                "messages"@,
                JsonTree::Array(
                    Seq::empty().push(
                        object_tree(
                            Members::empty().push(("role"@, JsonTree::Str("user"@))).push(
                                (
                                    "content"@,
                                    object_tree(
                                        Members::empty().push(
                                            ("type"@, JsonTree::Str("text"@)),
                                        ).push(
                                            (
                                                "text"@,
                                                JsonTree::Str(rendered(JsonTree::Array(rows))),
                                            ),
                                        ),
                                    ),
                                ),
                            ),
                        ),
                    ),
                ),
            ),
        ),
    )
}

/// The messages of a prompt: one, from the user, with the rows rendered.
pub fn prompt_messages_body(rows: Vec<Json>) -> (body: Json)
    ensures
        body.tree() == messages_tree(trees(rows@)),
{
    broadcast use object_push;

    let text = rendered_rows(rows);
    let content = Json::Object(
        JsonObject::new().with("type", string("text")).with("text", Json::Str(text)),
    );
    let message = Json::Object(
        JsonObject::new().with("role", string("user")).with("content", content),
    );
    let mut messages: Vec<Json> = Vec::new();
    messages.push(message);
    assert(trees(messages@) =~= Seq::empty().push(message.tree()));
    Json::Object(JsonObject::new().with("messages", Json::Array(messages)))
}

// --------------------------------------------------------------------- listing

/// One resource of a listing.
#[derive(Debug, PartialEq)]
pub struct ListedResource {
    pub uri: String,
    pub name: Option<String>,
    pub description: Option<String>,
    pub mime_type: Option<String>,
}

/// The model of a listed resource.
pub struct ResourceView {
    pub uri: Seq<char>,
    pub name: Option<Seq<char>>,
    pub description: Option<Seq<char>>,
    pub mime_type: Option<Seq<char>>,
}

impl View for ListedResource {
    type V = ResourceView;

    open spec fn view(&self) -> ResourceView {
        ResourceView {
            uri: self.uri@,
            name: opt_text(self.name),
            description: opt_text(self.description),
            mime_type: opt_text(self.mime_type),
        }
    }
}

/// The models of a list of resources.
pub open spec fn resource_views(resources: Seq<ListedResource>) -> Seq<ResourceView> {
    resources.map_values(|r: ListedResource| r@)
}

/// One page of a listing, and where the next one begins.
#[derive(Debug, PartialEq)]
pub struct ResourcePage {
    pub resources: Vec<ListedResource>,
    pub next_cursor: Option<String>,
}

impl ResourcePage {
    /// The page without resources.
    pub fn empty() -> (page: ResourcePage)
        ensures
            page.resources@.len() == 0,
            page.next_cursor is None,
    {
        ResourcePage { resources: Vec::new(), next_cursor: None }
    }
}

/// The resources that rows describe: one for each row with a `uri`, in order.
pub open spec fn listed_resources(rows: Seq<JsonTree>) -> Seq<ResourceView>
    decreases rows.len(),
{
    if rows.len() == 0 {
        Seq::empty()
    } else {
        let before = listed_resources(rows.drop_last());
        match str_field(rows.last(), "uri"@) {
            Some(uri) => before.push(
                ResourceView {
                    uri,
                    name: str_field(rows.last(), "name"@),
                    description: str_field(rows.last(), "description"@),
                    mime_type: str_field(rows.last(), "mime_type"@),
                },
            ),
            None => before,
        }
    }
}

/// The value of a column of a row, as bare text.
pub open spec fn column_text(row: JsonTree, column: Seq<char>) -> Option<Seq<char>> {
    match field(row, column) {
        Some(value) => bare_text(value),
        None => None,
    }
}

/// Where the next page begins: nowhere after a short page; else at the last
/// value of the cursor column, or at the offset behind this page.
pub open spec fn next_cursor(rows: Seq<JsonTree>, cfg: ListQueryConfig, prior_offset: int) -> Option<
    Seq<char>,
> {
    if rows.len() < cfg.page_size {
        None
    } else {
        match cfg.mode {
            ListQueryMode::Keyset => if rows.len() > 0 {
                column_text(rows.last(), cursor_column_text(cfg))
            } else {
                None
            },
            ListQueryMode::Offset => if prior_offset + rows.len() <= u64::MAX {
                Some(decimal(prior_offset + rows.len()))
            } else {
                None
            },
        }
    }
}

/// A copy of a string of a row, where there is one.
fn copied_field(row: &Json, column: &str) -> (s: Option<String>)
    ensures
        opt_text(s) == str_field(row.tree(), column@),
{
    match row.get_str(column) {
        Some(s) => Some(s.clone()),
        None => None,
    }
}

/// The value of a column of a row, as bare text.
fn column_text_of(row: &Json, column: &str) -> (text: Option<String>)
    ensures
        opt_text(text) == column_text(row.tree(), column@),
{
    match row.get(column) {
        Some(value) => text_of_value(value),
        None => None,
    }
}

/// Where the next page begins.
fn next_cursor_of(rows: &Vec<Json>, cfg: &ListQueryConfig, prior_offset: u64) -> (cursor: Option<
    String,
>)
    ensures
        opt_text(cursor) == next_cursor(trees(rows@), *cfg, prior_offset as int),
{
    let count: u64 = rows.len() as u64;
    if count < cfg.page_size {
        return None;
    }
    match cfg.mode {
        ListQueryMode::Keyset => {
            if rows.len() == 0 {
                return None;
            }
            let column = match &cfg.cursor_column {
                Some(c) => trim(c.as_str()),
                None => String::new(),
            };
            assert(trees(rows@).last() == rows@.last().tree());
            column_text_of(&rows[rows.len() - 1], column.as_str())
        },
        ListQueryMode::Offset => match prior_offset.checked_add(count) {
            Some(next) => Some(u128_text(next as u128)),
            None => None,
        },
    }
}

/// One page of a listing: the resources that its rows describe, and where the
/// next page begins.
pub fn rows_to_resource_page(rows: &Vec<Json>, cfg: &ListQueryConfig, prior_offset: u64) -> (page:
    ResourcePage)
    ensures
        resource_views(page.resources@) == listed_resources(trees(rows@)),
        opt_text(page.next_cursor) == next_cursor(trees(rows@), *cfg, prior_offset as int),
{
    let ghost all = trees(rows@);
    let mut resources: Vec<ListedResource> = Vec::new();
    assert(resource_views(resources@) =~= listed_resources(all.take(0)));
    let mut i: usize = 0;
    while i < rows.len()
        invariant
            i <= rows@.len(),
            all == trees(rows@),
            resource_views(resources@) == listed_resources(all.take(i as int)),
        decreases rows@.len() - i,
    {
        let row = &rows[i];
        assert(all.take(i + 1).drop_last() =~= all.take(i as int));
        assert(all.take(i + 1).last() == row.tree());
        match copied_field(row, "uri") {
            Some(uri) => {
                let ghost before = resource_views(resources@);
                let resource = ListedResource {
                    uri,
                    name: copied_field(row, "name"),
                    description: copied_field(row, "description"),
                    mime_type: copied_field(row, "mime_type"),
                };
                resources.push(resource);
                assert(resource_views(resources@) =~= before.push(resource@));
            },
            None => {},
        }
        i += 1;
    }
    assert(all.take(i as int) =~= all);
    let next_cursor = next_cursor_of(rows, cfg, prior_offset);
    ResourcePage { resources, next_cursor }
}

// ------------------------------------------------------------------ completion

/// The values of a column as bare text, in order, without nulls.
pub open spec fn column_texts(rows: Seq<JsonTree>, column: Seq<char>) -> Seq<Seq<char>>
    decreases rows.len(),
{
    if rows.len() == 0 {
        Seq::empty()
    } else {
        match column_text(rows.last(), column) {
            Some(text) => column_texts(rows.drop_last(), column).push(text),
            None => column_texts(rows.drop_last(), column),
        }
    }
}

/// The candidates of a completion: the values of the column, at most `max`.
pub open spec fn candidates(rows: Seq<JsonTree>, column: Option<Seq<char>>, max: int) -> Seq<
    Seq<char>,
> {
    match column {
        Some(column) => {
            let all = column_texts(rows, column);
            if all.len() <= max {
                all
            } else {
                all.take(max)
            }
        },
        None => Seq::empty(),
    }
}

/// More rows only add candidates behind those there are.
pub proof fn column_texts_grow(rows: Seq<JsonTree>, column: Seq<char>, n: int)
    requires
        0 <= n <= rows.len(),
    ensures
        column_texts(rows.take(n), column).len() <= column_texts(rows, column).len(),
        column_texts(rows, column).take(column_texts(rows.take(n), column).len() as int)
            == column_texts(rows.take(n), column),
    decreases rows.len() - n,
{
    if n == rows.len() {
        assert(rows.take(n) =~= rows);
        assert(column_texts(rows, column).take(column_texts(rows, column).len() as int)
            =~= column_texts(rows, column));
    } else {
        column_texts_grow(rows, column, n + 1);
        let longer = rows.take(n + 1);
        assert(longer.drop_last() =~= rows.take(n));
        let here = column_texts(rows.take(n), column);
        let all = column_texts(rows, column);
        let next = column_texts(longer, column);
        assert(all.take(here.len() as int) =~= here) by {
            assert forall|i: int| 0 <= i < here.len() implies all[i] == here[i] by {
                assert(next[i] == here[i]);
                assert(all.take(next.len() as int)[i] == next[i]);
            }
        }
    }
}

/// The candidates of a completion: the values of the named column as bare text,
/// at most `max` of them.
pub fn rows_to_completion_values(rows: &Vec<Json>, column: Option<&str>, max: usize) -> (values: Vec<
    String,
>)
    ensures
        texts(values@) == candidates(trees(rows@), opt_str(column), max as int),
{
    let mut values: Vec<String> = Vec::new();
    let column = match column {
        Some(column) => column,
        None => {
            assert(texts(values@) =~= Seq::<Seq<char>>::empty());
            return values;
        },
    };
    let ghost all = trees(rows@);
    assert(texts(values@) =~= column_texts(all.take(0), column@));
    let mut i: usize = 0;
    while i < rows.len() && values.len() < max
        invariant
            i <= rows@.len(),
            values@.len() <= max,
            all == trees(rows@),
            texts(values@) == column_texts(all.take(i as int), column@),
        decreases rows@.len() - i,
    {
        assert(all.take(i + 1).drop_last() =~= all.take(i as int));
        assert(all.take(i + 1).last() == rows@[i as int].tree());
        match column_text_of(&rows[i], column) {
            Some(text) => {
                let ghost before = texts(values@);
                values.push(text);
                assert(texts(values@) =~= before.push(text@));
            },
            None => {},
        }
        i += 1;
    }
    proof {
        column_texts_grow(all, column@, i as int);
        assert(all.take(all.len() as int) =~= all);
    }
    values
}

} // verus!
