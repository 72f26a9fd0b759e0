//! What holds of listings, completions and watches: pages follow each other
//! without a gap, and every value stands as it came.

use vstd::prelude::*;

use crate::call::{
    bad_cursor_message, is_completion, is_completion_plan, is_listing_page, is_listing_plan,
    CompletionPlan, ListingPlan,
};
use crate::duckdb::{cell_tree, kept_rows, row_pairs, row_tree, QueryOutcome, Row};
use crate::json::{field, object, put, trees, JsonTree, Members};
use crate::laws::rows::bare_text_is_the_value;
use crate::params::{bind_views, bound_tree, BindView, DuckBind};
use crate::plugin::{BackendError, ErrorView};
use crate::surface::{
    bare_text, candidates, column_texts, first_column_of, listed_resources, next_cursor,
    resource_views, ResourcePage, ResourceView,
};
use crate::text::{
    decimal, decimal_reads_back, is_number, number_of, opt_text, texts, trimmed, unsigned_of,
};
use crate::types::{CompletionConfig, ListQueryConfig, ListQueryMode};
use crate::watch::{cursor_of, is_tick};

verus! {

// ------------------------------------------------------------------------ pages

/// What a bind says, by its model.
pub open spec fn view_tree(bind: BindView) -> JsonTree {
    match bind {
        BindView::Null => JsonTree::Null,
        BindView::Int(i) => JsonTree::Number(decimal(i as int)),
        BindView::Real(n) => JsonTree::Number(crate::json::number_text(n)),
        BindView::Bool(b) => JsonTree::Bool(b),
        BindView::Str(s) => JsonTree::Str(s),
    }
}

/// What a list of two binds says.
proof fn two_binds_say(binds: Seq<DuckBind>, first: BindView, second: BindView)
    requires
        bind_views(binds) == Seq::empty().push(first).push(second),
    ensures
        binds.len() == 2,
        bound_tree(binds[0]) == view_tree(first),
        bound_tree(binds[1]) == view_tree(second),
{
    assert(bind_views(binds).len() == binds.len());
    assert(bind_views(binds)[0] == binds[0]@);
    assert(bind_views(binds)[1] == binds[1]@);
}

/// What a page of a listing sends: the operator's statement, with the page size
/// as the number of rows to keep. A keyset listing binds the cursor, as it came,
/// or null where there is none, and the page size behind it; a listing by offset
/// binds the page size and the offset behind it.
pub proof fn pages_send_the_operators_statement(
    cfg: ListQueryConfig,
    cursor: Option<Seq<char>>,
    r: Result<Option<ListingPlan>, BackendError>,
)
    requires
        1 <= cfg.page_size <= 1_000,
        is_listing_plan(Some(cfg), cursor, r),
        r is Ok,
    ensures
        r->Ok_0 is Some,
        ({
            let plan = r->Ok_0->0;
            let size = JsonTree::Number(decimal(cfg.page_size as int));
            &&& plan.sql@ == cfg.sql@
            &&& plan.max_rows == cfg.page_size
            &&& plan.binds@.len() == 2
            &&& cfg.mode == ListQueryMode::Keyset ==> {
                &&& cursor matches Some(c) ==> bound_tree(plan.binds@[0]) == JsonTree::Str(c)
                &&& cursor is None ==> bound_tree(plan.binds@[0]) is Null
                &&& bound_tree(plan.binds@[1]) == size
                &&& plan.prior_offset == 0
            }
            &&& cfg.mode == ListQueryMode::Offset ==> {
                &&& bound_tree(plan.binds@[0]) == size
                &&& plan.prior_offset <= i64::MAX ==> bound_tree(plan.binds@[1])
                    == JsonTree::Number(decimal(plan.prior_offset as int))
                &&& cursor is None ==> plan.prior_offset == 0
                &&& cursor matches Some(c) ==> unsigned_of(c) == Some(plan.prior_offset as int)
            }
        }),
{
    let plan = r->Ok_0->0;
    match cfg.mode {
        ListQueryMode::Keyset => {
            let first = match cursor {
                Some(c) => BindView::Str(c),
                None => BindView::Null,
            };
            two_binds_say(plan.binds@, first, BindView::Int(cfg.page_size as i64));
        },
        ListQueryMode::Offset => {
            two_binds_say(
                plan.binds@,
                BindView::Int(cfg.page_size as i64),
                BindView::Int(plan.prior_offset as i64),
            );
        },
    }
}

/// A page is refused exactly where a listing by offset is given a cursor that is
/// no number; the message holds the cursor. Without a listing nothing is sent.
pub proof fn only_bad_cursors_are_refused(
    list_query: Option<ListQueryConfig>,
    cursor: Option<Seq<char>>,
    r: Result<Option<ListingPlan>, BackendError>,
)
    requires
        is_listing_plan(list_query, cursor, r),
    ensures
        list_query is None ==> r matches Ok(None),
        r is Err <==> list_query is Some && list_query->0.mode == ListQueryMode::Offset && cursor is Some
            && unsigned_of(cursor->0) is None,
        r matches Err(e) ==> e@ == ErrorView::InvalidSpec(bad_cursor_message(cursor->0)),
        crate::text::contains_text(bad_cursor_message(cursor->0), cursor->0),
{
    crate::laws::replies::parts_are_contained(
        "offset-mode cursor '"@,
        cursor->0,
        "' is not a non-negative integer"@,
    );
}

/// A number is read from digits alone, with or without a plus sign before them,
/// and leading zeros do not matter.
pub proof fn offsets_are_read_from_digits(s: Seq<char>)
    ensures
        unsigned_of(s) matches Some(n) ==> 0 <= n <= u64::MAX && (is_number(s) || (s.len() > 0
            && s[0] == '+' && is_number(s.skip(1)))),
        is_number(s) && number_of(s) <= u64::MAX ==> unsigned_of(s) == Some(number_of(s)),
        is_number(s) ==> number_of(seq!['0'] + s) == number_of(s),
        is_number(s) ==> unsigned_of(seq!['+'] + s) == unsigned_of(s),
{
    assert((seq!['+'] + s).skip(1) =~= s);
    if is_number(s) {
        digits_make_no_negative_number(s);
        leading_zero_does_not_matter(s);
        assert('0' <= s[0] <= '9');
    } else if s.len() > 0 && s[0] == '+' && is_number(s.skip(1)) {
        digits_make_no_negative_number(s.skip(1));
    }
}

/// Digits make no negative number.
proof fn digits_make_no_negative_number(s: Seq<char>)
    requires
        forall|i: int| 0 <= i < s.len() ==> '0' <= (#[trigger] s[i]) <= '9',
    ensures
        0 <= number_of(s),
    decreases s.len(),
{
    if s.len() > 0 {
        let shorter = s.drop_last();
        assert forall|i: int| 0 <= i < shorter.len() implies '0' <= (#[trigger] shorter[i])
            <= '9' by {
            assert(s[i] == shorter[i]);
        }
        digits_make_no_negative_number(shorter);
        assert('0' <= s[s.len() - 1] <= '9');
    }
}

/// A zero before digits does not change their number.
proof fn leading_zero_does_not_matter(s: Seq<char>)
    ensures
        number_of(seq!['0'] + s) == number_of(s),
    decreases s.len(),
{
    let all = seq!['0'] + s;
    if s.len() == 0 {
        assert(all.drop_last() =~= Seq::<char>::empty());
        assert(number_of(all.drop_last()) == 0);
    } else {
        assert(all.drop_last() =~= seq!['0'] + s.drop_last());
        leading_zero_does_not_matter(s.drop_last());
    }
}

/// The value of the cursor column in the last row of a page.
pub open spec fn last_cursor(rows: Seq<JsonTree>, column: Seq<char>) -> Option<JsonTree> {
    if rows.len() > 0 {
        field(rows.last(), column)
    } else {
        None
    }
}

/// After a full page of a keyset listing the next page begins behind its last row:
/// where the cursor column holds a string there, that string itself is the cursor
/// and the first bind of the next page; where it holds a number, its digits are.
pub proof fn keyset_pages_go_on_behind_the_last_row(
    cfg: ListQueryConfig,
    prior_offset: int,
    outcome: QueryOutcome,
    page: Result<ResourcePage, BackendError>,
    next: Result<Option<ListingPlan>, BackendError>,
    column: String,
)
    requires
        cfg.mode == ListQueryMode::Keyset,
        1 <= cfg.page_size <= 1_000,
        cfg.cursor_column == Some(column),
        outcome.rows@.len() >= cfg.page_size,
        is_listing_page(cfg, prior_offset, Ok(outcome), page),
        is_listing_plan(Some(cfg), opt_text(page->Ok_0.next_cursor), next),
    ensures
        page is Ok,
        next is Ok,
        next->Ok_0 is Some,
        ({
            let cursor = opt_text(page->Ok_0.next_cursor);
            let first = bound_tree(next->Ok_0->0.binds@[0]);
            let last = last_cursor(trees(outcome.rows@), trimmed(column@));
            &&& last matches Some(JsonTree::Str(s)) ==> cursor == Some(s) && first == JsonTree::Str(s)
            &&& last matches Some(JsonTree::Number(t)) ==> cursor == Some(t) && first
                == JsonTree::Str(t)
            &&& last is None || last == Some(JsonTree::Null) ==> cursor is None
            &&& last matches Some(value) ==> cursor == bare_text(value)
        }),
{
    let rows = trees(outcome.rows@);
    assert(rows.len() == outcome.rows@.len());
    pages_send_the_operators_statement(cfg, opt_text(page->Ok_0.next_cursor), next);
}

/// The first page of a listing has no cursor, and a short page is the last one,
/// however the listing is paged.
pub proof fn short_pages_are_the_last(
    cfg: ListQueryConfig,
    prior_offset: int,
    outcome: QueryOutcome,
    page: Result<ResourcePage, BackendError>,
)
    requires
        is_listing_page(cfg, prior_offset, Ok(outcome), page),
        outcome.rows@.len() < cfg.page_size,
    ensures
        page is Ok,
        page->Ok_0.next_cursor is None,
{
    assert(trees(outcome.rows@).len() == outcome.rows@.len());
}

/// After a full page of a listing by offset the next page begins right behind it,
/// and binds the offset of the prior page and its rows together.
pub proof fn offset_pages_go_on_behind_the_page(
    cfg: ListQueryConfig,
    prior_offset: u64,
    outcome: QueryOutcome,
    page: Result<ResourcePage, BackendError>,
    next: Result<Option<ListingPlan>, BackendError>,
)
    requires
        cfg.mode == ListQueryMode::Offset,
        1 <= cfg.page_size <= 1_000,
        outcome.rows@.len() >= cfg.page_size,
        prior_offset + outcome.rows@.len() <= i64::MAX,
        is_listing_page(cfg, prior_offset as int, Ok(outcome), page),
        is_listing_plan(Some(cfg), opt_text(page->Ok_0.next_cursor), next),
    ensures
        page is Ok,
        page->Ok_0.next_cursor is Some,
        next is Ok,
        next->Ok_0 is Some,
        next->Ok_0->0.prior_offset == prior_offset + outcome.rows@.len(),
        bound_tree(next->Ok_0->0.binds@[1]) == JsonTree::Number(
            decimal(prior_offset + outcome.rows@.len()),
        ),
{
    let rows = trees(outcome.rows@);
    assert(rows.len() == outcome.rows@.len());
    decimal_reads_back((prior_offset + rows.len()) as nat);
    pages_send_the_operators_statement(cfg, opt_text(page->Ok_0.next_cursor), next);
}

/// A listing by offset ends where no further offset can be written.
pub proof fn offsets_do_not_wrap(
    cfg: ListQueryConfig,
    prior_offset: u64,
    outcome: QueryOutcome,
    page: Result<ResourcePage, BackendError>,
)
    requires
        cfg.mode == ListQueryMode::Offset,
        prior_offset + outcome.rows@.len() > u64::MAX,
        is_listing_page(cfg, prior_offset as int, Ok(outcome), page),
    ensures
        page is Ok,
        page->Ok_0.next_cursor is None,
{
    assert(trees(outcome.rows@).len() == outcome.rows@.len());
}

/// A listing that the engine failed to give fails with its message.
pub proof fn failed_listings_say_why(
    cfg: ListQueryConfig,
    prior_offset: int,
    message: String,
    page: Result<ResourcePage, BackendError>,
)
    requires
        is_listing_page(cfg, prior_offset, Err(message), page),
    ensures
        page is Err,
        page->Err_0@ == ErrorView::Transport(message@),
{
}

// -------------------------------------------------------------------- resources

/// The string under a key of a row.
pub open spec fn string_of(row: JsonTree, key: Seq<char>) -> Option<Seq<char>> {
    match field(row, key) {
        Some(JsonTree::Str(s)) => Some(s),
        _ => None,
    }
}

/// A row is listed as a resource exactly where it has a string as its `uri`, with
/// the strings of its other columns.
pub proof fn a_row_is_listed_by_its_uri(row: JsonTree)
    ensures
        string_of(row, "uri"@) is None ==> listed_resources(seq![row]).len() == 0,
        string_of(row, "uri"@) matches Some(uri) ==> {
            let listed = listed_resources(seq![row]);
            &&& listed.len() == 1
            &&& listed[0].uri == uri
            &&& listed[0].name == string_of(row, "name"@)
            &&& listed[0].description == string_of(row, "description"@)
            &&& listed[0].mime_type == string_of(row, "mime_type"@)
        },
{
    assert(seq![row].drop_last() =~= Seq::<JsonTree>::empty());
    assert(listed_resources(Seq::<JsonTree>::empty()) =~= Seq::<ResourceView>::empty());
    assert(seq![row].last() == row);
}

/// Resources are listed row by row: those of two lists of rows are those of the
/// first and, behind them, those of the second.
pub proof fn resources_are_listed_in_order(a: Seq<JsonTree>, b: Seq<JsonTree>)
    ensures
        listed_resources(a + b) == listed_resources(a) + listed_resources(b),
    decreases b.len(),
{
    if b.len() == 0 {
        assert(a + b =~= a);
        assert(listed_resources(a) + listed_resources(b) =~= listed_resources(a));
    } else {
        assert((a + b).drop_last() =~= a + b.drop_last());
        assert((a + b).last() == b.last());
        resources_are_listed_in_order(a, b.drop_last());
        assert(listed_resources(a + b) =~= listed_resources(a) + listed_resources(b));
    }
}

/// The page of a listing holds the resources of the rows that the engine gave.
pub proof fn pages_hold_the_listed_resources(
    cfg: ListQueryConfig,
    prior_offset: int,
    outcome: QueryOutcome,
    page: Result<ResourcePage, BackendError>,
)
    requires
        is_listing_page(cfg, prior_offset, Ok(outcome), page),
    ensures
        page is Ok,
        resource_views(page->Ok_0.resources@) == listed_resources(trees(outcome.rows@)),
        page->Ok_0.resources@.len() <= outcome.rows@.len(),
        forall|i: int|
            0 <= i < page->Ok_0.resources@.len() ==> {
                let shown = #[trigger] page->Ok_0.resources@[i];
                let listed = listed_resources(trees(outcome.rows@))[i];
                &&& shown.uri@ == listed.uri
                &&& opt_text(shown.name) == listed.name
                &&& opt_text(shown.description) == listed.description
                &&& opt_text(shown.mime_type) == listed.mime_type
            },
{
    let shown = page->Ok_0.resources@;
    no_more_resources_than_rows(trees(outcome.rows@));
    assert(resource_views(shown).len() == shown.len());
    assert(trees(outcome.rows@).len() == outcome.rows@.len());
    assert forall|i: int| 0 <= i < shown.len() implies (#[trigger] shown[i])@ == listed_resources(
        trees(outcome.rows@),
    )[i] by {
        assert(resource_views(shown)[i] == shown[i]@);
    }
}

/// A row gives at most one resource.
proof fn no_more_resources_than_rows(rows: Seq<JsonTree>)
    ensures
        listed_resources(rows).len() <= rows.len(),
    decreases rows.len(),
{
    if rows.len() > 0 {
        no_more_resources_than_rows(rows.drop_last());
    }
}

// ------------------------------------------------------------------ completions

/// A completion is run exactly where one is configured for the variable: it sends
/// the operator's statement with what was typed as its one bind, as a string, and
/// keeps as many candidates as configured, or a hundred.
pub proof fn completions_bind_what_was_typed(
    completions: Map<Seq<char>, CompletionConfig>,
    variable: Seq<char>,
    prefix: Seq<char>,
    plan: Option<CompletionPlan>,
)
    requires
        is_completion_plan(completions, variable, prefix, plan),
    ensures
        plan is Some <==> completions.dom().contains(variable),
        plan matches Some(p) ==> {
            &&& p.sql@ == completions[variable].sql@
            &&& p.binds@.len() == 1
            &&& bound_tree(p.binds@[0]) == JsonTree::Str(prefix)
            &&& completions[variable].max_results matches Some(n) ==> p.max == n
            &&& completions[variable].max_results is None ==> p.max == 100
        },
{
    if let Some(p) = plan {
        assert(bind_views(p.binds@).len() == p.binds@.len());
        assert(bind_views(p.binds@)[0] == p.binds@[0]@);
    }
}

/// The texts of a column are taken row by row, in order, without nulls.
pub proof fn candidates_are_taken_in_order(a: Seq<JsonTree>, b: Seq<JsonTree>, column: Seq<char>)
    ensures
        column_texts(a + b, column) == column_texts(a, column) + column_texts(b, column),
    decreases b.len(),
{
    if b.len() == 0 {
        assert(a + b =~= a);
        assert(column_texts(a, column) + column_texts(b, column) =~= column_texts(a, column));
    } else {
        assert((a + b).drop_last() =~= a + b.drop_last());
        assert((a + b).last() == b.last());
        candidates_are_taken_in_order(a, b.drop_last(), column);
        assert(column_texts(a + b, column) =~= column_texts(a, column) + column_texts(b, column));
    }
}

/// One row gives one candidate: a string as it is and a number by its digits; a
/// row with null, or without the column, gives none.
pub proof fn a_row_gives_its_text(row: JsonTree, column: Seq<char>)
    ensures
        field(row, column) is None || field(row, column) == Some(JsonTree::Null) ==> column_texts(
            seq![row],
            column,
        ).len() == 0,
        field(row, column) matches Some(JsonTree::Str(s)) ==> column_texts(seq![row], column)
            == seq![s],
        field(row, column) matches Some(JsonTree::Number(t)) ==> column_texts(seq![row], column)
            == seq![t],
        field(row, column) matches Some(value) ==> (bare_text(value) matches Some(text)
            ==> column_texts(seq![row], column) == seq![text]),
{
    assert(seq![row].drop_last() =~= Seq::<JsonTree>::empty());
    assert(seq![row].last() == row);
    assert(column_texts(Seq::<JsonTree>::empty(), column) =~= Seq::<Seq<char>>::empty());
    if let Some(value) = field(row, column) {
        bare_text_is_the_value(value);
        if let Some(text) = bare_text(value) {
            assert(column_texts(seq![row], column) =~= seq![text]);
        }
    }
}

/// Without a column there are no candidates; with one there are the first of its
/// texts.
pub proof fn candidates_come_from_the_column(
    rows: Seq<JsonTree>,
    column: Option<Seq<char>>,
    max: int,
)
    requires
        0 <= max,
    ensures
        column is None ==> candidates(rows, column, max).len() == 0,
        column matches Some(name) ==> candidates(rows, column, max).is_prefix_of(
            column_texts(rows, name),
        ),
        column matches Some(name) ==> candidates(rows, column, max).len() == (if column_texts(
            rows,
            name,
        ).len() < max {
            column_texts(rows, name).len() as int
        } else {
            max
        }),
{
}

/// A completion gives the first candidates there are, up to its limit, and all of
/// them where they fit; a failure of the engine is told as it is.
pub proof fn completions_give_the_first_candidates(
    result: Result<QueryOutcome, String>,
    max: int,
    r: Result<Vec<String>, BackendError>,
    column: Seq<char>,
)
    requires
        0 <= max,
        is_completion(result, max, r),
        result matches Ok(outcome) ==> first_column_of(trees(outcome.rows@)) == Some(column),
    ensures
        result matches Ok(outcome) ==> {
            let all = column_texts(trees(outcome.rows@), column);
            &&& r is Ok
            &&& all.len() <= max ==> texts(r->Ok_0@) == all
            &&& all.len() > max ==> texts(r->Ok_0@) == all.take(max)
        },
        result matches Err(message) ==> r is Err && r->Err_0@ == ErrorView::Transport(message@),
{
}

// ---------------------------------------------------------------------- watches

/// The first pair of an object keeps its value where no later pair has its key.
proof fn first_pair_is_kept(pairs: Members)
    requires
        pairs.len() > 0,
        forall|j: int| 0 < j < pairs.len() ==> (#[trigger] pairs[j]).0 != pairs[0].0,
    ensures
        object(pairs).len() > 0,
        object(pairs)[0] == pairs[0],
    decreases pairs.len(),
{
    let shorter = pairs.drop_last();
    if shorter.len() > 0 {
        assert forall|j: int| 0 < j < shorter.len() implies (#[trigger] shorter[j]).0
            != shorter[0].0 by {
            assert(pairs[j].0 != pairs[0].0);
        }
        first_pair_is_kept(shorter);
        assert(pairs[pairs.len() - 1].0 != pairs[0].0);
        assert(put(object(shorter), pairs.last().0, pairs.last().1)[0] == object(shorter)[0]);
    } else {
        assert(object(shorter) =~= Members::empty());
    }
}

/// A watch takes the first column of the first row, and nothing else, as its
/// cursor: so its cursor changes exactly where that value does. Without a row, or
/// for null, there is none.
pub proof fn watches_follow_the_first_value(columns: Seq<Seq<char>>, rows: Seq<Row>)
    requires
        columns.len() > 0,
        columns.no_duplicates(),
    ensures
        rows.len() == 0 ==> cursor_of(kept_rows(columns, 1, rows)) is None,
        rows.len() > 0 && rows[0].len() > 0 ==> (rows[0][0] matches Some(cell) ==> cursor_of(
            kept_rows(columns, 1, rows),
        ) == bare_text(cell_tree(cell))),
        rows.len() > 0 && (rows[0].len() == 0 || rows[0][0] is None) ==> cursor_of(
            kept_rows(columns, 1, rows),
        ) is None,
{
    if rows.len() > 0 {
        let pairs = row_pairs(columns, rows[0]);
        assert forall|j: int| 0 < j < pairs.len() implies (#[trigger] pairs[j]).0 != pairs[0].0 by {
            assert(columns[0] != columns[j]);
        }
        first_pair_is_kept(pairs);
        assert(kept_rows(columns, 1, rows)[0] == row_tree(columns, rows[0]));
    }
}

/// What one query of a watch gives: the cursor of its rows, or a message that ends
/// with the engine's error.
pub proof fn ticks_give_the_cursor_or_the_error(
    result: Result<QueryOutcome, String>,
    r: Result<Option<String>, String>,
)
    requires
        is_tick(result, r),
    ensures
        r is Ok <==> result is Ok,
        result matches Ok(outcome) ==> opt_text(r->Ok_0) == cursor_of(trees(outcome.rows@)),
        result matches Err(e) ==> e@.is_suffix_of(r->Err_0@),
{
    if let Err(e) = result {
        let m = r->Err_0@;
        assert(m.subrange(m.len() - e@.len(), m.len() as int) =~= e@);
    }
}

} // verus!
