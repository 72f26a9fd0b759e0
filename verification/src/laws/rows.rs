//! What holds of the rows that the engine gives: every cell keeps its value, every
//! column its name and place, and every row up to the cap is there.

use vstd::prelude::*;
use vstd::utf8::{decode_utf8_encode_utf8, encode_utf8, valid_utf8};

use crate::duckdb::{
    base64_char, base64_text, cell_tree, kept_rows, row_pairs, row_tree, DuckCell, QueryOutcome,
    Row, TimeUnit,
};
use crate::json::{has_key, number_text, object, put, rendered, trees, JsonTree, Members};
use crate::surface::{bare_text, first_column_of, first_key};
use crate::text::{decimal, decimal_reads_back, digits, is_number, number_of};

verus! {

// --------------------------------------------------------------------- integers

/// The integer that a text stands for: decimal digits, with or without a minus
/// sign before them.
pub open spec fn signed_of(s: Seq<char>) -> Option<int> {
    if s.len() > 0 && s[0] == '-' {
        if is_number(s.skip(1)) {
            Some(-number_of(s.skip(1)))
        } else {
            None
        }
    } else if is_number(s) {
        Some(number_of(s))
    } else {
        None
    }
}

/// The text of an integer reads back as that integer.
pub proof fn decimal_reads_back_signed(n: int)
    ensures
        signed_of(decimal(n)) == Some(n),
{
    if n < 0 {
        decimal_reads_back((-n) as nat);
        assert(decimal(n).skip(1) =~= digits((-n) as nat));
    } else {
        decimal_reads_back(n as nat);
        assert('0' <= decimal(n)[0] <= '9');
    }
}

/// Different integers have different texts.
pub proof fn decimal_is_injective(a: int, b: int)
    requires
        decimal(a) == decimal(b),
    ensures
        a == b,
{
    decimal_reads_back_signed(a);
    decimal_reads_back_signed(b);
}

/// The integer that an integer cell holds, whatever its width and sign.
pub open spec fn integer_of(cell: DuckCell) -> Option<int> {
    match cell {
        DuckCell::TinyInt(i) => Some(i as int),
        DuckCell::SmallInt(i) => Some(i as int),
        DuckCell::Int(i) => Some(i as int),
        DuckCell::BigInt(i) => Some(i as int),
        DuckCell::UTinyInt(i) => Some(i as int),
        DuckCell::USmallInt(i) => Some(i as int),
        DuckCell::UInt(i) => Some(i as int),
        DuckCell::UBigInt(i) => Some(i as int),
        DuckCell::HugeInt(i) => Some(i as int),
        _ => None,
    }
}

/// The digits that a number or a string holds.
pub open spec fn held_text(tree: JsonTree) -> Option<Seq<char>> {
    match tree {
        JsonTree::Number(text) => Some(text),
        JsonTree::Str(text) => Some(text),
        _ => None,
    }
}

/// Every integer cell becomes JSON that reads back as exactly its integer: a
/// number where 64 bits hold it, and a string where they do not.
pub proof fn integer_cells_read_back(cell: DuckCell)
    requires
        integer_of(cell) is Some,
    ensures
        held_text(cell_tree(cell)) is Some,
        signed_of(held_text(cell_tree(cell))->0) == integer_of(cell),
        cell_tree(cell) is Number <==> i64::MIN <= integer_of(cell)->0 <= i64::MAX,
{
    decimal_reads_back_signed(integer_of(cell)->0);
}

/// Integer cells become the same JSON exactly where they hold the same integer,
/// whatever their types are.
pub proof fn equal_integers_become_equal(a: DuckCell, b: DuckCell)
    requires
        integer_of(a) is Some,
        integer_of(b) is Some,
    ensures
        cell_tree(a) == cell_tree(b) <==> integer_of(a) == integer_of(b),
{
    integer_cells_read_back(a);
    integer_cells_read_back(b);
}

// ------------------------------------------------------------------ other cells

/// A cell becomes null exactly where it is null or a floating-point value that is
/// not finite, and a truth value exactly where it is one.
pub proof fn nulls_and_truth_values_stay(cell: DuckCell)
    ensures
        cell_tree(cell) is Null <==> cell is Null || cell == DuckCell::Real(None),
        cell_tree(cell) is Bool <==> cell is Boolean,
        cell matches DuckCell::Boolean(b) ==> cell_tree(cell) == JsonTree::Bool(b),
        !(cell_tree(cell) is Array),
        !(cell_tree(cell) is Object),
{
}

/// A finite floating-point value keeps its notation as a number; a decimal, and a
/// value of another type, keep theirs as strings.
pub proof fn notations_are_kept(cell: DuckCell)
    ensures
        cell matches DuckCell::Real(Some(n)) ==> cell_tree(cell) == JsonTree::Number(number_text(n)),
        cell matches DuckCell::Decimal(text) ==> cell_tree(cell) == JsonTree::Str(text@),
        cell matches DuckCell::Other(text) ==> cell_tree(cell) == JsonTree::Str(text@),
{
}

/// A text cell becomes a string whose UTF-8 is what the cell holds, where it holds
/// UTF-8.
pub proof fn texts_are_kept(cell: DuckCell, bytes: Seq<u8>)
    requires
        cell matches DuckCell::Text(held) && held@ == bytes,
    ensures
        cell_tree(cell) is Str,
        valid_utf8(bytes) ==> encode_utf8(cell_tree(cell)->Str_0) == bytes,
{
    if valid_utf8(bytes) {
        decode_utf8_encode_utf8(bytes);
    }
}

/// The six bits that a character of the base64 alphabet stands for.
pub open spec fn sextet(c: char) -> int {
    if 'A' <= c <= 'Z' {
        c as int - 'A' as int
    } else if 'a' <= c <= 'z' {
        c as int - 'a' as int + 26
    } else if '0' <= c <= '9' {
        c as int - '0' as int + 52
    } else if c == '+' {
        62
    } else {
        63
    }
}

/// The bytes that a base64 text stands for.
pub open spec fn base64_bytes(text: Seq<char>) -> Seq<u8>
    decreases text.len(),
{
    if text.len() < 4 {
        Seq::empty()
    } else {
        let first = (sextet(text[0]) * 4 + sextet(text[1]) / 16) as u8;
        let second = ((sextet(text[1]) % 16) * 16 + sextet(text[2]) / 4) as u8;
        let third = ((sextet(text[2]) % 4) * 64 + sextet(text[3])) as u8;
        if text[2] == '=' {
            seq![first]
        } else if text[3] == '=' {
            seq![first, second]
        } else {
            seq![first, second, third] + base64_bytes(text.skip(4))
        }
    }
}

/// Each of the 64 characters stands for its number, and none is the padding.
proof fn sextet_reads_back(n: int)
    requires
        0 <= n < 64,
    ensures
        sextet(base64_char(n)) == n,
        base64_char(n) != '=',
{
}

/// Bytes written in base64 read back as themselves.
pub proof fn base64_reads_back(bytes: Seq<u8>)
    ensures
        base64_bytes(base64_text(bytes)) == bytes,
    decreases bytes.len(),
{
    let text = base64_text(bytes);
    if bytes.len() > 0 {
        let a = bytes[0] as int;
        let b = if bytes.len() > 1 { bytes[1] as int } else { 0 };
        let c = if bytes.len() > 2 { bytes[2] as int } else { 0 };
        sextet_reads_back(a / 4);
        sextet_reads_back((a % 4) * 16 + b / 16);
        sextet_reads_back((b % 16) * 4 + c / 64);
        sextet_reads_back(c % 64);
        let one = a / 4;
        let two = (a % 4) * 16 + b / 16;
        let three = (b % 16) * 4 + c / 64;
        let four = c % 64;
        assert(one * 4 + two / 16 == a && (two % 16) * 16 + three / 4 == b && (three % 4) * 64 + four
            == c);
        assert(text.len() >= 4 && text[0] == base64_char(one) && text[1] == base64_char(two));
        assert(bytes.len() > 1 ==> text[2] == base64_char(three));
        assert(bytes.len() > 2 ==> text[3] == base64_char(four));
        let tail = bytes.skip(if bytes.len() > 3 { 3 } else { bytes.len() as int });
        base64_reads_back(tail);
        assert(text.skip(4) =~= base64_text(tail));
        if bytes.len() == 1 {
            assert(base64_bytes(text) =~= bytes);
        } else if bytes.len() == 2 {
            assert(base64_bytes(text) =~= bytes);
        } else {
            assert(bytes =~= seq![a as u8, b as u8, c as u8] + tail);
            assert(base64_bytes(text) =~= bytes);
        }
    } else {
        assert(base64_bytes(text) =~= bytes);
    }
}

/// A blob becomes a string in base64 that reads back as its bytes.
pub proof fn blobs_are_kept(cell: DuckCell, bytes: Seq<u8>)
    requires
        cell matches DuckCell::Blob(held) && held@ == bytes,
    ensures
        cell_tree(cell) is Str,
        base64_bytes(cell_tree(cell)->Str_0) == bytes,
{
    base64_reads_back(bytes);
}

/// The place of the first space in a text.
pub open spec fn first_space(s: Seq<char>) -> int
    decreases s.len(),
{
    if s.len() == 0 || s[0] == ' ' {
        0
    } else {
        1 + first_space(s.skip(1))
    }
}

/// The first space of a text stands behind a head that has none.
proof fn space_is_found(head: Seq<char>, tail: Seq<char>)
    requires
        forall|i: int| 0 <= i < head.len() ==> head[i] != ' ',
        tail.len() > 0 && tail[0] == ' ',
    ensures
        first_space(head + tail) == head.len(),
    decreases head.len(),
{
    let all = head + tail;
    if head.len() > 0 {
        assert(all[0] == head[0]);
        assert(all.skip(1) =~= head.skip(1) + tail);
        space_is_found(head.skip(1), tail);
    }
}

/// The text of an integer holds digits and a minus sign alone.
proof fn decimal_has_no_space(n: int)
    ensures
        forall|i: int| 0 <= i < decimal(n).len() ==> decimal(n)[i] != ' ',
{
    if n < 0 {
        decimal_reads_back((-n) as nat);
        assert forall|i: int| 0 <= i < decimal(n).len() implies decimal(n)[i] != ' ' by {
            if i > 0 {
                assert('0' <= digits((-n) as nat)[i - 1] <= '9');
            }
        }
    } else {
        decimal_reads_back(n as nat);
        assert forall|i: int| 0 <= i < decimal(n).len() implies decimal(n)[i] != ' ' by {
            assert('0' <= digits(n as nat)[i] <= '9');
        }
    }
}

/// The number and the unit of a point in time are read back from its text: the
/// number stands before the first space, and the name of the unit behind it.
pub proof fn points_in_time_are_kept(cell: DuckCell, unit: TimeUnit, n: int)
    requires
        (cell matches DuckCell::Timestamp(u, i) && u == unit && i == n) || (
        cell matches DuckCell::Time64(u, i) && u == unit && i == n),
    ensures
        cell_tree(cell) is Str,
        ({
            let text = cell_tree(cell)->Str_0;
            let at = first_space(text);
            &&& 0 <= at < text.len()
            &&& signed_of(text.take(at)) == Some(n)
            &&& text.skip(at + 1) == unit.word()
        }),
{
    reveal_strlit(" ");
    let head = decimal(n);
    let tail = " "@ + unit.word();
    let text = cell_tree(cell)->Str_0;
    assert(text =~= head + tail);
    decimal_has_no_space(n);
    space_is_found(head, tail);
    assert(text.take(head.len() as int) =~= head);
    assert(text.skip((head.len() + 1) as int) =~= unit.word());
    decimal_reads_back_signed(n);
}

/// The units of time have different names.
pub proof fn units_have_names_of_their_own(a: TimeUnit, b: TimeUnit)
    requires
        a.word() == b.word(),
    ensures
        a == b,
{
    reveal_strlit("Second");
    assert("Second"@.len() == 6);
    reveal_strlit("Millisecond");
    assert("Millisecond"@.len() == 11);
    reveal_strlit("Microsecond");
    assert("Microsecond"@.len() == 11);
    reveal_strlit("Nanosecond");
    assert("Nanosecond"@.len() == 10);
    assert("Millisecond"@[2] == 'l' && "Microsecond"@[2] == 'c');
}

/// A date becomes a string that reads back as its number of days.
pub proof fn dates_are_kept(cell: DuckCell, days: int)
    requires
        cell matches DuckCell::Date32(d) && d == days,
    ensures
        cell_tree(cell) is Str,
        signed_of(cell_tree(cell)->Str_0) == Some(days),
{
    decimal_reads_back_signed(days);
}

/// The parts of an interval are read back from its text: months, days and
/// nanoseconds, each before its unit, with a space between two.
pub proof fn intervals_are_kept(cell: DuckCell, months: int, days: int, nanos: int)
    requires
        cell matches DuckCell::Interval { months: m, days: d, nanos: n } && m == months && d == days
            && n == nanos,
    ensures
        cell_tree(cell) is Str,
        ({
            let text = cell_tree(cell)->Str_0;
            let first = first_space(text);
            let rest = text.skip(first + 1);
            let second = first_space(rest);
            let last = rest.skip(second + 1);
            &&& signed_of(text.take(first - 2)) == Some(months)
            &&& text.subrange(first - 2, first) == "mo"@
            &&& signed_of(rest.take(second - 1)) == Some(days)
            &&& rest.subrange(second - 1, second) == "d"@
            &&& signed_of(last.take(last.len() - 2)) == Some(nanos)
            &&& last.skip(last.len() - 2) == "ns"@
        }),
{
    reveal_strlit("mo ");
    reveal_strlit("mo");
    reveal_strlit("d ");
    reveal_strlit("d");
    reveal_strlit("ns");
    let text = cell_tree(cell)->Str_0;
    let last = decimal(nanos) + "ns"@;
    let rest = decimal(days) + "d"@ + seq![' '] + last;
    let a = decimal(months) + "mo"@;
    let b = decimal(days) + "d"@;
    assert(text =~= a + (seq![' '] + rest));
    decimal_has_no_space(months);
    space_is_found(a, seq![' '] + rest);
    assert(text.skip((a.len() + 1) as int) =~= rest);
    decimal_has_no_space(days);
    assert(rest =~= b + (seq![' '] + last));
    space_is_found(b, seq![' '] + last);
    assert(rest.skip((b.len() + 1) as int) =~= last);
    decimal_reads_back_signed(months);
    decimal_reads_back_signed(days);
    decimal_reads_back_signed(nanos);
    assert(text.take(a.len() - 2) =~= decimal(months));
    assert(text.subrange(a.len() - 2, a.len() as int) =~= "mo"@);
    assert(rest.take(b.len() - 1) =~= decimal(days));
    assert(rest.subrange(b.len() - 1, b.len() as int) =~= "d"@);
    assert(last.take(last.len() - 2) =~= decimal(nanos));
    assert(last.skip(last.len() - 2) =~= "ns"@);
}

// ------------------------------------------------------------------------- rows

/// An object of pairs with different keys holds these pairs, in order.
proof fn distinct_pairs_stay(pairs: Members)
    requires
        forall|i: int, j: int| 0 <= i < j < pairs.len() ==> (#[trigger] pairs[i]).0 != (
        #[trigger] pairs[j]).0,
    ensures
        object(pairs) == pairs,
    decreases pairs.len(),
{
    if pairs.len() > 0 {
        let shorter = pairs.drop_last();
        assert forall|i: int, j: int| 0 <= i < j < shorter.len() implies (#[trigger] shorter[i]).0
            != (#[trigger] shorter[j]).0 by {
            assert(pairs[i].0 != pairs[j].0);
        }
        distinct_pairs_stay(shorter);
        assert(!has_key(shorter, pairs.last().0)) by {
            assert forall|i: int| 0 <= i < shorter.len() implies (#[trigger] shorter[i]).0
                != pairs.last().0 by {
                assert(pairs[i].0 != pairs[pairs.len() - 1].0);
            }
        }
        assert(object(pairs) =~= pairs);
    } else {
        assert(object(pairs) =~= pairs);
    }
}

/// A row of different columns is an object with exactly these columns, in their
/// order, each with the value of its cell; a cell that is missing or could not be
/// read is null.
pub proof fn rows_keep_their_columns_in_order(columns: Seq<Seq<char>>, cells: Row)
    requires
        columns.no_duplicates(),
    ensures
        row_tree(columns, cells) is Object,
        ({
            let members = row_tree(columns, cells)->Object_0;
            &&& members.len() == columns.len()
            &&& forall|i: int|
                0 <= i < members.len() ==> (#[trigger] members[i]).0 == columns[i]
            &&& forall|i: int|
                0 <= i < members.len() && i < cells.len() ==> (cells[i] matches Some(cell)
                    ==> (#[trigger] members[i]).1 == cell_tree(cell))
            &&& forall|i: int|
                0 <= i < members.len() && (i >= cells.len() || cells[i] is None) ==> (
                #[trigger] members[i]).1 is Null
        }),
{
    let pairs = row_pairs(columns, cells);
    assert forall|i: int, j: int| 0 <= i < j < pairs.len() implies (#[trigger] pairs[i]).0 != (
    #[trigger] pairs[j]).0 by {
        assert(columns[i] != columns[j]);
    }
    distinct_pairs_stay(pairs);
}

/// The first key of an object is the first key that it was given.
proof fn first_pair_comes_first(pairs: Members)
    requires
        pairs.len() > 0,
    ensures
        object(pairs).len() > 0,
        object(pairs)[0].0 == pairs[0].0,
    decreases pairs.len(),
{
    let shorter = pairs.drop_last();
    if shorter.len() > 0 {
        first_pair_comes_first(shorter);
        assert(put(object(shorter), pairs.last().0, pairs.last().1)[0].0 == object(shorter)[0].0);
    } else {
        assert(object(shorter) =~= Members::empty());
    }
}

/// The first column of rows is the one that was selected first.
pub proof fn first_column_is_selected_first(columns: Seq<Seq<char>>, rows: Seq<Row>)
    requires
        columns.len() > 0,
        rows.len() > 0,
    ensures
        first_key(row_tree(columns, rows[0])) == Some(columns[0]),
        first_column_of(kept_rows(columns, rows.len() as int, rows)) == Some(columns[0]),
{
    first_pair_comes_first(row_pairs(columns, rows[0]));
    assert(kept_rows(columns, rows.len() as int, rows)[0] == row_tree(columns, rows[0]));
}

/// The first column of an object is its first member; of anything else there is
/// none.
pub proof fn first_column_is_the_first_member(row: JsonTree)
    ensures
        row matches JsonTree::Object(members) ==> (members.len() > 0 ==> first_key(row) == Some(
            members[0].0,
        )),
        row matches JsonTree::Object(members) ==> (members.len() == 0 ==> first_key(row) is None),
        !(row is Object) ==> first_key(row) is None,
{
}

/// Rows are kept from the first on, without a gap, until the cap is reached: all
/// of them where they fit, and as many as the cap where they do not.
pub proof fn rows_are_kept_up_to_the_cap(
    outcome: QueryOutcome,
    columns: Seq<Seq<char>>,
    max_rows: int,
    all: Seq<Row>,
)
    requires
        0 <= max_rows,
        outcome.is_of(columns, max_rows, all),
    ensures
        all.len() <= max_rows ==> outcome.rows@.len() == all.len() && !outcome.truncated,
        all.len() > max_rows ==> outcome.rows@.len() == max_rows && outcome.truncated,
        outcome.row_count == all.len(),
        forall|i: int|
            0 <= i < outcome.rows@.len() ==> (#[trigger] outcome.rows@[i]).tree() == row_tree(
                columns,
                all[i],
            ),
{
    assert(trees(outcome.rows@).len() == outcome.rows@.len());
    assert forall|i: int| 0 <= i < outcome.rows@.len() implies (#[trigger] outcome.rows@[i]).tree()
        == row_tree(columns, all[i]) by {
        assert(trees(outcome.rows@)[i] == kept_rows(columns, max_rows, all)[i]);
    }
}

// ------------------------------------------------------------------------- text

/// The bare text of a string is the string itself, that of a number its digits,
/// and that of a truth value its word; null alone has none.
pub proof fn bare_text_is_the_value(tree: JsonTree)
    ensures
        bare_text(tree) is None <==> tree is Null,
        tree matches JsonTree::Str(s) ==> bare_text(tree) == Some(s),
        tree matches JsonTree::Number(t) ==> bare_text(tree) == Some(t),
        tree == JsonTree::Bool(true) ==> bare_text(tree) == Some("true"@),
        tree == JsonTree::Bool(false) ==> bare_text(tree) == Some("false"@),
        tree is Array || tree is Object ==> bare_text(tree) == Some(rendered(tree)),
{
}

/// The bare text of an integer cell reads back as its integer.
pub proof fn bare_integers_read_back(cell: DuckCell)
    requires
        integer_of(cell) is Some,
    ensures
        bare_text(cell_tree(cell)) is Some,
        signed_of(bare_text(cell_tree(cell))->0) == integer_of(cell),
{
    integer_cells_read_back(cell);
}

} // verus!
