//! What holds of the texts that everything else is made of: characters, names,
//! expressions and the tokens of a statement.

use vstd::prelude::*;

use crate::laws::binds::run_is_read;
use crate::names::before;
use crate::params::{argument_idents, argument_idents_from, first_from, found_not_before, run_end};
use crate::sql::{
    block_end, escaped_end, line_end, only_the_rest_counts, pair_at, placeholders, quote_end,
};
use crate::text::{contains_text, is_ident_char, is_identifier, is_white_space, occurs_at};

verus! {

// ------------------------------------------------------------------- characters

/// A capital or small letter of ASCII.
pub open spec fn is_letter(c: char) -> bool {
    65 <= c as int <= 90 || 97 <= c as int <= 122
}

/// A digit of ASCII.
pub open spec fn is_figure(c: char) -> bool {
    48 <= c as int <= 57
}

/// An identifier is made of ASCII letters, digits and underscores, is not empty
/// and does not begin with a digit; every such text is one.
pub proof fn identifiers_are_ascii_words(s: Seq<char>)
    ensures
        is_identifier(s) <==> s.len() > 0 && !is_figure(s[0]) && forall|i: int|
            0 <= i < s.len() ==> is_letter(#[trigger] s[i]) || is_figure(s[i]) || s[i] == '_',
{
    if is_identifier(s) {
        assert forall|i: int| 0 <= i < s.len() implies is_letter(#[trigger] s[i]) || is_figure(s[i])
            || s[i] == '_' by {
            assert(is_ident_char(s[i]));
        }
    }
    if s.len() > 0 && !is_figure(s[0]) && (forall|i: int|
        0 <= i < s.len() ==> is_letter(#[trigger] s[i]) || is_figure(s[i]) || s[i] == '_') {
        assert(is_letter(s[0]) || s[0] == '_');
        assert forall|i: int| 0 <= i < s.len() implies is_ident_char(#[trigger] s[i]) by {
            assert(is_letter(s[i]) || is_figure(s[i]) || s[i] == '_');
        }
    }
}

/// The code points of white space.
pub open spec fn white_space_points() -> Set<int> {
    set![
        9, 10, 11, 12, 13, 32, 133, 160, 5760, 8192, 8193, 8194, 8195, 8196, 8197, 8198, 8199, 8200,
        8201, 8202, 8232, 8233, 8239, 8287, 12288,
    ]
}

/// White space is what Unicode calls so, and nothing else.
pub proof fn white_space_is_that_of_unicode(c: char)
    ensures
        is_white_space(c) <==> white_space_points().contains(c as int),
{
}

/// A text is found in another exactly where that is made of something before it,
/// the text itself and something behind it.
pub proof fn found_texts_stand_between(hay: Seq<char>, needle: Seq<char>, a: Seq<char>, b: Seq<char>)
    ensures
        hay == a + needle + b ==> contains_text(hay, needle),
        contains_text(hay, needle) ==> exists|i: int|
            0 <= i && i + needle.len() <= hay.len() && hay == #[trigger] hay.take(i) + needle
                + hay.skip(i + needle.len()),
{
    if hay == a + needle + b {
        assert(hay.subrange(a.len() as int, (a.len() + needle.len()) as int) =~= needle);
        assert(occurs_at(hay, needle, a.len() as int));
    }
    if contains_text(hay, needle) {
        let i = choose|i: int| occurs_at(hay, needle, i);
        assert(hay =~= hay.take(i) + needle + hay.skip(i + needle.len())) by {
            assert forall|k: int| i <= k < i + needle.len() implies hay[k] == needle[k - i] by {
                assert(hay.subrange(i, i + needle.len())[k - i] == hay[k]);
            }
        }
    }
}

/// Names are ordered by their first different character, and a name stands before
/// every longer one that begins with it.
pub proof fn names_are_ordered_by_their_characters(
    head: Seq<char>,
    x: char,
    a: Seq<char>,
    y: char,
    b: Seq<char>,
)
    ensures
        x != y ==> (before(head + seq![x] + a, head + seq![y] + b) <==> x < y),
        before(head, head + seq![x] + a),
        !before(head + seq![x] + a, head),
    decreases head.len(),
{
    let one = head + seq![x] + a;
    let two = head + seq![y] + b;
    if head.len() == 0 {
        assert(one[0] == x && two[0] == y);
    } else {
        let tail = head.drop_first();
        names_are_ordered_by_their_characters(tail, x, a, y, b);
        assert(one.drop_first() =~= tail + seq![x] + a);
        assert(two.drop_first() =~= tail + seq![y] + b);
        assert(one[0] == head[0] && two[0] == head[0]);
    }
}

// ------------------------------------------------------------------ expressions

/// What lies before a place does not matter to what is found behind it.
proof fn rest_is_searched(a: Seq<char>, b: Seq<char>, needle: Seq<char>, i: int)
    requires
        0 <= i,
    ensures
        match first_from(b, needle, i) {
            Some(k) => first_from(a + b, needle, a.len() + i) == Some(a.len() + k),
            None => first_from(a + b, needle, a.len() + i) is None,
        },
    decreases b.len() - i,
{
    let s = a + b;
    if i + needle.len() <= b.len() {
        assert(s.subrange(a.len() + i, a.len() + i + needle.len()) =~= b.subrange(
            i,
            i + needle.len(),
        ));
    }
    assert(occurs_at(s, needle, a.len() + i) == occurs_at(b, needle, i));
    if !occurs_at(b, needle, i) && i < b.len() {
        rest_is_searched(a, b, needle, i + 1);
    }
}

/// What lies before a place does not matter to where a run ends behind it.
proof fn rest_runs(a: Seq<char>, b: Seq<char>, i: int)
    requires
        0 <= i,
    ensures
        run_end(a + b, a.len() + i) == a.len() + run_end(b, i),
    decreases b.len() - i,
{
    if i < b.len() && is_ident_char(b[i]) {
        rest_runs(a, b, i + 1);
    }
}

/// What lies before a place does not matter to the names behind it.
proof fn rest_names(a: Seq<char>, b: Seq<char>, i: int)
    requires
        0 <= i,
    ensures
        argument_idents_from(a + b, a.len() + i) == argument_idents_from(b, i),
    decreases b.len() - i,
{
    let s = a + b;
    let marker = "arguments."@;
    rest_is_searched(a, b, marker, i);
    found_not_before(b, marker, i);
    if let Some(k) = first_from(b, marker, i) {
        let start = k + marker.len();
        let end = run_end(b, start);
        rest_runs(a, b, start);
        if i < end <= b.len() {
            rest_names(a, b, end);
            if start < end {
                assert(s.subrange(a.len() + start, a.len() + end) =~= b.subrange(start, end));
            }
        }
    }
}

/// The first place where a text stands is found.
proof fn first_place_is_found(hay: Seq<char>, needle: Seq<char>, from: int, at: int)
    requires
        from <= at,
        occurs_at(hay, needle, at),
        forall|i: int| from <= i < at ==> !occurs_at(hay, needle, i),
    ensures
        first_from(hay, needle, from) == Some(at),
    decreases at - from,
{
    if from < at {
        first_place_is_found(hay, needle, from + 1, at);
    }
}

/// An expression reads the argument that it names first, and then those that what
/// follows it reads. Together with the next law this says of every expression which
/// arguments it reads.
pub proof fn expressions_are_read_in_order(head: Seq<char>, name: Seq<char>, rest: Seq<char>)
    requires
        name.len() > 0,
        forall|k: int| 0 <= k < name.len() ==> is_ident_char(#[trigger] name[k]),
        rest.len() > 0 ==> !is_ident_char(rest[0]),
        forall|i: int|
            0 <= i < head.len() ==> !occurs_at(
                head + "arguments."@ + name + rest,
                "arguments."@,
                i,
            ),
    ensures
        argument_idents(head + "arguments."@ + name + rest) == seq![name] + argument_idents(rest),
{
    let marker = "arguments."@;
    reveal_strlit("arguments.");
    let source = head + marker + name + rest;
    let at = head.len() as int;
    let start = at + marker.len();
    let end = start + name.len();
    assert(source.subrange(at, start) =~= marker);
    first_place_is_found(source, marker, 0, at);
    let front = head + marker + name;
    assert(source =~= front + rest);
    assert forall|k: int| start <= k < end implies is_ident_char(#[trigger] source[k]) by {
        assert(source[k] == name[k - start]);
    }
    if rest.len() > 0 {
        assert(source[end] == rest[0]);
    }
    run_is_read(source, start, end);
    assert(source.subrange(start, end) =~= name);
    rest_names(front, rest, 0);
}

/// An expression that names no argument reads none.
pub proof fn expressions_without_arguments_read_none(source: Seq<char>)
    requires
        !contains_text(source, "arguments."@),
    ensures
        argument_idents(source).len() == 0,
{
    nothing_is_found(source, "arguments."@, 0);
}

/// A text that does not stand in another is not found in it.
proof fn nothing_is_found(hay: Seq<char>, needle: Seq<char>, from: int)
    requires
        !contains_text(hay, needle),
    ensures
        first_from(hay, needle, from) is None,
    decreases hay.len() - from,
{
    assert(!occurs_at(hay, needle, from));
    if from < hay.len() {
        nothing_is_found(hay, needle, from + 1);
    }
}

// ----------------------------------------------------------------------- tokens

/// A quoted name without the quote in it holds no placeholder, between quotation
/// marks and between backticks alike.
pub proof fn names_hold_no_placeholder(quote: char, name: Seq<char>, rest: Seq<char>)
    requires
        quote == '"' || quote == '`',
        forall|i: int| 0 <= i < name.len() ==> name[i] != quote,
    ensures
        placeholders(seq![quote] + name + seq![quote] + rest) == placeholders(rest),
{
    let front = seq![quote] + name + seq![quote];
    let all = front + rest;
    assert(all[0] == quote);
    quote_is_read(all, 1, quote, (name.len() + 1) as int);
    only_the_rest_counts(front, rest, 0);
}

/// A quote is read to where it first stands.
proof fn quote_is_read(s: Seq<char>, i: int, quote: char, at: int)
    requires
        0 <= i <= at < s.len(),
        s[at] == quote,
        forall|k: int| i <= k < at ==> s[k] != quote,
    ensures
        quote_end(s, i, quote) == at + 1,
    decreases at - i,
{
    if i < at {
        quote_is_read(s, i + 1, quote, at);
    }
}

/// A comment to the end of its line holds no placeholder, whatever stands in it.
pub proof fn line_comments_hold_no_placeholder(text: Seq<char>, end: char, rest: Seq<char>)
    requires
        end == '\n' || end == '\r',
        forall|i: int| 0 <= i < text.len() ==> text[i] != '\n' && text[i] != '\r',
    ensures
        placeholders(seq!['-', '-'] + text + seq![end] + rest) == placeholders(rest),
{
    let front = seq!['-', '-'] + text + seq![end];
    let all = front + rest;
    assert(all[0] == '-' && all[1] == '-');
    line_is_read(all, 2, (text.len() + 2) as int);
    only_the_rest_counts(front, rest, 0);
}

/// A line is read to where it ends.
proof fn line_is_read(s: Seq<char>, i: int, at: int)
    requires
        0 <= i <= at < s.len(),
        s[at] == '\n' || s[at] == '\r',
        forall|k: int| i <= k < at ==> s[k] != '\n' && s[k] != '\r',
    ensures
        line_end(s, i) == at + 1,
    decreases at - i,
{
    if i < at {
        line_is_read(s, i + 1, at);
    }
}

/// A comment between its two marks holds no placeholder, whatever stands in it
/// besides the characters of the marks.
pub proof fn block_comments_hold_no_placeholder(text: Seq<char>, rest: Seq<char>)
    requires
        forall|i: int| 0 <= i < text.len() ==> text[i] != '*' && text[i] != '/',
    ensures
        placeholders(seq!['/', '*'] + text + seq!['*', '/'] + rest) == placeholders(rest),
{
    let front = seq!['/', '*'] + text + seq!['*', '/'];
    let all = front + rest;
    assert(all[0] == '/' && all[1] == '*');
    let at = (text.len() + 2) as int;
    assert(all[at] == '*' && all[at + 1] == '/');
    assert forall|k: int| 2 <= k < at implies all[k] != '*' && all[k] != '/' by {
        assert(all[k] == text[k - 2]);
    }
    block_is_read(all, 2, at);
    only_the_rest_counts(front, rest, 0);
}

/// A comment is read to its closing mark.
proof fn block_is_read(s: Seq<char>, i: int, at: int)
    requires
        0 <= i <= at,
        pair_at(s, at, '*', '/'),
        forall|k: int| i <= k < at ==> s[k] != '*' && s[k] != '/',
    ensures
        block_end(s, i, 1) == at + 2,
    decreases at - i,
{
    if i < at {
        block_is_read(s, i + 1, at);
    }
}

/// A text without an apostrophe or a backslash.
pub open spec fn is_clean(s: Seq<char>) -> bool {
    forall|i: int| 0 <= i < s.len() ==> s[i] != '\'' && s[i] != '\\'
}

/// A literal with escapes holds no placeholder, and a character behind a backslash
/// never ends it.
pub proof fn escaped_literals_hold_no_placeholder(
    letter: char,
    a: Seq<char>,
    escaped: char,
    b: Seq<char>,
    rest: Seq<char>,
)
    requires
        letter == 'E' || letter == 'e',
        is_clean(a),
        is_clean(b),
        rest.len() > 0 ==> rest[0] != '\'',
    ensures
        placeholders(
            seq![letter, '\''] + a + seq!['\\', escaped] + b + seq!['\''] + rest,
        ) == placeholders(rest),
{
    let front = seq![letter, '\''] + a + seq!['\\', escaped] + b + seq!['\''];
    let all = front + rest;
    let mark = (a.len() + 2) as int;
    let at = mark + 2 + b.len();
    assert(all[0] == letter && all[1] == '\'');
    assert(all[mark] == '\\');
    assert(all[at] == '\'');
    if at + 1 < all.len() {
        assert(all[at + 1] == rest[0]);
    }
    assert forall|k: int| 2 <= k < mark implies all[k] != '\'' && all[k] != '\\' by {
        assert(all[k] == a[k - 2]);
    }
    assert forall|k: int| mark + 2 <= k < at implies all[k] != '\'' && all[k] != '\\' by {
        assert(all[k] == b[k - mark - 2]);
    }
    clean_part_is_read(all, 2, mark);
    clean_part_is_read(all, mark + 2, at);
    only_the_rest_counts(front, rest, 0);
}

/// A clean part of a literal is read on to what stands behind it.
proof fn clean_part_is_read(s: Seq<char>, i: int, at: int)
    requires
        0 <= i <= at < s.len(),
        forall|k: int| i <= k < at ==> s[k] != '\'' && s[k] != '\\',
    ensures
        escaped_end(s, i) == escaped_end(s, at),
    decreases at - i,
{
    if i < at {
        clean_part_is_read(s, i + 1, at);
    }
}

} // verus!
