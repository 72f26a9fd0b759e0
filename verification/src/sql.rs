//! The placeholders of a statement: each `?` that is a token of its own. A `?` in
//! a string literal, a quoted name or a comment is none. The tokens are those
//! that the engine reads.

use vstd::prelude::*;

use crate::text::{apostrophes_doubled, chars_of, count_of};

verus! {

// ------------------------------------------------------------------ characters

/// A space between tokens.
pub open spec fn is_gap(c: char) -> bool {
    ||| '\t' <= c <= '\r'
    ||| c == ' '
    ||| c == '\u{a0}'
    ||| '\u{2000}' <= c <= '\u{200b}'
    ||| c == '\u{202f}'
    ||| c == '\u{205f}'
    ||| c == '\u{2060}'
    ||| c == '\u{3000}'
    ||| c == '\u{feff}'
}

/// An ASCII mark: printable, and no letter, digit, underscore or space.
pub open spec fn is_mark(c: char) -> bool {
    ||| '!' <= c <= '/'
    ||| ':' <= c <= '@'
    ||| '[' <= c <= '`' && c != '_'
    ||| '{' <= c <= '~'
}

pub open spec fn is_digit(c: char) -> bool {
    '0' <= c <= '9'
}

/// A character of a number, wherever in it.
pub open spec fn is_numeral(c: char) -> bool {
    is_digit(c) || c == '.'
}

/// The sign of an exponent.
pub open spec fn is_exponent(c: char) -> bool {
    c == 'e' || c == 'E'
}

/// A character of an unquoted word.
pub open spec fn is_word_char(c: char) -> bool {
    !is_gap(c) && !is_mark(c)
}

/// A character of the tag of a dollar-quoted literal.
pub open spec fn is_tag_char(c: char) -> bool {
    is_digit(c) || 'A' <= c <= 'Z' || 'a' <= c <= 'z' || c == '_' || c >= '\u{80}'
}

fn gap(c: char) -> (r: bool)
    ensures
        r == is_gap(c),
{
    ('\t' <= c && c <= '\r') || c == ' ' || c == '\u{a0}' || ('\u{2000}' <= c && c <= '\u{200b}')
        || c == '\u{202f}' || c == '\u{205f}' || c == '\u{2060}' || c == '\u{3000}' || c
        == '\u{feff}'
}

fn mark(c: char) -> (r: bool)
    ensures
        r == is_mark(c),
{
    ('!' <= c && c <= '/') || (':' <= c && c <= '@') || ('[' <= c && c <= '`' && c != '_') || ('{'
        <= c && c <= '~')
}

fn digit(c: char) -> (r: bool)
    ensures
        r == is_digit(c),
{
    '0' <= c && c <= '9'
}

fn numeral(c: char) -> (r: bool)
    ensures
        r == is_numeral(c),
{
    digit(c) || c == '.'
}

fn exponent(c: char) -> (r: bool)
    ensures
        r == is_exponent(c),
{
    c == 'e' || c == 'E'
}

fn word_char(c: char) -> (r: bool)
    ensures
        r == is_word_char(c),
{
    !gap(c) && !mark(c)
}

fn tag_char(c: char) -> (r: bool)
    ensures
        r == is_tag_char(c),
{
    digit(c) || ('A' <= c && c <= 'Z') || ('a' <= c && c <= 'z') || c == '_' || c >= '\u{80}'
}

// ---------------------------------------------------------------------- tokens

/// `a` and `b` stand in `s` at `i`, one behind the other.
pub open spec fn pair_at(s: Seq<char>, i: int, a: char, b: char) -> bool {
    0 <= i && i + 1 < s.len() && s[i] == a && s[i + 1] == b
}

/// The place behind the first `quote` from `i` on; the end of `s` where there is
/// none. A doubled quote within a literal or a name ends it here, and begins the
/// next one at once.
pub open spec fn quote_end(s: Seq<char>, i: int, quote: char) -> int
    decreases s.len() - i,
{
    if i >= s.len() {
        s.len() as int
    } else if s[i] == quote {
        i + 1
    } else {
        quote_end(s, i + 1, quote)
    }
}

/// The end of a literal with escapes, read from `i` on: a backslash takes the
/// next character with it, and a doubled apostrophe does not end the literal.
pub open spec fn escaped_end(s: Seq<char>, i: int) -> int
    decreases s.len() - i,
{
    if i >= s.len() {
        s.len() as int
    } else if i + 1 < s.len() && (s[i] == '\\' || pair_at(s, i, '\'', '\'')) {
        escaped_end(s, i + 2)
    } else if s[i] == '\'' {
        i + 1
    } else {
        escaped_end(s, i + 1)
    }
}

/// The end of a comment that ends with its line, read from `i` on.
pub open spec fn line_end(s: Seq<char>, i: int) -> int
    decreases s.len() - i,
{
    if i >= s.len() {
        s.len() as int
    } else if s[i] == '\n' || s[i] == '\r' {
        i + 1
    } else {
        line_end(s, i + 1)
    }
}

/// The end of block comments nested `depth` deep, read from `i` on.
pub open spec fn block_end(s: Seq<char>, i: int, depth: nat) -> int
    decreases s.len() - i,
{
    if i >= s.len() {
        s.len() as int
    } else if pair_at(s, i, '/', '*') {
        block_end(s, i + 2, depth + 1)
    } else if pair_at(s, i, '*', '/') {
        if depth <= 1 {
            i + 2
        } else {
            block_end(s, i + 2, (depth - 1) as nat)
        }
    } else {
        block_end(s, i + 1, depth)
    }
}

/// The place of the dollar sign that ends the tag which is read from `i` on; none
/// where something else ends it.
pub open spec fn tag_end(s: Seq<char>, i: int) -> Option<int>
    decreases s.len() - i,
{
    if i >= s.len() {
        None
    } else if s[i] == '$' {
        Some(i)
    } else if is_tag_char(s[i]) {
        tag_end(s, i + 1)
    } else {
        None
    }
}

/// At `i` a dollar-quoted literal begins, with a tag that may be empty and does
/// not begin with a digit.
pub open spec fn opens_dollar(s: Seq<char>, i: int) -> bool {
    &&& 0 <= i
    &&& i + 1 < s.len()
    &&& s[i] == '$'
    &&& !is_digit(s[i + 1])
    &&& tag_end(s, i + 1) is Some
}

/// `marker` stands in `s` at `i`.
pub open spec fn marker_at(s: Seq<char>, i: int, marker: Seq<char>) -> bool {
    0 <= i && i + marker.len() <= s.len() && s.subrange(i, i + marker.len()) == marker
}

/// The place behind the first `marker` from `i` on; the end of `s` where there is
/// none.
pub open spec fn marker_end(s: Seq<char>, i: int, marker: Seq<char>) -> int
    decreases s.len() - i,
{
    if i >= s.len() {
        s.len() as int
    } else if marker_at(s, i, marker) {
        i + marker.len()
    } else {
        marker_end(s, i + 1, marker)
    }
}

/// The end of the dollar-quoted literal that begins at `i`.
pub open spec fn dollar_end(s: Seq<char>, i: int) -> int {
    match tag_end(s, i + 1) {
        Some(t) => marker_end(s, t + 1, s.subrange(i, t + 1)),
        None => i + 1,
    }
}

/// The character at `i` may go on with the number that begins at `start`, though
/// no number ends with it: an underscore between digits, the sign of an exponent
/// or the sign of its value.
pub open spec fn goes_on(s: Seq<char>, start: int, i: int) -> bool {
    ||| s[i] == '_' && is_digit(s[i - 1]) && i + 1 < s.len() && is_digit(s[i + 1])
    ||| is_exponent(s[i]) && !is_exponent(s[i - 1]) && (is_digit(s[start]) || is_digit(s[i - 1]))
    ||| (s[i] == '+' || s[i] == '-') && is_exponent(s[i - 1])
}

/// The end of the number that begins at `start`, read from `i` on, where `end`
/// is its end as far as it was read.
pub open spec fn number_end(s: Seq<char>, start: int, i: int, end: int) -> int
    decreases s.len() - i,
{
    if i >= s.len() {
        end
    } else if is_numeral(s[i]) {
        number_end(s, start, i + 1, i + 1)
    } else if goes_on(s, start, i) {
        number_end(s, start, i + 1, end)
    } else {
        end
    }
}

/// The end of an unquoted word, read from `i` on. A dollar sign may stand in a
/// word, behind its first character.
pub open spec fn word_end(s: Seq<char>, i: int) -> int
    decreases s.len() - i,
{
    if i >= s.len() {
        s.len() as int
    } else if is_word_char(s[i]) || s[i] == '$' {
        word_end(s, i + 1)
    } else {
        i
    }
}

/// The end of the token that begins at `i`. A space or a mark stands for itself.
pub open spec fn token_end(s: Seq<char>, i: int) -> int {
    if s[i] == '\'' || s[i] == '"' || s[i] == '`' {
        quote_end(s, i + 1, s[i])
    } else if pair_at(s, i, 'E', '\'') || pair_at(s, i, 'e', '\'') {
        escaped_end(s, i + 2)
    } else if opens_dollar(s, i) {
        dollar_end(s, i)
    } else if pair_at(s, i, '-', '-') {
        line_end(s, i + 2)
    } else if pair_at(s, i, '/', '*') {
        block_end(s, i + 2, 1)
    } else if is_numeral(s[i]) {
        number_end(s, i, i + 1, i + 1)
    } else if is_word_char(s[i]) {
        word_end(s, i + 1)
    } else {
        i + 1
    }
}

/// The number of placeholders of `s` from `i` on, where a token begins.
pub open spec fn placeholders_from(s: Seq<char>, i: int) -> nat
    decreases s.len() - i,
{
    if i < 0 || i >= s.len() {
        0
    } else {
        proof {
            token_advances(s, i);
        }
        let rest = placeholders_from(s, token_end(s, i));
        if s[i] == '?' {
            1 + rest
        } else {
            rest
        }
    }
}

/// The number of placeholders of a statement.
pub open spec fn placeholders(s: Seq<char>) -> nat {
    placeholders_from(s, 0)
}

// ------------------------------------------------------------- where tokens end

proof fn quote_bounds(s: Seq<char>, i: int, quote: char)
    requires
        i <= s.len(),
    ensures
        i <= quote_end(s, i, quote) <= s.len(),
    decreases s.len() - i,
{
    if i < s.len() {
        quote_bounds(s, i + 1, quote);
    }
}

proof fn escaped_bounds(s: Seq<char>, i: int)
    requires
        i <= s.len(),
    ensures
        i <= escaped_end(s, i) <= s.len(),
    decreases s.len() - i,
{
    if i < s.len() {
        escaped_bounds(s, i + 1);
        if i + 1 < s.len() {
            escaped_bounds(s, i + 2);
        }
    }
}

proof fn line_bounds(s: Seq<char>, i: int)
    requires
        i <= s.len(),
    ensures
        i <= line_end(s, i) <= s.len(),
    decreases s.len() - i,
{
    if i < s.len() {
        line_bounds(s, i + 1);
    }
}

proof fn block_bounds(s: Seq<char>, i: int, depth: nat)
    requires
        i <= s.len(),
    ensures
        i <= block_end(s, i, depth) <= s.len(),
    decreases s.len() - i,
{
    if i < s.len() {
        block_bounds(s, i + 1, depth);
        if i + 2 <= s.len() {
            block_bounds(s, i + 2, depth + 1);
            if depth > 1 {
                block_bounds(s, i + 2, (depth - 1) as nat);
            }
        }
    }
}

proof fn tag_bounds(s: Seq<char>, i: int)
    ensures
        tag_end(s, i) matches Some(t) ==> i <= t < s.len() && s[t] == '$',
    decreases s.len() - i,
{
    if i < s.len() {
        tag_bounds(s, i + 1);
    }
}

proof fn marker_bounds(s: Seq<char>, i: int, marker: Seq<char>)
    requires
        i <= s.len(),
    ensures
        i <= marker_end(s, i, marker) <= s.len(),
    decreases s.len() - i,
{
    if i < s.len() {
        marker_bounds(s, i + 1, marker);
    }
}

proof fn number_bounds(s: Seq<char>, start: int, i: int, end: int)
    requires
        end <= i <= s.len(),
    ensures
        end <= number_end(s, start, i, end) <= s.len(),
    decreases s.len() - i,
{
    if i < s.len() {
        number_bounds(s, start, i + 1, i + 1);
        number_bounds(s, start, i + 1, end);
    }
}

proof fn word_bounds(s: Seq<char>, i: int)
    requires
        i <= s.len(),
    ensures
        i <= word_end(s, i) <= s.len(),
    decreases s.len() - i,
{
    if i < s.len() {
        word_bounds(s, i + 1);
    }
}

/// A token holds at least one character, and ends within the statement.
pub proof fn token_advances(s: Seq<char>, i: int)
    requires
        0 <= i < s.len(),
    ensures
        i < token_end(s, i) <= s.len(),
{
    quote_bounds(s, i + 1, s[i]);
    if i + 2 <= s.len() {
        escaped_bounds(s, i + 2);
        line_bounds(s, i + 2);
        block_bounds(s, i + 2, 1);
    }
    tag_bounds(s, i + 1);
    if let Some(t) = tag_end(s, i + 1) {
        marker_bounds(s, t + 1, s.subrange(i, t + 1));
    }
    number_bounds(s, i, i + 1, i + 1);
    word_bounds(s, i + 1);
}

// --------------------------------------------------------------- reading tokens

/// Whether `a` and `b` stand in `chars` at `i`, one behind the other.
fn pair(chars: &Vec<char>, i: usize, a: char, b: char) -> (r: bool)
    requires
        i < chars@.len(),
    ensures
        r == pair_at(chars@, i as int, a, b),
{
    chars.len() - i > 1 && chars[i] == a && chars[i + 1] == b
}

fn read_quote(chars: &Vec<char>, start: usize, quote: char) -> (end: usize)
    ensures
        end == quote_end(chars@, start as int, quote),
{
    let mut i: usize = start;
    while i < chars.len()
        invariant
            quote_end(chars@, i as int, quote) == quote_end(chars@, start as int, quote),
        decreases chars@.len() - i,
    {
        if chars[i] == quote {
            return i + 1;
        }
        i += 1;
    }
    chars.len()
}

fn read_escaped(chars: &Vec<char>, start: usize) -> (end: usize)
    ensures
        end == escaped_end(chars@, start as int),
{
    let mut i: usize = start;
    while i < chars.len()
        invariant
            escaped_end(chars@, i as int) == escaped_end(chars@, start as int),
        decreases chars@.len() - i,
    {
        if chars.len() - i > 1 && (chars[i] == '\\' || pair(chars, i, '\'', '\'')) {
            i += 2;
        } else if chars[i] == '\'' {
            return i + 1;
        } else {
            i += 1;
        }
    }
    chars.len()
}

fn read_line(chars: &Vec<char>, start: usize) -> (end: usize)
    ensures
        end == line_end(chars@, start as int),
{
    let mut i: usize = start;
    while i < chars.len()
        invariant
            line_end(chars@, i as int) == line_end(chars@, start as int),
        decreases chars@.len() - i,
    {
        if chars[i] == '\n' || chars[i] == '\r' {
            return i + 1;
        }
        i += 1;
    }
    chars.len()
}

fn read_block(chars: &Vec<char>, start: usize) -> (end: usize)
    requires
        0 < start,
    ensures
        end == block_end(chars@, start as int, 1),
{
    let mut i: usize = start;
    let mut depth: usize = 1;
    while i < chars.len()
        invariant
            1 <= depth <= i,
            block_end(chars@, i as int, depth as nat) == block_end(chars@, start as int, 1),
        decreases chars@.len() - i,
    {
        if pair(chars, i, '/', '*') {
            depth += 1;
            i += 2;
        } else if pair(chars, i, '*', '/') {
            if depth <= 1 {
                return i + 2;
            }
            depth -= 1;
            i += 2;
        } else {
            i += 1;
        }
    }
    chars.len()
}

fn read_tag(chars: &Vec<char>, start: usize) -> (end: Option<usize>)
    ensures
        match end {
            Some(t) => tag_end(chars@, start as int) == Some(t as int),
            None => tag_end(chars@, start as int) is None,
        },
{
    let mut i: usize = start;
    while i < chars.len()
        invariant
            tag_end(chars@, i as int) == tag_end(chars@, start as int),
        decreases chars@.len() - i,
    {
        if chars[i] == '$' {
            return Some(i);
        }
        if !tag_char(chars[i]) {
            return None;
        }
        i += 1;
    }
    None
}

/// Whether the characters from `from` to `to` stand in `chars` at `i` too.
fn stands_again(chars: &Vec<char>, from: usize, to: usize, i: usize) -> (r: bool)
    requires
        from <= to <= chars@.len(),
        i <= chars@.len(),
    ensures
        r == marker_at(chars@, i as int, chars@.subrange(from as int, to as int)),
{
    let ghost marker = chars@.subrange(from as int, to as int);
    let length: usize = to - from;
    let total: usize = chars.len();
    if total - i < length {
        return false;
    }
    let mut k: usize = 0;
    while k < length
        invariant
            k <= length,
            length == to - from,
            from <= to <= chars@.len(),
            total == chars@.len(),
            i + length <= total,
            marker == chars@.subrange(from as int, to as int),
            forall|m: int| 0 <= m < k ==> chars@[i + m] == #[trigger] marker[m],
        decreases length - k,
    {
        if chars[i + k] != chars[from + k] {
            assert(chars@.subrange(i as int, i + length)[k as int] != marker[k as int]);
            return false;
        }
        k += 1;
    }
    assert(chars@.subrange(i as int, i + length) =~= marker);
    true
}

/// The end of the dollar-quoted literal that begins at `start`, whose tag ends
/// at `tag`.
fn read_dollar(chars: &Vec<char>, start: usize, tag: usize) -> (end: usize)
    requires
        start < tag < chars@.len(),
        tag_end(chars@, start + 1) == Some(tag as int),
    ensures
        end == dollar_end(chars@, start as int),
{
    let length: usize = chars.len();
    let ghost marker = chars@.subrange(start as int, tag + 1);
    let mut i: usize = tag + 1;
    while i < length
        invariant
            length == chars@.len(),
            start < tag < chars@.len(),
            tag_end(chars@, start + 1) == Some(tag as int),
            i <= chars@.len(),
            marker == chars@.subrange(start as int, tag + 1),
            marker_end(chars@, i as int, marker) == marker_end(chars@, tag + 1, marker),
        decreases chars@.len() - i,
    {
        if stands_again(chars, start, tag + 1, i) {
            return i + (tag + 1 - start);
        }
        i += 1;
    }
    length
}

/// Whether the character at `i` may go on with the number that begins at
/// `start`.
fn may_go_on(chars: &Vec<char>, start: usize, i: usize) -> (r: bool)
    requires
        start < i < chars@.len(),
    ensures
        r == goes_on(chars@, start as int, i as int),
{
    let c: char = chars[i];
    let before: char = chars[i - 1];
    if c == '_' {
        digit(before) && chars.len() - i > 1 && digit(chars[i + 1])
    } else if exponent(c) {
        !exponent(before) && (digit(chars[start]) || digit(before))
    } else {
        (c == '+' || c == '-') && exponent(before)
    }
}

fn read_number(chars: &Vec<char>, start: usize) -> (end: usize)
    requires
        start < chars@.len(),
    ensures
        end == number_end(chars@, start as int, start + 1, start + 1),
{
    let length: usize = chars.len();
    let mut i: usize = start + 1;
    let mut end: usize = start + 1;
    while i < length
        invariant
            length == chars@.len(),
            start < i <= chars@.len(),
            number_end(chars@, start as int, i as int, end as int) == number_end(
                chars@,
                start as int,
                start + 1,
                start + 1,
            ),
        decreases chars@.len() - i,
    {
        if numeral(chars[i]) {
            end = i + 1;
        } else if !may_go_on(chars, start, i) {
            return end;
        }
        i += 1;
    }
    end
}

fn read_word(chars: &Vec<char>, start: usize) -> (end: usize)
    ensures
        end == word_end(chars@, start as int),
{
    let mut i: usize = start;
    while i < chars.len()
        invariant
            word_end(chars@, i as int) == word_end(chars@, start as int),
        decreases chars@.len() - i,
    {
        if !word_char(chars[i]) && chars[i] != '$' {
            return i;
        }
        i += 1;
    }
    chars.len()
}

/// The end of the token that begins at `i`.
fn read_token(chars: &Vec<char>, i: usize) -> (end: usize)
    requires
        i < chars@.len(),
    ensures
        end == token_end(chars@, i as int),
{
    let length: usize = chars.len();
    let c: char = chars[i];
    if c == '\'' || c == '"' || c == '`' {
        return read_quote(chars, i + 1, c);
    }
    if pair(chars, i, 'E', '\'') || pair(chars, i, 'e', '\'') {
        return read_escaped(chars, i + 2);
    }
    if c == '$' && length - i > 1 && !digit(chars[i + 1]) {
        proof {
            tag_bounds(chars@, i + 1);
        }
        if let Some(tag) = read_tag(chars, i + 1) {
            return read_dollar(chars, i, tag);
        }
    }
    if pair(chars, i, '-', '-') {
        read_line(chars, i + 2)
    } else if pair(chars, i, '/', '*') {
        read_block(chars, i + 2)
    } else if numeral(c) {
        read_number(chars, i)
    } else if word_char(c) {
        read_word(chars, i + 1)
    } else {
        i + 1
    }
}

/// The number of placeholders of a statement.
pub fn count_placeholders(sql: &str) -> (n: usize)
    ensures
        n == placeholders(sql@),
{
    let chars = chars_of(sql);
    let mut n: usize = 0;
    let mut i: usize = 0;
    while i < chars.len()
        invariant
            chars@ == sql@,
            i <= chars@.len(),
            n <= i,
            n + placeholders_from(sql@, i as int) == placeholders(sql@),
        decreases chars@.len() - i,
    {
        proof {
            token_advances(sql@, i as int);
        }
        if chars[i] == '?' {
            n += 1;
        }
        i = read_token(&chars, i);
    }
    n
}

// ------------------------------------------------------- what lies before a place

proof fn rest_of_quote(a: Seq<char>, b: Seq<char>, i: int, quote: char)
    requires
        0 <= i,
    ensures
        quote_end(a + b, a.len() + i, quote) == a.len() + quote_end(b, i, quote),
    decreases b.len() - i,
{
    if i < b.len() {
        rest_of_quote(a, b, i + 1, quote);
    }
}

proof fn rest_of_escaped(a: Seq<char>, b: Seq<char>, i: int)
    requires
        0 <= i,
    ensures
        escaped_end(a + b, a.len() + i) == a.len() + escaped_end(b, i),
    decreases b.len() - i,
{
    if i < b.len() {
        rest_of_escaped(a, b, i + 1);
        if i + 1 < b.len() {
            rest_of_escaped(a, b, i + 2);
        }
    }
}

proof fn rest_of_line(a: Seq<char>, b: Seq<char>, i: int)
    requires
        0 <= i,
    ensures
        line_end(a + b, a.len() + i) == a.len() + line_end(b, i),
    decreases b.len() - i,
{
    if i < b.len() {
        rest_of_line(a, b, i + 1);
    }
}

proof fn rest_of_block(a: Seq<char>, b: Seq<char>, i: int, depth: nat)
    requires
        0 <= i,
    ensures
        block_end(a + b, a.len() + i, depth) == a.len() + block_end(b, i, depth),
    decreases b.len() - i,
{
    if i < b.len() {
        rest_of_block(a, b, i + 1, depth);
        if i + 1 < b.len() {
            rest_of_block(a, b, i + 2, depth + 1);
            if depth > 1 {
                rest_of_block(a, b, i + 2, (depth - 1) as nat);
            }
        }
    }
}

proof fn rest_of_tag(a: Seq<char>, b: Seq<char>, i: int)
    requires
        0 <= i,
    ensures
        match tag_end(b, i) {
            Some(t) => tag_end(a + b, a.len() + i) == Some(a.len() + t),
            None => tag_end(a + b, a.len() + i) is None,
        },
    decreases b.len() - i,
{
    if i < b.len() {
        rest_of_tag(a, b, i + 1);
    }
}

proof fn rest_of_marker(a: Seq<char>, b: Seq<char>, i: int, marker: Seq<char>)
    requires
        0 <= i,
    ensures
        marker_end(a + b, a.len() + i, marker) == a.len() + marker_end(b, i, marker),
    decreases b.len() - i,
{
    if i < b.len() {
        if i + marker.len() <= b.len() {
            assert((a + b).subrange(a.len() + i, a.len() + i + marker.len()) =~= b.subrange(
                i,
                i + marker.len(),
            ));
        }
        rest_of_marker(a, b, i + 1, marker);
    }
}

proof fn rest_of_number(a: Seq<char>, b: Seq<char>, start: int, i: int, end: int)
    requires
        0 <= start < i,
    ensures
        number_end(a + b, a.len() + start, a.len() + i, a.len() + end) == a.len() + number_end(
            b,
            start,
            i,
            end,
        ),
    decreases b.len() - i,
{
    if i < b.len() {
        let s = a + b;
        assert(s[a.len() + i] == b[i] && s[a.len() + i - 1] == b[i - 1] && s[a.len() + start]
            == b[start]);
        if i + 1 < b.len() {
            assert(s[a.len() + i + 1] == b[i + 1]);
        }
        assert(goes_on(s, a.len() + start, a.len() + i) == goes_on(b, start, i));
        rest_of_number(a, b, start, i + 1, i + 1);
        rest_of_number(a, b, start, i + 1, end);
    }
}

proof fn rest_of_word(a: Seq<char>, b: Seq<char>, i: int)
    requires
        0 <= i,
    ensures
        word_end(a + b, a.len() + i) == a.len() + word_end(b, i),
    decreases b.len() - i,
{
    if i < b.len() {
        rest_of_word(a, b, i + 1);
    }
}

/// What lies before a token does not matter to where it ends.
proof fn rest_of_token(a: Seq<char>, b: Seq<char>, i: int)
    requires
        0 <= i < b.len(),
    ensures
        token_end(a + b, a.len() + i) == a.len() + token_end(b, i),
{
    let s = a + b;
    let at = a.len() + i;
    assert(s[at] == b[i]);
    if i + 1 < b.len() {
        assert(s[at + 1] == b[i + 1]);
    }
    assert forall|x: char, y: char| #[trigger] pair_at(s, at, x, y) == pair_at(b, i, x, y) by {}
    rest_of_quote(a, b, i + 1, b[i]);
    rest_of_escaped(a, b, i + 2);
    rest_of_tag(a, b, i + 1);
    tag_bounds(b, i + 1);
    if let Some(t) = tag_end(b, i + 1) {
        assert(s.subrange(at, a.len() + t + 1) =~= b.subrange(i, t + 1));
        rest_of_marker(a, b, t + 1, b.subrange(i, t + 1));
    }
    rest_of_line(a, b, i + 2);
    rest_of_block(a, b, i + 2, 1);
    rest_of_number(a, b, i, i + 1, i + 1);
    rest_of_word(a, b, i + 1);
}

/// What lies before a place does not matter to the placeholders behind it.
pub proof fn only_the_rest_counts(a: Seq<char>, b: Seq<char>, i: int)
    requires
        0 <= i,
    ensures
        placeholders_from(a + b, a.len() + i) == placeholders_from(b, i),
    decreases b.len() - i,
{
    if i < b.len() {
        token_advances(b, i);
        rest_of_token(a, b, i);
        only_the_rest_counts(a, b, token_end(b, i));
    }
}

// ------------------------------------------------------------------------- laws

/// A text in which no `?` stands counts none.
pub proof fn no_mark(s: Seq<char>)
    requires
        forall|i: int| 0 <= i < s.len() ==> s[i] != '?',
    ensures
        count_of(s, '?') == 0,
    decreases s.len(),
{
    reveal_with_fuel(Seq::<_>::filter, 1);
    if s.len() > 0 {
        no_mark(s.drop_last());
    }
}

/// The marks from `i` on are those up to `end` and those from there on.
proof fn marks_split(s: Seq<char>, i: int, end: int)
    requires
        0 <= i < end <= s.len(),
    ensures
        count_of(s.skip(i), '?') == count_of(s.subrange(i, end), '?') + count_of(s.skip(end), '?'),
        s[i] == '?' ==> count_of(s.subrange(i, end), '?') >= 1,
        s[i] == '?' && end == i + 1 ==> count_of(s.subrange(i, end), '?') == 1,
{
    let is_mark = |x: char| x == '?';
    assert(s.skip(i) =~= s.subrange(i, end) + s.skip(end));
    Seq::filter_distributes_over_add(s.subrange(i, end), s.skip(end), is_mark);
    let head = seq![s[i]];
    assert(s.subrange(i, end) =~= head + s.subrange(i + 1, end));
    Seq::filter_distributes_over_add(head, s.subrange(i + 1, end), is_mark);
    reveal_with_fuel(Seq::<_>::filter, 2);
    assert(head.drop_last() =~= Seq::<char>::empty());
    if end == i + 1 {
        assert(s.subrange(i, end) =~= head);
    }
}

/// The placeholders from `i` on are among the marks.
proof fn marks_from(s: Seq<char>, i: int)
    requires
        0 <= i <= s.len(),
    ensures
        placeholders_from(s, i) <= count_of(s.skip(i), '?'),
    decreases s.len() - i,
{
    if i < s.len() {
        let end = token_end(s, i);
        token_advances(s, i);
        marks_split(s, i, end);
        marks_from(s, end);
    }
}

/// Every placeholder is a `?`: a statement has no more of them than of those.
pub proof fn placeholders_are_marks(s: Seq<char>)
    ensures
        placeholders(s) <= count_of(s, '?'),
{
    marks_from(s, 0);
    assert(s.skip(0) =~= s);
}

/// A text in which no literal, quoted name or comment can begin.
pub open spec fn is_plain(s: Seq<char>) -> bool {
    forall|i: int|
        0 <= i < s.len() ==> (#[trigger] s[i]) != '\'' && s[i] != '"' && s[i] != '`' && s[i] != '$'
            && s[i] != '-' && s[i] != '/'
}

/// A number holds no mark.
proof fn number_is_plain(s: Seq<char>, start: int, i: int, end: int, k: int)
    requires
        0 <= start < end <= i <= s.len(),
        i <= k < number_end(s, start, i, end),
    ensures
        s[k] != '?',
    decreases s.len() - i,
{
    if i < s.len() && (is_numeral(s[i]) || goes_on(s, start, i)) {
        let next = if is_numeral(s[i]) { i + 1 } else { end };
        if k > i {
            number_is_plain(s, start, i + 1, next, k);
        }
    }
}

/// A word holds no mark.
proof fn word_is_plain(s: Seq<char>, i: int, k: int)
    requires
        0 <= i <= k < word_end(s, i),
    ensures
        s[k] != '?',
    decreases s.len() - i,
{
    if i < s.len() && i < k {
        word_is_plain(s, i + 1, k);
    }
}

/// In a plain text every `?` from `i` on is a placeholder.
proof fn plain_marks_from(s: Seq<char>, i: int)
    requires
        is_plain(s),
        0 <= i <= s.len(),
    ensures
        placeholders_from(s, i) == count_of(s.skip(i), '?'),
    decreases s.len() - i,
{
    if i < s.len() {
        let end = token_end(s, i);
        token_advances(s, i);
        marks_split(s, i, end);
        plain_marks_from(s, end);
        if s[i] == '?' {
            assert(end == i + 1);
        } else {
            let token = s.subrange(i, end);
            assert(s[i] != '\'' && s[i] != '"' && s[i] != '`' && s[i] != '$');
            if i + 1 < s.len() {
                assert(s[i + 1] != '\'' && s[i + 1] != '-');
            }
            assert forall|k: int| 0 <= k < token.len() implies token[k] != '?' by {
                if k > 0 {
                    if is_numeral(s[i]) {
                        number_is_plain(s, i, i + 1, i + 1, i + k);
                    } else {
                        word_is_plain(s, i + 1, i + k);
                    }
                }
            }
            no_mark(token);
        }
    } else {
        no_mark(s.skip(i));
    }
}

/// In a plain text every `?` is a placeholder.
pub proof fn plain_marks_are_placeholders(s: Seq<char>)
    requires
        is_plain(s),
    ensures
        placeholders(s) == count_of(s, '?'),
{
    plain_marks_from(s, 0);
    assert(s.skip(0) =~= s);
}

/// The placeholders behind the literal in which `s` begins.
spec fn behind_literal(s: Seq<char>) -> nat {
    placeholders_from(s, quote_end(s, 0, '\''))
}

/// Reading the characters of a quoted text stays within the literal.
proof fn within_a_literal(text: Seq<char>, rest: Seq<char>)
    ensures
        behind_literal(apostrophes_doubled(text) + rest) == behind_literal(rest),
    decreases text.len(),
{
    let quoted = apostrophes_doubled(text);
    quote_bounds(rest, 0, '\'');
    if text.len() == 0 {
        assert(quoted + rest =~= rest);
    } else {
        let shorter = text.drop_last();
        let head = if text.last() == '\'' { seq!['\'', '\''] } else { seq![text.last()] };
        let behind = head + rest;
        assert(quoted + rest =~= apostrophes_doubled(shorter) + behind);
        within_a_literal(shorter, behind);
        rest_of_quote(head, rest, 0, '\'');
        only_the_rest_counts(head, rest, quote_end(rest, 0, '\''));
        assert(behind[0] == head[0]);
        if text.last() == '\'' {
            assert(behind[1] == '\'');
        }
    }
}

/// A string literal holds no placeholder, whatever stands in it: those of the
/// statement are those behind it.
pub proof fn literals_hold_no_placeholder(text: Seq<char>, rest: Seq<char>)
    ensures
        placeholders(seq!['\''] + apostrophes_doubled(text) + seq!['\''] + rest) == placeholders(
            rest,
        ),
{
    let open = seq!['\''];
    let closed = open + rest;
    let body = apostrophes_doubled(text) + closed;
    let all = open + apostrophes_doubled(text) + open + rest;
    assert(all =~= open + body);
    assert(all[0] == '\'');
    assert(closed[0] == '\'');
    quote_bounds(body, 0, '\'');
    rest_of_quote(open, body, 0, '\'');
    only_the_rest_counts(open, body, quote_end(body, 0, '\''));
    within_a_literal(text, closed);
    only_the_rest_counts(open, rest, 0);
}

/// The tag of a dollar-quoted literal: empty, or of its characters, with no digit
/// in front.
pub open spec fn is_tag(tag: Seq<char>) -> bool {
    &&& forall|i: int| 0 <= i < tag.len() ==> is_tag_char(#[trigger] tag[i])
    &&& tag.len() > 0 ==> !is_digit(tag[0])
}

/// The tag that stands in `s` from `i` on is read to its dollar sign.
proof fn tag_is_read(s: Seq<char>, i: int, end: int)
    requires
        0 <= i <= end < s.len(),
        forall|k: int| i <= k < end ==> is_tag_char(#[trigger] s[k]),
        s[end] == '$',
    ensures
        tag_end(s, i) == Some(end),
    decreases end - i,
{
    if i < end {
        assert(is_tag_char(s[i]));
        tag_is_read(s, i + 1, end);
    }
}

/// A marker is read to where it first stands.
proof fn marker_is_read(s: Seq<char>, i: int, marker: Seq<char>, at: int)
    requires
        0 <= i <= at < s.len(),
        forall|k: int| i <= k < at ==> !marker_at(s, k, marker),
        marker_at(s, at, marker),
    ensures
        marker_end(s, i, marker) == at + marker.len(),
    decreases at - i,
{
    if i < at {
        marker_is_read(s, i + 1, marker, at);
    }
}

/// A dollar-quoted literal holds no placeholder, whatever stands in it before its
/// closing marker: those of the statement are those behind it.
pub proof fn dollar_literals_hold_no_placeholder(tag: Seq<char>, text: Seq<char>, rest: Seq<char>)
    requires
        is_tag(tag),
        forall|k: int|
            0 <= k < text.len() ==> !marker_at(
                text + (seq!['$'] + tag + seq!['$']),
                k,
                seq!['$'] + tag + seq!['$'],
            ),
    ensures
        ({
            let marker = seq!['$'] + tag + seq!['$'];
            placeholders(marker + text + marker + rest) == placeholders(rest)
        }),
{
    let marker = seq!['$'] + tag + seq!['$'];
    let literal = marker + text + marker;
    let all = literal + rest;
    let last = (tag.len() + 1) as int;
    let close = (marker.len() + text.len()) as int;
    assert forall|k: int| 1 <= k < last implies is_tag_char(#[trigger] all[k]) by {
        assert(all[k] == tag[k - 1]);
    }
    tag_is_read(all, 1, last);
    assert(all.subrange(0, last + 1) =~= marker);
    assert(tag.len() > 0 ==> all[1] == tag[0]);
    assert forall|k: int| marker.len() <= k < close implies !marker_at(all, k, marker) by {
        let inner = text + marker;
        let from = k - marker.len();
        assert(!marker_at(inner, from, marker));
        assert(all.subrange(k, k + marker.len()) =~= inner.subrange(from, from + marker.len()));
    }
    assert(all.subrange(close, close + marker.len()) =~= marker);
    marker_is_read(all, marker.len() as int, marker, close);
    only_the_rest_counts(literal, rest, 0);
}

} // verus!
