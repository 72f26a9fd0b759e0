//! Text primitives over sequences of characters.
//!
//! Each executable function here is proved against a spec function of a few
//! lines that says what the result is.

use vstd::prelude::*;

verus! {

/// `String::push` of std: appends one character at the end.
pub assume_specification[ String::push ](s: &mut String, ch: char)
    ensures
        final(s)@ == old(s)@.push(ch),
;

/// The views of a sequence of strings.
pub open spec fn texts(strings: Seq<String>) -> Seq<Seq<char>> {
    strings.map_values(|s: String| s@)
}

/// The view of an optional string.
pub open spec fn opt_text(s: Option<String>) -> Option<Seq<char>> {
    match s {
        Some(t) => Some(t@),
        None => None,
    }
}

/// The view of an optional string slice.
pub open spec fn opt_str(s: Option<&str>) -> Option<Seq<char>> {
    match s {
        Some(t) => Some(t@),
        None => None,
    }
}

/// What a check says: nothing where it accepts, or the text of its rejection.
pub open spec fn rejection(r: Result<(), String>) -> Option<Seq<char>> {
    match r {
        Ok(_) => None,
        Err(e) => Some(e@),
    }
}

/// The characters of `s`, in order.
pub fn chars_of(s: &str) -> (chars: Vec<char>)
    ensures
        chars@ == s@,
{
    let mut chars: Vec<char> = Vec::new();
    for c in it: s.chars()
        invariant
            it.seq() == s@,
            chars@ == s@.take(it.index() as int),
    {
        chars.push(c);
        assert(s@.take(it.index() + 1) == s@.take(it.index() as int).push(s@[it.index() as int]));
    }
    assert(s@.take(s@.len() as int) == s@);
    chars
}

/// The string that holds exactly `chars[from..to]`.
pub fn text_of(chars: &Vec<char>, from: usize, to: usize) -> (s: String)
    requires
        from <= to <= chars@.len(),
    ensures
        s@ == chars@.subrange(from as int, to as int),
{
    let mut s = String::new();
    let mut i: usize = from;
    while i < to
        invariant
            from <= i <= to <= chars@.len(),
            s@ == chars@.subrange(from as int, i as int),
        decreases to - i,
    {
        s.push(chars[i]);
        assert(chars@.subrange(from as int, i + 1) == chars@.subrange(from as int, i as int).push(
            chars@[i as int],
        ));
        i += 1;
    }
    s
}

/// Whether two strings hold the same characters.
pub fn same_text(a: &str, b: &str) -> (same: bool)
    ensures
        same == (a@ == b@),
{
    let x = chars_of(a);
    let y = chars_of(b);
    if x.len() != y.len() {
        return false;
    }
    let mut i: usize = 0;
    while i < x.len()
        invariant
            x@ == a@,
            y@ == b@,
            x@.len() == y@.len(),
            i <= x@.len(),
            forall|k: int| 0 <= k < i ==> x@[k] == y@[k],
        decreases x@.len() - i,
    {
        if x[i] != y[i] {
            return false;
        }
        i += 1;
    }
    assert(a@ =~= b@);
    true
}

// ---------------------------------------------------------------- white space

/// The characters with the Unicode `White_Space` property.
pub open spec fn is_white_space(c: char) -> bool {
    let n = c as u32;
    ||| 0x9 <= n <= 0xd
    ||| n == 0x20
    ||| n == 0x85
    ||| n == 0xa0
    ||| n == 0x1680
    ||| 0x2000 <= n <= 0x200a
    ||| n == 0x2028
    ||| n == 0x2029
    ||| n == 0x202f
    ||| n == 0x205f
    ||| n == 0x3000
}

/// Whether `c` has the Unicode `White_Space` property.
pub fn white_space(c: char) -> (r: bool)
    ensures
        r == is_white_space(c),
{
    let n: u32 = c as u32;
    (0x9 <= n && n <= 0xd) || n == 0x20 || n == 0x85 || n == 0xa0 || n == 0x1680 || (0x2000 <= n && n
        <= 0x200a) || n == 0x2028 || n == 0x2029 || n == 0x202f || n == 0x205f || n == 0x3000
}

/// A text of white space alone; the empty text is one.
pub open spec fn is_blank(s: Seq<char>) -> bool {
    forall|i: int| 0 <= i < s.len() ==> is_white_space(#[trigger] s[i])
}

/// Whether `s` is white space alone.
pub fn blank(s: &str) -> (r: bool)
    ensures
        r == is_blank(s@),
{
    let chars = chars_of(s);
    let mut i: usize = 0;
    while i < chars.len()
        invariant
            chars@ == s@,
            i <= chars@.len(),
            forall|k: int| 0 <= k < i ==> is_white_space(#[trigger] s@[k]),
        decreases chars@.len() - i,
    {
        if !white_space(chars[i]) {
            return false;
        }
        i += 1;
    }
    true
}

/// `s` without the white space at its two ends.
pub open spec fn trimmed(s: Seq<char>) -> Seq<char>
    decreases s.len(),
{
    if s.len() == 0 {
        s
    } else if is_white_space(s[0]) {
        trimmed(s.drop_first())
    } else if is_white_space(s.last()) {
        trimmed(s.drop_last())
    } else {
        s
    }
}

/// A blank text trims to nothing, and only a blank text does.
pub proof fn trimmed_is_empty_iff_blank(s: Seq<char>)
    ensures
        trimmed(s).len() == 0 <==> is_blank(s),
    decreases s.len(),
{
    if s.len() == 0 {
    } else if is_white_space(s[0]) {
        let t = s.drop_first();
        trimmed_is_empty_iff_blank(t);
        if is_blank(t) {
            assert forall|i: int| 0 <= i < s.len() implies is_white_space(#[trigger] s[i]) by {
                if i > 0 {
                    assert(t[i - 1] == s[i]);
                }
            }
        }
        if is_blank(s) {
            assert forall|i: int| 0 <= i < t.len() implies is_white_space(#[trigger] t[i]) by {
                assert(t[i] == s[i + 1]);
            }
        }
    } else if is_white_space(s.last()) {
        let t = s.drop_last();
        trimmed_is_empty_iff_blank(t);
        assert(t.len() > 0) by {
            if s.len() == 1 {
                assert(s.last() == s[0]);
            }
        }
        assert(t[0] == s[0]);
    }
}

/// `s` without the white space at its two ends.
pub fn trim(s: &str) -> (r: String)
    ensures
        r@ == trimmed(s@),
{
    let chars = chars_of(s);
    let mut from: usize = 0;
    let mut to: usize = chars.len();
    assert(chars@.subrange(0, to as int) == s@);
    while from < to && white_space(chars[from])
        invariant
            chars@ == s@,
            from <= to == chars@.len(),
            trimmed(chars@.subrange(from as int, to as int)) == trimmed(s@),
        decreases to - from,
    {
        assert(chars@.subrange(from as int, to as int).drop_first() == chars@.subrange(
            from + 1,
            to as int,
        ));
        from += 1;
    }
    while from < to && white_space(chars[to - 1])
        invariant
            chars@ == s@,
            from <= to <= chars@.len(),
            from < to ==> !is_white_space(chars@[from as int]),
            trimmed(chars@.subrange(from as int, to as int)) == trimmed(s@),
        decreases to - from,
    {
        assert(chars@.subrange(from as int, to as int).drop_last() == chars@.subrange(
            from as int,
            to - 1,
        ));
        to -= 1;
    }
    text_of(&chars, from, to)
}

// -------------------------------------------------------------------- search

/// `needle` stands in `hay` at position `i`.
pub open spec fn occurs_at(hay: Seq<char>, needle: Seq<char>, i: int) -> bool {
    0 <= i && i + needle.len() <= hay.len() && hay.subrange(i, i + needle.len()) == needle
}

/// `needle` stands somewhere in `hay`.
pub open spec fn contains_text(hay: Seq<char>, needle: Seq<char>) -> bool {
    exists|i: int| occurs_at(hay, needle, i)
}

/// Whether `needle` stands in `hay` at position `i`.
pub fn found_at(hay: &Vec<char>, needle: &Vec<char>, i: usize) -> (r: bool)
    requires
        i <= hay@.len(),
    ensures
        r == occurs_at(hay@, needle@, i as int),
{
    if needle.len() > hay.len() - i {
        return false;
    }
    let mut k: usize = 0;
    while k < needle.len()
        invariant
            i + needle@.len() <= hay.len(),
            k <= needle@.len(),
            forall|m: int| 0 <= m < k ==> hay@[i + m] == needle@[m],
        decreases needle@.len() - k,
    {
        if hay[i + k] != needle[k] {
            assert(hay@.subrange(i as int, i + needle@.len())[k as int] != needle@[k as int]);
            return false;
        }
        k += 1;
    }
    assert(hay@.subrange(i as int, i + needle@.len()) =~= needle@);
    true
}

/// Whether `needle` stands somewhere in `hay`.
pub fn contains(hay: &str, needle: &str) -> (r: bool)
    ensures
        r == contains_text(hay@, needle@),
{
    let h = chars_of(hay);
    let n = chars_of(needle);
    let mut i: usize = 0;
    while i < h.len()
        invariant
            h@ == hay@,
            n@ == needle@,
            i <= h@.len(),
            forall|k: int| 0 <= k < i ==> !occurs_at(hay@, needle@, k),
        decreases h@.len() - i,
    {
        if found_at(&h, &n, i) {
            return true;
        }
        i += 1;
    }
    let last = found_at(&h, &n, i);
    assert forall|k: int| k > h@.len() implies !occurs_at(hay@, needle@, k) by {}
    last
}

/// `s` begins with `prefix`.
pub open spec fn begins_with(s: Seq<char>, prefix: Seq<char>) -> bool {
    prefix.is_prefix_of(s)
}

/// Whether `s` begins with `prefix`.
pub fn starts_with(s: &str, prefix: &str) -> (r: bool)
    ensures
        r == begins_with(s@, prefix@),
{
    let h = chars_of(s);
    let n = chars_of(prefix);
    let r = found_at(&h, &n, 0);
    assert(r == begins_with(s@, prefix@));
    r
}

/// How many times `c` stands in `s`.
pub open spec fn count_of(s: Seq<char>, c: char) -> nat {
    s.filter(|x: char| x == c).len()
}

// ---------------------------------------------------------------- letter case

/// `c`, with an ASCII upper-case letter made lower-case.
pub open spec fn lower_char(c: char) -> char {
    if 'A' <= c && c <= 'Z' {
        ((c as u8) + 32) as char
    } else {
        c
    }
}

/// `s`, with every ASCII upper-case letter made lower-case.
pub open spec fn lower(s: Seq<char>) -> Seq<char> {
    s.map_values(|c: char| lower_char(c))
}

/// `c`, with an ASCII upper-case letter made lower-case.
pub fn to_lower_char(c: char) -> (r: char)
    ensures
        r == lower_char(c),
{
    if 'A' <= c && c <= 'Z' {
        let n: u8 = c as u8;
        (n + 32) as char
    } else {
        c
    }
}

/// `s`, with every ASCII upper-case letter made lower-case.
pub fn to_lower(s: &str) -> (r: String)
    ensures
        r@ == lower(s@),
{
    let chars = chars_of(s);
    let mut r = String::new();
    let mut i: usize = 0;
    while i < chars.len()
        invariant
            chars@ == s@,
            i <= chars@.len(),
            r@ == lower(s@.take(i as int)),
        decreases chars@.len() - i,
    {
        r.push(to_lower_char(chars[i]));
        assert(lower(s@.take(i + 1)) == lower(s@.take(i as int)).push(lower_char(s@[i as int])));
        i += 1;
    }
    assert(s@.take(s@.len() as int) == s@);
    r
}

/// Whether two strings are equal but for the case of ASCII letters.
pub fn same_ignoring_case(a: &str, b: &str) -> (same: bool)
    ensures
        same == (lower(a@) == lower(b@)),
{
    let x = to_lower(a);
    let y = to_lower(b);
    same_text(x.as_str(), y.as_str())
}

// ---------------------------------------------------------------- identifiers

/// `[A-Za-z_]`
pub open spec fn is_ident_start(c: char) -> bool {
    ('A' <= c && c <= 'Z') || ('a' <= c && c <= 'z') || c == '_'
}

/// `[A-Za-z0-9_]`
pub open spec fn is_ident_char(c: char) -> bool {
    is_ident_start(c) || ('0' <= c && c <= '9')
}

/// `[A-Za-z_][A-Za-z0-9_]*`
pub open spec fn is_identifier(s: Seq<char>) -> bool {
    &&& s.len() > 0
    &&& is_ident_start(s[0])
    &&& forall|i: int| 0 <= i < s.len() ==> is_ident_char(#[trigger] s[i])
}

/// Whether `c` is in `[A-Za-z_]`.
pub fn ident_start(c: char) -> (r: bool)
    ensures
        r == is_ident_start(c),
{
    ('A' <= c && c <= 'Z') || ('a' <= c && c <= 'z') || c == '_'
}

/// Whether `c` is in `[A-Za-z0-9_]`.
pub fn ident_char(c: char) -> (r: bool)
    ensures
        r == is_ident_char(c),
{
    ident_start(c) || ('0' <= c && c <= '9')
}

/// Whether `s` matches `[A-Za-z_][A-Za-z0-9_]*`.
pub fn identifier(s: &str) -> (r: bool)
    ensures
        r == is_identifier(s@),
{
    let chars = chars_of(s);
    if chars.len() == 0 || !ident_start(chars[0]) {
        return false;
    }
    let mut i: usize = 1;
    while i < chars.len()
        invariant
            chars@ == s@,
            1 <= i <= chars@.len(),
            is_ident_start(s@[0]),
            forall|k: int| 0 <= k < i ==> is_ident_char(#[trigger] s@[k]),
        decreases chars@.len() - i,
    {
        if !ident_char(chars[i]) {
            return false;
        }
        i += 1;
    }
    true
}

/// The names of `list` in order, each at its first place only.
pub open spec fn each_once(list: Seq<Seq<char>>) -> Seq<Seq<char>>
    decreases list.len(),
{
    if list.len() == 0 {
        Seq::empty()
    } else {
        let rest = each_once(list.drop_last());
        if rest.contains(list.last()) {
            rest
        } else {
            rest.push(list.last())
        }
    }
}

/// A list reduced to each name once holds the same names, and none twice.
pub proof fn each_once_keeps_every_name_once(list: Seq<Seq<char>>)
    ensures
        each_once(list).no_duplicates(),
        forall|name: Seq<char>| #[trigger] each_once(list).contains(name) <==> list.contains(name),
    decreases list.len(),
{
    if list.len() > 0 {
        let shorter = list.drop_last();
        each_once_keeps_every_name_once(shorter);
        let rest = each_once(shorter);
        let all = each_once(list);
        assert forall|name: Seq<char>| #[trigger] all.contains(name) <==> list.contains(name) by {
            if list.contains(name) {
                let k = choose|k: int| 0 <= k < list.len() && list[k] == name;
                if k < shorter.len() {
                    assert(shorter[k] == name);
                    assert(rest.contains(name));
                    let m = choose|m: int| 0 <= m < rest.len() && rest[m] == name;
                    assert(all[m] == name);
                } else if rest.contains(name) {
                } else {
                    assert(all[rest.len() as int] == name);
                }
            }
            if all.contains(name) {
                let k = choose|k: int| 0 <= k < all.len() && all[k] == name;
                if k < rest.len() {
                    assert(rest[k] == name);
                    assert(rest.contains(name));
                    assert(shorter.contains(name));
                    let m = choose|m: int| 0 <= m < shorter.len() && shorter[m] == name;
                    assert(list[m] == name);
                } else {
                    assert(list[list.len() - 1] == name);
                }
            }
        }
    }
}

/// Whether `name` is one of `names`.
pub fn listed(names: &Vec<String>, name: &str) -> (r: bool)
    ensures
        r == texts(names@).contains(name@),
{
    let mut i: usize = 0;
    while i < names.len()
        invariant
            i <= names@.len(),
            forall|k: int| 0 <= k < i ==> (#[trigger] texts(names@)[k]) != name@,
        decreases names@.len() - i,
    {
        if same_text(names[i].as_str(), name) {
            assert(texts(names@)[i as int] == name@);
            return true;
        }
        assert(texts(names@)[i as int] != name@);
        i += 1;
    }
    false
}

/// `names` with `name` added at the end, unless it is there.
pub fn push_once(names: &mut Vec<String>, name: &str)
    ensures
        texts(final(names)@) == (if texts(old(names)@).contains(name@) {
            texts(old(names)@)
        } else {
            texts(old(names)@).push(name@)
        }),
{
    if !listed(names, name) {
        names.push(name.to_owned());
        assert(texts(names@) =~= texts(old(names)@).push(name@));
    }
}

// -------------------------------------------------------------------- numbers

/// The decimal digit of `n`, for `n` below ten.
pub open spec fn digit(n: nat) -> char {
    ((48 + n) as u8) as char
}

/// The decimal digits of `n`, most significant first.
pub open spec fn digits(n: nat) -> Seq<char>
    decreases n,
{
    if n < 10 {
        seq![digit(n)]
    } else {
        digits(n / 10).push(digit(n % 10))
    }
}

/// `n` in decimal, with a minus sign where it is negative.
pub open spec fn decimal(n: int) -> Seq<char> {
    if n < 0 {
        seq!['-'] + digits((-n) as nat)
    } else {
        digits(n as nat)
    }
}

/// `n` in decimal.
pub fn u128_text(n: u128) -> (s: String)
    ensures
        s@ == decimal(n as int),
    decreases n,
{
    let low: u8 = (n % 10) as u8;
    let c: char = (48 + low) as char;
    if n < 10 {
        let mut s = String::new();
        s.push(c);
        assert(s@ =~= seq![digit(n as nat)]);
        s
    } else {
        let mut s = u128_text(n / 10);
        s.push(c);
        s
    }
}

/// `n` in decimal, with a minus sign where it is negative.
pub fn i128_text(n: i128) -> (s: String)
    ensures
        s@ == decimal(n as int),
{
    if n >= 0 {
        u128_text(n as u128)
    } else {
        let magnitude: u128 = (-(n + 1)) as u128 + 1;
        let rest = u128_text(magnitude);
        let mut s = String::new();
        s.push('-');
        s.append(rest.as_str());
        assert(s@ =~= seq!['-'] + digits((-n) as nat));
        s
    }
}

/// The number that a sequence of decimal digits stands for.
pub open spec fn number_of(s: Seq<char>) -> int
    decreases s.len(),
{
    if s.len() == 0 {
        0
    } else {
        number_of(s.drop_last()) * 10 + (s.last() as int - 48)
    }
}

/// One or more decimal digits.
pub open spec fn is_number(s: Seq<char>) -> bool {
    s.len() > 0 && forall|i: int| 0 <= i < s.len() ==> '0' <= (#[trigger] s[i]) <= '9'
}

/// The number that a text stands for: decimal digits, with or without a plus
/// sign before them, that make up a number of 64 bits.
pub open spec fn unsigned_of(s: Seq<char>) -> Option<int> {
    let body = if s.len() > 0 && s[0] == '+' {
        s.skip(1)
    } else {
        s
    };
    if is_number(body) && number_of(body) <= u64::MAX {
        Some(number_of(body))
    } else {
        None
    }
}

/// More digits make no smaller number.
proof fn number_grows(s: Seq<char>, n: int)
    requires
        is_number(s),
        0 <= n <= s.len(),
    ensures
        0 <= number_of(s.take(n)) <= number_of(s),
    decreases s.len() - n, n,
{
    if n == s.len() {
        assert(s.take(n) =~= s);
        if n > 0 {
            let shorter = s.take(n - 1);
            assert(s.drop_last() =~= shorter);
            if n > 1 {
                assert forall|i: int| 0 <= i < shorter.len() implies '0' <= (#[trigger] shorter[i])
                    <= '9' by {
                    assert(s[i] == shorter[i]);
                }
                number_grows_from_zero(shorter);
            }
        }
    } else {
        number_grows(s, n + 1);
        let longer = s.take(n + 1);
        assert(longer.drop_last() =~= s.take(n));
        assert(longer.last() == s[n]);
        if n > 0 {
            let shorter = s.take(n);
            assert forall|i: int| 0 <= i < shorter.len() implies '0' <= (#[trigger] shorter[i])
                <= '9' by {
                assert(s[i] == shorter[i]);
            }
            number_grows_from_zero(shorter);
        }
    }
}

/// Digits make no negative number.
proof fn number_grows_from_zero(s: Seq<char>)
    requires
        is_number(s),
    ensures
        0 <= number_of(s),
    decreases s.len(),
{
    if s.len() > 1 {
        let shorter = s.drop_last();
        assert forall|i: int| 0 <= i < shorter.len() implies '0' <= (#[trigger] shorter[i])
            <= '9' by {
            assert(s[i] == shorter[i]);
        }
        number_grows_from_zero(shorter);
    } else {
        assert(number_of(s.drop_last()) == 0);
    }
    assert(s.last() == s[s.len() - 1]);
}

/// Decimal digits are read back as the number that they were written for.
pub proof fn decimal_reads_back(n: nat)
    ensures
        is_number(decimal(n as int)),
        number_of(decimal(n as int)) == n,
        n <= u64::MAX ==> unsigned_of(decimal(n as int)) == Some(n as int),
    decreases n,
{
    let text = digits(n);
    if n < 10 {
        assert(text.drop_last() =~= Seq::<char>::empty());
        assert(number_of(text.drop_last()) == 0);
    } else {
        decimal_reads_back(n / 10);
        let shorter = digits(n / 10);
        assert(text.drop_last() =~= shorter);
        assert forall|i: int| 0 <= i < text.len() implies '0' <= (#[trigger] text[i]) <= '9' by {
            if i < shorter.len() {
                assert(text[i] == shorter[i]);
            }
        }
    }
    assert('0' <= text[0] <= '9');
}

/// The number that a text stands for, where it is one of 64 bits.
pub fn parse_u64(s: &str) -> (n: Option<u64>)
    ensures
        match n {
            Some(n) => unsigned_of(s@) == Some(n as int),
            None => unsigned_of(s@) is None,
        },
{
    let chars = chars_of(s);
    let start: usize = if chars.len() > 0 && chars[0] == '+' {
        1
    } else {
        0
    };
    let ghost body = chars@.skip(start as int);
    assert(start == 0 ==> body =~= s@);
    if chars.len() == start {
        return None;
    }
    let mut value: u64 = 0;
    let mut i: usize = start;
    assert(body.take(0) =~= Seq::<char>::empty());
    while i < chars.len()
        invariant
            start <= i <= chars@.len(),
            chars@ == s@,
            body == chars@.skip(start as int),
            unsigned_of(s@) == (if is_number(body) && number_of(body) <= u64::MAX {
                Some(number_of(body))
            } else {
                None
            }),
            forall|k: int| 0 <= k < i - start ==> '0' <= (#[trigger] body[k]) <= '9',
            value == number_of(body.take(i - start)),
        decreases chars@.len() - i,
    {
        let c: char = chars[i];
        assert(body[i - start] == c);
        if !('0' <= c && c <= '9') {
            return None;
        }
        let digit: u64 = (c as u32 - 48) as u64;
        let ghost longer = body.take(i - start + 1);
        assert(longer.drop_last() =~= body.take(i - start));
        assert(longer.last() == c);
        let grown = match value.checked_mul(10) {
            Some(tens) => tens.checked_add(digit),
            None => None,
        };
        match grown {
            Some(v) => {
                value = v;
            },
            None => {
                proof {
                    if is_number(body) {
                        number_grows(body, i - start + 1);
                    }
                }
                return None;
            },
        }
        i += 1;
    }
    assert(body.take(i - start) =~= body);
    Some(value)
}

// ----------------------------------------------------------- joining, quoting

/// The parts in order, with `sep` between any two neighbours.
pub open spec fn joined(parts: Seq<Seq<char>>, sep: Seq<char>) -> Seq<char>
    decreases parts.len(),
{
    if parts.len() == 0 {
        Seq::empty()
    } else if parts.len() == 1 {
        parts[0]
    } else {
        joined(parts.drop_last(), sep) + sep + parts.last()
    }
}

/// The parts in order, with `sep` between any two neighbours.
pub fn join(parts: &Vec<String>, sep: &str) -> (s: String)
    ensures
        s@ == joined(texts(parts@), sep@),
{
    let mut s = String::new();
    let mut i: usize = 0;
    let ghost all = texts(parts@);
    while i < parts.len()
        invariant
            all == texts(parts@),
            i <= parts@.len(),
            s@ == joined(all.take(i as int), sep@),
        decreases parts@.len() - i,
    {
        proof {
            assert(all.take(i + 1).drop_last() == all.take(i as int));
            assert(all.take(i + 1).last() == parts@[i as int]@);
        }
        if i > 0 {
            s.append(sep);
        }
        s.append(parts[i].as_str());
        assert(s@ =~= joined(all.take(i + 1), sep@));
        i += 1;
    }
    assert(all.take(parts@.len() as int) == all);
    s
}

/// `s` with every apostrophe doubled.
pub open spec fn apostrophes_doubled(s: Seq<char>) -> Seq<char>
    decreases s.len(),
{
    if s.len() == 0 {
        Seq::empty()
    } else if s.last() == '\'' {
        apostrophes_doubled(s.drop_last()).push('\'').push('\'')
    } else {
        apostrophes_doubled(s.drop_last()).push(s.last())
    }
}

/// `s` with every apostrophe doubled.
pub fn double_apostrophes(s: &str) -> (r: String)
    ensures
        r@ == apostrophes_doubled(s@),
{
    let chars = chars_of(s);
    let mut r = String::new();
    let mut i: usize = 0;
    while i < chars.len()
        invariant
            chars@ == s@,
            i <= chars@.len(),
            r@ == apostrophes_doubled(s@.take(i as int)),
        decreases chars@.len() - i,
    {
        proof {
            assert(s@.take(i + 1).drop_last() == s@.take(i as int));
            assert(s@.take(i + 1).last() == s@[i as int]);
        }
        if chars[i] == '\'' {
            r.push('\'');
        }
        r.push(chars[i]);
        i += 1;
    }
    assert(s@.take(s@.len() as int) == s@);
    r
}

} // verus!
