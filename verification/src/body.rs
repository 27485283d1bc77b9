//! The body of a balance answer.
//!
//! The body is taken when it is a JSON document that is an object, and
//! exactly one of the object's own members is named `balance` and holds a
//! whole number: digits with or without a minus before them, no fraction and
//! no exponent, within 64 bits with sign. The name counts however it is
//! written, plainly or with its letters escaped. The other members may hold
//! any JSON value, arrays and objects to any depth; a member of the same
//! name deeper down is not the balance.
//!
//! Anything else is malformed: a body that is not UTF-8, is no JSON document
//! or is no object, one without a balance, one with two, and one whose
//! balance is a string, a fraction, a number with an exponent, or a number
//! beyond 64 bits. The reading is a whole number of the smallest unit, so a
//! balance written with a fraction is refused, not rounded.

use vstd::prelude::*;
use vstd::utf8::valid_utf8;
use crate::bytecode::digit_value;

verus! {

/// White space between the parts of a document: space, tab, line feed,
/// carriage return.
pub open spec fn is_space(b: u8) -> bool {
    b == 0x20 || b == 0x09 || b == 0x0a || b == 0x0d
}

/// A decimal digit.
pub open spec fn is_digit(b: u8) -> bool {
    0x30 <= b <= 0x39
}

/// A hexadecimal digit, in either case.
pub open spec fn is_hex_digit(b: u8) -> bool {
    is_digit(b) || 0x41 <= b <= 0x46 || 0x61 <= b <= 0x66
}

/// The letters that may follow a backslash on their own: `"`, `\`, `/`, `b`,
/// `f`, `n`, `r`, `t`.
pub open spec fn is_escape(b: u8) -> bool {
    b == 0x22 || b == 0x5c || b == 0x2f || b == 0x62 || b == 0x66 || b == 0x6e || b == 0x72 || b
        == 0x74
}

/// Where the white space that starts at `i` ends.
pub open spec fn space_end(s: Seq<u8>, i: int) -> int
    decreases s.len() - i,
{
    if 0 <= i < s.len() && is_space(s[i]) {
        space_end(s, i + 1)
    } else {
        i
    }
}

/// Where the digits that start at `i` end.
pub open spec fn digits_end(s: Seq<u8>, i: int) -> int
    decreases s.len() - i,
{
    if 0 <= i < s.len() && is_digit(s[i]) {
        digits_end(s, i + 1)
    } else {
        i
    }
}

/// Where a string ends whose opening quote has been read and whose content
/// goes on at `j`: behind its closing quote. Control characters must be
/// escaped, and a backslash must start a known escape.
pub open spec fn string_body_end(s: Seq<u8>, j: int) -> Option<int>
    decreases s.len() - j,
{
    if j < 0 || j >= s.len() {
        None
    } else if s[j] == 0x22 {
        Some(j + 1)
    } else if s[j] == 0x5c {
        if j + 1 < s.len() && is_escape(s[j + 1]) {
            string_body_end(s, j + 2)
        } else if j + 5 < s.len() && s[j + 1] == 0x75 && is_hex_digit(s[j + 2]) && is_hex_digit(
            s[j + 3],
        ) && is_hex_digit(s[j + 4]) && is_hex_digit(s[j + 5]) {
            string_body_end(s, j + 6)
        } else {
            None
        }
    } else if s[j] < 0x20 {
        None
    } else {
        string_body_end(s, j + 1)
    }
}

/// Where the string that starts at `i` ends, if one starts there.
pub open spec fn string_end(s: Seq<u8>, i: int) -> Option<int> {
    if 0 <= i < s.len() && s[i] == 0x22 {
        string_body_end(s, i + 1)
    } else {
        None
    }
}

/// Where the fraction at `i` ends; no fraction ends where it starts.
pub open spec fn fraction_end(s: Seq<u8>, i: int) -> Option<int> {
    if 0 <= i < s.len() && s[i] == 0x2e {
        if digits_end(s, i + 1) > i + 1 {
            Some(digits_end(s, i + 1))
        } else {
            None
        }
    } else {
        Some(i)
    }
}

/// Where the exponent at `i` ends; no exponent ends where it starts.
pub open spec fn exponent_end(s: Seq<u8>, i: int) -> Option<int> {
    if 0 <= i < s.len() && (s[i] == 0x65 || s[i] == 0x45) {
        let digits = if i + 1 < s.len() && (s[i + 1] == 0x2b || s[i + 1] == 0x2d) {
            i + 2
        } else {
            i + 1
        };
        if digits_end(s, digits) > digits {
            Some(digits_end(s, digits))
        } else {
            None
        }
    } else {
        Some(i)
    }
}

/// Where the number that starts at `i` ends: an optional minus, digits
/// without a needless leading zero, an optional fraction, an optional
/// exponent.
pub open spec fn number_end(s: Seq<u8>, i: int) -> Option<int> {
    let start = if 0 <= i < s.len() && s[i] == 0x2d {
        i + 1
    } else {
        i
    };
    let whole = digits_end(s, start);
    if whole == start {
        None
    } else if s[start] == 0x30 && whole > start + 1 {
        None
    } else {
        match fraction_end(s, whole) {
            Some(fraction) => exponent_end(s, fraction),
            None => None,
        }
    }
}

/// `true` stands at `i`.
pub open spec fn true_at(s: Seq<u8>, i: int) -> bool {
    0 <= i && i + 4 <= s.len() && s[i] == 0x74 && s[i + 1] == 0x72 && s[i + 2] == 0x75 && s[i + 3]
        == 0x65
}

/// `false` stands at `i`.
pub open spec fn false_at(s: Seq<u8>, i: int) -> bool {
    0 <= i && i + 5 <= s.len() && s[i] == 0x66 && s[i + 1] == 0x61 && s[i + 2] == 0x6c && s[i + 3]
        == 0x73 && s[i + 4] == 0x65
}

/// `null` stands at `i`.
pub open spec fn null_at(s: Seq<u8>, i: int) -> bool {
    0 <= i && i + 4 <= s.len() && s[i] == 0x6e && s[i + 1] == 0x75 && s[i + 2] == 0x6c && s[i + 3]
        == 0x6c
}

/// Where the plain value that starts at `i` ends: a string, a number,
/// `true`, `false` or `null`.
pub open spec fn plain_end(s: Seq<u8>, i: int) -> Option<int> {
    if i < 0 || i >= s.len() {
        None
    } else if s[i] == 0x22 {
        string_end(s, i)
    } else if s[i] == 0x2d || is_digit(s[i]) {
        number_end(s, i)
    } else if true_at(s, i) {
        Some(i + 4)
    } else if false_at(s, i) {
        Some(i + 5)
    } else if null_at(s, i) {
        Some(i + 4)
    } else {
        None
    }
}

/// An array or an object that has been opened and not yet closed.
#[derive(Clone, Copy, Debug, PartialEq, Eq)]
pub enum Bracket {
    Array,
    Object,
}

/// What may stand next inside an open array or object.
#[derive(Clone, Copy, Debug, PartialEq, Eq)]
pub enum Expect {
    /// Behind the opening bracket: the first item, or the closing bracket.
    First,
    /// Behind a comma: an item.
    Item,
    /// Behind an item: a comma, or the closing bracket.
    Separator,
}

impl Bracket {
    /// The byte that closes the bracket.
    pub open spec fn closer(self) -> u8 {
        match self {
            Bracket::Array => 0x5d,
            Bracket::Object => 0x7d,
        }
    }
}

/// The bracket that the byte opens, if it opens one.
pub open spec fn opened_by(b: u8) -> Option<Bracket> {
    if b == 0x5b {
        Some(Bracket::Array)
    } else if b == 0x7b {
        Some(Bracket::Object)
    } else {
        None
    }
}

/// Where the value of the item at `i` starts: in an array, at `i` itself; in
/// an object, behind the item's name and the colon.
pub open spec fn item_value(s: Seq<u8>, i: int, inside: Bracket) -> Option<int> {
    match inside {
        Bracket::Array => Some(i),
        Bracket::Object => match string_end(s, i) {
            Some(name_end) => if space_end(s, name_end) < s.len() && s[space_end(s, name_end)]
                == 0x3a {
                Some(space_end(s, space_end(s, name_end) + 1))
            } else {
                None
            },
            None => None,
        },
    }
}

/// Where the outermost of the brackets in `open` is closed, read on from
/// `i`, where `expect` says what may stand. `open` lists the brackets that
/// are open at `i`, the innermost last. An item is a value, in an object
/// with its name and a colon before it; a value that is itself an array or
/// an object opens one bracket more, and its closing bracket closes it
/// again.
pub open spec fn nested_end(s: Seq<u8>, i: int, open: Seq<Bracket>, expect: Expect) -> Option<int>
    decreases s.len() - i,
    via nested_end_ends
{
    if open.len() == 0 || i < 0 || i >= s.len() {
        None
    } else if !(expect is Item) && s[i] == open.last().closer() {
        if open.len() == 1 {
            Some(i + 1)
        } else {
            nested_end(s, space_end(s, i + 1), open.drop_last(), Expect::Separator)
        }
    } else if expect is Separator {
        if s[i] == 0x2c {
            nested_end(s, space_end(s, i + 1), open, Expect::Item)
        } else {
            None
        }
    } else {
        match item_value(s, i, open.last()) {
            None => None,
            Some(value) => if value < 0 || value >= s.len() {
                None
            } else {
                match opened_by(s[value]) {
                    Some(bracket) => nested_end(
                        s,
                        space_end(s, value + 1),
                        open.push(bracket),
                        Expect::First,
                    ),
                    None => match plain_end(s, value) {
                        Some(end) => nested_end(s, space_end(s, end), open, Expect::Separator),
                        None => None,
                    },
                }
            },
        }
    }
}

#[via_fn]
proof fn nested_end_ends(s: Seq<u8>, i: int, open: Seq<Bracket>, expect: Expect) {
    lemma_space_ends_later(s, i + 1);
    if open.len() > 0 {
        lemma_item_value_not_before(s, i, open.last());
        match item_value(s, i, open.last()) {
            Some(value) => {
                lemma_space_ends_later(s, value + 1);
                lemma_plain_ends_later(s, value);
                match plain_end(s, value) {
                    Some(end) => {
                        lemma_space_ends_later(s, end);
                    },
                    None => {},
                }
            },
            None => {},
        }
    }
}

/// Where the value that starts at `i` ends: a plain value, or an array or
/// an object with all that is nested in it.
pub open spec fn value_end(s: Seq<u8>, i: int) -> Option<int> {
    if i < 0 || i >= s.len() {
        None
    } else {
        match opened_by(s[i]) {
            Some(bracket) => nested_end(s, space_end(s, i + 1), seq![bracket], Expect::First),
            None => plain_end(s, i),
        }
    }
}

/// The number that the digits from `i` up to `j` spell.
pub open spec fn number_value(s: Seq<u8>, i: int, j: int) -> nat
    decreases j - i,
{
    if j <= i {
        0
    } else {
        (10 * number_value(s, i, j - 1) + (s[j - 1] - 0x30)) as nat
    }
}

/// Where the digits of the number at `i` start: behind its minus, if it has
/// one.
pub open spec fn digits_start(s: Seq<u8>, i: int) -> int {
    if 0 <= i < s.len() && s[i] == 0x2d {
        i + 1
    } else {
        i
    }
}

/// Where the whole number that starts at `i` ends: a number that is digits,
/// with or without a minus before them, and nothing else.
pub open spec fn whole_end(s: Seq<u8>, i: int) -> Option<int> {
    let digits = digits_start(s, i);
    if digits_end(s, digits) > digits && number_end(s, i) == Some(digits_end(s, digits)) {
        Some(digits_end(s, digits))
    } else {
        None
    }
}

/// The whole number that stands from `i` up to `end`.
pub open spec fn whole_value(s: Seq<u8>, i: int, end: int) -> int {
    if digits_start(s, i) > i {
        -(number_value(s, i + 1, end) as int)
    } else {
        number_value(s, i, end) as int
    }
}

/// The letters of the name `balance`.
pub open spec fn balance_letters() -> Seq<u8> {
    seq![0x62, 0x61, 0x6c, 0x61, 0x6e, 0x63, 0x65]
}

/// Where `letter` ends that is written at `j`: plainly, or escaped as `\u00`
/// and the two hexadecimal digits of its code.
pub open spec fn letter_end(s: Seq<u8>, j: int, letter: u8) -> Option<int> {
    if 0 <= j < s.len() && s[j] == letter {
        Some(j + 1)
    } else if 0 <= j && j + 5 < s.len() && s[j] == 0x5c && s[j + 1] == 0x75 && s[j + 2] == 0x30
        && s[j + 3] == 0x30 && digit_value(s[j + 4]) == Some((letter / 16) as u8) && digit_value(
        s[j + 5],
    ) == Some((letter % 16) as u8) {
        Some(j + 6)
    } else {
        None
    }
}

/// Where the letters of `word` from the `n`-th on end, written from `j` on.
pub open spec fn letters_end(s: Seq<u8>, j: int, word: Seq<u8>, n: int) -> Option<int>
    decreases word.len() - n,
{
    if n < 0 || n >= word.len() {
        Some(j)
    } else {
        match letter_end(s, j, word[n]) {
            Some(next) => letters_end(s, next, word, n + 1),
            None => None,
        }
    }
}

/// The string from `i` up to `k` is the name `balance`: between its quotes
/// stand the seven letters, each plainly or escaped, and nothing else.
pub open spec fn is_balance_name(s: Seq<u8>, i: int, k: int) -> bool {
    0 <= i < k <= s.len() && s[i] == 0x22 && letters_end(s, i + 1, balance_letters(), 0) == Some(
        k - 1,
    ) && s[k - 1] == 0x22
}

/// The value of a member at `i`: where it ends, and the balance known then.
/// The member named `balance` must hold a whole number within 64 bits with
/// sign, and must be the first of its name; any other member may hold any
/// value.
pub open spec fn member_value(s: Seq<u8>, i: int, named: bool, found: Option<i64>) -> Option<
    (int, Option<i64>),
> {
    if named {
        match whole_end(s, i) {
            Some(end) => if found is None && i64::MIN <= whole_value(s, i, end) <= i64::MAX {
                Some((end, Some(whole_value(s, i, end) as i64)))
            } else {
                None
            },
            None => None,
        }
    } else {
        match value_end(s, i) {
            Some(end) => Some((end, found)),
            None => None,
        }
    }
}

/// The members from `i` to the end of the document, `found` being the
/// balance seen so far: the balance of the whole, or nothing where the rest
/// is malformed.
pub open spec fn members_from(s: Seq<u8>, i: int, found: Option<i64>) -> Option<Option<i64>>
    decreases s.len() - i,
    via members_from_ends
{
    match string_end(s, i) {
        None => None,
        Some(name_end) => {
            let colon = space_end(s, name_end);
            if colon < s.len() && s[colon] == 0x3a {
                let value = space_end(s, colon + 1);
                match member_value(s, value, is_balance_name(s, i, name_end), found) {
                    None => None,
                    Some((end, known)) => {
                        let after = space_end(s, end);
                        if after < s.len() && s[after] == 0x2c {
                            members_from(s, space_end(s, after + 1), known)
                        } else if after < s.len() && s[after] == 0x7d {
                            if space_end(s, after + 1) == s.len() {
                                Some(known)
                            } else {
                                None
                            }
                        } else {
                            None
                        }
                    },
                }
            } else {
                None
            }
        },
    }
}

#[via_fn]
proof fn members_from_ends(s: Seq<u8>, i: int, found: Option<i64>) {
    match string_end(s, i) {
        None => {},
        Some(name_end) => {
            lemma_string_body_ends_later(s, i + 1);
            let colon = space_end(s, name_end);
            lemma_space_ends_later(s, name_end);
            let value = space_end(s, colon + 1);
            lemma_space_ends_later(s, colon + 1);
            match member_value(s, value, is_balance_name(s, i, name_end), found) {
                None => {},
                Some((end, known)) => {
                    lemma_value_ends_later(s, value);
                    lemma_digits_end_later(s, digits_start(s, value));
                    let after = space_end(s, end);
                    lemma_space_ends_later(s, end);
                    lemma_space_ends_later(s, after + 1);
                },
            }
        },
    }
}

/// The balance in `body`, if the body is a document with exactly one.
pub open spec fn balance_in(body: Seq<u8>) -> Option<i64> {
    let open = space_end(body, 0);
    if !valid_utf8(body) {
        None
    } else if open < body.len() && body[open] == 0x7b {
        let first = space_end(body, open + 1);
        if first < body.len() && body[first] == 0x7d {
            None
        } else {
            match members_from(body, first, None) {
                Some(found) => found,
                None => None,
            }
        }
    } else {
        None
    }
}

/// White space ends at or behind where it starts, and within the text.
pub proof fn lemma_space_ends_later(s: Seq<u8>, i: int)
    ensures
        i <= space_end(s, i),
        i <= s.len() ==> space_end(s, i) <= s.len(),
    decreases s.len() - i,
{
    if 0 <= i < s.len() && is_space(s[i]) {
        lemma_space_ends_later(s, i + 1);
    }
}

/// Digits end at or behind where they start, and within the text.
pub proof fn lemma_digits_end_later(s: Seq<u8>, i: int)
    ensures
        i <= digits_end(s, i),
        i <= s.len() ==> digits_end(s, i) <= s.len(),
    decreases s.len() - i,
{
    if 0 <= i < s.len() && is_digit(s[i]) {
        lemma_digits_end_later(s, i + 1);
    }
}

/// A string ends behind where its content starts, and within the text.
pub proof fn lemma_string_body_ends_later(s: Seq<u8>, j: int)
    ensures
        string_body_end(s, j) matches Some(end) ==> j < end <= s.len(),
    decreases s.len() - j,
{
    if j < 0 || j >= s.len() {
    } else if s[j] == 0x22 {
    } else if s[j] == 0x5c {
        if j + 1 < s.len() && is_escape(s[j + 1]) {
            lemma_string_body_ends_later(s, j + 2);
        } else if j + 5 < s.len() {
            lemma_string_body_ends_later(s, j + 6);
        }
    } else if s[j] < 0x20 {
    } else {
        lemma_string_body_ends_later(s, j + 1);
    }
}

/// A number ends behind where it starts, and within the text.
pub proof fn lemma_number_ends_later(s: Seq<u8>, i: int)
    ensures
        number_end(s, i) matches Some(end) ==> i < end <= s.len() && 0 <= i,
{
    let start = if 0 <= i < s.len() && s[i] == 0x2d {
        i + 1
    } else {
        i
    };
    let whole = digits_end(s, start);
    lemma_digits_end_later(s, start);
    if whole > start {
        assert(0 <= start < s.len());
        lemma_digits_end_later(s, whole + 1);
        match fraction_end(s, whole) {
            Some(fraction) => {
                lemma_digits_end_later(s, fraction + 1);
                lemma_digits_end_later(s, fraction + 2);
            },
            None => {},
        }
    }
}

/// A plain value ends behind where it starts, and within the text.
pub proof fn lemma_plain_ends_later(s: Seq<u8>, i: int)
    ensures
        plain_end(s, i) matches Some(end) ==> i < end <= s.len(),
{
    lemma_string_body_ends_later(s, i + 1);
    lemma_number_ends_later(s, i);
}

/// The value of an item starts at the item or behind it, and within the
/// text.
pub proof fn lemma_item_value_not_before(s: Seq<u8>, i: int, inside: Bracket)
    ensures
        item_value(s, i, inside) matches Some(value) ==> i <= value && (i <= s.len() ==> value
            <= s.len()),
{
    match inside {
        Bracket::Array => {},
        Bracket::Object => {
            lemma_string_body_ends_later(s, i + 1);
            match string_end(s, i) {
                Some(name_end) => {
                    lemma_space_ends_later(s, name_end);
                    lemma_space_ends_later(s, space_end(s, name_end) + 1);
                },
                None => {},
            }
        },
    }
}

/// What is nested ends behind where it is read on from, and within the
/// text.
pub proof fn lemma_nested_ends_later(s: Seq<u8>, i: int, open: Seq<Bracket>, expect: Expect)
    ensures
        nested_end(s, i, open, expect) matches Some(end) ==> i < end <= s.len(),
    decreases s.len() - i,
{
    if open.len() == 0 || i < 0 || i >= s.len() {
    } else if !(expect is Item) && s[i] == open.last().closer() {
        if open.len() > 1 {
            lemma_space_ends_later(s, i + 1);
            lemma_nested_ends_later(s, space_end(s, i + 1), open.drop_last(), Expect::Separator);
        }
    } else if expect is Separator {
        if s[i] == 0x2c {
            lemma_space_ends_later(s, i + 1);
            lemma_nested_ends_later(s, space_end(s, i + 1), open, Expect::Item);
        }
    } else {
        lemma_item_value_not_before(s, i, open.last());
        match item_value(s, i, open.last()) {
            None => {},
            Some(value) => if 0 <= value < s.len() {
                lemma_space_ends_later(s, value + 1);
                lemma_plain_ends_later(s, value);
                match opened_by(s[value]) {
                    Some(bracket) => {
                        lemma_nested_ends_later(
                            s,
                            space_end(s, value + 1),
                            open.push(bracket),
                            Expect::First,
                        );
                    },
                    None => match plain_end(s, value) {
                        Some(end) => {
                            lemma_space_ends_later(s, end);
                            lemma_nested_ends_later(
                                s,
                                space_end(s, end),
                                open,
                                Expect::Separator,
                            );
                        },
                        None => {},
                    },
                }
            },
        }
    }
}

/// What is read inside some brackets does not depend on the brackets
/// around them: with `outer` open around `inner`, the reading goes as it goes
/// for `inner` alone, and where `inner` is closed it goes on in `outer`,
/// behind an item.
pub proof fn lemma_outer_brackets_wait(
    s: Seq<u8>,
    i: int,
    outer: Seq<Bracket>,
    inner: Seq<Bracket>,
    expect: Expect,
)
    requires
        inner.len() > 0,
        outer.len() > 0,
    ensures
        nested_end(s, i, outer + inner, expect) == (match nested_end(s, i, inner, expect) {
            Some(end) => nested_end(s, space_end(s, end), outer, Expect::Separator),
            None => None,
        }),
    decreases s.len() - i,
{
    let all = outer + inner;
    assert(all.last() == inner.last());
    if i < 0 || i >= s.len() {
    } else if !(expect is Item) && s[i] == inner.last().closer() {
        lemma_space_ends_later(s, i + 1);
        if inner.len() == 1 {
            assert(all.drop_last() =~= outer);
        } else {
            assert(all.drop_last() =~= outer + inner.drop_last());
            lemma_outer_brackets_wait(
                s,
                space_end(s, i + 1),
                outer,
                inner.drop_last(),
                Expect::Separator,
            );
        }
    } else if expect is Separator {
        if s[i] == 0x2c {
            lemma_space_ends_later(s, i + 1);
            lemma_outer_brackets_wait(s, space_end(s, i + 1), outer, inner, Expect::Item);
        }
    } else {
        lemma_item_value_not_before(s, i, inner.last());
        match item_value(s, i, inner.last()) {
            None => {},
            Some(value) => if 0 <= value < s.len() {
                lemma_space_ends_later(s, value + 1);
                lemma_plain_ends_later(s, value);
                match opened_by(s[value]) {
                    Some(bracket) => {
                        assert(all.push(bracket) =~= outer + inner.push(bracket));
                        lemma_outer_brackets_wait(
                            s,
                            space_end(s, value + 1),
                            outer,
                            inner.push(bracket),
                            Expect::First,
                        );
                    },
                    None => match plain_end(s, value) {
                        Some(end) => {
                            lemma_space_ends_later(s, end);
                            lemma_outer_brackets_wait(
                                s,
                                space_end(s, end),
                                outer,
                                inner,
                                Expect::Separator,
                            );
                        },
                        None => {},
                    },
                }
            },
        }
    }
}

/// An item of an array or an object holds any value, whatever is nested in
/// it: where an item stands, the reading goes on behind the item's value,
/// the white space after it skipped, and expects a comma or the closing
/// bracket there; and it fails where the item holds no value.
pub proof fn law_item_holds_any_value(s: Seq<u8>, i: int, open: Seq<Bracket>, expect: Expect)
    requires
        open.len() > 0,
        0 <= i < s.len(),
        !(expect is Separator),
        expect is First ==> s[i] != open.last().closer(),
    ensures
        nested_end(s, i, open, expect) == (match item_value(s, i, open.last()) {
            Some(value) => match value_end(s, value) {
                Some(end) => nested_end(s, space_end(s, end), open, Expect::Separator),
                None => None,
            },
            None => None,
        }),
{
    match item_value(s, i, open.last()) {
        None => {},
        Some(value) => if 0 <= value < s.len() {
            match opened_by(s[value]) {
                Some(bracket) => {
                    assert(open.push(bracket) =~= open + seq![bracket]);
                    lemma_outer_brackets_wait(
                        s,
                        space_end(s, value + 1),
                        open,
                        seq![bracket],
                        Expect::First,
                    );
                },
                None => {},
            }
        },
    }
}

/// Behind an item stands a comma, after which the next item follows, or the
/// closing bracket, which ends the value where it closes the outermost
/// bracket; an empty array or object is closed at once.
pub proof fn law_items_are_separated_and_closed(
    s: Seq<u8>,
    i: int,
    open: Seq<Bracket>,
    expect: Expect,
)
    requires
        open.len() > 0,
        0 <= i < s.len(),
        !(expect is Item),
    ensures
        s[i] == open.last().closer() ==> nested_end(s, i, open, expect) == (if open.len() == 1 {
            Some(i + 1)
        } else {
            nested_end(s, space_end(s, i + 1), open.drop_last(), Expect::Separator)
        }),
        expect is Separator && s[i] == 0x2c ==> nested_end(s, i, open, expect) == nested_end(
            s,
            space_end(s, i + 1),
            open,
            Expect::Item,
        ),
        expect is Separator && s[i] != 0x2c && s[i] != open.last().closer() ==> nested_end(
            s,
            i,
            open,
            expect,
        ) is None,
{
}

/// A value ends behind where it starts, and within the text.
pub proof fn lemma_value_ends_later(s: Seq<u8>, i: int)
    ensures
        value_end(s, i) matches Some(end) ==> i < end <= s.len(),
{
    lemma_plain_ends_later(s, i);
    if 0 <= i < s.len() {
        lemma_space_ends_later(s, i + 1);
        match opened_by(s[i]) {
            Some(bracket) => {
                lemma_nested_ends_later(s, space_end(s, i + 1), seq![bracket], Expect::First);
            },
            None => {},
        }
    }
}

/// More digits never spell a smaller number.
pub proof fn lemma_number_value_grows(s: Seq<u8>, i: int, j: int, k: int)
    requires
        i <= j <= k <= s.len(),
        0 <= i,
        forall|at: int| i <= at < k ==> is_digit(#[trigger] s[at]),
    ensures
        number_value(s, i, j) <= number_value(s, i, k),
    decreases k - j,
{
    if j < k {
        lemma_number_value_grows(s, i, j, k - 1);
        assert(is_digit(s[k - 1]));
    }
}

/// Everything from `i` up to where the digits end is a digit.
pub proof fn lemma_digits_are_digits(s: Seq<u8>, i: int)
    requires
        0 <= i,
    ensures
        forall|at: int| i <= at < digits_end(s, i) ==> is_digit(#[trigger] s[at]),
    decreases s.len() - i,
{
    if i < s.len() && is_digit(s[i]) {
        lemma_digits_are_digits(s, i + 1);
    }
}

#[verifier::external_type_specification]
#[verifier::external_body]
pub struct ExUtf8Error(std::str::Utf8Error);

/// `std::str::from_utf8`, which takes the bytes for text exactly when they
/// are well-formed UTF-8.
#[verifier::external_body]
fn as_text(bytes: &[u8]) -> (text: Result<&str, std::str::Utf8Error>)
    ensures
        text is Ok <==> valid_utf8(bytes@),
{
    std::str::from_utf8(bytes)
}

/// What a scan found is what the grammar says.
pub open spec fn same_end(said: Option<int>, found: Option<usize>) -> bool {
    match found {
        Some(end) => said == Some(end as int),
        None => said is None,
    }
}

fn skip_space(body: &[u8], i: usize) -> (end: usize)
    requires
        i <= body.len(),
    ensures
        end == space_end(body@, i as int),
        i <= end <= body.len(),
{
    let mut at = i;
    while at < body.len() && (body[at] == 0x20 || body[at] == 0x09 || body[at] == 0x0a || body[at]
        == 0x0d)
        invariant
            i <= at <= body.len(),
            space_end(body@, i as int) == space_end(body@, at as int),
        decreases body.len() - at,
    {
        at = at + 1;
    }
    at
}

fn skip_digits(body: &[u8], i: usize) -> (end: usize)
    requires
        i <= body.len(),
    ensures
        end == digits_end(body@, i as int),
        i <= end <= body.len(),
{
    let mut at = i;
    while at < body.len() && 0x30 <= body[at] && body[at] <= 0x39
        invariant
            i <= at <= body.len(),
            digits_end(body@, i as int) == digits_end(body@, at as int),
        decreases body.len() - at,
    {
        at = at + 1;
    }
    at
}

fn hex_digit(b: u8) -> (yes: bool)
    ensures
        yes == is_hex_digit(b),
{
    (0x30 <= b && b <= 0x39) || (0x41 <= b && b <= 0x46) || (0x61 <= b && b <= 0x66)
}

fn escape(b: u8) -> (yes: bool)
    ensures
        yes == is_escape(b),
{
    b == 0x22 || b == 0x5c || b == 0x2f || b == 0x62 || b == 0x66 || b == 0x6e || b == 0x72 || b
        == 0x74
}

fn scan_string(body: &[u8], i: usize) -> (end: Option<usize>)
    requires
        i <= body.len(),
    ensures
        same_end(string_end(body@, i as int), end),
        end matches Some(k) ==> i < k <= body.len(),
{
    if i >= body.len() || body[i] != 0x22 {
        return None;
    }
    let mut at = i + 1;
    loop
        invariant
            i < at <= body.len(),
            string_end(body@, i as int) == string_body_end(body@, at as int),
        decreases body.len() - at,
    {
        if at >= body.len() {
            return None;
        }
        let b = body[at];
        if b == 0x22 {
            return Some(at + 1);
        } else if b == 0x5c {
            if at + 1 < body.len() && escape(body[at + 1]) {
                at = at + 2;
            } else if body.len() - at > 5 && body[at + 1] == 0x75 && hex_digit(body[at + 2])
                && hex_digit(body[at + 3]) && hex_digit(body[at + 4]) && hex_digit(body[at + 5]) {
                at = at + 6;
            } else {
                return None;
            }
        } else if b < 0x20 {
            return None;
        } else {
            at = at + 1;
        }
    }
}

fn scan_fraction(body: &[u8], i: usize) -> (end: Option<usize>)
    requires
        i <= body.len(),
    ensures
        same_end(fraction_end(body@, i as int), end),
        end matches Some(k) ==> i <= k <= body.len(),
{
    if i < body.len() && body[i] == 0x2e {
        let digits = skip_digits(body, i + 1);
        if digits > i + 1 {
            Some(digits)
        } else {
            None
        }
    } else {
        Some(i)
    }
}

fn scan_exponent(body: &[u8], i: usize) -> (end: Option<usize>)
    requires
        i <= body.len(),
    ensures
        same_end(exponent_end(body@, i as int), end),
        end matches Some(k) ==> i <= k <= body.len(),
{
    if i < body.len() && (body[i] == 0x65 || body[i] == 0x45) {
        let start = if i + 1 < body.len() && (body[i + 1] == 0x2b || body[i + 1] == 0x2d) {
            i + 2
        } else {
            i + 1
        };
        let digits = skip_digits(body, start);
        if digits > start {
            Some(digits)
        } else {
            None
        }
    } else {
        Some(i)
    }
}

fn scan_number(body: &[u8], i: usize) -> (end: Option<usize>)
    requires
        i <= body.len(),
    ensures
        same_end(number_end(body@, i as int), end),
        end matches Some(k) ==> i < k <= body.len(),
{
    let start = if i < body.len() && body[i] == 0x2d {
        i + 1
    } else {
        i
    };
    let whole = skip_digits(body, start);
    if whole == start {
        return None;
    }
    if body[start] == 0x30 && whole > start + 1 {
        return None;
    }
    match scan_fraction(body, whole) {
        Some(fraction) => scan_exponent(body, fraction),
        None => None,
    }
}

fn scan_plain(body: &[u8], i: usize) -> (end: Option<usize>)
    requires
        i <= body.len(),
    ensures
        same_end(plain_end(body@, i as int), end),
        end matches Some(k) ==> i < k <= body.len(),
{
    if i >= body.len() {
        return None;
    }
    let b = body[i];
    let left = body.len() - i;
    if b == 0x22 {
        scan_string(body, i)
    } else if b == 0x2d || (0x30 <= b && b <= 0x39) {
        scan_number(body, i)
    } else if left >= 4 && b == 0x74 && body[i + 1] == 0x72 && body[i + 2] == 0x75 && body[i + 3]
        == 0x65 {
        Some(i + 4)
    } else if left >= 5 && b == 0x66 && body[i + 1] == 0x61 && body[i + 2] == 0x6c && body[i + 3]
        == 0x73 && body[i + 4] == 0x65 {
        Some(i + 5)
    } else if left >= 4 && b == 0x6e && body[i + 1] == 0x75 && body[i + 2] == 0x6c && body[i + 3]
        == 0x6c {
        Some(i + 4)
    } else {
        None
    }
}

fn opens(b: u8) -> (bracket: Option<Bracket>)
    ensures
        bracket == opened_by(b),
{
    if b == 0x5b {
        Some(Bracket::Array)
    } else if b == 0x7b {
        Some(Bracket::Object)
    } else {
        None
    }
}

fn closes(b: u8, inside: Bracket) -> (yes: bool)
    ensures
        yes == (b == inside.closer()),
{
    match inside {
        Bracket::Array => b == 0x5d,
        Bracket::Object => b == 0x7d,
    }
}

fn scan_item_value(body: &[u8], i: usize, inside: Bracket) -> (value: Option<usize>)
    requires
        i <= body.len(),
    ensures
        same_end(item_value(body@, i as int, inside), value),
        value matches Some(v) ==> i <= v <= body.len(),
{
    match inside {
        Bracket::Array => Some(i),
        Bracket::Object => match scan_string(body, i) {
            Some(name_end) => {
                let colon = skip_space(body, name_end);
                if colon < body.len() && body[colon] == 0x3a {
                    Some(skip_space(body, colon + 1))
                } else {
                    None
                }
            },
            None => None,
        },
    }
}

/// Reads on from `at`, behind the bracket `first` that was opened at
/// `start`, to where that bracket is closed. The brackets that are open are
/// kept in a list, so that the depth of the nesting costs memory and no
/// stack.
fn scan_nested(body: &[u8], start: usize, first: Bracket) -> (end: Option<usize>)
    requires
        start < body.len(),
        opened_by(body@[start as int]) == Some(first),
    ensures
        same_end(value_end(body@, start as int), end),
        end matches Some(k) ==> start < k <= body.len(),
{
    let mut open: Vec<Bracket> = Vec::new();
    open.push(first);
    let mut at = skip_space(body, start + 1);
    let mut expect = Expect::First;
    proof {
        assert(open@ =~= seq![first]);
    }
    loop
        invariant
            start < at <= body.len(),
            open.len() >= 1,
            value_end(body@, start as int) == nested_end(body@, at as int, open@, expect),
        decreases body.len() - at,
    {
        if at >= body.len() {
            return None;
        }
        let inside = open[open.len() - 1];
        let b = body[at];
        let closing = match expect {
            Expect::Item => false,
            _ => closes(b, inside),
        };
        let separating = match expect {
            Expect::Separator => true,
            _ => false,
        };
        if closing {
            if open.len() == 1 {
                return Some(at + 1);
            }
            let ghost before = open@;
            open.pop();
            proof {
                assert(open@ =~= before.drop_last());
            }
            at = skip_space(body, at + 1);
            expect = Expect::Separator;
        } else if separating {
            if b != 0x2c {
                return None;
            }
            at = skip_space(body, at + 1);
            expect = Expect::Item;
        } else {
            let value = match scan_item_value(body, at, inside) {
                Some(value) => value,
                None => {
                    return None;
                },
            };
            if value >= body.len() {
                return None;
            }
            match opens(body[value]) {
                Some(bracket) => {
                    open.push(bracket);
                    at = skip_space(body, value + 1);
                    expect = Expect::First;
                },
                None => match scan_plain(body, value) {
                    Some(end) => {
                        at = skip_space(body, end);
                        expect = Expect::Separator;
                    },
                    None => {
                        return None;
                    },
                },
            }
        }
    }
}

fn scan_value(body: &[u8], i: usize) -> (end: Option<usize>)
    requires
        i <= body.len(),
    ensures
        same_end(value_end(body@, i as int), end),
        end matches Some(k) ==> i < k <= body.len(),
{
    if i >= body.len() {
        return None;
    }
    match opens(body[i]) {
        Some(bracket) => scan_nested(body, i, bracket),
        None => scan_plain(body, i),
    }
}

/// The whole number at `i`, if one stands there and fits.
fn read_whole(body: &[u8], i: usize) -> (read: Option<(i64, usize)>)
    requires
        i <= body.len(),
    ensures
        match read {
            Some((amount, end)) => whole_end(body@, i as int) == Some(end as int) && amount
                == whole_value(body@, i as int, end as int) && i < end <= body.len(),
            None => whole_end(body@, i as int) matches Some(end) ==> !(i64::MIN <= whole_value(
                body@,
                i as int,
                end,
            ) <= i64::MAX),
        },
{
    let negative = i < body.len() && body[i] == 0x2d;
    let digits = if negative {
        i + 1
    } else {
        i
    };
    let end = skip_digits(body, digits);
    if end == digits {
        return None;
    }
    match scan_number(body, i) {
        Some(number) => {
            if number != end {
                return None;
            }
        },
        None => {
            return None;
        },
    }
    proof {
        lemma_digits_are_digits(body@, digits as int);
    }
    let mut amount: u64 = 0;
    let mut at = digits;
    while at < end
        invariant
            i <= digits <= at <= end <= body.len(),
            digits == digits_start(body@, i as int),
            amount == number_value(body@, digits as int, at as int),
            forall|k: int| digits <= k < end ==> is_digit(#[trigger] body@[k]),
            whole_end(body@, i as int) == Some(end as int),
        decreases end - at,
    {
        let digit: u64 = (body[at] - 0x30) as u64;
        proof {
            assert(is_digit(body@[at as int]));
            assert(number_value(body@, digits as int, at + 1) == 10 * amount + digit);
            lemma_number_value_grows(body@, digits as int, at + 1, end as int);
        }
        match amount.checked_mul(10) {
            Some(tenfold) => match tenfold.checked_add(digit) {
                Some(next) => {
                    amount = next;
                },
                None => {
                    return None;
                },
            },
            None => {
                return None;
            },
        }
        at = at + 1;
    }
    if negative {
        if amount > 0x8000_0000_0000_0000 {
            None
        } else if amount == 0x8000_0000_0000_0000 {
            Some((i64::MIN, end))
        } else {
            Some((-(amount as i64), end))
        }
    } else if amount > 0x7fff_ffff_ffff_ffff {
        None
    } else {
        Some((amount as i64, end))
    }
}

fn hex_value(b: u8) -> (value: Option<u8>)
    ensures
        value == digit_value(b),
{
    if 0x30 <= b && b <= 0x39 {
        Some(b - 0x30)
    } else if 0x41 <= b && b <= 0x46 {
        Some(b - 0x41 + 10)
    } else if 0x61 <= b && b <= 0x66 {
        Some(b - 0x61 + 10)
    } else {
        None
    }
}

fn is_digit_of(b: u8, value: u8) -> (yes: bool)
    ensures
        yes == (digit_value(b) == Some(value)),
{
    match hex_value(b) {
        Some(found) => found == value,
        None => false,
    }
}

fn read_letter(body: &[u8], j: usize, letter: u8) -> (end: Option<usize>)
    requires
        j <= body.len(),
    ensures
        same_end(letter_end(body@, j as int, letter), end),
        end matches Some(k) ==> j < k <= body.len(),
{
    if j < body.len() && body[j] == letter {
        Some(j + 1)
    } else if body.len() - j > 5 && body[j] == 0x5c && body[j + 1] == 0x75 && body[j + 2] == 0x30
        && body[j + 3] == 0x30 && is_digit_of(body[j + 4], letter / 16) && is_digit_of(
        body[j + 5],
        letter % 16,
    ) {
        Some(j + 6)
    } else {
        None
    }
}

fn balance_name(body: &[u8], i: usize, k: usize) -> (yes: bool)
    requires
        i < k <= body.len(),
    ensures
        yes == is_balance_name(body@, i as int, k as int),
{
    if body[i] != 0x22 {
        return false;
    }
    let letters: [u8; 7] = [0x62, 0x61, 0x6c, 0x61, 0x6e, 0x63, 0x65];
    proof {
        assert(letters@ =~= balance_letters());
    }
    let mut at = i + 1;
    let mut n: usize = 0;
    while n < 7
        invariant
            n <= 7,
            i < at <= body.len(),
            letters@ == balance_letters(),
            letters_end(body@, i + 1, balance_letters(), 0) == letters_end(
                body@,
                at as int,
                balance_letters(),
                n as int,
            ),
        decreases 7 - n,
    {
        match read_letter(body, at, letters[n]) {
            Some(next) => {
                at = next;
            },
            None => {
                return false;
            },
        }
        n = n + 1;
    }
    at < k && at + 1 == k && body[at] == 0x22
}

fn read_member_value(body: &[u8], i: usize, named: bool, found: Option<i64>) -> (read: Option<
    (usize, Option<i64>),
>)
    requires
        i <= body.len(),
    ensures
        match read {
            Some((end, known)) => member_value(body@, i as int, named, found) == Some(
                (end as int, known),
            ) && i < end <= body.len(),
            None => member_value(body@, i as int, named, found) is None,
        },
{
    if named {
        if found.is_some() {
            return None;
        }
        match read_whole(body, i) {
            Some((amount, end)) => Some((end, Some(amount))),
            None => None,
        }
    } else {
        match scan_value(body, i) {
            Some(end) => Some((end, found)),
            None => None,
        }
    }
}

/// Reads the balance out of the body of an answer.
pub fn read_balance(body: &[u8]) -> (found: Option<i64>)
    ensures
        found == balance_in(body@),
{
    match as_text(body) {
        Ok(_) => {},
        Err(_) => {
            return None;
        },
    }
    let open = skip_space(body, 0);
    if open >= body.len() || body[open] != 0x7b {
        return None;
    }
    let first = skip_space(body, open + 1);
    if first < body.len() && body[first] == 0x7d {
        return None;
    }
    let mut at = first;
    let mut found: Option<i64> = None;
    loop
        invariant
            at <= body.len(),
            balance_in(body@) == (match members_from(body@, at as int, found) {
                Some(known) => known,
                None => None,
            }),
        decreases body.len() - at,
    {
        let name_end = match scan_string(body, at) {
            Some(end) => end,
            None => {
                return None;
            },
        };
        let colon = skip_space(body, name_end);
        if colon >= body.len() || body[colon] != 0x3a {
            return None;
        }
        let value = skip_space(body, colon + 1);
        let named = balance_name(body, at, name_end);
        let (end, known) = match read_member_value(body, value, named, found) {
            Some(read) => read,
            None => {
                return None;
            },
        };
        let after = skip_space(body, end);
        if after < body.len() && body[after] == 0x2c {
            at = skip_space(body, after + 1);
            found = known;
        } else if after < body.len() && body[after] == 0x7d {
            let rest = skip_space(body, after + 1);
            if rest == body.len() {
                return known;
            } else {
                return None;
            }
        } else {
            return None;
        }
    }
}

} // verus!
