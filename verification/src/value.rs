//! Typed option values: the five kinds, the grammar of each kind's raw
//! text, and the accessors that narrow a value to one kind.

use crate::error::{Error, ErrorView};
use crate::text::{is_space, spells, trim, trim_end, trim_start, trimmed};
use vstd::prelude::*;

verus! {

/// The kind of value that an option holds.
#[derive(Clone, Copy, Debug, PartialEq, Eq, Structural)]
pub enum OptionKind {
    Str,
    Bool,
    Char,
    Int,
    Path,
}

impl OptionKind {
    /// The kind that a type token of the schema stands for.
    pub open spec fn of_token(token: Seq<char>) -> Option<OptionKind> {
        if token == "str"@ {
            Some(OptionKind::Str)
        } else if token == "bool"@ {
            Some(OptionKind::Bool)
        } else if token == "char"@ {
            Some(OptionKind::Char)
        } else if token == "int"@ {
            Some(OptionKind::Int)
        } else if token == "path"@ {
            Some(OptionKind::Path)
        } else {
            None
        }
    }

    /// The name under which the kind appears in a description.
    pub open spec fn name(self) -> Seq<char> {
        match self {
            OptionKind::Str => "string"@,
            OptionKind::Bool => "boolean"@,
            OptionKind::Char => "char"@,
            OptionKind::Int => "integer"@,
            OptionKind::Path => "path"@,
        }
    }

    /// The kind that `token` stands for, if it is one of the five type
    /// tokens.
    pub fn from_token(token: &Vec<char>) -> (r: Option<OptionKind>)
        ensures
            r == Self::of_token(token@),
    {
        if spells(token, "str") {
            Some(OptionKind::Str)
        } else if spells(token, "bool") {
            Some(OptionKind::Bool)
        } else if spells(token, "char") {
            Some(OptionKind::Char)
        } else if spells(token, "int") {
            Some(OptionKind::Int)
        } else if spells(token, "path") {
            Some(OptionKind::Path)
        } else {
            None
        }
    }

    /// The name under which the kind appears in a description.
    pub fn display_name(self) -> (r: &'static str)
        ensures
            r@ == self.name(),
    {
        match self {
            OptionKind::Str => "string",
            OptionKind::Bool => "boolean",
            OptionKind::Char => "char",
            OptionKind::Int => "integer",
            OptionKind::Path => "path",
        }
    }
}

/// The value of one option.
#[derive(Debug, PartialEq)]
pub enum BookOption {
    /// A string.
    String(String),
    /// A boolean.
    Bool(bool),
    /// A character.
    Char(char),
    /// An integer.
    Int(i32),
    /// A path: a string that is later resolved against a root directory.
    Path(String),
}

/// A `BookOption` with the text of a string or path in place of it.
pub enum OptionValue {
    Str(Seq<char>),
    Bool(bool),
    Char(char),
    Int(i32),
    Path(Seq<char>),
}

impl OptionValue {
    /// The kind of the value.
    pub open spec fn kind(self) -> OptionKind {
        match self {
            OptionValue::Str(_) => OptionKind::Str,
            OptionValue::Bool(_) => OptionKind::Bool,
            OptionValue::Char(_) => OptionKind::Char,
            OptionValue::Int(_) => OptionKind::Int,
            OptionValue::Path(_) => OptionKind::Path,
        }
    }
}

impl View for BookOption {
    type V = OptionValue;

    open spec fn view(&self) -> OptionValue {
        match self {
            BookOption::String(s) => OptionValue::Str(s@),
            BookOption::Bool(b) => OptionValue::Bool(*b),
            BookOption::Char(c) => OptionValue::Char(*c),
            BookOption::Int(i) => OptionValue::Int(*i),
            BookOption::Path(s) => OptionValue::Path(s@),
        }
    }
}

/// The text that `{:?}` formatting gives for a value.
pub uninterp spec fn debug_text(value: OptionValue) -> Seq<char>;

/// Formats the value with `{:?}`, through the `Debug` impl that `derive`
/// wrote for `BookOption`. The text depends on nothing but the value.
#[verifier::external_body]
fn debug_string(value: &BookOption) -> (s: String)
    ensures
        s@ == debug_text(value@),
{
    format!("{:?}", value)
}

/// The message for a value read as a kind that it does not have; `expected`
/// names that kind with its article.
pub open spec fn is_not(value: OptionValue, expected: Seq<char>) -> Seq<char> {
    debug_text(value) + " is not "@ + expected
}

/// The error for a value that was read as a kind that it does not have:
/// `shown` is the value as a reader sees it, and `expected` names the kind
/// that was asked for, with its article.
pub fn mismatch_error(shown: String, expected: &str) -> (e: Error)
    ensures
        e@ == ErrorView::BookOption(shown@ + " is not "@ + expected@),
{
    let mut text = shown;
    text.append(" is not ");
    text.append(expected);
    Error::BookOption(text)
}

fn mismatch(value: &BookOption, expected: &str) -> (e: Error)
    ensures
        e@ == ErrorView::BookOption(is_not(value@, expected@)),
{
    mismatch_error(debug_string(value), expected)
}

impl BookOption {
    /// The string, if the value is one.
    pub fn as_str(&self) -> (r: Result<&str, Error>)
        ensures
            match r {
                Ok(s) => self@ == OptionValue::Str(s@),
                Err(e) => !(self@ is Str) && e@ == ErrorView::BookOption(
                    is_not(self@, "a string"@),
                ),
            },
    {
        match self {
            BookOption::String(s) => Ok(s.as_str()),
            _ => Err(mismatch(self, "a string")),
        }
    }

    /// The path as it was stored, if the value is one.
    pub fn as_path(&self) -> (r: Result<&str, Error>)
        ensures
            match r {
                Ok(s) => self@ == OptionValue::Path(s@),
                Err(e) => !(self@ is Path) && e@ == ErrorView::BookOption(
                    is_not(self@, "a path"@),
                ),
            },
    {
        match self {
            BookOption::Path(s) => Ok(s.as_str()),
            _ => Err(mismatch(self, "a path")),
        }
    }

    /// The boolean, if the value is one.
    pub fn as_bool(&self) -> (r: Result<bool, Error>)
        ensures
            match r {
                Ok(b) => self@ == OptionValue::Bool(b),
                Err(e) => !(self@ is Bool) && e@ == ErrorView::BookOption(
                    is_not(self@, "a bool"@),
                ),
            },
    {
        match self {
            BookOption::Bool(b) => Ok(*b),
            _ => Err(mismatch(self, "a bool")),
        }
    }

    /// The character, if the value is one.
    pub fn as_char(&self) -> (r: Result<char, Error>)
        ensures
            match r {
                Ok(c) => self@ == OptionValue::Char(c),
                Err(e) => !(self@ is Char) && e@ == ErrorView::BookOption(
                    is_not(self@, "a char"@),
                ),
            },
    {
        match self {
            BookOption::Char(c) => Ok(*c),
            _ => Err(mismatch(self, "a char")),
        }
    }

    /// The integer, if the value is one.
    pub fn as_i32(&self) -> (r: Result<i32, Error>)
        ensures
            match r {
                Ok(i) => self@ == OptionValue::Int(i),
                Err(e) => !(self@ is Int) && e@ == ErrorView::BookOption(
                    is_not(self@, "an i32"@),
                ),
            },
    {
        match self {
            BookOption::Int(i) => Ok(*i),
            _ => Err(mismatch(self, "an i32")),
        }
    }
}

/// The boolean that `raw` writes: exactly `true` or `false`.
pub open spec fn parse_bool(raw: Seq<char>) -> Option<bool> {
    if raw == "true"@ {
        Some(true)
    } else if raw == "false"@ {
        Some(false)
    } else {
        None
    }
}

/// The character that `raw` writes: after trimming, a single quote, one
/// character that is not a single quote, and a single quote.
pub open spec fn parse_char(raw: Seq<char>) -> Option<char> {
    let t = trim(raw);
    if t.len() == 3 && t[0] == '\'' && t[1] != '\'' && t[2] == '\'' {
        Some(t[1])
    } else {
        None
    }
}

/// Whether `c` is one of the ten decimal digits.
pub open spec fn is_digit(c: char) -> bool {
    '0' <= c <= '9'
}

/// The number that a run of decimal digits writes.
pub open spec fn number(digits: Seq<char>) -> int
    decreases digits.len(),
{
    if digits.len() == 0 {
        0
    } else {
        10 * number(digits.drop_last()) + (digits.last() as int - '0' as int)
    }
}

/// Whether `raw` begins with a sign, `+` or `-`.
pub open spec fn has_sign(raw: Seq<char>) -> bool {
    raw.len() > 0 && (raw[0] == '-' || raw[0] == '+')
}

/// What follows the sign of `raw`, or all of `raw` where it has none.
pub open spec fn digits_of(raw: Seq<char>) -> Seq<char> {
    if has_sign(raw) {
        raw.skip(1)
    } else {
        raw
    }
}

/// Whether every character of `s` is a decimal digit.
pub open spec fn all_digits(s: Seq<char>) -> bool {
    forall|i: int| 0 <= i < s.len() ==> is_digit(#[trigger] s[i])
}

/// The integer that `raw` writes in base 10: an optional sign, `+` or `-`,
/// and one or more decimal digits, with a value that fits in 32 bits.
pub open spec fn parse_int(raw: Seq<char>) -> Option<i32> {
    let digits = digits_of(raw);
    let n = if has_sign(raw) && raw[0] == '-' {
        -number(digits)
    } else {
        number(digits)
    };
    if digits.len() > 0 && all_digits(digits) && i32::MIN <= n <= i32::MAX {
        Some(n as i32)
    } else {
        None
    }
}

/// The value of kind `kind` that `raw` writes. Strings and paths are taken
/// as they stand; the other kinds have a grammar.
pub open spec fn typed(kind: OptionKind, raw: Seq<char>) -> Option<OptionValue> {
    match kind {
        OptionKind::Str => Some(OptionValue::Str(raw)),
        OptionKind::Path => Some(OptionValue::Path(raw)),
        OptionKind::Char => match parse_char(raw) {
            Some(c) => Some(OptionValue::Char(c)),
            None => None,
        },
        OptionKind::Bool => match parse_bool(raw) {
            Some(b) => Some(OptionValue::Bool(b)),
            None => None,
        },
        OptionKind::Int => match parse_int(raw) {
            Some(i) => Some(OptionValue::Int(i)),
            None => None,
        },
    }
}

/// A character between single quotes reads as that character; a single
/// quote cannot be written so.
pub proof fn lemma_quoted_char(c: char)
    ensures
        c != '\'' ==> parse_char(seq!['\'', c, '\'']) == Some(c),
        parse_char(seq!['\'', '\'', '\'']) is None,
{
    let s = seq!['\'', c, '\''];
    assert(!is_space('\''));
    assert(trim_start(s) == s);
    assert(trim_end(s) == s);
}

/// The boolean that `raw` writes.
pub fn read_bool(raw: &Vec<char>) -> (r: Option<bool>)
    ensures
        r == parse_bool(raw@),
{
    if spells(raw, "true") {
        Some(true)
    } else if spells(raw, "false") {
        Some(false)
    } else {
        None
    }
}

/// The character that `raw` writes.
pub fn read_char(raw: &Vec<char>) -> (r: Option<char>)
    ensures
        r == parse_char(raw@),
{
    let t = trimmed(raw);
    if t.len() == 3 && t[0] == '\'' && t[1] != '\'' && t[2] == '\'' {
        Some(t[1])
    } else {
        None
    }
}

/// The number of a prefix bounds the number of the whole run from below.
proof fn lemma_number_grows(digits: Seq<char>, k: int)
    requires
        0 <= k <= digits.len(),
        all_digits(digits),
    ensures
        0 <= number(digits.take(k)) <= number(digits),
    decreases digits.len() - k,
{
    lemma_number_nonnegative(digits.take(k));
    if k < digits.len() {
        lemma_number_grows(digits, k + 1);
        assert(digits.take(k + 1).drop_last() =~= digits.take(k));
    } else {
        assert(digits.take(k) =~= digits);
    }
}

proof fn lemma_number_nonnegative(digits: Seq<char>)
    requires
        all_digits(digits),
    ensures
        0 <= number(digits),
    decreases digits.len(),
{
    if digits.len() > 0 {
        lemma_number_nonnegative(digits.drop_last());
    }
}

/// The integer that `raw` writes.
pub fn read_int(raw: &Vec<char>) -> (r: Option<i32>)
    ensures
        r == parse_int(raw@),
{
    let n = raw.len();
    if n == 0 {
        return None;
    }
    let negative = raw[0] == '-';
    let start: usize = if negative || raw[0] == '+' {
        1
    } else {
        0
    };
    let ghost digits = digits_of(raw@);
    assert(digits =~= raw@.skip(start as int));
    if start == n {
        return None;
    }
    let mut total: i64 = 0;
    let mut i: usize = start;
    assert(digits.take(0) =~= Seq::<char>::empty());
    while i < n
        invariant
            start <= i <= n,
            n == raw.len(),
            digits == digits_of(raw@),
            digits == raw@.skip(start as int),
            negative == (has_sign(raw@) && raw@[0] == '-'),
            all_digits(digits.take(i - start)),
            total == number(digits.take(i - start)),
            0 <= total <= 2147483648,
        decreases n - i,
    {
        let c = raw[i];
        let ghost k = i - start;
        assert(digits[k] == c);
        if c < '0' || c > '9' {
            assert(!is_digit(digits[k]));
            return None;
        }
        let d: i64 = (c as u32 - '0' as u32) as i64;
        assert(digits.take(k + 1).drop_last() =~= digits.take(k));
        assert(digits.take(k + 1).last() == c);
        let next: i64 = total * 10 + d;
        assert(next == number(digits.take(k + 1)));
        if next > 2147483648 {
            proof {
                if all_digits(digits) {
                    lemma_number_grows(digits, k + 1);
                }
            }
            return None;
        }
        total = next;
        i += 1;
        assert forall|j: int| 0 <= j < i - start implies is_digit(
            #[trigger] digits.take(i - start)[j],
        ) by {
            if j < k {
                assert(digits.take(k)[j] == digits[j]);
            }
        }
    }
    assert(digits.take(n - start) =~= digits);
    if negative {
        Some((-total) as i32)
    } else if total <= 2147483647 {
        Some(total as i32)
    } else {
        None
    }
}

} // verus!
