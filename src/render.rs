//! The multi-line debug rendering of the values that assertions compare.

use vstd::prelude::*;
use vstd::string::{StrSliceExecFns, StringExecFns};

use crate::error::{ErrorView, TestError};

verus! {

/// The decimal digit `d`, for `0 <= d < 10`.
pub open spec fn digit(d: int) -> Seq<char> {
    if d == 0 {
        "0"@
    } else if d == 1 {
        "1"@
    } else if d == 2 {
        "2"@
    } else if d == 3 {
        "3"@
    } else if d == 4 {
        "4"@
    } else if d == 5 {
        "5"@
    } else if d == 6 {
        "6"@
    } else if d == 7 {
        "7"@
    } else if d == 8 {
        "8"@
    } else {
        "9"@
    }
}

/// The decimal notation of `n`, most significant digit first, without leading zeros.
pub open spec fn decimal(n: nat) -> Seq<char>
    decreases n,
{
    if n < 10 {
        digit(n as int)
    } else {
        decimal(n / 10) + digit((n % 10) as int)
    }
}

/// The decimal notation of `v`, with a leading minus sign when it is negative.
pub open spec fn signed_decimal(v: int) -> Seq<char> {
    if v < 0 {
        "-"@ + decimal((-v) as nat)
    } else {
        decimal(v as nat)
    }
}

/// The hexadecimal digit `d`, lower case, for `0 <= d < 16`.
pub open spec fn hex_digit(d: int) -> Seq<char> {
    if d < 10 {
        digit(d)
    } else if d == 10 {
        "a"@
    } else if d == 11 {
        "b"@
    } else if d == 12 {
        "c"@
    } else if d == 13 {
        "d"@
    } else if d == 14 {
        "e"@
    } else {
        "f"@
    }
}

/// The hexadecimal notation of `n`, lower case, without leading zeros.
pub open spec fn hex(n: nat) -> Seq<char>
    decreases n,
{
    if n < 16 {
        hex_digit(n as int)
    } else {
        hex(n / 16) + hex_digit((n % 16) as int)
    }
}

/// Whether a character is a control character: C0 (below U+0020), delete,
/// or C1 (U+0080 to U+009F).
pub open spec fn is_control(c: char) -> bool {
    (c as u32) < 0x20 || (0x7f <= (c as u32) && (c as u32) <= 0x9f)
}

/// How one character is written between the quotes of a debug-rendered string:
/// quote, backslash, line feed, carriage return, tab and NUL are escaped with a
/// backslash; any other control character is written as `\u{..}` with its
/// code in hexadecimal; every other character is written as it is.
pub open spec fn escaped_char(c: char) -> Seq<char> {
    if c == '"' {
        "\\\""@
    } else if c == '\\' {
        "\\\\"@
    } else if c == '\n' {
        "\\n"@
    } else if c == '\r' {
        "\\r"@
    } else if c == '\t' {
        "\\t"@
    } else if c == '\0' {
        "\\0"@
    } else if is_control(c) {
        "\\u{"@ + hex(c as u32 as nat) + "}"@
    } else {
        seq![c]
    }
}

/// A string's characters, each escaped.
pub open spec fn escaped(s: Seq<char>) -> Seq<char>
    decreases s.len(),
{
    if s.len() == 0 {
        Seq::empty()
    } else {
        escaped(s.drop_last()) + escaped_char(s.last())
    }
}

/// `s` with four spaces after each line break.
pub open spec fn padded(s: Seq<char>) -> Seq<char>
    decreases s.len(),
{
    if s.len() == 0 {
        Seq::empty()
    } else {
        padded(s.drop_last()) + if s.last() == '\n' {
            "\n    "@
        } else {
            seq![s.last()]
        }
    }
}

/// `name(value)` in the multi-line debug style: the value on a line of its
/// own, indented by four spaces, followed by a comma.
pub open spec fn wrapped(name: Seq<char>, value: Seq<char>) -> Seq<char> {
    name + "(\n    "@ + padded(value) + ",\n)"@
}

/// The multi-line debug rendering of an error.
pub open spec fn rendered_error(e: ErrorView) -> Seq<char> {
    match e {
        ErrorView::ConditionUnmet(s) => "ConditionUnmet(\n    \""@ + escaped(s) + "\",\n)"@,
        ErrorView::Io(None) => "Io(\n    None,\n)"@,
        ErrorView::Io(Some(c)) => "Io(\n    Some(\n        "@ + signed_decimal(c as int)
            + ",\n    ),\n)"@,
        ErrorView::NotEqual(l, r) => "NotEqual(\n    \""@ + escaped(l) + "\",\n    \""@ + escaped(r)
            + "\",\n)"@,
        ErrorView::ResultNotError(s) => "ResultNotError(\n    \""@ + escaped(s) + "\",\n)"@,
        ErrorView::ResultNotOk(s) => "ResultNotOk(\n    \""@ + escaped(s) + "\",\n)"@,
        ErrorView::NoSuchDevice => "NoSuchDevice"@,
        ErrorView::Unspecified => "Unspecified"@,
    }
}

/// A value that an assertion can compare and describe in a failure message.
pub trait Operand: Sized {
    /// The value's multi-line debug rendering.
    spec fn rendered(&self) -> Seq<char>;

    /// Whether the value equals `other`.
    spec fn same_as(&self, other: &Self) -> bool;

    fn render(&self) -> (r: String)
        ensures
            r@ == self.rendered(),
    ;

    fn equals(&self, other: &Self) -> (r: bool)
        ensures
            r == self.same_as(other),
    ;
}

fn digit_str(d: u64) -> (r: &'static str)
    requires
        d < 10,
    ensures
        r@ == digit(d as int),
{
    if d == 0 {
        "0"
    } else if d == 1 {
        "1"
    } else if d == 2 {
        "2"
    } else if d == 3 {
        "3"
    } else if d == 4 {
        "4"
    } else if d == 5 {
        "5"
    } else if d == 6 {
        "6"
    } else if d == 7 {
        "7"
    } else if d == 8 {
        "8"
    } else {
        "9"
    }
}

fn hex_digit_str(d: u32) -> (r: &'static str)
    requires
        d < 16,
    ensures
        r@ == hex_digit(d as int),
{
    if d < 10 {
        digit_str(d as u64)
    } else if d == 10 {
        "a"
    } else if d == 11 {
        "b"
    } else if d == 12 {
        "c"
    } else if d == 13 {
        "d"
    } else if d == 14 {
        "e"
    } else {
        "f"
    }
}

/// The hexadecimal notation of `n`.
fn hex_string(n: u32) -> (r: String)
    ensures
        r@ == hex(n as nat),
    decreases n,
{
    if n < 16 {
        String::from_str(hex_digit_str(n))
    } else {
        let mut r = hex_string(n / 16);
        r.append(hex_digit_str(n % 16));
        r
    }
}

/// The decimal notation of `n`.
pub fn decimal_string(n: u64) -> (r: String)
    ensures
        r@ == decimal(n as nat),
    decreases n,
{
    if n < 10 {
        String::from_str(digit_str(n))
    } else {
        let mut r = decimal_string(n / 10);
        r.append(digit_str(n % 10));
        r
    }
}

/// The decimal notation of `v`, signed.
pub fn signed_decimal_string(v: i64) -> (r: String)
    ensures
        r@ == signed_decimal(v as int),
{
    if v < 0 {
        let magnitude: u64 = (0i128 - v as i128) as u64;
        let mut r = String::from_str("-");
        r.append(decimal_string(magnitude).as_str());
        r
    } else {
        decimal_string(v as u64)
    }
}

/// Appends `s` to `out`, each character escaped.
fn append_escaped(out: &mut String, s: &str)
    ensures
        final(out)@ == old(out)@ + escaped(s@),
{
    let ghost start = out@;
    let n = s.unicode_len();
    let mut i: usize = 0;
    while i < n
        invariant
            i <= n,
            n == s@.len(),
            out@ == start + escaped(s@.subrange(0, i as int)),
        decreases n - i,
    {
        let c = s.get_char(i);
        assert(s@.subrange(0, i + 1).drop_last() =~= s@.subrange(0, i as int));
        if c == '"' {
            out.append("\\\"");
        } else if c == '\\' {
            out.append("\\\\");
        } else if c == '\n' {
            out.append("\\n");
        } else if c == '\r' {
            out.append("\\r");
        } else if c == '\t' {
            out.append("\\t");
        } else if c == '\0' {
            out.append("\\0");
        } else if (c as u32) < 0x20 || (0x7f <= (c as u32) && (c as u32) <= 0x9f) {
            out.append("\\u{");
            out.append(hex_string(c as u32).as_str());
            out.append("}");
        } else {
            let one = s.substring_char(i, i + 1);
            assert(one@ =~= seq![c]);
            out.append(one);
        }
        i += 1;
    }
    assert(s@.subrange(0, n as int) =~= s@);
}

/// Appends `s` to `out` with four spaces after each line break.
fn append_padded(out: &mut String, s: &str)
    ensures
        final(out)@ == old(out)@ + padded(s@),
{
    let ghost start = out@;
    let n = s.unicode_len();
    let mut i: usize = 0;
    while i < n
        invariant
            i <= n,
            n == s@.len(),
            out@ == start + padded(s@.subrange(0, i as int)),
        decreases n - i,
    {
        let c = s.get_char(i);
        assert(s@.subrange(0, i + 1).drop_last() =~= s@.subrange(0, i as int));
        if c == '\n' {
            out.append("\n    ");
        } else {
            let one = s.substring_char(i, i + 1);
            assert(one@ =~= seq![c]);
            out.append(one);
        }
        i += 1;
    }
    assert(s@.subrange(0, n as int) =~= s@);
}

/// `name(value)` in the multi-line debug style, `value` already rendered.
fn wrap(name: &str, value: &String) -> (r: String)
    ensures
        r@ == wrapped(name@, value@),
{
    let mut r = String::from_str(name);
    r.append("(\n    ");
    append_padded(&mut r, value.as_str());
    r.append(",\n)");
    r
}

impl Operand for bool {
    open spec fn rendered(&self) -> Seq<char> {
        if *self {
            "true"@
        } else {
            "false"@
        }
    }

    open spec fn same_as(&self, other: &bool) -> bool {
        *self == *other
    }

    fn render(&self) -> (r: String) {
        if *self {
            String::from_str("true")
        } else {
            String::from_str("false")
        }
    }

    fn equals(&self, other: &bool) -> (r: bool) {
        *self == *other
    }
}

impl Operand for () {
    open spec fn rendered(&self) -> Seq<char> {
        "()"@
    }

    open spec fn same_as(&self, other: &()) -> bool {
        true
    }

    fn render(&self) -> (r: String) {
        String::from_str("()")
    }

    fn equals(&self, other: &()) -> (r: bool) {
        true
    }
}

impl Operand for i32 {
    open spec fn rendered(&self) -> Seq<char> {
        signed_decimal(*self as int)
    }

    open spec fn same_as(&self, other: &i32) -> bool {
        *self == *other
    }

    fn render(&self) -> (r: String) {
        signed_decimal_string(*self as i64)
    }

    fn equals(&self, other: &i32) -> (r: bool) {
        *self == *other
    }
}

impl Operand for u32 {
    open spec fn rendered(&self) -> Seq<char> {
        decimal(*self as nat)
    }

    open spec fn same_as(&self, other: &u32) -> bool {
        *self == *other
    }

    fn render(&self) -> (r: String) {
        decimal_string(*self as u64)
    }

    fn equals(&self, other: &u32) -> (r: bool) {
        *self == *other
    }
}

impl Operand for u64 {
    open spec fn rendered(&self) -> Seq<char> {
        decimal(*self as nat)
    }

    open spec fn same_as(&self, other: &u64) -> bool {
        *self == *other
    }

    fn render(&self) -> (r: String) {
        decimal_string(*self)
    }

    fn equals(&self, other: &u64) -> (r: bool) {
        *self == *other
    }
}

impl Operand for usize {
    open spec fn rendered(&self) -> Seq<char> {
        decimal(*self as nat)
    }

    open spec fn same_as(&self, other: &usize) -> bool {
        *self == *other
    }

    fn render(&self) -> (r: String) {
        decimal_string(*self as u64)
    }

    fn equals(&self, other: &usize) -> (r: bool) {
        *self == *other
    }
}

impl Operand for TestError {
    open spec fn rendered(&self) -> Seq<char> {
        rendered_error(self@)
    }

    open spec fn same_as(&self, other: &TestError) -> bool {
        self@ == other@
    }

    fn render(&self) -> (r: String) {
        match self {
            TestError::ConditionUnmet(s) => {
                let mut r = String::from_str("ConditionUnmet(\n    \"");
                append_escaped(&mut r, s.as_str());
                r.append("\",\n)");
                r
            },
            TestError::Io(None) => String::from_str("Io(\n    None,\n)"),
            TestError::Io(Some(c)) => {
                let mut r = String::from_str("Io(\n    Some(\n        ");
                r.append(signed_decimal_string(*c as i64).as_str());
                r.append(",\n    ),\n)");
                r
            },
            TestError::NotEqual(left, right) => {
                let mut r = String::from_str("NotEqual(\n    \"");
                append_escaped(&mut r, left.as_str());
                r.append("\",\n    \"");
                append_escaped(&mut r, right.as_str());
                r.append("\",\n)");
                r
            },
            TestError::ResultNotError(s) => {
                let mut r = String::from_str("ResultNotError(\n    \"");
                append_escaped(&mut r, s.as_str());
                r.append("\",\n)");
                r
            },
            TestError::ResultNotOk(s) => {
                let mut r = String::from_str("ResultNotOk(\n    \"");
                append_escaped(&mut r, s.as_str());
                r.append("\",\n)");
                r
            },
            TestError::NoSuchDevice => String::from_str("NoSuchDevice"),
            TestError::Unspecified => String::from_str("Unspecified"),
        }
    }

    fn equals(&self, other: &TestError) -> (r: bool) {
        *self == *other
    }
}

impl<T: Operand, E: Operand> Operand for Result<T, E> {
    open spec fn rendered(&self) -> Seq<char> {
        match self {
            Ok(v) => wrapped("Ok"@, v.rendered()),
            Err(e) => wrapped("Err"@, e.rendered()),
        }
    }

    open spec fn same_as(&self, other: &Result<T, E>) -> bool {
        match (self, other) {
            (Ok(a), Ok(b)) => a.same_as(b),
            (Err(a), Err(b)) => a.same_as(b),
            _ => false,
        }
    }

    fn render(&self) -> (r: String) {
        match self {
            Ok(v) => wrap("Ok", &v.render()),
            Err(e) => wrap("Err", &e.render()),
        }
    }

    fn equals(&self, other: &Result<T, E>) -> (r: bool) {
        match (self, other) {
            (Ok(a), Ok(b)) => a.equals(b),
            (Err(a), Err(b)) => a.equals(b),
            _ => false,
        }
    }
}

} // verus!
