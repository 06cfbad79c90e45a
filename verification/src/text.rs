//! Decimal integer parsing and ASCII case folding over `char` sequences.
use vstd::prelude::*;

verus! {

/// The ASCII digit for `d`, which is below 10.
pub open spec fn digit_char(d: nat) -> char {
    (48 + d) as char
}

/// The decimal digits of `n`, most significant first, as `Display` writes
/// an unsigned integer.
pub open spec fn decimal(n: nat) -> Seq<char>
    decreases n,
{
    if n < 10 {
        seq![digit_char(n)]
    } else {
        decimal(n / 10).push(digit_char(n % 10))
    }
}

/// `i` in decimal, a `-` before a negative value, as `Display` writes a
/// signed integer.
pub open spec fn signed_decimal(i: int) -> Seq<char> {
    if i < 0 {
        seq!['-'] + decimal((-i) as nat)
    } else {
        decimal(i as nat)
    }
}

/// The one-character string of the digit `d`.
fn digit_str(d: u64) -> (s: &'static str)
    requires
        d < 10,
    ensures
        s@ == seq![digit_char(d as nat)],
{
    proof {
        reveal_strlit("0");
        reveal_strlit("1");
        reveal_strlit("2");
        reveal_strlit("3");
        reveal_strlit("4");
        reveal_strlit("5");
        reveal_strlit("6");
        reveal_strlit("7");
        reveal_strlit("8");
        reveal_strlit("9");
    }
    if d == 0 {
        "0"
    } else if d == 1 {
        "1"
    } else if d == 2 {
        "2"
    } else if d == 3 {
        "3"
    } else if d == 4 {
        "4"
    } else if d == 5 {
        "5"
    } else if d == 6 {
        "6"
    } else if d == 7 {
        "7"
    } else if d == 8 {
        "8"
    } else {
        "9"
    }
}

/// `n` written in decimal.
pub fn decimal_text(n: u64) -> (s: String)
    ensures
        s@ == decimal(n as nat),
    decreases n,
{
    if n < 10 {
        digit_str(n).to_owned()
    } else {
        let head = decimal_text(n / 10);
        let last = digit_str(n % 10);
        let s = head.concat(last);
        assert(s@ =~= decimal((n / 10) as nat).push(digit_char((n % 10) as nat)));
        s
    }
}

/// `i` written in decimal, with a `-` before a negative value.
pub fn signed_decimal_text(i: i32) -> (s: String)
    ensures
        s@ == signed_decimal(i as int),
{
    if i < 0 {
        proof {
            reveal_strlit("-");
        }
        let magnitude: u64 = (0i64 - i as i64) as u64;
        "-".to_owned().concat(decimal_text(magnitude).as_str())
    } else {
        decimal_text(i as u64)
    }
}

/// What `{:?}` writes for a string: the string in double quotes, with its
/// special characters escaped.
pub uninterp spec fn str_debug(s: Seq<char>) -> Seq<char>;

/// `c` is an ASCII decimal digit.
pub open spec fn is_digit(c: char) -> bool {
    '0' <= c && c <= '9'
}

/// Every character of `s` is an ASCII decimal digit.
pub open spec fn all_digits(s: Seq<char>) -> bool {
    forall|i: int| 0 <= i < s.len() ==> is_digit(#[trigger] s[i])
}

/// The value of a run of decimal digits, most significant first.
pub open spec fn digits_value(s: Seq<char>) -> int
    decreases s.len(),
{
    if s.len() == 0 {
        0
    } else {
        digits_value(s.drop_last()) * 10 + (s.last() as int - '0' as int)
    }
}

/// What `str::parse::<u32>` accepts: an optional `+` followed by one or more
/// decimal digits whose value fits in a `u32`.
pub open spec fn spec_parse_u32(s: Seq<char>) -> Option<u32> {
    let body = if s.len() > 0 && s[0] == '+' { s.drop_first() } else { s };
    if body.len() > 0 && all_digits(body) && digits_value(body) <= u32::MAX {
        Some(digits_value(body) as u32)
    } else {
        None
    }
}

/// What `str::parse::<i32>` accepts: an optional `+` or `-` followed by one or
/// more decimal digits whose signed value fits in an `i32`.
pub open spec fn spec_parse_i32(s: Seq<char>) -> Option<i32> {
    let negative = s.len() > 0 && s[0] == '-';
    let body = if s.len() > 0 && (s[0] == '+' || s[0] == '-') { s.drop_first() } else { s };
    let value = if negative { -digits_value(body) } else { digits_value(body) };
    if body.len() > 0 && all_digits(body) && i32::MIN <= value <= i32::MAX {
        Some(value as i32)
    } else {
        None
    }
}

/// What `str::parse::<u64>` accepts: an optional `+` followed by one or more
/// decimal digits whose value fits in a `u64`.
pub open spec fn spec_parse_u64(s: Seq<char>) -> Option<u64> {
    let body = if s.len() > 0 && s[0] == '+' { s.drop_first() } else { s };
    if body.len() > 0 && all_digits(body) && digits_value(body) <= u64::MAX {
        Some(digits_value(body) as u64)
    } else {
        None
    }
}

/// The text of the error `str::parse::<u32>` reports for `s`.
pub uninterp spec fn parse_u32_error_text(s: Seq<char>) -> Seq<char>;

/// `str::parse::<u32>`, as its documentation describes `from_str_radix` in
/// base 10: an optional `+` sign followed by digits only; anything else,
/// including an empty string and a value past `u32::MAX`, is an error, whose
/// text depends on the string alone.
#[verifier::external_body]
pub(crate) fn parse_u32(s: &str) -> (r: Result<u32, String>)
    ensures
        r is Ok <==> spec_parse_u32(s@) is Some,
        r matches Ok(v) ==> spec_parse_u32(s@) == Some(v),
        r matches Err(text) ==> text@ == parse_u32_error_text(s@),
{
    s.parse::<u32>().map_err(|error| error.to_string())
}

/// The text of the error `str::parse::<u64>` reports for `s`.
pub uninterp spec fn parse_u64_error_text(s: Seq<char>) -> Seq<char>;

/// `str::parse::<u64>`, as its documentation describes `from_str_radix` in
/// base 10: an optional `+` sign followed by digits only; anything else,
/// including an empty string and a value past `u64::MAX`, is an error, whose
/// text depends on the string alone.
#[verifier::external_body]
pub(crate) fn parse_u64(s: &str) -> (r: Result<u64, String>)
    ensures
        r is Ok <==> spec_parse_u64(s@) is Some,
        r matches Ok(v) ==> spec_parse_u64(s@) == Some(v),
        r matches Err(text) ==> text@ == parse_u64_error_text(s@),
{
    s.parse::<u64>().map_err(|error| error.to_string())
}

/// The text of the error `str::parse::<i32>` reports for `s`.
pub uninterp spec fn parse_i32_error_text(s: Seq<char>) -> Seq<char>;

/// `str::parse::<i32>`, as its documentation describes `from_str_radix` in
/// base 10: an optional `+` or `-` sign followed by digits only; anything
/// else, including an empty string and an out-of-range value, is an error,
/// whose text depends on the string alone.
#[verifier::external_body]
pub(crate) fn parse_i32(s: &str) -> (r: Result<i32, String>)
    ensures
        r is Ok <==> spec_parse_i32(s@) is Some,
        r matches Ok(v) ==> spec_parse_i32(s@) == Some(v),
        r matches Err(text) ==> text@ == parse_i32_error_text(s@),
{
    s.parse::<i32>().map_err(|error| error.to_string())
}

/// An environment variable whose value does not parse as the number it
/// should hold.
#[derive(Clone, Debug, PartialEq, Eq)]
pub struct VariableError {
    pub name: String,
    pub value: String,
    pub reason: String,
}

/// The text of the error for a variable that does not parse: the name,
/// `=`, the quoted value, `: ` and the reason.
pub open spec fn variable_error_text(name: Seq<char>, value: Seq<char>, reason: Seq<char>) -> Seq<
    char,
> {
    name + "="@ + str_debug(value) + ": "@ + reason
}

/// Formats the refusal of a variable with `format!`, quoting the value as
/// `{:?}` does.
#[verifier::external_body]
fn describe_variable_error(name: &str, value: &str, reason: &str) -> (m: String)
    ensures
        m@ == name@ + "="@ + str_debug(value@) + ": "@ + reason@,
{
    format!("{name}={value:?}: {reason}")
}

impl VariableError {
    pub fn message(&self) -> (m: String)
        ensures
            m@ == variable_error_text(self.name@, self.value@, self.reason@),
    {
        describe_variable_error(self.name.as_str(), self.value.as_str(), self.reason.as_str())
    }
}

/// Whether two strings hold the same characters.
pub fn str_equals(a: &str, b: &str) -> (r: bool)
    ensures
        r == (a@ == b@),
{
    let n: usize = a.unicode_len();
    if n != b.unicode_len() {
        return false;
    }
    let mut i: usize = 0;
    while i < n
        invariant
            n == a@.len(),
            n == b@.len(),
            i <= n,
            forall|j: int| 0 <= j < i ==> a@[j] == b@[j],
        decreases n - i,
    {
        if a.get_char(i) != b.get_char(i) {
            return false;
        }
        i = i + 1;
    }
    assert(a@ =~= b@);
    true
}

/// `char::to_ascii_lowercase`: ASCII `A..=Z` map to `a..=z`, every other
/// character is unchanged.
pub open spec fn ascii_lower(c: char) -> char {
    if 'A' <= c && c <= 'Z' {
        ((c as u32) + 32) as char
    } else {
        c
    }
}

/// `str::to_ascii_lowercase` on the characters of a string.
pub open spec fn ascii_lower_seq(s: Seq<char>) -> Seq<char> {
    s.map_values(|c: char| ascii_lower(c))
}

/// `needle` occurs in `hay` as a contiguous run.
pub open spec fn contains_seq(hay: Seq<char>, needle: Seq<char>) -> bool {
    exists|i: int|
        0 <= i && i + needle.len() <= hay.len() && #[trigger] hay.subrange(i, i + needle.len())
            == needle
}

fn lower_char(c: char) -> (r: char)
    ensures
        r == ascii_lower(c),
{
    if 'A' <= c && c <= 'Z' {
        ((c as u32) + 32) as u8 as char
    } else {
        c
    }
}

/// Whether `needle` occurs in the ASCII-lowercased `s`.
pub fn contains_ascii_lowercase(s: &str, needle: &str) -> (r: bool)
    ensures
        r == contains_seq(ascii_lower_seq(s@), needle@),
{
    let n: usize = s.unicode_len();
    let m: usize = needle.unicode_len();
    let ghost hay = ascii_lower_seq(s@);
    if m > n {
        proof {
            if contains_seq(hay, needle@) {
                let i = choose|i: int|
                    0 <= i && i + needle@.len() <= hay.len() && #[trigger] hay.subrange(
                        i,
                        i + needle@.len(),
                    ) == needle@;
            }
        }
        return false;
    }
    let mut i: usize = 0;
    while i <= n - m
        invariant
            n == s@.len(),
            m == needle@.len(),
            m <= n,
            hay == ascii_lower_seq(s@),
            hay.len() == n,
            i <= n - m + 1,
            forall|k: int| 0 <= k < i ==> #[trigger] hay.subrange(k, k + m) != needle@,
        decreases n - m + 1 - i,
    {
        let mut j: usize = 0;
        let mut matched: bool = true;
        while j < m
            invariant
                n == s@.len(),
                m == needle@.len(),
                i + m <= n,
                hay == ascii_lower_seq(s@),
                hay.len() == n,
                j <= m,
                matched == (forall|t: int| 0 <= t < j ==> hay[i + t] == needle@[t]),
            decreases m - j,
        {
            let c: char = lower_char(s.get_char(i + j));
            if c != needle.get_char(j) {
                matched = false;
            }
            j = j + 1;
        }
        if matched {
            assert(hay.subrange(i as int, i + m) =~= needle@);
            return true;
        }
        assert(hay.subrange(i as int, i + m) != needle@) by {
            let t = choose|t: int| 0 <= t < m && hay[i + t] != needle@[t];
            assert(hay.subrange(i as int, i + m)[t] == hay[i + t]);
        }
        i = i + 1;
    }
    proof {
        if contains_seq(hay, needle@) {
            let k = choose|k: int|
                0 <= k && k + needle@.len() <= hay.len() && #[trigger] hay.subrange(
                    k,
                    k + needle@.len(),
                ) == needle@;
            assert(k < i);
        }
    }
    false
}

/// `char::to_ascii_uppercase`: ASCII `a..=z` map to `A..=Z`, every other
/// character is unchanged.
pub open spec fn ascii_upper(c: char) -> char {
    if 'a' <= c && c <= 'z' {
        ((c as u32) - 32) as char
    } else {
        c
    }
}

/// `str::to_ascii_uppercase` on the characters of a string.
pub open spec fn ascii_upper_seq(s: Seq<char>) -> Seq<char> {
    s.map_values(|c: char| ascii_upper(c))
}

/// Whether the ASCII-uppercased `s` is exactly the two characters `a`, `b`,
/// both of which are upper-case ASCII letters or digits.
pub fn upper_equals2(s: &str, a: char, b: char) -> (r: bool)
    requires
        ('A' <= a <= 'Z') || ('0' <= a <= '9'),
        ('A' <= b <= 'Z') || ('0' <= b <= '9'),
    ensures
        r == (ascii_upper_seq(s@) == seq![a, b]),
{
    let n: usize = s.unicode_len();
    if n != 2 {
        proof {
            if ascii_upper_seq(s@) == seq![a, b] {
                assert(ascii_upper_seq(s@).len() == s@.len());
            }
        }
        return false;
    }
    let c0: char = s.get_char(0);
    let c1: char = s.get_char(1);
    let u0: char = if 'a' <= c0 && c0 <= 'z' { ((c0 as u32) - 32) as u8 as char } else { c0 };
    let u1: char = if 'a' <= c1 && c1 <= 'z' { ((c1 as u32) - 32) as u8 as char } else { c1 };
    proof {
        assert(u0 == ascii_upper(s@[0]));
        assert(u1 == ascii_upper(s@[1]));
        let up = ascii_upper_seq(s@);
        assert(up[0] == u0 && up[1] == u1);
        if u0 == a && u1 == b {
            assert(up =~= seq![a, b]);
        }
        if up == seq![a, b] {
            assert(up[0] == a && up[1] == b);
        }
    }
    u0 == a && u1 == b
}

} // verus!
