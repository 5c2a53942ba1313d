use crate::error::Error;
use vstd::prelude::*;
use vstd::string::*;

verus! {

/// Relies on `String::push`: the character is appended at the end.
#[verifier::external_body]
pub(crate) fn push_char(s: &mut String, c: char)
    ensures
        final(s)@ == old(s)@.push(c),
{
    s.push(c);
}

pub open spec fn is_digit(c: char) -> bool {
    '0' <= c && c <= '9'
}

pub open spec fn digit_value(c: char) -> int {
    c as int - '0' as int
}

/// A non-empty run of decimal digits.
pub open spec fn is_numeral(s: Seq<char>) -> bool {
    s.len() > 0 && forall|i: int| 0 <= i < s.len() ==> is_digit(#[trigger] s[i])
}

/// The number that a run of decimal digits spells.
pub open spec fn digits_value(s: Seq<char>) -> int
    decreases s.len(),
{
    if s.len() == 0 {
        0
    } else {
        digits_value(s.drop_last()) * 10 + digit_value(s.last())
    }
}

/// An unsigned integer literal: an optional `+`, then decimal digits.
pub open spec fn unsigned_token(s: Seq<char>) -> Option<int> {
    if s.len() > 0 && s[0] == '+' {
        if is_numeral(s.skip(1)) {
            Some(digits_value(s.skip(1)))
        } else {
            None
        }
    } else if is_numeral(s) {
        Some(digits_value(s))
    } else {
        None
    }
}

/// A signed integer literal: an optional `+` or `-`, then decimal digits.
pub open spec fn signed_token(s: Seq<char>) -> Option<int> {
    if s.len() > 0 && s[0] == '-' {
        if is_numeral(s.skip(1)) {
            Some(-digits_value(s.skip(1)))
        } else {
            None
        }
    } else {
        unsigned_token(s)
    }
}

/// The decimal digits of a natural number, most significant first.
pub open spec fn decimal(n: nat) -> Seq<char>
    decreases n,
{
    if n < 10 {
        seq![(n + '0' as nat) as char]
    } else {
        decimal(n / 10).push(((n % 10) + '0' as nat) as char)
    }
}

/// The decimal rendering of an integer, with a `-` when it is negative.
pub open spec fn int_text(v: int) -> Seq<char> {
    if v < 0 {
        seq!['-'] + decimal((-v) as nat)
    } else {
        decimal(v as nat)
    }
}

proof fn lemma_digits_nonneg(s: Seq<char>)
    requires
        forall|i: int| 0 <= i < s.len() ==> is_digit(#[trigger] s[i]),
    ensures
        digits_value(s) >= 0,
    decreases s.len(),
{
    if s.len() > 0 {
        assert(is_digit(s[s.len() - 1]));
        lemma_digits_nonneg(s.drop_last());
    }
}

proof fn lemma_digits_prefix_le(s: Seq<char>, k: int)
    requires
        forall|i: int| 0 <= i < s.len() ==> is_digit(#[trigger] s[i]),
        0 <= k <= s.len(),
    ensures
        digits_value(s.take(k)) <= digits_value(s),
    decreases s.len(),
{
    if k < s.len() {
        let t = s.drop_last();
        assert(t.take(k) =~= s.take(k));
        assert(is_digit(s[s.len() - 1]));
        lemma_digits_prefix_le(t, k);
        lemma_digits_nonneg(t);
    } else {
        assert(s.take(k) =~= s);
    }
}

/// Reads the decimal digits of `s` from position `start` on, as long as
/// their value stays within `max`.
fn digits_at_most(s: &str, start: usize, max: u128) -> (r: Option<u128>)
    requires
        start <= s@.len(),
    ensures
        r == (if is_numeral(s@.skip(start as int)) && digits_value(s@.skip(start as int)) <= max {
            Some(digits_value(s@.skip(start as int)) as u128)
        } else {
            None::<u128>
        }),
        r matches Some(x) ==> x as int == digits_value(s@.skip(start as int)),
{
    let n = s.unicode_len();
    let ghost t = s@.skip(start as int);
    if start == n {
        return None;
    }
    let mut acc: u128 = 0;
    let mut i: usize = start;
    while i < n
        invariant
            start <= i <= n,
            n == s@.len(),
            t == s@.skip(start as int),
            forall|j: int| 0 <= j < i - start ==> is_digit(#[trigger] t[j]),
            acc as int == digits_value(t.take(i - start)),
            acc <= max,
        decreases n - i,
    {
        let c = s.get_char(i);
        assert(t[i - start] == c);
        if !('0' <= c && c <= '9') {
            assert(!is_numeral(t));
            return None;
        }
        let d = (c as u32 - '0' as u32) as u128;
        assert(t.take(i + 1 - start).drop_last() =~= t.take(i - start));
        let too_large = if acc > max / 10 {
            assert(acc * 10 + d > max) by (nonlinear_arith)
                requires
                    acc > max / 10,
                    d >= 0,
            ;
            true
        } else {
            assert(acc * 10 <= max) by (nonlinear_arith)
                requires
                    acc <= max / 10,
            ;
            d > max - acc * 10
        };
        if too_large {
            proof {
                if is_numeral(t) {
                    lemma_digits_prefix_le(t, i + 1 - start);
                }
            }
            return None;
        }
        acc = acc * 10 + d;
        i = i + 1;
    }
    assert(t.take(n - start) =~= t);
    Some(acc)
}

/// Parses an unsigned integer literal whose value is at most `max`.
pub fn parse_unsigned(s: &str, max: u128) -> (r: Option<u128>)
    ensures
        r is Some <==> (unsigned_token(s@) matches Some(v) && v <= max),
        r matches Some(x) ==> unsigned_token(s@) == Some(x as int) && x <= max,
{
    let n = s.unicode_len();
    if n > 0 && s.get_char(0) == '+' {
        digits_at_most(s, 1, max)
    } else {
        proof {
            if s@.len() > 0 && s@[0] == '+' {
                assert(false);
            }
            assert(s@.skip(0) =~= s@);
        }
        digits_at_most(s, 0, max)
    }
}

/// Parses a signed integer literal whose value lies in `min ..= max`.
pub fn parse_signed(s: &str, min: i128, max: i128) -> (r: Option<i128>)
    requires
        min <= 0 <= max,
    ensures
        r is Some <==> (signed_token(s@) matches Some(v) && min <= v <= max),
        r matches Some(x) ==> signed_token(s@) == Some(x as int) && min <= x <= max,
{
    let n = s.unicode_len();
    if n > 0 && s.get_char(0) == '-' {
        let bound: u128 = if min == i128::MIN {
            170141183460469231731687303715884105728u128
        } else {
            (0 - min) as u128
        };
        match digits_at_most(s, 1, bound) {
            Some(m) => {
                proof {
                    lemma_digits_nonneg(s@.skip(1));
                }
                if m == 170141183460469231731687303715884105728u128 {
                    Some(i128::MIN)
                } else {
                    Some(0 - (m as i128))
                }
            },
            None => None,
        }
    } else {
        proof {
            if s@.len() > 0 && s@[0] == '+' && is_numeral(s@.skip(1)) {
                lemma_digits_nonneg(s@.skip(1));
            } else if is_numeral(s@) {
                lemma_digits_nonneg(s@);
            }
        }
        match parse_unsigned(s, max as u128) {
            Some(m) => Some(m as i128),
            None => None,
        }
    }
}

/// Appends the decimal digits of `n`.
pub fn write_decimal(s: &mut String, n: u128)
    ensures
        final(s)@ == old(s)@ + decimal(n as nat),
    decreases n,
{
    if n >= 10 {
        write_decimal(s, n / 10);
    }
    let d = (n % 10) as u8;
    let c = (d + 48u8) as char;
    push_char(s, c);
}


/// A type that an option's values can have: each value is read from one
/// token of text.
pub trait AllowedTypes: Sized {
    /// Whether the token spells a value of this type.
    spec fn accepts(s: Seq<char>) -> bool;

    /// Whether the token spells the value `v`.
    spec fn denotes(s: Seq<char>, v: Self) -> bool;

    /// The name of the type, as error messages give it.
    spec fn label() -> Seq<char>;

    /// How the value is shown in help text.
    spec fn shown(&self) -> Seq<char>;

    fn from_token(s: &str) -> (r: Option<Self>)
        ensures
            r is Some <==> Self::accepts(s@),
            r matches Some(v) ==> Self::denotes(s@, v),
    ;

    fn type_label() -> (r: String)
        ensures
            r@ == Self::label(),
    ;

    fn show(&self) -> (r: String)
        ensures
            r@ == self.shown(),
    ;

    fn duplicate(&self) -> (r: Self)
        ensures
            r == *self,
    ;
}

impl AllowedTypes for String {
    open spec fn accepts(s: Seq<char>) -> bool {
        true
    }

    open spec fn denotes(s: Seq<char>, v: String) -> bool {
        v@ == s
    }

    open spec fn label() -> Seq<char> {
        "alloc::string::String"@
    }

    open spec fn shown(&self) -> Seq<char> {
        self@
    }

    fn from_token(s: &str) -> (r: Option<String>) {
        Some(String::from_str(s))
    }

    fn type_label() -> (r: String) {
        String::from_str("alloc::string::String")
    }

    fn show(&self) -> (r: String) {
        self.clone()
    }

    fn duplicate(&self) -> (r: String) {
        self.clone()
    }
}

impl AllowedTypes for bool {
    open spec fn accepts(s: Seq<char>) -> bool {
        s == "true"@ || s == "false"@
    }

    open spec fn denotes(s: Seq<char>, v: bool) -> bool {
        (s == "true"@ && v) || (s == "false"@ && !v)
    }

    open spec fn label() -> Seq<char> {
        "bool"@
    }

    open spec fn shown(&self) -> Seq<char> {
        if *self {
            "true"@
        } else {
            "false"@
        }
    }

    fn from_token(s: &str) -> (r: Option<bool>) {
        let t = String::from_str("true");
        let f = String::from_str("false");
        let v = String::from_str(s);
        if v == t {
            Some(true)
        } else if v == f {
            Some(false)
        } else {
            None
        }
    }

    fn type_label() -> (r: String) {
        String::from_str("bool")
    }

    fn show(&self) -> (r: String) {
        if *self {
            String::from_str("true")
        } else {
            String::from_str("false")
        }
    }

    fn duplicate(&self) -> (r: bool) {
        *self
    }
}

impl AllowedTypes for char {
    open spec fn accepts(s: Seq<char>) -> bool {
        s.len() == 1
    }

    open spec fn denotes(s: Seq<char>, v: char) -> bool {
        s == seq![v]
    }

    open spec fn label() -> Seq<char> {
        "char"@
    }

    open spec fn shown(&self) -> Seq<char> {
        seq![*self]
    }

    fn from_token(s: &str) -> (r: Option<char>) {
        if s.unicode_len() == 1 {
            let c = s.get_char(0);
            assert(s@ =~= seq![c]);
            Some(c)
        } else {
            None
        }
    }

    fn type_label() -> (r: String) {
        String::from_str("char")
    }

    fn show(&self) -> (r: String) {
        let mut s = String::new();
        push_char(&mut s, *self);
        assert(s@ =~= seq![*self]);
        s
    }

    fn duplicate(&self) -> (r: char) {
        *self
    }
}

impl AllowedTypes for u8 {
    open spec fn accepts(s: Seq<char>) -> bool {
        unsigned_token(s) matches Some(v) && v <= 255
    }

    open spec fn denotes(s: Seq<char>, v: u8) -> bool {
        unsigned_token(s) == Some(v as int)
    }

    open spec fn label() -> Seq<char> {
        "u8"@
    }

    open spec fn shown(&self) -> Seq<char> {
        int_text(*self as int)
    }

    fn from_token(s: &str) -> (r: Option<u8>) {
        match parse_unsigned(s, 255) {
            Some(v) => Some(v as u8),
            None => None,
        }
    }

    fn type_label() -> (r: String) {
        String::from_str("u8")
    }

    fn show(&self) -> (r: String) {
        let mut s = String::new();
        write_decimal(&mut s, *self as u128);
        assert(s@ =~= int_text(*self as int));
        s
    }

    fn duplicate(&self) -> (r: u8) {
        *self
    }
}

impl AllowedTypes for u16 {
    open spec fn accepts(s: Seq<char>) -> bool {
        unsigned_token(s) matches Some(v) && v <= 65535
    }

    open spec fn denotes(s: Seq<char>, v: u16) -> bool {
        unsigned_token(s) == Some(v as int)
    }

    open spec fn label() -> Seq<char> {
        "u16"@
    }

    open spec fn shown(&self) -> Seq<char> {
        int_text(*self as int)
    }

    fn from_token(s: &str) -> (r: Option<u16>) {
        match parse_unsigned(s, 65535) {
            Some(v) => Some(v as u16),
            None => None,
        }
    }

    fn type_label() -> (r: String) {
        String::from_str("u16")
    }

    fn show(&self) -> (r: String) {
        let mut s = String::new();
        write_decimal(&mut s, *self as u128);
        assert(s@ =~= int_text(*self as int));
        s
    }

    fn duplicate(&self) -> (r: u16) {
        *self
    }
}

impl AllowedTypes for u32 {
    open spec fn accepts(s: Seq<char>) -> bool {
        unsigned_token(s) matches Some(v) && v <= 4294967295
    }

    open spec fn denotes(s: Seq<char>, v: u32) -> bool {
        unsigned_token(s) == Some(v as int)
    }

    open spec fn label() -> Seq<char> {
        "u32"@
    }

    open spec fn shown(&self) -> Seq<char> {
        int_text(*self as int)
    }

    fn from_token(s: &str) -> (r: Option<u32>) {
        match parse_unsigned(s, 4294967295) {
            Some(v) => Some(v as u32),
            None => None,
        }
    }

    fn type_label() -> (r: String) {
        String::from_str("u32")
    }

    fn show(&self) -> (r: String) {
        let mut s = String::new();
        write_decimal(&mut s, *self as u128);
        assert(s@ =~= int_text(*self as int));
        s
    }

    fn duplicate(&self) -> (r: u32) {
        *self
    }
}

impl AllowedTypes for u64 {
    open spec fn accepts(s: Seq<char>) -> bool {
        unsigned_token(s) matches Some(v) && v <= 18446744073709551615
    }

    open spec fn denotes(s: Seq<char>, v: u64) -> bool {
        unsigned_token(s) == Some(v as int)
    }

    open spec fn label() -> Seq<char> {
        "u64"@
    }

    open spec fn shown(&self) -> Seq<char> {
        int_text(*self as int)
    }

    fn from_token(s: &str) -> (r: Option<u64>) {
        match parse_unsigned(s, 18446744073709551615) {
            Some(v) => Some(v as u64),
            None => None,
        }
    }

    fn type_label() -> (r: String) {
        String::from_str("u64")
    }

    fn show(&self) -> (r: String) {
        let mut s = String::new();
        write_decimal(&mut s, *self as u128);
        assert(s@ =~= int_text(*self as int));
        s
    }

    fn duplicate(&self) -> (r: u64) {
        *self
    }
}

impl AllowedTypes for i8 {
    open spec fn accepts(s: Seq<char>) -> bool {
        signed_token(s) matches Some(v) && -128 <= v <= 127
    }

    open spec fn denotes(s: Seq<char>, v: i8) -> bool {
        signed_token(s) == Some(v as int)
    }

    open spec fn label() -> Seq<char> {
        "i8"@
    }

    open spec fn shown(&self) -> Seq<char> {
        int_text(*self as int)
    }

    fn from_token(s: &str) -> (r: Option<i8>) {
        match parse_signed(s, -128, 127) {
            Some(v) => Some(v as i8),
            None => None,
        }
    }

    fn type_label() -> (r: String) {
        String::from_str("i8")
    }

    fn show(&self) -> (r: String) {
        write_int(*self as i128)
    }

    fn duplicate(&self) -> (r: i8) {
        *self
    }
}

impl AllowedTypes for i16 {
    open spec fn accepts(s: Seq<char>) -> bool {
        signed_token(s) matches Some(v) && -32768 <= v <= 32767
    }

    open spec fn denotes(s: Seq<char>, v: i16) -> bool {
        signed_token(s) == Some(v as int)
    }

    open spec fn label() -> Seq<char> {
        "i16"@
    }

    open spec fn shown(&self) -> Seq<char> {
        int_text(*self as int)
    }

    fn from_token(s: &str) -> (r: Option<i16>) {
        match parse_signed(s, -32768, 32767) {
            Some(v) => Some(v as i16),
            None => None,
        }
    }

    fn type_label() -> (r: String) {
        String::from_str("i16")
    }

    fn show(&self) -> (r: String) {
        write_int(*self as i128)
    }

    fn duplicate(&self) -> (r: i16) {
        *self
    }
}

impl AllowedTypes for i32 {
    open spec fn accepts(s: Seq<char>) -> bool {
        signed_token(s) matches Some(v) && -2147483648 <= v <= 2147483647
    }

    open spec fn denotes(s: Seq<char>, v: i32) -> bool {
        signed_token(s) == Some(v as int)
    }

    open spec fn label() -> Seq<char> {
        "i32"@
    }

    open spec fn shown(&self) -> Seq<char> {
        int_text(*self as int)
    }

    fn from_token(s: &str) -> (r: Option<i32>) {
        match parse_signed(s, -2147483648, 2147483647) {
            Some(v) => Some(v as i32),
            None => None,
        }
    }

    fn type_label() -> (r: String) {
        String::from_str("i32")
    }

    fn show(&self) -> (r: String) {
        write_int(*self as i128)
    }

    fn duplicate(&self) -> (r: i32) {
        *self
    }
}

impl AllowedTypes for i64 {
    open spec fn accepts(s: Seq<char>) -> bool {
        signed_token(s) matches Some(v) && -9223372036854775808 <= v <= 9223372036854775807
    }

    open spec fn denotes(s: Seq<char>, v: i64) -> bool {
        signed_token(s) == Some(v as int)
    }

    open spec fn label() -> Seq<char> {
        "i64"@
    }

    open spec fn shown(&self) -> Seq<char> {
        int_text(*self as int)
    }

    fn from_token(s: &str) -> (r: Option<i64>) {
        match parse_signed(s, -9223372036854775808, 9223372036854775807) {
            Some(v) => Some(v as i64),
            None => None,
        }
    }

    fn type_label() -> (r: String) {
        String::from_str("i64")
    }

    fn show(&self) -> (r: String) {
        write_int(*self as i128)
    }

    fn duplicate(&self) -> (r: i64) {
        *self
    }
}

impl AllowedTypes for u128 {
    open spec fn accepts(s: Seq<char>) -> bool {
        unsigned_token(s) matches Some(v) && v <= 340282366920938463463374607431768211455
    }

    open spec fn denotes(s: Seq<char>, v: u128) -> bool {
        unsigned_token(s) == Some(v as int)
    }

    open spec fn label() -> Seq<char> {
        "u128"@
    }

    open spec fn shown(&self) -> Seq<char> {
        int_text(*self as int)
    }

    fn from_token(s: &str) -> (r: Option<u128>) {
        match parse_unsigned(s, 340282366920938463463374607431768211455) {
            Some(v) => Some(v as u128),
            None => None,
        }
    }

    fn type_label() -> (r: String) {
        String::from_str("u128")
    }

    fn show(&self) -> (r: String) {
        let mut s = String::new();
        write_decimal(&mut s, *self as u128);
        assert(s@ =~= int_text(*self as int));
        s
    }

    fn duplicate(&self) -> (r: u128) {
        *self
    }
}

impl AllowedTypes for i128 {
    open spec fn accepts(s: Seq<char>) -> bool {
        signed_token(s) matches Some(v) && -170141183460469231731687303715884105728 <= v <= 170141183460469231731687303715884105727
    }

    open spec fn denotes(s: Seq<char>, v: i128) -> bool {
        signed_token(s) == Some(v as int)
    }

    open spec fn label() -> Seq<char> {
        "i128"@
    }

    open spec fn shown(&self) -> Seq<char> {
        int_text(*self as int)
    }

    fn from_token(s: &str) -> (r: Option<i128>) {
        match parse_signed(s, -170141183460469231731687303715884105728, 170141183460469231731687303715884105727) {
            Some(v) => Some(v as i128),
            None => None,
        }
    }

    fn type_label() -> (r: String) {
        String::from_str("i128")
    }

    fn show(&self) -> (r: String) {
        write_int(*self as i128)
    }

    fn duplicate(&self) -> (r: i128) {
        *self
    }
}

/// The decimal rendering of `v`.
fn write_int(v: i128) -> (r: String)
    ensures
        r@ == int_text(v as int),
{
    let mut s = String::new();
    if v < 0 {
        push_char(&mut s, '-');
        let m: u128 = if v == i128::MIN {
            170141183460469231731687303715884105728u128
        } else {
            (0 - v) as u128
        };
        write_decimal(&mut s, m);
    } else {
        write_decimal(&mut s, v as u128);
    }
    s
}


/// A string as Rust's `Debug` shows it: in double quotes, with quotes,
/// backslashes and control characters escaped.
pub uninterp spec fn debug_quoted(s: Seq<char>) -> Seq<char>;

/// Relies on `<str as Debug>::fmt`, through `format!("{:?}")`: the result
/// depends on the characters of `s` alone.
#[verifier::external_body]
fn quote_debug(s: &str) -> (r: String)
    ensures
        r@ == debug_quoted(s@),
{
    format!("{:?}", s)
}

/// The message of a conversion error, given the quoted token.
pub open spec fn conversion_text(quoted: Seq<char>, label: Seq<char>) -> Seq<char> {
    "Error converting from "@ + quoted + " to "@ + label
}

/// The message of the error that a token which does not convert gives.
pub open spec fn conversion_message(token: Seq<char>, label: Seq<char>) -> Seq<char> {
    conversion_text(debug_quoted(token), label)
}

/// The parsing error for a token, given the token as `Debug` shows it and
/// the name of the type.
pub fn conversion_error(quoted: &str, label: &str) -> (e: Error)
    ensures
        e is Parsing,
        e.message() == conversion_text(quoted@, label@),
{
    let mut m = String::new();
    m.append("Error converting from ");
    m.append(quoted);
    m.append(" to ");
    m.append(label);
    Error::Parsing(m)
}

/// Converts one token into a value of type `T`, or fails with a parsing
/// error that names the token and the type.
pub fn convert<T: AllowedTypes>(value: &str) -> (r: Result<T, Error>)
    ensures
        r is Ok <==> T::accepts(value@),
        r matches Ok(v) ==> T::denotes(value@, v),
        r matches Err(e) ==> e is Parsing && e.message() == conversion_message(value@, T::label()),
{
    match T::from_token(value) {
        Some(v) => Ok(v),
        None => {
            let quoted = quote_debug(value);
            let label = T::type_label();
            Err(conversion_error(quoted.as_str(), label.as_str()))
        },
    }
}

/// The parts of a token between its commas, in order; a token without a
/// comma is one part.
pub open spec fn split_commas(s: Seq<char>) -> Seq<Seq<char>>
    decreases s.len(),
{
    if s.len() == 0 {
        seq![Seq::<char>::empty()]
    } else {
        let p = split_commas(s.drop_last());
        if s.last() == ',' {
            p.push(Seq::<char>::empty())
        } else {
            p.update(p.len() - 1, p.last().push(s.last()))
        }
    }
}

proof fn lemma_split_nonempty(s: Seq<char>)
    ensures
        split_commas(s).len() >= 1,
    decreases s.len(),
{
    if s.len() > 0 {
        lemma_split_nonempty(s.drop_last());
    }
}

/// Splits a token at each comma.
pub fn split_on_commas(s: &str) -> (r: Vec<String>)
    ensures
        r@.map_values(|p: String| p@) == split_commas(s@),
{
    let n = s.unicode_len();
    let mut done: Vec<String> = Vec::new();
    let mut cur = String::new();
    let mut i: usize = 0;
    while i < n
        invariant
            i <= n,
            n == s@.len(),
            done@.map_values(|p: String| p@).push(cur@) == split_commas(s@.take(i as int)),
        decreases n - i,
    {
        let c = s.get_char(i);
        let ghost prev = s@.take(i as int);
        assert(s@.take(i + 1).drop_last() =~= prev);
        assert(s@.take(i + 1).last() == c);
        proof {
            lemma_split_nonempty(prev);
        }
        if c == ',' {
            done.push(cur);
            cur = String::new();
            assert(done@.map_values(|p: String| p@).push(cur@) =~= split_commas(s@.take(i + 1)));
        } else {
            push_char(&mut cur, c);
            assert(done@.map_values(|p: String| p@).push(cur@) =~= split_commas(s@.take(i + 1)));
        }
        i = i + 1;
    }
    assert(s@.take(n as int) =~= s@);
    done.push(cur);
    done
}

/// Every part spells a value of type `T`.
pub open spec fn all_accepted<T: AllowedTypes>(parts: Seq<Seq<char>>) -> bool {
    forall|i: int| 0 <= i < parts.len() ==> T::accepts(#[trigger] parts[i])
}

/// The values are, one for one, what the parts spell.
pub open spec fn list_denotes<T: AllowedTypes>(parts: Seq<Seq<char>>, vals: Seq<T>) -> bool {
    &&& vals.len() == parts.len()
    &&& forall|i: int| 0 <= i < parts.len() ==> T::denotes(#[trigger] parts[i], vals[i])
}

/// The position of the first part that spells no value of type `T`.
pub open spec fn first_rejected<T: AllowedTypes>(parts: Seq<Seq<char>>, k: int) -> bool {
    &&& 0 <= k < parts.len()
    &&& !T::accepts(parts[k])
    &&& forall|i: int| 0 <= i < k ==> T::accepts(#[trigger] parts[i])
}

/// Converts each comma-separated part of a token; one part that does not
/// convert fails the whole token.
pub fn convert_list<T: AllowedTypes>(value: &str) -> (r: Result<Vec<T>, Error>)
    ensures
        r is Ok <==> all_accepted::<T>(split_commas(value@)),
        r matches Ok(vs) ==> list_denotes(split_commas(value@), vs@),
        r matches Err(e) ==> e is Parsing && exists|k: int|
            first_rejected::<T>(split_commas(value@), k) && e.message() == conversion_message(
                #[trigger] split_commas(value@)[k],
                T::label(),
            ),
{
    let parts = split_on_commas(value);
    let ghost ps = split_commas(value@);
    assert(parts@.len() == ps.len());
    let mut out: Vec<T> = Vec::new();
    let mut i: usize = 0;
    while i < parts.len()
        invariant
            i <= parts@.len(),
            ps == split_commas(value@),
            parts@.map_values(|p: String| p@) == ps,
            list_denotes(ps.take(i as int), out@),
            forall|j: int| 0 <= j < i ==> T::accepts(#[trigger] ps[j]),
        decreases parts@.len() - i,
    {
        assert(parts@[i as int]@ == ps[i as int]);
        match convert::<T>(parts[i].as_str()) {
            Ok(v) => {
                out.push(v);
                assert(list_denotes(ps.take(i + 1), out@)) by {
                    assert forall|j: int| 0 <= j < i + 1 implies T::denotes(
                        #[trigger] ps.take(i + 1)[j],
                        out@[j],
                    ) by {
                        if j < i {
                            assert(ps.take(i as int)[j] == ps.take(i + 1)[j]);
                        }
                    }
                }
            },
            Err(e) => {
                assert(first_rejected::<T>(ps, i as int));
                return Err(e);
            },
        }
        i = i + 1;
    }
    assert(ps.take(i as int) =~= ps);
    Ok(out)
}

/// The type of what an option resolves to: one value, or a list of them.
pub trait OptionValue: Sized + View {
    /// How the value is shown in help text.
    spec fn text(&self) -> Seq<char>;

    fn to_text(&self) -> (r: String)
        ensures
            r@ == self.text(),
    ;

    fn copy_value(&self) -> (r: Self)
        ensures
            r@ == self@,
            r.text() == self.text(),
    ;
}

impl OptionValue for String {
    open spec fn text(&self) -> Seq<char> {
        self@
    }

    fn to_text(&self) -> (r: String) {
        self.clone()
    }

    fn copy_value(&self) -> (r: String) {
        self.clone()
    }
}

/// The shown values, each followed by a comma but the last.
pub open spec fn joined_text<T: AllowedTypes>(vals: Seq<T>) -> Seq<char>
    decreases vals.len(),
{
    if vals.len() == 0 {
        Seq::<char>::empty()
    } else if vals.len() == 1 {
        vals[0].shown()
    } else {
        joined_text(vals.drop_last()) + seq![','] + vals.last().shown()
    }
}

impl<T: AllowedTypes> OptionValue for Vec<T> {
    open spec fn text(&self) -> Seq<char> {
        joined_text(self@)
    }

    fn to_text(&self) -> (r: String) {
        let mut s = String::new();
        let mut i: usize = 0;
        while i < self.len()
            invariant
                i <= self@.len(),
                s@ == joined_text(self@.take(i as int)),
            decreases self@.len() - i,
        {
            if i > 0 {
                push_char(&mut s, ',');
            }
            let part = self[i].show();
            s.append(part.as_str());
            assert(self@.take(i + 1).drop_last() =~= self@.take(i as int));
            i = i + 1;
        }
        assert(self@.take(i as int) =~= self@);
        s
    }

    fn copy_value(&self) -> (r: Vec<T>) {
        let mut out: Vec<T> = Vec::new();
        let mut i: usize = 0;
        while i < self.len()
            invariant
                i <= self@.len(),
                out@ == self@.take(i as int),
            decreases self@.len() - i,
        {
            out.push(self[i].duplicate());
            assert(out@ =~= self@.take(i + 1));
            i = i + 1;
        }
        assert(self@.take(i as int) =~= self@);
        out
    }
}

} // verus!
