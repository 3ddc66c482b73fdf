//! Wire codec: a message travels as a flat list of strings that alternates a
//! field name and that field's value, each value written as a JSON scalar.
use vstd::prelude::*;

use crate::error::UtilError;

verus! {

/// The lowercase hexadecimal digit of `n` (`n < 16`).
pub open spec fn hex_digit(n: u32) -> char {
    if n < 10 {
        (n + 48) as u8 as char
    } else {
        (n + 87) as u8 as char
    }
}

/// How one character is written inside a JSON string literal: quote and
/// backslash are escaped, the control characters with a short form use it,
/// the other control characters become `\u00XX`, everything else stays.
pub open spec fn json_escape(c: char) -> Seq<char> {
    if c == '"' {
        seq!['\\', '"']
    } else if c == '\\' {
        seq!['\\', '\\']
    } else if c == '\u{8}' {
        seq!['\\', 'b']
    } else if c == '\t' {
        seq!['\\', 't']
    } else if c == '\n' {
        seq!['\\', 'n']
    } else if c == '\u{c}' {
        seq!['\\', 'f']
    } else if c == '\r' {
        seq!['\\', 'r']
    } else if (c as u32) < 0x20 {
        seq!['\\', 'u', '0', '0', hex_digit((c as u32) / 16), hex_digit((c as u32) % 16)]
    } else {
        seq![c]
    }
}

pub open spec fn json_chars(s: Seq<char>) -> Seq<char>
    decreases s.len(),
{
    if s.len() == 0 {
        Seq::empty()
    } else {
        json_escape(s[0]) + json_chars(s.drop_first())
    }
}

/// The JSON string literal of `s`.
pub open spec fn json_quote(s: Seq<char>) -> Seq<char> {
    seq!['"'] + json_chars(s) + seq!['"']
}

/// `t` is exactly the JSON string literal of some string.
pub open spec fn is_json_quote(t: Seq<char>) -> bool {
    exists|s: Seq<char>| json_quote(s) == t
}

/// The string whose JSON literal is `t` (meaningful when `is_json_quote(t)`).
pub open spec fn unquote(t: Seq<char>) -> Seq<char> {
    choose|s: Seq<char>| json_quote(s) == t
}

pub open spec fn null_text() -> Seq<char> {
    seq!['n', 'u', 'l', 'l']
}

/// JSON text of an optional string: `null` or the string literal.
pub open spec fn opt_text(v: Option<Seq<char>>) -> Seq<char> {
    match v {
        None => null_text(),
        Some(s) => json_quote(s),
    }
}

/// The optional string that `t` is the JSON text of, if any.
pub open spec fn opt_value(t: Seq<char>) -> Option<Option<Seq<char>>> {
    if t == null_text() {
        Some(None)
    } else if is_json_quote(t) {
        Some(Some(unquote(t)))
    } else {
        None
    }
}

pub open spec fn opt_view(v: Option<String>) -> Option<Seq<char>> {
    match v {
        None => None,
        Some(s) => Some(s@),
    }
}

pub open spec fn texts(v: Seq<String>) -> Seq<Seq<char>> {
    v.map_values(|s: String| s@)
}

/// The value paired with the first field named `name`, looking at the pairs
/// that start at even positions from `i` on.
pub open spec fn lookup_from(p: Seq<Seq<char>>, name: Seq<char>, i: int) -> Option<Seq<char>>
    decreases p.len() - i,
{
    if i < 0 || i + 2 > p.len() {
        None
    } else if p[i] == name {
        Some(p[i + 1])
    } else {
        lookup_from(p, name, i + 2)
    }
}

pub open spec fn lookup(p: Seq<Seq<char>>, name: Seq<char>) -> Option<Seq<char>> {
    lookup_from(p, name, 0)
}

/// `p` is a list of name/value pairs whose every name is one of `known`.
pub open spec fn names_known(p: Seq<Seq<char>>, known: Seq<Seq<char>>) -> bool {
    &&& p.len() % 2 == 0
    &&& forall|i: int| 0 <= i < p.len() && i % 2 == 0 ==> known.contains(#[trigger] p[i])
}

/// A message that can be written as a field/value list.
pub trait ToParams: View {
    /// The list that a message with view `m` is written as.
    spec fn params_spec(m: Self::V) -> Seq<Seq<char>>;

    fn to_params(&self) -> (r: Vec<String>)
        ensures
            texts(r@) == Self::params_spec(self@),
    ;
}

/// A message that can be read back from a field/value list.
pub trait FromParams: Sized + View {
    /// The message that `p` describes, if it describes one.
    spec fn from_params_spec(p: Seq<Seq<char>>) -> Option<Self::V>;

    fn from_params(params: Vec<String>) -> (r: Result<Self, UtilError>)
        ensures
            match r {
                Ok(m) => Self::from_params_spec(texts(params@)) == Some(m@),
                Err(e) => Self::from_params_spec(texts(params@)) is None && e is MalformedParams,
            },
    ;
}

/// The decimal digit character of `n` (`n < 10`).
pub open spec fn digit_char(n: nat) -> char {
    (n + 48) as u8 as char
}

/// The decimal digits of `n`, without leading zeros.
pub open spec fn decimal_nat(n: nat) -> Seq<char>
    decreases n,
{
    if n < 10 {
        seq![digit_char(n)]
    } else {
        decimal_nat(n / 10).push(digit_char(n % 10))
    }
}

/// The decimal text of `v`, with a minus sign when negative.
pub open spec fn decimal_i64(v: i64) -> Seq<char> {
    if v < 0 {
        seq!['-'] + decimal_nat((-v) as nat)
    } else {
        decimal_nat(v as nat)
    }
}

pub open spec fn is_digits(s: Seq<char>) -> bool {
    &&& s.len() > 0
    &&& forall|i: int| 0 <= i < s.len() ==> '0' <= #[trigger] s[i] && s[i] <= '9'
}

pub open spec fn digits_value(s: Seq<char>) -> int
    decreases s.len(),
{
    if s.len() == 0 {
        0
    } else {
        digits_value(s.drop_last()) * 10 + (s.last() as int - 48)
    }
}

/// The `i64` that `s` writes in decimal: an optional sign, then one or more
/// digits, with a value in range.
pub open spec fn parse_i64_spec(s: Seq<char>) -> Option<i64> {
    let signed = s.len() > 0 && (s[0] == '-' || s[0] == '+');
    let body = if signed {
        s.drop_first()
    } else {
        s
    };
    let v = if s.len() > 0 && s[0] == '-' {
        -digits_value(body)
    } else {
        digits_value(body)
    };
    if is_digits(body) && i64::MIN <= v <= i64::MAX {
        Some(v as i64)
    } else {
        None
    }
}

/// Relies on `str::parse::<i64>`: an optional `+` or `-`, then decimal
/// digits whose value fits; anything else is an error.
#[verifier::external_body]
pub(crate) fn parse_i64(s: &str) -> (r: Option<i64>)
    ensures
        r == parse_i64_spec(s@),
{
    s.parse::<i64>().ok()
}

/// Relies on `i64::to_string`: the decimal text of the value.
#[verifier::external_body]
pub(crate) fn i64_text(v: i64) -> (r: String)
    ensures
        r@ == decimal_i64(v),
{
    v.to_string()
}

/// Relies on serde_json::to_string applied to a string: it writes the JSON
/// string literal, escaping quote, backslash and control characters.
#[verifier::external_body]
pub(crate) fn json_string(s: &str) -> (r: String)
    ensures
        r@ == json_quote(s@),
{
    serde_json::to_string(s).unwrap()
}

/// Relies on serde_json::from_str::<String>: it reads a JSON string literal,
/// and on the literal that serde_json writes for a string it gives back that
/// string.
#[verifier::external_body]
fn parse_json_string(t: &str) -> (r: Option<String>)
    ensures
        is_json_quote(t@) ==> r is Some && r->0@ == unquote(t@),
{
    serde_json::from_str::<String>(t).ok()
}

/// Index of the value paired with the first field named `name`.
pub fn find_field(params: &Vec<String>, name: &String) -> (r: Option<usize>)
    ensures
        match r {
            Some(i) => i < params.len() && lookup(texts(params@), name@) == Some(params@[i as int]@),
            None => lookup(texts(params@), name@) is None,
        },
{
    let ghost p = texts(params@);
    let mut i: usize = 0;
    while i <= params.len() && params.len() - i >= 2
        invariant
            i <= params.len(),
            p == texts(params@),
            lookup(p, name@) == lookup_from(p, name@, i as int),
        decreases params.len() - i,
    {
        if params[i] == *name {
            return Some(i + 1);
        }
        i = i + 2;
    }
    None
}

/// Whether `params` pairs names and values and every name is one of `known`.
pub fn names_within(params: &Vec<String>, known: &Vec<String>) -> (r: bool)
    ensures
        r == names_known(texts(params@), texts(known@)),
{
    let ghost p = texts(params@);
    let ghost k = texts(known@);
    if params.len() % 2 != 0 {
        return false;
    }
    let mut i: usize = 0;
    while i < params.len()
        invariant
            i <= params.len(),
            i % 2 == 0,
            params.len() % 2 == 0,
            p == texts(params@),
            k == texts(known@),
            forall|j: int| 0 <= j < i && j % 2 == 0 ==> k.contains(#[trigger] p[j]),
        decreases params.len() - i,
    {
        let mut found = false;
        let mut j: usize = 0;
        while j < known.len()
            invariant
                j <= known.len(),
                i < params.len(),
                p == texts(params@),
                k == texts(known@),
                found ==> k.contains(p[i as int]),
                !found ==> forall|m: int| 0 <= m < j ==> k[m] != p[i as int],
            decreases known.len() - j,
        {
            if known[j] == params[i] {
                found = true;
                assert(k[j as int] == p[i as int]);
            }
            j = j + 1;
        }
        if !found {
            assert(!k.contains(p[i as int]));
            return false;
        }
        i = i + 2;
    }
    true
}

/// The JSON text of an optional string.
pub fn encode_opt(v: &Option<String>) -> (r: String)
    ensures
        r@ == opt_text(opt_view(*v)),
{
    match v {
        Some(s) => json_string(s.as_str()),
        None => {
            proof {
                reveal_strlit("null");
            }
            String::from_str("null")
        },
    }
}

/// The string that `t` is the JSON literal of, if `t` is exactly such a
/// literal.
pub fn decode_str(t: &String) -> (r: Option<String>)
    ensures
        match r {
            Some(v) => is_json_quote(t@) && v@ == unquote(t@),
            None => !is_json_quote(t@),
        },
{
    match parse_json_string(t.as_str()) {
        Some(v) => {
            let back = json_string(v.as_str());
            if back == *t {
                proof {
                    lemma_unquote_quote(v@);
                }
                Some(v)
            } else {
                None
            }
        },
        None => None,
    }
}

/// The optional string that `t` is the JSON text of, if any.
pub fn decode_opt(t: &String) -> (r: Option<Option<String>>)
    ensures
        match r {
            Some(v) => opt_value(t@) == Some(opt_view(v)),
            None => opt_value(t@) is None,
        },
{
    proof {
        reveal_strlit("null");
    }
    let null = String::from_str("null");
    assert(null@ == null_text());
    if *t == null {
        Some(None)
    } else {
        match decode_str(t) {
            Some(v) => Some(Some(v)),
            None => None,
        }
    }
}

proof fn lemma_hex_digit_injective(a: u32, b: u32)
    requires
        a < 16,
        b < 16,
        hex_digit(a) == hex_digit(b),
    ensures
        a == b,
{
    assert(hex_digit(a) as u32 == if a < 10 { a + 48 } else { a + 87 });
    assert(hex_digit(b) as u32 == if b < 10 { b + 48 } else { b + 87 });
}

proof fn lemma_escape_nonempty(c: char)
    ensures
        json_escape(c).len() >= 1,
        json_escape(c)[0] == '\\' <==> json_escape(c).len() > 1,
        json_escape(c).len() == 1 ==> json_escape(c)[0] == c,
        json_escape(c).len() > 1 ==> json_escape(c).len() == 2 || json_escape(c).len() == 6,
{
}

/// Two escapes that are both prefixes of one text are escapes of one character.
proof fn lemma_escape_prefix(c1: char, c2: char, w: Seq<char>)
    requires
        json_escape(c1).len() <= w.len(),
        json_escape(c2).len() <= w.len(),
        w.subrange(0, json_escape(c1).len() as int) == json_escape(c1),
        w.subrange(0, json_escape(c2).len() as int) == json_escape(c2),
    ensures
        c1 == c2,
{
    let e1 = json_escape(c1);
    let e2 = json_escape(c2);
    lemma_escape_nonempty(c1);
    lemma_escape_nonempty(c2);
    assert(e1[0] == w.subrange(0, e1.len() as int)[0]);
    assert(e2[0] == w.subrange(0, e2.len() as int)[0]);
    if e1.len() > 1 {
        assert(e1[1] == w.subrange(0, e1.len() as int)[1]);
        assert(e2[1] == w.subrange(0, e2.len() as int)[1]);
        if e1.len() == 6 {
            assert(e1[4] == w.subrange(0, e1.len() as int)[4]);
            assert(e1[5] == w.subrange(0, e1.len() as int)[5]);
            assert(e2[4] == w.subrange(0, e2.len() as int)[4]);
            assert(e2[5] == w.subrange(0, e2.len() as int)[5]);
            lemma_hex_digit_injective((c1 as u32) / 16, (c2 as u32) / 16);
            lemma_hex_digit_injective((c1 as u32) % 16, (c2 as u32) % 16);
            assert(c1 as u32 == c2 as u32);
        }
    }
}

proof fn lemma_json_chars_injective(a: Seq<char>, b: Seq<char>)
    requires
        json_chars(a) == json_chars(b),
    ensures
        a == b,
    decreases a.len(),
{
    if a.len() == 0 {
        if b.len() > 0 {
            lemma_escape_nonempty(b[0]);
        }
    } else {
        if b.len() == 0 {
            lemma_escape_nonempty(a[0]);
        } else {
            let w = json_chars(a);
            let e1 = json_escape(a[0]);
            let e2 = json_escape(b[0]);
            assert(w.subrange(0, e1.len() as int) == e1);
            assert(w.subrange(0, e2.len() as int) == e2);
            lemma_escape_prefix(a[0], b[0], w);
            assert(json_chars(a.drop_first()) == w.subrange(e1.len() as int, w.len() as int));
            assert(json_chars(b.drop_first()) == w.subrange(e2.len() as int, w.len() as int));
            lemma_json_chars_injective(a.drop_first(), b.drop_first());
            assert(a == seq![a[0]] + a.drop_first());
            assert(b == seq![b[0]] + b.drop_first());
        }
    }
}

/// Distinct strings have distinct JSON literals.
pub proof fn lemma_json_quote_injective(a: Seq<char>, b: Seq<char>)
    requires
        json_quote(a) == json_quote(b),
    ensures
        a == b,
{
    let qa = json_quote(a);
    assert(json_chars(a) == qa.subrange(1, qa.len() - 1));
    assert(json_chars(b) == qa.subrange(1, qa.len() - 1));
    lemma_json_chars_injective(a, b);
}

/// A string literal is read back as the string it was written from.
pub proof fn lemma_unquote_quote(s: Seq<char>)
    ensures
        is_json_quote(json_quote(s)),
        unquote(json_quote(s)) == s,
{
    let t = json_quote(s);
    assert(json_quote(s) == t);
    let u = unquote(t);
    lemma_json_quote_injective(u, s);
}

/// An optional string is read back from its JSON text.
pub proof fn lemma_opt_value_text(v: Option<Seq<char>>)
    ensures
        opt_value(opt_text(v)) == Some(v),
{
    match v {
        None => {},
        Some(s) => {
            lemma_unquote_quote(s);
            assert(json_quote(s)[0] == '"');
            assert(null_text()[0] == 'n');
        },
    }
}

} // verus!
