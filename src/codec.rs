use vstd::prelude::*;
use vstd::string::StringExecFns;

verus! {

/// The character of a decimal digit.
pub open spec fn digit(d: nat) -> char {
    seq!['0', '1', '2', '3', '4', '5', '6', '7', '8', '9'][d as int]
}

/// The decimal digits of `n`, most significant first, without leading zeros.
pub open spec fn digits(n: nat) -> Seq<char>
    decreases n,
{
    if n < 10 {
        seq![digit(n)]
    } else {
        digits(n / 10).push(digit(n % 10))
    }
}

/// An integer written in decimal, with a leading `-` where it is negative.
pub open spec fn decimal(i: int) -> Seq<char> {
    if i < 0 {
        seq!['-'] + digits((-i) as nat)
    } else {
        digits(i as nat)
    }
}

/// The JSON text of a string: quoted, with escapes. Named, not spelled out.
pub uninterp spec fn json_string(s: Seq<char>) -> Seq<char>;

/// A payload that a cell stores on the server as text.
pub trait Codec: Sized + View {
    /// The text that stands for the value `v`.
    spec fn encoding(v: Self::V) -> Seq<char>;

    fn encode(&self) -> (r: String)
        ensures
            r@ == Self::encoding(self@),
    ;

    /// Reads a value back; the text of any value reads back as that value.
    fn decode(s: &String) -> (r: Option<Self>)
        ensures
            forall|v: Self::V| #[trigger] Self::encoding(v) == s@ ==> (r matches Some(x) && x@ == v),
    ;
}

/// Relies on serde_json::to_string: an `i32` is written as plain decimal.
#[verifier::external_body]
fn json_of_i32(v: i32) -> (r: String)
    ensures
        r@ == decimal(v as int),
{
    match serde_json::to_string(&v) {
        Ok(s) => s,
        Err(_) => String::new(),
    }
}

/// Relies on serde_json::from_str: the decimal text of an `i32` reads back as it.
#[verifier::external_body]
fn i32_of_json(s: &String) -> (r: Option<i32>)
    ensures
        forall|v: i32| #[trigger] decimal(v as int) == s@ ==> r == Some(v),
{
    serde_json::from_str::<i32>(s).ok()
}

/// Relies on serde_json::to_string: a `u64` is written as plain decimal.
#[verifier::external_body]
fn json_of_u64(v: u64) -> (r: String)
    ensures
        r@ == decimal(v as int),
{
    match serde_json::to_string(&v) {
        Ok(s) => s,
        Err(_) => String::new(),
    }
}

/// Relies on serde_json::from_str: the decimal text of a `u64` reads back as it.
#[verifier::external_body]
fn u64_of_json(s: &String) -> (r: Option<u64>)
    ensures
        forall|v: u64| #[trigger] decimal(v as int) == s@ ==> r == Some(v),
{
    serde_json::from_str::<u64>(s).ok()
}

/// Relies on serde_json::to_string: a `bool` is written `true` or `false`.
#[verifier::external_body]
fn json_of_bool(v: bool) -> (r: String)
    ensures
        r@ == (if v { "true"@ } else { "false"@ }),
{
    match serde_json::to_string(&v) {
        Ok(s) => s,
        Err(_) => String::new(),
    }
}

/// Relies on serde_json::from_str: `true` and `false` read back as the two booleans.
#[verifier::external_body]
fn bool_of_json(s: &String) -> (r: Option<bool>)
    ensures
        s@ == "true"@ ==> r == Some(true),
        s@ == "false"@ ==> r == Some(false),
{
    serde_json::from_str::<bool>(s).ok()
}

/// Relies on serde_json::to_string: a string is written as its JSON string literal.
#[verifier::external_body]
fn json_of_string(v: &String) -> (r: String)
    ensures
        r@ == json_string(v@),
{
    match serde_json::to_string(v) {
        Ok(s) => s,
        Err(_) => String::new(),
    }
}

/// Relies on serde_json::from_str: the JSON string literal of a string reads back as it.
#[verifier::external_body]
fn string_of_json(s: &String) -> (r: Option<String>)
    ensures
        forall|t: Seq<char>| #[trigger] json_string(t) == s@ ==> r is Some && r->0@ == t,
{
    serde_json::from_str::<String>(s).ok()
}

impl Codec for i32 {
    open spec fn encoding(v: i32) -> Seq<char> {
        decimal(v as int)
    }

    fn encode(&self) -> (r: String) {
        json_of_i32(*self)
    }

    fn decode(s: &String) -> (r: Option<i32>) {
        i32_of_json(s)
    }
}

impl Codec for u64 {
    open spec fn encoding(v: u64) -> Seq<char> {
        decimal(v as int)
    }

    fn encode(&self) -> (r: String) {
        json_of_u64(*self)
    }

    fn decode(s: &String) -> (r: Option<u64>) {
        u64_of_json(s)
    }
}

impl Codec for bool {
    open spec fn encoding(v: bool) -> Seq<char> {
        if v {
            "true"@
        } else {
            "false"@
        }
    }

    fn encode(&self) -> (r: String) {
        json_of_bool(*self)
    }

    fn decode(s: &String) -> (r: Option<bool>) {
        bool_of_json(s)
    }
}

impl Codec for String {
    open spec fn encoding(v: Seq<char>) -> Seq<char> {
        json_string(v)
    }

    fn encode(&self) -> (r: String) {
        json_of_string(self)
    }

    fn decode(s: &String) -> (r: Option<String>) {
        string_of_json(s)
    }
}

/// The key `key` followed by `suffix`.
pub fn sub_key(key: &String, suffix: &str) -> (r: String)
    ensures
        r@ == key@ + suffix@,
{
    key.clone().concat(suffix)
}

/// The key `key` followed by `suffix` and the decimal form of `n`.
pub fn numbered_key(key: &String, suffix: &str, n: u64) -> (r: String)
    ensures
        r@ == key@ + suffix@ + decimal(n as int),
{
    let tail = json_of_u64(n);
    sub_key(key, suffix).concat(tail.as_str())
}

} // verus!
