//! The texts of the errors that the relay reports to a caller.
use vstd::prelude::*;
use vstd::string::*;

verus! {

/// The decimal digit `d`, for `0 <= d < 10`.
pub open spec fn digit_char(d: int) -> char {
    seq!['0', '1', '2', '3', '4', '5', '6', '7', '8', '9'][d]
}

/// The decimal numeral of `n`, without leading zeros.
pub open spec fn decimal_nat(n: nat) -> Seq<char>
    decreases n,
{
    if n < 10 {
        seq![digit_char(n as int)]
    } else {
        decimal_nat(n / 10) + seq![digit_char((n % 10) as int)]
    }
}

/// The decimal numeral of `n`, with a leading `-` where it is negative.
pub open spec fn decimal(n: int) -> Seq<char> {
    if n < 0 {
        seq!['-'] + decimal_nat((-n) as nat)
    } else {
        decimal_nat(n as nat)
    }
}

/// `relay <method> error: <cause>`
pub open spec fn relay_error_text(method: Seq<char>, cause: Seq<char>) -> Seq<char> {
    "relay "@ + method + " error: "@ + cause
}

/// The error of a pair-forwarding call from a session that has no partner:
/// `relay <method> error: unchained client_id(<id>)`.
pub open spec fn unchained_text(method: Seq<char>, client_id: int) -> Seq<char> {
    relay_error_text(method, "unchained client_id("@ + decimal(client_id) + ")"@)
}

/// `deserialize <name> -> <cause>`
pub open spec fn decode_error_text(name: Seq<char>, cause: Seq<char>) -> Seq<char> {
    "deserialize "@ + name + " -> "@ + cause
}

fn digit_str(d: u64) -> (r: &'static str)
    requires
        d < 10,
    ensures
        r@ == seq![digit_char(d as int)],
{
    proof {
        reveal_strlit("0");
        reveal_strlit("1");
        reveal_strlit("2");
        reveal_strlit("3");
        reveal_strlit("4");
        reveal_strlit("5");
        reveal_strlit("6");
        reveal_strlit("7");
        reveal_strlit("8");
        reveal_strlit("9");
    }
    match d {
        0 => "0",
        1 => "1",
        2 => "2",
        3 => "3",
        4 => "4",
        5 => "5",
        6 => "6",
        7 => "7",
        8 => "8",
        _ => "9",
    }
}

fn decimal_digits(n: u64) -> (r: String)
    ensures
        r@ == decimal_nat(n as nat),
    decreases n,
{
    if n < 10 {
        String::from_str(digit_str(n))
    } else {
        let mut s = decimal_digits(n / 10);
        s.append(digit_str(n % 10));
        s
    }
}

/// The decimal numeral of `n`.
pub fn decimal_string(n: i32) -> (r: String)
    ensures
        r@ == decimal(n as int),
{
    if n < 0 {
        let m: u64 = (-(n as i64)) as u64;
        let digits = decimal_digits(m);
        proof {
            reveal_strlit("-");
        }
        let mut s = String::from_str("-");
        s.append(digits.as_str());
        s
    } else {
        decimal_digits(n as u64)
    }
}

/// The error that a call relayed for `method` reports when it failed with
/// `cause`.
pub fn relay_error(method: &str, cause: &str) -> (r: String)
    ensures
        r@ == relay_error_text(method@, cause@),
{
    let mut s = String::from_str("relay ");
    s.append(method);
    s.append(" error: ");
    s.append(cause);
    s
}

/// The error of a pair-forwarding call for `method` from `client_id`, which
/// has no partner.
pub fn unchained_error(method: &str, client_id: i32) -> (r: String)
    ensures
        r@ == unchained_text(method@, client_id as int),
{
    let mut cause = String::from_str("unchained client_id(");
    let id = decimal_string(client_id);
    cause.append(id.as_str());
    cause.append(")");
    relay_error(method, cause.as_str())
}

/// The error of a call whose parameters do not decode as `name`.
pub fn decode_error(name: &str, cause: &str) -> (r: String)
    ensures
        r@ == decode_error_text(name@, cause@),
{
    let mut s = String::from_str("deserialize ");
    s.append(name);
    s.append(" -> ");
    s.append(cause);
    s
}

} // verus!
