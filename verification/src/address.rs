//! Where a peer is reached: every cell answers status queries under a name
//! made from its id, on one fixed port.

use vstd::prelude::*;
use vstd::string::*;

verus! {

/// The port on which every cell answers status queries.
pub const PEER_PORT: u16 = 50051;

/// The character for the digit `d`, for `d` from 0 to 9.
pub open spec fn digit(d: int) -> char {
    if d == 0 {
        '0'
    } else if d == 1 {
        '1'
    } else if d == 2 {
        '2'
    } else if d == 3 {
        '3'
    } else if d == 4 {
        '4'
    } else if d == 5 {
        '5'
    } else if d == 6 {
        '6'
    } else if d == 7 {
        '7'
    } else if d == 8 {
        '8'
    } else {
        '9'
    }
}

/// The digits of `n` in base ten, the most significant first, without
/// leading zeros.
pub open spec fn digits(n: nat) -> Seq<char>
    decreases n,
{
    if n < 10 {
        seq![digit(n as int)]
    } else {
        digits(n / 10).push(digit((n % 10) as int))
    }
}

/// The number `i` in base ten, with a minus sign in front if it is negative.
pub open spec fn decimal(i: int) -> Seq<char> {
    if i < 0 {
        seq!['-'] + digits((-i) as nat)
    } else {
        digits(i as nat)
    }
}

/// The name of cell `id` in the namespace: `cell-<id>.cell.<namespace>`.
pub open spec fn spec_peer_name(id: int, namespace: Seq<char>) -> Seq<char> {
    "cell-"@ + decimal(id) + ".cell."@ + namespace
}

/// The address at which cell `id` answers status queries: its name within
/// the cluster, and the peer port.
pub open spec fn spec_peer_url(id: int, namespace: Seq<char>) -> Seq<char> {
    "http://"@ + spec_peer_name(id, namespace) + ".svc.cluster.local:"@ + decimal(PEER_PORT as int)
}

/// The digit `d` as a string of one character.
fn digit_str(d: u64) -> (s: &'static str)
    requires
        d < 10,
    ensures
        s@ == seq![digit(d as int)],
{
    proof {
        reveal_strlit("0");
        reveal_strlit("1");
        reveal_strlit("2");
        reveal_strlit("3");
        reveal_strlit("4");
        reveal_strlit("5");
        reveal_strlit("6");
        reveal_strlit("7");
        reveal_strlit("8");
        reveal_strlit("9");
    }
    let s = if d == 0 {
        "0"
    } else if d == 1 {
        "1"
    } else if d == 2 {
        "2"
    } else if d == 3 {
        "3"
    } else if d == 4 {
        "4"
    } else if d == 5 {
        "5"
    } else if d == 6 {
        "6"
    } else if d == 7 {
        "7"
    } else if d == 8 {
        "8"
    } else {
        "9"
    };
    assert(s@ =~= seq![digit(d as int)]);
    s
}

/// Appends the digits of `n` to `out`.
fn push_digits(out: &mut String, n: u64)
    ensures
        final(out)@ == old(out)@ + digits(n as nat),
    decreases n,
{
    if n >= 10 {
        push_digits(out, n / 10);
    }
    out.append(digit_str(n % 10));
    assert(out@ =~= old(out)@ + digits(n as nat));
}

/// Appends the number `i` in base ten to `out`.
fn push_decimal(out: &mut String, i: i32)
    ensures
        final(out)@ == old(out)@ + decimal(i as int),
{
    if i < 0 {
        out.append("-");
        proof {
            reveal_strlit("-");
        }
        push_digits(out, (-(i as i64)) as u64);
        assert(out@ =~= old(out)@ + decimal(i as int));
    } else {
        push_digits(out, i as u64);
    }
}

/// The name of cell `id` in the namespace: `cell-<id>.cell.<namespace>`.
pub fn peer_name(id: i32, namespace: &str) -> (name: String)
    ensures
        name@ == spec_peer_name(id as int, namespace@),
{
    let mut name = String::from_str("cell-");
    push_decimal(&mut name, id);
    name.append(".cell.");
    name.append(namespace);
    name
}

/// The address at which cell `id` answers status queries.
pub fn peer_url(id: i32, namespace: &str) -> (url: String)
    ensures
        url@ == spec_peer_url(id as int, namespace@),
{
    let mut url = String::from_str("http://");
    let name = peer_name(id, namespace);
    url.append(name.as_str());
    url.append(".svc.cluster.local:");
    push_decimal(&mut url, PEER_PORT as i32);
    url
}

} // verus!
