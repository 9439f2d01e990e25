//! The configuration of a node: which cell it is, how wide the grid is, how
//! long a period lasts and in which namespace the cells live.
//!
//! The values come as text from outside. A value that is absent or that
//! cannot be read as a number gets its default. The tick engine itself never
//! reads text: it is given the values that are resolved here.

use vstd::prelude::*;
use vstd::string::*;

verus! {

/// The name of a node that is not told its name.
pub const DEFAULT_HOSTNAME: &'static str = "cell-0";

/// What stands before the id in a node's name.
pub const HOSTNAME_PREFIX: &'static str = "cell-";

/// The id of a node whose name does not tell it.
pub const DEFAULT_ID: i32 = 0;

/// The width of the grid, where none is given.
pub const DEFAULT_GRID_WIDTH: i32 = 10;

/// The length of a period in milliseconds, where none is given.
pub const DEFAULT_TICK_INTERVAL_MS: u64 = 1000;

/// The namespace of the cells, where none is given.
pub const DEFAULT_NAMESPACE: &'static str = "cellular-automaton";

/// `c` is one of the digits `0` to `9`.
pub open spec fn is_digit(c: char) -> bool {
    '0' <= c <= '9'
}

/// The value of the digit `c`.
pub open spec fn digit_value(c: char) -> int {
    c as int - '0' as int
}

/// The number that a run of digits writes in base ten.
pub open spec fn number(digits: Seq<char>) -> int
    decreases digits.len(),
{
    if digits.len() == 0 {
        0
    } else {
        number(digits.drop_last()) * 10 + digit_value(digits.last())
    }
}

/// `s` is a run of at least one digit.
pub open spec fn all_digits(s: Seq<char>) -> bool {
    s.len() > 0 && forall|i: int| 0 <= i < s.len() ==> is_digit(#[trigger] s[i])
}

/// The `i32` that `s` writes in base ten: an optional sign, then at least
/// one digit and nothing else, for a number in the range of `i32`.
pub open spec fn spec_parse_i32(s: Seq<char>) -> Option<i32> {
    let signed = s.len() > 0 && (s[0] == '+' || s[0] == '-');
    let digits = if signed {
        s.skip(1)
    } else {
        s
    };
    let value = if signed && s[0] == '-' {
        -number(digits)
    } else {
        number(digits)
    };
    if all_digits(digits) && i32::MIN <= value <= i32::MAX {
        Some(value as i32)
    } else {
        None
    }
}

/// The `u64` that `s` writes in base ten: an optional plus sign, then at
/// least one digit and nothing else, for a number in the range of `u64`.
pub open spec fn spec_parse_u64(s: Seq<char>) -> Option<u64> {
    let digits = if s.len() > 0 && s[0] == '+' {
        s.skip(1)
    } else {
        s
    };
    if all_digits(digits) && number(digits) <= u64::MAX {
        Some(number(digits) as u64)
    } else {
        None
    }
}

/// The id that a node's name tells: the number behind the prefix, or the
/// default id where the name has no such prefix or no number behind it.
pub open spec fn spec_id_of_hostname(hostname: Seq<char>) -> i32 {
    let prefix = HOSTNAME_PREFIX@;
    if prefix.is_prefix_of(hostname) {
        match spec_parse_i32(hostname.skip(prefix.len() as int)) {
            Some(id) => id,
            None => DEFAULT_ID,
        }
    } else {
        DEFAULT_ID
    }
}

/// Whether the cell `id` starts alive: the cells with an even id do.
pub open spec fn spec_starts_alive(id: i32) -> bool {
    id % 2 == 0
}

/// The number written by a longer run of digits is no smaller.
proof fn lemma_number_grows(s: Seq<char>, k: int)
    requires
        0 <= k <= s.len(),
        forall|i: int| 0 <= i < s.len() ==> is_digit(#[trigger] s[i]),
    ensures
        0 <= number(s.take(k)) <= number(s),
    decreases s.len() - k,
{
    if k == s.len() {
        assert(s.take(k) =~= s);
        lemma_number_nonnegative(s);
    } else {
        lemma_number_grows(s, k + 1);
        assert(s.take(k + 1).drop_last() =~= s.take(k));
        lemma_number_nonnegative(s.take(k));
        assert(is_digit(s[k]));
    }
}

/// A run of digits writes no negative number.
proof fn lemma_number_nonnegative(s: Seq<char>)
    requires
        forall|i: int| 0 <= i < s.len() ==> is_digit(#[trigger] s[i]),
    ensures
        0 <= number(s),
    decreases s.len(),
{
    if s.len() > 0 {
        lemma_number_nonnegative(s.drop_last());
        assert(is_digit(s[s.len() - 1]));
    }
}

/// Reads the digits of `s` from position `from` to its end as a number of at
/// most `limit`.
fn parse_digits(s: &str, from: usize, limit: u64) -> (value: Option<u64>)
    requires
        from <= s@.len(),
    ensures
        value == (if all_digits(s@.skip(from as int)) && number(s@.skip(from as int)) <= limit {
            Some(number(s@.skip(from as int)) as u64)
        } else {
            None
        }),
        value matches Some(v) ==> v == number(s@.skip(from as int)),
{
    let len = s.unicode_len();
    let ghost text = s@.skip(from as int);
    if from == len {
        return None;
    }
    let mut acc: u128 = 0;
    let mut i: usize = from;
    while i < len
        invariant
            from <= i <= len,
            len == s@.len(),
            text == s@.skip(from as int),
            forall|j: int| 0 <= j < i - from ==> is_digit(#[trigger] text[j]),
            acc == number(text.take(i - from)),
            acc <= limit,
        decreases len - i,
    {
        let c = s.get_char(i);
        assert(text[i - from] == c);
        if !(c >= '0' && c <= '9') {
            return None;
        }
        let d = (c as u32 - '0' as u32) as u128;
        assert(text.take(i - from + 1).drop_last() =~= text.take(i - from));
        acc = acc * 10 + d;
        if acc > limit as u128 {
            proof {
                if all_digits(text) {
                    lemma_number_grows(text, i - from + 1);
                }
            }
            return None;
        }
        i += 1;
    }
    assert(text.take(i - from) =~= text);
    Some(acc as u64)
}

/// Reads `s` from position `from` to its end as an `i32`.
fn parse_i32_from(s: &str, from: usize) -> (value: Option<i32>)
    requires
        from <= s@.len(),
    ensures
        value == spec_parse_i32(s@.skip(from as int)),
{
    let len = s.unicode_len();
    if from == len {
        return None;
    }
    let first = s.get_char(from);
    assert(s@.skip(from as int)[0] == first);
    assert(s@.skip(from as int).skip(1) =~= s@.skip(from + 1));
    if first == '-' {
        match parse_digits(s, from + 1, 0x8000_0000) {
            Some(magnitude) => Some((-(magnitude as i64)) as i32),
            None => None,
        }
    } else if first == '+' {
        match parse_digits(s, from + 1, 0x7fff_ffff) {
            Some(magnitude) => Some(magnitude as i32),
            None => None,
        }
    } else {
        match parse_digits(s, from, 0x7fff_ffff) {
            Some(magnitude) => Some(magnitude as i32),
            None => None,
        }
    }
}

/// Reads `s` as an `i32` in base ten.
pub fn parse_i32(s: &str) -> (value: Option<i32>)
    ensures
        value == spec_parse_i32(s@),
{
    assert(s@.skip(0) =~= s@);
    parse_i32_from(s, 0)
}

/// Reads `s` as a `u64` in base ten.
pub fn parse_u64(s: &str) -> (value: Option<u64>)
    ensures
        value == spec_parse_u64(s@),
{
    assert(s@.skip(0) =~= s@);
    let len = s.unicode_len();
    if len > 0 && s.get_char(0) == '+' {
        parse_digits(s, 1, u64::MAX)
    } else {
        parse_digits(s, 0, u64::MAX)
    }
}

/// Whether `s` begins with `prefix`.
fn starts_with(s: &str, prefix: &str) -> (yes: bool)
    ensures
        yes == prefix@.is_prefix_of(s@),
{
    let len = prefix.unicode_len();
    if s.unicode_len() < len {
        return false;
    }
    let mut i: usize = 0;
    while i < len
        invariant
            i <= len,
            len == prefix@.len(),
            len <= s@.len(),
            forall|j: int| 0 <= j < i ==> s@[j] == prefix@[j],
        decreases len - i,
    {
        if s.get_char(i) != prefix.get_char(i) {
            assert(s@.subrange(0, len as int)[i as int] != prefix@[i as int]);
            return false;
        }
        i += 1;
    }
    assert(prefix@ =~= s@.subrange(0, len as int));
    true
}

/// The id that a node's name tells.
pub fn id_of_hostname(hostname: &str) -> (id: i32)
    ensures
        id == spec_id_of_hostname(hostname@),
{
    if starts_with(hostname, HOSTNAME_PREFIX) {
        match parse_i32_from(hostname, HOSTNAME_PREFIX.unicode_len()) {
            Some(id) => id,
            None => DEFAULT_ID,
        }
    } else {
        DEFAULT_ID
    }
}

/// Whether the cell `id` starts alive.
#[verifier::when_used_as_spec(spec_starts_alive)]
pub fn starts_alive(id: i32) -> (alive: bool)
    ensures
        alive == spec_starts_alive(id),
{
    id % 2 == 0
}

/// What a node is told at its start.
pub struct NodeConfig {
    /// The node's name, which is also the name of its own object in the
    /// control plane.
    pub hostname: String,
    pub id: i32,
    pub grid_width: i32,
    pub tick_interval_ms: u64,
    pub namespace: String,
    pub initial_alive: bool,
}

/// The text if there is one, else the default.
fn text_or(value: Option<&str>, default: &str) -> (text: String)
    ensures
        text@ == (match value {
            Some(v) => v@,
            None => default@,
        }),
{
    match value {
        Some(v) => String::from_str(v),
        None => String::from_str(default),
    }
}

/// Resolves the configuration from the values given from outside, each of
/// which may be absent.
pub fn resolve(
    hostname: Option<&str>,
    grid_width: Option<&str>,
    tick_interval_ms: Option<&str>,
    namespace: Option<&str>,
) -> (config: NodeConfig)
    ensures
        config.hostname@ == (match hostname {
            Some(h) => h@,
            None => DEFAULT_HOSTNAME@,
        }),
        config.id == spec_id_of_hostname(config.hostname@),
        config.grid_width == (match grid_width {
            Some(w) => match spec_parse_i32(w@) {
                Some(width) => width,
                None => DEFAULT_GRID_WIDTH,
            },
            None => DEFAULT_GRID_WIDTH,
        }),
        config.tick_interval_ms == (match tick_interval_ms {
            Some(t) => match spec_parse_u64(t@) {
                Some(interval) => interval,
                None => DEFAULT_TICK_INTERVAL_MS,
            },
            None => DEFAULT_TICK_INTERVAL_MS,
        }),
        config.namespace@ == (match namespace {
            Some(n) => n@,
            None => DEFAULT_NAMESPACE@,
        }),
        config.initial_alive == spec_starts_alive(config.id),
{
    let hostname = text_or(hostname, DEFAULT_HOSTNAME);
    let id = id_of_hostname(hostname.as_str());
    let grid_width = match grid_width {
        Some(w) => match parse_i32(w) {
            Some(width) => width,
            None => DEFAULT_GRID_WIDTH,
        },
        None => DEFAULT_GRID_WIDTH,
    };
    let tick_interval_ms = match tick_interval_ms {
        Some(t) => match parse_u64(t) {
            Some(interval) => interval,
            None => DEFAULT_TICK_INTERVAL_MS,
        },
        None => DEFAULT_TICK_INTERVAL_MS,
    };
    let namespace = text_or(namespace, DEFAULT_NAMESPACE);
    NodeConfig { hostname, id, grid_width, tick_interval_ms, namespace, initial_alive: starts_alive(id) }
}

} // verus!
