use crate::types::{FlowId, NodeId, PortId};
use vstd::prelude::*;
use vstd::string::*;

verus! {

/// The text of one decimal digit.
pub open spec fn digit_text(d: int) -> Seq<char> {
    if d == 0 {
        "0"@
    } else if d == 1 {
        "1"@
    } else if d == 2 {
        "2"@
    } else if d == 3 {
        "3"@
    } else if d == 4 {
        "4"@
    } else if d == 5 {
        "5"@
    } else if d == 6 {
        "6"@
    } else if d == 7 {
        "7"@
    } else if d == 8 {
        "8"@
    } else {
        "9"@
    }
}

/// A number in decimal notation, without leading zeros.
pub open spec fn decimal(n: nat) -> Seq<char>
    decreases n,
{
    if n < 10 {
        digit_text(n as int)
    } else {
        decimal(n / 10) + digit_text((n % 10) as int)
    }
}

fn digit_str(d: u64) -> (s: &'static str)
    requires
        d < 10,
    ensures
        s@ == digit_text(d as int),
{
    if d == 0 {
        "0"
    } else if d == 1 {
        "1"
    } else if d == 2 {
        "2"
    } else if d == 3 {
        "3"
    } else if d == 4 {
        "4"
    } else if d == 5 {
        "5"
    } else if d == 6 {
        "6"
    } else if d == 7 {
        "7"
    } else if d == 8 {
        "8"
    } else {
        "9"
    }
}

/// Writes a number in decimal notation.
pub fn decimal_string(n: u64) -> (s: String)
    ensures
        s@ == decimal(n as nat),
    decreases n,
{
    if n < 10 {
        String::from_str(digit_str(n))
    } else {
        let mut s = decimal_string(n / 10);
        s.append(digit_str(n % 10));
        s
    }
}

/// The hexadecimal digit for a value below sixteen, in lower case.
pub open spec fn hex_digit(n: int) -> char {
    seq!['0', '1', '2', '3', '4', '5', '6', '7', '8', '9', 'a', 'b', 'c', 'd', 'e', 'f'][n]
}

/// The `k`-th group of four bits of a 128-bit value, counted from the top.
pub open spec fn nibble(value: u128, k: int) -> int {
    ((value as int) / pow16((31 - k) as nat)) % 16
}

/// Sixteen to the power of `e`.
pub open spec fn pow16(e: nat) -> int
    decreases e,
{
    if e == 0 {
        1
    } else {
        16 * pow16((e - 1) as nat)
    }
}

/// How many hyphens stand before the place `i` of a hyphenated identifier.
pub open spec fn hyphens_before(i: int) -> int {
    (if i > 8 {
        1int
    } else {
        0int
    }) + (if i > 13 {
        1int
    } else {
        0int
    }) + (if i > 18 {
        1int
    } else {
        0int
    }) + (if i > 23 {
        1int
    } else {
        0int
    })
}

/// A 128-bit identifier in its usual notation: thirty-two hexadecimal digits
/// in lower case, most significant first, in groups of eight, four, four, four
/// and twelve with hyphens between them.
pub open spec fn hyphenated(value: u128) -> Seq<char> {
    Seq::new(
        36,
        |i: int|
            if i == 8 || i == 13 || i == 18 || i == 23 {
                '-'
            } else {
                hex_digit(nibble(value, i - hyphens_before(i)))
            },
    )
}

/// What `uuid::Uuid::parse_str` makes of a text: the identifier it denotes,
/// if it denotes one.
pub uninterp spec fn uuid_parsed(text: Seq<char>) -> Option<u128>;

/// `uuid::Uuid` shown with `Display`: the hyphenated lower-case notation of
/// the identifier, which `uuid::Uuid::parse_str` reads back as the same
/// identifier.
#[verifier::external_body]
pub(crate) fn uuid_display(value: u128) -> (s: String)
    ensures
        s@ == hyphenated(value),
        uuid_parsed(s@) == Some(value),
{
    format!("{}", uuid::Uuid::from_u128(value))
}

/// `uuid::Uuid::parse_str`: reads an identifier in any of the notations the
/// crate writes.
#[verifier::external_body]
pub(crate) fn uuid_parse_str(text: &str) -> (r: Option<u128>)
    ensures
        r == uuid_parsed(text@),
{
    match uuid::Uuid::parse_str(text) {
        Ok(id) => Some(id.as_u128()),
        Err(_) => None,
    }
}

/// Four names joined behind a prefix, with hyphens between all five.
pub open spec fn joined(
    prefix: Seq<char>,
    flow: Seq<char>,
    instance: u128,
    node: Seq<char>,
    port: Seq<char>,
) -> Seq<char> {
    prefix + "-"@ + flow + "-"@ + hyphenated(instance) + "-"@ + node + "-"@ + port
}

fn join(prefix: &str, flow: &FlowId, instance: u128, node: &NodeId, port: &PortId) -> (s: String)
    ensures
        s@ == joined(prefix@, flow@, instance, node@, port@),
{
    let mut s = String::from_str(prefix);
    s.append("-");
    s.append(flow.as_str());
    s.append("-");
    s.append(uuid_display(instance).as_str());
    s.append("-");
    s.append(node.as_str());
    s.append("-");
    s.append(port.as_str());
    s
}

/// The name under which the replay of an output of a source runs:
/// `replay-<flow>-<instance>-<source>-<output>`.
pub open spec fn replay_name(flow: Seq<char>, instance: u128, source: Seq<char>, output: Seq<char>)
    -> Seq<char> {
    joined("replay"@, flow, instance, source, output)
}

/// The name under which the replay of an output of a source runs.
pub fn replay_id(flow: &FlowId, instance: u128, source: &NodeId, output: &PortId) -> (s: NodeId)
    ensures
        s@ == replay_name(flow@, instance, source@, output@),
{
    join("replay", flow, instance, source, output)
}

/// What the names of all recordings of one output begin with:
/// `record-<flow>-<instance>-<node>-<output>`.
pub open spec fn record_base_name(
    flow: Seq<char>,
    instance: u128,
    node: Seq<char>,
    output: Seq<char>,
) -> Seq<char> {
    joined("record"@, flow, instance, node, output)
}

/// What the names of all recordings of one output begin with.
pub fn record_base(flow: &FlowId, instance: u128, node: &NodeId, output: &PortId) -> (s: String)
    ensures
        s@ == record_base_name(flow@, instance, node@, output@),
{
    join("record", flow, instance, node, output)
}

/// The name of the recording that begins at the clock time `time`:
/// the base name, a hyphen, and the time in decimal notation.
pub open spec fn record_name(base: Seq<char>, time: u64) -> Seq<char> {
    base + "-"@ + decimal(time as nat)
}

/// The name of the recording that begins at the clock time `time`.
pub fn record_resource(base: &String, time: u64) -> (s: String)
    ensures
        s@ == record_name(base@, time),
{
    let mut s = base.clone();
    s.append("-");
    s.append(decimal_string(time).as_str());
    s
}

} // verus!
