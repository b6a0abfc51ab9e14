use vstd::prelude::*;
use vstd::string::*;
use vstd::utf8::{decode_utf8, valid_utf8};

use crate::ip::IpAddress;
use crate::lladdr::{canonical, LlAddr};

verus! {

/// How sure the neighbor table is of an entry.
#[derive(Clone, Copy, Debug, PartialEq, Eq, Hash, Structural)]
pub enum ReachabilityState {
    Delay,
    Failed,
    Incomplete,
    Reachable,
    Stale,
}

/// The state that a token of the table's output names; no other token is one.
pub open spec fn state_of_token(t: Seq<char>) -> Option<ReachabilityState> {
    if t == "DELAY"@ {
        Some(ReachabilityState::Delay)
    } else if t == "FAILED"@ {
        Some(ReachabilityState::Failed)
    } else if t == "INCOMPLETE"@ {
        Some(ReachabilityState::Incomplete)
    } else if t == "REACHABLE"@ {
        Some(ReachabilityState::Reachable)
    } else if t == "STALE"@ {
        Some(ReachabilityState::Stale)
    } else {
        None
    }
}

pub open spec fn is_hex_digit(c: char) -> bool {
    ('0' <= c && c <= '9') || ('a' <= c && c <= 'f') || ('A' <= c && c <= 'F')
}

/// Position `i` of a hardware address holds a hex digit, or a colon at
/// every third place.
pub open spec fn hw_char_ok(s: Seq<char>, i: int) -> bool {
    if i % 3 == 2 {
        s[i] == ':'
    } else {
        is_hex_digit(s[i])
    }
}

/// A hardware address as the table writes it: one or more bytes, each as two
/// hex digits, separated by colons (`aa:bb:cc:dd:ee:ff`).
pub open spec fn is_hw_addr(s: Seq<char>) -> bool {
    s.len() >= 2 && s.len() % 3 == 2 && forall|i: int| 0 <= i < s.len() ==> hw_char_ok(s, i)
}

/// Why a list of records was refused.
#[derive(Debug)]
pub enum DecodeFault {
    /// The text is not an array of records of the expected shape.
    Syntax(String),
    /// The record at this index has a destination that is no IP address.
    MalformedAddress { record: usize },
    /// The record at this index has no reachability state.
    EmptyState { record: usize },
    /// The record at this index names a state outside the known set.
    UnknownState { record: usize },
    /// The record at this index has a malformed hardware address.
    MalformedLinkLayerAddress { record: usize },
}

/// The three ways in which a lookup fails.
#[derive(Debug)]
pub enum LookupError {
    /// The table could not be read; the text says why.
    IoError(String),
    /// The table's output is not UTF-8; valid up to this byte.
    Utf8Error(usize),
    /// The table's output is not a well-formed list of records.
    JsonError(DecodeFault),
}

/// One record of the table's output, with its fields as text but for the
/// destination address.
pub struct RawNeighbor {
    pub dst: IpAddress,
    pub dev: String,
    pub lladdr: Option<String>,
    pub state: Vec<String>,
}

/// One entry of the neighbor table.
pub struct NeighborEntry {
    pub dst: IpAddress,
    pub dev: String,
    pub lladdr: Option<LlAddr>,
    pub state: Vec<ReachabilityState>,
}

pub open spec fn tokens_valid(ts: Seq<String>) -> bool {
    forall|i: int| 0 <= i < ts.len() ==> (#[trigger] state_of_token(ts[i]@)) is Some
}

/// The first fault of record `raw`, found at index `k`, if it has one.
pub open spec fn record_fault(raw: RawNeighbor, k: int) -> Option<DecodeFault> {
    if raw.state@.len() == 0 {
        Some(DecodeFault::EmptyState { record: k as usize })
    } else if !tokens_valid(raw.state@) {
        Some(DecodeFault::UnknownState { record: k as usize })
    } else if raw.lladdr is Some && !is_hw_addr(raw.lladdr->0@) {
        Some(DecodeFault::MalformedLinkLayerAddress { record: k as usize })
    } else {
        None
    }
}

/// `e` is what a record without faults decodes to.
pub open spec fn decodes_to(raw: RawNeighbor, e: NeighborEntry) -> bool {
    &&& e.dst == raw.dst
    &&& e.dev@ == raw.dev@
    &&& match raw.lladdr {
        Some(l) => e.lladdr is Some && e.lladdr->0@ == canonical(l@),
        None => e.lladdr is None,
    }
    &&& e.state@.len() == raw.state@.len()
    &&& forall|i: int|
        0 <= i < e.state@.len() ==> Some(#[trigger] e.state@[i]) == state_of_token(raw.state@[i]@)
}

fn text_equals(a: &str, b: &str) -> (r: bool)
    ensures
        r == (a@ == b@),
{
    let n = a.unicode_len();
    if n != b.unicode_len() {
        return false;
    }
    let mut i: usize = 0;
    while i < n
        invariant
            n == a@.len(),
            n == b@.len(),
            i <= n,
            forall|j: int| 0 <= j < i ==> a@[j] == b@[j],
        decreases n - i,
    {
        if a.get_char(i) != b.get_char(i) {
            return false;
        }
        i += 1;
    }
    assert(a@ =~= b@);
    true
}

/// Reads one state token; unknown tokens give `None`.
pub fn parse_state(token: &str) -> (r: Option<ReachabilityState>)
    ensures
        r == state_of_token(token@),
{
    if text_equals(token, "DELAY") {
        Some(ReachabilityState::Delay)
    } else if text_equals(token, "FAILED") {
        Some(ReachabilityState::Failed)
    } else if text_equals(token, "INCOMPLETE") {
        Some(ReachabilityState::Incomplete)
    } else if text_equals(token, "REACHABLE") {
        Some(ReachabilityState::Reachable)
    } else if text_equals(token, "STALE") {
        Some(ReachabilityState::Stale)
    } else {
        None
    }
}

/// Tells whether text is a hardware address in the table's notation.
pub fn is_valid_lladdr(s: &str) -> (r: bool)
    ensures
        r == is_hw_addr(s@),
{
    let n = s.unicode_len();
    if n < 2 || n % 3 != 2 {
        return false;
    }
    let mut i: usize = 0;
    while i < n
        invariant
            n == s@.len(),
            i <= n,
            forall|j: int| 0 <= j < i ==> hw_char_ok(s@, j),
        decreases n - i,
    {
        let c = s.get_char(i);
        let ok = if i % 3 == 2 {
            c == ':'
        } else {
            ('0' <= c && c <= '9') || ('a' <= c && c <= 'f') || ('A' <= c && c <= 'F')
        };
        if !ok {
            assert(!hw_char_ok(s@, i as int));
            return false;
        }
        i += 1;
    }
    true
}

/// Reads every state token of a record, or `None` if one is unknown.
pub fn decode_states(tokens: &Vec<String>) -> (r: Option<Vec<ReachabilityState>>)
    ensures
        r is Some <==> tokens_valid(tokens@),
        r matches Some(v) ==> v@.len() == tokens@.len() && forall|i: int|
            0 <= i < v@.len() ==> Some(#[trigger] v@[i]) == state_of_token(tokens@[i]@),
{
    let mut states: Vec<ReachabilityState> = Vec::new();
    let mut i: usize = 0;
    while i < tokens.len()
        invariant
            i <= tokens@.len(),
            states@.len() == i,
            forall|j: int| 0 <= j < i ==> Some(#[trigger] states@[j]) == state_of_token(tokens@[j]@),
        decreases tokens@.len() - i,
    {
        match parse_state(tokens[i].as_str()) {
            Some(st) => states.push(st),
            None => {
                assert(state_of_token(tokens@[i as int]@) is None);
                return None;
            },
        }
        i += 1;
    }
    assert forall|j: int| 0 <= j < tokens@.len() implies (#[trigger] state_of_token(
        tokens@[j]@,
    )) is Some by {
        assert(Some(states@[j]) == state_of_token(tokens@[j]@));
    }
    Some(states)
}

/// Decodes the record found at index `k`, or names its first fault.
pub fn decode_entry(raw: &RawNeighbor, k: usize) -> (r: Result<NeighborEntry, DecodeFault>)
    ensures
        match r {
            Ok(e) => record_fault(*raw, k as int) is None && decodes_to(*raw, e),
            Err(f) => record_fault(*raw, k as int) == Some(f),
        },
{
    if raw.state.len() == 0 {
        return Err(DecodeFault::EmptyState { record: k });
    }
    let states = match decode_states(&raw.state) {
        Some(v) => v,
        None => {
            return Err(DecodeFault::UnknownState { record: k });
        },
    };
    let lladdr = match &raw.lladdr {
        Some(l) => {
            if !is_valid_lladdr(l.as_str()) {
                return Err(DecodeFault::MalformedLinkLayerAddress { record: k });
            }
            Some(LlAddr::from_string(l.clone()))
        },
        None => None,
    };
    Ok(NeighborEntry { dst: raw.dst, dev: raw.dev.clone(), lladdr, state: states })
}

/// The records have no fault before index `k`.
pub open spec fn sound_before(raws: Seq<RawNeighbor>, k: int) -> bool {
    forall|j: int| 0 <= j < k ==> (#[trigger] record_fault(raws[j], j)) is None
}

/// The fault that a decoding error carries.
pub open spec fn fault_of(e: LookupError) -> Option<DecodeFault> {
    match e {
        LookupError::JsonError(f) => Some(f),
        _ => None,
    }
}

/// `e` reports the first record of `raws` that has a fault.
pub open spec fn fails_first_at(raws: Seq<RawNeighbor>, e: LookupError) -> bool {
    exists|k: int|
        0 <= k < raws.len() && sound_before(raws, k) && (#[trigger] record_fault(raws[k], k)) is Some
            && record_fault(raws[k], k) == fault_of(e)
}

/// Decodes every record; all of them, or the first fault there is.
pub fn decode_entries(raws: &Vec<RawNeighbor>) -> (r: Result<Vec<NeighborEntry>, LookupError>)
    ensures
        r is Ok <==> sound_before(raws@, raws@.len() as int),
        r matches Ok(es) ==> es@.len() == raws@.len() && forall|i: int|
            0 <= i < es@.len() ==> decodes_to(raws@[i], #[trigger] es@[i]),
        r matches Err(e) ==> fails_first_at(raws@, e),
{
    let mut entries: Vec<NeighborEntry> = Vec::new();
    let mut k: usize = 0;
    while k < raws.len()
        invariant
            k <= raws@.len(),
            entries@.len() == k,
            sound_before(raws@, k as int),
            forall|i: int| 0 <= i < k ==> decodes_to(raws@[i], #[trigger] entries@[i]),
        decreases raws@.len() - k,
    {
        match decode_entry(&raws[k], k) {
            Ok(e) => entries.push(e),
            Err(f) => {
                let ghost g = f;
                let e = LookupError::JsonError(f);
                assert(record_fault(raws@[k as int], k as int) == Some(g));
                return Err(e);
            },
        }
        k += 1;
    }
    Ok(entries)
}

/// Relies on `std::str::from_utf8`: it succeeds exactly on valid UTF-8, with
/// the characters the bytes encode; on failure, `valid_up_to` is the length of
/// the longest valid prefix.
#[verifier::external_body]
fn utf8_text(bytes: &[u8]) -> (r: Result<String, usize>)
    ensures
        match r {
            Ok(s) => valid_utf8(bytes@) && s@ == decode_utf8(bytes@),
            Err(n) => !valid_utf8(bytes@) && n <= bytes@.len() && valid_utf8(
                bytes@.subrange(0, n as int),
            ),
        },
{
    match std::str::from_utf8(bytes) {
        Ok(s) => Ok(s.to_owned()),
        Err(e) => Err(e.valid_up_to()),
    }
}

/// Reads the table's raw output as text.
pub fn decode_text(bytes: &[u8]) -> (r: Result<String, LookupError>)
    ensures
        r is Ok <==> valid_utf8(bytes@),
        r matches Ok(s) ==> s@ == decode_utf8(bytes@),
        r matches Err(e) ==> e is Utf8Error,
{
    match utf8_text(bytes) {
        Ok(s) => Ok(s),
        Err(n) => Err(LookupError::Utf8Error(n)),
    }
}

} // verus!
