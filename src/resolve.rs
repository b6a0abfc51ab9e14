use vstd::prelude::*;

use crate::entry::{
    decode_entries, decodes_to, fails_first_at, sound_before, LookupError, NeighborEntry,
    RawNeighbor,
};
use crate::ip::{normalized, IpAddress};
use crate::lladdr::{canonical, LlAddr};
use crate::table::{build_table, lladdr_view, lookup_in, lookup_spec, table_of, NeighborTable};

verus! {

/// The mapping that a list of sound records gives, read straight off the
/// records: the canonical hardware address of the last record for each
/// destination that has one.
pub open spec fn raw_table_of(rs: Seq<RawNeighbor>) -> Map<IpAddress, Seq<char>>
    decreases rs.len(),
{
    if rs.len() == 0 {
        Map::empty()
    } else {
        let m = raw_table_of(rs.drop_last());
        match rs.last().lladdr {
            Some(l) => m.insert(rs.last().dst, canonical(l@)),
            None => m,
        }
    }
}

/// What a lookup of the normalized address `q` answers from sound records.
pub open spec fn raw_lookup(rs: Seq<RawNeighbor>, q: IpAddress) -> Option<Seq<char>>
    decreases rs.len(),
{
    if rs.len() == 0 {
        None
    } else if normalized(rs[0].dst) == q {
        match rs[0].lladdr {
            Some(l) => Some(canonical(l@)),
            None => None,
        }
    } else {
        raw_lookup(rs.drop_first(), q)
    }
}

proof fn lemma_decoded_table(rs: Seq<RawNeighbor>, es: Seq<NeighborEntry>)
    requires
        es.len() == rs.len(),
        forall|i: int| 0 <= i < es.len() ==> decodes_to(rs[i], #[trigger] es[i]),
    ensures
        table_of(es) == raw_table_of(rs),
    decreases es.len(),
{
    if es.len() > 0 {
        let (rp, ep) = (rs.drop_last(), es.drop_last());
        assert forall|i: int| 0 <= i < ep.len() implies decodes_to(rp[i], #[trigger] ep[i]) by {
            assert(decodes_to(rs[i], es[i]));
        }
        lemma_decoded_table(rp, ep);
        assert(decodes_to(rs[es.len() - 1], es[es.len() - 1]));
    }
}

proof fn lemma_decoded_lookup(rs: Seq<RawNeighbor>, es: Seq<NeighborEntry>, q: IpAddress)
    requires
        es.len() == rs.len(),
        forall|i: int| 0 <= i < es.len() ==> decodes_to(rs[i], #[trigger] es[i]),
    ensures
        lookup_spec(es, q) == raw_lookup(rs, q),
    decreases es.len(),
{
    if es.len() > 0 {
        let (rp, ep) = (rs.drop_first(), es.drop_first());
        assert forall|i: int| 0 <= i < ep.len() implies decodes_to(rp[i], #[trigger] ep[i]) by {
            assert(decodes_to(rs[i + 1], es[i + 1]));
        }
        lemma_decoded_lookup(rp, ep, q);
        assert(decodes_to(rs[0], es[0]));
    }
}

/// Decodes the records and builds the neighbor table from them.
pub fn neighbors_from_records(raws: &Vec<RawNeighbor>) -> (r: Result<NeighborTable, LookupError>)
    ensures
        r is Ok <==> sound_before(raws@, raws@.len() as int),
        r matches Ok(t) ==> t.wf() && t@ == raw_table_of(raws@),
        r matches Err(e) ==> fails_first_at(raws@, e),
{
    let entries = decode_entries(raws)?;
    let table = build_table(&entries);
    proof {
        lemma_decoded_table(raws@, entries@);
    }
    Ok(table)
}

/// Decodes the records and looks up the hardware address of `ip` among them;
/// the query and each destination are normalized before they are compared.
pub fn lookup_in_records(raws: &Vec<RawNeighbor>, ip: IpAddress) -> (r: Result<
    Option<LlAddr>,
    LookupError,
>)
    ensures
        r is Ok <==> sound_before(raws@, raws@.len() as int),
        r matches Ok(found) ==> lladdr_view(found) == raw_lookup(raws@, normalized(ip)),
        r matches Err(e) ==> fails_first_at(raws@, e),
{
    let entries = decode_entries(raws)?;
    let found = lookup_in(&entries, ip);
    proof {
        lemma_decoded_lookup(raws@, entries@, normalized(ip));
    }
    Ok(found)
}

} // verus!
