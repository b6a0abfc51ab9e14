use vstd::prelude::*;

use crate::entry::NeighborEntry;
use crate::ip::{normalize_ip_addr, normalized, IpAddress};
use crate::lladdr::LlAddr;

verus! {

pub open spec fn lladdr_view(o: Option<LlAddr>) -> Option<Seq<char>> {
    match o {
        Some(l) => Some(l@),
        None => None,
    }
}

/// The mapping that a sequence of entries folds into: entries without a
/// hardware address are skipped, and a later entry for the same destination
/// replaces an earlier one.
pub open spec fn table_of(es: Seq<NeighborEntry>) -> Map<IpAddress, Seq<char>>
    decreases es.len(),
{
    if es.len() == 0 {
        Map::empty()
    } else {
        let m = table_of(es.drop_last());
        match es.last().lladdr {
            Some(l) => m.insert(es.last().dst, l@),
            None => m,
        }
    }
}

/// What a lookup of the normalized address `q` finds: the hardware address
/// of the first entry whose normalized destination is `q`, if that entry has
/// one. Both sides are normalized before they are compared.
pub open spec fn lookup_spec(es: Seq<NeighborEntry>, q: IpAddress) -> Option<Seq<char>>
    decreases es.len(),
{
    if es.len() == 0 {
        None
    } else if normalized(es[0].dst) == q {
        lladdr_view(es[0].lladdr)
    } else {
        lookup_spec(es.drop_first(), q)
    }
}

/// A mapping from IP address to hardware address, one pair per address.
pub struct NeighborTable {
    pairs: Vec<(IpAddress, LlAddr)>,
    model: Ghost<Map<IpAddress, Seq<char>>>,
}

impl View for NeighborTable {
    type V = Map<IpAddress, Seq<char>>;

    closed spec fn view(&self) -> Map<IpAddress, Seq<char>> {
        self.model@
    }
}

impl NeighborTable {
    /// The pairs hold distinct addresses and are exactly the mapping.
    pub closed spec fn wf(&self) -> bool {
        &&& forall|i: int, j: int|
            0 <= i < j < self.pairs@.len() ==> self.pairs@[i].0 != self.pairs@[j].0
        &&& forall|i: int|
            0 <= i < self.pairs@.len() ==> #[trigger] self.model@.contains_key(self.pairs@[i].0)
                && self.model@[self.pairs@[i].0] == self.pairs@[i].1@
        &&& forall|k: IpAddress|
            #[trigger] self.model@.contains_key(k) ==> exists|i: int|
                0 <= i < self.pairs@.len() && self.pairs@[i].0 == k
    }

    /// An empty table.
    pub fn new() -> (r: NeighborTable)
        ensures
            r.wf(),
            r@ == Map::<IpAddress, Seq<char>>::empty(),
    {
        NeighborTable { pairs: Vec::new(), model: Ghost(Map::empty()) }
    }

    /// The number of addresses in the table.
    pub fn len(&self) -> (r: usize)
        requires
            self.wf(),
        ensures
            r == self@.dom().len(),
    {
        proof {
            self.lemma_dom_is_keys();
        }
        self.pairs.len()
    }

    proof fn lemma_dom_is_keys(&self)
        requires
            self.wf(),
        ensures
            self@.dom().finite(),
            self@.dom().len() == self.pairs@.len(),
    {
        let keys = Seq::new(self.pairs@.len(), |i: int| self.pairs@[i].0);
        assert(keys.no_duplicates());
        keys.unique_seq_to_set();
        assert(keys.to_set() =~= self@.dom()) by {
            assert forall|k: IpAddress| #[trigger] self@.dom().contains(k) implies keys.to_set().contains(k) by {
                let i = choose|i: int| 0 <= i < self.pairs@.len() && self.pairs@[i].0 == k;
                assert(keys[i] == k);
            }
        }
    }

    fn find_index(&self, ip: IpAddress) -> (r: Option<usize>)
        requires
            self.wf(),
        ensures
            match r {
                Some(p) => p < self.pairs@.len() && self.pairs@[p as int].0 == ip,
                None => !self@.contains_key(ip),
            },
    {
        let mut i: usize = 0;
        while i < self.pairs.len()
            invariant
                self.wf(),
                i <= self.pairs@.len(),
                forall|j: int| 0 <= j < i ==> self.pairs@[j].0 != ip,
            decreases self.pairs@.len() - i,
        {
            if self.pairs[i].0 == ip {
                return Some(i);
            }
            i += 1;
        }
        None
    }

    /// Maps `ip` to `l`, replacing what it was mapped to.
    pub fn insert(&mut self, ip: IpAddress, l: LlAddr)
        requires
            old(self).wf(),
        ensures
            final(self).wf(),
            final(self)@ == old(self)@.insert(ip, l@),
    {
        let ghost m = self.model@.insert(ip, l@);
        let ghost mut at: int = 0;
        match self.find_index(ip) {
            Some(p) => {
                self.pairs.set(p, (ip, l));
                proof {
                    at = p as int;
                }
            },
            None => {
                proof {
                    at = self.pairs@.len() as int;
                }
                self.pairs.push((ip, l));
            },
        }
        assert(self.pairs@[at].0 == ip);
        self.model = Ghost(m);
        assert forall|k: IpAddress| #[trigger] self.model@.contains_key(k) implies exists|i: int|
            0 <= i < self.pairs@.len() && self.pairs@[i].0 == k by {
            if k != ip {
                let i = choose|i: int| 0 <= i < old(self).pairs@.len() && old(self).pairs@[i].0 == k;
                assert(self.pairs@[i].0 == k);
            } else {
                assert(self.pairs@[at].0 == k);
            }
        }
    }

    /// The hardware address that `ip` is mapped to.
    pub fn get(&self, ip: IpAddress) -> (r: Option<&LlAddr>)
        requires
            self.wf(),
        ensures
            match r {
                Some(l) => self@.contains_key(ip) && self@[ip] == l@,
                None => !self@.contains_key(ip),
            },
    {
        match self.find_index(ip) {
            Some(p) => {
                assert(self@.contains_key(self.pairs@[p as int].0));
                Some(&self.pairs[p].1)
            },
            None => None,
        }
    }

    /// The pairs of the table, each address once.
    pub fn into_pairs(self) -> (r: Vec<(IpAddress, LlAddr)>)
        requires
            self.wf(),
        ensures
            forall|i: int, j: int| 0 <= i < j < r@.len() ==> r@[i].0 != r@[j].0,
            forall|i: int|
                0 <= i < r@.len() ==> #[trigger] self@.contains_key(r@[i].0) && self@[r@[i].0]
                    == r@[i].1@,
            forall|k: IpAddress|
                #[trigger] self@.contains_key(k) ==> exists|i: int| 0 <= i < r@.len() && r@[i].0 == k,
    {
        self.pairs
    }
}

/// Builds the mapping from each destination to its hardware address;
/// entries without one are skipped and the last entry for an address wins.
pub fn build_table(entries: &Vec<NeighborEntry>) -> (r: NeighborTable)
    ensures
        r.wf(),
        r@ == table_of(entries@),
{
    let mut table = NeighborTable::new();
    let mut i: usize = 0;
    while i < entries.len()
        invariant
            i <= entries@.len(),
            table.wf(),
            table@ == table_of(entries@.subrange(0, i as int)),
        decreases entries@.len() - i,
    {
        let ghost before = entries@.subrange(0, i as int);
        let ghost after = entries@.subrange(0, i as int + 1);
        assert(after.drop_last() =~= before);
        assert(after.last() == entries@[i as int]);
        match &entries[i].lladdr {
            Some(l) => table.insert(entries[i].dst, l.clone()),
            None => {},
        }
        i += 1;
    }
    assert(entries@.subrange(0, entries@.len() as int) =~= entries@);
    table
}

/// Finds the hardware address of `ip`: the first entry whose destination
/// equals `ip` once both are normalized decides; `None` if there is no such
/// entry or it has no hardware address.
pub fn lookup_in(entries: &Vec<NeighborEntry>, ip: IpAddress) -> (r: Option<LlAddr>)
    ensures
        lladdr_view(r) == lookup_spec(entries@, normalized(ip)),
{
    let q = normalize_ip_addr(ip);
    let mut i: usize = 0;
    assert(entries@.subrange(0, entries@.len() as int) =~= entries@);
    while i < entries.len()
        invariant
            i <= entries@.len(),
            q == normalized(ip),
            lookup_spec(entries@, q) == lookup_spec(entries@.subrange(i as int, entries@.len() as int), q),
        decreases entries@.len() - i,
    {
        let ghost rest = entries@.subrange(i as int, entries@.len() as int);
        assert(rest.drop_first() =~= entries@.subrange(i as int + 1, entries@.len() as int));
        assert(rest[0] == entries@[i as int]);
        if normalize_ip_addr(entries[i].dst) == q {
            return match &entries[i].lladdr {
                Some(l) => Some(l.clone()),
                None => None,
            };
        }
        i += 1;
    }
    None
}

/// A table never holds an address all of whose entries lack a hardware
/// address: every key comes from an entry that has one.
pub proof fn lemma_table_keys_resolved(es: Seq<NeighborEntry>, k: IpAddress)
    requires
        table_of(es).contains_key(k),
    ensures
        exists|i: int| 0 <= i < es.len() && es[i].dst == k && es[i].lladdr is Some,
    decreases es.len(),
{
    let last = es.last();
    if last.lladdr is Some && last.dst == k {
        assert(es[es.len() - 1].dst == k);
    } else {
        lemma_table_keys_resolved(es.drop_last(), k);
        let i = choose|i: int|
            0 <= i < es.drop_last().len() && es.drop_last()[i].dst == k && es.drop_last()[i].lladdr is Some;
        assert(es[i] == es.drop_last()[i]);
    }
}

/// Every destination that some entry resolves is a key of the table.
pub proof fn lemma_resolved_entries_are_keys(es: Seq<NeighborEntry>, i: int)
    requires
        0 <= i < es.len(),
        es[i].lladdr is Some,
    ensures
        table_of(es).contains_key(es[i].dst),
    decreases es.len(),
{
    if i < es.len() - 1 {
        lemma_resolved_entries_are_keys(es.drop_last(), i);
        assert(es.drop_last()[i] == es[i]);
    }
}

} // verus!
