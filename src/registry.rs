//! The rendezvous registry's bookkeeping: which reachable listen address
//! belongs to each connected client, keyed by the client's observed source
//! address.
//!
//! A client that reconnects from a new ephemeral port shows up as a new
//! entry: the key is the raw transport address, not a stable identity.

use vstd::prelude::*;

verus! {

/// A transport address: an IPv6 address (IPv4 ones in their mapped form)
/// and a port.
#[derive(Clone, Copy, Debug, PartialEq, Eq, Structural, Hash)]
pub struct Address {
    pub ip: u128,
    pub port: u16,
}

/// The registry's entries: source address to announced listen address.
pub struct Registry {
    entries: Vec<(Address, Address)>,
}

/// No two entries have the same source address.
pub open spec fn keys_unique(s: Seq<(Address, Address)>) -> bool {
    forall|i: int, j: int| 0 <= i < j < s.len() ==> #[trigger] s[i].0 != #[trigger] s[j].0
}

/// The map that a list of entries stands for.
pub open spec fn entries_map(s: Seq<(Address, Address)>) -> Map<Address, Address>
    decreases s.len(),
{
    if s.len() == 0 {
        Map::empty()
    } else {
        entries_map(s.drop_last()).insert(s.last().0, s.last().1)
    }
}

/// The listen addresses of the entries whose source is not `who`, in order.
pub open spec fn peers_excluding(s: Seq<(Address, Address)>, who: Address) -> Seq<Address>
    decreases s.len(),
{
    if s.len() == 0 {
        Seq::empty()
    } else {
        let rest = peers_excluding(s.drop_last(), who);
        if s.last().0 != who {
            rest.push(s.last().1)
        } else {
            rest
        }
    }
}

/// The listen addresses registered under sources other than `who`.
pub open spec fn others(m: Map<Address, Address>, who: Address) -> Set<Address> {
    Set::new(|a: Address| exists|k: Address| k != who && m.contains_key(k) && #[trigger] m[k] == a)
}

/// The listen address that a client at `source` announces with `listen_port`.
pub open spec fn listen_address(source: Address, listen_port: u16) -> Address {
    Address { ip: source.ip, port: listen_port }
}

proof fn lemma_entries_map(s: Seq<(Address, Address)>)
    requires
        keys_unique(s),
    ensures
        entries_map(s).dom().finite(),
        entries_map(s).dom().len() == s.len(),
        forall|k: Address| #[trigger] entries_map(s).contains_key(k) <==> exists|i: int| 0 <= i < s.len() && s[i].0 == k,
        forall|i: int| 0 <= i < s.len() ==> entries_map(s)[#[trigger] s[i].0] == s[i].1,
    decreases s.len(),
{
    if s.len() > 0 {
        let t = s.drop_last();
        assert(keys_unique(t)) by {
            assert forall|i: int, j: int| 0 <= i < j < t.len() implies #[trigger] t[i].0 != #[trigger] t[j].0 by {
                assert(t[i] == s[i] && t[j] == s[j]);
            }
        }
        lemma_entries_map(t);
        let last = s.last();
        assert(!entries_map(t).contains_key(last.0)) by {
            if entries_map(t).contains_key(last.0) {
                let i = choose|i: int| 0 <= i < t.len() && t[i].0 == last.0;
                assert(s[i].0 == s[s.len() - 1].0);
            }
        }
        assert forall|k: Address| #[trigger] entries_map(s).contains_key(k) <==> exists|i: int| 0 <= i < s.len() && s[i].0 == k by {
            if entries_map(s).contains_key(k) {
                if k != last.0 {
                    let i = choose|i: int| 0 <= i < t.len() && t[i].0 == k;
                    assert(s[i] == t[i]);
                } else {
                    assert(s[s.len() - 1].0 == k);
                }
            }
            if exists|i: int| 0 <= i < s.len() && s[i].0 == k {
                let i = choose|i: int| 0 <= i < s.len() && s[i].0 == k;
                if i < t.len() {
                    assert(t[i] == s[i]);
                }
            }
        }
        assert forall|i: int| 0 <= i < s.len() implies entries_map(s)[#[trigger] s[i].0] == s[i].1 by {
            if i < t.len() {
                assert(t[i] == s[i]);
                assert(s[i].0 != last.0);
            }
        }
    }
}

proof fn lemma_peers_excluding(s: Seq<(Address, Address)>, who: Address)
    requires
        keys_unique(s),
    ensures
        peers_excluding(s, who).to_set() == others(entries_map(s), who),
        peers_excluding(s, who).len() == entries_map(s).remove(who).dom().len(),
    decreases s.len(),
{
    lemma_entries_map(s);
    if s.len() == 0 {
        assert(peers_excluding(s, who).to_set() =~= others(entries_map(s), who));
        assert(entries_map(s).remove(who).dom() =~= Set::empty());
    } else {
        let t = s.drop_last();
        assert(keys_unique(t)) by {
            assert forall|i: int, j: int| 0 <= i < j < t.len() implies #[trigger] t[i].0 != #[trigger] t[j].0 by {
                assert(t[i] == s[i] && t[j] == s[j]);
            }
        }
        lemma_peers_excluding(t, who);
        lemma_entries_map(t);
        let last = s.last();
        let mt = entries_map(t);
        let m = entries_map(s);
        assert(!mt.contains_key(last.0)) by {
            if mt.contains_key(last.0) {
                let i = choose|i: int| 0 <= i < t.len() && t[i].0 == last.0;
                assert(s[i].0 == s[s.len() - 1].0);
            }
        }
        let p = peers_excluding(s, who);
        let pt = peers_excluding(t, who);
        if last.0 != who {
            assert(p == pt.push(last.1));
            assert forall|a: Address| p.to_set().contains(a) <==> others(m, who).contains(a) by {
                if pt.to_set().contains(a) {
                    assert(others(mt, who).contains(a));
                    let k = choose|k: Address| k != who && mt.contains_key(k) && #[trigger] mt[k] == a;
                    assert(m.contains_key(k) && m[k] == a);
                }
                if a == last.1 {
                    assert(m[last.0] == a);
                }
                if others(m, who).contains(a) {
                    let k = choose|k: Address| k != who && m.contains_key(k) && #[trigger] m[k] == a;
                    if k != last.0 {
                        assert(mt.contains_key(k) && mt[k] == a);
                        assert(others(mt, who).contains(a));
                        assert(pt.to_set().contains(a));
                        assert(pt.contains(a));
                        let j = choose|j: int| 0 <= j < pt.len() && pt[j] == a;
                        assert(p[j] == a);
                    } else {
                        assert(p[p.len() - 1] == a);
                    }
                    assert(p.contains(a));
                }
                if p.contains(a) {
                    let j = choose|j: int| 0 <= j < p.len() && p[j] == a;
                    if j < pt.len() {
                        assert(pt[j] == a);
                        assert(pt.contains(a));
                    }
                }
            }
            assert(p.to_set() =~= others(m, who));
            assert(m.remove(who).dom() =~= mt.remove(who).dom().insert(last.0));
        } else {
            assert(p == pt);
            assert forall|a: Address| pt.to_set().contains(a) <==> others(m, who).contains(a) by {
                if others(mt, who).contains(a) {
                    let k = choose|k: Address| k != who && mt.contains_key(k) && #[trigger] mt[k] == a;
                    assert(m.contains_key(k) && m[k] == a);
                }
                if others(m, who).contains(a) {
                    let k = choose|k: Address| k != who && m.contains_key(k) && #[trigger] m[k] == a;
                    assert(mt.contains_key(k) && mt[k] == a);
                }
            }
            assert(p.to_set() =~= others(m, who));
            assert(m.remove(who).dom() =~= mt.remove(who).dom());
        }
    }
}


impl View for Registry {
    type V = Map<Address, Address>;

    closed spec fn view(&self) -> Map<Address, Address> {
        entries_map(self.entries@)
    }
}

impl Registry {
    /// The registry's invariant: one entry per source address.
    pub closed spec fn wf(&self) -> bool {
        keys_unique(self.entries@)
    }

    /// An empty registry.
    pub fn new() -> (r: Registry)
        ensures
            r.wf(),
            r@ == Map::<Address, Address>::empty(),
    {
        Registry { entries: Vec::new() }
    }

    /// The number of registered clients.
    pub fn len(&self) -> (r: usize)
        requires
            self.wf(),
        ensures
            r == self@.dom().len(),
    {
        proof {
            lemma_entries_map(self.entries@);
        }
        self.entries.len()
    }

    /// Where the entry for `source` stands, if there is one.
    fn position(&self, source: Address) -> (r: Option<usize>)
        ensures
            match r {
                Some(i) => i < self.entries@.len() && self.entries@[i as int].0 == source,
                None => forall|i: int| 0 <= i < self.entries@.len() ==> self.entries@[i].0 != source,
            },
    {
        let mut i: usize = 0;
        while i < self.entries.len()
            invariant
                0 <= i <= self.entries@.len(),
                forall|j: int| 0 <= j < i ==> self.entries@[j].0 != source,
            decreases self.entries@.len() - i,
        {
            if self.entries[i].0 == source {
                return Some(i);
            }
            i = i + 1;
        }
        None
    }

    /// Records that the client at `source` listens on `listen_port`,
    /// replacing what it announced before.
    pub fn inform(&mut self, source: Address, listen_port: u16)
        requires
            old(self).wf(),
        ensures
            final(self).wf(),
            final(self)@ == old(self)@.insert(source, listen_address(source, listen_port)),
    {
        let listen = Address { ip: source.ip, port: listen_port };
        let ghost s = self.entries@;
        proof {
            lemma_entries_map(s);
        }
        match self.position(source) {
            Some(i) => {
                self.entries.set(i, (source, listen));
                let ghost s2 = self.entries@;
                assert(keys_unique(s2)) by {
                    assert forall|a: int, b: int| 0 <= a < b < s2.len() implies #[trigger] s2[a].0 != #[trigger] s2[b].0 by {
                        assert(s2[a].0 == s[a].0 && s2[b].0 == s[b].0);
                    }
                }
                proof {
                    lemma_entries_map(s2);
                    assert forall|k: Address| #[trigger] entries_map(s2).contains_key(k) <==> entries_map(s).insert(source, listen).contains_key(k) by {
                        if exists|j: int| 0 <= j < s.len() && s[j].0 == k {
                            let j = choose|j: int| 0 <= j < s.len() && s[j].0 == k;
                            assert(s2[j].0 == k);
                        }
                        if exists|j: int| 0 <= j < s2.len() && s2[j].0 == k {
                            let j = choose|j: int| 0 <= j < s2.len() && s2[j].0 == k;
                            assert(s[j].0 == k);
                        }
                    }
                    assert forall|k: Address| #[trigger] entries_map(s2).contains_key(k) implies entries_map(s2)[k] == entries_map(s).insert(source, listen)[k] by {
                        let j = choose|j: int| 0 <= j < s2.len() && s2[j].0 == k;
                        assert(entries_map(s2)[s2[j].0] == s2[j].1);
                        if j != i {
                            assert(s[j] == s2[j]);
                            assert(entries_map(s)[s[j].0] == s[j].1);
                        }
                    }
                    assert(entries_map(s2) =~= entries_map(s).insert(source, listen));
                }
            },
            None => {
                self.entries.push((source, listen));
                let ghost s2 = self.entries@;
                assert(s2.drop_last() =~= s);
                assert(keys_unique(s2)) by {
                    assert forall|a: int, b: int| 0 <= a < b < s2.len() implies #[trigger] s2[a].0 != #[trigger] s2[b].0 by {
                        assert(s2[a] == s[a]);
                    }
                }
            },
        }
    }

    /// Drops the entry of the client at `source`, if it has one.
    pub fn forget(&mut self, source: Address)
        requires
            old(self).wf(),
        ensures
            final(self).wf(),
            final(self)@ == old(self)@.remove(source),
    {
        let ghost s = self.entries@;
        proof {
            lemma_entries_map(s);
        }
        match self.position(source) {
            Some(i) => {
                self.entries.remove(i);
                let ghost s2 = self.entries@;
                assert(s2 =~= s.remove(i as int));
                assert(keys_unique(s2)) by {
                    assert forall|a: int, b: int| 0 <= a < b < s2.len() implies #[trigger] s2[a].0 != #[trigger] s2[b].0 by {
                        let a0 = if a < i { a } else { a + 1 };
                        let b0 = if b < i { b } else { b + 1 };
                        assert(s2[a] == s[a0] && s2[b] == s[b0]);
                    }
                }
                proof {
                    lemma_entries_map(s2);
                    assert forall|k: Address| #[trigger] entries_map(s2).contains_key(k) <==> entries_map(s).remove(source).contains_key(k) by {
                        if exists|j: int| 0 <= j < s.len() && s[j].0 == k {
                            let j = choose|j: int| 0 <= j < s.len() && s[j].0 == k;
                            if k != source {
                                assert(j != i);
                                let j2 = if j < i { j } else { j - 1 };
                                assert(s2[j2] == s[j]);
                            }
                        }
                        if exists|j: int| 0 <= j < s2.len() && s2[j].0 == k {
                            let j = choose|j: int| 0 <= j < s2.len() && s2[j].0 == k;
                            let j0 = if j < i { j } else { j + 1 };
                            assert(s[j0] == s2[j]);
                            assert(j0 != i);
                        }
                    }
                    assert forall|k: Address| #[trigger] entries_map(s2).contains_key(k) implies entries_map(s2)[k] == entries_map(s).remove(source)[k] by {
                        let j = choose|j: int| 0 <= j < s2.len() && s2[j].0 == k;
                        assert(entries_map(s2)[s2[j].0] == s2[j].1);
                        let j0 = if j < i { j } else { j + 1 };
                        assert(s[j0] == s2[j]);
                        assert(entries_map(s)[s[j0].0] == s[j0].1);
                    }
                    assert(entries_map(s2) =~= entries_map(s).remove(source));
                }
            },
            None => {
                proof {
                    assert(!entries_map(s).contains_key(source));
                    assert(entries_map(s) =~= entries_map(s).remove(source));
                }
            },
        }
    }

    /// The listen addresses of every registered client but the one at
    /// `requester`: a client never learns of itself.
    pub fn query(&self, requester: Address) -> (r: Vec<Address>)
        requires
            self.wf(),
        ensures
            r@.to_set() == others(self@, requester),
            r@.len() == self@.remove(requester).dom().len(),
    {
        let mut out: Vec<Address> = Vec::new();
        let mut i: usize = 0;
        while i < self.entries.len()
            invariant
                0 <= i <= self.entries@.len(),
                out@ == peers_excluding(self.entries@.subrange(0, i as int), requester),
            decreases self.entries@.len() - i,
        {
            let ghost t = self.entries@.subrange(0, i + 1);
            assert(t.drop_last() =~= self.entries@.subrange(0, i as int));
            let e = self.entries[i];
            if e.0 != requester {
                out.push(e.1);
            }
            i = i + 1;
        }
        assert(self.entries@.subrange(0, i as int) =~= self.entries@);
        proof {
            lemma_peers_excluding(self.entries@, requester);
        }
        out
    }
}

} // verus!
