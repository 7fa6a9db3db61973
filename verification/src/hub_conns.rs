//! The hub server's registry of connections: distributed locks it holds,
//! and the writers and proxies of the servers it talks to, each by name.
//! `W` is a connection writer, and `D`, `H` and `G` the proxies of
//! database, hub and relay servers.
use vstd::prelude::*;
use crate::assoc::find_key;
use crate::assoc::keys_distinct;
use crate::assoc::lemma_pairs_lookup;
use crate::assoc::lemma_pairs_map;
use crate::assoc::lemma_pairs_map_push;
use crate::assoc::lemma_pairs_map_remove;
use crate::assoc::lemma_pairs_map_update;
use crate::assoc::pairs_map;
use crate::text::copy_string;

verus! {

/// The pairs with their keys as texts.
pub open spec fn named_pairs<V>(s: Seq<(String, V)>) -> Seq<(Seq<char>, V)> {
    s.map_values(|p: (String, V)| (p.0@, p.1))
}

/// Values by name, each name once.
#[verifier::reject_recursive_types(V)]
pub struct NameMap<V> {
    entries: Vec<(String, V)>,
}

impl<V> View for NameMap<V> {
    type V = Map<Seq<char>, V>;

    closed spec fn view(&self) -> Map<Seq<char>, V> {
        pairs_map(named_pairs(self.entries@))
    }
}

impl<V> NameMap<V> {
    #[verifier::type_invariant]
    spec fn inv(&self) -> bool {
        keys_distinct(named_pairs(self.entries@))
    }

    /// No names.
    pub fn new() -> (m: Self)
        ensures
            m@ == Map::<Seq<char>, V>::empty(),
    {
        let m = NameMap { entries: Vec::new() };
        assert(named_pairs(m.entries@) =~= Seq::empty());
        m
    }

    /// Where `name` is stored.
    fn position(&self, name: &str) -> (r: Option<usize>)
        ensures
            self@.contains_key(name@) == r is Some,
            r matches Some(i) ==> i < self.entries@.len() && self.entries@[i as int].0@ == name@
                && self@[name@] == self.entries@[i as int].1,
    {
        proof {
            use_type_invariant(self);
        }
        let r = find_key(&self.entries, name);
        proof {
            let s = named_pairs(self.entries@);
            match r {
                Some(i) => {
                    assert(s[i as int].0 == name@);
                },
                None => {
                    assert forall|j: int| 0 <= j < s.len() implies s[j].0 != name@ by {
                        assert(s[j].0 == self.entries@[j].0@);
                    }
                },
            }
            lemma_pairs_lookup(s, name@, r);
        }
        r
    }

    /// Stores `value` under `name`, replacing what was stored there.
    pub fn insert(&mut self, name: String, value: V)
        ensures
            final(self)@ == old(self)@.insert(name@, value),
    {
        proof {
            use_type_invariant(&*self);
        }
        let ghost es = named_pairs(self.entries@);
        let found = self.position(name.as_str());
        let mut entries: Vec<(String, V)> = Vec::new();
        std::mem::swap(&mut entries, &mut self.entries);
        match found {
            Some(i) => {
                entries.set(i, (name, value));
                proof {
                    assert(named_pairs(entries@) =~= es.update(i as int, (es[i as int].0, value)));
                    lemma_pairs_map_update(es, i as int, value);
                }
            },
            None => {
                let ghost key = name@;
                entries.push((name, value));
                proof {
                    lemma_pairs_map(es);
                    assert forall|j: int| 0 <= j < es.len() implies es[j].0 != key by {
                        assert(pairs_map(es).contains_key(es[j].0));
                    }
                    assert(named_pairs(entries@) =~= es.push((key, value)));
                    lemma_pairs_map_push(es, key, value);
                }
            },
        }
        self.entries = entries;
    }

    /// The value stored under `name`.
    pub fn get(&self, name: &str) -> (r: Option<&V>)
        ensures
            r is Some == self@.contains_key(name@),
            r matches Some(v) ==> *v == self@[name@],
    {
        match self.position(name) {
            Some(i) => Some(&self.entries[i].1),
            None => None,
        }
    }

    /// Takes out the value stored under `name`.
    pub fn remove(&mut self, name: &str) -> (r: Option<V>)
        ensures
            r is Some == old(self)@.contains_key(name@),
            r matches Some(v) ==> v == old(self)@[name@],
            final(self)@ == old(self)@.remove(name@),
    {
        proof {
            use_type_invariant(&*self);
        }
        let ghost es = named_pairs(self.entries@);
        match self.position(name) {
            Some(i) => {
                let mut entries: Vec<(String, V)> = Vec::new();
                std::mem::swap(&mut entries, &mut self.entries);
                let (_, v) = entries.remove(i);
                proof {
                    assert(named_pairs(entries@) =~= es.remove(i as int));
                    lemma_pairs_map_remove(es, i as int);
                }
                self.entries = entries;
                Some(v)
            },
            None => {
                assert(old(self)@.remove(name@) =~= old(self)@);
                None
            },
        }
    }
}

/// The abstract state of a [`ConnManager`].
pub struct ConnView<W, D, H, G> {
    pub hub_name: Seq<char>,
    pub locks: Map<Seq<char>, Seq<char>>,
    pub writers: Map<Seq<char>, W>,
    pub dbproxys: Map<Seq<char>, D>,
    pub hubproxys: Map<Seq<char>, H>,
    pub gateproxys: Map<Seq<char>, G>,
}

/// The lock values as texts.
pub open spec fn lock_texts(m: Map<Seq<char>, String>) -> Map<Seq<char>, Seq<char>> {
    m.map_values(|v: String| v@)
}

/// The connections of a hub server.
#[verifier::reject_recursive_types(W)]
#[verifier::reject_recursive_types(D)]
#[verifier::reject_recursive_types(H)]
#[verifier::reject_recursive_types(G)]
pub struct ConnManager<W, D, H, G> {
    hub_name: String,
    locks: NameMap<String>,
    wrs: NameMap<W>,
    dbproxys: NameMap<D>,
    hubproxys: NameMap<H>,
    gateproxys: NameMap<G>,
}

impl<W, D, H, G> View for ConnManager<W, D, H, G> {
    type V = ConnView<W, D, H, G>;

    closed spec fn view(&self) -> ConnView<W, D, H, G> {
        ConnView {
            hub_name: self.hub_name@,
            locks: lock_texts(self.locks@),
            writers: self.wrs@,
            dbproxys: self.dbproxys@,
            hubproxys: self.hubproxys@,
            gateproxys: self.gateproxys@,
        }
    }
}

impl<W, D, H, G> ConnManager<W, D, H, G> {
    /// The registry of hub `hub_name`, with no lock and no connection.
    pub fn new(hub_name: String) -> (c: Self)
        ensures
            c@ == (ConnView::<W, D, H, G> {
                hub_name: hub_name@,
                locks: Map::empty(),
                writers: Map::empty(),
                dbproxys: Map::empty(),
                hubproxys: Map::empty(),
                gateproxys: Map::empty(),
            }),
    {
        let c = ConnManager {
            hub_name,
            locks: NameMap::new(),
            wrs: NameMap::new(),
            dbproxys: NameMap::new(),
            hubproxys: NameMap::new(),
            gateproxys: NameMap::new(),
        };
        assert(lock_texts(c.locks@) =~= Map::empty());
        c
    }

    /// Records the value of a lock that the hub took.
    pub fn add_lock(&mut self, lock_key: String, value: String)
        ensures
            final(self)@ == (ConnView { locks: old(self)@.locks.insert(lock_key@, value@), ..old(self)@ }),
    {
        let ghost k = lock_key@;
        let ghost v = value@;
        self.locks.insert(lock_key, value);
        assert(lock_texts(self.locks@) =~= old(self)@.locks.insert(k, v));
    }

    /// Forgets a lock and returns its value; the lock must be recorded.
    pub fn remove_lock(&mut self, lock_key: String) -> (r: String)
        requires
            old(self)@.locks.contains_key(lock_key@),
        ensures
            r@ == old(self)@.locks[lock_key@],
            final(self)@ == (ConnView { locks: old(self)@.locks.remove(lock_key@), ..old(self)@ }),
    {
        let r = self.locks.remove(lock_key.as_str());
        assert(lock_texts(self.locks@) =~= old(self)@.locks.remove(lock_key@));
        match r {
            Some(v) => v,
            None => {
                assert(false);
                String::new()
            },
        }
    }

    /// The name of the hub.
    pub fn get_hub_name(&self) -> (r: String)
        ensures
            r@ == self@.hub_name,
    {
        copy_string(&self.hub_name)
    }

    /// The writer already connected to server `name`, if any.
    pub fn get_writer(&self, name: &str) -> (r: Option<&W>)
        ensures
            r is Some == self@.writers.contains_key(name@),
            r matches Some(w) ==> *w == self@.writers[name@],
    {
        self.wrs.get(name)
    }

    /// Records the writer connected to server `name`.
    pub fn add_writer(&mut self, name: String, wr: W)
        ensures
            final(self)@ == (ConnView { writers: old(self)@.writers.insert(name@, wr), ..old(self)@ }),
    {
        self.wrs.insert(name, wr);
    }

    /// Records the proxy of database server `name`.
    pub fn add_dbproxy_proxy(&mut self, name: String, proxy: D)
        ensures
            final(self)@ == (ConnView { dbproxys: old(self)@.dbproxys.insert(name@, proxy), ..old(self)@ }),
    {
        self.dbproxys.insert(name, proxy);
    }

    pub fn get_dbproxy_proxy(&self, name: &String) -> (r: Option<&D>)
        ensures
            r is Some == self@.dbproxys.contains_key(name@),
            r matches Some(p) ==> *p == self@.dbproxys[name@],
    {
        self.dbproxys.get(name.as_str())
    }

    /// Records the proxy of hub `name`.
    pub fn add_hub_proxy(&mut self, name: String, proxy: H)
        ensures
            final(self)@ == (ConnView { hubproxys: old(self)@.hubproxys.insert(name@, proxy), ..old(self)@ }),
    {
        self.hubproxys.insert(name, proxy);
    }

    pub fn get_hub_proxy(&self, name: &String) -> (r: Option<&H>)
        ensures
            r is Some == self@.hubproxys.contains_key(name@),
            r matches Some(p) ==> *p == self@.hubproxys[name@],
    {
        self.hubproxys.get(name.as_str())
    }

    /// Records the proxy of relay server `name`.
    pub fn add_gate_proxy(&mut self, name: String, proxy: G)
        ensures
            final(self)@ == (ConnView { gateproxys: old(self)@.gateproxys.insert(name@, proxy), ..old(self)@ }),
    {
        self.gateproxys.insert(name, proxy);
    }

    pub fn get_gate_proxy(&self, name: &String) -> (r: Option<&G>)
        ensures
            r is Some == self@.gateproxys.contains_key(name@),
            r matches Some(p) ==> *p == self@.gateproxys[name@],
    {
        self.gateproxys.get(name.as_str())
    }
}

/// A lock recorded and then removed gives back its value and leaves the
/// other locks as they were.
pub proof fn lock_round_trip(locks: Map<Seq<char>, Seq<char>>, key: Seq<char>, value: Seq<char>)
    requires
        !locks.contains_key(key),
    ensures
        locks.insert(key, value).contains_key(key),
        locks.insert(key, value)[key] == value,
        locks.insert(key, value).remove(key) == locks,
{
    assert(locks.insert(key, value).remove(key) =~= locks);
}

} // verus!
