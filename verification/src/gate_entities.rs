//! The connection server's registry of remote entities: which hub owns each
//! entity, which client connections watch it, and which hubs each client's
//! main connection reaches.
use vstd::prelude::*;
use crate::assoc::keys_distinct;
use crate::assoc::lemma_pairs_lookup;
use crate::assoc::lemma_pairs_map;
use crate::assoc::lemma_pairs_map_push;
use crate::assoc::lemma_pairs_map_remove;
use crate::assoc::lemma_pairs_map_update;
use crate::assoc::pairs_map;
use crate::text::copy_string;
use crate::text::opt_text;
use crate::text::str_eq;
use crate::text::texts;

verus! {

/// What an [`Entity`] records.
pub struct EntityView<M> {
    pub entity_id: Seq<char>,
    pub hub_name: Seq<char>,
    pub main_conn_id: Option<Seq<char>>,
    pub conn_ids: Seq<Seq<char>>,
    pub is_migrate: bool,
    pub cached: Seq<M>,
}

/// A remote entity as the connection server sees it; `M` is a message kept while the
/// entity migrates between hubs.
pub struct Entity<M> {
    entity_id: String,
    hub_name: String,
    main_conn_id: Option<String>,
    conn_ids: Vec<String>,
    is_migrate: bool,
    cache_migrate_msg: Vec<M>,
}

impl<M> View for Entity<M> {
    type V = EntityView<M>;

    closed spec fn view(&self) -> EntityView<M> {
        EntityView {
            entity_id: self.entity_id@,
            hub_name: self.hub_name@,
            main_conn_id: opt_text(self.main_conn_id),
            conn_ids: texts(self.conn_ids@),
            is_migrate: self.is_migrate,
            cached: self.cache_migrate_msg@,
        }
    }
}

impl<M> Entity<M> {
    /// An entity of the given hub with no connection.
    pub fn new(entity_id: String, hub_name: String) -> (e: Self)
        ensures
            e@.entity_id == entity_id@,
            e@.hub_name == hub_name@,
            e@.main_conn_id is None,
            e@.conn_ids.len() == 0,
            !e@.is_migrate,
            e@.cached.len() == 0,
    {
        let e = Entity {
            entity_id,
            hub_name,
            main_conn_id: None,
            conn_ids: Vec::new(),
            is_migrate: false,
            cache_migrate_msg: Vec::new(),
        };
        assert(e@.conn_ids =~= Seq::<Seq<char>>::empty());
        e
    }

    pub fn set_main_conn_id(&mut self, id: Option<String>)
        ensures
            final(self)@ == (EntityView { main_conn_id: opt_text(id), ..old(self)@ }),
    {
        self.main_conn_id = id;
    }

    pub fn get_main_conn_id(&self) -> (r: Option<String>)
        ensures
            opt_text(r) == self@.main_conn_id,
    {
        match &self.main_conn_id {
            Some(c) => Some(copy_string(c)),
            None => None,
        }
    }

    /// Records one more client connection watching the entity.
    pub fn add_conn_id(&mut self, id: String)
        ensures
            final(self)@ == (EntityView { conn_ids: old(self)@.conn_ids.push(id@), ..old(self)@ }),
    {
        self.conn_ids.push(id);
        assert(self@.conn_ids =~= old(self)@.conn_ids.push(id@));
    }

    /// Forgets the first record of a client connection.
    pub fn delete_conn_id(&mut self, conn_id: &String)
        ensures
            !old(self)@.conn_ids.contains(conn_id@) ==> final(self)@ == old(self)@,
            old(self)@.conn_ids.contains(conn_id@) ==> exists|i: int|
                0 <= i < old(self)@.conn_ids.len() && old(self)@.conn_ids[i] == conn_id@ && (forall|j: int|
                    0 <= j < i ==> old(self)@.conn_ids[j] != conn_id@) && final(self)@ == (EntityView {
                    conn_ids: old(self)@.conn_ids.remove(i),
                    ..old(self)@
                }),
    {
        let mut i: usize = 0;
        while i < self.conn_ids.len()
            invariant
                i <= self.conn_ids@.len(),
                self@ == old(self)@,
                forall|j: int| 0 <= j < i ==> self@.conn_ids[j] != conn_id@,
            decreases self.conn_ids@.len() - i,
        {
            if str_eq(self.conn_ids[i].as_str(), conn_id.as_str()) {
                self.conn_ids.remove(i);
                proof {
                    assert(self@.conn_ids =~= old(self)@.conn_ids.remove(i as int));
                    assert(old(self)@.conn_ids[i as int] == conn_id@);
                }
                return;
            }
            i = i + 1;
        }
        proof {
            if old(self)@.conn_ids.contains(conn_id@) {
                let k = choose|k: int| 0 <= k < old(self)@.conn_ids.len() && old(self)@.conn_ids[k] == conn_id@;
                assert(false);
            }
        }
    }

    pub fn get_conn_ids(&self) -> (r: &Vec<String>)
        ensures
            texts(r@) == self@.conn_ids,
    {
        &self.conn_ids
    }

    pub fn get_entity_id(&self) -> (r: &String)
        ensures
            r@ == self@.entity_id,
    {
        &self.entity_id
    }

    pub fn get_hub_name(&self) -> (r: &String)
        ensures
            r@ == self@.hub_name,
    {
        &self.hub_name
    }

    pub fn is_migrate(&self) -> (r: bool)
        ensures
            r == self@.is_migrate,
    {
        self.is_migrate
    }

    /// Keeps a message to deliver once the migration ends.
    pub fn cache_migrate_msg(&mut self, msg: M)
        ensures
            final(self)@ == (EntityView { cached: old(self)@.cached.push(msg), ..old(self)@ }),
    {
        self.cache_migrate_msg.push(msg);
    }

    /// The messages kept during migration, oldest first.
    pub fn cached_messages(&self) -> (r: &[M])
        ensures
            r@ == self@.cached,
    {
        self.cache_migrate_msg.as_slice()
    }
}

/// The texts of the entity keys, with the entities.
pub open spec fn entity_pairs<M>(s: Seq<(String, Entity<M>)>) -> Seq<(Seq<char>, Entity<M>)> {
    s.map_values(|p: (String, Entity<M>)| (p.0@, p.1))
}

/// The texts of the client keys, with the texts of their hub names.
pub open spec fn client_pairs(s: Seq<(String, Vec<String>)>) -> Seq<(Seq<char>, Seq<Seq<char>>)> {
    s.map_values(|p: (String, Vec<String>)| (p.0@, texts(p.1@)))
}

/// The abstract state of an [`EntityManager`]: the entities by id, and the
/// hubs reached by each client's main connection, in registration order.
pub struct ManagerView<M> {
    pub entities: Map<Seq<char>, Entity<M>>,
    pub client_hubs: Map<Seq<char>, Seq<Seq<char>>>,
}

/// The connection server's registry of entities and client connections.
pub struct EntityManager<M> {
    entities: Vec<(String, Entity<M>)>,
    client_hub_map: Vec<(String, Vec<String>)>,
}

impl<M> View for EntityManager<M> {
    type V = ManagerView<M>;

    closed spec fn view(&self) -> ManagerView<M> {
        ManagerView {
            entities: pairs_map(entity_pairs(self.entities@)),
            client_hubs: pairs_map(client_pairs(self.client_hub_map@)),
        }
    }
}

impl<M> EntityManager<M> {
    pub closed spec fn wf(&self) -> bool {
        &&& keys_distinct(entity_pairs(self.entities@))
        &&& keys_distinct(client_pairs(self.client_hub_map@))
    }

    /// The hubs registered for a client, empty when there is none.
    pub open spec fn hubs_of(m: Map<Seq<char>, Seq<Seq<char>>>, conn: Seq<char>) -> Seq<Seq<char>> {
        if m.contains_key(conn) {
            m[conn]
        } else {
            Seq::empty()
        }
    }

    /// An empty registry.
    pub fn new() -> (m: Self)
        ensures
            m.wf(),
            m@.entities == Map::<Seq<char>, Entity<M>>::empty(),
            m@.client_hubs == Map::<Seq<char>, Seq<Seq<char>>>::empty(),
    {
        let m = EntityManager { entities: Vec::new(), client_hub_map: Vec::new() };
        assert(entity_pairs(m.entities@) =~= Seq::empty());
        assert(client_pairs(m.client_hub_map@) =~= Seq::empty());
        m
    }

    fn find_entity(&self, id: &str) -> (r: Option<usize>)
        requires
            self.wf(),
        ensures
            self@.entities.contains_key(id@) == r is Some,
            r matches Some(i) ==> i < self.entities@.len() && self.entities@[i as int].0@ == id@
                && self@.entities[id@] == self.entities@[i as int].1,
    {
        let mut i: usize = 0;
        while i < self.entities.len()
            invariant
                i <= self.entities@.len(),
                self.wf(),
                forall|j: int| 0 <= j < i ==> self.entities@[j].0@ != id@,
            decreases self.entities@.len() - i,
        {
            if str_eq(self.entities[i].0.as_str(), id) {
                proof {
                    assert(entity_pairs(self.entities@)[i as int].0 == id@);
                    lemma_pairs_lookup(entity_pairs(self.entities@), id@, Some(i));
                }
                return Some(i);
            }
            i = i + 1;
        }
        proof {
            let s = entity_pairs(self.entities@);
            assert forall|j: int| 0 <= j < s.len() implies s[j].0 != id@ by {
                assert(s[j].0 == self.entities@[j].0@);
            }
            lemma_pairs_lookup(s, id@, None);
        }
        None
    }

    fn find_client(&self, conn: &str) -> (r: Option<usize>)
        requires
            self.wf(),
        ensures
            self@.client_hubs.contains_key(conn@) == r is Some,
            r matches Some(i) ==> i < self.client_hub_map@.len() && self.client_hub_map@[i as int].0@ == conn@
                && self@.client_hubs[conn@] == texts(self.client_hub_map@[i as int].1@),
    {
        let mut i: usize = 0;
        while i < self.client_hub_map.len()
            invariant
                i <= self.client_hub_map@.len(),
                self.wf(),
                forall|j: int| 0 <= j < i ==> self.client_hub_map@[j].0@ != conn@,
            decreases self.client_hub_map@.len() - i,
        {
            if str_eq(self.client_hub_map[i].0.as_str(), conn) {
                proof {
                    assert(client_pairs(self.client_hub_map@)[i as int].0 == conn@);
                    lemma_pairs_lookup(client_pairs(self.client_hub_map@), conn@, Some(i));
                }
                return Some(i);
            }
            i = i + 1;
        }
        proof {
            let s = client_pairs(self.client_hub_map@);
            assert forall|j: int| 0 <= j < s.len() implies s[j].0 != conn@ by {
                assert(s[j].0 == self.client_hub_map@[j].0@);
            }
            lemma_pairs_lookup(s, conn@, None);
        }
        None
    }

    /// Stores an entity under its id (replacing the one stored before); if
    /// it has a main connection, its hub is added to that client's hubs.
    pub fn update_entity(&mut self, e: Entity<M>)
        requires
            old(self).wf(),
        ensures
            final(self).wf(),
            final(self)@.entities == old(self)@.entities.insert(e@.entity_id, e),
            final(self)@.client_hubs == match e@.main_conn_id {
                Some(c) => old(self)@.client_hubs.insert(c, Self::hubs_of(old(self)@.client_hubs, c).push(e@.hub_name)),
                None => old(self)@.client_hubs,
            },
    {
        let ghost ev = e@;
        let entity_id = copy_string(&e.entity_id);
        let hub_name = copy_string(&e.hub_name);
        let main_conn = e.get_main_conn_id();
        let ghost es = entity_pairs(self.entities@);
        match self.find_entity(entity_id.as_str()) {
            Some(i) => {
                self.entities.set(i, (entity_id, e));
                proof {
                    assert(entity_pairs(self.entities@) =~= es.update(i as int, (es[i as int].0, e)));
                    lemma_pairs_map_update(es, i as int, e);
                }
            },
            None => {
                self.entities.push((entity_id, e));
                proof {
                    lemma_pairs_map(es);
                    assert forall|j: int| 0 <= j < es.len() implies es[j].0 != ev.entity_id by {
                        assert(pairs_map(es).contains_key(es[j].0));
                    }
                    assert(entity_pairs(self.entities@) =~= es.push((ev.entity_id, e)));
                    lemma_pairs_map_push(es, ev.entity_id, e);
                }
            },
        }
        let ghost cs = client_pairs(self.client_hub_map@);
        assert(self@.client_hubs == old(self)@.client_hubs);
        match main_conn {
            None => {},
            Some(conn) => {
                match self.find_client(conn.as_str()) {
                    Some(i) => {
                        let ghost before = self.client_hub_map@;
                        let (key, hubs) = self.client_hub_map.remove(i);
                        let ghost old_hubs = hubs@;
                        let mut hubs = hubs;
                        hubs.push(hub_name);
                        proof {
                            assert(texts(hubs@) =~= texts(old_hubs).push(ev.hub_name));
                        }
                        self.client_hub_map.insert(i, (key, hubs));
                        proof {
                            assert(self.client_hub_map@ =~= before.update(i as int, (key, hubs)));
                            let upd = cs.update(i as int, (cs[i as int].0, cs[i as int].1.push(ev.hub_name)));
                            assert forall|j: int| 0 <= j < cs.len() implies client_pairs(self.client_hub_map@)[j] == upd[j] by {
                                if j != i as int {
                                    assert(self.client_hub_map@[j] == before[j]);
                                }
                            }
                            assert(client_pairs(self.client_hub_map@) =~= upd);
                            lemma_pairs_map_update(cs, i as int, cs[i as int].1.push(ev.hub_name));
                        }
                    },
                    None => {
                        let ghost before = self.client_hub_map@;
                        let mut hubs: Vec<String> = Vec::new();
                        hubs.push(hub_name);
                        proof {
                            assert(texts(hubs@) =~= Seq::<Seq<char>>::empty().push(ev.hub_name));
                        }
                        self.client_hub_map.push((conn, hubs));
                        proof {
                            assert forall|j: int| 0 <= j < cs.len() implies client_pairs(self.client_hub_map@)[j] == cs[j] by {
                                assert(self.client_hub_map@[j] == before[j]);
                            }
                            lemma_pairs_map(cs);
                            assert forall|j: int| 0 <= j < cs.len() implies cs[j].0 != ev.main_conn_id->0 by {
                                assert(pairs_map(cs).contains_key(cs[j].0));
                            }
                            let one = Seq::<Seq<char>>::empty().push(ev.hub_name);
                            assert(client_pairs(self.client_hub_map@) =~= cs.push((ev.main_conn_id->0, one)));
                            lemma_pairs_map_push(cs, ev.main_conn_id->0, one);
                            assert(Self::hubs_of(old(self)@.client_hubs, ev.main_conn_id->0) =~= Seq::<Seq<char>>::empty());
                        }
                    },
                }
            },
        }
    }

    /// The entity with the given id.
    pub fn get_entity(&self, entity_id: &String) -> (r: Option<&Entity<M>>)
        requires
            self.wf(),
        ensures
            r is Some == self@.entities.contains_key(entity_id@),
            r matches Some(e) ==> *e == self@.entities[entity_id@],
    {
        match self.find_entity(entity_id.as_str()) {
            Some(i) => Some(&self.entities[i].1),
            None => None,
        }
    }

    /// The entity with the given id, to modify in place; what is written
    /// through the reference becomes the entity stored under that id.
    pub fn get_entity_mut(&mut self, entity_id: &String) -> (r: Option<&mut Entity<M>>)
        requires
            old(self).wf(),
        ensures
            r is Some == old(self)@.entities.contains_key(entity_id@),
            r matches Some(e) ==> *e == old(self)@.entities[entity_id@] && final(self).wf()
                && final(self)@.client_hubs == old(self)@.client_hubs
                && final(self)@.entities == old(self)@.entities.insert(entity_id@, *final(e)),
            r is None ==> *final(self) == *old(self),
    {
        match self.find_entity(entity_id.as_str()) {
            Some(i) => {
                let ghost es = entity_pairs(self.entities@);
                let ghost before = self.entities@;
                let e = &mut self.entities[i].1;
                proof {
                    let after = before.update(i as int, (before[i as int].0, *final(e)));
                    assert(entity_pairs(after) =~= es.update(i as int, (es[i as int].0, *final(e))));
                    lemma_pairs_map_update(es, i as int, *final(e));
                }
                Some(e)
            },
            None => None,
        }
    }

    /// Removes and returns the entity with the given id.
    pub fn delete_entity(&mut self, entity_id: &String) -> (r: Option<Entity<M>>)
        requires
            old(self).wf(),
        ensures
            final(self).wf(),
            r is Some == old(self)@.entities.contains_key(entity_id@),
            r matches Some(e) ==> e == old(self)@.entities[entity_id@],
            final(self)@.entities == old(self)@.entities.remove(entity_id@),
            final(self)@.client_hubs == old(self)@.client_hubs,
    {
        let ghost es = entity_pairs(self.entities@);
        match self.find_entity(entity_id.as_str()) {
            Some(i) => {
                let (_, e) = self.entities.remove(i);
                proof {
                    assert(entity_pairs(self.entities@) =~= es.remove(i as int));
                    lemma_pairs_map_remove(es, i as int);
                }
                Some(e)
            },
            None => {
                assert(old(self)@.entities.remove(entity_id@) =~= old(self)@.entities);
                None
            },
        }
    }

    /// Removes and returns the hubs registered for a client connection.
    pub fn delete_client(&mut self, conn_id: &String) -> (r: Option<Vec<String>>)
        requires
            old(self).wf(),
        ensures
            final(self).wf(),
            r is Some == old(self)@.client_hubs.contains_key(conn_id@),
            r matches Some(v) ==> texts(v@) == old(self)@.client_hubs[conn_id@],
            final(self)@.client_hubs == old(self)@.client_hubs.remove(conn_id@),
            final(self)@.entities == old(self)@.entities,
    {
        let ghost cs = client_pairs(self.client_hub_map@);
        match self.find_client(conn_id.as_str()) {
            Some(i) => {
                let (_, hubs) = self.client_hub_map.remove(i);
                proof {
                    assert(client_pairs(self.client_hub_map@) =~= cs.remove(i as int));
                    lemma_pairs_map_remove(cs, i as int);
                }
                Some(hubs)
            },
            None => {
                assert(old(self)@.client_hubs.remove(conn_id@) =~= old(self)@.client_hubs);
                None
            },
        }
    }
}

/// A stored entity reads back as it was stored, and deleting it leaves
/// every other entity in place.
pub proof fn stored_entity_reads_back<M>(m: Map<Seq<char>, Entity<M>>, id: Seq<char>, other: Seq<char>, e: Entity<M>)
    requires
        other != id,
    ensures
        m.insert(id, e).contains_key(id) && m.insert(id, e)[id] == e,
        m.insert(id, e).remove(id).contains_key(other) == m.contains_key(other),
{
}

} // verus!
