//! Editor commands on entities: transform, delete, create and prefab
//! instantiation. Each records what `undo` needs and calls back into the
//! scene to do the work. `P` stands for a position and `V` for a vector
//! (rotation in Euler degrees, or scale); the editor uses 3D points and
//! vectors of single-precision numbers. The callbacks are closures; each
//! command is given them with the promise that they accept any argument.
use vstd::prelude::*;
use crate::commands::EditorCommand;
use crate::text::opt_text;
use crate::text::texts;

verus! {

/// Whether `f` was called to place the entity of text `id` at `p`, `r`, `s`
/// (and returned).
pub open spec fn placed<P, V, F: Fn(&str, P, V, V)>(f: F, id: Seq<char>, p: P, r: V, s: V) -> bool {
    exists|e: &str| e@ == id && #[trigger] call_ensures(f, (e, p, r, s), ())
}

/// Whether `f` was called with an entity id of text `id` (and returned).
pub open spec fn called_for<F: Fn(&str)>(f: F, id: Seq<char>) -> bool {
    exists|e: &str| e@ == id && #[trigger] call_ensures(f, (e,), ())
}

/// Whether `f` accepts every placement.
pub open spec fn places_anything<P, V, F: Fn(&str, P, V, V)>(f: F) -> bool {
    forall|e: &str, p: P, r: V, s: V| #[trigger] call_requires(f, (e, p, r, s))
}

/// Whether `f` accepts every entity id.
pub open spec fn takes_any_id<F: Fn(&str)>(f: F) -> bool {
    forall|e: &str| #[trigger] call_requires(f, (e,))
}

/// Changes the position, rotation and scale of an entity; `F` places it.
#[verifier::reject_recursive_types(P)]
#[verifier::reject_recursive_types(V)]
pub struct TransformCommand<P: Copy, V: Copy, F: Fn(&str, P, V, V)> {
    pub entity_id: String,
    pub old_position: P,
    pub new_position: P,
    pub old_rotation_euler: V,
    pub new_rotation_euler: V,
    pub old_scale: V,
    pub new_scale: V,
    apply: Option<F>,
    executed: bool,
    runs: Ghost<Seq<(bool, bool)>>,
}

/// What a [`TransformCommand`] records.
pub struct TransformView<P, V> {
    pub entity_id: Seq<char>,
    pub old_position: P,
    pub new_position: P,
    pub old_rotation_euler: V,
    pub new_rotation_euler: V,
    pub old_scale: V,
    pub new_scale: V,
    pub has_callback: bool,
    pub executed: bool,
}

impl<P: Copy, V: Copy, F: Fn(&str, P, V, V)> View for TransformCommand<P, V, F> {
    type V = TransformView<P, V>;

    closed spec fn view(&self) -> TransformView<P, V> {
        TransformView {
            entity_id: self.entity_id@,
            old_position: self.old_position,
            new_position: self.new_position,
            old_rotation_euler: self.old_rotation_euler,
            new_rotation_euler: self.new_rotation_euler,
            old_scale: self.old_scale,
            new_scale: self.new_scale,
            has_callback: self.apply is Some,
            executed: self.executed,
        }
    }
}

impl<P: Copy, V: Copy, F: Fn(&str, P, V, V)> TransformCommand<P, V, F> {
    #[verifier::type_invariant]
    spec fn inv(&self) -> bool {
        self.apply matches Some(f) ==> places_anything(f)
    }

    /// The callback, if one is set.
    pub closed spec fn callback(&self) -> Option<F> {
        self.apply
    }

    pub fn new(
        entity_id: String,
        old_position: P,
        new_position: P,
        old_rotation_euler: V,
        new_rotation_euler: V,
        old_scale: V,
        new_scale: V,
    ) -> (r: Self)
        ensures
            r@ == (TransformView {
                entity_id: entity_id@,
                old_position,
                new_position,
                old_rotation_euler,
                new_rotation_euler,
                old_scale,
                new_scale,
                has_callback: false,
                executed: false,
            }),
            r.callback() is None,
            r.runs().len() == 0,
    {
        TransformCommand {
            entity_id,
            old_position,
            new_position,
            old_rotation_euler,
            new_rotation_euler,
            old_scale,
            new_scale,
            apply: None,
            executed: false,
            runs: Ghost(Seq::empty()),
        }
    }

    /// The same command, placing the entity through `f`.
    pub fn with_apply(self, f: F) -> (r: Self)
        requires
            places_anything(f),
        ensures
            r@ == (TransformView { has_callback: true, ..self@ }),
            r.callback() == Some(f),
    {
        TransformCommand {
            entity_id: self.entity_id,
            old_position: self.old_position,
            new_position: self.new_position,
            old_rotation_euler: self.old_rotation_euler,
            new_rotation_euler: self.new_rotation_euler,
            old_scale: self.old_scale,
            new_scale: self.new_scale,
            apply: Some(f),
            executed: self.executed,
            runs: self.runs,
        }
    }
}

impl<P: Copy, V: Copy, F: Fn(&str, P, V, V)> EditorCommand for TransformCommand<P, V, F> {
    open spec fn shown(&self) -> Seq<char> {
        "Transform"@
    }

    closed spec fn runs(&self) -> Seq<(bool, bool)> {
        self.runs@
    }

    /// Places the entity at the new placement.
    fn execute(&mut self) -> (ok: bool)
        ensures
            ok,
            final(self)@ == (TransformView { executed: true, ..old(self)@ }),
            final(self).callback() == old(self).callback(),
            old(self).callback() matches Some(f) ==> placed(
                f,
                old(self)@.entity_id,
                old(self)@.new_position,
                old(self)@.new_rotation_euler,
                old(self)@.new_scale,
            ),
    {
        proof {
            use_type_invariant(&*self);
        }
        match &self.apply {
            Some(cb) => cb(self.entity_id.as_str(), self.new_position, self.new_rotation_euler, self.new_scale),
            None => {},
        }
        self.executed = true;
        proof {
            self.runs = Ghost(self.runs@.push((true, true)));
        }
        true
    }

    /// Puts the entity back at the old placement, if the command ran.
    fn undo(&mut self) -> (ok: bool)
        ensures
            ok == old(self)@.executed,
            final(self)@ == (TransformView { executed: false, ..old(self)@ }),
            final(self).callback() == old(self).callback(),
            old(self)@.executed ==> (old(self).callback() matches Some(f) ==> placed(
                f,
                old(self)@.entity_id,
                old(self)@.old_position,
                old(self)@.old_rotation_euler,
                old(self)@.old_scale,
            )),
    {
        proof {
            use_type_invariant(&*self);
        }
        if !self.executed {
            proof {
                self.runs = Ghost(self.runs@.push((false, false)));
            }
            return false;
        }
        match &self.apply {
            Some(cb) => cb(self.entity_id.as_str(), self.old_position, self.old_rotation_euler, self.old_scale),
            None => {},
        }
        self.executed = false;
        proof {
            self.runs = Ghost(self.runs@.push((false, true)));
        }
        true
    }

    fn description(&self) -> (r: &str) {
        "Transform"
    }
}

/// Deletes an entity; undo creates it again where it was. `D` deletes an
/// entity and `C` creates one at a placement.
#[verifier::reject_recursive_types(P)]
#[verifier::reject_recursive_types(V)]
pub struct DeleteEntityCommand<P: Copy, V: Copy, D: Fn(&str), C: Fn(&str, P, V, V)> {
    pub entity_id: String,
    pub parent_id: Option<String>,
    pub position: P,
    pub rotation_euler: V,
    pub scale: V,
    on_delete: Option<D>,
    on_create: Option<C>,
    executed: bool,
    runs: Ghost<Seq<(bool, bool)>>,
}

/// What a [`DeleteEntityCommand`] records.
pub struct DeleteView<P, V> {
    pub entity_id: Seq<char>,
    pub parent_id: Option<Seq<char>>,
    pub position: P,
    pub rotation_euler: V,
    pub scale: V,
    pub has_delete: bool,
    pub has_create: bool,
    pub executed: bool,
}

impl<P: Copy, V: Copy, D: Fn(&str), C: Fn(&str, P, V, V)> View for DeleteEntityCommand<P, V, D, C> {
    type V = DeleteView<P, V>;

    closed spec fn view(&self) -> DeleteView<P, V> {
        DeleteView {
            entity_id: self.entity_id@,
            parent_id: opt_text(self.parent_id),
            position: self.position,
            rotation_euler: self.rotation_euler,
            scale: self.scale,
            has_delete: self.on_delete is Some,
            has_create: self.on_create is Some,
            executed: self.executed,
        }
    }
}

impl<P: Copy, V: Copy, D: Fn(&str), C: Fn(&str, P, V, V)> DeleteEntityCommand<P, V, D, C> {
    #[verifier::type_invariant]
    spec fn inv(&self) -> bool {
        &&& (self.on_delete matches Some(d) ==> takes_any_id(d))
        &&& (self.on_create matches Some(c) ==> places_anything(c))
    }

    /// The delete callback, if one is set.
    pub closed spec fn delete_callback(&self) -> Option<D> {
        self.on_delete
    }

    /// The create callback, if one is set.
    pub closed spec fn create_callback(&self) -> Option<C> {
        self.on_create
    }

    pub fn new(entity_id: String, position: P, rotation_euler: V, scale: V) -> (r: Self)
        ensures
            r@ == (DeleteView {
                entity_id: entity_id@,
                parent_id: None,
                position,
                rotation_euler,
                scale,
                has_delete: false,
                has_create: false,
                executed: false,
            }),
            r.delete_callback() is None,
            r.create_callback() is None,
            r.runs().len() == 0,
    {
        DeleteEntityCommand {
            entity_id,
            parent_id: None,
            position,
            rotation_euler,
            scale,
            on_delete: None,
            on_create: None,
            executed: false,
            runs: Ghost(Seq::empty()),
        }
    }

    /// The same command, deleting through `d` and creating again through `c`.
    pub fn with_callbacks(self, d: D, c: C) -> (r: Self)
        requires
            takes_any_id(d),
            places_anything(c),
        ensures
            r@ == (DeleteView { has_delete: true, has_create: true, ..self@ }),
            r.delete_callback() == Some(d),
            r.create_callback() == Some(c),
    {
        DeleteEntityCommand {
            entity_id: self.entity_id,
            parent_id: self.parent_id,
            position: self.position,
            rotation_euler: self.rotation_euler,
            scale: self.scale,
            on_delete: Some(d),
            on_create: Some(c),
            executed: self.executed,
            runs: self.runs,
        }
    }
}

impl<P: Copy, V: Copy, D: Fn(&str), C: Fn(&str, P, V, V)> EditorCommand for DeleteEntityCommand<P, V, D, C> {
    open spec fn shown(&self) -> Seq<char> {
        "Delete Entity"@
    }

    closed spec fn runs(&self) -> Seq<(bool, bool)> {
        self.runs@
    }

    /// Deletes the entity.
    fn execute(&mut self) -> (ok: bool)
        ensures
            ok,
            final(self)@ == (DeleteView { executed: true, ..old(self)@ }),
            final(self).delete_callback() == old(self).delete_callback(),
            final(self).create_callback() == old(self).create_callback(),
            old(self).delete_callback() matches Some(d) ==> called_for(d, old(self)@.entity_id),
    {
        proof {
            use_type_invariant(&*self);
        }
        match &self.on_delete {
            Some(cb) => cb(self.entity_id.as_str()),
            None => {},
        }
        self.executed = true;
        proof {
            self.runs = Ghost(self.runs@.push((true, true)));
        }
        true
    }

    /// Creates the entity again at its recorded placement, if the command
    /// ran.
    fn undo(&mut self) -> (ok: bool)
        ensures
            ok == old(self)@.executed,
            final(self)@ == (DeleteView { executed: false, ..old(self)@ }),
            final(self).delete_callback() == old(self).delete_callback(),
            final(self).create_callback() == old(self).create_callback(),
            old(self)@.executed ==> (old(self).create_callback() matches Some(c) ==> placed(
                c,
                old(self)@.entity_id,
                old(self)@.position,
                old(self)@.rotation_euler,
                old(self)@.scale,
            )),
    {
        proof {
            use_type_invariant(&*self);
        }
        if !self.executed {
            proof {
                self.runs = Ghost(self.runs@.push((false, false)));
            }
            return false;
        }
        match &self.on_create {
            Some(cb) => cb(self.entity_id.as_str(), self.position, self.rotation_euler, self.scale),
            None => {},
        }
        self.executed = false;
        proof {
            self.runs = Ghost(self.runs@.push((false, true)));
        }
        true
    }

    fn description(&self) -> (r: &str) {
        "Delete Entity"
    }
}

/// Creates an entity; undo deletes it. `C` creates an entity at a
/// placement and `D` deletes one.
#[verifier::reject_recursive_types(P)]
#[verifier::reject_recursive_types(V)]
pub struct CreateEntityCommand<P: Copy, V: Copy, C: Fn(&str, P, V, V), D: Fn(&str)> {
    pub entity_id: String,
    pub position: P,
    pub rotation_euler: V,
    pub scale: V,
    on_create: Option<C>,
    on_delete: Option<D>,
    executed: bool,
    runs: Ghost<Seq<(bool, bool)>>,
}

/// What a [`CreateEntityCommand`] records.
pub struct CreateView<P, V> {
    pub entity_id: Seq<char>,
    pub position: P,
    pub rotation_euler: V,
    pub scale: V,
    pub has_create: bool,
    pub has_delete: bool,
    pub executed: bool,
}

impl<P: Copy, V: Copy, C: Fn(&str, P, V, V), D: Fn(&str)> View for CreateEntityCommand<P, V, C, D> {
    type V = CreateView<P, V>;

    closed spec fn view(&self) -> CreateView<P, V> {
        CreateView {
            entity_id: self.entity_id@,
            position: self.position,
            rotation_euler: self.rotation_euler,
            scale: self.scale,
            has_create: self.on_create is Some,
            has_delete: self.on_delete is Some,
            executed: self.executed,
        }
    }
}

impl<P: Copy, V: Copy, C: Fn(&str, P, V, V), D: Fn(&str)> CreateEntityCommand<P, V, C, D> {
    #[verifier::type_invariant]
    spec fn inv(&self) -> bool {
        &&& (self.on_create matches Some(c) ==> places_anything(c))
        &&& (self.on_delete matches Some(d) ==> takes_any_id(d))
    }

    /// The create callback, if one is set.
    pub closed spec fn create_callback(&self) -> Option<C> {
        self.on_create
    }

    /// The delete callback, if one is set.
    pub closed spec fn delete_callback(&self) -> Option<D> {
        self.on_delete
    }

    pub fn new(entity_id: String, position: P, rotation_euler: V, scale: V) -> (r: Self)
        ensures
            r@ == (CreateView {
                entity_id: entity_id@,
                position,
                rotation_euler,
                scale,
                has_create: false,
                has_delete: false,
                executed: false,
            }),
            r.create_callback() is None,
            r.delete_callback() is None,
            r.runs().len() == 0,
    {
        CreateEntityCommand { entity_id, position, rotation_euler, scale, on_create: None, on_delete: None, executed: false, runs: Ghost(Seq::empty()) }
    }

    /// The same command, creating through `c` and deleting through `d`.
    pub fn with_callbacks(self, c: C, d: D) -> (r: Self)
        requires
            places_anything(c),
            takes_any_id(d),
        ensures
            r@ == (CreateView { has_create: true, has_delete: true, ..self@ }),
            r.create_callback() == Some(c),
            r.delete_callback() == Some(d),
    {
        CreateEntityCommand {
            entity_id: self.entity_id,
            position: self.position,
            rotation_euler: self.rotation_euler,
            scale: self.scale,
            on_create: Some(c),
            on_delete: Some(d),
            executed: self.executed,
            runs: self.runs,
        }
    }
}

impl<P: Copy, V: Copy, C: Fn(&str, P, V, V), D: Fn(&str)> EditorCommand for CreateEntityCommand<P, V, C, D> {
    open spec fn shown(&self) -> Seq<char> {
        "Create Entity"@
    }

    closed spec fn runs(&self) -> Seq<(bool, bool)> {
        self.runs@
    }

    /// Creates the entity at its placement.
    fn execute(&mut self) -> (ok: bool)
        ensures
            ok,
            final(self)@ == (CreateView { executed: true, ..old(self)@ }),
            final(self).create_callback() == old(self).create_callback(),
            final(self).delete_callback() == old(self).delete_callback(),
            old(self).create_callback() matches Some(c) ==> placed(
                c,
                old(self)@.entity_id,
                old(self)@.position,
                old(self)@.rotation_euler,
                old(self)@.scale,
            ),
    {
        proof {
            use_type_invariant(&*self);
        }
        match &self.on_create {
            Some(cb) => cb(self.entity_id.as_str(), self.position, self.rotation_euler, self.scale),
            None => {},
        }
        self.executed = true;
        proof {
            self.runs = Ghost(self.runs@.push((true, true)));
        }
        true
    }

    /// Deletes the entity, if the command ran.
    fn undo(&mut self) -> (ok: bool)
        ensures
            ok == old(self)@.executed,
            final(self)@ == (CreateView { executed: false, ..old(self)@ }),
            final(self).create_callback() == old(self).create_callback(),
            final(self).delete_callback() == old(self).delete_callback(),
            old(self)@.executed ==> (old(self).delete_callback() matches Some(d) ==> called_for(d, old(self)@.entity_id)),
    {
        proof {
            use_type_invariant(&*self);
        }
        if !self.executed {
            proof {
                self.runs = Ghost(self.runs@.push((false, false)));
            }
            return false;
        }
        match &self.on_delete {
            Some(cb) => cb(self.entity_id.as_str()),
            None => {},
        }
        self.executed = false;
        proof {
            self.runs = Ghost(self.runs@.push((false, true)));
        }
        true
    }

    fn description(&self) -> (r: &str) {
        "Create Entity"
    }
}

/// Whether `f`, called with a prefab id of text `uuid` at `p`, returned
/// the ids `v`.
pub open spec fn instantiated<P, I: Fn(&str, P) -> Vec<String>>(f: I, uuid: Seq<char>, p: P, v: Vec<String>) -> bool {
    exists|e: &str| e@ == uuid && #[trigger] call_ensures(f, (e, p), v)
}

/// Instantiates a prefab; undo removes the entities it created, redo
/// instantiates it again. `I` instantiates a prefab at a position and gives
/// back the ids of the entities it created; `R` removes one entity.
#[verifier::reject_recursive_types(P)]
pub struct InstantiatePrefabCommand<P: Copy, I: Fn(&str, P) -> Vec<String>, R: Fn(&str)> {
    pub prefab_uuid: String,
    pub position: P,
    pub created_entity_ids: Vec<String>,
    on_instantiate: Option<I>,
    on_remove: Option<R>,
    executed: bool,
    runs: Ghost<Seq<(bool, bool)>>,
}

/// What an [`InstantiatePrefabCommand`] records.
pub struct InstantiateView<P> {
    pub prefab_uuid: Seq<char>,
    pub position: P,
    pub created: Seq<Seq<char>>,
    pub has_instantiate: bool,
    pub has_remove: bool,
    pub executed: bool,
}

impl<P: Copy, I: Fn(&str, P) -> Vec<String>, R: Fn(&str)> View for InstantiatePrefabCommand<P, I, R> {
    type V = InstantiateView<P>;

    closed spec fn view(&self) -> InstantiateView<P> {
        InstantiateView {
            prefab_uuid: self.prefab_uuid@,
            position: self.position,
            created: texts(self.created_entity_ids@),
            has_instantiate: self.on_instantiate is Some,
            has_remove: self.on_remove is Some,
            executed: self.executed,
        }
    }
}

impl<P: Copy, I: Fn(&str, P) -> Vec<String>, R: Fn(&str)> InstantiatePrefabCommand<P, I, R> {
    #[verifier::type_invariant]
    spec fn inv(&self) -> bool {
        &&& (self.on_instantiate matches Some(f) ==> forall|e: &str, p: P| #[trigger] call_requires(f, (e, p)))
        &&& (self.on_remove matches Some(g) ==> takes_any_id(g))
    }

    /// The instantiate callback, if one is set.
    pub closed spec fn instantiate_callback(&self) -> Option<I> {
        self.on_instantiate
    }

    /// The remove callback, if one is set.
    pub closed spec fn remove_callback(&self) -> Option<R> {
        self.on_remove
    }

    pub fn new(prefab_uuid: String, position: P) -> (r: Self)
        ensures
            r@ == (InstantiateView {
                prefab_uuid: prefab_uuid@,
                position,
                created: Seq::empty(),
                has_instantiate: false,
                has_remove: false,
                executed: false,
            }),
            r.instantiate_callback() is None,
            r.remove_callback() is None,
            r.runs().len() == 0,
    {
        let r = InstantiatePrefabCommand {
            prefab_uuid,
            position,
            created_entity_ids: Vec::new(),
            on_instantiate: None,
            on_remove: None,
            executed: false,
            runs: Ghost(Seq::empty()),
        };
        assert(texts(r.created_entity_ids@) =~= Seq::empty());
        r
    }

    /// The same command, instantiating through `on_instantiate` and removing
    /// through `on_remove`.
    pub fn with_callbacks(self, on_instantiate: I, on_remove: R) -> (r: Self)
        requires
            forall|e: &str, p: P| #[trigger] call_requires(on_instantiate, (e, p)),
            takes_any_id(on_remove),
        ensures
            r@ == (InstantiateView { has_instantiate: true, has_remove: true, ..self@ }),
            r.instantiate_callback() == Some(on_instantiate),
            r.remove_callback() == Some(on_remove),
    {
        InstantiatePrefabCommand {
            prefab_uuid: self.prefab_uuid,
            position: self.position,
            created_entity_ids: self.created_entity_ids,
            on_instantiate: Some(on_instantiate),
            on_remove: Some(on_remove),
            executed: self.executed,
            runs: self.runs,
        }
    }

    /// The entities created by the last run.
    pub fn created_entity_ids(&self) -> (r: &Vec<String>)
        ensures
            texts(r@) == self@.created,
    {
        &self.created_entity_ids
    }
}

impl<P: Copy, I: Fn(&str, P) -> Vec<String>, R: Fn(&str)> EditorCommand for InstantiatePrefabCommand<P, I, R> {
    open spec fn shown(&self) -> Seq<char> {
        "Instantiate Prefab"@
    }

    closed spec fn runs(&self) -> Seq<(bool, bool)> {
        self.runs@
    }

    /// Instantiates the prefab and records the ids the callback returned;
    /// succeeds when at least one entity is recorded.
    fn execute(&mut self) -> (ok: bool)
        ensures
            ok == (final(self)@.created.len() > 0),
            final(self)@ == (InstantiateView { executed: true, created: final(self)@.created, ..old(self)@ }),
            final(self).instantiate_callback() == old(self).instantiate_callback(),
            final(self).remove_callback() == old(self).remove_callback(),
            old(self).instantiate_callback() is None ==> final(self)@.created == old(self)@.created,
            old(self).instantiate_callback() matches Some(f) ==> exists|v: Vec<String>|
                #[trigger] instantiated(f, old(self)@.prefab_uuid, old(self)@.position, v) && texts(v@)
                    == final(self)@.created,
    {
        proof {
            use_type_invariant(&*self);
        }
        match &self.on_instantiate {
            Some(cb) => {
                let ids = cb(self.prefab_uuid.as_str(), self.position);
                let ghost v = ids;
                self.created_entity_ids = ids;
                assert(instantiated(*cb, self@.prefab_uuid, self.position, v));
            },
            None => {},
        }
        self.executed = true;
        let ok = self.created_entity_ids.len() > 0;
        proof {
            self.runs = Ghost(self.runs@.push((true, ok)));
        }
        ok
    }

    /// Hands every recorded id, in order, to the remove callback, if the
    /// command ran.
    fn undo(&mut self) -> (ok: bool)
        ensures
            ok == old(self)@.executed,
            final(self)@ == (InstantiateView { executed: false, ..old(self)@ }),
            final(self).instantiate_callback() == old(self).instantiate_callback(),
            final(self).remove_callback() == old(self).remove_callback(),
            old(self)@.executed ==> (old(self).remove_callback() matches Some(g) ==> forall|k: int|
                0 <= k < old(self)@.created.len() ==> called_for(g, #[trigger] old(self)@.created[k])),
    {
        proof {
            use_type_invariant(&*self);
        }
        if !self.executed {
            proof {
                self.runs = Ghost(self.runs@.push((false, false)));
            }
            return false;
        }
        match &self.on_remove {
            Some(cb) => {
                let mut i: usize = 0;
                while i < self.created_entity_ids.len()
                    invariant
                        i <= self.created_entity_ids@.len(),
                        takes_any_id(*cb),
                        forall|k: int| 0 <= k < i ==> called_for(*cb, #[trigger] texts(self.created_entity_ids@)[k]),
                    decreases self.created_entity_ids@.len() - i,
                {
                    let e = self.created_entity_ids[i].as_str();
                    cb(e);
                    assert(texts(self.created_entity_ids@)[i as int] == e@);
                    i = i + 1;
                }
            },
            None => {},
        }
        self.executed = false;
        proof {
            self.runs = Ghost(self.runs@.push((false, true)));
        }
        true
    }

    fn description(&self) -> (r: &str) {
        "Instantiate Prefab"
    }
}

/// Undoing a command right after running it gives back what the command
/// recorded before it ran (for the transform, delete and create commands,
/// whose records do not change when they run).
pub proof fn undo_restores_before_execute<P, V>(t: TransformView<P, V>, d: DeleteView<P, V>, c: CreateView<P, V>)
    requires
        !t.executed,
        !d.executed,
        !c.executed,
    ensures
        (TransformView { executed: false, ..TransformView { executed: true, ..t } }) == t,
        (DeleteView { executed: false, ..DeleteView { executed: true, ..d } }) == d,
        (CreateView { executed: false, ..CreateView { executed: true, ..c } }) == c,
{
}

} // verus!
