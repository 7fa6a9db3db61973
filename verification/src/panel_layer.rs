//! Visibility and pinning of the floating panels: Tab shows or hides every
//! panel that is not pinned, and a panel hides the input of the layers
//! below it.
use vstd::prelude::*;
use crate::assoc::keys_distinct;
use crate::assoc::lemma_pairs_lookup;
use crate::assoc::lemma_pairs_map;
use crate::assoc::lemma_pairs_map_push;
use crate::assoc::lemma_pairs_map_update;
use crate::assoc::pairs_map;
use crate::panels::PanelLayer;

verus! {

/// The drawing level of a layer.
pub open spec fn layer_level(l: PanelLayer) -> int {
    match l {
        PanelLayer::SceneView => 0,
        PanelLayer::AssetBrowser => 1,
        PanelLayer::Hierarchy => 2,
        PanelLayer::Inspector => 3,
        PanelLayer::Toolbar => 4,
        PanelLayer::Animation => 5,
    }
}

/// The abstract state of a [`PanelVisibility`]: the visibility recorded
/// for each layer (a layer without a record counts as visible) and the
/// pinned layers.
pub struct VisibilityView {
    pub visible: Map<PanelLayer, bool>,
    pub pinned: Set<PanelLayer>,
}

impl VisibilityView {
    /// Whether a layer is shown.
    pub open spec fn shows(self, l: PanelLayer) -> bool {
        if self.visible.contains_key(l) {
            self.visible[l]
        } else {
            true
        }
    }

    /// Whether some recorded, unpinned layer is shown.
    pub open spec fn any_unpinned_visible(self) -> bool {
        exists|l: PanelLayer| #[trigger] self.visible.contains_key(l) && self.visible[l] && !self.pinned.contains(l)
    }

    /// The state after Tab: every recorded unpinned layer is hidden if one
    /// of them was shown, and shown otherwise; pinned layers keep theirs.
    pub open spec fn toggled(self) -> VisibilityView {
        VisibilityView {
            visible: Map::new(
                |l: PanelLayer| self.visible.contains_key(l),
                |l: PanelLayer|
                    if self.pinned.contains(l) {
                        self.visible[l]
                    } else {
                        !self.any_unpinned_visible()
                    },
            ),
            pinned: self.pinned,
        }
    }
}

/// Visibility and pinning of the editor's panels.
pub struct PanelVisibility {
    visibility: Vec<(PanelLayer, bool)>,
    pinned: Vec<PanelLayer>,
}

impl View for PanelVisibility {
    type V = VisibilityView;

    closed spec fn view(&self) -> VisibilityView {
        VisibilityView { visible: pairs_map(self.visibility@), pinned: self.pinned@.to_set() }
    }
}

impl PanelVisibility {
    pub closed spec fn wf(&self) -> bool {
        keys_distinct(self.visibility@)
    }

    /// Every panel shown except the animation panel; nothing pinned.
    pub fn new() -> (p: Self)
        ensures
            p.wf(),
            p@.pinned == Set::<PanelLayer>::empty(),
            p@.visible == map![
                PanelLayer::SceneView => true,
                PanelLayer::AssetBrowser => true,
                PanelLayer::Hierarchy => true,
                PanelLayer::Inspector => true,
                PanelLayer::Toolbar => true,
                PanelLayer::Animation => false,
            ],
    {
        let mut v: Vec<(PanelLayer, bool)> = Vec::new();
        v.push((PanelLayer::SceneView, true));
        v.push((PanelLayer::AssetBrowser, true));
        v.push((PanelLayer::Hierarchy, true));
        v.push((PanelLayer::Inspector, true));
        v.push((PanelLayer::Toolbar, true));
        v.push((PanelLayer::Animation, false));
        let p = PanelVisibility { visibility: v, pinned: Vec::new() };
        proof {
            reveal_with_fuel(pairs_map, 7);
            assert(p@.visible =~= map![
                PanelLayer::SceneView => true,
                PanelLayer::AssetBrowser => true,
                PanelLayer::Hierarchy => true,
                PanelLayer::Inspector => true,
                PanelLayer::Toolbar => true,
                PanelLayer::Animation => false,
            ]);
            assert(p@.pinned =~= Set::<PanelLayer>::empty());
        }
        p
    }

    fn find(&self, layer: PanelLayer) -> (r: Option<usize>)
        requires
            self.wf(),
        ensures
            self@.visible.contains_key(layer) == r is Some,
            r matches Some(i) ==> i < self.visibility@.len() && self.visibility@[i as int].0 == layer
                && self@.visible[layer] == self.visibility@[i as int].1,
    {
        let mut i: usize = 0;
        while i < self.visibility.len()
            invariant
                i <= self.visibility@.len(),
                self.wf(),
                forall|j: int| 0 <= j < i ==> self.visibility@[j].0 != layer,
            decreases self.visibility@.len() - i,
        {
            if self.visibility[i].0 == layer {
                proof {
                    lemma_pairs_lookup(self.visibility@, layer, Some(i));
                }
                return Some(i);
            }
            i = i + 1;
        }
        proof {
            lemma_pairs_lookup(self.visibility@, layer, None);
        }
        None
    }

    fn is_pinned(&self, layer: PanelLayer) -> (r: bool)
        ensures
            r == self@.pinned.contains(layer),
    {
        let mut i: usize = 0;
        while i < self.pinned.len()
            invariant
                i <= self.pinned@.len(),
                forall|j: int| 0 <= j < i ==> self.pinned@[j] != layer,
            decreases self.pinned@.len() - i,
        {
            if self.pinned[i] == layer {
                assert(self.pinned@.contains(layer));
                return true;
            }
            i = i + 1;
        }
        false
    }

    /// Shows or hides every unpinned panel: all are hidden if any of them
    /// is shown, otherwise all are shown.
    pub fn toggle_all(&mut self)
        requires
            old(self).wf(),
        ensures
            final(self).wf(),
            final(self)@ == old(self)@.toggled(),
    {
        let n = self.visibility.len();
        let mut any_visible = false;
        let mut i: usize = 0;
        while i < n
            invariant
                n == self.visibility@.len(),
                i <= n,
                any_visible == exists|j: int| 0 <= j < i && self.visibility@[j].1 && !self@.pinned.contains(
                    #[trigger] self.visibility@[j].0,
                ),
            decreases n - i,
        {
            let (layer, vis) = self.visibility[i];
            if vis && !self.is_pinned(layer) {
                any_visible = true;
            }
            i = i + 1;
        }
        proof {
            lemma_pairs_map(self.visibility@);
            if any_visible {
                let j = choose|j: int| 0 <= j < n && self.visibility@[j].1 && !self@.pinned.contains(
                    #[trigger] self.visibility@[j].0,
                );
                assert(self@.visible.contains_key(self.visibility@[j].0));
            }
            if old(self)@.any_unpinned_visible() {
                let l = choose|l: PanelLayer| #[trigger] old(self)@.visible.contains_key(l) && old(self)@.visible[l]
                    && !old(self)@.pinned.contains(l);
                let j = choose|j: int| 0 <= j < n && self.visibility@[j].0 == l;
            }
        }
        let ghost before = self.visibility@;
        let mut k: usize = 0;
        while k < n
            invariant
                n == self.visibility@.len(),
                k <= n,
                keys_distinct(before),
                any_visible == old(self)@.any_unpinned_visible(),
                self@.pinned == old(self)@.pinned,
                old(self).visibility@ == before,
                forall|j: int| 0 <= j < n ==> (#[trigger] self.visibility@[j]).0 == before[j].0,
                forall|j: int| k <= j < n ==> (#[trigger] self.visibility@[j]).1 == before[j].1,
                forall|j: int| 0 <= j < k ==> (#[trigger] self.visibility@[j]).1 == if old(self)@.pinned.contains(before[j].0) {
                    before[j].1
                } else {
                    !any_visible
                },
            decreases n - k,
        {
            let (layer, vis) = self.visibility[k];
            if !self.is_pinned(layer) {
                self.visibility.set(k, (layer, !any_visible));
            }
            k = k + 1;
        }
        proof {
            let after = self.visibility@;
            assert(keys_distinct(after));
            lemma_pairs_map(before);
            lemma_pairs_map(after);
            let t = old(self)@.toggled();
            assert forall|l: PanelLayer| self@.visible.contains_key(l) <==> t.visible.contains_key(l) by {
                if self@.visible.contains_key(l) {
                    let j = choose|j: int| 0 <= j < n && after[j].0 == l;
                    assert(before[j].0 == l);
                }
                if t.visible.contains_key(l) {
                    let j = choose|j: int| 0 <= j < n && before[j].0 == l;
                    assert(after[j].0 == l);
                }
            }
            assert forall|l: PanelLayer| #[trigger] self@.visible.contains_key(l) implies self@.visible[l] == t.visible[l] by {
                let j = choose|j: int| 0 <= j < n && after[j].0 == l;
                assert(before[j].0 == l);
                assert(self@.visible[l] == after[j].1);
                assert(old(self)@.visible.contains_key(l));
                assert(old(self)@.visible[l] == before[j].1);
                assert(t.visible.contains_key(l));
                assert(t.visible[l] == if old(self)@.pinned.contains(l) {
                    old(self)@.visible[l]
                } else {
                    !old(self)@.any_unpinned_visible()
                });
            }
            assert(self@.visible =~= t.visible);
        }
    }

    /// Records whether a panel is shown.
    pub fn set_visible(&mut self, layer: PanelLayer, visible: bool)
        requires
            old(self).wf(),
        ensures
            final(self).wf(),
            final(self)@ == (VisibilityView { visible: old(self)@.visible.insert(layer, visible), pinned: old(self)@.pinned }),
    {
        let ghost s = self.visibility@;
        match self.find(layer) {
            Some(i) => {
                self.visibility.set(i, (layer, visible));
                proof {
                    lemma_pairs_map_update(s, i as int, visible);
                }
            },
            None => {
                self.visibility.push((layer, visible));
                proof {
                    lemma_pairs_map(s);
                    assert forall|j: int| 0 <= j < s.len() implies s[j].0 != layer by {
                        assert(pairs_map(s).contains_key(s[j].0));
                    }
                    lemma_pairs_map_push(s, layer, visible);
                }
            },
        }
    }

    /// Whether a panel is shown (a panel never recorded is shown).
    pub fn is_visible(&self, layer: &PanelLayer) -> (r: bool)
        requires
            self.wf(),
        ensures
            r == self@.shows(*layer),
    {
        match self.find(*layer) {
            Some(i) => self.visibility[i].1,
            None => true,
        }
    }

    /// Shows a hidden panel or hides a shown one.
    pub fn toggle_visible(&mut self, layer: PanelLayer)
        requires
            old(self).wf(),
        ensures
            final(self).wf(),
            final(self)@ == (VisibilityView {
                visible: old(self)@.visible.insert(layer, !old(self)@.shows(layer)),
                pinned: old(self)@.pinned,
            }),
    {
        let current = self.is_visible(&layer);
        self.set_visible(layer, !current);
    }

    /// Pins a panel: Tab no longer hides or shows it.
    pub fn pin(&mut self, layer: PanelLayer)
        ensures
            final(self)@ == (VisibilityView { visible: old(self)@.visible, pinned: old(self)@.pinned.insert(layer) }),
            old(self).wf() ==> final(self).wf(),
    {
        if !self.is_pinned(layer) {
            self.pinned.push(layer);
            proof {
                old(self).pinned@.lemma_push_to_set_commute(layer);
            }
        }
        assert(self@.pinned =~= old(self)@.pinned.insert(layer));
    }

    /// Unpins a panel.
    pub fn unpin(&mut self, layer: &PanelLayer)
        ensures
            final(self)@ == (VisibilityView { visible: old(self)@.visible, pinned: old(self)@.pinned.remove(*layer) }),
            old(self).wf() ==> final(self).wf(),
    {
        let n = self.pinned.len();
        let mut kept: Vec<PanelLayer> = Vec::new();
        let mut i: usize = 0;
        proof {
            assert(self.pinned@.take(0).to_set() =~= Set::<PanelLayer>::empty());
            assert(kept@.to_set() =~= Set::<PanelLayer>::empty());
        }
        while i < n
            invariant
                n == self.pinned@.len(),
                self.pinned@ == old(self).pinned@,
                i <= n,
                kept@.to_set() == self.pinned@.take(i as int).to_set().remove(*layer),
            decreases n - i,
        {
            let x = self.pinned[i];
            let ghost before = kept@;
            proof {
                assert(self.pinned@.take(i + 1) =~= self.pinned@.take(i as int).push(x));
                self.pinned@.take(i as int).lemma_push_to_set_commute(x);
            }
            if x != *layer {
                kept.push(x);
                proof {
                    before.lemma_push_to_set_commute(x);
                    assert(kept@.to_set() =~= self.pinned@.take(i + 1).to_set().remove(*layer));
                }
            } else {
                assert(kept@.to_set() =~= self.pinned@.take(i + 1).to_set().remove(*layer));
            }
            i = i + 1;
        }
        proof {
            assert(self.pinned@.take(n as int) =~= self.pinned@);
        }
        self.pinned = kept;
        assert(self@.pinned =~= old(self)@.pinned.remove(*layer));
    }

    /// Pins an unpinned panel or unpins a pinned one.
    pub fn toggle_pin(&mut self, layer: PanelLayer)
        ensures
            final(self)@.visible == old(self)@.visible,
            final(self)@.pinned == if old(self)@.pinned.contains(layer) {
                old(self)@.pinned.remove(layer)
            } else {
                old(self)@.pinned.insert(layer)
            },
            old(self).wf() ==> final(self).wf(),
    {
        if self.is_pinned(layer) {
            self.unpin(&layer);
        } else {
            self.pin(layer);
        }
    }

    /// Whether a shown panel lies above `layer` (it then catches the input).
    pub fn has_visible_above(&self, layer: &PanelLayer) -> (r: bool)
        requires
            self.wf(),
        ensures
            r == exists|l: PanelLayer| #[trigger] self@.visible.contains_key(l) && self@.visible[l] && layer_level(l)
                > layer_level(*layer),
    {
        let level = layer.level();
        let n = self.visibility.len();
        let mut i: usize = 0;
        while i < n
            invariant
                n == self.visibility@.len(),
                i <= n,
                level == layer_level(*layer),
                self.wf(),
                forall|j: int| 0 <= j < i ==> !((#[trigger] self.visibility@[j]).1 && layer_level(self.visibility@[j].0) > level),
            decreases n - i,
        {
            let (l, vis) = self.visibility[i];
            if vis && l.level() > level {
                proof {
                    lemma_pairs_map(self.visibility@);
                    assert(self@.visible.contains_key(l));
                }
                return true;
            }
            i = i + 1;
        }
        proof {
            lemma_pairs_map(self.visibility@);
            if exists|l: PanelLayer| #[trigger] self@.visible.contains_key(l) && self@.visible[l] && layer_level(l) > layer_level(*layer) {
                let l = choose|l: PanelLayer| #[trigger] self@.visible.contains_key(l) && self@.visible[l] && layer_level(l)
                    > layer_level(*layer);
                let j = choose|j: int| 0 <= j < n && self.visibility@[j].0 == l;
                assert(self.visibility@[j].1);
            }
        }
        false
    }
}

impl Default for PanelVisibility {
    fn default() -> (p: Self)
        ensures
            p.wf(),
            p@.pinned == Set::<PanelLayer>::empty(),
            p@.visible == map![
                PanelLayer::SceneView => true,
                PanelLayer::AssetBrowser => true,
                PanelLayer::Hierarchy => true,
                PanelLayer::Inspector => true,
                PanelLayer::Toolbar => true,
                PanelLayer::Animation => false,
            ],
    {
        Self::new()
    }
}

/// Tab never changes a pinned panel and leaves all unpinned panels alike;
/// pressed twice, it shows every unpinned panel exactly when one of them
/// was shown before.
pub proof fn tab_laws(v: VisibilityView, l: PanelLayer, m: PanelLayer)
    requires
        v.visible.contains_key(l),
        v.visible.contains_key(m),
    ensures
        v.pinned.contains(l) ==> v.toggled().visible[l] == v.visible[l],
        !v.pinned.contains(l) && !v.pinned.contains(m) ==> v.toggled().visible[l] == v.toggled().visible[m],
        !v.pinned.contains(l) ==> v.toggled().toggled().visible[l] == v.any_unpinned_visible(),
{
    let t = v.toggled();
    assert(t.visible.contains_key(l));
    if !v.pinned.contains(l) {
        if v.any_unpinned_visible() {
            if t.any_unpinned_visible() {
                let k = choose|k: PanelLayer| #[trigger] t.visible.contains_key(k) && t.visible[k] && !t.pinned.contains(k);
                assert(t.visible[k] == !v.any_unpinned_visible());
            }
        } else {
            assert(t.visible[l]);
            assert(t.any_unpinned_visible());
        }
    }
}

} // verus!
