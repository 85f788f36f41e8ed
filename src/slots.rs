use vstd::prelude::*;
use slotmap::{DefaultKey, Key, KeyData, SlotMap};
use crate::widget::Slider;

verus! {

/// The sliders of the overlay, held in a slot map. A key is handed out as
/// the map key's 64-bit form.
#[verifier::external_body]
pub struct SliderSlots {
    map: SlotMap<DefaultKey, Slider>,
}

/// What the slot map holds: (key, slider) pairs in slot order, the order in
/// which the map walks its entries.
pub uninterp spec fn slider_entries(s: SliderSlots) -> Seq<(u64, Slider)>;

pub open spec fn entry_keys(e: Seq<(u64, Slider)>) -> Seq<u64> {
    e.map_values(|p: (u64, Slider)| p.0)
}

pub open spec fn has_key(e: Seq<(u64, Slider)>, k: u64) -> bool {
    exists|i: int| 0 <= i < e.len() && e[i].0 == k
}

impl SliderSlots {
    /// Relies on slotmap::SlotMap::new: a new map holds nothing.
    #[verifier::external_body]
    pub fn new() -> (r: SliderSlots)
        ensures
            slider_entries(r) == Seq::<(u64, Slider)>::empty(),
    {
        SliderSlots { map: SlotMap::new() }
    }

    /// Relies on slotmap::SlotMap::insert: the value goes into a slot whose
    /// key no entry has; the other entries keep their slots and order. The
    /// map panics only when its slot count would reach `u32::MAX`.
    #[verifier::external_body]
    pub fn insert(&mut self, s: Slider) -> (k: u64)
        requires
            slider_entries(*old(self)).len() + 2 < u32::MAX,
        ensures
            !has_key(slider_entries(*old(self)), k),
            exists|i: int|
                0 <= i <= slider_entries(*old(self)).len() && slider_entries(*final(self)) == slider_entries(
                    *old(self),
                ).insert(i, (k, s)),
    {
        self.map.insert(s).data().as_ffi()
    }

    /// Relies on slotmap::SlotMap::keys: the keys in slot order, each once;
    /// a map holds fewer than `u32::MAX` entries.
    #[verifier::external_body]
    pub fn keys(&self) -> (r: Vec<u64>)
        ensures
            r@ == entry_keys(slider_entries(*self)),
            r@.no_duplicates(),
            r@.len() < u32::MAX,
    {
        self.map.keys().map(|k| k.data().as_ffi()).collect()
    }

    /// Relies on slotmap::SlotMap::get: the slider stored under a key that
    /// the map handed out.
    #[verifier::external_body]
    pub fn get(&self, k: u64) -> (r: Option<Slider>)
        ensures
            forall|i: int|
                0 <= i < slider_entries(*self).len() && #[trigger] slider_entries(*self)[i].0 == k ==> r
                    == Some(slider_entries(*self)[i].1),
    {
        self.map.get(KeyData::from_ffi(k).into()).copied()
    }

    /// Relies on slotmap's `IndexMut`: replaces the slider under a key that
    /// is in the map, in its slot; it panics on a key that is not.
    #[verifier::external_body]
    pub fn set(&mut self, k: u64, s: Slider)
        requires
            has_key(slider_entries(*old(self)), k),
        ensures
            slider_entries(*final(self)).len() == slider_entries(*old(self)).len(),
            forall|i: int|
                0 <= i < slider_entries(*old(self)).len() ==> #[trigger] slider_entries(*final(self))[i] == if slider_entries(
                    *old(self),
                )[i].0 == k {
                    (k, s)
                } else {
                    slider_entries(*old(self))[i]
                },
    {
        self.map[KeyData::from_ffi(k).into()] = s;
    }
}

/// Replacing the slider under a key that occurs once is an update at its
/// position.
pub proof fn lemma_set_is_update(old_e: Seq<(u64, Slider)>, new_e: Seq<(u64, Slider)>, i: int, k: u64, s: Slider)
    requires
        0 <= i < old_e.len(),
        old_e[i].0 == k,
        entry_keys(old_e).no_duplicates(),
        new_e.len() == old_e.len(),
        forall|j: int| 0 <= j < old_e.len() ==> #[trigger] new_e[j] == if old_e[j].0 == k { (k, s) } else { old_e[j] },
    ensures
        new_e == old_e.update(i, (k, s)),
        entry_keys(new_e) == entry_keys(old_e),
{
    assert forall|j: int| 0 <= j < old_e.len() && j != i implies old_e[j].0 != k by {
        assert(entry_keys(old_e)[j] == old_e[j].0);
        assert(entry_keys(old_e)[i] == old_e[i].0);
    }
    assert(new_e =~= old_e.update(i, (k, s)));
    assert(entry_keys(new_e) =~= entry_keys(old_e));
}

/// Inserting an entry under a fresh key keeps the keys distinct and keeps
/// every key that was there.
pub proof fn lemma_insert_fresh(e: Seq<(u64, Slider)>, n: Seq<(u64, Slider)>, i: int, k: u64, s: Slider)
    requires
        0 <= i <= e.len(),
        n == e.insert(i, (k, s)),
        !has_key(e, k),
        entry_keys(e).no_duplicates(),
    ensures
        entry_keys(n).no_duplicates(),
        has_key(n, k),
        forall|q: u64| has_key(e, q) ==> has_key(n, q),
        forall|j: int| 0 <= j < n.len() ==> (#[trigger] n[j] == (k, s) || exists|m: int| 0 <= m < e.len() && n[j] == e[m]),
{
    assert(n[i] == (k, s));
    assert forall|q: u64| has_key(e, q) implies has_key(n, q) by {
        let m = choose|m: int| 0 <= m < e.len() && e[m].0 == q;
        if m < i {
            assert(n[m] == e[m]);
        } else {
            assert(n[m + 1] == e[m]);
        }
    }
    assert forall|a: int, b: int| 0 <= a < entry_keys(n).len() && 0 <= b < entry_keys(n).len() && a != b implies entry_keys(n)[a]
        != entry_keys(n)[b] by {
        let ia = if a < i { a } else { a - 1 };
        let ib = if b < i { b } else { b - 1 };
        if a == i {
            assert(n[b] == e[ib]);
            assert(e[ib].0 != k);
        } else if b == i {
            assert(n[a] == e[ia]);
            assert(e[ia].0 != k);
        } else {
            assert(n[a] == e[ia]);
            assert(n[b] == e[ib]);
            assert(entry_keys(e)[ia] != entry_keys(e)[ib]);
        }
    }
    assert forall|j: int| 0 <= j < n.len() implies (#[trigger] n[j] == (k, s) || exists|m: int| 0 <= m < e.len() && n[j] == e[m]) by {
        if j < i {
            assert(n[j] == e[j]);
        } else if j > i {
            assert(n[j] == e[j - 1]);
        }
    }
}

} // verus!
