//! The hash maps of the frame, both `ahash::AHashMap`s: one finds a
//! vertex's slot in the vertex buffer, the other a texture's slot among the
//! bind groups of the frame.
//!
//! The map itself is opaque to the verifier. What each map holds is named by
//! a spec function, and the wrappers below state, over those names, what
//! each method of the map does to its contents and what it returns.
use vstd::prelude::*;

verus! {

#[verifier::external_type_specification]
#[verifier::external_body]
#[verifier::reject_recursive_types(K)]
#[verifier::reject_recursive_types(V)]
#[verifier::reject_recursive_types(S)]
pub struct ExAHashMap<K, V, S>(ahash::AHashMap<K, V, S>);

#[verifier::external_type_specification]
#[verifier::external_body]
pub struct ExRandomState(ahash::RandomState);

/// A vertex as the vertex map keys it: its location, its texture
/// coordinates and its packed color, in that order.
pub type VertexKey = (i32, i32, u32, u32, u32);

/// Maps each vertex of the frame to its slot in the vertex buffer.
pub type VertexSlotMap = ahash::AHashMap<VertexKey, u16>;

/// Maps each texture of the frame to the slot of its bind group.
pub type TextureSlotMap = ahash::AHashMap<u64, usize>;

/// The entries of a vertex map.
pub uninterp spec fn vertex_slot_entries(slots: VertexSlotMap) -> Map<VertexKey, u16>;

/// The entries of a texture map.
pub uninterp spec fn texture_slot_entries(slots: TextureSlotMap) -> Map<u64, usize>;

/// The value that `m` holds for `k`, if it holds one.
pub open spec fn lookup<K, V>(m: Map<K, V>, k: K) -> Option<V> {
    if m.dom().contains(k) {
        Some(m[k])
    } else {
        None
    }
}

/// `AHashMap::new`: a map that holds nothing.
#[verifier::external_body]
pub(crate) fn vertex_slots_new() -> (slots: VertexSlotMap)
    ensures
        vertex_slot_entries(slots).dom() == Set::<VertexKey>::empty(),
{
    ahash::AHashMap::new()
}

/// `AHashMap::get`: the slot the map holds for `key`, if any.
#[verifier::external_body]
pub(crate) fn vertex_slots_get(slots: &VertexSlotMap, key: &VertexKey) -> (found: Option<u16>)
    ensures
        found == lookup(vertex_slot_entries(*slots), *key),
{
    slots.get(key).copied()
}

/// `AHashMap::insert`: afterwards the map holds `slot` for `key` and is
/// otherwise unchanged; the slot that `key` had before is handed back.
#[verifier::external_body]
pub(crate) fn vertex_slots_insert(slots: &mut VertexSlotMap, key: VertexKey, slot: u16) -> (previous:
    Option<u16>)
    ensures
        vertex_slot_entries(*final(slots)) == vertex_slot_entries(*old(slots)).insert(key, slot),
        previous == lookup(vertex_slot_entries(*old(slots)), key),
{
    slots.insert(key, slot)
}

/// `HashMap::clear`, reached through the map's `DerefMut`: afterwards the
/// map holds nothing.
#[verifier::external_body]
pub(crate) fn vertex_slots_clear(slots: &mut VertexSlotMap)
    ensures
        vertex_slot_entries(*final(slots)).dom() == Set::<VertexKey>::empty(),
{
    slots.clear()
}

/// `AHashMap::new`: a map that holds nothing.
#[verifier::external_body]
pub(crate) fn texture_slots_new() -> (slots: TextureSlotMap)
    ensures
        texture_slot_entries(slots).dom() == Set::<u64>::empty(),
{
    ahash::AHashMap::new()
}

/// `AHashMap::get`: the slot the map holds for `key`, if any.
#[verifier::external_body]
pub(crate) fn texture_slots_get(slots: &TextureSlotMap, key: u64) -> (found: Option<usize>)
    ensures
        found == lookup(texture_slot_entries(*slots), key),
{
    slots.get(&key).copied()
}

/// `AHashMap::insert`: afterwards the map holds `slot` for `key` and is
/// otherwise unchanged; the slot that `key` had before is handed back.
#[verifier::external_body]
pub(crate) fn texture_slots_insert(slots: &mut TextureSlotMap, key: u64, slot: usize) -> (previous:
    Option<usize>)
    ensures
        texture_slot_entries(*final(slots)) == texture_slot_entries(*old(slots)).insert(key, slot),
        previous == lookup(texture_slot_entries(*old(slots)), key),
{
    slots.insert(key, slot)
}

/// `HashMap::clear`, reached through the map's `DerefMut`: afterwards the
/// map holds nothing.
#[verifier::external_body]
pub(crate) fn texture_slots_clear(slots: &mut TextureSlotMap)
    ensures
        texture_slot_entries(*final(slots)).dom() == Set::<u64>::empty(),
{
    slots.clear()
}

} // verus!
