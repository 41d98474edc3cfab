//! Picking pieces by colour: every piece is drawn into an off-screen buffer in
//! a colour that spells its index (plus one, so that black means no piece),
//! and the colour under the pointer is read back into an index. The lookup
//! ties piece indices to entity ids both ways.
use vstd::prelude::*;
use std::collections::HashMap;

verus! {

broadcast use vstd::std_specs::hash::group_hash_axioms;

/// The red, green and blue bytes of the picker colour of piece `index`.
pub open spec fn picker_color_of(index: int) -> (int, int, int) {
    let v = index + 1;
    ((v / 0x10000) % 0x100, (v / 0x100) % 0x100, v % 0x100)
}

/// The piece index that a picker colour spells, if any.
pub open spec fn picker_index_of(r: int, g: int, b: int) -> Option<int> {
    let v = r * 0x10000 + g * 0x100 + b;
    if v > 0 {
        Some(v - 1)
    } else {
        None
    }
}

/// The picker colour of piece `index`, as red, green and blue bytes.
pub fn picker_color(index: usize) -> (c: (u8, u8, u8))
    requires
        index < usize::MAX,
    ensures
        c.0 == picker_color_of(index as int).0,
        c.1 == picker_color_of(index as int).1,
        c.2 == picker_color_of(index as int).2,
{
    let v = index + 1;
    let r = 0xFFusize & (v >> 16usize);
    let g = 0xFFusize & (v >> 8usize);
    let b = 0xFFusize & v;
    assert(r == (v / 0x10000) % 0x100) by (bit_vector)
        requires
            r == 0xFFusize & (v >> 16usize),
    ;
    assert(g == (v / 0x100) % 0x100) by (bit_vector)
        requires
            g == 0xFFusize & (v >> 8usize),
    ;
    assert(b == v % 0x100) by (bit_vector)
        requires
            b == 0xFFusize & v,
    ;
    (r as u8, g as u8, b as u8)
}

/// The piece index that the picker colour (r, g, b) spells, if any.
pub fn index_from_picker_color(r: u8, g: u8, b: u8) -> (index: Option<u32>)
    ensures
        match picker_index_of(r as int, g as int, b as int) {
            Some(i) => index == Some(i as u32),
            None => index is None,
        },
{
    let v: u32 = ((r as u32) << 16u32) | ((g as u32) << 8u32) | (b as u32);
    assert(v == (r as u32) * 0x10000 + (g as u32) * 0x100 + (b as u32)) by (bit_vector)
        requires
            v == ((r as u32) << 16u32) | ((g as u32) << 8u32) | (b as u32),
    ;
    if v > 0 {
        Some(v - 1)
    } else {
        None
    }
}

/// Reading back the picker colour of a piece gives the piece's index, for
/// every index below 2^24 - 1; no piece is drawn in black.
pub proof fn lemma_picker_round_trip(index: int)
    requires
        0 <= index < 0xFF_FFFF,
    ensures
        picker_index_of(
            picker_color_of(index).0,
            picker_color_of(index).1,
            picker_color_of(index).2,
        ) == Some(index),
        picker_color_of(index) != (0int, 0int, 0int),
{
    let v = index + 1;
    let c = picker_color_of(index);
    assert(c.0 * 0x10000 + c.1 * 0x100 + c.2 == v) by (nonlinear_arith)
        requires
            0 < v <= 0xFF_FFFF,
            c.0 == (v / 0x10000) % 0x100,
            c.1 == (v / 0x100) % 0x100,
            c.2 == v % 0x100,
    ;
}

/// The index of a piece among all pieces.
pub struct Interactable(pub u32);

/// Piece indices and entity ids, each mapped to the other.
pub struct InteractableLookup {
    pub index_to_entity: HashMap<u32, u64>,
    pub entity_to_index: HashMap<u64, u32>,
}

/// The two maps are each other's inverse.
pub open spec fn lookup_consistent(to_entity: Map<u32, u64>, to_index: Map<u64, u32>) -> bool {
    &&& forall|i: u32| #[trigger]
        to_entity.contains_key(i) ==> to_index.contains_key(to_entity[i]) && to_index[to_entity[i]]
            == i
    &&& forall|e: u64| #[trigger]
        to_index.contains_key(e) ==> to_entity.contains_key(to_index[e]) && to_entity[to_index[e]]
            == e
}

impl InteractableLookup {
    /// A lookup that knows no piece.
    pub fn new() -> (l: Self)
        ensures
            l.index_to_entity@ == Map::<u32, u64>::empty(),
            l.entity_to_index@ == Map::<u64, u32>::empty(),
    {
        InteractableLookup { index_to_entity: HashMap::new(), entity_to_index: HashMap::new() }
    }

    /// The lookup of the pieces `entities`, piece `i` being `entities[i]`. An
    /// entity listed more than once is looked up at its last index.
    pub fn from_entities(entities: &Vec<u64>) -> (l: Self)
        requires
            entities@.len() <= u32::MAX + 1,
        ensures
            l.index_to_entity@ == Map::new(
                |i: u32| i < entities@.len(),
                |i: u32| entities@[i as int],
            ),
            l.entity_to_index@.dom() == entities@.to_set(),
            forall|e: u64| #[trigger]
                l.entity_to_index@.contains_key(e) ==> {
                    let i = l.entity_to_index@[e] as int;
                    &&& i < entities@.len()
                    &&& entities@[i] == e
                    &&& forall|j: int| i < j < entities@.len() ==> entities@[j] != e
                },
    {
        let mut l = InteractableLookup::new();
        let n = entities.len();
        let mut i: usize = 0;
        while i < n
            invariant
                n == entities@.len(),
                n <= u32::MAX + 1,
                i <= n,
                l.index_to_entity@ == Map::new(|k: u32| k < i, |k: u32| entities@[k as int]),
                l.entity_to_index@.dom() == entities@.take(i as int).to_set(),
                forall|e: u64| #[trigger]
                    l.entity_to_index@.contains_key(e) ==> {
                        let k = l.entity_to_index@[e] as int;
                        &&& k < i
                        &&& entities@[k] == e
                        &&& forall|j: int| k < j < i ==> entities@[j] != e
                    },
            decreases n - i,
        {
            let entity = entities[i];
            l.register(i as u32, entity);
            assert(l.index_to_entity@ =~= Map::new(
                |k: u32| k < i + 1,
                |k: u32| entities@[k as int],
            ));
            assert(entities@.take(i + 1) =~= entities@.take(i as int).push(entity));
            proof {
                entities@.take(i as int).lemma_push_to_set_commute(entity);
            }
            assert(entities@.take(i + 1).to_set() =~= entities@.take(i as int).to_set().insert(
                entity,
            ));
            i = i + 1;
        }
        assert(entities@.take(n as int) =~= entities@);
        l
    }

    /// Records that piece `index` is the entity `entity`, in both directions.
    pub fn register(&mut self, index: u32, entity: u64)
        ensures
            final(self).index_to_entity@ == old(self).index_to_entity@.insert(index, entity),
            final(self).entity_to_index@ == old(self).entity_to_index@.insert(entity, index),
    {
        self.index_to_entity.insert(index, entity);
        self.entity_to_index.insert(entity, index);
    }

    /// The entity of piece `index`, if it is known.
    pub fn entity_of(&self, index: u32) -> (r: Option<u64>)
        ensures
            r == if self.index_to_entity@.contains_key(index) {
                Some(self.index_to_entity@[index])
            } else {
                None
            },
    {
        match self.index_to_entity.get(&index) {
            Some(entity) => Some(*entity),
            None => None,
        }
    }

    /// The piece index of `entity`, if it is known.
    pub fn index_of(&self, entity: u64) -> (r: Option<u32>)
        ensures
            r == if self.entity_to_index@.contains_key(entity) {
                Some(self.entity_to_index@[entity])
            } else {
                None
            },
    {
        match self.entity_to_index.get(&entity) {
            Some(index) => Some(*index),
            None => None,
        }
    }
}

/// The lookup of pieces that are all different entities maps each piece to
/// its entity and back.
pub proof fn lemma_distinct_entities_give_consistent_lookup(
    entities: Seq<u64>,
    to_entity: Map<u32, u64>,
    to_index: Map<u64, u32>,
)
    requires
        entities.len() <= u32::MAX + 1,
        entities.no_duplicates(),
        to_entity == Map::new(|i: u32| i < entities.len(), |i: u32| entities[i as int]),
        to_index.dom() == entities.to_set(),
        forall|e: u64| #[trigger]
            to_index.contains_key(e) ==> {
                let i = to_index[e] as int;
                &&& i < entities.len()
                &&& entities[i] == e
            },
    ensures
        lookup_consistent(to_entity, to_index),
{
    assert forall|i: u32| #[trigger] to_entity.contains_key(i) implies to_index.contains_key(
        to_entity[i],
    ) && to_index[to_entity[i]] == i by {
        let e = entities[i as int];
        assert(entities.to_set().contains(e));
        let k = to_index[e];
        assert(entities[k as int] == e);
    }
}

/// Registering a new piece under a new entity keeps the two maps each
/// other's inverse.
pub proof fn lemma_register_keeps_lookup_consistent(
    to_entity: Map<u32, u64>,
    to_index: Map<u64, u32>,
    index: u32,
    entity: u64,
)
    requires
        lookup_consistent(to_entity, to_index),
        !to_entity.contains_key(index),
        !to_index.contains_key(entity),
    ensures
        lookup_consistent(to_entity.insert(index, entity), to_index.insert(entity, index)),
{
}

} // verus!
