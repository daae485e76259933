use vstd::prelude::*;

use std::collections::HashMap;
use vstd::std_specs::iter::IteratorSpec;

use crate::chunk::{ChunkData, ChunkPos, CHUNK_AREA, CHUNK_SIZE};
use crate::quad::Quad;

verus! {

/// The loaded chunks of the world, each under the key of its position.
pub struct World {
    loaded_chunks: HashMap<u64, ChunkData>,
}

impl View for World {
    type V = Map<ChunkPos, ChunkData>;

    /// The loaded chunks by position.
    closed spec fn view(&self) -> Map<ChunkPos, ChunkData> {
        Map::new(
            |p: ChunkPos| self.loaded_chunks@.contains_key(p.key_spec()),
            |p: ChunkPos| self.loaded_chunks@[p.key_spec()],
        )
    }
}

/// Whether the cell `(x, y)` of a chunk lies in the disc of radius 8 around
/// the chunk's corner, which the first layer's test pattern marks.
pub open spec fn in_test_disc(x: int, y: int) -> bool {
    x * x + y * y <= 64
}

impl World {
    /// The decoding of keys is injective.
    proof fn lemma_from_key_injective(keys: Set<u64>)
        ensures
            vstd::relations::injective_on(|k: u64| ChunkPos::from_key_spec(k), keys),
    {
        assert forall|a: u64, b: u64|
            keys.contains(a) && keys.contains(b) && ChunkPos::from_key_spec(a)
                == ChunkPos::from_key_spec(b) implies a == b by {
            ChunkPos::lemma_key_of_from_key(a);
            ChunkPos::lemma_key_of_from_key(b);
        }
    }

    /// The positions of the loaded chunks are the decodings of the stored keys,
    /// so there are as many of them as there are stored chunks.
    proof fn lemma_view_dom(&self)
        ensures
            self@.dom() == self.loaded_chunks@.dom().map(|k: u64| ChunkPos::from_key_spec(k)),
            self@.dom().finite(),
            self@.dom().len() == self.loaded_chunks@.dom().len(),
    {
        let keys = self.loaded_chunks@.dom();
        let f = |k: u64| ChunkPos::from_key_spec(k);
        assert forall|p: ChunkPos| #[trigger] self@.dom().contains(p) <==> keys.map(f).contains(p) by {
            if self@.dom().contains(p) {
                p.lemma_from_key_of_key();
                assert(f(p.key_spec()) == p);
            }
            if keys.map(f).contains(p) {
                let k = choose|k: u64| keys.contains(k) && f(k) == p;
                ChunkPos::lemma_key_of_from_key(k);
            }
        }
        assert(self@.dom() =~= keys.map(f));
        Self::lemma_from_key_injective(keys);
        vstd::set_lib::lemma_map_size(keys, self@.dom(), f);
    }

    /// The set of loaded positions is finite.
    pub proof fn lemma_loaded_finite(&self)
        ensures
            self@.dom().finite(),
    {
        self.lemma_view_dom();
    }

    /// An empty world.
    pub fn new() -> (world: Self)
        ensures
            world@ == Map::<ChunkPos, ChunkData>::empty(),
    {
        let world = World { loaded_chunks: HashMap::new() };
        assert(world@ =~= Map::<ChunkPos, ChunkData>::empty());
        world
    }

    /// Loads a fresh chunk at `pos`, replacing any chunk loaded there.
    pub fn new_chunk(&mut self, pos: &ChunkPos)
        ensures
            final(self)@ == old(self)@.insert(*pos, ChunkData::spec_new(pos.0, pos.1)),
    {
        let key = pos.key();
        let chunk = ChunkData::new(pos.0, pos.1);
        self.loaded_chunks.insert(key, chunk);
        proof {
            assert forall|p: ChunkPos| p != *pos implies p.key_spec() != pos.key_spec() by {
                ChunkPos::lemma_key_injective(p, *pos);
            }
            assert(self@ =~= old(self)@.insert(*pos, ChunkData::spec_new(pos.0, pos.1)));
        }
    }

    /// The chunk loaded at `pos`, if any.
    pub fn chunk(&self, pos: &ChunkPos) -> (chunk: Option<&ChunkData>)
        ensures
            chunk is Some <==> self@.contains_key(*pos),
            chunk matches Some(c) ==> *c == self@[*pos],
    {
        let key = pos.key();
        self.loaded_chunks.get(&key)
    }

    /// The number of loaded chunks.
    pub fn loaded_count(&self) -> (count: usize)
        ensures
            count == self@.len(),
    {
        proof {
            self.lemma_view_dom();
        }
        self.loaded_chunks.len()
    }

    /// The rectangles to draw, one for each loaded chunk: its quad.
    /// The chunks come in the order in which the chunk table is walked,
    /// each loaded chunk exactly once.
    pub fn chunk_quads(&self) -> (quads: Vec<Quad>)
        ensures
            quads.len() == self@.len(),
            exists|order: Seq<ChunkPos>|
                {
                    &&& order.len() == quads.len()
                    &&& order.no_duplicates()
                    &&& order.to_set() == self@.dom()
                    &&& forall|i: int|
                        0 <= i < order.len() ==> quads@[i] == self@[#[trigger] order[i]].quad
                },
            forall|q: Quad|
                quads@.contains(q) <==> exists|p: ChunkPos|
                    #[trigger] self@.contains_key(p) && self@[p].quad == q,
    {
        let mut quads: Vec<Quad> = Vec::new();
        let ghost m = self.loaded_chunks@;
        let ghost ks = vstd::std_specs::hash::spec_keys_iter(&self.loaded_chunks).remaining().unref();
        proof {
            assert(ks.to_set() == m.dom());
            assert(ks.len() == m.dom().len());
        }
        for k in it: self.loaded_chunks.keys()
            invariant
                it.seq().unref() == ks,
                ks.to_set() == m.dom(),
                m == self.loaded_chunks@,
                quads.len() == it.index(),
                forall|i: int| 0 <= i < it.index() ==> quads@[i] == m[#[trigger] ks[i]].quad,
        {
            proof {
                assert(ks[it.index()] == *k);
                assert(ks.to_set().contains(ks[it.index()]));
            }
            match self.loaded_chunks.get(k) {
                Some(c) => quads.push(c.quad),
                None => {},
            }
        }
        proof {
            self.lemma_view_dom();
            let keys_iter_seq = vstd::std_specs::hash::spec_keys_iter(&self.loaded_chunks).remaining();
            assert(keys_iter_seq.no_duplicates());
            assert(ks.len() == m.dom().len());
            assert(quads.len() == ks.len());
            let order = ks.map_values(|k: u64| ChunkPos::from_key_spec(k));
            assert forall|i: int| 0 <= i < ks.len() implies #[trigger] order[i].key_spec() == ks[i] by {
                ChunkPos::lemma_key_of_from_key(ks[i]);
            }
            assert forall|i: int, j: int| 0 <= i < order.len() && 0 <= j < order.len() && i != j implies
                order[i] != order[j] by {
                assert(order[i].key_spec() == ks[i]);
                assert(order[j].key_spec() == ks[j]);
                assert(keys_iter_seq[i] != keys_iter_seq[j]);
            }
            assert forall|p: ChunkPos| order.to_set().contains(p) <==> #[trigger] self@.dom().contains(p) by {
                if order.to_set().contains(p) {
                    let i = choose|i: int| 0 <= i < order.len() && order[i] == p;
                    assert(order[i].key_spec() == ks[i]);
                    assert(ks.to_set().contains(ks[i]));
                }
                if self@.dom().contains(p) {
                    assert(ks.to_set().contains(p.key_spec()));
                    let i = choose|i: int| 0 <= i < ks.len() && ks[i] == p.key_spec();
                    assert(order[i].key_spec() == p.key_spec());
                    ChunkPos::lemma_key_injective(order[i], p);
                }
            }
            assert(order.to_set() =~= self@.dom());
            assert forall|i: int| 0 <= i < order.len() implies quads@[i] == self@[#[trigger] order[i]].quad by {
                assert(order[i].key_spec() == ks[i]);
                assert(ks.to_set().contains(ks[i]));
            }
            assert forall|q: Quad|
                quads@.contains(q) <==> exists|p: ChunkPos|
                    #[trigger] self@.contains_key(p) && self@[p].quad == q by {
                if quads@.contains(q) {
                    let i = choose|i: int| 0 <= i < quads.len() && quads@[i] == q;
                    assert(order.to_set().contains(order[i]));
                    assert(self@.contains_key(order[i]) && self@[order[i]].quad == q);
                }
                if exists|p: ChunkPos| #[trigger] self@.contains_key(p) && self@[p].quad == q {
                    let p = choose|p: ChunkPos| #[trigger] self@.contains_key(p) && self@[p].quad == q;
                    assert(order.to_set().contains(p));
                    let i = choose|i: int| 0 <= i < order.len() && order[i] == p;
                    assert(quads@[i] == q);
                }
            }
        }
        quads
    }

    /// The test pattern of the first layer, one entry per cell, row by row:
    /// entry `y * CHUNK_SIZE + x` tells whether cell `(x, y)` lies in the
    /// disc of radius 8 around the chunk's corner.
    pub fn test_layer0_mask() -> (mask: Vec<bool>)
        ensures
            mask.len() == CHUNK_AREA,
            forall|x: int, y: int|
                0 <= x < CHUNK_SIZE && 0 <= y < CHUNK_SIZE ==> #[trigger] mask@[y * 16 + x]
                    == in_test_disc(x, y),
    {
        let mut mask: Vec<bool> = Vec::new();
        let mut y: usize = 0;
        while y < CHUNK_SIZE
            invariant
                y <= CHUNK_SIZE,
                mask.len() == y * 16,
                forall|cx: int, cy: int|
                    0 <= cx < CHUNK_SIZE && 0 <= cy < y ==> #[trigger] mask@[cy * 16 + cx]
                        == in_test_disc(cx, cy),
            decreases CHUNK_SIZE - y,
        {
            let mut x: usize = 0;
            while x < CHUNK_SIZE
                invariant
                    y < CHUNK_SIZE,
                    x <= CHUNK_SIZE,
                    mask.len() == y * 16 + x,
                    forall|cx: int, cy: int|
                        0 <= cx < CHUNK_SIZE && 0 <= cy < y ==> #[trigger] mask@[cy * 16 + cx]
                            == in_test_disc(cx, cy),
                    forall|cx: int| 0 <= cx < x ==> #[trigger] mask@[y * 16 + cx] == in_test_disc(cx, y as int),
                decreases CHUNK_SIZE - x,
            {
                assert(x * x + y * y <= 450) by (nonlinear_arith)
                    requires
                        x < 16,
                        y < 16,
                ;
                let inside = x * x + y * y <= 64;
                mask.push(inside);
                x = x + 1;
            }
            y = y + 1;
        }
        mask
    }
}

/// Reading back a load: after `new_chunk(pos)` on a world whose chunks were
/// `before`, the chunk at `pos` is a fresh chunk at `pos`, and every other
/// position holds exactly what it held before.
pub proof fn law_chunk_after_new_chunk(before: Map<ChunkPos, ChunkData>, pos: ChunkPos, other: ChunkPos)
    ensures
        ({
            let after = before.insert(pos, ChunkData::spec_new(pos.0, pos.1));
            &&& after.contains_key(pos)
            &&& after[pos] == ChunkData::spec_new(pos.0, pos.1)
            &&& other != pos ==> (after.contains_key(other) == before.contains_key(other))
            &&& other != pos && before.contains_key(other) ==> after[other] == before[other]
        }),
{
}

/// Loading the same position twice leaves the world as loading it once.
pub proof fn law_new_chunk_idempotent(before: Map<ChunkPos, ChunkData>, pos: ChunkPos)
    ensures
        before.insert(pos, ChunkData::spec_new(pos.0, pos.1)).insert(pos, ChunkData::spec_new(pos.0, pos.1))
            == before.insert(pos, ChunkData::spec_new(pos.0, pos.1)),
{
    assert(before.insert(pos, ChunkData::spec_new(pos.0, pos.1)).insert(pos, ChunkData::spec_new(pos.0, pos.1))
        =~= before.insert(pos, ChunkData::spec_new(pos.0, pos.1)));
}

/// Loading a chunk at a position not yet loaded adds one chunk to the count;
/// reloading a loaded position leaves the count as it was.
pub proof fn law_new_chunk_count(before: Map<ChunkPos, ChunkData>, pos: ChunkPos)
    requires
        before.dom().finite(),
    ensures
        before.insert(pos, ChunkData::spec_new(pos.0, pos.1)).len() == before.len() + if before.contains_key(pos) {
            0int
        } else {
            1int
        },
{
    if before.contains_key(pos) {
        assert(before.insert(pos, ChunkData::spec_new(pos.0, pos.1)).dom() =~= before.dom());
    }
}

/// The test pattern marks the cells within distance 8 of the corner, and
/// moving a marked cell towards the corner keeps it marked.
pub proof fn law_test_disc_shape(x: int, y: int, x2: int, y2: int)
    ensures
        in_test_disc(x, y) <==> x * x + y * y <= 8 * 8,
        0 <= x2 <= x && 0 <= y2 <= y && in_test_disc(x, y) ==> in_test_disc(x2, y2),
{
    if 0 <= x2 <= x && 0 <= y2 <= y {
        assert(x2 * x2 <= x * x && y2 * y2 <= y * y) by (nonlinear_arith)
            requires
                0 <= x2 <= x,
                0 <= y2 <= y,
        ;
    }
}

/// The test pattern is symmetric: cell `(x, y)` is marked exactly when
/// cell `(y, x)` is.
pub proof fn law_test_disc_symmetric(x: int, y: int)
    ensures
        in_test_disc(x, y) == in_test_disc(y, x),
{
}

} // verus!
