use vstd::prelude::*;

use crate::quad::Quad;
use crate::tiles::{TileType, TileWithData};

verus! {

/// Side length, in tiles, of a square chunk.
pub const CHUNK_SIZE: usize = 16;

/// Number of tiles in one layer of a chunk (`CHUNK_SIZE * CHUNK_SIZE`).
pub const CHUNK_AREA: usize = 256;

/// The distance by which a coordinate is shifted to make it non-negative.
pub const COORD_SHIFT: u64 = 0x8000_0000;

/// The factor that separates the two coordinates in a key.
pub const KEY_BASE: u64 = 0x1_0000_0000;

/// The position of a chunk on the world grid.
#[derive(Copy, Clone, Debug, PartialEq, Eq, Structural, Hash)]
pub struct ChunkPos(pub i32, pub i32);

impl ChunkPos {
    /// The key under which the world stores the chunk at this position:
    /// both coordinates shifted into `0..2^32`, the first one in the high half.
    pub open spec fn key_spec(self) -> u64 {
        ((self.0 + COORD_SHIFT) * KEY_BASE + (self.1 + COORD_SHIFT)) as u64
    }

    /// The position whose key is `key`.
    pub open spec fn from_key_spec(key: u64) -> ChunkPos {
        ChunkPos((key / KEY_BASE - COORD_SHIFT) as i32, (key % KEY_BASE - COORD_SHIFT) as i32)
    }

    /// The key fits in a `u64`: it is `key_spec` read as an integer.
    pub proof fn lemma_key_bounds(self)
        ensures
            0 <= (self.0 + COORD_SHIFT) * KEY_BASE + (self.1 + COORD_SHIFT) <= u64::MAX,
            self.key_spec() == (self.0 + COORD_SHIFT) * KEY_BASE + (self.1 + COORD_SHIFT),
    {
    }

    /// Decoding a position's key gives the position back.
    pub proof fn lemma_from_key_of_key(self)
        ensures
            Self::from_key_spec(self.key_spec()) == self,
    {
        let hi: int = self.0 + COORD_SHIFT;
        let lo: int = self.1 + COORD_SHIFT;
        let k: int = hi * KEY_BASE + lo;
        assert(k / (KEY_BASE as int) == hi && k % (KEY_BASE as int) == lo) by (nonlinear_arith)
            requires
                0 <= lo < KEY_BASE,
                0 <= hi,
                k == hi * KEY_BASE + lo,
        {
            vstd::arithmetic::div_mod::lemma_fundamental_div_mod_converse(k, KEY_BASE as int, hi, lo);
        }
    }

    /// Every key is the key of exactly the position it decodes to.
    pub proof fn lemma_key_of_from_key(key: u64)
        ensures
            Self::from_key_spec(key).key_spec() == key,
    {
        let q: int = key as int / KEY_BASE as int;
        let r: int = key as int % KEY_BASE as int;
        assert(key == q * KEY_BASE + r && 0 <= r < KEY_BASE && 0 <= q < KEY_BASE) by (nonlinear_arith)
            requires
                q == key as int / KEY_BASE as int,
                r == key as int % KEY_BASE as int,
                0 <= key < 0x1_0000_0000_0000_0000,
        {
            vstd::arithmetic::div_mod::lemma_fundamental_div_mod(key as int, KEY_BASE as int);
        }
        let p = Self::from_key_spec(key);
        assert(p.0 == q - COORD_SHIFT);
        assert(p.1 == r - COORD_SHIFT);
    }

    /// Two positions have the same key exactly when they are the same position.
    pub proof fn lemma_key_injective(a: ChunkPos, b: ChunkPos)
        ensures
            a.key_spec() == b.key_spec() <==> a == b,
    {
        a.lemma_from_key_of_key();
        b.lemma_from_key_of_key();
    }

    /// The key under which the world stores the chunk at this position.
    pub fn key(&self) -> (key: u64)
        ensures
            key == self.key_spec(),
    {
        let hi: u64 = (self.0 as i64 + 0x8000_0000i64) as u64;
        let lo: u64 = (self.1 as i64 + 0x8000_0000i64) as u64;
        assert(hi * KEY_BASE + lo <= u64::MAX) by (nonlinear_arith)
            requires
                hi < KEY_BASE,
                lo < KEY_BASE,
        ;
        hi * KEY_BASE + lo
    }
}

/// The tiles and the screen rectangle of one chunk.
pub struct ChunkData {
    pub layer0: [TileWithData; CHUNK_AREA],
    pub layer1: [TileWithData; CHUNK_AREA],
    pub quad: Quad,
}

impl ChunkData {
    /// The chunk that `new(x, y)` builds.
    pub open spec fn spec_new(x: i32, y: i32) -> ChunkData {
        ChunkData {
            layer0: vstd::array::spec_array_fill_for_copy_type::<TileWithData, CHUNK_AREA>(
                TileWithData::spec_new(TileType::WATER),
            ),
            layer1: vstd::array::spec_array_fill_for_copy_type::<TileWithData, CHUNK_AREA>(
                TileWithData::spec_new(TileType::AIR),
            ),
            quad: Quad { size: [1i32, 1i32], offset: [x, y] },
        }
    }

    /// A fresh chunk at `(x, y)`: the lower layer all water, the upper layer
    /// all air, every tile at animation frame 0, drawn as a unit square whose
    /// corner stands at `(x, y)`.
    pub fn new(x: i32, y: i32) -> (chunk: Self)
        ensures
            chunk == Self::spec_new(x, y),
            forall|i: int| 0 <= i < CHUNK_AREA ==> #[trigger] chunk.layer0@[i]@ == (TileType::WATER, 0i8),
            forall|i: int| 0 <= i < CHUNK_AREA ==> #[trigger] chunk.layer1@[i]@ == (TileType::AIR, 0i8),
            chunk.quad.size@ == seq![1i32, 1i32],
            chunk.quad.offset@ == seq![x, y],
    {
        let quad = Quad::new(x, y, 1, 1);
        let water = TileWithData::new(TileType::WATER);
        let air = TileWithData::new(TileType::AIR);
        let chunk = Self { layer0: [water; CHUNK_AREA], layer1: [air; CHUNK_AREA], quad };
        proof {
            broadcast use TileWithData::lemma_spec_new_view;
            let expected = Quad { size: [1i32, 1i32], offset: [x, y] };
            assert(expected.size@ =~= seq![1i32, 1i32]);
            assert(expected.offset@ =~= seq![x, y]);
            assert(quad.size =~= expected.size);
            assert(quad.offset =~= expected.offset);
        }
        chunk
    }
}

} // verus!
