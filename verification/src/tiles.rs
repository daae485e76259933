use vstd::prelude::*;

verus! {

/// Per-tile state that changes while the world runs.
#[derive(Debug, Copy, Clone, PartialEq, Eq, Structural, PartialOrd, Ord)]
pub struct PerTileData {
    pub animation_frame: i8,
}

/// A cell of the texture atlas: column and row.
#[derive(Debug)]
pub struct TileTexture(u32, u32);

impl View for TileTexture {
    type V = (u32, u32);

    closed spec fn view(&self) -> (u32, u32) {
        (self.0, self.1)
    }
}

/// What is known of a kind of tile: the atlas cells of its animation frames.
#[derive(Debug)]
pub struct TileProperties {
    frames: Vec<TileTexture>,
}

impl View for TileProperties {
    type V = Seq<(u32, u32)>;

    closed spec fn view(&self) -> Seq<(u32, u32)> {
        self.frames@.map_values(|t: TileTexture| t@)
    }
}

/// The kinds of tile.
#[derive(Debug, Copy, Clone, PartialEq, Eq, Structural, PartialOrd, Ord, Hash)]
pub enum TileType {
    AIR,
    WATER,
    GROUND,
}

/// A tile of a chunk layer: its kind and its per-tile state.
#[derive(Copy, Clone, Debug, PartialEq, Eq, Structural, PartialOrd, Ord)]
pub struct TileWithData(TileType, PerTileData);

impl View for TileWithData {
    type V = (TileType, i8);

    closed spec fn view(&self) -> (TileType, i8) {
        (self.0, self.1.animation_frame)
    }
}

impl TileWithData {
    /// The tile that `new` builds: the given kind, at animation frame 0.
    pub closed spec fn spec_new(tile_type: TileType) -> TileWithData {
        TileWithData(tile_type, PerTileData { animation_frame: 0 })
    }

    /// A tile of the given kind at animation frame 0.
    pub fn new(tile_type: TileType) -> (tile: Self)
        ensures
            tile == Self::spec_new(tile_type),
            tile@ == (tile_type, 0i8),
    {
        Self(tile_type, PerTileData { animation_frame: 0 })
    }

    /// The tile that `spec_new` names has the given kind and frame 0.
    pub broadcast proof fn lemma_spec_new_view(tile_type: TileType)
        ensures
            (#[trigger] Self::spec_new(tile_type))@ == (tile_type, 0i8),
    {
    }
}

/// The atlas frames of each kind of tile: water and ground have one frame,
/// the atlas cell (0, 0); air has no properties, for it is never drawn.
pub open spec fn spec_tile_frames(tile_type: TileType) -> Option<Seq<(u32, u32)>> {
    match tile_type {
        TileType::AIR => None,
        TileType::WATER => Some(seq![(0u32, 0u32)]),
        TileType::GROUND => Some(seq![(0u32, 0u32)]),
    }
}

/// Only the tiles that are drawn have properties, and each of those has one
/// animation frame, the atlas cell (0, 0).
pub proof fn law_tile_frames(tile_type: TileType)
    ensures
        spec_tile_frames(tile_type) is None <==> tile_type == TileType::AIR,
        tile_type != TileType::AIR ==> spec_tile_frames(tile_type) == Some(seq![(0u32, 0u32)]),
{
}

/// Looks up the properties of a kind of tile.
pub fn tile_properties(tile_type: TileType) -> (props: Option<TileProperties>)
    ensures
        props is Some <==> spec_tile_frames(tile_type) is Some,
        props matches Some(p) ==> p@ == spec_tile_frames(tile_type)->0,
{
    match tile_type {
        TileType::AIR => None,
        TileType::WATER | TileType::GROUND => {
            let frames = vec![TileTexture(0, 0)];
            let props = TileProperties { frames };
            assert(props@ =~= seq![(0u32, 0u32)]);
            Some(props)
        },
    }
}

} // verus!
