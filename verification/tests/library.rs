use terra::app::{gl_config_picker, window_event, ConfigTraits, WindowAction, WindowInput};
use terra::chunk::{ChunkData, ChunkPos, CHUNK_AREA, CHUNK_SIZE};
use terra::quad::Quad;
use terra::renderer::{index_bytes, indices};
use terra::tiles::{tile_properties, TileType, TileWithData};
use terra::world::World;

#[test]
fn tile_with_data_new_has_frame_zero() {
    let t = TileWithData::new(TileType::WATER);
    assert_eq!(format!("{:?}", t), "TileWithData(WATER, PerTileData { animation_frame: 0 })");
    assert_eq!(t, TileWithData::new(TileType::WATER));
    assert_ne!(t, TileWithData::new(TileType::AIR));
}

#[test]
fn tile_properties_table() {
    assert!(tile_properties(TileType::AIR).is_none());
    let water = tile_properties(TileType::WATER).unwrap();
    assert_eq!(format!("{:?}", water), "TileProperties { frames: [TileTexture(0, 0)] }");
    let ground = tile_properties(TileType::GROUND).unwrap();
    assert_eq!(format!("{:?}", ground), "TileProperties { frames: [TileTexture(0, 0)] }");
}

#[test]
fn quad_new_sets_size_and_offset() {
    let q = Quad::new(3, -4, 2, 5);
    assert_eq!(q.size, [2, 5]);
    assert_eq!(q.offset, [3, -4]);
}

#[test]
fn chunk_data_new_is_water_under_air() {
    let c = ChunkData::new(7, -2);
    assert_eq!(CHUNK_AREA, CHUNK_SIZE * CHUNK_SIZE);
    assert_eq!(c.layer0.len(), 256);
    assert!(c.layer0.iter().all(|t| *t == TileWithData::new(TileType::WATER)));
    assert!(c.layer1.iter().all(|t| *t == TileWithData::new(TileType::AIR)));
    assert_eq!(c.quad, Quad::new(7, -2, 1, 1));
}

#[test]
fn chunk_keys_are_distinct() {
    let positions = [
        ChunkPos(0, 0),
        ChunkPos(0, 1),
        ChunkPos(1, 0),
        ChunkPos(-1, 0),
        ChunkPos(0, -1),
        ChunkPos(i32::MIN, i32::MAX),
        ChunkPos(i32::MAX, i32::MIN),
    ];
    for a in positions.iter() {
        for b in positions.iter() {
            assert_eq!(a.key() == b.key(), a == b);
        }
    }
    assert_eq!(ChunkPos(0, 0).key(), 0x8000_0000_8000_0000);
    assert_eq!(ChunkPos(i32::MIN, i32::MIN).key(), 0);
    assert_eq!(ChunkPos(i32::MAX, i32::MAX).key(), u64::MAX);
}

#[test]
fn world_starts_empty() {
    let w = World::new();
    assert_eq!(w.loaded_count(), 0);
    assert!(w.chunk(&ChunkPos(0, 0)).is_none());
    assert!(w.chunk_quads().is_empty());
}

#[test]
fn new_chunk_then_read_back() {
    let mut w = World::new();
    w.new_chunk(&ChunkPos(0, 0));
    w.new_chunk(&ChunkPos(2, -3));
    assert_eq!(w.loaded_count(), 2);
    let c = w.chunk(&ChunkPos(2, -3)).unwrap();
    assert_eq!(c.quad, Quad::new(2, -3, 1, 1));
    assert!(c.layer0.iter().all(|t| *t == TileWithData::new(TileType::WATER)));
    assert!(w.chunk(&ChunkPos(-3, 2)).is_none());
}

#[test]
fn new_chunk_twice_is_new_chunk_once() {
    let mut w = World::new();
    w.new_chunk(&ChunkPos(5, 5));
    w.new_chunk(&ChunkPos(5, 5));
    assert_eq!(w.loaded_count(), 1);
    assert_eq!(w.chunk(&ChunkPos(5, 5)).unwrap().quad, Quad::new(5, 5, 1, 1));
}

#[test]
fn chunk_quads_draws_each_chunk_once() {
    let mut w = World::new();
    let positions = [ChunkPos(0, 0), ChunkPos(1, 0), ChunkPos(0, 1), ChunkPos(-1, -1)];
    for p in positions.iter() {
        w.new_chunk(p);
    }
    let quads = w.chunk_quads();
    assert_eq!(quads.len(), positions.len());
    for p in positions.iter() {
        let q = Quad::new(p.0, p.1, 1, 1);
        assert_eq!(quads.iter().filter(|x| **x == q).count(), 1);
    }
}

#[test]
fn test_layer0_mask_is_a_disc() {
    let m = World::test_layer0_mask();
    assert_eq!(m.len(), 256);
    for y in 0..16usize {
        for x in 0..16usize {
            assert_eq!(m[y * 16 + x], x * x + y * y <= 64);
            assert_eq!(m[y * 16 + x], m[x * 16 + y]);
        }
    }
    assert!(m[0]);
    assert!(m[8]);
    assert!(!m[9]);
    assert!(m[6 * 16 + 5]);
    assert!(!m[6 * 16 + 6]);
    assert!(!m[15 * 16 + 15]);
    assert_eq!(m.iter().filter(|b| **b).count(), 58);
}

#[test]
fn window_event_close_and_escape_exit() {
    assert_eq!(window_event(WindowInput::CloseRequested), WindowAction::Exit);
    assert_eq!(
        window_event(WindowInput::KeyboardInput { pressed: true, repeat: false, escape: true }),
        WindowAction::Exit
    );
    assert_eq!(
        window_event(WindowInput::KeyboardInput { pressed: true, repeat: true, escape: true }),
        WindowAction::Ignore
    );
    assert_eq!(
        window_event(WindowInput::KeyboardInput { pressed: false, repeat: false, escape: true }),
        WindowAction::Ignore
    );
    assert_eq!(
        window_event(WindowInput::KeyboardInput { pressed: true, repeat: false, escape: false }),
        WindowAction::Ignore
    );
}

#[test]
fn window_event_resize_and_redraw() {
    assert_eq!(
        window_event(WindowInput::Resized { width: 800, height: 600 }),
        WindowAction::Resize { width: 800, height: 600 }
    );
    assert_eq!(window_event(WindowInput::Resized { width: 0, height: 600 }), WindowAction::Ignore);
    assert_eq!(window_event(WindowInput::Resized { width: 800, height: 0 }), WindowAction::Ignore);
    assert_eq!(window_event(WindowInput::RedrawRequested), WindowAction::Redraw);
    assert_eq!(window_event(WindowInput::Other), WindowAction::Ignore);
}

fn cfg(t: Option<bool>, n: u8) -> ConfigTraits {
    ConfigTraits { supports_transparency: t, num_samples: n }
}

#[test]
fn config_picker_prefers_transparency_then_samples() {
    assert_eq!(gl_config_picker(&vec![cfg(None, 4)]), 0);
    assert_eq!(gl_config_picker(&vec![cfg(Some(false), 4), cfg(Some(true), 0)]), 1);
    assert_eq!(gl_config_picker(&vec![cfg(Some(true), 0), cfg(Some(false), 4)]), 1);
    assert_eq!(gl_config_picker(&vec![cfg(Some(true), 4), cfg(Some(true), 4)]), 0);
    assert_eq!(gl_config_picker(&vec![cfg(None, 2), cfg(Some(false), 8), cfg(None, 4)]), 1);
}

#[test]
fn config_picker_uniform_transparency_takes_most_samples() {
    let configs = vec![cfg(Some(true), 2), cfg(Some(true), 16), cfg(Some(true), 8), cfg(Some(true), 16)];
    assert_eq!(gl_config_picker(&configs), 1);
}

#[test]
fn quad_indices_and_their_bytes() {
    let idx = indices();
    assert_eq!(idx, [0, 1, 3, 1, 2, 3]);
    assert!(idx.iter().all(|i| *i < 4));
    let bytes = index_bytes();
    let expected: Vec<u8> = idx.iter().flat_map(|v| v.to_ne_bytes()).collect();
    assert_eq!(bytes, expected);
    assert_eq!(bytes.len(), 24);
}
