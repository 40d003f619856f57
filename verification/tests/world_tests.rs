use block_world::block::block_registry::BlockRegistry;
use block_world::block::location::BlockLocation;
use block_world::world::chunk::chunk::{Chunk, ChunkLocation};
use block_world::world::chunk::chunk_handler::ChunkCreationResult;
use block_world::world::chunk::generator::ChunkGenerator;
use block_world::world::chunk::lighting::light_source::LightSource;
use block_world::world::chunk::lighting::light_state::LightState;
use block_world::world::chunk::render_chunk::RenderChunkLocation;
use block_world::world::world::{World, WorldSavingStatistics};

fn game_registry() -> BlockRegistry {
    let mut reg = BlockRegistry::new();
    reg.add_all_types();
    reg
}

fn at(x: i32, y: i32, z: i32) -> BlockLocation {
    BlockLocation::new_from(x, y, z)
}

fn load_column(world: &mut World, reg: &BlockRegistry, x: i32, z: i32, height: i32) {
    let chunk = Chunk::new(
        ChunkLocation::new(x, z),
        reg,
        &vec![vec![height; 16]; 16],
        &vec![vec![ChunkGenerator::Basic; 16]; 16],
        &vec![None; 6],
    );
    world.chunk_handler.update(&at(0, 0, 0), Some(ChunkCreationResult { chunk }));
}

#[test]
fn a_new_world_has_nothing_loaded() {
    let w = World::new(3);
    assert!(w.chunk_handler.loaded_chunks.is_empty());
    assert_eq!(w.chunk_handler.chunk_distance, 3);
    assert!(w.is_air(&at(0, 0, 0)));
    assert!(w.get_type(&at(0, 0, 0)).is_none());
}

#[test]
fn what_is_set_is_read_back() {
    let reg = game_registry();
    let mut w = World::new(1);
    load_column(&mut w, &reg, 0, 0, 2);
    load_column(&mut w, &reg, 1, 0, 2);
    assert!(!w.is_air(&at(15, 1, 3)));
    let meshes = w.set_block_at(reg.block("air"), &at(15, 1, 3));
    assert!(w.is_air(&at(15, 1, 3)));
    assert_eq!(w.get_type(&at(15, 1, 3)).unwrap().id, "air");
    assert_eq!(w.get_type(&at(15, 0, 3)).unwrap().id, "grass");
    assert_eq!(w.get_type(&at(16, 1, 3)).unwrap().id, "grass");
    let locs: Vec<RenderChunkLocation> = meshes.iter().map(|m| m.0).collect();
    assert_eq!(locs, vec![RenderChunkLocation::new(0, 0, 0), RenderChunkLocation::new(1, 0, 0)]);
}

#[test]
fn saving_counts_every_loaded_column() {
    let reg = game_registry();
    let mut w = World::new(1);
    load_column(&mut w, &reg, 0, 0, 2);
    load_column(&mut w, &reg, 0, 1, 2);
    let mut stats = WorldSavingStatistics::new();
    assert_eq!((stats.max_chunks, stats.finished), (0, 0));
    assert!(!stats.has_finished);
    let data = w.save(&mut stats);
    assert_eq!(stats.max_chunks, 2);
    assert_eq!(stats.finished, 2);
    assert!(stats.has_finished);
    assert_eq!(data.len(), 2);
    assert_eq!(data[1].len(), 6);
    assert_eq!(data[1][5].0, RenderChunkLocation::new(0, 5, 1));
    assert_eq!(data[0][0].1 .1[256], "grass");
    assert_eq!(data[0][0].1 .1[512], "air");
}

#[test]
fn light_levels_are_kept() {
    assert_eq!(LightSource::new(15).level, 15);
    assert_eq!(LightState::new(-2).level, -2);
}
