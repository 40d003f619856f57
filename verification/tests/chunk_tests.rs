use std::sync::Arc;

use block_world::block::block_registry::BlockRegistry;
use block_world::block::block_type::BlockType;
use block_world::block::location::{BlockLocation, Direction};
use block_world::world::chunk::chunk::{Chunk, ChunkLocation};
use block_world::world::chunk::chunk_handler::ChunkGroup;
use block_world::world::chunk::generator::ChunkGenerator;
use block_world::world::chunk::render_chunk::{RenderChunk, RenderChunkLocation};

fn game_registry() -> BlockRegistry {
    let mut reg = BlockRegistry::new();
    reg.add_all_types();
    reg
}

fn at(x: i32, y: i32, z: i32) -> BlockLocation {
    BlockLocation::new_from(x, y, z)
}

fn flat_chunk(reg: &BlockRegistry, loc: ChunkLocation, height: i32, biome: ChunkGenerator) -> Chunk {
    let heights = vec![vec![height; 16]; 16];
    let biomes = vec![vec![biome; 16]; 16];
    Chunk::new(loc, reg, &heights, &biomes, &vec![None; 6])
}

fn id_at(c: &Chunk, l: BlockLocation) -> Option<String> {
    c.get_block_at(&l).map(|b| b.id.clone())
}

fn cube(reg: &BlockRegistry, id: &str) -> Vec<Vec<Vec<Arc<BlockType>>>> {
    vec![vec![vec![reg.block(id); 16]; 16]; 16]
}

#[test]
fn basic_terrain_fills_grass_to_the_height() {
    let reg = game_registry();
    let c = flat_chunk(&reg, ChunkLocation::new(0, 0), 3, ChunkGenerator::Basic);
    assert_eq!(c.size, 6);
    assert_eq!(c.render_chunks.len(), 6);
    for y in 0..3 {
        assert_eq!(id_at(&c, at(4, y, 9)).as_deref(), Some("grass"));
    }
    assert_eq!(id_at(&c, at(4, 3, 9)).as_deref(), Some("air"));
    assert_eq!(id_at(&c, at(15, 95, 15)).as_deref(), Some("air"));
    assert_eq!(id_at(&c, at(0, 96, 0)), None);
    assert_eq!(id_at(&c, at(16, 0, 0)), None);
    assert_eq!(id_at(&c, at(0, -1, 0)), None);
    for i in 0..6 {
        assert_eq!(c.render_chunks[i].location, RenderChunkLocation::new(0, i as i32, 0));
    }
    assert_eq!(c.biome_data.len(), 16);
    assert_eq!(c.biome_data[3][7], ChunkGenerator::Basic);
}

#[test]
fn snow_and_tall_columns() {
    let reg = game_registry();
    let c = flat_chunk(&reg, ChunkLocation::new(-2, 5), 40, ChunkGenerator::Snow);
    assert_eq!(id_at(&c, at(0, 39, 0)).as_deref(), Some("snow"));
    assert_eq!(id_at(&c, at(0, 40, 0)).as_deref(), Some("air"));
    let full = flat_chunk(&reg, ChunkLocation::new(0, 0), 96, ChunkGenerator::Basic);
    assert_eq!(id_at(&full, at(0, 95, 0)).as_deref(), Some("grass"));
}

#[test]
fn sand_gets_sand_and_maybe_a_log_on_top() {
    let reg = game_registry();
    let c = flat_chunk(&reg, ChunkLocation::new(1, 1), 10, ChunkGenerator::Sand);
    for x in 0..16 {
        for z in 0..16 {
            assert_eq!(id_at(&c, at(x, 9, z)).as_deref(), Some("sand"));
            let top = id_at(&c, at(x, 10, z)).unwrap();
            assert!(top == "air" || top == "log");
            assert_eq!(id_at(&c, at(x, 11, z)).as_deref(), Some("air"));
        }
    }
}

#[test]
fn fill_column_with_the_log_roll() {
    let reg = game_registry();
    let mut blocks = vec![vec![vec![reg.block("air"); 16]; 16]; 96];
    ChunkGenerator::Sand.fill_column(&reg, 5, &at(2, 0, 3), 19, &mut blocks);
    assert_eq!(blocks[4][2][3].id, "sand");
    assert_eq!(blocks[5][2][3].id, "log");
    assert_eq!(blocks[6][2][3].id, "air");
    assert_eq!(blocks[0][3][2].id, "air");
    ChunkGenerator::Sand.fill_column(&reg, 5, &at(3, 0, 3), 18, &mut blocks);
    assert_eq!(blocks[5][3][3].id, "air");
    let roll = ChunkGenerator::Basic.generate_chunk_block(&reg, 2, &at(0, 0, 0), &mut blocks);
    assert!(roll < 20);
    assert_eq!(blocks[1][0][0].id, "grass");
    assert_eq!(blocks[2][0][0].id, "air");
}

#[test]
fn set_and_get_blocks_in_a_column() {
    let reg = game_registry();
    let mut c = flat_chunk(&reg, ChunkLocation::new(0, 0), 1, ChunkGenerator::Basic);
    c.set_block_at(reg.block("stone"), &at(3, 40, 4));
    assert_eq!(id_at(&c, at(3, 40, 4)).as_deref(), Some("stone"));
    assert_eq!(id_at(&c, at(3, 41, 4)).as_deref(), Some("air"));
    c.set_block_at(reg.block("stone"), &at(3, 96, 4));
    assert_eq!(id_at(&c, at(3, 96, 4)), None);
    assert!(c.block_exists_in_chunk(&at(0, 95, 15)));
    assert!(!c.block_exists_in_chunk(&at(0, 96, 15)));
    assert!(c.get_render_chunk_for_loc(&at(0, 40, 0)).is_some());
    assert_eq!(c.get_render_chunk_for_loc(&at(0, 40, 0)).unwrap().location.y, 2);
    assert!(c.get_render_chunk_for_loc(&at(0, 96, 0)).is_none());
    assert!(c.get_render_chunk_for_loc(&at(0, -20, 0)).is_none());
}

#[test]
fn chunk_is_air_reads_solid_blocks() {
    let reg = game_registry();
    let c = flat_chunk(&reg, ChunkLocation::new(0, 0), 2, ChunkGenerator::Basic);
    assert!(c.is_air(&at(1, 0, 1)));
    assert!(!c.is_air(&at(1, 2, 1)));
    assert!(!c.is_air(&at(1, 200, 1)));
    assert!(!c.is_air_unsafe(&at(1, 0, 1)));
    assert!(c.is_no_block_above(&at(1, 1, 1)));
    assert!(!c.is_no_block_above(&at(1, 0, 1)));
    let grass = reg.block("grass");
    assert!(c.is_transparent_and_self(grass.clone(), &at(1, 5, 1)));
    assert!(!c.is_transparent_and_self(grass.clone(), &at(1, 0, 1)));
    assert!(c.is_transparent_and_self(grass, &at(1, -1, 1)));
}

#[test]
fn surrounded_by_solid_inside_a_full_column() {
    let reg = game_registry();
    let c = flat_chunk(&reg, ChunkLocation::new(0, 0), 10, ChunkGenerator::Basic);
    assert!(c.is_surrounded_by_solid(&at(5, 5, 5)));
    assert!(!c.is_surrounded_by_solid(&at(5, 9, 5)));
    assert!(!c.is_surrounded_by_solid(&at(0, 5, 5)));
}

#[test]
fn saved_render_chunk_loads_back_the_same_blocks() {
    let reg = game_registry();
    let mut c = flat_chunk(&reg, ChunkLocation::new(0, 0), 5, ChunkGenerator::Basic);
    c.set_block_at(reg.block("glass"), &at(7, 2, 9));
    c.set_block_at(reg.block("log"), &at(0, 15, 15));
    let (count, ids) = c.render_chunks[0].save_data();
    assert_eq!(count, 4096);
    assert_eq!(ids.len(), 4096);
    assert_eq!(ids[2 * 256 + 7 * 16 + 9], "glass");
    assert_eq!(ids[15 * 256 + 0 * 16 + 15], "log");
    let loaded = RenderChunk::new(
        cube(&reg, "air"),
        RenderChunkLocation::new(0, 0, 0),
        &reg,
        &Some(ids),
    );
    for y in 0..16 {
        for x in 0..16 {
            for z in 0..16 {
                assert_eq!(loaded.blocks[y][x][z].id, c.render_chunks[0].blocks[y][x][z].id);
            }
        }
    }
}

#[test]
fn chunk_save_data_covers_six_render_chunks() {
    let reg = game_registry();
    let c = flat_chunk(&reg, ChunkLocation::new(3, -4), 20, ChunkGenerator::Snow);
    let data = c.save_data();
    assert_eq!(data.len(), 6);
    for (i, (loc, (count, ids))) in data.iter().enumerate() {
        assert_eq!(*loc, RenderChunkLocation::new(3, i as i32, -4));
        assert_eq!(*count, 4096);
        assert_eq!(ids.len(), 4096);
    }
    assert_eq!(data[1].1 .1[3 * 256], "snow");
    assert_eq!(data[1].1 .1[4 * 256], "air");
}

#[test]
fn column_loads_saved_layers() {
    let reg = game_registry();
    let src = flat_chunk(&reg, ChunkLocation::new(0, 0), 20, ChunkGenerator::Basic);
    let (_, ids) = src.render_chunks[1].save_data();
    let mut saved = vec![None; 6];
    saved[0] = Some(ids);
    let c = Chunk::new(
        ChunkLocation::new(0, 0),
        &reg,
        &vec![vec![0; 16]; 16],
        &vec![vec![ChunkGenerator::Basic; 16]; 16],
        &saved,
    );
    assert_eq!(id_at(&c, at(2, 3, 2)).as_deref(), Some("grass"));
    assert_eq!(id_at(&c, at(2, 4, 2)).as_deref(), Some("air"));
    assert_eq!(id_at(&c, at(2, 20, 2)).as_deref(), Some("air"));
}

#[test]
fn render_chunk_queries() {
    let reg = game_registry();
    let mut rc = RenderChunk::new(cube(&reg, "air"), RenderChunkLocation::new(0, 0, 0), &reg, &None);
    rc.set_block_at(reg.block("stone"), &at(1, 2, 3));
    assert!(rc.is_air(&at(1, 2, 3)));
    assert!(!rc.is_air(&at(1, 2, 4)));
    assert!(!rc.is_air(&at(16, 2, 3)));
    assert!(rc.is_air_unsafe(&at(1, 2, 3)));
    assert!(rc.block_exists_in_chunk(&at(15, 15, 15)));
    assert!(!rc.block_exists_in_chunk(&at(-1, 0, 0)));
    assert_eq!(rc.get_block_at(&at(1, 2, 3)).unwrap().id, "stone");
    assert!(rc.get_block_at(&at(1, 16, 3)).is_none());
    rc.set_block_at(reg.block("stone"), &at(1, 16, 3));
    assert!(!rc.is_surrounded_by_solid(&at(1, 2, 3)));
}

#[test]
fn outside_tests_against_a_render_chunk() {
    let reg = game_registry();
    let rc = RenderChunk::new(cube(&reg, "air"), RenderChunkLocation::new(1, 1, 1), &reg, &None);
    assert!(at(16, 20, 20).is_outside_of(&rc));
    assert!(!at(17, 20, 20).is_outside_of(&rc));
    assert!(!at(31, 31, 31).is_outside_of(&rc));
    assert!(at(32, 20, 20).is_outside_of(&rc));
    assert!(at(20, 15, 20).is_outside_of(&rc));
    assert!(!at(16, 20, 20).is_outside_of_x_z(&rc));
    assert!(at(20, 20, 15).is_outside_of_x_z(&rc));
    assert!(at(20, 32, 20).is_outside_of_y(&rc));
    assert!(!at(20, 16, 20).is_outside_of_y(&rc));
    let rel = at(20, 20, 20).get_render_chunk_values(&rc);
    assert_eq!((rel.x, rel.y, rel.z), (20, 4, 20));
}

#[test]
fn lone_block_mesh_has_six_faces() {
    let reg = game_registry();
    let mut c = flat_chunk(&reg, ChunkLocation::new(0, 0), 0, ChunkGenerator::Basic);
    c.set_block_at(reg.block("stone"), &at(5, 5, 5));
    let group = ChunkGroup { chunks: vec![], base: c.location };
    let meshes = c.generate_meshes(&group);
    assert_eq!(meshes.len(), 6);
    let (loc, mesh) = &meshes[0];
    assert_eq!(*loc, RenderChunkLocation::new(0, 0, 0));
    assert_eq!(mesh.faces.len(), 6);
    let dirs: Vec<Direction> = mesh.faces.iter().map(|f| f.direction).collect();
    assert_eq!(
        dirs,
        vec![
            Direction::DOWN,
            Direction::UP,
            Direction::EAST,
            Direction::SOUTH,
            Direction::NORTH,
            Direction::WEST
        ]
    );
    for f in mesh.faces.iter() {
        assert_eq!((f.x, f.y, f.z), (5, 5, 5));
        assert_eq!(f.block.id, "stone");
    }
    assert_eq!(&mesh.indecies[0..12], &[0, 1, 3, 3, 1, 2, 4, 5, 7, 7, 5, 6]);
    assert_eq!(mesh.indecies.len(), 36);
    for (_, m) in meshes.iter().skip(1) {
        assert!(m.faces.is_empty());
        assert!(m.indecies.is_empty());
    }
}

#[test]
fn flat_ground_mesh_counts_its_faces() {
    let reg = game_registry();
    let c = flat_chunk(&reg, ChunkLocation::new(0, 0), 1, ChunkGenerator::Basic);
    let group = ChunkGroup { chunks: vec![], base: c.location };
    let meshes = c.generate_meshes(&group);
    assert_eq!(meshes[0].1.faces.len(), 256 + 256 + 64);
    assert_eq!(meshes[0].1.indecies.len(), 6 * 576);
}

#[test]
fn transparent_neighbour_shows_a_face() {
    let reg = game_registry();
    let mut c = flat_chunk(&reg, ChunkLocation::new(0, 0), 0, ChunkGenerator::Basic);
    c.set_block_at(reg.block("stone"), &at(5, 5, 5));
    c.set_block_at(reg.block("glass"), &at(5, 6, 5));
    c.set_block_at(reg.block("dirt"), &at(5, 4, 5));
    let group = ChunkGroup { chunks: vec![], base: c.location };
    let meshes = c.generate_meshes(&group);
    let stone_faces: Vec<Direction> = meshes[0]
        .1
        .faces
        .iter()
        .filter(|f| f.block.id == "stone")
        .map(|f| f.direction)
        .collect();
    assert_eq!(
        stone_faces,
        vec![Direction::UP, Direction::EAST, Direction::SOUTH, Direction::NORTH, Direction::WEST]
    );
}
