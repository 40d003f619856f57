use block_world::block::block_registry::BlockRegistry;
use block_world::block::location::BlockLocation;
use block_world::world::chunk::chunk::{Chunk, ChunkLocation};
use block_world::world::chunk::chunk_handler::{
    floor_div_16, ChunkCreationResult, ChunkGroup, ChunkHandler, ChunkLoadingStatistic,
    MeshPlacement,
};
use block_world::world::chunk::generator::ChunkGenerator;
use block_world::world::chunk::render_chunk::RenderChunkLocation;
use std::sync::Arc;

fn game_registry() -> BlockRegistry {
    let mut reg = BlockRegistry::new();
    reg.add_all_types();
    reg
}

fn at(x: i32, y: i32, z: i32) -> BlockLocation {
    BlockLocation::new_from(x, y, z)
}

fn flat_chunk(reg: &BlockRegistry, x: i32, z: i32, height: i32) -> Chunk {
    let heights = vec![vec![height; 16]; 16];
    let biomes = vec![vec![ChunkGenerator::Basic; 16]; 16];
    Chunk::new(ChunkLocation::new(x, z), reg, &heights, &biomes, &vec![None; 6])
}

fn created(reg: &BlockRegistry, x: i32, z: i32, height: i32) -> Option<ChunkCreationResult> {
    Some(ChunkCreationResult { chunk: flat_chunk(reg, x, z, height) })
}

#[test]
fn columns_are_found_by_rounding_down() {
    let h = ChunkHandler::new(2);
    assert_eq!(h.get_chunk_loc_for_block(&at(0, 0, 0)), ChunkLocation::new(0, 0));
    assert_eq!(h.get_chunk_loc_for_block(&at(15, 7, 16)), ChunkLocation::new(0, 1));
    assert_eq!(h.get_chunk_loc_for_block(&at(-1, 7, -16)), ChunkLocation::new(-1, -1));
    assert_eq!(h.get_chunk_loc_for_block(&at(-17, 7, 33)), ChunkLocation::new(-2, 2));
    assert_eq!(floor_div_16(i32::MIN), -134217728);
    assert_eq!(floor_div_16(i32::MAX), 134217727);
}

#[test]
fn a_new_handler_is_empty_with_a_seed() {
    let h = ChunkHandler::new(4);
    assert!(h.seed < u32::MAX);
    assert!(h.loaded_chunks.is_empty());
    assert!(h.draw_chunks.is_empty());
    assert_eq!(h.chunk_distance, 4);
    assert_eq!(h.generated_chunks_count, 0);
    assert!(!h.has_generated_start);
    assert_eq!(h.to_generate, 0);
    assert_eq!(h.player_chunk_loc, ChunkLocation::new(0, 0));
}

#[test]
fn generate_lists_the_square_around_the_player() {
    let mut h = ChunkHandler::new(1);
    let mut stats = ChunkLoadingStatistic::new();
    let locs = h.generate(&mut stats, 1, ChunkLocation::new(2, 3));
    let want: Vec<ChunkLocation> = vec![
        (1, 2),
        (1, 3),
        (1, 4),
        (2, 2),
        (2, 3),
        (2, 4),
        (3, 2),
        (3, 3),
        (3, 4),
    ]
    .into_iter()
    .map(|(x, z)| ChunkLocation::new(x, z))
    .collect();
    assert_eq!(locs, want);
    assert_eq!(h.to_generate, 9);
    assert_eq!(stats.chunks_max, 9);
    let one = h.generate(&mut stats, 0, ChunkLocation::new(-5, 5));
    assert_eq!(one, vec![ChunkLocation::new(-5, 5)]);
    assert_eq!(h.to_generate, 1);
}

#[test]
fn negative_distance_generates_nothing_but_counts_one() {
    let mut h = ChunkHandler::new(-1);
    let mut stats = ChunkLoadingStatistic::new();
    let locs = h.generate(&mut stats, -1, ChunkLocation::new(0, 0));
    assert!(locs.is_empty());
    assert_eq!(h.to_generate, 1);
}

#[test]
fn start_marks_the_statistic_and_generates() {
    let mut h = ChunkHandler::new(0);
    let mut stats = ChunkLoadingStatistic::new();
    let locs = h.start(&mut stats, 2);
    assert!(stats.has_generated);
    assert_eq!(stats.chunks_max, 25);
    assert_eq!(locs.len(), 25);
    assert_eq!(h.chunk_distance, 2);
    assert_eq!(h.to_generate, 25);
    assert_eq!(locs[0], ChunkLocation::new(-2, -2));
    assert_eq!(locs[24], ChunkLocation::new(2, 2));
}

#[test]
fn update_loads_generated_columns_and_counts_them() {
    let reg = game_registry();
    let mut h = ChunkHandler::new(0);
    let mut stats = ChunkLoadingStatistic::new();
    h.start(&mut stats, 1);
    let none = h.update(&at(20, 5, -3), None);
    assert!(none.is_empty());
    assert_eq!(h.player_chunk_loc, ChunkLocation::new(1, -1));

    let tasks = h.update(&at(0, 0, 0), created(&reg, 0, 0, 3));
    assert_eq!(tasks.len(), 1);
    assert_eq!(tasks[0].chunk.location, ChunkLocation::new(0, 0));
    assert!(tasks[0].group.chunks.is_empty());
    assert!(h.chunk_is_loaded(&ChunkLocation::new(0, 0)));
    assert_eq!(h.generated_chunks_count, 1);

    let tasks = h.update(&at(0, 0, 0), created(&reg, 1, 0, 3));
    let locs: Vec<ChunkLocation> = tasks.iter().map(|t| t.chunk.location).collect();
    assert_eq!(locs, vec![ChunkLocation::new(1, 0), ChunkLocation::new(0, 0)]);
    assert_eq!(tasks[0].group.chunks.len(), 1);
    assert_eq!(tasks[0].group.chunks[0].location, ChunkLocation::new(0, 0));
    assert_eq!(tasks[1].group.chunks[0].location, ChunkLocation::new(1, 0));

    let tasks = h.update(&at(0, 0, 0), created(&reg, 0, 1, 3));
    let locs: Vec<ChunkLocation> = tasks.iter().map(|t| t.chunk.location).collect();
    assert_eq!(locs, vec![ChunkLocation::new(0, 1), ChunkLocation::new(0, 0)]);
    assert_eq!(h.loaded_chunks.len(), 3);
    assert_eq!(h.generated_chunks_count, 3);
    assert!(!h.has_generated_start);
}

#[test]
fn start_completes_when_the_last_column_arrives() {
    let reg = game_registry();
    let mut h = ChunkHandler::new(0);
    let mut stats = ChunkLoadingStatistic::new();
    let locs = h.start(&mut stats, 0);
    assert_eq!(locs, vec![ChunkLocation::new(0, 0)]);
    h.update(&at(0, 0, 0), created(&reg, 0, 0, 1));
    assert!(h.has_generated_start);
    assert_eq!(h.generated_chunks_count, 1);
    h.update(&at(0, 0, 0), created(&reg, 0, 1, 1));
    assert_eq!(h.generated_chunks_count, 1);
    assert!(h.has_generated_start);
}

#[test]
fn a_regenerated_column_replaces_the_loaded_one() {
    let reg = game_registry();
    let mut h = ChunkHandler::new(0);
    h.update(&at(0, 0, 0), created(&reg, 0, 0, 1));
    h.update(&at(0, 0, 0), created(&reg, 0, 0, 5));
    assert_eq!(h.loaded_chunks.len(), 1);
    assert_eq!(h.get_type(&at(3, 4, 3)).unwrap().id, "grass");
}

#[test]
fn finished_meshes_are_placed() {
    let reg = game_registry();
    let mut h = ChunkHandler::new(0);
    h.update(&at(0, 0, 0), created(&reg, 0, 0, 1));
    let rl = RenderChunkLocation::new(0, 2, 0);
    assert!(matches!(h.place_mesh(&rl), MeshPlacement::Create));
    assert_eq!(h.draw_chunks, vec![rl]);
    assert!(matches!(h.place_mesh(&rl), MeshPlacement::Replace));
    assert_eq!(h.draw_chunks.len(), 1);
    assert!(matches!(h.place_mesh(&RenderChunkLocation::new(5, 0, 5)), MeshPlacement::Skip));
    assert_eq!(h.draw_chunks.len(), 1);
}

#[test]
fn remeshing_gives_six_meshes() {
    let reg = game_registry();
    let mut h = ChunkHandler::new(0);
    let tasks = h.update(&at(0, 0, 0), created(&reg, 0, 0, 1));
    let task = h.remesh_chunk_queue(tasks[0].chunk.clone());
    let result = ChunkHandler::remesh_chunk(task);
    assert_eq!(result.data.len(), 6);
    assert_eq!(result.data[0].0, RenderChunkLocation::new(0, 0, 0));
    assert_eq!(result.data[0].1.faces.len(), 576);
    assert!(result.data[1].1.faces.is_empty());
    let again = ChunkHandler::remesh_chunk(tasks.into_iter().next().unwrap());
    assert_eq!(again.data[0].1.faces.len(), 576);
}

#[test]
fn neighbour_columns_hide_border_faces() {
    let reg = game_registry();
    let mut h = ChunkHandler::new(0);
    h.update(&at(0, 0, 0), created(&reg, 0, 0, 1));
    h.update(&at(0, 0, 0), created(&reg, 1, 0, 1));
    let base = h.get_chunk_for_block_xy(0, 0).unwrap();
    let group = ChunkGroup::new(&base, &h);
    assert_eq!(group.base, ChunkLocation::new(0, 0));
    assert_eq!(group.chunks.len(), 1);
    let result = ChunkHandler::remesh_chunk(h.remesh_chunk_queue(base));
    assert_eq!(result.data[0].1.faces.len(), 576 - 16);
    let grass = reg.block("grass");
    assert!(!group.is_transparent_and_self(grass.clone(), &at(16, 0, 3)));
    assert!(group.is_transparent_and_self(grass.clone(), &at(16, 1, 3)));
    assert!(group.is_transparent_and_self(grass, &at(-1, 0, 3)));
    assert!(group.get_chunk_for_block(&at(20, 0, 0)).is_some());
    assert!(group.get_chunk_for_block(&at(-1, 0, 0)).is_none());
}

#[test]
fn world_queries_through_the_handler() {
    let reg = game_registry();
    let mut h = ChunkHandler::new(0);
    h.update(&at(0, 0, 0), created(&reg, -1, 0, 4));
    assert_eq!(h.get_type(&at(-3, 2, 5)).unwrap().id, "grass");
    assert_eq!(h.get_type(&at(-3, 4, 5)).unwrap().id, "air");
    assert!(h.get_type(&at(3, 2, 5)).is_none());
    assert!(h.get_type(&at(-3, 100, 5)).is_none());
    assert!(!h.is_air(&at(-3, 2, 5)));
    assert!(h.is_air(&at(-3, 4, 5)));
    assert!(h.is_air(&at(3, 2, 5)));
    assert!(!h.is_transparent(&at(-3, 2, 5)));
    assert!(h.is_transparent(&at(3, 2, 5)));
    assert!(h.is_surrounded_by_solid(&at(-8, 1, 8)));
    assert!(!h.is_surrounded_by_solid(&at(-8, 3, 8)));
    assert!(!h.is_surrounded_by_solid(&at(-1, 1, 8)));
    let stone = reg.block("stone");
    assert!(h.is_transparent_and_self(stone.clone(), &at(-3, 4, 5)));
    assert!(!h.is_transparent_and_self(stone.clone(), &at(-3, 2, 5)));
    assert!(h.is_transparent_and_self(stone, &at(3, 2, 5)));
    assert!(h.get_chunk_for_block(&at(-16, 0, 15)).is_some());
    assert!(h.get_chunk_for_block(&at(-17, 0, 15)).is_none());
}

#[test]
fn setting_a_block_reads_back_and_remeshes() {
    let reg = game_registry();
    let mut h = ChunkHandler::new(0);
    h.update(&at(0, 0, 0), created(&reg, 0, 0, 1));
    let stone = reg.block("stone");
    let before = h.get_chunk_for_block(&at(5, 16, 5)).unwrap();
    let meshes = h.set_block_at(stone.clone(), &at(5, 16, 5));
    assert_eq!(h.get_type(&at(5, 16, 5)).unwrap().id, "stone");
    assert_eq!(h.get_type(&at(5, 17, 5)).unwrap().id, "air");
    assert_eq!(before.get_block_at(&at(5, 16, 5)).unwrap().id, "air");
    let locs: Vec<RenderChunkLocation> = meshes.iter().map(|m| m.0).collect();
    assert_eq!(locs, vec![RenderChunkLocation::new(0, 1, 0), RenderChunkLocation::new(0, 0, 0)]);
    assert_eq!(meshes[0].1.faces.len(), 6);
    assert_eq!(meshes[1].1.faces.len(), 576);
}

#[test]
fn setting_a_block_in_a_missing_column_does_nothing() {
    let reg = game_registry();
    let mut h = ChunkHandler::new(0);
    h.update(&at(0, 0, 0), created(&reg, 0, 0, 1));
    let meshes = h.set_block_at(reg.block("stone"), &at(100, 5, 5));
    assert!(meshes.is_empty());
    assert!(h.get_type(&at(100, 5, 5)).is_none());
    let meshes = h.set_block_at(reg.block("stone"), &at(5, 200, 5));
    assert!(meshes.is_empty());
    assert!(h.get_type(&at(5, 200, 5)).is_none());
}

#[test]
fn second_update_waits_for_the_start() {
    let reg = game_registry();
    let mut h = ChunkHandler::new(1);
    h.update(&at(0, 0, 0), created(&reg, 0, 0, 1));
    let out = h.update_on_second(&vec![false]);
    assert!(out.freed.is_empty() && out.remesh.is_empty() && out.to_generate.is_empty());
    assert_eq!(h.loaded_chunks.len(), 1);
}

#[test]
fn second_update_unloads_far_columns() {
    let reg = game_registry();
    let mut h = ChunkHandler::new(0);
    let mut stats = ChunkLoadingStatistic::new();
    h.start(&mut stats, 1);
    for (x, z) in [(-1, -1), (-1, 0), (-1, 1), (0, -1), (0, 0), (0, 1), (1, -1), (1, 0), (1, 1)] {
        h.update(&at(0, 0, 0), created(&reg, x, z, 1));
    }
    assert!(h.has_generated_start);
    h.place_mesh(&RenderChunkLocation::new(1, 0, 1));
    h.place_mesh(&RenderChunkLocation::new(1, 3, 1));
    h.place_mesh(&RenderChunkLocation::new(0, 0, 0));
    h.update(&at(40, 0, 40), None);
    assert_eq!(h.player_chunk_loc, ChunkLocation::new(2, 2));
    let in_range: Vec<bool> =
        h.loaded_chunks.iter().map(|c| c.location.x >= 0 && c.location.z >= 0).collect();
    let out = h.update_on_second(&in_range);
    assert_eq!(h.loaded_chunks.len(), 4);
    assert!(!h.chunk_is_loaded(&ChunkLocation::new(-1, 0)));
    assert!(h.chunk_is_loaded(&ChunkLocation::new(1, 1)));
    assert_eq!(h.draw_chunks.len(), 3);
    for d in h.draw_chunks.iter() {
        assert!(h.chunk_is_loaded(&d.get_chunk_location()));
    }
    assert!(out.freed.is_empty());
    let remeshed: Vec<ChunkLocation> = out.remesh.iter().map(|t| t.chunk.location).collect();
    assert_eq!(
        remeshed,
        vec![ChunkLocation::new(0, 0), ChunkLocation::new(0, 1), ChunkLocation::new(0, 0), ChunkLocation::new(1, 0)]
    );
    assert_eq!(out.to_generate.len(), 9 - 1);
    assert!(!out.to_generate.contains(&ChunkLocation::new(1, 1)));

    let all_out = vec![false; h.loaded_chunks.len()];
    let out = h.update_on_second(&all_out);
    assert!(h.loaded_chunks.is_empty());
    assert!(h.draw_chunks.is_empty());
    assert_eq!(out.freed.len(), 3);
    assert!(out.remesh.is_empty());
    assert_eq!(out.to_generate.len(), 9);
}

#[test]
fn loading_statistic_starts_at_zero() {
    let s = ChunkLoadingStatistic::new();
    assert_eq!((s.chunks_max, s.chunks_generated, s.meshes_generated), (0, 0, 0));
    assert!(!s.has_generated);
}

#[test]
fn shared_chunks_are_the_same_allocation() {
    let reg = game_registry();
    let mut h = ChunkHandler::new(0);
    h.update(&at(0, 0, 0), created(&reg, 0, 0, 1));
    let a = h.get_chunk_for_block_xy(0, 0).unwrap();
    assert!(Arc::ptr_eq(&a, &h.loaded_chunks[0]));
}
