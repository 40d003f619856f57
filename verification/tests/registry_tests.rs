use block_world::block::block_registry::BlockRegistry;
use block_world::block::block_type::BlockType;
use block_world::block::texture_coords::{TexTile, TextureCoords};

fn game_registry() -> BlockRegistry {
    let mut reg = BlockRegistry::new();
    reg.add_all_types();
    reg
}

#[test]
fn new_registry_is_empty() {
    let reg = BlockRegistry::new();
    assert!(reg.blocks.is_empty());
    assert!(reg.get("air").is_none());
}

#[test]
fn all_types_are_registered_once() {
    let reg = game_registry();
    let ids = [
        "air", "dirt", "grass", "stone", "log", "cobble", "leaves", "glass", "plank", "sand", "snow",
    ];
    assert_eq!(reg.blocks.len(), ids.len());
    for (i, id) in ids.iter().enumerate() {
        assert_eq!(reg.blocks[i].id, *id);
        let b = reg.get(id).unwrap();
        assert_eq!(b.id, *id);
        assert!(b.is_default_model);
    }
}

#[test]
fn block_flags_and_tiles() {
    let reg = game_registry();
    let air = reg.get("air").unwrap();
    assert!(air.is_air && air.is_transparent);
    assert_eq!(air.tex_coords, TextureCoords::new_default());
    let dirt = reg.block("dirt");
    assert!(!dirt.is_air && !dirt.is_transparent);
    assert_eq!(dirt.tex_coords.up, TexTile::At { column: 0, row: 0 });
    let leaves = reg.block("leaves");
    assert!(!leaves.is_air && leaves.is_transparent);
    assert_eq!(leaves.tex_coords.north, TexTile::At { column: 6, row: 0 });
    let glass = reg.block("glass");
    assert!(glass.is_transparent);
    let snow = reg.block("snow");
    assert_eq!(snow.tex_coords.down, TexTile::At { column: 10, row: 0 });
}

#[test]
fn missing_id_is_not_found() {
    let reg = game_registry();
    assert!(reg.get("diamond").is_none());
}

#[test]
fn registering_an_id_again_replaces_it() {
    let mut reg = game_registry();
    let before = reg.blocks.len();
    reg.register_type(BlockType {
        id: "dirt".to_string(),
        tex_coords: TextureCoords::new_from_one(TexTile::At { column: 12, row: 1 }),
        is_air: false,
        is_transparent: true,
        is_default_model: true,
    });
    assert_eq!(reg.blocks.len(), before);
    let dirt = reg.block("dirt");
    assert!(dirt.is_transparent);
    assert_eq!(dirt.tex_coords.west, TexTile::At { column: 12, row: 1 });
    assert!(!reg.block("stone").is_transparent);
}

#[test]
fn registering_a_new_id_adds_it() {
    let mut reg = game_registry();
    reg.register_all(vec![BlockType {
        id: "brick".to_string(),
        tex_coords: TextureCoords::new_sides_top(
            TexTile::At { column: 1, row: 2 },
            TexTile::At { column: 3, row: 4 },
        ),
        is_air: false,
        is_transparent: false,
        is_default_model: true,
    }]);
    assert_eq!(reg.blocks.len(), 12);
    let brick = reg.block("brick");
    assert_eq!(brick.tex_coords.up, TexTile::At { column: 3, row: 4 });
    assert_eq!(brick.tex_coords.down, TexTile::At { column: 1, row: 2 });
    assert_eq!(brick.tex_coords.south, TexTile::At { column: 1, row: 2 });
}

#[test]
fn texture_coordinate_builders() {
    let t = TextureCoords::new_sides_top_bottom(
        TexTile::At { column: 1, row: 0 },
        TexTile::At { column: 2, row: 0 },
        TexTile::At { column: 3, row: 0 },
    );
    assert_eq!(t.up, TexTile::At { column: 2, row: 0 });
    assert_eq!(t.down, TexTile::At { column: 3, row: 0 });
    assert_eq!(t.east, TexTile::At { column: 1, row: 0 });
    let d = TextureCoords::new_default();
    assert_eq!(d.up, TexTile::Default);
}
