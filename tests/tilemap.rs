use bika_town::rendering::sprites::SpriteSheet;
use bika_town::rendering::tilemap::{MapError, TileLayer, TileMap};
use bika_town::rendering::{DestRect, LoadedTexture, SourceRect, TextureId};

fn grid(fill: u32) -> Vec<Vec<u32>> {
    vec![vec![fill; 63]; 63]
}

fn sheet() -> SpriteSheet {
    SpriteSheet::new((16, 16), LoadedTexture { id: TextureId(7), width: 160, height: 16 })
}

#[test]
fn gid_resolves_against_second_tileset() {
    let mut g = grid(1);
    g[2][3] = 57;
    let map = TileMap { layers: vec![TileLayer::Finite(g)], tileset_first_gids: vec![1, 50] };
    assert_eq!(map.get_tileset_by_gid(57), Some(1));
    assert_eq!(map.get_tileset_by_gid(49), Some(0));
    assert_eq!(map.get_tileset_by_gid(0), None);
    let cmds = sheet().draw_map(&map);
    assert_eq!(sheet().try_draw_map(&map).unwrap(), cmds);
    assert_eq!(cmds.len(), 63 * 63);
    let c = cmds[2 * 63 + 3];
    assert_eq!(c.src, SourceRect { x: 112, y: 0, w: 16, h: 16 });
    assert_eq!(c.dst, DestRect { x: 48, y: 32, w: 16, h: 16 });
    assert_eq!(c.texture, TextureId(7));
    assert_eq!(cmds[0].src.x, 0);
    assert_eq!(cmds[63 * 63 - 1].dst, DestRect { x: 992, y: 992, w: 16, h: 16 });
}

#[test]
fn tileset_choice_prefers_latest_start_and_earliest_of_equals() {
    let map = TileMap { layers: vec![], tileset_first_gids: vec![50, 1, 50, 200] };
    assert_eq!(map.get_tileset_by_gid(60), Some(0));
    assert_eq!(map.get_tileset_by_gid(10), Some(1));
    assert_eq!(map.get_tileset_by_gid(250), Some(3));
}

#[test]
fn unresolved_gid_fails() {
    let mut g = grid(1);
    g[1][1] = 0;
    let map = TileMap { layers: vec![TileLayer::Finite(g)], tileset_first_gids: vec![1] };
    assert_eq!(sheet().try_draw_map(&map), Err(MapError::UnresolvedGid(0)));
}

#[test]
fn layer_encodings_and_sizes() {
    let none = TileMap { layers: vec![], tileset_first_gids: vec![1] };
    assert_eq!(sheet().try_draw_map(&none), Err(MapError::NoLayer));
    let streamed = TileMap { layers: vec![TileLayer::Infinite], tileset_first_gids: vec![1] };
    assert_eq!(sheet().try_draw_map(&streamed), Err(MapError::UnsupportedLayerEncoding));
    let small = TileMap { layers: vec![TileLayer::Finite(vec![vec![1; 63]; 10])], tileset_first_gids: vec![1] };
    assert_eq!(sheet().try_draw_map(&small), Err(MapError::MapTooSmall));
    let far = TileMap { layers: vec![TileLayer::Finite(grid(30))], tileset_first_gids: vec![1] };
    assert_eq!(sheet().try_draw_map(&far), Err(MapError::NoCell(30)));
}

#[test]
fn tilesets_starting_past_i32_max_are_never_chosen() {
    let map = TileMap { layers: vec![], tileset_first_gids: vec![1, 0x8000_0000] };
    assert_eq!(map.get_tileset_by_gid(0x8000_0005), Some(0));
    let only_high = TileMap { layers: vec![], tileset_first_gids: vec![0x8000_0000] };
    assert_eq!(only_high.get_tileset_by_gid(0x9000_0000), None);
    let at_max = TileMap { layers: vec![], tileset_first_gids: vec![1, 0x7fff_ffff] };
    assert_eq!(at_max.get_tileset_by_gid(0x7fff_ffff), Some(1));
}
