use bika_town::models::components::Direction;
use bika_town::models::player::KeyboardState;
use bika_town::models::{Player, PlayerSprites, PlayerState};
use bika_town::rendering::sprites::{AssetError, DirectionalAnimation, SpriteSheet};
use bika_town::rendering::{DestRect, DrawCommand, LoadedTexture, SourceRect, TextureId};
use bika_town::util::directional_dimensions_valid;

fn tex(id: u32, width: u32, height: u32) -> LoadedTexture {
    LoadedTexture { id: TextureId(id), width, height }
}

fn found(names: &[&str]) -> Vec<(String, LoadedTexture)> {
    names
        .iter()
        .enumerate()
        .map(|(i, n)| (n.to_string(), tex(i as u32, 64, 32)))
        .collect()
}

fn dims() -> Vec<(u32, u32)> {
    vec![(16, 16), (16, 16), (32, 16), (32, 16)]
}

#[test]
fn sheet_cuts_row_major_and_truncates() {
    let s = SpriteSheet::new((16, 10), tex(3, 50, 25));
    assert_eq!(s.len(), 6);
    assert_eq!(s.region(0), SourceRect { x: 0, y: 0, w: 16, h: 10 });
    assert_eq!(s.region(2), SourceRect { x: 32, y: 0, w: 16, h: 10 });
    assert_eq!(s.region(3), SourceRect { x: 0, y: 10, w: 16, h: 10 });
    assert_eq!(s.region(5), SourceRect { x: 32, y: 10, w: 16, h: 10 });
    assert_eq!(s.sprite_dimensions(), (16, 10));
    assert_eq!(s.texture(), TextureId(3));
}

#[test]
fn sheet_smaller_than_a_cell_has_no_sprites() {
    let mut s = SpriteSheet::new((64, 64), tex(0, 32, 32));
    assert_eq!(s.len(), 0);
    assert_eq!(s.draw_animated(0, 0), None);
}

#[test]
fn draw_to_and_portion() {
    let s = SpriteSheet::new((20, 8), tex(9, 40, 8));
    assert_eq!(
        s.draw_to(1, 5, -3),
        DrawCommand {
            texture: TextureId(9),
            src: SourceRect { x: 20, y: 0, w: 20, h: 8 },
            dst: DestRect { x: 5, y: -3, w: 20, h: 8 },
        }
    );
    let half = s.draw_portion_of(0, 49, 5, 25, 50);
    assert_eq!(half.dst, DestRect { x: 49, y: 5, w: 10, h: 8 });
    assert_eq!(half.src, SourceRect { x: 0, y: 0, w: 20, h: 8 });
    assert_eq!(s.draw_portion_of(0, 0, 0, 0, 0).dst.w, 0);
    assert_eq!(s.draw_portion_of(1, 0, 0, 1, 1).dst.w, 20);
}

#[test]
fn animation_visits_cells_in_cycle() {
    let mut s = SpriteSheet::new((10, 10), tex(1, 30, 10));
    let mut xs = vec![];
    for _ in 0..7 {
        xs.push(s.draw_animated(4, 4).unwrap().src.x);
    }
    assert_eq!(xs, vec![0, 10, 20, 0, 10, 20, 0]);
}

#[test]
fn animation_with_one_cell_stays_on_it() {
    let mut s = SpriteSheet::new((10, 10), tex(1, 10, 10));
    for _ in 0..3 {
        assert_eq!(s.draw_animated(0, 0).unwrap().src.x, 0);
    }
}

#[test]
fn directional_set_from_all_four_ignores_extra() {
    let a = DirectionalAnimation::new(found(&["Right", "Extra", "Up", "Down", "Left"]), dims()).unwrap();
    assert_eq!(a.0.len(), 4);
    assert_eq!(a.0[0].texture(), TextureId(2));
    assert_eq!(a.0[1].texture(), TextureId(3));
    assert_eq!(a.0[2].texture(), TextureId(4));
    assert_eq!(a.0[3].texture(), TextureId(0));
    assert_eq!(a.0[0].len(), 8);
    assert_eq!(a.0[2].len(), 4);
    assert_eq!(a.0[2].sprite_dimensions(), (32, 16));
}

#[test]
fn directional_set_missing_left_fails() {
    let r = DirectionalAnimation::new(found(&["Up", "Down", "Right", "Extra"]), dims());
    assert_eq!(r.unwrap_err(), AssetError::MissingDirectionalAsset(Direction::Left));
    let r2 = DirectionalAnimation::new(found(&[]), dims());
    assert_eq!(r2.unwrap_err(), AssetError::MissingDirectionalAsset(Direction::Up));
}

#[test]
fn directional_set_later_duplicate_wins() {
    let a = DirectionalAnimation::new(found(&["Up", "Down", "Left", "Right", "Up"]), dims()).unwrap();
    assert_eq!(a.0[0].texture(), TextureId(4));
}

#[test]
fn directional_get_sprite_by_direction() {
    let mut a = DirectionalAnimation::new(found(&["Up", "Down", "Left", "Right"]), dims()).unwrap();
    assert_eq!(a.get_sprite(Direction::Left).texture(), TextureId(2));
    a.get_sprite(Direction::Left).draw_animated(0, 0);
    assert_eq!(a.get_sprite(Direction::Left).draw_animated(0, 0).unwrap().src.x, 32);
}

#[test]
fn dimension_lists_are_checked() {
    assert!(directional_dimensions_valid(&dims()));
    assert!(!directional_dimensions_valid(&vec![(1, 1); 3]));
    assert!(!directional_dimensions_valid(&vec![(1, 1), (1, 0), (1, 1), (1, 1)]));
}

fn player_sprites() -> PlayerSprites {
    let mut sets = vec![];
    for i in 0..5u32 {
        let f: Vec<(String, LoadedTexture)> = ["Up", "Down", "Left", "Right"]
            .iter()
            .enumerate()
            .map(|(d, n)| (n.to_string(), tex(10 * i + d as u32, 32, 16)))
            .collect();
        sets.push(DirectionalAnimation::new(f, vec![(16, 16); 4]).unwrap());
    }
    PlayerSprites::new(sets)
}

fn keys() -> KeyboardState {
    KeyboardState {
        up: false,
        down: false,
        left: false,
        right: false,
        w: false,
        a: false,
        s: false,
        d: false,
        z: false,
        space: false,
    }
}

#[test]
fn player_controls_and_renders() {
    let mut p = Player::new(20, 20, player_sprites());
    let first = p.render_frame().unwrap();
    assert_eq!(first.texture, TextureId(11));
    assert_eq!(first.dst, DestRect { x: 20, y: 20, w: 16, h: 16 });
    let mut k = keys();
    k.right = true;
    assert_eq!(p.control(&k), Ok(()));
    assert_eq!(p.state, PlayerState::Moving);
    assert_eq!(p.direction, Direction::Right);
    let f = p.render_frame().unwrap();
    assert_eq!(f.texture, TextureId(3));
    assert_eq!(f.dst.x, 24);
    assert_eq!(p.render_frame().unwrap().src.x, 16);
    k.right = false;
    k.z = true;
    assert_eq!(p.control(&k), Ok(()));
    assert_eq!(p.state, PlayerState::Attack);
    assert_eq!(p.render_frame().unwrap().texture, TextureId(23));
    assert_eq!(p.control(&keys()), Ok(()));
    assert_eq!(p.state, PlayerState::Idle);
}

#[test]
fn player_move_to_reports_refusals() {
    let mut p = Player::new(0, 0, player_sprites());
    let mut k = keys();
    k.up = true;
    assert!(p.control(&k).is_err());
    assert_eq!(p.state, PlayerState::Moving);
    assert_eq!(p.direction, Direction::Up);
    assert_eq!(p.move_to(4, 4), Err(bika_town::models::player::MoveError::Diagonal));
    assert_eq!(p.move_to(0, 4), Ok(()));
    assert_eq!(p.render_frame().unwrap().dst.y, 4);
    k.up = false;
    k.down = true;
    k.space = true;
    assert_eq!(p.control(&k), Ok(()));
    assert_eq!(p.render_frame().unwrap().dst.y, 12);
}

#[test]
fn space_alone_idles_at_base_speed() {
    let mut p = Player::new(20, 20, player_sprites());
    let mut k = keys();
    k.right = true;
    k.space = true;
    assert_eq!(p.control(&k), Ok(()));
    assert_eq!(p.move_to(36, 20), Ok(()));
    let mut only_space = keys();
    only_space.space = true;
    assert_eq!(p.control(&only_space), Ok(()));
    assert_eq!(p.state, PlayerState::Idle);
    assert_eq!(p.move_to(44, 20), Err(bika_town::models::player::MoveError::TooFar));
    assert_eq!(p.move_to(40, 20), Ok(()));
}
