use bika_town::models::components::{
    Direction, Gender, PlayerClass, PlayerState, PlayerStats, Position, PrimaryStat,
};
use bika_town::models::player::{animate_player, draw_player_ui};
use bika_town::rendering::render_queue::composite_key;
use bika_town::rendering::sprites::{DirectionalAnimation, SpriteHolder, SpriteSheet};
use bika_town::rendering::{
    render_queue_items, try_render_queue_items, DestRect, LoadedTexture, RenderError, RenderRequest, SourceRect, TextureId,
};

fn tex(id: u32, width: u32, height: u32) -> LoadedTexture {
    LoadedTexture { id: TextureId(id), width, height }
}

fn animation(base: u32) -> DirectionalAnimation {
    let f: Vec<(String, LoadedTexture)> = ["Up", "Down", "Left", "Right"]
        .iter()
        .enumerate()
        .map(|(d, n)| (n.to_string(), tex(base + d as u32, 48, 16)))
        .collect();
    DirectionalAnimation::new(f, vec![(16, 16); 4]).unwrap()
}

fn holder() -> SpriteHolder {
    let sprites = vec![
        ("warrior_based_ui".to_string(), SpriteSheet::new((100, 40), tex(50, 100, 40))),
        ("health_bar".to_string(), SpriteSheet::new((80, 6), tex(51, 80, 6))),
        ("magic_bar".to_string(), SpriteSheet::new((60, 6), tex(52, 60, 6))),
        ("exp_bar".to_string(), SpriteSheet::new((80, 4), tex(53, 80, 4))),
    ];
    let sets: Vec<DirectionalAnimation> = (0..5u32).map(|i| animation(10 * i)).collect();
    SpriteHolder::from(sprites, vec![("warrior_based".to_string(), sets)])
}

fn position(x: i32, y: i32, direction: Direction) -> Position {
    Position { x, y, velocity: 1, direction }
}

fn stats(h: u32) -> PlayerStats {
    PlayerStats {
        health: PrimaryStat { current: h, max: 50 },
        mana: PrimaryStat { current: 10, max: 20 },
        experience: PrimaryStat { current: 0, max: 20 },
        level: 1,
    }
}

#[test]
fn composite_keys() {
    assert_eq!(composite_key(PlayerClass::Warrior, Gender::Based), "warrior_based");
    assert_eq!(composite_key(PlayerClass::FireMage, Gender::Cringe), "fire_mage_cringe");
}

#[test]
fn emitters_push_requests() {
    let mut q = vec![];
    let p = position(3, 4, Direction::Left);
    animate_player(&p, &PlayerClass::Archer, &Gender::Cringe, &PlayerState::Death, &mut q);
    draw_player_ui(&PlayerClass::Archer, &Gender::Cringe, &stats(5), &mut q);
    assert_eq!(
        q,
        vec![
            RenderRequest::Player {
                class: PlayerClass::Archer,
                gender: Gender::Cringe,
                position: p,
                state: PlayerState::Death,
            },
            RenderRequest::HUD(PlayerClass::Archer, Gender::Cringe, stats(5)),
        ]
    );
}

#[test]
fn hud_draws_panel_then_bars_with_partial_widths() {
    let mut h = holder();
    let mut q = vec![RenderRequest::HUD(PlayerClass::Warrior, Gender::Based, stats(25))];
    let cmds = render_queue_items(&mut q, &mut h);
    assert!(q.is_empty());
    assert_eq!(cmds.len(), 4);
    assert_eq!(cmds[0].texture, TextureId(50));
    assert_eq!(cmds[0].dst, DestRect { x: 0, y: 0, w: 100, h: 40 });
    assert_eq!(cmds[1].texture, TextureId(51));
    assert_eq!(cmds[1].dst, DestRect { x: 49, y: 5, w: 40, h: 6 });
    assert_eq!(cmds[2].texture, TextureId(52));
    assert_eq!(cmds[2].dst, DestRect { x: 61, y: 20, w: 30, h: 6 });
    assert_eq!(cmds[3].texture, TextureId(53));
    assert_eq!(cmds[3].dst, DestRect { x: 49, y: 35, w: 0, h: 4 });
}

#[test]
fn drain_is_fifo_and_advances_animation() {
    let mut h = holder();
    let p = position(8, 9, Direction::Right);
    let mut q = vec![];
    animate_player(&p, &PlayerClass::Warrior, &Gender::Based, &PlayerState::Attack, &mut q);
    draw_player_ui(&PlayerClass::Warrior, &Gender::Based, &stats(50), &mut q);
    animate_player(&p, &PlayerClass::Warrior, &Gender::Based, &PlayerState::Attack, &mut q);
    let cmds = render_queue_items(&mut q, &mut h);
    assert!(q.is_empty());
    assert_eq!(cmds.len(), 6);
    assert_eq!(cmds[0].texture, TextureId(23));
    assert_eq!(cmds[0].src, SourceRect { x: 0, y: 0, w: 16, h: 16 });
    assert_eq!(cmds[0].dst, DestRect { x: 8, y: 9, w: 16, h: 16 });
    assert_eq!(cmds[1].texture, TextureId(50));
    assert_eq!(cmds[2].dst.w, 80);
    assert_eq!(cmds[5].texture, TextureId(23));
    assert_eq!(cmds[5].src.x, 16);
    let mut q2 = vec![];
    animate_player(&p, &PlayerClass::Warrior, &Gender::Based, &PlayerState::Attack, &mut q2);
    let next = render_queue_items(&mut q2, &mut h);
    assert_eq!(next[0].src.x, 32);
}

#[test]
fn draining_empty_queue_is_noop() {
    let mut h = holder();
    let mut q = vec![];
    assert_eq!(render_queue_items(&mut q, &mut h), vec![]);
    assert_eq!(try_render_queue_items(&mut q, &mut h), Ok(vec![]));
    assert!(q.is_empty());
    let mut q2 = vec![];
    animate_player(
        &position(0, 0, Direction::Up),
        &PlayerClass::Warrior,
        &Gender::Based,
        &PlayerState::Idle,
        &mut q2,
    );
    assert_eq!(render_queue_items(&mut q2, &mut h)[0].src.x, 0);
}

#[test]
fn unknown_animation_aborts_frame() {
    let mut h = holder();
    let mut q = vec![];
    animate_player(
        &position(0, 0, Direction::Up),
        &PlayerClass::Mage,
        &Gender::Based,
        &PlayerState::Idle,
        &mut q,
    );
    assert_eq!(try_render_queue_items(&mut q, &mut h), Err(RenderError::UnknownAnimation));
    assert!(q.is_empty());
}

#[test]
fn unknown_sprite_aborts_frame() {
    let mut h = holder();
    let mut q = vec![RenderRequest::HUD(PlayerClass::Mage, Gender::Cringe, stats(1))];
    assert_eq!(try_render_queue_items(&mut q, &mut h), Err(RenderError::UnknownSprite));
}

#[test]
fn empty_sheet_gives_no_cell() {
    let sheet = SpriteSheet::new((16, 16), tex(1, 8, 8));
    let ui = SpriteSheet::new((16, 16), tex(2, 8, 8));
    let f: Vec<(String, LoadedTexture)> = ["Up", "Down", "Left", "Right"]
        .iter()
        .map(|n| (n.to_string(), tex(3, 8, 8)))
        .collect();
    let set = DirectionalAnimation::new(f, vec![(16, 16); 4]).unwrap();
    let mut h = SpriteHolder::from(
        vec![("mage_based_ui".to_string(), ui), ("health_bar".to_string(), sheet)],
        vec![("mage_based".to_string(), vec![set])],
    );
    let mut q = vec![RenderRequest::Player {
        class: PlayerClass::Mage,
        gender: Gender::Based,
        position: position(0, 0, Direction::Up),
        state: PlayerState::Moving,
    }];
    assert_eq!(try_render_queue_items(&mut q, &mut h), Err(RenderError::NoCell));
    let mut q2 = vec![RenderRequest::HUD(PlayerClass::Mage, Gender::Based, stats(1))];
    assert_eq!(try_render_queue_items(&mut q2, &mut h), Err(RenderError::NoCell));
}

#[test]
fn catalog_lookups() {
    let mut h = holder();
    assert_eq!(h.get_sprite("health_bar").unwrap().texture(), TextureId(51));
    assert!(h.get_sprite("nothing").is_none());
    assert_eq!(h.get_directional("warrior_based", 4, Direction::Down).unwrap().texture(), TextureId(41));
    assert!(h.get_directional("warrior_based", 5, Direction::Down).is_none());
    assert!(h.get_directional("mage_based", 0, Direction::Down).is_none());
    let later = SpriteHolder::from(
        vec![
            ("a".to_string(), SpriteSheet::new((1, 1), tex(1, 1, 1))),
            ("a".to_string(), SpriteSheet::new((1, 1), tex(2, 1, 1))),
        ],
        vec![],
    );
    assert_eq!(later.get_sprite("a").unwrap().texture(), TextureId(2));
}

#[test]
fn partial_failure_still_empties_queue() {
    let mut h = holder();
    let mut q = vec![
        RenderRequest::HUD(PlayerClass::Warrior, Gender::Based, stats(50)),
        RenderRequest::HUD(PlayerClass::Archer, Gender::Based, stats(50)),
    ];
    assert_eq!(try_render_queue_items(&mut q, &mut h), Err(RenderError::UnknownSprite));
    assert!(q.is_empty());
}
