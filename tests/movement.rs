use bika_town::models::components::{
    Direction, Gender, Input, PlayerClass, PlayerState, PlayerStats, Position, PrimaryStat,
};
use bika_town::models::player::{
    handle_input, handle_movement_input, move_to, new, player_input, KeyboardState, MoveError,
};
use bika_town::rendering::{MAP_HEIGHT, MAP_WIDTH};

fn pos(x: i32, y: i32, velocity: i32, direction: Direction) -> Position {
    Position { x, y, velocity, direction }
}

fn no_keys() -> KeyboardState {
    KeyboardState {
        up: false,
        down: false,
        left: false,
        right: false,
        w: false,
        a: false,
        s: false,
        d: false,
        z: false,
        space: false,
    }
}

#[test]
fn move_up_from_origin_is_rejected_but_marks_moving() {
    let mut p = pos(0, 0, 1, Direction::Down);
    let mut state = PlayerState::Idle;
    let mut inputs = vec![Input::Move(Direction::Up)];
    player_input(&mut p, &mut state, &mut inputs);
    assert_eq!((p.x, p.y), (0, 0));
    assert_eq!(p.direction, Direction::Up);
    assert_eq!(state, PlayerState::Moving);
    assert!(inputs.is_empty());
}

#[test]
fn move_right_from_twenty_twenty() {
    let mut p = pos(20, 20, 1, Direction::Down);
    let mut state = PlayerState::Idle;
    let mut inputs = vec![Input::Move(Direction::Right)];
    player_input(&mut p, &mut state, &mut inputs);
    assert_eq!((p.x, p.y), (24, 20));
    assert_eq!(p.direction, Direction::Right);
    assert_eq!(state, PlayerState::Moving);
}

#[test]
fn move_to_off_board_reports_error() {
    let mut p = pos(0, 0, 1, Direction::Down);
    let mut state = PlayerState::Idle;
    assert_eq!(move_to(&mut p, &mut state, 0, -4), Err(MoveError::OffBoard));
    assert_eq!((p.x, p.y), (0, 0));
    assert_eq!(state, PlayerState::Moving);
    let edge = MAP_WIDTH as i32;
    let mut q = pos(edge - 1, 0, 1, Direction::Right);
    assert_eq!(move_to(&mut q, &mut state, edge, 0), Err(MoveError::OffBoard));
    let bottom = MAP_HEIGHT as i32;
    let mut r = pos(0, bottom - 2, 1, Direction::Down);
    assert_eq!(move_to(&mut r, &mut state, 0, bottom - 1), Ok(()));
    assert_eq!(r.y, bottom - 1);
}

#[test]
fn move_to_single_axis_unit_steps_succeed() {
    for (dx, dy) in [(4, 0), (-4, 0), (0, 4), (0, -4), (1, 0), (0, -3)] {
        let mut p = pos(100, 100, 1, Direction::Down);
        let mut state = PlayerState::Idle;
        assert_eq!(move_to(&mut p, &mut state, 100 + dx, 100 + dy), Ok(()));
        assert_eq!((p.x, p.y), (100 + dx, 100 + dy));
        assert_eq!(p.velocity, 1);
        assert_eq!(p.direction, Direction::Down);
        assert_eq!(state, PlayerState::Moving);
    }
}

#[test]
fn move_to_diagonal_is_rejected() {
    let mut p = pos(100, 100, 1, Direction::Down);
    let mut state = PlayerState::Idle;
    assert_eq!(move_to(&mut p, &mut state, 104, 104), Err(MoveError::Diagonal));
    assert_eq!((p.x, p.y), (100, 100));
    assert_eq!(state, PlayerState::Moving);
}

#[test]
fn move_to_longer_than_a_step_is_rejected() {
    let mut p = pos(100, 100, 1, Direction::Down);
    let mut state = PlayerState::Idle;
    assert_eq!(move_to(&mut p, &mut state, 108, 100), Err(MoveError::TooFar));
    assert_eq!((p.x, p.y), (100, 100));
    let mut fast = pos(100, 100, 2, Direction::Down);
    assert_eq!(move_to(&mut fast, &mut state, 108, 100), Ok(()));
    assert_eq!(fast.x, 108);
}

#[test]
fn movement_input_turns_even_when_refused() {
    let mut p = pos(0, 50, 1, Direction::Down);
    let mut state = PlayerState::Idle;
    assert_eq!(handle_movement_input(&Direction::Left, &mut p, &mut state), Err(MoveError::OffBoard));
    assert_eq!(p.direction, Direction::Left);
    assert_eq!((p.x, p.y), (0, 50));
    assert_eq!(handle_movement_input(&Direction::Down, &mut p, &mut state), Ok(()));
    assert_eq!((p.x, p.y), (0, 54));
}

#[test]
fn empty_input_goes_idle_at_base_speed() {
    let mut p = pos(40, 40, 2, Direction::Left);
    let mut state = PlayerState::Moving;
    let mut inputs: Vec<Input> = vec![];
    player_input(&mut p, &mut state, &mut inputs);
    assert_eq!(state, PlayerState::Idle);
    assert_eq!(p.velocity, 1);
    assert_eq!((p.x, p.y), (40, 40));
}

#[test]
fn run_doubles_the_step_for_the_tick() {
    let mut p = pos(40, 40, 1, Direction::Left);
    let mut state = PlayerState::Idle;
    let mut inputs = vec![Input::Move(Direction::Down), Input::Run];
    player_input(&mut p, &mut state, &mut inputs);
    assert_eq!((p.x, p.y), (40, 48));
    assert_eq!(p.velocity, 2);
    let mut next = vec![Input::Move(Direction::Down)];
    player_input(&mut p, &mut state, &mut next);
    assert_eq!(p.velocity, 1);
    assert_eq!((p.x, p.y), (40, 52));
}

#[test]
fn run_alone_idles_at_double_speed() {
    let mut p = pos(40, 40, 1, Direction::Left);
    let mut state = PlayerState::Attack;
    let mut inputs = vec![Input::Run, Input::Quit];
    player_input(&mut p, &mut state, &mut inputs);
    assert_eq!(state, PlayerState::Idle);
    assert_eq!(p.velocity, 2);
}

#[test]
fn attack_sets_attack_state_without_moving() {
    let mut p = pos(40, 40, 1, Direction::Left);
    let mut state = PlayerState::Idle;
    let mut inputs = vec![Input::Attack];
    player_input(&mut p, &mut state, &mut inputs);
    assert_eq!(state, PlayerState::Attack);
    assert_eq!((p.x, p.y), (40, 40));
}

#[test]
fn inputs_apply_in_queue_order_and_last_move_wins() {
    let mut p = pos(40, 40, 1, Direction::Down);
    let mut state = PlayerState::Idle;
    let mut inputs = vec![
        Input::Move(Direction::Right),
        Input::Attack,
        Input::Move(Direction::Up),
    ];
    player_input(&mut p, &mut state, &mut inputs);
    assert_eq!((p.x, p.y), (44, 36));
    assert_eq!(p.direction, Direction::Up);
    assert_eq!(state, PlayerState::Moving);
    let mut again = vec![Input::Move(Direction::Left), Input::Attack];
    player_input(&mut p, &mut state, &mut again);
    assert_eq!((p.x, p.y), (40, 36));
    assert_eq!(state, PlayerState::Attack);
}

#[test]
fn keys_map_to_inputs_in_priority_order() {
    let mut v = vec![];
    let mut k = no_keys();
    handle_input(&k, &mut v);
    assert!(v.is_empty());
    k.w = true;
    k.down = true;
    k.space = true;
    handle_input(&k, &mut v);
    assert_eq!(v, vec![Input::Move(Direction::Up), Input::Run]);
    let mut k2 = no_keys();
    k2.d = true;
    k2.z = true;
    handle_input(&k2, &mut v);
    assert_eq!(v[2], Input::Move(Direction::Right));
    assert_eq!(v.len(), 3);
    let mut k3 = no_keys();
    k3.z = true;
    handle_input(&k3, &mut v);
    assert_eq!(v[3], Input::Attack);
    let mut k4 = no_keys();
    k4.a = true;
    k4.s = true;
    handle_input(&k4, &mut v);
    assert_eq!(v[4], Input::Move(Direction::Down));
}

#[test]
fn new_player_starts_idle_facing_down() {
    let (_, class, gender, stats, position, state) = new((7, 9), PlayerClass::Mage, Gender::Cringe);
    assert_eq!(class, PlayerClass::Mage);
    assert_eq!(gender, Gender::Cringe);
    assert_eq!(stats, PlayerStats::default());
    assert_eq!(position, pos(7, 9, 1, Direction::Down));
    assert_eq!(state, PlayerState::Idle);
}

#[test]
fn default_stats() {
    let s = PlayerStats::default();
    assert_eq!(s.health, PrimaryStat { current: 50, max: 50 });
    assert_eq!(s.mana, PrimaryStat { current: 20, max: 20 });
    assert_eq!(s.experience, PrimaryStat { current: 0, max: 20 });
    assert_eq!(s.level, 1);
}
