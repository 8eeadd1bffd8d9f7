use vstd::prelude::*;

use super::components::{
    Direction, Gender, Input, IsPlayerCharacter, PlayerClass, PlayerState, PlayerStats, Position,
};
use crate::rendering::render_queue::RenderRequest;
use crate::rendering::{MAP_HEIGHT, MAP_WIDTH};

verus! {

/// Whether a refused move still leaves the entity in the `Moving` state.
/// On by default; whether a refused move should change the activity at all
/// is an open product question, so the choice is kept in one place.
pub const REJECTED_MOVE_SETS_MOVING: bool = true;

/// Why a move was refused.
#[derive(Clone, Copy, Debug, PartialEq, Eq, Structural)]
pub enum MoveError {
    /// The target lies outside `[0, MAP_WIDTH) x [0, MAP_HEIGHT)`.
    OffBoard,
    /// Both coordinates would change.
    Diagonal,
    /// The move is longer than one step of `velocity * 4` pixels.
    TooFar,
}

/// The length in pixels of one step at the position's velocity.
pub open spec fn step_len(p: Position) -> int {
    4 * p.velocity
}

pub open spec fn in_bounds(x: int, y: int) -> bool {
    0 <= x < MAP_WIDTH && 0 <= y < MAP_HEIGHT
}

pub open spec fn abs(v: int) -> int {
    if v < 0 {
        -v
    } else {
        v
    }
}

/// The verdict on moving from `p` to `(x, y)`: off the board first, then
/// diagonal, then longer than one step.
pub open spec fn move_check(p: Position, x: int, y: int) -> Result<(), MoveError> {
    if !in_bounds(x, y) {
        Err(MoveError::OffBoard)
    } else if x != p.x && y != p.y {
        Err(MoveError::Diagonal)
    } else if abs(x - p.x) > step_len(p) || abs(y - p.y) > step_len(p) {
        Err(MoveError::TooFar)
    } else {
        Ok(())
    }
}

/// Where `p` stands after trying to move to `(x, y)`.
pub open spec fn moved_position(p: Position, x: int, y: int) -> Position {
    if move_check(p, x, y) is Ok {
        Position { x: x as i32, y: y as i32, ..p }
    } else {
        p
    }
}

/// The activity after a move attempt that succeeded or not.
pub open spec fn state_after_move(ok: bool, old: PlayerState) -> PlayerState {
    if ok || REJECTED_MOVE_SETS_MOVING {
        PlayerState::Moving
    } else {
        old
    }
}

/// The target of one step from `p` towards `d`.
pub open spec fn step_target(p: Position, d: Direction) -> (int, int) {
    match d {
        Direction::Up => (p.x as int, p.y - step_len(p)),
        Direction::Down => (p.x as int, p.y + step_len(p)),
        Direction::Left => (p.x - step_len(p), p.y as int),
        Direction::Right => (p.x + step_len(p), p.y as int),
    }
}

/// One step towards `d`: the move is tried and the entity faces `d` whatever
/// the outcome.
pub open spec fn step_towards(p: Position, s: PlayerState, d: Direction) -> (Position, PlayerState) {
    let (x, y) = step_target(p, d);
    (
        Position { direction: d, ..moved_position(p, x, y) },
        state_after_move(move_check(p, x, y) is Ok, s),
    )
}

fn try_move(position: &mut Position, state: &mut PlayerState, x: i64, y: i64) -> (r: Result<
    (),
    MoveError,
>)
    ensures
        r == move_check(*old(position), x as int, y as int),
        *final(position) == moved_position(*old(position), x as int, y as int),
        *final(state) == state_after_move(r is Ok, *old(state)),
{
    let result = if x < 0 || x >= MAP_WIDTH as i64 || y < 0 || y >= MAP_HEIGHT as i64 {
        Err(MoveError::OffBoard)
    } else {
        let dx: i64 = if position.x as i64 >= x {
            position.x as i64 - x
        } else {
            x - position.x as i64
        };
        let dy: i64 = if position.y as i64 >= y {
            position.y as i64 - y
        } else {
            y - position.y as i64
        };
        let step: i64 = 4 * position.velocity as i64;
        if dx != 0 && dy != 0 {
            Err(MoveError::Diagonal)
        } else if dx > step || dy > step {
            Err(MoveError::TooFar)
        } else {
            Ok(())
        }
    };
    if result.is_ok() {
        position.x = x as i32;
        position.y = y as i32;
    }
    if result.is_ok() || REJECTED_MOVE_SETS_MOVING {
        *state = PlayerState::Moving;
    }
    result
}

/// Tries to move to `(x, y)`. The move is refused, and the position kept, when
/// the target is off the board, diagonal, or longer than one step; the state
/// becomes `Moving` either way.
pub fn move_to(position: &mut Position, state: &mut PlayerState, x: i32, y: i32) -> (r: Result<
    (),
    MoveError,
>)
    ensures
        r == move_check(*old(position), x as int, y as int),
        *final(position) == moved_position(*old(position), x as int, y as int),
        *final(state) == state_after_move(r is Ok, *old(state)),
{
    try_move(position, state, x as i64, y as i64)
}

/// Takes one step of `velocity * 4` pixels towards `direction` and turns to
/// face it.
pub fn handle_movement_input(direction: &Direction, position: &mut Position, state: &mut PlayerState) -> (r: Result<
    (),
    MoveError,
>)
    ensures
        r == move_check(
            *old(position),
            step_target(*old(position), *direction).0,
            step_target(*old(position), *direction).1,
        ),
        (*final(position), *final(state)) == step_towards(*old(position), *old(state), *direction),
{
    let move_by: i64 = position.velocity as i64 * 4;
    let x: i64 = position.x as i64;
    let y: i64 = position.y as i64;
    let r = match direction {
        Direction::Up => try_move(position, state, x, y - move_by),
        Direction::Down => try_move(position, state, x, y + move_by),
        Direction::Left => try_move(position, state, x - move_by, y),
        Direction::Right => try_move(position, state, x + move_by, y),
    };
    position.direction = *direction;
    r
}

/// Whether the inputs hold a move or an attack.
pub open spec fn has_action(inputs: Seq<Input>) -> bool {
    exists|i: int| 0 <= i < inputs.len() && (inputs[i] is Move || inputs[i] is Attack)
}

/// Whether the inputs hold a run.
pub open spec fn has_run(inputs: Seq<Input>) -> bool {
    exists|i: int| 0 <= i < inputs.len() && inputs[i] is Run
}

/// What one input does to an entity's position and activity. The velocity of
/// the tick is settled before any input applies, so a run only matters there.
pub open spec fn apply_input(s: (Position, PlayerState), input: Input) -> (Position, PlayerState) {
    match input {
        Input::Move(d) => step_towards(s.0, s.1, d),
        Input::Attack => (s.0, PlayerState::Attack),
        Input::Run => s,
        Input::Quit => s,
    }
}

/// The inputs applied one after another, in queue order.
pub open spec fn apply_inputs(s: (Position, PlayerState), inputs: Seq<Input>) -> (Position, PlayerState)
    decreases inputs.len(),
{
    if inputs.len() == 0 {
        s
    } else {
        apply_input(apply_inputs(s, inputs.drop_last()), inputs.last())
    }
}

/// One tick of the input system: the velocity is 2 when a run was asked for and
/// 1 otherwise; with no move or attack the entity goes idle; then every input
/// applies in queue order.
pub open spec fn player_tick(p: Position, s: PlayerState, inputs: Seq<Input>) -> (Position, PlayerState) {
    let start = Position { velocity: if has_run(inputs) { 2 } else { 1 }, ..p };
    let activity = if has_action(inputs) { s } else { PlayerState::Idle };
    apply_inputs((start, activity), inputs)
}

/// Runs one tick of input for an entity, draining the whole input queue.
pub fn player_input(position: &mut Position, state: &mut PlayerState, input: &mut Vec<Input>)
    ensures
        final(input)@ == Seq::<Input>::empty(),
        (*final(position), *final(state)) == player_tick(*old(position), *old(state), old(input)@),
{
    let n = input.len();
    let mut run = false;
    let mut action = false;
    let mut i: usize = 0;
    while i < n
        invariant
            n == input@.len(),
            i <= n,
            run == has_run(input@.take(i as int)),
            action == has_action(input@.take(i as int)),
        decreases n - i,
    {
        proof {
            let t = input@.take(i as int + 1);
            assert(t.drop_last() =~= input@.take(i as int));
            assert(t.last() == input@[i as int]);
            if has_run(t) {
                let j = choose|j: int| 0 <= j < t.len() && t[j] is Run;
                if j < i {
                    assert(input@.take(i as int)[j] == t[j]);
                }
            }
            if has_action(t) {
                let j = choose|j: int| 0 <= j < t.len() && (t[j] is Move || t[j] is Attack);
                if j < i {
                    assert(input@.take(i as int)[j] == t[j]);
                }
            }
            if has_run(input@.take(i as int)) {
                let j = choose|j: int| 0 <= j < i && input@.take(i as int)[j] is Run;
                assert(t[j] == input@.take(i as int)[j]);
            }
            if has_action(input@.take(i as int)) {
                let j = choose|j: int|
                    0 <= j < i && (input@.take(i as int)[j] is Move || input@.take(i as int)[j] is Attack);
                assert(t[j] == input@.take(i as int)[j]);
            }
        }
        match input[i] {
            Input::Run => {
                run = true;
            },
            Input::Move(_) => {
                action = true;
            },
            Input::Attack => {
                action = true;
            },
            Input::Quit => {},
        }
        proof {
            assert(input@.take(i as int + 1)[i as int] == input@[i as int]);
        }
        i = i + 1;
    }
    assert(input@.take(n as int) =~= input@);
    position.velocity = if run { 2 } else { 1 };
    if !action {
        *state = PlayerState::Idle;
    }
    let ghost start = (*position, *state);
    let mut k: usize = 0;
    while k < n
        invariant
            n == input@.len(),
            k <= n,
            input@ == old(input)@,
            start == ((Position { velocity: if has_run(input@) { 2 } else { 1 }, ..*old(position) }), (
                if has_action(input@) { *old(state) } else { PlayerState::Idle })),
            (*position, *state) == apply_inputs(start, input@.take(k as int)),
        decreases n - k,
    {
        proof {
            assert(input@.take(k as int + 1).drop_last() =~= input@.take(k as int));
        }
        match input[k] {
            Input::Move(d) => {
                let _ = handle_movement_input(&d, position, state);
            },
            Input::Attack => {
                *state = PlayerState::Attack;
            },
            Input::Run => {},
            Input::Quit => {},
        }
        k = k + 1;
    }
    assert(input@.take(n as int) =~= input@);
    input.clear();
}

/// The components of a new player character: it starts where it is told,
/// facing down at base speed, idle, with default stats.
pub fn new(starting_position: (i32, i32), class: PlayerClass, gender: Gender) -> (r: (
    IsPlayerCharacter,
    PlayerClass,
    Gender,
    PlayerStats,
    Position,
    PlayerState,
))
    ensures
        r.1 == class,
        r.2 == gender,
        r.3.health == (super::components::PrimaryStat { current: 50, max: 50 }),
        r.3.mana == (super::components::PrimaryStat { current: 20, max: 20 }),
        r.3.experience == (super::components::PrimaryStat { current: 0, max: 20 }),
        r.3.level == 1,
        r.4 == (Position {
            x: starting_position.0,
            y: starting_position.1,
            velocity: 1,
            direction: Direction::Down,
        }),
        r.5 == PlayerState::Idle,
{
    let (x, y) = starting_position;
    let position = Position { x, y, velocity: 1, direction: Direction::Down };
    let state = PlayerState::Idle;
    let stats = PlayerStats::default();
    (IsPlayerCharacter, class, gender, stats, position, state)
}

/// Which keys are held down this tick.
#[derive(Clone, Copy, Debug, PartialEq, Eq, Structural)]
pub struct KeyboardState {
    pub up: bool,
    pub down: bool,
    pub left: bool,
    pub right: bool,
    pub w: bool,
    pub a: bool,
    pub s: bool,
    pub d: bool,
    pub z: bool,
    pub space: bool,
}

/// The inputs that the held keys give: at most one move or attack, the arrows
/// and WASD taking precedence in the order up, down, left, right, then Z for
/// an attack; and a run while space is held.
pub open spec fn key_inputs(k: KeyboardState) -> Seq<Input> {
    let first = if k.up || k.w {
        seq![Input::Move(Direction::Up)]
    } else if k.down || k.s {
        seq![Input::Move(Direction::Down)]
    } else if k.left || k.a {
        seq![Input::Move(Direction::Left)]
    } else if k.right || k.d {
        seq![Input::Move(Direction::Right)]
    } else if k.z {
        seq![Input::Attack]
    } else {
        Seq::empty()
    };
    if k.space {
        first.push(Input::Run)
    } else {
        first
    }
}

/// Appends to the input queue the inputs that the held keys give.
pub fn handle_input(keys: &KeyboardState, input_vector: &mut Vec<Input>)
    ensures
        final(input_vector)@ == old(input_vector)@ + key_inputs(*keys),
{
    let ghost before = input_vector@;
    if keys.up || keys.w {
        input_vector.push(Input::Move(Direction::Up));
    } else if keys.down || keys.s {
        input_vector.push(Input::Move(Direction::Down));
    } else if keys.left || keys.a {
        input_vector.push(Input::Move(Direction::Left));
    } else if keys.right || keys.d {
        input_vector.push(Input::Move(Direction::Right));
    } else if keys.z {
        input_vector.push(Input::Attack);
    }
    if keys.space {
        input_vector.push(Input::Run);
    }
    assert(input_vector@ =~= before + key_inputs(*keys));
}

/// Queues the drawing of an entity's current animation frame.
pub fn animate_player(
    position: &Position,
    class: &PlayerClass,
    gender: &Gender,
    state: &PlayerState,
    render_queue: &mut Vec<RenderRequest>,
)
    ensures
        final(render_queue)@ == old(render_queue)@.push(
            RenderRequest::Player { class: *class, gender: *gender, position: *position, state: *state },
        ),
{
    let render_request = RenderRequest::Player {
        class: *class,
        gender: *gender,
        position: *position,
        state: *state,
    };
    render_queue.push(render_request);
}

/// Queues the drawing of a player's HUD.
pub fn draw_player_ui(
    class: &PlayerClass,
    gender: &Gender,
    stats: &PlayerStats,
    render_queue: &mut Vec<RenderRequest>,
)
    ensures
        final(render_queue)@ == old(render_queue)@.push(RenderRequest::HUD(*class, *gender, *stats)),
{
    render_queue.push(RenderRequest::HUD(*class, *gender, *stats));
}

/// A move along one axis, of at most one step, from a position on the board
/// to a target on the board succeeds and moves the entity by exactly that
/// delta, keeping its speed and facing.
pub proof fn lemma_single_axis_step_succeeds(p: Position, dx: int, dy: int)
    requires
        in_bounds(p.x as int, p.y as int),
        dx == 0 || dy == 0,
        abs(dx) <= step_len(p),
        abs(dy) <= step_len(p),
        in_bounds(p.x + dx, p.y + dy),
    ensures
        move_check(p, p.x + dx, p.y + dy) == Ok::<(), MoveError>(()),
        moved_position(p, p.x + dx, p.y + dy) == (Position {
            x: (p.x + dx) as i32,
            y: (p.y + dy) as i32,
            ..p
        }),
{
}

/// A diagonal move, or one longer than a step, is refused and leaves the
/// position as it was.
pub proof fn lemma_diagonal_or_long_move_refused(p: Position, dx: int, dy: int)
    requires
        (dx != 0 && dy != 0) || abs(dx) > step_len(p) || abs(dy) > step_len(p),
    ensures
        move_check(p, p.x + dx, p.y + dy) is Err,
        moved_position(p, p.x + dx, p.y + dy) == p,
{
}

/// An entity on the board stays on the board whatever inputs a tick brings:
/// the only moves taken are those whose target is on the board.
pub proof fn lemma_tick_stays_on_board(p: Position, s: PlayerState, inputs: Seq<Input>)
    requires
        in_bounds(p.x as int, p.y as int),
    ensures
        in_bounds(player_tick(p, s, inputs).0.x as int, player_tick(p, s, inputs).0.y as int),
{
    let start = Position { velocity: if has_run(inputs) { 2 } else { 1 }, ..p };
    let activity = if has_action(inputs) { s } else { PlayerState::Idle };
    lemma_inputs_stay_on_board((start, activity), inputs);
}

proof fn lemma_inputs_stay_on_board(st: (Position, PlayerState), inputs: Seq<Input>)
    requires
        in_bounds(st.0.x as int, st.0.y as int),
    ensures
        in_bounds(apply_inputs(st, inputs).0.x as int, apply_inputs(st, inputs).0.y as int),
    decreases inputs.len(),
{
    if inputs.len() > 0 {
        lemma_inputs_stay_on_board(st, inputs.drop_last());
    }
}

} // verus!
