use vstd::prelude::*;

pub mod components;
pub mod player;

pub use components::{Direction, PlayerState};

use crate::rendering::sprites::{directional_wf, DirectionalAnimation, SheetView};
use crate::rendering::DrawCommand;
use components::Position;
use player::{
    handle_movement_input, move_check, move_to, moved_position, state_after_move, step_target,
    step_towards, KeyboardState, MoveError,
};

verus! {

/// A player's five animation sets, one per activity in the order Moving,
/// Idle, Attack, Death, TakingDamage.
#[derive(Debug)]
pub struct PlayerSprites {
    sprites: Vec<DirectionalAnimation>,
}

impl View for PlayerSprites {
    type V = Seq<Seq<SheetView>>;

    closed spec fn view(&self) -> Seq<Seq<SheetView>> {
        self.sprites@.map_values(|a: DirectionalAnimation| a@)
    }
}

impl PlayerSprites {
    pub open spec fn wf(&self) -> bool {
        &&& self@.len() == 5
        &&& forall|i: int| 0 <= i < 5 ==> directional_wf(#[trigger] self@[i])
    }

    /// Gathers the five sets, given in activity order.
    pub fn new(sprites: Vec<DirectionalAnimation>) -> (r: PlayerSprites)
        requires
            sprites@.len() == 5,
            forall|i: int| 0 <= i < 5 ==> (#[trigger] sprites@[i]).wf(),
        ensures
            r.wf(),
            r@ == sprites@.map_values(|a: DirectionalAnimation| a@),
    {
        PlayerSprites { sprites }
    }

    /// The animation set played in `state`.
    pub fn get_sprites(&mut self, state: PlayerState) -> (r: &mut DirectionalAnimation)
        requires
            old(self).wf(),
        ensures
            r@ == old(self)@[state.spec_index()],
            final(self)@ == old(self)@.update(state.spec_index(), final(r)@),
    {
        let i = state.index();
        let r = &mut self.sprites[i];
        assert(after_borrow(self)@ =~= old(self)@.update(i as int, final(r)@));
        r
    }
}

/// A player character driven directly by the keyboard.
#[derive(Debug)]
pub struct Player {
    x: i32,
    y: i32,
    movement_speed: i32,
    pub direction: Direction,
    sprites: PlayerSprites,
    pub state: PlayerState,
}

impl Player {
    /// Where the player stands, its speed and facing.
    pub closed spec fn position(&self) -> Position {
        Position { x: self.x, y: self.y, velocity: self.movement_speed, direction: self.direction }
    }

    /// The player's activity.
    pub closed spec fn activity(&self) -> PlayerState {
        self.state
    }

    pub closed spec fn animations(&self) -> Seq<Seq<SheetView>> {
        self.sprites@
    }

    pub open spec fn wf(&self) -> bool {
        &&& self.animations().len() == 5
        &&& forall|i: int| 0 <= i < 5 ==> directional_wf(#[trigger] self.animations()[i])
    }

    /// A player at (x, y), facing down at base speed, idle.
    pub fn new(x: i32, y: i32, sprites: PlayerSprites) -> (r: Player)
        requires
            sprites.wf(),
        ensures
            r.wf(),
            r.position() == (Position { x, y, velocity: 1, direction: Direction::Down }),
            r.activity() == PlayerState::Idle,
            r.animations() == sprites@,
    {
        Player {
            x,
            y,
            movement_speed: 1,
            sprites,
            direction: Direction::Down,
            state: PlayerState::Idle,
        }
    }

    fn get_position(&self) -> (r: Position)
        ensures
            r == self.position(),
    {
        Position { x: self.x, y: self.y, velocity: self.movement_speed, direction: self.direction }
    }

    fn set_position(&mut self, p: Position)
        ensures
            final(self).position() == p,
            final(self).activity() == old(self).activity(),
            final(self).animations() == old(self).animations(),
    {
        self.x = p.x;
        self.y = p.y;
        self.movement_speed = p.velocity;
        self.direction = p.direction;
    }

    /// Draws the next frame of the animation of the player's activity and
    /// facing at its position, moving that animation on by one frame.
    pub fn render_frame(&mut self) -> (r: Option<DrawCommand>)
        requires
            old(self).wf(),
        ensures
            final(self).wf(),
            final(self).position() == old(self).position(),
            final(self).activity() == old(self).activity(),
            ({
                let m = old(self).activity().spec_index();
                let d = old(self).position().direction.spec_index();
                let sheet = old(self).animations()[m][d];
                &&& sheet.cells.len() > 0 ==> r == Some(
                    sheet.draw(sheet.cursor, old(self).position().x, old(self).position().y),
                ) && final(self).animations() == old(self).animations().update(
                    m,
                    old(self).animations()[m].update(d, sheet.advance()),
                )
                &&& sheet.cells.len() == 0 ==> r is None && final(self).animations() == old(
                    self,
                ).animations()
            }),
    {
        let ghost m = self.state.spec_index();
        let ghost d = self.direction.spec_index();
        let ghost old_anims = self.sprites@;
        let (x, y) = (self.x, self.y);
        let anim = self.sprites.get_sprites(self.state);
        assert(directional_wf(anim@));
        let sheet = anim.get_sprite(self.direction);
        let r = sheet.draw_animated(x, y);
        proof {
            let l = old_anims;
            if l[m][d].cells.len() > 0 {
                vstd::arithmetic::div_mod::lemma_mod_bound(l[m][d].cursor + 1, l[m][d].cells.len() as int);
            }
            let l2 = self.sprites@;
            assert(directional_wf(l2[m]));
            assert forall|i: int| 0 <= i < 5 implies directional_wf(#[trigger] l2[i]) by {
                if i != m {
                    assert(l2[i] == l[i]);
                }
            }
            if l[m][d].cells.len() == 0 {
                assert(l[m].update(d, l[m][d]) =~= l[m]);
                assert(l.update(m, l[m]) =~= l);
            }
        }
        r
    }

    /// Tries to move to (x, y): refused, with the position kept, when the
    /// target is off the board, diagonal, or longer than one step; the state
    /// becomes `Moving` either way.
    pub fn move_to(&mut self, x: i32, y: i32) -> (r: Result<(), MoveError>)
        ensures
            r == move_check(old(self).position(), x as int, y as int),
            final(self).position() == moved_position(old(self).position(), x as int, y as int),
            final(self).activity() == state_after_move(r is Ok, old(self).activity()),
            final(self).animations() == old(self).animations(),
    {
        let mut p = self.get_position();
        let mut s = self.state;
        let r = move_to(&mut p, &mut s, x, y);
        self.set_position(p);
        self.state = s;
        r
    }

    /// One tick of keyboard control. The speed is 2 while space is held and
    /// 1 otherwise; the move that the keys ask for is taken, failing that an
    /// attack. With neither, the player goes idle and back to base speed.
    /// Fails when the move that the keys asked for was refused.
    pub fn control(&mut self, keys: &KeyboardState) -> (r: Result<(), MoveError>)
        ensures
            (final(self).position(), final(self).activity()) == control_state(
                old(self).position(),
                old(self).activity(),
                *keys,
            ),
            final(self).animations() == old(self).animations(),
            r == control_outcome(old(self).position(), *keys),
    {
        let mut p = self.get_position();
        let mut s = self.state;
        p.velocity = if keys.space {
            2
        } else {
            1
        };
        let dir = if keys.up || keys.w {
            Some(Direction::Up)
        } else if keys.down || keys.s {
            Some(Direction::Down)
        } else if keys.left || keys.a {
            Some(Direction::Left)
        } else if keys.right || keys.d {
            Some(Direction::Right)
        } else {
            None
        };
        let r = match dir {
            Some(d) => handle_movement_input(&d, &mut p, &mut s),
            None => {
                if keys.z {
                    s = PlayerState::Attack;
                } else {
                    p.velocity = 1;
                    s = PlayerState::Idle;
                }
                Ok(())
            },
        };
        self.set_position(p);
        self.state = s;
        r
    }
}

/// The direction the held keys ask to move in, if any.
pub open spec fn key_move(k: KeyboardState) -> Option<Direction> {
    if k.up || k.w {
        Some(Direction::Up)
    } else if k.down || k.s {
        Some(Direction::Down)
    } else if k.left || k.a {
        Some(Direction::Left)
    } else if k.right || k.d {
        Some(Direction::Right)
    } else {
        None
    }
}

/// The outcome of keyboard control: the verdict on the move the keys ask
/// for, taken at the tick's speed; success when they ask for none.
pub open spec fn control_outcome(p: Position, k: KeyboardState) -> Result<(), MoveError> {
    let start = Position { velocity: if k.space { 2 } else { 1 }, ..p };
    match key_move(k) {
        Some(d) => move_check(start, step_target(start, d).0, step_target(start, d).1),
        None => Ok(()),
    }
}

/// Position and activity after keyboard control: at the tick's speed the
/// move the keys ask for is taken; failing that, an attack at that speed; with
/// neither, idling at base speed.
pub open spec fn control_state(p: Position, s: PlayerState, k: KeyboardState) -> (Position, PlayerState) {
    let start = Position { velocity: if k.space { 2 } else { 1 }, ..p };
    match key_move(k) {
        Some(d) => step_towards(start, s, d),
        None => if k.z {
            (start, PlayerState::Attack)
        } else {
            (Position { velocity: 1, ..p }, PlayerState::Idle)
        },
    }
}

} // verus!
