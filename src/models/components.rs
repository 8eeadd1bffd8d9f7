use vstd::prelude::*;

verus! {

/// Where an entity stands in pixel space, how fast it moves and which way it faces.
#[derive(Clone, Copy, Debug, PartialEq, Eq, Structural)]
pub struct Position {
    pub x: i32,
    pub y: i32,
    /// Pixels-per-tick multiplier: one step is `velocity * 4` pixels.
    pub velocity: i32,
    pub direction: Direction,
}

/// The four facing directions.
#[derive(Clone, Copy, Debug, PartialEq, Eq, Structural)]
pub enum Direction {
    Up,
    Down,
    Left,
    Right,
}

impl Direction {
    /// Position of the direction in the fixed order Up, Down, Left, Right.
    pub open spec fn spec_index(self) -> int {
        match self {
            Direction::Up => 0,
            Direction::Down => 1,
            Direction::Left => 2,
            Direction::Right => 3,
        }
    }

    /// Index of this direction's variant in a directional set.
    pub fn index(&self) -> (r: usize)
        ensures
            r as int == self.spec_index(),
            r < 4,
    {
        match self {
            Direction::Up => 0,
            Direction::Down => 1,
            Direction::Left => 2,
            Direction::Right => 3,
        }
    }

    /// The name of the asset sub-directory that holds this direction's sprites.
    pub open spec fn dir_name(self) -> Seq<char> {
        match self {
            Direction::Up => "Up"@,
            Direction::Down => "Down"@,
            Direction::Left => "Left"@,
            Direction::Right => "Right"@,
        }
    }

    /// The direction whose sub-directory is called `name`, if any.
    pub open spec fn spec_from_dir_name(name: Seq<char>) -> Option<Direction> {
        if name == "Up"@ {
            Some(Direction::Up)
        } else if name == "Down"@ {
            Some(Direction::Down)
        } else if name == "Left"@ {
            Some(Direction::Left)
        } else if name == "Right"@ {
            Some(Direction::Right)
        } else {
            None
        }
    }

    /// Recognises the sub-directory names "Up", "Down", "Left" and "Right";
    /// any other name gives `None`.
    pub fn from_dir_name(name: &String) -> (r: Option<Direction>)
        ensures
            r == Self::spec_from_dir_name(name@),
    {
        if *name == String::from_str("Up") {
            Some(Direction::Up)
        } else if *name == String::from_str("Down") {
            Some(Direction::Down)
        } else if *name == String::from_str("Left") {
            Some(Direction::Left)
        } else if *name == String::from_str("Right") {
            Some(Direction::Right)
        } else {
            None
        }
    }
}

#[derive(Clone, Copy, Debug, PartialEq, Eq, Structural)]
pub enum Gender {
    Cringe,
    Based,
}

impl Gender {
    pub open spec fn name(self) -> Seq<char> {
        match self {
            Gender::Cringe => "cringe"@,
            Gender::Based => "based"@,
        }
    }

    /// The lower-case name used in sprite keys.
    pub fn to_string(&self) -> (r: String)
        ensures
            r@ == self.name(),
    {
        match self {
            Gender::Cringe => String::from_str("cringe"),
            Gender::Based => String::from_str("based"),
        }
    }
}

#[derive(Clone, Copy, Debug, PartialEq, Eq, Structural)]
pub enum PlayerClass {
    Warrior,
    Mage,
    FireMage,
    Archer,
}

impl PlayerClass {
    pub open spec fn name(self) -> Seq<char> {
        match self {
            PlayerClass::Warrior => "warrior"@,
            PlayerClass::Mage => "mage"@,
            PlayerClass::FireMage => "fire_mage"@,
            PlayerClass::Archer => "archer"@,
        }
    }

    /// The lower-case name used in sprite keys.
    pub fn to_string(&self) -> (r: String)
        ensures
            r@ == self.name(),
    {
        match self {
            PlayerClass::Warrior => String::from_str("warrior"),
            PlayerClass::Mage => String::from_str("mage"),
            PlayerClass::FireMage => String::from_str("fire_mage"),
            PlayerClass::Archer => String::from_str("archer"),
        }
    }
}

/// A (current, max) pair such as health or mana; well formed when
/// `current <= max`.
#[derive(Clone, Copy, Debug, PartialEq, Eq, Structural)]
pub struct PrimaryStat {
    pub current: u32,
    pub max: u32,
}

/// `floor(current / max * full)`, the width of a bar filled to `current / max`;
/// zero when `max` is zero, and at most `u32::MAX`.
pub open spec fn portion(current: int, max: int, full: int) -> int {
    if max == 0 {
        0
    } else if current * full / max > u32::MAX {
        u32::MAX as int
    } else {
        current * full / max
    }
}

impl PrimaryStat {
    pub open spec fn wf(self) -> bool {
        self.current <= self.max
    }

    /// The part of `full` pixels that the fraction `current / max` covers,
    /// rounded down.
    pub fn bar_width(&self, full: u32) -> (r: u32)
        ensures
            r as int == portion(self.current as int, self.max as int, full as int),
    {
        portion_of(self.current, self.max, full)
    }
}

/// `floor(part / whole * full)` computed exactly in integers.
pub fn portion_of(part: u32, whole: u32, full: u32) -> (r: u32)
    ensures
        r as int == portion(part as int, whole as int, full as int),
{
    if whole == 0 {
        0
    } else {
        proof {
            let (a, b) = (part as int, full as int);
            assert(0 <= a * b <= 0xffff_ffff * 0xffff_ffff) by (nonlinear_arith)
                requires
                    0 <= a <= 0xffff_ffff,
                    0 <= b <= 0xffff_ffff,
            ;
        }
        let product: u64 = (part as u64) * (full as u64);
        let w: u64 = product / (whole as u64);
        if w > u32::MAX as u64 {
            u32::MAX
        } else {
            w as u32
        }
    }
}

#[derive(Clone, Copy, Debug, PartialEq, Eq, Structural)]
pub struct PlayerStats {
    pub health: PrimaryStat,
    pub mana: PrimaryStat,
    pub experience: PrimaryStat,
    pub level: u32,
}

impl PlayerStats {
    pub open spec fn wf(self) -> bool {
        self.health.wf() && self.mana.wf() && self.experience.wf()
    }
}

impl Default for PlayerStats {
    /// Full health (50) and mana (20), no experience out of 20, level 1.
    fn default() -> (r: PlayerStats)
        ensures
            r.health == (PrimaryStat { current: 50, max: 50 }),
            r.mana == (PrimaryStat { current: 20, max: 20 }),
            r.experience == (PrimaryStat { current: 0, max: 20 }),
            r.level == 1,
    {
        PlayerStats {
            health: PrimaryStat { current: 50, max: 50 },
            mana: PrimaryStat { current: 20, max: 20 },
            experience: PrimaryStat { current: 0, max: 20 },
            level: 1,
        }
    }
}

/// The activity an entity is engaged in; exactly one at a time.
#[derive(Clone, Copy, Debug, PartialEq, Eq, Structural)]
pub enum PlayerState {
    Moving,
    Idle,
    Attack,
    Death,
    TakingDamage,
}

impl PlayerState {
    /// Position of the activity in the fixed animation order
    /// Moving, Idle, Attack, Death, TakingDamage.
    pub open spec fn spec_index(self) -> int {
        match self {
            PlayerState::Moving => 0,
            PlayerState::Idle => 1,
            PlayerState::Attack => 2,
            PlayerState::Death => 3,
            PlayerState::TakingDamage => 4,
        }
    }

    /// Which of an entity's per-activity animation sets plays in this state.
    pub fn index(&self) -> (r: usize)
        ensures
            r as int == self.spec_index(),
            r < 5,
    {
        match self {
            PlayerState::Moving => 0,
            PlayerState::Idle => 1,
            PlayerState::Attack => 2,
            PlayerState::Death => 3,
            PlayerState::TakingDamage => 4,
        }
    }

    pub open spec fn spec_animation_name(self) -> Seq<char> {
        match self {
            PlayerState::Moving => "Movement"@,
            PlayerState::Idle => "Idle"@,
            PlayerState::Attack => "Attack"@,
            PlayerState::Death => "Death"@,
            PlayerState::TakingDamage => "Taking damage"@,
        }
    }

    /// The file name (without extension) of the animation played in this state.
    pub fn animation_name(&self) -> (r: &'static str)
        ensures
            r@ == self.spec_animation_name(),
    {
        match self {
            PlayerState::Moving => "Movement",
            PlayerState::Idle => "Idle",
            PlayerState::Attack => "Attack",
            PlayerState::Death => "Death",
            PlayerState::TakingDamage => "Taking damage",
        }
    }
}

#[derive(Clone, Copy, Debug, PartialEq, Eq, Structural)]
pub struct Id(pub u32);

/// Abstract commands produced from the keyboard.
#[derive(Clone, Copy, Debug, PartialEq, Eq, Structural)]
pub enum Input {
    Move(Direction),
    Attack,
    Run,
    Quit,
}

/// Marks the entity driven by the keyboard.
#[derive(Clone, Copy, Debug, PartialEq, Eq, Structural)]
pub struct IsPlayerCharacter;

/// For a well-formed stat the filled part of a bar of `full` pixels is
/// between nothing and the whole bar: nothing when the stat is empty, the
/// whole bar when it is full.
pub proof fn lemma_bar_width_bounds(stat: PrimaryStat, full: u32)
    requires
        stat.wf(),
    ensures
        0 <= portion(stat.current as int, stat.max as int, full as int) <= full,
        stat.current == 0 ==> portion(stat.current as int, stat.max as int, full as int) == 0,
        stat.current == stat.max && stat.max > 0 ==> portion(
            stat.current as int,
            stat.max as int,
            full as int,
        ) == full,
{
    let (c, m, f) = (stat.current as int, stat.max as int, full as int);
    if m > 0 {
        assert(0 <= c * f <= m * f) by (nonlinear_arith)
            requires
                0 <= c <= m,
                0 <= f,
        ;
        vstd::arithmetic::div_mod::lemma_div_is_ordered(c * f, m * f, m);
        vstd::arithmetic::div_mod::lemma_div_multiples_vanish(f, m);
        assert(m * f == f * m) by (nonlinear_arith);
        vstd::arithmetic::div_mod::lemma_div_pos_is_pos(c * f, m);
        if c == 0 {
            vstd::arithmetic::mul::lemma_mul_basics(f);
            assert(c * f == 0);
        }
    }
}

} // verus!
