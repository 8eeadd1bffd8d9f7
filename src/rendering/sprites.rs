use vstd::prelude::*;

use super::{DestRect, DrawCommand, LoadedTexture, SourceRect, TextureId};
use crate::models::components::{portion, portion_of, Direction};

verus! {

/// The `k`-th cell, in row-major order, of a grid with `cols` columns of
/// `cw` x `ch` cells whose top-left cell sits at the origin.
pub open spec fn grid_cell(cols: int, cw: int, ch: int, k: int) -> SourceRect {
    SourceRect {
        x: ((k % cols) * cw) as u32,
        y: ((k / cols) * ch) as u32,
        w: cw as u32,
        h: ch as u32,
    }
}

/// `cells` cuts a `tw` x `th` texture into `cw` x `ch` cells, row-major, as
/// many whole cells as fit on each axis (the remainder is dropped).
pub open spec fn is_grid(cells: Seq<SourceRect>, cw: int, ch: int, tw: int, th: int) -> bool {
    &&& cells.len() == (tw / cw) * (th / ch)
    &&& forall|k: int| 0 <= k < cells.len() ==> #[trigger] cells[k] == grid_cell(tw / cw, cw, ch, k)
}

/// One texture cut into a grid of equally sized sprites, with a cursor that
/// steps through them when the sheet is played as an animation.
#[derive(Debug)]
pub struct SpriteSheet {
    sprite_dimensions: (u32, u32),
    sprites: Vec<SourceRect>,
    texture: TextureId,
    animation_counter: usize,
}

/// What a sprite sheet is, as a value: sprite size, sprite rectangles,
/// texture and animation cursor.
pub struct SheetView {
    pub dims: (u32, u32),
    pub cells: Seq<SourceRect>,
    pub texture: TextureId,
    /// The cell that the next animated draw shows.
    pub cursor: int,
}

impl SheetView {
    pub open spec fn wf(self) -> bool {
        &&& self.dims.0 > 0
        &&& self.dims.1 > 0
        &&& 0 <= self.cursor
        &&& self.cells.len() == 0 ==> self.cursor == 0
        &&& self.cells.len() > 0 ==> self.cursor < self.cells.len()
    }

    /// The sheet that `new` makes of `texture` with sprites of size `dims`.
    pub open spec fn built_from(self, dims: (u32, u32), texture: LoadedTexture) -> bool {
        &&& self.wf()
        &&& self.dims == dims
        &&& self.texture == texture.id
        &&& self.cursor == 0
        &&& is_grid(self.cells, dims.0 as int, dims.1 as int, texture.width as int, texture.height as int)
    }

    /// The command that draws cell `i` at its own size with its top-left
    /// corner at (x, y).
    pub open spec fn draw(self, i: int, x: i32, y: i32) -> DrawCommand {
        DrawCommand {
            texture: self.texture,
            src: self.cells[i],
            dst: DestRect { x, y, w: self.dims.0, h: self.dims.1 },
        }
    }

    /// The command that draws cell `i` squeezed to `part / whole` of its width.
    pub open spec fn draw_portion(self, i: int, x: i32, y: i32, part: int, whole: int) -> DrawCommand {
        DrawCommand {
            texture: self.texture,
            src: self.cells[i],
            dst: DestRect { x, y, w: portion(part, whole, self.dims.0 as int) as u32, h: self.dims.1 },
        }
    }

    /// The sheet after one animated draw: the cursor moves to the next cell,
    /// wrapping to the first after the last.
    pub open spec fn advance(self) -> SheetView {
        SheetView { cursor: (self.cursor + 1) % (self.cells.len() as int), ..self }
    }
}

impl View for SpriteSheet {
    type V = SheetView;

    closed spec fn view(&self) -> SheetView {
        SheetView {
            dims: self.sprite_dimensions,
            cells: self.sprites@,
            texture: self.texture,
            cursor: self.animation_counter as int,
        }
    }
}

impl SpriteSheet {
    /// Cuts a texture into `sprite_dimensions`-sized sprites, row by row from
    /// the top-left corner; a partial row or column at the far edge is dropped.
    pub fn new(sprite_dimensions: (u32, u32), texture: LoadedTexture) -> (r: SpriteSheet)
        requires
            sprite_dimensions.0 > 0,
            sprite_dimensions.1 > 0,
        ensures
            r@.built_from(sprite_dimensions, texture),
    {
        let (sprite_width, sprite_height) = sprite_dimensions;
        let h_size = texture.width / sprite_width;
        let v_size = texture.height / sprite_height;
        let ghost cols = h_size as int;
        let ghost cw = sprite_width as int;
        let ghost ch = sprite_height as int;
        proof {
            vstd::arithmetic::div_mod::lemma_fundamental_div_mod(texture.width as int, cw);
            vstd::arithmetic::div_mod::lemma_fundamental_div_mod(texture.height as int, ch);
            vstd::arithmetic::div_mod::lemma_mod_pos_bound(texture.width as int, cw);
            vstd::arithmetic::div_mod::lemma_mod_pos_bound(texture.height as int, ch);
        }
        let mut sprites: Vec<SourceRect> = Vec::new();
        let mut j: u32 = 0;
        while j < v_size
            invariant
                cols == h_size,
                cw == sprite_width,
                ch == sprite_height,
                cw > 0,
                ch > 0,
                h_size == texture.width / sprite_width,
                v_size == texture.height / sprite_height,
                cols * cw <= texture.width,
                v_size * ch <= texture.height,
                j <= v_size,
                sprites@.len() == j * cols,
                forall|k: int| 0 <= k < sprites@.len() ==> #[trigger] sprites@[k] == grid_cell(cols, cw, ch, k),
            decreases v_size - j,
        {
            let mut i: u32 = 0;
            proof {
                assert((j + 1) * ch <= v_size * ch) by (nonlinear_arith)
                    requires
                        j < v_size,
                        ch > 0,
                ;
                assert((j + 1) * ch == j * ch + ch) by (nonlinear_arith);
            }
            while i < h_size
                invariant
                    cols == h_size,
                    cw == sprite_width,
                    ch == sprite_height,
                    cw > 0,
                    ch > 0,
                    cols * cw <= texture.width,
                    j < v_size,
                    j * ch + ch <= texture.height,
                    i <= h_size,
                    sprites@.len() == j * cols + i,
                    forall|k: int| 0 <= k < sprites@.len() ==> #[trigger] sprites@[k] == grid_cell(cols, cw, ch, k),
                decreases h_size - i,
            {
                proof {
                    assert((i + 1) * cw <= cols * cw) by (nonlinear_arith)
                        requires
                            i < cols,
                            cw > 0,
                    ;
                    assert((i + 1) * cw == i * cw + cw) by (nonlinear_arith);
                    assert(0 <= j * ch) by (nonlinear_arith)
                        requires
                            j >= 0,
                            ch > 0,
                    ;
                    assert(0 <= i * cw) by (nonlinear_arith)
                        requires
                            i >= 0,
                            cw > 0,
                    ;
                    let k = j * cols + i;
                    vstd::arithmetic::div_mod::lemma_fundamental_div_mod_converse(
                        k,
                        cols,
                        j as int,
                        i as int,
                    );
                }
                let r = SourceRect {
                    x: i * sprite_width,
                    y: j * sprite_height,
                    w: sprite_width,
                    h: sprite_height,
                };
                sprites.push(r);
                i = i + 1;
            }
            proof {
                assert(j * cols + cols == (j + 1) * cols) by (nonlinear_arith);
            }
            j = j + 1;
        }
        proof {
            assert(v_size * cols == cols * v_size) by (nonlinear_arith);
        }
        SpriteSheet { sprite_dimensions, sprites, texture: texture.id, animation_counter: 0 }
    }

    /// The width and height of each sprite.
    pub fn sprite_dimensions(&self) -> (r: (u32, u32))
        ensures
            r == self@.dims,
    {
        self.sprite_dimensions
    }

    /// The texture the sprites are cut from.
    pub fn texture(&self) -> (r: TextureId)
        ensures
            r == self@.texture,
    {
        self.texture
    }

    /// The number of sprites on the sheet.
    pub fn len(&self) -> (r: usize)
        ensures
            r == self@.cells.len(),
    {
        self.sprites.len()
    }

    /// The rectangle of the `i`-th sprite.
    pub fn region(&self, i: usize) -> (r: SourceRect)
        requires
            i < self@.cells.len(),
        ensures
            r == self@.cells[i as int],
    {
        self.sprites[i]
    }

    /// Draws the `i`-th sprite at its own size with its top-left corner at
    /// (x, y).
    pub fn draw_to(&self, i: usize, x: i32, y: i32) -> (r: DrawCommand)
        requires
            i < self@.cells.len(),
        ensures
            r == self@.draw(i as int, x, y),
    {
        DrawCommand {
            texture: self.texture,
            src: self.sprites[i],
            dst: DestRect { x, y, w: self.sprite_dimensions.0, h: self.sprite_dimensions.1 },
        }
    }

    /// Draws the whole `i`-th sprite squeezed to `part / whole` of its width
    /// (rounded down) and its full height, as for a gauge.
    pub fn draw_portion_of(&self, i: usize, x: i32, y: i32, part: u32, whole: u32) -> (r: DrawCommand)
        requires
            i < self@.cells.len(),
        ensures
            r == self@.draw_portion(i as int, x, y, part as int, whole as int),
    {
        let width = portion_of(part, whole, self.sprite_dimensions.0);
        DrawCommand {
            texture: self.texture,
            src: self.sprites[i],
            dst: DestRect { x, y, w: width, h: self.sprite_dimensions.1 },
        }
    }

    /// Draws the sprite under the cursor at (x, y) and moves the cursor to the
    /// next sprite, back to the first after the last: successive calls show
    /// cells 0, 1, ..., n - 1, 0, 1, ... `None`, and no change, on a sheet
    /// without sprites.
    pub fn draw_animated(&mut self, x: i32, y: i32) -> (r: Option<DrawCommand>)
        requires
            old(self)@.wf(),
        ensures
            final(self)@.wf(),
            old(self)@.cells.len() > 0 ==> r == Some(old(self)@.draw(old(self)@.cursor, x, y))
                && final(self)@ == old(self)@.advance(),
            old(self)@.cells.len() == 0 ==> r is None && final(self)@ == old(self)@,
    {
        let n = self.sprites.len();
        if n == 0 {
            None
        } else {
            let i = self.animation_counter;
            let cmd = DrawCommand {
                texture: self.texture,
                src: self.sprites[i],
                dst: DestRect { x, y, w: self.sprite_dimensions.0, h: self.sprite_dimensions.1 },
            };
            self.animation_counter = if i + 1 == n {
                0
            } else {
                i + 1
            };
            proof {
                if i + 1 < n {
                    vstd::arithmetic::div_mod::lemma_small_mod((i + 1) as nat, n as nat);
                } else {
                    vstd::arithmetic::div_mod::lemma_mod_self_0(n as int);
                }
            }
            Some(cmd)
        }
    }
}

/// Why a set of assets could not be built.
#[derive(Clone, Copy, Debug, PartialEq, Eq, Structural)]
pub enum AssetError {
    /// No sub-directory holds the variant of this direction.
    MissingDirectionalAsset(Direction),
}

/// The texture found last for direction `d` among sub-directories named in
/// `found`; unrecognised names are passed over.
pub open spec fn last_found(found: Seq<(String, LoadedTexture)>, d: Direction) -> Option<LoadedTexture>
    decreases found.len(),
{
    if found.len() == 0 {
        None
    } else if Direction::spec_from_dir_name(found.last().0@) == Some(d) {
        Some(found.last().1)
    } else {
        last_found(found.drop_last(), d)
    }
}

/// The first direction, in the order Up, Down, Left, Right, that `found`
/// has no texture for.
pub open spec fn first_missing(found: Seq<(String, LoadedTexture)>) -> Option<Direction> {
    if last_found(found, Direction::Up) is None {
        Some(Direction::Up)
    } else if last_found(found, Direction::Down) is None {
        Some(Direction::Down)
    } else if last_found(found, Direction::Left) is None {
        Some(Direction::Left)
    } else if last_found(found, Direction::Right) is None {
        Some(Direction::Right)
    } else {
        None
    }
}

/// The four directional variants of one animation, in the order Up, Down,
/// Left, Right.
#[derive(Debug)]
pub struct DirectionalAnimation(pub Vec<SpriteSheet>);

impl View for DirectionalAnimation {
    type V = Seq<SheetView>;

    open spec fn view(&self) -> Seq<SheetView> {
        self.0@.map_values(|s: SpriteSheet| s@)
    }
}

impl DirectionalAnimation {
    pub open spec fn wf(&self) -> bool {
        &&& self@.len() == 4
        &&& forall|i: int| 0 <= i < 4 ==> (#[trigger] self@[i]).wf()
    }

    /// The variant of the animation facing `direction`.
    pub fn get_sprite(&mut self, direction: Direction) -> (r: &mut SpriteSheet)
        requires
            old(self).wf(),
        ensures
            r@ == old(self)@[direction.spec_index()],
            final(self)@ == old(self)@.update(direction.spec_index(), final(r)@),
    {
        let i = direction.index();
        let r = &mut self.0[i];
        assert(after_borrow(self)@ =~= old(self)@.update(i as int, final(r)@));
        r
    }

    /// Builds an animation from the sub-directories found for it, each given
    /// by its name and the texture loaded from it. Names other than "Up",
    /// "Down", "Left" and "Right" are passed over; where a name comes twice the
    /// later texture is used. Each variant is cut with its own sprite size,
    /// given in the order Up, Down, Left, Right.
    pub fn new(found: Vec<(String, LoadedTexture)>, sprite_dimensions: Vec<(u32, u32)>) -> (r: Result<
        DirectionalAnimation,
        AssetError,
    >)
        requires
            sprite_dimensions@.len() == 4,
            forall|i: int|
                0 <= i < 4 ==> (#[trigger] sprite_dimensions@[i]).0 > 0 && sprite_dimensions@[i].1 > 0,
        ensures
            match first_missing(found@) {
                Some(d) => r == Err::<DirectionalAnimation, AssetError>(
                    AssetError::MissingDirectionalAsset(d),
                ),
                None => r matches Ok(a) && a.wf() && forall|d: Direction| #[trigger]
                    a@[d.spec_index()].built_from(
                        sprite_dimensions@[d.spec_index()],
                        last_found(found@, d)->Some_0,
                    ),
            },
    {
        let mut up: Option<LoadedTexture> = None;
        let mut down: Option<LoadedTexture> = None;
        let mut left: Option<LoadedTexture> = None;
        let mut right: Option<LoadedTexture> = None;
        let n = found.len();
        let mut i: usize = 0;
        while i < n
            invariant
                n == found@.len(),
                i <= n,
                up == last_found(found@.take(i as int), Direction::Up),
                down == last_found(found@.take(i as int), Direction::Down),
                left == last_found(found@.take(i as int), Direction::Left),
                right == last_found(found@.take(i as int), Direction::Right),
            decreases n - i,
        {
            proof {
                assert(found@.take(i as int + 1).drop_last() =~= found@.take(i as int));
            }
            match Direction::from_dir_name(&found[i].0) {
                Some(Direction::Up) => {
                    up = Some(found[i].1);
                },
                Some(Direction::Down) => {
                    down = Some(found[i].1);
                },
                Some(Direction::Left) => {
                    left = Some(found[i].1);
                },
                Some(Direction::Right) => {
                    right = Some(found[i].1);
                },
                None => {},
            }
            i = i + 1;
        }
        assert(found@.take(n as int) =~= found@);
        match (up, down, left, right) {
            (Some(u), Some(d), Some(l), Some(r)) => {
                let sprites = vec![
                    SpriteSheet::new(sprite_dimensions[0], u),
                    SpriteSheet::new(sprite_dimensions[1], d),
                    SpriteSheet::new(sprite_dimensions[2], l),
                    SpriteSheet::new(sprite_dimensions[3], r),
                ];
                let a = DirectionalAnimation(sprites);
                assert(forall|d: Direction| #[trigger]
                    a@[d.spec_index()].built_from(
                        sprite_dimensions@[d.spec_index()],
                        last_found(found@, d)->Some_0,
                    )) by {
                    assert(forall|d: Direction| 0 <= #[trigger] d.spec_index() < 4);
                };
                Ok(a)
            },
            (None, _, _, _) => Err(AssetError::MissingDirectionalAsset(Direction::Up)),
            (_, None, _, _) => Err(AssetError::MissingDirectionalAsset(Direction::Down)),
            (_, _, None, _) => Err(AssetError::MissingDirectionalAsset(Direction::Left)),
            (_, _, _, None) => Err(AssetError::MissingDirectionalAsset(Direction::Right)),
        }
    }
}

/// The map that a list of named entries describes: a later entry for a name
/// takes the place of an earlier one.
pub open spec fn entries_map<V, W>(s: Seq<(String, V)>, f: spec_fn(V) -> W) -> Map<Seq<char>, W>
    decreases s.len(),
{
    if s.len() == 0 {
        Map::empty()
    } else {
        entries_map(s.drop_last(), f).insert(s.last().0@, f(s.last().1))
    }
}

/// `i` is the last entry of `s` named `key`.
pub open spec fn is_last_with_key<V>(s: Seq<(String, V)>, key: Seq<char>, i: int) -> bool {
    &&& 0 <= i < s.len()
    &&& s[i].0@ == key
    &&& forall|j: int| i < j < s.len() ==> (#[trigger] s[j]).0@ != key
}

proof fn lemma_entries_map_last<V, W>(s: Seq<(String, V)>, f: spec_fn(V) -> W, key: Seq<char>, i: int)
    requires
        is_last_with_key(s, key, i),
    ensures
        entries_map(s, f).contains_key(key),
        entries_map(s, f)[key] == f(s[i].1),
    decreases s.len(),
{
    if i < s.len() - 1 {
        let t = s.drop_last();
        assert(s[s.len() - 1].0@ != key);
        assert forall|j: int| i < j < t.len() implies (#[trigger] t[j]).0@ != key by {
            assert(t[j] == s[j]);
        }
        lemma_entries_map_last(t, f, key, i);
    }
}

proof fn lemma_entries_map_absent<V, W>(s: Seq<(String, V)>, f: spec_fn(V) -> W, key: Seq<char>)
    requires
        forall|j: int| 0 <= j < s.len() ==> (#[trigger] s[j]).0@ != key,
    ensures
        !entries_map(s, f).contains_key(key),
    decreases s.len(),
{
    if s.len() > 0 {
        let t = s.drop_last();
        assert forall|j: int| 0 <= j < t.len() implies (#[trigger] t[j]).0@ != key by {
            assert(t[j] == s[j]);
        }
        assert(s[s.len() - 1].0@ != key);
        lemma_entries_map_absent(t, f, key);
    }
}

proof fn lemma_entries_map_update<V, W>(
    s: Seq<(String, V)>,
    f: spec_fn(V) -> W,
    key: Seq<char>,
    i: int,
    v: V,
)
    requires
        is_last_with_key(s, key, i),
    ensures
        entries_map(s.update(i, (s[i].0, v)), f) == entries_map(s, f).insert(key, f(v)),
    decreases s.len(),
{
    let u = s.update(i, (s[i].0, v));
    if i == s.len() - 1 {
        assert(u.drop_last() =~= s.drop_last());
        assert(entries_map(u, f) =~= entries_map(s, f).insert(key, f(v)));
    } else {
        let t = s.drop_last();
        assert(s[s.len() - 1].0@ != key);
        assert forall|j: int| i < j < t.len() implies (#[trigger] t[j]).0@ != key by {
            assert(t[j] == s[j]);
        }
        lemma_entries_map_update(t, f, key, i, v);
        assert(u.drop_last() =~= t.update(i, (t[i].0, v)));
        assert(entries_map(u, f) =~= entries_map(s, f).insert(key, f(v)));
    }
}

proof fn lemma_entries_map_values<V, W>(s: Seq<(String, V)>, f: spec_fn(V) -> W, p: spec_fn(W) -> bool)
    requires
        forall|j: int| 0 <= j < s.len() ==> p(f(#[trigger] s[j].1)),
    ensures
        forall|k: Seq<char>| #[trigger] entries_map(s, f).contains_key(k) ==> p(entries_map(s, f)[k]),
    decreases s.len(),
{
    if s.len() > 0 {
        let t = s.drop_last();
        assert forall|j: int| 0 <= j < t.len() implies p(f(#[trigger] t[j].1)) by {
            assert(t[j] == s[j]);
        }
        lemma_entries_map_values(t, f, p);
        assert(p(f(s[s.len() - 1].1)));
        let m = entries_map(s, f);
        assert forall|k: Seq<char>| #[trigger] m.contains_key(k) implies p(m[k]) by {
            if k != s.last().0@ {
                assert(entries_map(t, f).contains_key(k));
            }
        }
    }
}

/// The index of the last entry named `key`, if any.
fn find_last<V>(s: &Vec<(String, V)>, key: &String) -> (r: Option<usize>)
    ensures
        r matches Some(i) ==> is_last_with_key(s@, key@, i as int),
        r is None ==> forall|j: int| 0 <= j < s@.len() ==> (#[trigger] s@[j]).0@ != key@,
{
    let mut i: usize = s.len();
    while i > 0
        invariant
            i <= s@.len(),
            forall|j: int| i <= j < s@.len() ==> (#[trigger] s@[j]).0@ != key@,
        decreases i,
    {
        if s[i - 1].0 == *key {
            return Some(i - 1);
        }
        i = i - 1;
    }
    None
}

/// A sprite sheet as a value.
pub open spec fn sheet_view_fn() -> spec_fn(SpriteSheet) -> SheetView {
    |s: SpriteSheet| s@
}

/// A list of per-activity animation sets as a value.
pub open spec fn animations_view_fn() -> spec_fn(Vec<DirectionalAnimation>) -> Seq<Seq<SheetView>> {
    |v: Vec<DirectionalAnimation>| animations_view(v)
}

/// The per-activity animation sets of a list, as values.
pub open spec fn animations_view(v: Vec<DirectionalAnimation>) -> Seq<Seq<SheetView>> {
    v@.map_values(|a: DirectionalAnimation| a@)
}

/// What a sprite catalog holds: sprites by name, and by name the per-activity
/// list of directional animations (each four sheets, Up, Down, Left, Right).
pub struct CatalogView {
    pub sprites: Map<Seq<char>, SheetView>,
    pub animations: Map<Seq<char>, Seq<Seq<SheetView>>>,
}

impl CatalogView {
    pub open spec fn wf(self) -> bool {
        &&& forall|k: Seq<char>| #[trigger] self.sprites.contains_key(k) ==> self.sprites[k].wf()
        &&& forall|k: Seq<char>| #[trigger]
            self.animations.contains_key(k) ==> animation_list_wf(self.animations[k])
    }

    /// Whether `name` has an animation set for activity `m`.
    pub open spec fn has_sheet(self, name: Seq<char>, m: int) -> bool {
        self.animations.contains_key(name) && 0 <= m < self.animations[name].len()
    }

    /// The sheet of animation `name`, activity `m`, facing `d`.
    pub open spec fn sheet(self, name: Seq<char>, m: int, d: Direction) -> SheetView {
        self.animations[name][m][d.spec_index()]
    }

    /// The catalog with that sheet replaced by `s`.
    pub open spec fn with_sheet(self, name: Seq<char>, m: int, d: Direction, s: SheetView) -> CatalogView {
        CatalogView {
            animations: self.animations.insert(
                name,
                self.animations[name].update(m, self.animations[name][m].update(d.spec_index(), s)),
            ),
            ..self
        }
    }
}

/// Replacing a played sheet by a well-formed one keeps the catalog well formed.
pub proof fn lemma_with_sheet_wf(c: CatalogView, name: Seq<char>, m: int, d: Direction, s: SheetView)
    requires
        c.wf(),
        c.has_sheet(name, m),
        s.wf(),
    ensures
        c.with_sheet(name, m, d, s).wf(),
{
    let l = c.animations[name];
    let a = l[m].update(d.spec_index(), s);
    assert(directional_wf(l[m]));
    assert(directional_wf(a));
    let l2 = l.update(m, a);
    assert forall|j: int| 0 <= j < l2.len() implies directional_wf(#[trigger] l2[j]) by {
        if j != m {
            assert(l2[j] == l[j]);
        }
    }
    let c2 = c.with_sheet(name, m, d, s);
    assert forall|k: Seq<char>| #[trigger] c2.animations.contains_key(k) implies animation_list_wf(
        c2.animations[k],
    ) by {
        if k != name {
            assert(c.animations.contains_key(k));
        }
    }
}

/// Putting a sheet back unchanged leaves the catalog as it was.
pub proof fn lemma_with_same_sheet(c: CatalogView, name: Seq<char>, m: int, d: Direction)
    requires
        c.wf(),
        c.has_sheet(name, m),
    ensures
        c.with_sheet(name, m, d, c.sheet(name, m, d)) == c,
{
    let l = c.animations[name];
    assert(directional_wf(l[m]));
    assert(l[m].update(d.spec_index(), c.sheet(name, m, d)) =~= l[m]);
    assert(l.update(m, l[m]) =~= l);
    assert(c.animations.insert(name, l) =~= c.animations);
}

/// Every set of the list has its four well-formed sheets.
pub open spec fn animation_list_wf(l: Seq<Seq<SheetView>>) -> bool {
    forall|m: int| 0 <= m < l.len() ==> directional_wf(#[trigger] l[m])
}

pub open spec fn directional_wf(a: Seq<SheetView>) -> bool {
    &&& a.len() == 4
    &&& forall|i: int| 0 <= i < 4 ==> (#[trigger] a[i]).wf()
}

/// The named sprites and animations that drawing looks up. Entries are kept
/// as (name, value) pairs and looked up from the last, so a later entry for a
/// name takes the place of an earlier one, as an insert into a map would;
/// the view is that map.
#[derive(Debug)]
pub struct SpriteHolder {
    sprite_map: Vec<(String, SpriteSheet)>,
    directional_sprite_map: Vec<(String, Vec<DirectionalAnimation>)>,
}

impl View for SpriteHolder {
    type V = CatalogView;

    closed spec fn view(&self) -> CatalogView {
        CatalogView {
            sprites: entries_map(self.sprite_map@, sheet_view_fn()),
            animations: entries_map(self.directional_sprite_map@, animations_view_fn()),
        }
    }
}

impl SpriteHolder {
    /// Makes a catalog of the given sprites and animations; where a name comes
    /// twice in a list, the later entry is the one kept.
    pub fn from(
        sprites: Vec<(String, SpriteSheet)>,
        directional_sprites: Vec<(String, Vec<DirectionalAnimation>)>,
    ) -> (r: SpriteHolder)
        requires
            forall|j: int| 0 <= j < sprites@.len() ==> (#[trigger] sprites@[j]).1@.wf(),
            forall|j: int| 0 <= j < directional_sprites@.len() ==> animation_list_wf(
                animations_view(#[trigger] directional_sprites@[j].1),
            ),
        ensures
            r@.wf(),
            r@.sprites == entries_map(sprites@, sheet_view_fn()),
            r@.animations == entries_map(directional_sprites@, animations_view_fn()),
    {
        let r = SpriteHolder { sprite_map: sprites, directional_sprite_map: directional_sprites };
        proof {
            let fs = sheet_view_fn();
            let fa = animations_view_fn();
            lemma_entries_map_values(r.sprite_map@, fs, |w: SheetView| w.wf());
            lemma_entries_map_values(r.directional_sprite_map@, fa, |w: Seq<Seq<SheetView>>| animation_list_wf(w));
        }
        r
    }

    /// The sprite named `name`, if there is one.
    pub fn get_sprite(&self, name: &str) -> (r: Option<&SpriteSheet>)
        ensures
            r matches Some(s) ==> self@.sprites.contains_key(name@) && s@ == self@.sprites[name@],
            r is None ==> !self@.sprites.contains_key(name@),
    {
        let key = String::from_str(name);
        match find_last(&self.sprite_map, &key) {
            Some(i) => {
                proof {
                    lemma_entries_map_last(self.sprite_map@, sheet_view_fn(), key@, i as int);
                }
                Some(&self.sprite_map[i].1)
            },
            None => {
                proof {
                    lemma_entries_map_absent(self.sprite_map@, sheet_view_fn(), key@);
                }
                None
            },
        }
    }

    /// The sheet of animation `name` for activity `modifier` facing
    /// `direction`, to play it; `None` when there is no such animation.
    pub fn get_directional(&mut self, name: &str, modifier: usize, direction: Direction) -> (r: Option<
        &mut SpriteSheet,
    >)
        requires
            old(self)@.wf(),
        ensures
            r matches Some(s) ==> {
                &&& old(self)@.has_sheet(name@, modifier as int)
                &&& s@ == old(self)@.sheet(name@, modifier as int, direction)
                &&& final(self)@ == old(self)@.with_sheet(name@, modifier as int, direction, final(s)@)
            },
            r is None ==> !old(self)@.has_sheet(name@, modifier as int) && final(self)@ == old(self)@,
    {
        let key = String::from_str(name);
        let ghost fa = animations_view_fn();
        match find_last(&self.directional_sprite_map, &key) {
            Some(i) => {
                proof {
                    lemma_entries_map_last(self.directional_sprite_map@, fa, key@, i as int);
                }
                assert(key@ == name@);
                assert(self@.animations.contains_key(key@));
                assert(self@.animations[key@] == animations_view(self.directional_sprite_map@[i as int].1));
                assert(animation_list_wf(self@.animations[key@]));
                if modifier < self.directional_sprite_map[i].1.len() {
                    let ghost old_entries = self.directional_sprite_map@;
                    let entry = &mut self.directional_sprite_map[i];
                    let ghost old_entry = *entry;
                    assert(animation_list_wf(animations_view(old_entry.1)));
                    assert(old_entry.1@[modifier as int]@ == animations_view(old_entry.1)[modifier as int]);
                    let anim = &mut entry.1[modifier];
                    let sheet = anim.get_sprite(direction);
                    proof {
                        let new_list = after_borrow(entry.1);
                        assert(animations_view(new_list) =~= animations_view(old_entry.1).update(
                            modifier as int,
                            animations_view(old_entry.1)[modifier as int].update(direction.spec_index(), final(sheet)@),
                        ));
                        lemma_entries_map_update(old_entries, fa, key@, i as int, new_list);
                    }
                    Some(sheet)
                } else {
                    None
                }
            },
            None => {
                proof {
                    lemma_entries_map_absent(self.directional_sprite_map@, fa, key@);
                }
                None
            },
        }
    }
}

/// The sheet after `n` animated draws.
pub open spec fn advance_n(s: SheetView, n: nat) -> SheetView
    decreases n,
{
    if n == 0 {
        s
    } else {
        advance_n(s, (n - 1) as nat).advance()
    }
}

/// After `n` animated draws on a sheet of `c` sprites the cursor has moved on
/// by `n` modulo `c`: from a fresh sheet the draws show cells 0, 1, ...,
/// c - 1, 0, 1, ..., the `n`-th of them cell `n mod c`, and the cursor
/// repeats with period `c`.
pub proof fn lemma_animation_cycles(s: SheetView, n: nat)
    requires
        s.wf(),
        s.cells.len() > 0,
    ensures
        advance_n(s, n).cursor == (s.cursor + n) % (s.cells.len() as int),
        advance_n(s, n).cells == s.cells,
        advance_n(s, n).wf(),
        s.cursor == 0 ==> advance_n(s, n).cursor == (n as int) % (s.cells.len() as int),
        advance_n(s, n + s.cells.len()).cursor == advance_n(s, n).cursor,
{
    let c = s.cells.len() as int;
    lemma_advance_n_shape(s, n);
    lemma_advance_n_shape(s, n + s.cells.len());
    vstd::arithmetic::div_mod::lemma_mod_bound(s.cursor + n, c);
    vstd::arithmetic::div_mod::lemma_mod_add_multiples_vanish(s.cursor + n, c);
}

proof fn lemma_advance_n_shape(s: SheetView, n: nat)
    requires
        s.wf(),
        s.cells.len() > 0,
    ensures
        advance_n(s, n).cursor == (s.cursor + n) % (s.cells.len() as int),
        advance_n(s, n).cells == s.cells,
        advance_n(s, n).dims == s.dims,
        advance_n(s, n).wf(),
    decreases n,
{
    let c = s.cells.len() as int;
    if n > 0 {
        lemma_advance_n_shape(s, (n - 1) as nat);
        let x = s.cursor + n - 1;
        vstd::arithmetic::div_mod::lemma_add_mod_noop(x, 1, c);
        vstd::arithmetic::div_mod::lemma_mod_twice(x, c);
        vstd::arithmetic::div_mod::lemma_mod_bound(x + 1, c);
        if c > 1 {
            vstd::arithmetic::div_mod::lemma_small_mod(1, c as nat);
        } else {
            assert((x % c + 1) % c == 0 && (x + 1) % c == 0) by {
                vstd::arithmetic::div_mod::lemma_mod_bound(x % c + 1, 1);
                vstd::arithmetic::div_mod::lemma_mod_bound(x + 1, 1);
            };
        }
    } else {
        vstd::arithmetic::div_mod::lemma_small_mod(s.cursor as nat, c as nat);
    }
}

/// Without a sub-directory named "Left" the set cannot be built.
pub proof fn lemma_missing_left_fails(found: Seq<(String, LoadedTexture)>)
    requires
        forall|i: int| 0 <= i < found.len() ==> (#[trigger] found[i]).0@ != "Left"@,
    ensures
        first_missing(found) is Some,
{
    lemma_not_found(found, Direction::Left);
}

proof fn lemma_not_found(found: Seq<(String, LoadedTexture)>, d: Direction)
    requires
        forall|i: int| 0 <= i < found.len() ==> (#[trigger] found[i]).0@ != d.dir_name(),
    ensures
        last_found(found, d) is None,
    decreases found.len(),
{
    if found.len() > 0 {
        let t = found.drop_last();
        assert forall|i: int| 0 <= i < t.len() implies (#[trigger] t[i]).0@ != d.dir_name() by {
            assert(t[i] == found[i]);
        }
        assert(found[found.len() - 1].0@ != d.dir_name());
        lemma_not_found(t, d);
    }
}

/// A sub-directory with any other name than the four directions changes
/// nothing, wherever it is listed: the same textures are picked, and the same
/// direction, if any, is missing.
pub proof fn lemma_unrecognised_dir_ignored(
    before: Seq<(String, LoadedTexture)>,
    after: Seq<(String, LoadedTexture)>,
    name: String,
    texture: LoadedTexture,
)
    requires
        Direction::spec_from_dir_name(name@) is None,
    ensures
        forall|d: Direction| #[trigger]
            last_found(before + seq![(name, texture)] + after, d) == last_found(before + after, d),
        first_missing(before + seq![(name, texture)] + after) == first_missing(before + after),
    decreases after.len(),
{
    let with = before + seq![(name, texture)] + after;
    let without = before + after;
    if after.len() == 0 {
        assert(with.drop_last() =~= before);
        assert(without =~= before);
    } else {
        lemma_unrecognised_dir_ignored(before, after.drop_last(), name, texture);
        assert(with.drop_last() =~= before + seq![(name, texture)] + after.drop_last());
        assert(without.drop_last() =~= before + after.drop_last());
        assert(with.last() == without.last());
    }
    assert forall|d: Direction| #[trigger] last_found(with, d) == last_found(without, d) by {
        if after.len() > 0 {
            assert(last_found(before + seq![(name, texture)] + after.drop_last(), d) == last_found(
                before + after.drop_last(),
                d,
            ));
        }
    }
    assert(last_found(with, Direction::Up) == last_found(without, Direction::Up));
    assert(last_found(with, Direction::Down) == last_found(without, Direction::Down));
    assert(last_found(with, Direction::Left) == last_found(without, Direction::Left));
    assert(last_found(with, Direction::Right) == last_found(without, Direction::Right));
}

} // verus!
