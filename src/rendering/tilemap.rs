use vstd::prelude::*;

use super::sprites::{SheetView, SpriteSheet};
use super::{DrawCommand, WINDOW_HEIGHT, WINDOW_WIDTH};

verus! {

/// The tiles of one map layer.
#[derive(Debug, PartialEq, Eq)]
pub enum TileLayer {
    /// Every tile's global id, row by row from the top.
    Finite(Vec<Vec<u32>>),
    /// A layer streamed in chunks, which cannot be drawn.
    Infinite,
}

/// A decoded tile map: its layers, and the first global id of each tileset in
/// the order the map lists them.
#[derive(Debug, PartialEq, Eq)]
pub struct TileMap {
    pub layers: Vec<TileLayer>,
    pub tileset_first_gids: Vec<u32>,
}

/// Why a map could not be drawn.
#[derive(Clone, Copy, Debug, PartialEq, Eq, Structural)]
pub enum MapError {
    /// The map has no layer.
    NoLayer,
    /// The first layer is not stored tile by tile.
    UnsupportedLayerEncoding,
    /// The first layer does not cover the window.
    MapTooSmall,
    /// No tileset holds this global id.
    UnresolvedGid(u32),
    /// The tile sheet has no sprite for this global id.
    NoCell(u32),
}

/// Whether a tileset starting at `first_gid` can hold `gid`. First ids of
/// 2^31 and more are never chosen, as in tiled, which compares them as `i32`.
pub open spec fn can_hold(first_gid: u32, gid: u32) -> bool {
    first_gid <= gid && first_gid <= i32::MAX
}

/// The tileset that holds `gid`, among those of the first `n` first ids: the
/// one with the greatest first id that can hold `gid`, the earliest of equals.
pub open spec fn tileset_for(first_gids: Seq<u32>, n: int, gid: u32) -> Option<int>
    decreases n,
{
    if n <= 0 {
        None
    } else {
        let best = tileset_for(first_gids, n - 1, gid);
        let f = first_gids[n - 1];
        if can_hold(f, gid) && (best is None || first_gids[best->Some_0] < f) {
            Some(n - 1)
        } else {
            best
        }
    }
}

/// `tileset_for` picks, among the tilesets that can hold `gid`, the earliest
/// of those that start last; none when no tileset can hold it.
pub proof fn lemma_tileset_for(first_gids: Seq<u32>, n: int, gid: u32)
    requires
        0 <= n <= first_gids.len(),
    ensures
        tileset_for(first_gids, n, gid) matches Some(t) ==> {
            &&& 0 <= t < n
            &&& can_hold(first_gids[t], gid)
            &&& forall|j: int| 0 <= j < n && can_hold(first_gids[j], gid) ==> first_gids[j] <= first_gids[t]
            &&& forall|j: int| 0 <= j < t ==> !(can_hold(first_gids[j], gid) && first_gids[j] == first_gids[t])
        },
        tileset_for(first_gids, n, gid) is None ==> forall|j: int| 0 <= j < n ==> !can_hold(first_gids[j], gid),
    decreases n,
{
    if n > 0 {
        lemma_tileset_for(first_gids, n - 1, gid);
    }
}

/// The global id at column `i` of row `j`, if the layer has it.
pub open spec fn cell_gid(grid: Seq<Vec<u32>>, i: int, j: int) -> Option<u32> {
    if 0 <= j < grid.len() && 0 <= i < grid[j]@.len() {
        Some(grid[j]@[i])
    } else {
        None
    }
}

/// The number of whole cells of `cell` pixels that fit in `window` pixels.
pub open spec fn cells_across(window: u32, cell: u32) -> int {
    window as int / cell as int
}

/// Drawing the tile at column `i` of row `j` at pixel `(i * cell_w, j * cell_h)`:
/// its tileset is found by its global id, and the sprite shown is the id's
/// offset from that tileset's first id.
pub open spec fn tile_command(sheet: SheetView, first_gids: Seq<u32>, grid: Seq<Vec<u32>>, i: int, j: int) -> Result<
    DrawCommand,
    MapError,
> {
    match cell_gid(grid, i, j) {
        None => Err(MapError::MapTooSmall),
        Some(gid) => match tileset_for(first_gids, first_gids.len() as int, gid) {
            None => Err(MapError::UnresolvedGid(gid)),
            Some(t) => {
                let local = gid - first_gids[t];
                if local < sheet.cells.len() {
                    Ok(sheet.draw(local, (i * sheet.dims.0) as i32, (j * sheet.dims.1) as i32))
                } else {
                    Err(MapError::NoCell(gid))
                }
            },
        },
    }
}

/// Drawing the `k`-th visible cell in row-major order.
pub open spec fn cell_command(sheet: SheetView, first_gids: Seq<u32>, grid: Seq<Vec<u32>>, k: int) -> Result<
    DrawCommand,
    MapError,
> {
    let cols = cells_across(WINDOW_WIDTH, sheet.dims.0);
    tile_command(sheet, first_gids, grid, k % cols, k / cols)
}

/// The commands for the first `n` visible cells in row-major order, or the
/// error of the first of them that fails.
pub open spec fn tile_commands(sheet: SheetView, first_gids: Seq<u32>, grid: Seq<Vec<u32>>, n: int) -> Result<
    Seq<DrawCommand>,
    MapError,
>
    decreases n,
{
    if n <= 0 {
        Ok(Seq::empty())
    } else {
        match tile_commands(sheet, first_gids, grid, n - 1) {
            Err(e) => Err(e),
            Ok(cmds) => match cell_command(sheet, first_gids, grid, n - 1) {
                Err(e) => Err(e),
                Ok(c) => Ok(cmds.push(c)),
            },
        }
    }
}

/// Drawing the window's worth of the map's first layer with this sheet.
pub open spec fn map_commands(sheet: SheetView, map: TileMap) -> Result<Seq<DrawCommand>, MapError> {
    if map.layers@.len() == 0 {
        Err(MapError::NoLayer)
    } else {
        match map.layers@[0] {
            TileLayer::Infinite => Err(MapError::UnsupportedLayerEncoding),
            TileLayer::Finite(grid) => tile_commands(
                sheet,
                map.tileset_first_gids@,
                grid@,
                cells_across(WINDOW_WIDTH, sheet.dims.0) * cells_across(WINDOW_HEIGHT, sheet.dims.1),
            ),
        }
    }
}

impl TileMap {
    /// The index of the tileset that holds `gid`: among the tilesets whose
    /// first id is not above `gid` (nor above `i32::MAX`), the one that starts
    /// last, the earliest listed of equals; `None` when there is none.
    pub fn get_tileset_by_gid(&self, gid: u32) -> (r: Option<usize>)
        ensures
            r matches Some(t) ==> tileset_for(
                self.tileset_first_gids@,
                self.tileset_first_gids@.len() as int,
                gid,
            ) == Some(t as int),
            r is None ==> tileset_for(
                self.tileset_first_gids@,
                self.tileset_first_gids@.len() as int,
                gid,
            ) is None,
    {
        let n = self.tileset_first_gids.len();
        let mut best: Option<usize> = None;
        let mut k: usize = 0;
        while k < n
            invariant
                n == self.tileset_first_gids@.len(),
                k <= n,
                best matches Some(b) ==> tileset_for(self.tileset_first_gids@, k as int, gid) == Some(
                    b as int,
                ),
                best is None ==> tileset_for(self.tileset_first_gids@, k as int, gid) is None,
                best matches Some(b) ==> b < k,
            decreases n - k,
        {
            let f = self.tileset_first_gids[k];
            let better = match best {
                None => f <= gid && f <= 0x7fff_ffff,
                Some(b) => f <= gid && f <= 0x7fff_ffff && self.tileset_first_gids[b] < f,
            };
            if better {
                best = Some(k);
            }
            k = k + 1;
        }
        best
    }
}

fn tile_command_exec(sheet: &SpriteSheet, map: &TileMap, grid: &Vec<Vec<u32>>, i: u32, j: u32) -> (r: Result<
    DrawCommand,
    MapError,
>)
    requires
        sheet@.wf(),
        (i as int) * (sheet@.dims.0 as int) < WINDOW_WIDTH,
        (j as int) * (sheet@.dims.1 as int) < WINDOW_HEIGHT,
    ensures
        r == tile_command(sheet@, map.tileset_first_gids@, grid@, i as int, j as int),
{
    if (j as usize) >= grid.len() || (i as usize) >= grid[j as usize].len() {
        return Err(MapError::MapTooSmall);
    }
    let gid = grid[j as usize][i as usize];
    match map.get_tileset_by_gid(gid) {
        None => Err(MapError::UnresolvedGid(gid)),
        Some(t) => {
            proof {
                lemma_tileset_for(map.tileset_first_gids@, map.tileset_first_gids@.len() as int, gid);
            }
            let local = gid - map.tileset_first_gids[t];
            let (w, h) = sheet.sprite_dimensions();
            if (local as usize) < sheet.len() {
                Ok(sheet.draw_to(local as usize, (i * w) as i32, (j * h) as i32))
            } else {
                Err(MapError::NoCell(gid))
            }
        },
    }
}

impl SpriteSheet {
    /// Draws the part of the map's first layer that fills the window, tile
    /// by tile in row-major order, each tile from this sheet at its grid
    /// position; on a map that does not resolve, says which tile (or layer)
    /// is at fault, the first in that order.
    pub fn try_draw_map(&self, map: &TileMap) -> (r: Result<Vec<DrawCommand>, MapError>)
        requires
            self@.wf(),
        ensures
            r matches Ok(cmds) ==> map_commands(self@, *map) == Ok::<Seq<DrawCommand>, MapError>(cmds@),
            r matches Err(e) ==> map_commands(self@, *map) == Err::<Seq<DrawCommand>, MapError>(e),
    {
        if map.layers.len() == 0 {
            return Err(MapError::NoLayer);
        }
        let grid = match &map.layers[0] {
            TileLayer::Finite(tiles) => tiles,
            TileLayer::Infinite => {
                return Err(MapError::UnsupportedLayerEncoding);
            },
        };
        let (w, h) = self.sprite_dimensions();
        let cols = WINDOW_WIDTH / w;
        let rows = WINDOW_HEIGHT / h;
        let ghost c = cols as int;
        let mut out: Vec<DrawCommand> = Vec::new();
        let mut j: u32 = 0;
        while j < rows
            invariant
                self@.wf(),
                (w, h) == self@.dims,
                cols == WINDOW_WIDTH / w,
                rows == WINDOW_HEIGHT / h,
                c == cols,
                j <= rows,
                map.layers@.len() > 0,
                map.layers@[0] == TileLayer::Finite(*grid),
                tile_commands(self@, map.tileset_first_gids@, grid@, j * c) == Ok::<
                    Seq<DrawCommand>,
                    MapError,
                >(out@),
            decreases rows - j,
        {
            let mut i: u32 = 0;
            while i < cols
                invariant
                    self@.wf(),
                    (w, h) == self@.dims,
                    cols == WINDOW_WIDTH / w,
                    rows == WINDOW_HEIGHT / h,
                    c == cols,
                    j < rows,
                    i <= cols,
                    map.layers@.len() > 0,
                    map.layers@[0] == TileLayer::Finite(*grid),
                    tile_commands(self@, map.tileset_first_gids@, grid@, j * c + i) == Ok::<
                        Seq<DrawCommand>,
                        MapError,
                    >(out@),
                decreases cols - i,
            {
                proof {
                    vstd::arithmetic::div_mod::lemma_fundamental_div_mod_converse(
                        j * c + i,
                        c,
                        j as int,
                        i as int,
                    );
                    vstd::arithmetic::div_mod::lemma_fundamental_div_mod(WINDOW_WIDTH as int, w as int);
                    vstd::arithmetic::div_mod::lemma_fundamental_div_mod(WINDOW_HEIGHT as int, h as int);
                    vstd::arithmetic::div_mod::lemma_mod_pos_bound(WINDOW_WIDTH as int, w as int);
                    vstd::arithmetic::div_mod::lemma_mod_pos_bound(WINDOW_HEIGHT as int, h as int);
                    assert((i as int) * (w as int) < WINDOW_WIDTH) by (nonlinear_arith)
                        requires
                            i < c,
                            w > 0,
                            c * w <= WINDOW_WIDTH,
                    ;
                    assert((j as int) * (h as int) < WINDOW_HEIGHT) by (nonlinear_arith)
                        requires
                            j < rows,
                            h > 0,
                            rows * h <= WINDOW_HEIGHT,
                    ;
                }
                match tile_command_exec(self, map, grid, i, j) {
                    Ok(cmd) => {
                        out.push(cmd);
                    },
                    Err(e) => {
                        proof {
                            assert(j * c + i + 1 <= c * (rows as int)) by (nonlinear_arith)
                                requires
                                    i < c,
                                    j < rows,
                            ;
                            lemma_tile_commands_failed(
                                self@,
                                map.tileset_first_gids@,
                                grid@,
                                j * c + i + 1,
                                c * (rows as int),
                            );
                        }
                        return Err(e);
                    },
                }
                i = i + 1;
            }
            proof {
                assert(j * c + c == (j + 1) * c) by (nonlinear_arith);
            }
            j = j + 1;
        }
        proof {
            assert(rows * c == c * rows) by (nonlinear_arith);
        }
        Ok(out)
    }
}

/// Every visible cell of the map's first layer is on the layer, resolves to a
/// tileset and names a sprite of the sheet; the layer is stored tile by tile.
pub open spec fn map_resolves(sheet: SheetView, map: TileMap) -> bool {
    &&& map.layers@.len() > 0
    &&& map.layers@[0] matches TileLayer::Finite(grid)
    &&& forall|i: int, j: int|
        0 <= i < cells_across(WINDOW_WIDTH, sheet.dims.0) && 0 <= j < cells_across(WINDOW_HEIGHT, sheet.dims.1)
            ==> #[trigger] tile_command(sheet, map.tileset_first_gids@, grid@, i, j) is Ok
}

impl SpriteSheet {
    /// Draws the part of the map's first layer that fills the window: one
    /// command per visible cell, row-major, the cell at column `i` of row `j`
    /// at position `j * columns + i`, showing the sprite at the tile's offset
    /// in its tileset, at pixel `(i * cell_w, j * cell_h)`. The map must
    /// resolve: a tile that cannot be drawn is a broken asset.
    pub fn draw_map(&self, map: &TileMap) -> (r: Vec<DrawCommand>)
        requires
            self@.wf(),
            map_resolves(self@, *map),
        ensures
            map_commands(self@, *map) == Ok::<Seq<DrawCommand>, MapError>(r@),
            ({
                let cols = cells_across(WINDOW_WIDTH, self@.dims.0);
                let rows = cells_across(WINDOW_HEIGHT, self@.dims.1);
                &&& r@.len() == cols * rows
                &&& forall|i: int, j: int| 0 <= i < cols && 0 <= j < rows ==> Ok::<DrawCommand, MapError>(#[trigger] r@[j * cols + i])
                    == tile_command(self@, map.tileset_first_gids@, map.layers@[0]->Finite_0@, i, j)
            }),
    {
        proof {
            lemma_resolving_map_draws(self@, *map);
        }
        match self.try_draw_map(map) {
            Ok(cmds) => cmds,
            Err(_) => Vec::new(),
        }
    }
}

/// On a resolving map every visible cell is drawn, each at its row-major
/// place.
proof fn lemma_resolving_map_draws(sheet: SheetView, map: TileMap)
    requires
        sheet.wf(),
        map_resolves(sheet, map),
    ensures
        map_commands(sheet, map) is Ok,
        ({
            let cols = cells_across(WINDOW_WIDTH, sheet.dims.0);
            let rows = cells_across(WINDOW_HEIGHT, sheet.dims.1);
            let grid = map.layers@[0]->Finite_0@;
            &&& map_commands(sheet, map)->Ok_0.len() == cols * rows
            &&& forall|i: int, j: int| 0 <= i < cols && 0 <= j < rows ==> Ok::<DrawCommand, MapError>(
                #[trigger] map_commands(sheet, map)->Ok_0[j * cols + i],
            ) == tile_command(sheet, map.tileset_first_gids@, grid, i, j)
        }),
{
    let cols = cells_across(WINDOW_WIDTH, sheet.dims.0);
    let rows = cells_across(WINDOW_HEIGHT, sheet.dims.1);
    let grid = map.layers@[0]->Finite_0@;
    let fg = map.tileset_first_gids@;
    vstd::arithmetic::div_mod::lemma_div_pos_is_pos(WINDOW_WIDTH as int, sheet.dims.0 as int);
    vstd::arithmetic::div_mod::lemma_div_pos_is_pos(WINDOW_HEIGHT as int, sheet.dims.1 as int);
    if cols == 0 {
        assert(cols * rows == 0);
        lemma_tile_commands_ok(sheet, fg, grid, 0);
    } else {
        assert forall|k: int| 0 <= k < cols * rows implies #[trigger] cell_command(sheet, fg, grid, k) is Ok by {
            vstd::arithmetic::div_mod::lemma_fundamental_div_mod(k, cols);
            vstd::arithmetic::div_mod::lemma_mod_pos_bound(k, cols);
            vstd::arithmetic::div_mod::lemma_div_pos_is_pos(k, cols);
            assert(k / cols < rows) by (nonlinear_arith)
                requires
                    k == cols * (k / cols) + k % cols,
                    0 <= k % cols,
                    k < cols * rows,
                    cols >= 1,
            ;
            assert(tile_command(sheet, fg, grid, k % cols, k / cols) is Ok);
        }
        assert(0 <= cols * rows) by (nonlinear_arith)
            requires
                cols >= 1,
                rows >= 0,
        ;
        lemma_tile_commands_ok(sheet, fg, grid, cols * rows);
        assert forall|i: int, j: int| 0 <= i < cols && 0 <= j < rows implies Ok::<DrawCommand, MapError>(
            #[trigger] map_commands(sheet, map)->Ok_0[j * cols + i],
        ) == tile_command(sheet, fg, grid, i, j) by {
            let k = j * cols + i;
            vstd::arithmetic::div_mod::lemma_fundamental_div_mod_converse(k, cols, j, i);
            assert((j + 1) * cols <= rows * cols) by (nonlinear_arith)
                requires
                    j + 1 <= rows,
                    cols >= 1,
            ;
            assert((j + 1) * cols == j * cols + cols) by (nonlinear_arith);
            assert(rows * cols == cols * rows) by (nonlinear_arith);
            assert(0 <= k) by (nonlinear_arith)
                requires
                    k == j * cols + i,
                    0 <= i,
                    0 <= j,
                    cols >= 1,
            ;
            assert(Ok::<DrawCommand, MapError>(map_commands(sheet, map)->Ok_0[k]) == cell_command(sheet, fg, grid, k));
        }
    }
}

/// When each of the first `n` visible cells can be drawn, all are, in order.
proof fn lemma_tile_commands_ok(sheet: SheetView, first_gids: Seq<u32>, grid: Seq<Vec<u32>>, n: int)
    requires
        0 <= n,
        forall|k: int| 0 <= k < n ==> #[trigger] cell_command(sheet, first_gids, grid, k) is Ok,
    ensures
        tile_commands(sheet, first_gids, grid, n) is Ok,
        tile_commands(sheet, first_gids, grid, n)->Ok_0.len() == n,
        forall|k: int| 0 <= k < n ==> Ok::<DrawCommand, MapError>(
            #[trigger] tile_commands(sheet, first_gids, grid, n)->Ok_0[k],
        ) == cell_command(sheet, first_gids, grid, k),
    decreases n,
{
    if n > 0 {
        lemma_tile_commands_ok(sheet, first_gids, grid, n - 1);
        assert(cell_command(sheet, first_gids, grid, n - 1) is Ok);
    }
}

/// Once a visible cell has failed, drawing more cells gives the same error.
proof fn lemma_tile_commands_failed(sheet: SheetView, first_gids: Seq<u32>, grid: Seq<Vec<u32>>, k: int, n: int)
    requires
        0 <= k <= n,
        tile_commands(sheet, first_gids, grid, k) is Err,
    ensures
        tile_commands(sheet, first_gids, grid, n) == tile_commands(sheet, first_gids, grid, k),
    decreases n - k,
{
    if k < n {
        lemma_tile_commands_failed(sheet, first_gids, grid, k + 1, n);
    }
}

} // verus!
