use vstd::prelude::*;

use super::sprites::{lemma_with_same_sheet, lemma_with_sheet_wf, CatalogView, SpriteHolder};
use super::{DestRect, DrawCommand};
use crate::models::components::{portion, Gender, PlayerClass, PlayerState, PlayerStats, Position, PrimaryStat};

verus! {

/// A deferred description of what to draw this frame.
#[derive(Clone, Copy, Debug, PartialEq, Eq, Structural)]
pub enum RenderRequest {
    Player { class: PlayerClass, gender: Gender, position: Position, state: PlayerState },
    HUD(PlayerClass, Gender, PlayerStats),
}

pub type RenderQueue = Vec<RenderRequest>;

/// Why a request could not be drawn.
#[derive(Clone, Copy, Debug, PartialEq, Eq, Structural)]
pub enum RenderError {
    /// No sprite is registered under the name the request needs.
    UnknownSprite,
    /// No animation is registered for the request's key and activity.
    UnknownAnimation,
    /// The sheet to draw from has no sprite to show.
    NoCell,
}

/// The catalog key of a class and gender: `"{class}_{gender}"`.
pub open spec fn spec_composite_key(class: PlayerClass, gender: Gender) -> Seq<char> {
    class.name() + "_"@ + gender.name()
}

/// Builds the catalog key `"{class}_{gender}"`, such as `"warrior_based"`.
pub fn composite_key(class: PlayerClass, gender: Gender) -> (r: String)
    ensures
        r@ == spec_composite_key(class, gender),
{
    let mut key = class.to_string();
    key.append("_");
    let g = gender.to_string();
    key.append(g.as_str());
    key
}

/// The name of the HUD portrait of a class and gender: `"{class}_{gender}_ui"`.
pub open spec fn spec_portrait_key(class: PlayerClass, gender: Gender) -> Seq<char> {
    spec_composite_key(class, gender) + "_ui"@
}

/// Drawing the first sprite of the sheet `name` with its corner at (x, y).
pub open spec fn sprite_command(c: CatalogView, name: Seq<char>, x: i32, y: i32) -> Result<
    DrawCommand,
    RenderError,
> {
    if !c.sprites.contains_key(name) {
        Err(RenderError::UnknownSprite)
    } else if c.sprites[name].cells.len() == 0 {
        Err(RenderError::NoCell)
    } else {
        Ok(c.sprites[name].draw(0, x, y))
    }
}

/// Drawing the first sprite of the gauge `name` at (x, y), as wide as the
/// stat is full.
pub open spec fn gauge_command(c: CatalogView, name: Seq<char>, x: i32, y: i32, stat: PrimaryStat) -> Result<
    DrawCommand,
    RenderError,
> {
    if !c.sprites.contains_key(name) {
        Err(RenderError::UnknownSprite)
    } else if c.sprites[name].cells.len() == 0 {
        Err(RenderError::NoCell)
    } else {
        Ok(c.sprites[name].draw_portion(0, x, y, stat.current as int, stat.max as int))
    }
}

/// The HUD: portrait panel, then the health, mana and experience bars, each
/// bar as wide as its stat is full; the first failing lookup is the error.
pub open spec fn hud_commands(c: CatalogView, class: PlayerClass, gender: Gender, stats: PlayerStats) -> Result<
    Seq<DrawCommand>,
    RenderError,
> {
    let portrait = sprite_command(c, spec_portrait_key(class, gender), 0, 0);
    let health = gauge_command(c, "health_bar"@, 49, 5, stats.health);
    let mana = gauge_command(c, "magic_bar"@, 61, 20, stats.mana);
    let exp = gauge_command(c, "exp_bar"@, 49, 35, stats.experience);
    if portrait is Err {
        Err(portrait->Err_0)
    } else if health is Err {
        Err(health->Err_0)
    } else if mana is Err {
        Err(mana->Err_0)
    } else if exp is Err {
        Err(exp->Err_0)
    } else {
        Ok(seq![portrait->Ok_0, health->Ok_0, mana->Ok_0, exp->Ok_0])
    }
}

/// Drawing one request: a player shows the next frame of the animation of its
/// class, gender, activity and facing, which moves that animation on; a HUD
/// draws its four parts. On failure the catalog is left as it was.
pub open spec fn render_one(c: CatalogView, req: RenderRequest) -> (CatalogView, Result<
    Seq<DrawCommand>,
    RenderError,
>) {
    match req {
        RenderRequest::Player { class, gender, position, state } => {
            let key = spec_composite_key(class, gender);
            let m = state.spec_index();
            let d = position.direction;
            if !c.has_sheet(key, m) {
                (c, Err(RenderError::UnknownAnimation))
            } else if c.sheet(key, m, d).cells.len() == 0 {
                (c, Err(RenderError::NoCell))
            } else {
                let sh = c.sheet(key, m, d);
                (c.with_sheet(key, m, d, sh.advance()), Ok(seq![sh.draw(sh.cursor, position.x, position.y)]))
            }
        },
        RenderRequest::HUD(class, gender, stats) => (c, hud_commands(c, class, gender, stats)),
    }
}

/// Drawing the requests in queue order: the commands of each request follow
/// those of the requests before it; drawing stops at the first request that
/// fails.
pub open spec fn render_all(c: CatalogView, reqs: Seq<RenderRequest>) -> (CatalogView, Result<
    Seq<DrawCommand>,
    RenderError,
>)
    decreases reqs.len(),
{
    if reqs.len() == 0 {
        (c, Ok(Seq::empty()))
    } else {
        let (c1, r1) = render_all(c, reqs.drop_last());
        match r1 {
            Err(e) => (c1, Err(e)),
            Ok(cmds) => {
                let (c2, r2) = render_one(c1, reqs.last());
                match r2 {
                    Err(e) => (c2, Err(e)),
                    Ok(more) => (c2, Ok(cmds + more)),
                }
            },
        }
    }
}

proof fn lemma_render_all_wf(c: CatalogView, reqs: Seq<RenderRequest>)
    requires
        c.wf(),
    ensures
        render_all(c, reqs).0.wf(),
    decreases reqs.len(),
{
    if reqs.len() > 0 {
        lemma_render_all_wf(c, reqs.drop_last());
        let c1 = render_all(c, reqs.drop_last()).0;
        if let RenderRequest::Player { class, gender, position, state } = reqs.last() {
            let key = spec_composite_key(class, gender);
            let m = state.spec_index();
            let d = position.direction;
            if c1.has_sheet(key, m) && c1.sheet(key, m, d).cells.len() > 0 {
                assert(super::sprites::directional_wf(c1.animations[key][m]));
                let sh = c1.sheet(key, m, d);
                vstd::arithmetic::div_mod::lemma_mod_bound(sh.cursor + 1, sh.cells.len() as int);
                lemma_with_sheet_wf(c1, key, m, d, c1.sheet(key, m, d).advance());
            }
        }
    }
}

fn sprite_command_exec(holder: &SpriteHolder, name: &str, x: i32, y: i32) -> (r: Result<
    DrawCommand,
    RenderError,
>)
    ensures
        r == sprite_command(holder@, name@, x, y),
{
    match holder.get_sprite(name) {
        None => Err(RenderError::UnknownSprite),
        Some(sheet) => if sheet.len() == 0 {
            Err(RenderError::NoCell)
        } else {
            Ok(sheet.draw_to(0, x, y))
        },
    }
}

fn gauge_command_exec(holder: &SpriteHolder, name: &str, x: i32, y: i32, stat: PrimaryStat) -> (r: Result<
    DrawCommand,
    RenderError,
>)
    ensures
        r == gauge_command(holder@, name@, x, y, stat),
{
    match holder.get_sprite(name) {
        None => Err(RenderError::UnknownSprite),
        Some(sheet) => if sheet.len() == 0 {
            Err(RenderError::NoCell)
        } else {
            Ok(sheet.draw_portion_of(0, x, y, stat.current, stat.max))
        },
    }
}

/// Draws one request, appending its commands to `out`.
fn render_request(req: RenderRequest, holder: &mut SpriteHolder, out: &mut Vec<DrawCommand>) -> (r: Result<
    (),
    RenderError,
>)
    requires
        old(holder)@.wf(),
    ensures
        final(holder)@ == render_one(old(holder)@, req).0,
        r is Ok <==> render_one(old(holder)@, req).1 is Ok,
        r is Ok ==> final(out)@ == old(out)@ + render_one(old(holder)@, req).1->Ok_0,
        r is Err ==> r == Err::<(), RenderError>(render_one(old(holder)@, req).1->Err_0),
{
    match req {
        RenderRequest::Player { class, gender, position, state } => {
            let key = composite_key(class, gender);
            let ghost c = holder@;
            let ghost m = state.spec_index();
            let ghost d = position.direction;
            match holder.get_directional(key.as_str(), state.index(), position.direction) {
                None => Err(RenderError::UnknownAnimation),
                Some(sheet) => {
                    proof {
                        assert(super::sprites::directional_wf(c.animations[key@][m]));
                    }
                    match sheet.draw_animated(position.x, position.y) {
                        None => {
                            proof {
                                lemma_with_same_sheet(c, key@, m, d);
                            }
                            Err(RenderError::NoCell)
                        },
                        Some(cmd) => {
                            let ghost before = out@;
                            out.push(cmd);
                            assert(out@ =~= before + seq![cmd]);
                            Ok(())
                        },
                    }
                },
            }
        },
        RenderRequest::HUD(class, gender, stats) => {
            let mut portrait = composite_key(class, gender);
            portrait.append("_ui");
            let p = sprite_command_exec(holder, portrait.as_str(), 0, 0);
            let h = gauge_command_exec(holder, "health_bar", 49, 5, stats.health);
            let m = gauge_command_exec(holder, "magic_bar", 61, 20, stats.mana);
            let e = gauge_command_exec(holder, "exp_bar", 49, 35, stats.experience);
            match (p, h, m, e) {
                (Ok(p), Ok(h), Ok(m), Ok(e)) => {
                    let ghost before = out@;
                    out.push(p);
                    out.push(h);
                    out.push(m);
                    out.push(e);
                    assert(out@ =~= before + seq![p, h, m, e]);
                    Ok(())
                },
                (Err(x), _, _, _) => Err(x),
                (_, Err(x), _, _) => Err(x),
                (_, _, Err(x), _) => Err(x),
                (_, _, _, Err(x)) => Err(x),
            }
        },
    }
}

/// Drains the render queue in the order the requests were queued, resolving
/// each against the catalog and returning the draw commands of all of them
/// in that order. Player animations move on by one frame as they are drawn.
/// The first request that cannot be resolved aborts the frame with its
/// error. Either way the queue is left empty; draining an empty queue gives
/// no commands and changes nothing.
pub fn try_render_queue_items(render_queue: &mut RenderQueue, sprite_holder: &mut SpriteHolder) -> (r: Result<
    Vec<DrawCommand>,
    RenderError,
>)
    requires
        old(sprite_holder)@.wf(),
    ensures
        final(render_queue)@ == Seq::<RenderRequest>::empty(),
        final(sprite_holder)@ == render_all(old(sprite_holder)@, old(render_queue)@).0,
        final(sprite_holder)@.wf(),
        r matches Ok(cmds) ==> render_all(old(sprite_holder)@, old(render_queue)@).1 == Ok::<
            Seq<DrawCommand>,
            RenderError,
        >(cmds@),
        r matches Err(e) ==> render_all(old(sprite_holder)@, old(render_queue)@).1 == Err::<
            Seq<DrawCommand>,
            RenderError,
        >(e),
{
    let ghost c0 = sprite_holder@;
    let n = render_queue.len();
    let mut out: Vec<DrawCommand> = Vec::new();
    let mut i: usize = 0;
    while i < n
        invariant
            n == render_queue@.len(),
            render_queue@ == old(render_queue)@,
            c0 == old(sprite_holder)@,
            c0.wf(),
            i <= n,
            sprite_holder@ == render_all(c0, render_queue@.take(i as int)).0,
            render_all(c0, render_queue@.take(i as int)).1 == Ok::<Seq<DrawCommand>, RenderError>(out@),
            sprite_holder@.wf(),
        decreases n - i,
    {
        proof {
            assert(render_queue@.take(i as int + 1).drop_last() =~= render_queue@.take(i as int));
            lemma_render_all_wf(c0, render_queue@.take(i as int + 1));
        }
        let req = render_queue[i];
        match render_request(req, sprite_holder, &mut out) {
            Ok(()) => {},
            Err(e) => {
                proof {
                    lemma_render_all_failed(c0, render_queue@, i as int + 1);
                }
                render_queue.clear();
                return Err(e);
            },
        }
        i = i + 1;
    }
    assert(render_queue@.take(n as int) =~= render_queue@);
    render_queue.clear();
    Ok(out)
}

/// Once drawing has failed on a prefix of the requests, the rest change
/// nothing.
proof fn lemma_render_all_failed(c: CatalogView, reqs: Seq<RenderRequest>, k: int)
    requires
        0 <= k <= reqs.len(),
        render_all(c, reqs.take(k)).1 is Err,
    ensures
        render_all(c, reqs) == render_all(c, reqs.take(k)),
    decreases reqs.len() - k,
{
    if k < reqs.len() {
        assert(reqs.take(k + 1).drop_last() =~= reqs.take(k));
        lemma_render_all_failed(c, reqs, k + 1);
    } else {
        assert(reqs.take(k) =~= reqs);
    }
}

/// Draining an empty queue draws nothing and changes nothing.
pub proof fn lemma_drain_empty_is_noop(c: CatalogView)
    ensures
        render_all(c, Seq::empty()) == (c, Ok::<Seq<DrawCommand>, RenderError>(Seq::empty())),
{
}

/// Each request is drawn once, in queue order: draining `a + b` draws `a`,
/// then draws `b` from the catalog that `a` left, and the commands of `b`
/// follow those of `a`.
pub proof fn lemma_drain_in_order(c: CatalogView, a: Seq<RenderRequest>, b: Seq<RenderRequest>)
    requires
        render_all(c, a).1 is Ok,
    ensures
        ({
            let (ca, ra) = render_all(c, a);
            let (cb, rb) = render_all(ca, b);
            &&& render_all(c, a + b).0 == cb
            &&& render_all(c, a + b).1 == match rb {
                Ok(cmds) => Ok::<Seq<DrawCommand>, RenderError>(ra->Ok_0 + cmds),
                Err(e) => Err(e),
            }
        }),
    decreases b.len(),
{
    if b.len() == 0 {
        assert(a + b =~= a);
        let ra = render_all(c, a).1->Ok_0;
        assert(ra + Seq::<DrawCommand>::empty() =~= ra);
    } else {
        lemma_drain_in_order(c, a, b.drop_last());
        assert((a + b).drop_last() =~= a + b.drop_last());
        assert((a + b).last() == b.last());
        let ra = render_all(c, a).1->Ok_0;
        let ca = render_all(c, a).0;
        let rb1 = render_all(ca, b.drop_last()).1;
        if rb1 is Ok {
            let cb1 = render_all(ca, b.drop_last()).0;
            let r2 = render_one(cb1, b.last()).1;
            if r2 is Ok {
                assert(ra + rb1->Ok_0 + r2->Ok_0 =~= ra + (rb1->Ok_0 + r2->Ok_0));
            }
        }
    }
}

/// Whether the catalog can draw the request: a player's animation is
/// registered for its key and activity, and the sheet for its facing has a
/// sprite; a HUD's portrait and three gauges are registered and not empty.
pub open spec fn request_resolves(c: CatalogView, req: RenderRequest) -> bool {
    match req {
        RenderRequest::Player { class, gender, position, state } => {
            let key = spec_composite_key(class, gender);
            let m = state.spec_index();
            &&& c.has_sheet(key, m)
            &&& position.direction.spec_index() < c.animations[key][m].len()
            &&& c.sheet(key, m, position.direction).cells.len() > 0
        },
        RenderRequest::HUD(class, gender, _) => {
            &&& sprite_resolves(c, spec_portrait_key(class, gender))
            &&& sprite_resolves(c, "health_bar"@)
            &&& sprite_resolves(c, "magic_bar"@)
            &&& sprite_resolves(c, "exp_bar"@)
        },
    }
}

pub open spec fn sprite_resolves(c: CatalogView, name: Seq<char>) -> bool {
    c.sprites.contains_key(name) && c.sprites[name].cells.len() > 0
}

/// Every queued request can be drawn.
pub open spec fn queue_resolves(c: CatalogView, reqs: Seq<RenderRequest>) -> bool {
    forall|k: int| 0 <= k < reqs.len() ==> request_resolves(c, #[trigger] reqs[k])
}

/// How many commands the requests draw: one per player, four per HUD.
pub open spec fn command_count(reqs: Seq<RenderRequest>) -> nat
    decreases reqs.len(),
{
    if reqs.len() == 0 {
        0
    } else {
        command_count(reqs.drop_last()) + match reqs.last() {
            RenderRequest::Player { .. } => 1nat,
            RenderRequest::HUD(..) => 4nat,
        }
    }
}

/// Drawing a resolving request succeeds, draws one command for a player and
/// four for a HUD, and leaves every other resolving request resolving.
proof fn lemma_render_one_resolves(c: CatalogView, r1: RenderRequest, r2: RenderRequest)
    requires
        request_resolves(c, r1),
        request_resolves(c, r2),
    ensures
        render_one(c, r1).1 is Ok,
        render_one(c, r1).1->Ok_0.len() == command_count(seq![r1]),
        request_resolves(render_one(c, r1).0, r2),
{
    assert(seq![r1].drop_last() =~= Seq::<RenderRequest>::empty());
    assert(command_count(Seq::<RenderRequest>::empty()) == 0);
    assert(seq![r1].last() == r1);
    if let RenderRequest::Player { class, gender, position, state } = r1 {
        let key = spec_composite_key(class, gender);
        let m = state.spec_index();
        let d = position.direction;
        let sh = c.sheet(key, m, d);
        let c2 = c.with_sheet(key, m, d, sh.advance());
        if let RenderRequest::Player { class: class2, gender: gender2, position: p2, state: s2 } = r2 {
            let key2 = spec_composite_key(class2, gender2);
            let m2 = s2.spec_index();
            assert(c2.has_sheet(key2, m2));
            assert(c2.animations[key2][m2].len() == c.animations[key2][m2].len());
            assert(c2.sheet(key2, m2, p2.direction).cells == c.sheet(key2, m2, p2.direction).cells);
        }
    }
}

/// Drawing resolving requests keeps every resolving request resolving.
proof fn lemma_render_all_keeps_resolving(c: CatalogView, reqs: Seq<RenderRequest>, r: RenderRequest)
    requires
        queue_resolves(c, reqs),
        request_resolves(c, r),
    ensures
        render_all(c, reqs).1 is Ok,
        render_all(c, reqs).1->Ok_0.len() == command_count(reqs),
        request_resolves(render_all(c, reqs).0, r),
    decreases reqs.len(),
{
    if reqs.len() > 0 {
        let t = reqs.drop_last();
        let last = reqs.last();
        assert(queue_resolves(c, t)) by {
            assert forall|k: int| 0 <= k < t.len() implies request_resolves(c, #[trigger] t[k]) by {
                assert(t[k] == reqs[k]);
            }
        }
        assert(request_resolves(c, reqs[reqs.len() - 1]));
        lemma_render_all_keeps_resolving(c, t, r);
        lemma_render_all_keeps_resolving(c, t, last);
        let c1 = render_all(c, t).0;
        lemma_render_one_resolves(c1, last, r);
        assert(seq![last].drop_last() =~= Seq::<RenderRequest>::empty());
    }
}

/// Draining a queue of resolving requests draws each of them exactly once,
/// in queue order: one command per player request and four per HUD.
pub proof fn lemma_resolving_queue_draws(c: CatalogView, reqs: Seq<RenderRequest>)
    requires
        queue_resolves(c, reqs),
    ensures
        render_all(c, reqs).1 is Ok,
        render_all(c, reqs).1->Ok_0.len() == command_count(reqs),
{
    if reqs.len() > 0 {
        assert(request_resolves(c, reqs[0]));
        lemma_render_all_keeps_resolving(c, reqs, reqs[0]);
    } else {
        assert(command_count(reqs) == 0);
    }
}

/// A HUD whose sprites resolve draws the panel at the origin, then each bar
/// at its place, as wide as its stat is full and at full height.
pub proof fn lemma_hud_bars(c: CatalogView, class: PlayerClass, gender: Gender, stats: PlayerStats)
    requires
        request_resolves(c, RenderRequest::HUD(class, gender, stats)),
    ensures
        hud_commands(c, class, gender, stats) == Ok::<Seq<DrawCommand>, RenderError>(
            seq![
                c.sprites[spec_portrait_key(class, gender)].draw(0, 0, 0),
                c.sprites["health_bar"@].draw_portion(0, 49, 5, stats.health.current as int, stats.health.max as int),
                c.sprites["magic_bar"@].draw_portion(0, 61, 20, stats.mana.current as int, stats.mana.max as int),
                c.sprites["exp_bar"@].draw_portion(0, 49, 35, stats.experience.current as int, stats.experience.max as int),
            ],
        ),
        hud_commands(c, class, gender, stats)->Ok_0[1].dst == (DestRect {
            x: 49,
            y: 5,
            w: portion(stats.health.current as int, stats.health.max as int, c.sprites["health_bar"@].dims.0 as int) as u32,
            h: c.sprites["health_bar"@].dims.1,
        }),
{
}

/// Drains a render queue whose every request resolves against the catalog:
/// the commands of each request in queue order, one for a player (the next
/// frame of its animation, which moves on) and four for a HUD. The queue is
/// left empty. An unresolvable request is a broken asset set, which the
/// caller rules out.
pub fn render_queue_items(render_queue: &mut RenderQueue, sprite_holder: &mut SpriteHolder) -> (r: Vec<
    DrawCommand,
>)
    requires
        old(sprite_holder)@.wf(),
        queue_resolves(old(sprite_holder)@, old(render_queue)@),
    ensures
        final(render_queue)@ == Seq::<RenderRequest>::empty(),
        final(sprite_holder)@ == render_all(old(sprite_holder)@, old(render_queue)@).0,
        final(sprite_holder)@.wf(),
        render_all(old(sprite_holder)@, old(render_queue)@).1 == Ok::<Seq<DrawCommand>, RenderError>(r@),
        r@.len() == command_count(old(render_queue)@),
{
    proof {
        lemma_resolving_queue_draws(sprite_holder@, render_queue@);
    }
    match try_render_queue_items(render_queue, sprite_holder) {
        Ok(cmds) => cmds,
        Err(_) => Vec::new(),
    }
}

} // verus!
