//! The per-frame update of the `Playing` state: player movement and
//! clamping, firing, spawning, advancing, culling, the player-death check,
//! and the bullet/obstacle collision pass with its scoring.

use crate::session::Session;
use crate::session::SessionModel;
use crate::session::GameMode;
use crate::session::BULLET_SIZE;
use crate::session::LEN_LIMIT;
use crate::session::PLAYER_SPEED_MAX;
use crate::session::SCORE_LIMIT;
use crate::session::SCREEN_LIMIT;
use crate::shape::spec_shapes_overlap;
use crate::shape::views_of;
use crate::shape::Shape;
use crate::shape::ShapeModel;
use crate::shape::MAX_SIZE;
use crate::shape::MAX_SPEED;
use crate::shape::POS_LIMIT;
use crate::shape::SCALE;
use vstd::prelude::*;

verus! {

/// Largest frame time the update accepts, in milliseconds.
pub const MAX_DT: i64 = 1048576;

/// A spawn roll at or above this threshold creates an obstacle.
pub const SPAWN_THRESHOLD: u8 = 95;

/// Smallest obstacle size a spawn may draw, in subpixels (16 pixels).
pub const SPAWN_SIZE_MIN: i64 = 16000;

/// Largest obstacle size a spawn may draw, in subpixels (64 pixels).
pub const SPAWN_SIZE_MAX: i64 = 64000;

/// Smallest obstacle speed a spawn may draw, in subpixels per millisecond.
pub const SPAWN_SPEED_MIN: i64 = 50;

/// Largest obstacle speed a spawn may draw, in subpixels per millisecond.
pub const SPAWN_SPEED_MAX: i64 = 150;

/// Largest score one overlapping pair can earn: the rounded pixel size of
/// the largest obstacle.
pub const ROUND_MAX: i64 = 64;

/// One frame's input snapshot: the four directional keys as currently held,
/// and the two action keys as just-pressed this frame. Space fires (or
/// confirms in menus); Escape pauses (or quits from the main menu).
#[derive(Clone, Copy, Debug)]
pub struct FrameInput {
    pub left: bool,
    pub right: bool,
    pub up: bool,
    pub down: bool,
    pub space_pressed: bool,
    pub escape_pressed: bool,
}

/// One frame's random draws, handed in by the host. `roll` is uniform in
/// `[0, 99]`; the remaining fields are only read when `roll` reaches
/// `SPAWN_THRESHOLD` and must then lie in the spawn ranges.
#[derive(Clone, Copy, Debug)]
pub struct SpawnDraws {
    pub roll: u8,
    pub size: i64,
    pub speed: i64,
    pub x: i64,
}

/// What a `Playing` frame asks of the host: the mode to run next frame, and
/// the high score to persist now, if any.
#[derive(Clone, Copy, Debug)]
pub struct FrameOutput {
    pub next_mode: GameMode,
    pub save: Option<u64>,
}

/// The player after the held directional keys are applied: each held key
/// adds or subtracts `speed * dt` on its axis, so opposite keys cancel.
pub open spec fn spec_moved_player(p: ShapeModel, inp: FrameInput, dt: int) -> ShapeModel {
    ShapeModel {
        x: p.x + (if inp.right {
            p.speed * dt
        } else {
            0
        }) - (if inp.left {
            p.speed * dt
        } else {
            0
        }),
        y: p.y + (if inp.down {
            p.speed * dt
        } else {
            0
        }) - (if inp.up {
            p.speed * dt
        } else {
            0
        }),
        ..p
    }
}

/// Clamp as the update applies it: values below `lo` become `lo`, then
/// values above `hi` become `hi`.
pub open spec fn spec_clamp(v: int, lo: int, hi: int) -> int {
    if v < lo {
        lo
    } else if v > hi {
        hi
    } else {
        v
    }
}

/// The player clamped into the screen with half-size margins on both ends,
/// using the player's own size on both bounds.
pub open spec fn spec_clamped_player(p: ShapeModel, w: int, h: int) -> ShapeModel {
    ShapeModel {
        x: spec_clamp(p.x, p.size / 2, w - p.size / 2),
        y: spec_clamp(p.y, p.size / 2, h - p.size / 2),
        ..p
    }
}

/// The bullet a fire action creates: at the player's current center, of
/// fixed small size, at twice the player's speed.
pub open spec fn spec_new_bullet(p: ShapeModel) -> ShapeModel {
    ShapeModel { size: BULLET_SIZE as int, speed: 2 * p.speed, x: p.x, y: p.y, collided: false }
}

/// The bullet collection after the fire key is handled.
pub open spec fn spec_with_fire(bs: Seq<ShapeModel>, p: ShapeModel, fire: bool) -> Seq<
    ShapeModel,
> {
    if fire {
        bs.push(spec_new_bullet(p))
    } else {
        bs
    }
}

/// The obstacle a spawn creates from the frame's draws: centered at the
/// drawn `x` just above the visible area, falling at the drawn speed.
pub open spec fn spec_new_square(d: SpawnDraws) -> ShapeModel {
    ShapeModel {
        size: d.size as int,
        speed: d.speed as int,
        x: d.x as int,
        y: -(d.size as int),
        collided: false,
    }
}

/// The obstacle collection after the spawn roll is handled.
pub open spec fn spec_with_spawn(ss: Seq<ShapeModel>, d: SpawnDraws) -> Seq<ShapeModel> {
    if d.roll >= SPAWN_THRESHOLD {
        ss.push(spec_new_square(d))
    } else {
        ss
    }
}

/// A shape after falling for `dt` milliseconds.
pub open spec fn spec_fallen(s: ShapeModel, dt: int) -> ShapeModel {
    ShapeModel { y: s.y + s.speed * dt, ..s }
}

/// A shape after rising for `dt` milliseconds.
pub open spec fn spec_risen(s: ShapeModel, dt: int) -> ShapeModel {
    ShapeModel { y: s.y - s.speed * dt, ..s }
}

/// All obstacles after falling for `dt` milliseconds.
pub open spec fn spec_advanced_down(ss: Seq<ShapeModel>, dt: int) -> Seq<ShapeModel> {
    ss.map_values(|s: ShapeModel| spec_fallen(s, dt))
}

/// All bullets after rising for `dt` milliseconds.
pub open spec fn spec_advanced_up(bs: Seq<ShapeModel>, dt: int) -> Seq<ShapeModel> {
    bs.map_values(|s: ShapeModel| spec_risen(s, dt))
}

/// An obstacle stays for the next step when it is above the bottom boundary
/// by less than its own size and has not collided.
pub open spec fn spec_square_kept(s: ShapeModel, h: int) -> bool {
    s.y < h + s.size && !s.collided
}

/// A bullet stays for the next step when it is below the top boundary by
/// more than its own size and has not collided.
pub open spec fn spec_bullet_kept(s: ShapeModel) -> bool {
    s.y > s.size && !s.collided
}

/// The obstacle collection with off-screen and collided entries removed,
/// order preserved.
pub open spec fn spec_cull_squares(ss: Seq<ShapeModel>, h: int) -> Seq<ShapeModel>
    decreases ss.len(),
{
    if ss.len() == 0 {
        Seq::empty()
    } else {
        let rest = spec_cull_squares(ss.drop_last(), h);
        if spec_square_kept(ss.last(), h) {
            rest.push(ss.last())
        } else {
            rest
        }
    }
}

/// The bullet collection with off-screen and collided entries removed,
/// order preserved.
pub open spec fn spec_cull_bullets(bs: Seq<ShapeModel>) -> Seq<ShapeModel>
    decreases bs.len(),
{
    if bs.len() == 0 {
        Seq::empty()
    } else {
        let rest = spec_cull_bullets(bs.drop_last());
        if spec_bullet_kept(bs.last()) {
            rest.push(bs.last())
        } else {
            rest
        }
    }
}

/// The player's bounding box overlaps some obstacle.
pub open spec fn spec_hits_player(p: ShapeModel, ss: Seq<ShapeModel>) -> bool {
    exists|i: int| 0 <= i < ss.len() && spec_shapes_overlap(p, #[trigger] ss[i])
}

/// Some bullet's bounding box overlaps this obstacle.
pub open spec fn spec_hit_by_bullet(s: ShapeModel, bs: Seq<ShapeModel>) -> bool {
    exists|j: int| 0 <= j < bs.len() && spec_shapes_overlap(#[trigger] bs[j], s)
}

/// This bullet's bounding box overlaps some obstacle.
pub open spec fn spec_hit_by_square(b: ShapeModel, ss: Seq<ShapeModel>) -> bool {
    exists|i: int| 0 <= i < ss.len() && spec_shapes_overlap(b, #[trigger] ss[i])
}

/// The obstacles after the collision pass: each one that some bullet
/// overlaps is marked collided; nothing else changes.
pub open spec fn spec_marked_squares(ss: Seq<ShapeModel>, bs: Seq<ShapeModel>) -> Seq<
    ShapeModel,
> {
    ss.map_values(
        |s: ShapeModel| ShapeModel { collided: s.collided || spec_hit_by_bullet(s, bs), ..s },
    )
}

/// The bullets after the collision pass: each one that overlaps some
/// obstacle is marked collided; nothing else changes.
pub open spec fn spec_marked_bullets(bs: Seq<ShapeModel>, ss: Seq<ShapeModel>) -> Seq<
    ShapeModel,
> {
    bs.map_values(
        |b: ShapeModel| ShapeModel { collided: b.collided || spec_hit_by_square(b, ss), ..b },
    )
}

/// A positive subpixel size rounded to the nearest whole pixel, halves up.
pub open spec fn spec_round_to_px(size: int) -> int {
    (size + SCALE / 2) / (SCALE as int)
}

/// The score the collision pass earns from one obstacle: the obstacle's
/// rounded pixel size once for every bullet that overlaps it.
pub open spec fn spec_square_gain(s: ShapeModel, bs: Seq<ShapeModel>) -> int
    decreases bs.len(),
{
    if bs.len() == 0 {
        0
    } else {
        spec_square_gain(s, bs.drop_last()) + if spec_shapes_overlap(bs.last(), s) {
            spec_round_to_px(s.size)
        } else {
            0
        }
    }
}

/// The score the collision pass earns in one frame, summed over every
/// overlapping obstacle/bullet pair. An obstacle overlapping two bullets
/// counts twice: the pass applies no early exit.
pub open spec fn spec_total_gain(ss: Seq<ShapeModel>, bs: Seq<ShapeModel>) -> int
    decreases ss.len(),
{
    if ss.len() == 0 {
        0
    } else {
        spec_total_gain(ss.drop_last(), bs) + spec_square_gain(ss.last(), bs)
    }
}

/// The player at the frame's end: moved by the held keys, then clamped.
pub open spec fn spec_player_after(
    p: ShapeModel,
    inp: FrameInput,
    dt: int,
    w: int,
    h: int,
) -> ShapeModel {
    spec_clamped_player(spec_moved_player(p, inp, dt), w, h)
}

/// The obstacle collection at the point of the frame's death check and
/// collision pass: spawned, advanced, culled.
pub open spec fn spec_squares_culled(
    ss: Seq<ShapeModel>,
    d: SpawnDraws,
    dt: int,
    h: int,
) -> Seq<ShapeModel> {
    spec_cull_squares(spec_advanced_down(spec_with_spawn(ss, d), dt), h)
}

/// The bullet collection at the point of the frame's death check and
/// collision pass: fired, advanced, culled.
pub open spec fn spec_bullets_culled(
    bs: Seq<ShapeModel>,
    p: ShapeModel,
    inp: FrameInput,
    dt: int,
) -> Seq<ShapeModel> {
    spec_cull_bullets(spec_advanced_up(spec_with_fire(bs, spec_moved_player(p, inp, dt),
        inp.space_pressed), dt))
}

/// Whether this frame kills the player: after movement, clamping, spawning,
/// advancing and culling, some obstacle overlaps the player.
pub open spec fn spec_player_dead(
    m: SessionModel,
    inp: FrameInput,
    dt: int,
    d: SpawnDraws,
    w: int,
    h: int,
) -> bool {
    spec_hits_player(
        spec_player_after(m.player, inp, dt, w, h),
        spec_squares_culled(m.squares, d, dt, h),
    )
}

/// The session a `Playing` frame leaves behind.
pub open spec fn spec_next_session(
    m: SessionModel,
    inp: FrameInput,
    dt: int,
    d: SpawnDraws,
    w: int,
    h: int,
) -> SessionModel {
    let ss = spec_squares_culled(m.squares, d, dt, h);
    let bs = spec_bullets_culled(m.bullets, m.player, inp, dt);
    let new_score = m.score + spec_total_gain(ss, bs);
    SessionModel {
        player: spec_player_after(m.player, inp, dt, w, h),
        squares: spec_marked_squares(ss, bs),
        bullets: spec_marked_bullets(bs, ss),
        score: new_score,
        high_score: if new_score > m.high_score {
            new_score
        } else {
            m.high_score
        },
    }
}

/// The mode the next frame runs in: a death wins over a pause, a pause over
/// staying in `Playing`.
pub open spec fn spec_next_mode(dead: bool, pause: bool) -> GameMode {
    if dead {
        GameMode::GameOver
    } else if pause {
        GameMode::Paused
    } else {
        GameMode::Playing
    }
}

/// Two shapes agree on everything but the collided flag.
pub open spec fn spec_geom_eq(a: ShapeModel, b: ShapeModel) -> bool {
    a.size == b.size && a.speed == b.speed && a.x == b.x && a.y == b.y
}

fn clamp_i64(v: i64, lo: i64, hi: i64) -> (r: i64)
    ensures
        r as int == spec_clamp(v as int, lo as int, hi as int),
{
    if v < lo {
        lo
    } else if v > hi {
        hi
    } else {
        v
    }
}

fn apply_movement(p: &mut Shape, inp: &FrameInput, dt: i64)
    requires
        0 <= old(p)@.x <= SCREEN_LIMIT,
        0 <= old(p)@.y <= SCREEN_LIMIT,
        0 <= old(p)@.speed <= PLAYER_SPEED_MAX,
        0 <= dt <= MAX_DT,
    ensures
        final(p)@ == spec_moved_player(old(p)@, *inp, dt as int),
{
    proof {
        let ghost sp: int = p@.speed;
        assert(0 <= sp * dt <= 549755813888) by (nonlinear_arith)
            requires
                0 <= sp <= 524288,
                0 <= dt <= 1048576,
        ;
    }
    let d = p.speed * dt;
    if inp.right {
        p.x = p.x + d;
    }
    if inp.left {
        p.x = p.x - d;
    }
    if inp.down {
        p.y = p.y + d;
    }
    if inp.up {
        p.y = p.y - d;
    }
}

fn apply_clamp(p: &mut Shape, w: i64, h: i64)
    requires
        0 < old(p)@.size <= MAX_SIZE,
        0 < w <= SCREEN_LIMIT,
        0 < h <= SCREEN_LIMIT,
    ensures
        final(p)@ == spec_clamped_player(old(p)@, w as int, h as int),
{
    let half = p.size / 2;
    p.x = clamp_i64(p.x, half, w - half);
    p.y = clamp_i64(p.y, half, h - half);
}

fn advance_squares(v: &mut Vec<Shape>, dt: i64)
    requires
        0 <= dt <= MAX_DT,
        forall|i: int| 0 <= i < old(v)@.len() ==> (#[trigger] old(v)@[i])@.wf(),
    ensures
        views_of(final(v)@) == spec_advanced_down(views_of(old(v)@), dt as int),
{
    let n = v.len();
    for i in 0..n
        invariant
            n == v@.len(),
            n == old(v)@.len(),
            0 <= dt <= MAX_DT,
            forall|k: int| 0 <= k < n ==> (#[trigger] old(v)@[k])@.wf(),
            forall|k: int| i <= k < n ==> (#[trigger] v@[k]) == old(v)@[k],
            forall|k: int|
                0 <= k < i ==> (#[trigger] v@[k])@ == spec_fallen(old(v)@[k]@, dt as int),
    {
        let s = v[i];
        proof {
            assert(0 <= s@.speed * dt <= 1099511627776) by (nonlinear_arith)
                requires
                    0 <= s@.speed <= 1048576,
                    0 <= dt <= 1048576,
            ;
        }
        let moved = Shape { y: s.y + s.speed * dt, ..s };
        v.set(i, moved);
    }
    proof {
        assert(views_of(v@) =~= spec_advanced_down(views_of(old(v)@), dt as int));
    }
}

fn advance_bullets(v: &mut Vec<Shape>, dt: i64)
    requires
        0 <= dt <= MAX_DT,
        forall|i: int| 0 <= i < old(v)@.len() ==> (#[trigger] old(v)@[i])@.wf(),
    ensures
        views_of(final(v)@) == spec_advanced_up(views_of(old(v)@), dt as int),
{
    let n = v.len();
    for i in 0..n
        invariant
            n == v@.len(),
            n == old(v)@.len(),
            0 <= dt <= MAX_DT,
            forall|k: int| 0 <= k < n ==> (#[trigger] old(v)@[k])@.wf(),
            forall|k: int| i <= k < n ==> (#[trigger] v@[k]) == old(v)@[k],
            forall|k: int|
                0 <= k < i ==> (#[trigger] v@[k])@ == spec_risen(old(v)@[k]@, dt as int),
    {
        let s = v[i];
        proof {
            assert(0 <= s@.speed * dt <= 1099511627776) by (nonlinear_arith)
                requires
                    0 <= s@.speed <= 1048576,
                    0 <= dt <= 1048576,
            ;
        }
        let moved = Shape { y: s.y - s.speed * dt, ..s };
        v.set(i, moved);
    }
    proof {
        assert(views_of(v@) =~= spec_advanced_up(views_of(old(v)@), dt as int));
    }
}

fn cull_squares(v: &mut Vec<Shape>, h: i64)
    requires
        0 < h <= SCREEN_LIMIT,
        forall|i: int| 0 <= i < old(v)@.len() ==> (#[trigger] old(v)@[i])@.size <= MAX_SIZE,
    ensures
        views_of(final(v)@) == spec_cull_squares(views_of(old(v)@), h as int),
{
    let mut out: Vec<Shape> = Vec::new();
    let n = v.len();
    proof {
        assert(views_of(old(v)@).take(0) =~= Seq::<ShapeModel>::empty());
        assert(views_of(out@) =~= Seq::<ShapeModel>::empty());
    }
    for i in 0..n
        invariant
            n == v@.len(),
            v@ == old(v)@,
            0 < h <= SCREEN_LIMIT,
            forall|k: int| 0 <= k < n ==> (#[trigger] v@[k])@.size <= MAX_SIZE,
            views_of(out@) == spec_cull_squares(views_of(old(v)@).take(i as int), h as int),
    {
        let s = v[i];
        proof {
            let full = views_of(old(v)@);
            assert(full.take(i + 1).drop_last() =~= full.take(i as int));
            assert(full.take(i + 1).last() == s@);
        }
        if s.y < h + s.size && !s.collided {
            out.push(s);
            proof {
                let full = views_of(old(v)@);
                assert(views_of(out@) =~= spec_cull_squares(full.take(i as int), h as int).push(
                    s@,
                ));
            }
        }
    }
    proof {
        assert(views_of(old(v)@).take(n as int) =~= views_of(old(v)@));
    }
    *v = out;
}

fn cull_bullets(v: &mut Vec<Shape>)
    ensures
        views_of(final(v)@) == spec_cull_bullets(views_of(old(v)@)),
{
    let mut out: Vec<Shape> = Vec::new();
    let n = v.len();
    proof {
        assert(views_of(old(v)@).take(0) =~= Seq::<ShapeModel>::empty());
        assert(views_of(out@) =~= Seq::<ShapeModel>::empty());
    }
    for i in 0..n
        invariant
            n == v@.len(),
            v@ == old(v)@,
            views_of(out@) == spec_cull_bullets(views_of(old(v)@).take(i as int)),
    {
        let s = v[i];
        proof {
            let full = views_of(old(v)@);
            assert(full.take(i + 1).drop_last() =~= full.take(i as int));
            assert(full.take(i + 1).last() == s@);
        }
        if s.y > s.size && !s.collided {
            out.push(s);
            proof {
                let full = views_of(old(v)@);
                assert(views_of(out@) =~= spec_cull_bullets(full.take(i as int)).push(s@));
            }
        }
    }
    proof {
        assert(views_of(old(v)@).take(n as int) =~= views_of(old(v)@));
    }
    *v = out;
}

proof fn lemma_square_gain_take_step(s: ShapeModel, bs: Seq<ShapeModel>, j: int)
    requires
        0 <= j < bs.len(),
    ensures
        spec_square_gain(s, bs.take(j + 1)) == spec_square_gain(s, bs.take(j)) + (
        if spec_shapes_overlap(bs[j], s) {
            spec_round_to_px(s.size)
        } else {
            0
        }),
{
    let t = bs.take(j + 1);
    assert(t.drop_last() =~= bs.take(j));
    assert(t.last() == bs[j]);
}

proof fn lemma_total_gain_take_step(ss: Seq<ShapeModel>, bs: Seq<ShapeModel>, i: int)
    requires
        0 <= i < ss.len(),
    ensures
        spec_total_gain(ss.take(i + 1), bs) == spec_total_gain(ss.take(i), bs)
            + spec_square_gain(ss[i], bs),
{
    let t = ss.take(i + 1);
    assert(t.drop_last() =~= ss.take(i));
    assert(t.last() == ss[i]);
}

proof fn lemma_square_gain_bound(s: ShapeModel, bs: Seq<ShapeModel>)
    requires
        0 < s.size <= MAX_SIZE,
    ensures
        0 <= spec_square_gain(s, bs) <= bs.len() * ROUND_MAX,
    decreases bs.len(),
{
    if bs.len() > 0 {
        lemma_square_gain_bound(s, bs.drop_last());
        assert((bs.len() - 1) * ROUND_MAX + ROUND_MAX == bs.len() * ROUND_MAX) by (nonlinear_arith);
    }
}

proof fn lemma_total_gain_bound(ss: Seq<ShapeModel>, bs: Seq<ShapeModel>)
    requires
        forall|i: int| 0 <= i < ss.len() ==> 0 < (#[trigger] ss[i]).size <= MAX_SIZE,
    ensures
        0 <= spec_total_gain(ss, bs) <= ss.len() * bs.len() * ROUND_MAX,
    decreases ss.len(),
{
    if ss.len() > 0 {
        lemma_total_gain_bound(ss.drop_last(), bs);
        lemma_square_gain_bound(ss.last(), bs);
        let l = ss.len() as int;
        let b = bs.len() as int;
        assert((l - 1) * b * ROUND_MAX + b * ROUND_MAX == l * b * ROUND_MAX) by (nonlinear_arith);
    }
}

proof fn lemma_hit_by_square_take_step(b: ShapeModel, ss: Seq<ShapeModel>, i: int)
    requires
        0 <= i < ss.len(),
    ensures
        spec_hit_by_square(b, ss.take(i + 1)) == (spec_hit_by_square(b, ss.take(i))
            || spec_shapes_overlap(b, ss[i])),
{
    let t = ss.take(i + 1);
    if spec_hit_by_square(b, t) {
        let k = choose|k: int| 0 <= k < t.len() && spec_shapes_overlap(b, #[trigger] t[k]);
        if k < i {
            assert(ss.take(i)[k] == t[k]);
            assert(spec_hit_by_square(b, ss.take(i)));
        } else {
            assert(t[k] == ss[i]);
        }
    }
    if spec_hit_by_square(b, ss.take(i)) {
        let k = choose|k: int|
            0 <= k < ss.take(i).len() && spec_shapes_overlap(b, #[trigger] ss.take(i)[k]);
        assert(t[k] == ss.take(i)[k]);
        assert(spec_hit_by_square(b, t));
    }
    if spec_shapes_overlap(b, ss[i]) {
        assert(t[i] == ss[i]);
        assert(spec_hit_by_square(b, t));
    }
}

proof fn lemma_hit_by_bullet_take_step(s: ShapeModel, bs: Seq<ShapeModel>, j: int)
    requires
        0 <= j < bs.len(),
    ensures
        spec_hit_by_bullet(s, bs.take(j + 1)) == (spec_hit_by_bullet(s, bs.take(j))
            || spec_shapes_overlap(bs[j], s)),
{
    let t = bs.take(j + 1);
    if spec_hit_by_bullet(s, t) {
        let k = choose|k: int| 0 <= k < t.len() && spec_shapes_overlap(#[trigger] t[k], s);
        if k < j {
            assert(bs.take(j)[k] == t[k]);
            assert(spec_hit_by_bullet(s, bs.take(j)));
        } else {
            assert(t[k] == bs[j]);
        }
    }
    if spec_hit_by_bullet(s, bs.take(j)) {
        let k = choose|k: int|
            0 <= k < bs.take(j).len() && spec_shapes_overlap(#[trigger] bs.take(j)[k], s);
        assert(t[k] == bs.take(j)[k]);
        assert(spec_hit_by_bullet(s, t));
    }
    if spec_shapes_overlap(bs[j], s) {
        assert(t[j] == bs[j]);
        assert(spec_hit_by_bullet(s, t));
    }
}

/// The cull keeps no more obstacles than it was given; every one it keeps
/// satisfies the keep condition and every property that held of the whole
/// input collection.
pub proof fn lemma_cull_squares_elems(
    ss: Seq<ShapeModel>,
    h: int,
    pred: spec_fn(ShapeModel) -> bool,
)
    requires
        forall|i: int| 0 <= i < ss.len() ==> pred(#[trigger] ss[i]),
    ensures
        spec_cull_squares(ss, h).len() <= ss.len(),
        forall|k: int|
            0 <= k < spec_cull_squares(ss, h).len() ==> spec_square_kept(
                #[trigger] spec_cull_squares(ss, h)[k],
                h,
            ) && pred(spec_cull_squares(ss, h)[k]),
    decreases ss.len(),
{
    if ss.len() > 0 {
        assert(forall|i: int| 0 <= i < ss.drop_last().len() ==> pred(#[trigger] ss.drop_last()[i]));
        lemma_cull_squares_elems(ss.drop_last(), h, pred);
        if spec_square_kept(ss.last(), h) {
            assert(ss.last() == ss[ss.len() - 1]);
        }
    }
}

/// The bullet-collection counterpart of `lemma_cull_squares_elems`.
pub proof fn lemma_cull_bullets_elems(bs: Seq<ShapeModel>, pred: spec_fn(ShapeModel) -> bool)
    requires
        forall|i: int| 0 <= i < bs.len() ==> pred(#[trigger] bs[i]),
    ensures
        spec_cull_bullets(bs).len() <= bs.len(),
        forall|k: int|
            0 <= k < spec_cull_bullets(bs).len() ==> spec_bullet_kept(
                #[trigger] spec_cull_bullets(bs)[k],
            ) && pred(spec_cull_bullets(bs)[k]),
    decreases bs.len(),
{
    if bs.len() > 0 {
        assert(forall|i: int| 0 <= i < bs.drop_last().len() ==> pred(#[trigger] bs.drop_last()[i]));
        lemma_cull_bullets_elems(bs.drop_last(), pred);
        if spec_bullet_kept(bs.last()) {
            assert(bs.last() == bs[bs.len() - 1]);
        }
    }
}

fn any_hit(p: &Shape, v: &Vec<Shape>) -> (r: bool)
    requires
        p@.bounded(),
        forall|i: int| 0 <= i < v@.len() ==> (#[trigger] v@[i])@.bounded(),
    ensures
        r == spec_hits_player(p@, views_of(v@)),
{
    let n = v.len();
    for i in 0..n
        invariant
            n == v@.len(),
            p@.bounded(),
            forall|k: int| 0 <= k < n ==> (#[trigger] v@[k])@.bounded(),
            forall|k: int| 0 <= k < i ==> !spec_shapes_overlap(p@, (#[trigger] v@[k])@),
    {
        if p.collide_with(&v[i]) {
            proof {
                assert(views_of(v@)[i as int] == v@[i as int]@);
            }
            return true;
        }
    }
    proof {
        assert(forall|k: int|
            0 <= k < n ==> !spec_shapes_overlap(p@, #[trigger] views_of(v@)[k]));
    }
    false
}

fn collision_pass(squares: &mut Vec<Shape>, bullets: &mut Vec<Shape>, score: u64, high: u64) -> (r:
    (u64, u64))
    requires
        forall|i: int| 0 <= i < old(squares)@.len() ==> (#[trigger] old(squares)@[i])@.bounded(),
        forall|i: int| 0 <= i < old(bullets)@.len() ==> (#[trigger] old(bullets)@[i])@.bounded(),
        old(squares)@.len() <= LEN_LIMIT,
        old(bullets)@.len() <= LEN_LIMIT,
        score <= SCORE_LIMIT,
        score <= high,
    ensures
        views_of(final(squares)@) == spec_marked_squares(
            views_of(old(squares)@),
            views_of(old(bullets)@),
        ),
        views_of(final(bullets)@) == spec_marked_bullets(
            views_of(old(bullets)@),
            views_of(old(squares)@),
        ),
        r.0 as int == score + spec_total_gain(views_of(old(squares)@), views_of(old(bullets)@)),
        r.1 == (if r.0 > high {
            r.0
        } else {
            high
        }),
{
    let ghost ss0 = views_of(squares@);
    let ghost bs0 = views_of(bullets@);
    let mut sc: u64 = score;
    let mut hg: u64 = high;
    let ns = squares.len();
    let nb = bullets.len();
    proof {
        assert(ss0.take(0) =~= Seq::<ShapeModel>::empty());
    }
    for i in 0..ns
        invariant
            ns == squares@.len(),
            nb == bullets@.len(),
            ss0 == views_of(old(squares)@),
            bs0 == views_of(old(bullets)@),
            ss0.len() == ns,
            bs0.len() == nb,
            ns <= LEN_LIMIT,
            nb <= LEN_LIMIT,
            score <= SCORE_LIMIT,
            score <= high,
            forall|k: int| 0 <= k < ns ==> (#[trigger] ss0[k]).bounded(),
            forall|k: int| 0 <= k < nb ==> (#[trigger] bs0[k]).bounded(),
            forall|k: int| 0 <= k < ns ==> spec_geom_eq((#[trigger] squares@[k])@, ss0[k]),
            forall|k: int|
                0 <= k < ns ==> ((#[trigger] squares@[k])@.collided == (ss0[k].collided || (k < i
                    && spec_hit_by_bullet(ss0[k], bs0)))),
            forall|k: int| 0 <= k < nb ==> spec_geom_eq((#[trigger] bullets@[k])@, bs0[k]),
            forall|k: int|
                0 <= k < nb ==> ((#[trigger] bullets@[k])@.collided == (bs0[k].collided
                    || spec_hit_by_square(bs0[k], ss0.take(i as int)))),
            sc as int == score + spec_total_gain(ss0.take(i as int), bs0),
            sc as int <= score + (i as int) * (nb as int) * ROUND_MAX,
            hg == (if sc > high {
                sc
            } else {
                high
            }),
    {
        let ghost sq_model = ss0[i as int];
        proof {
            assert(bs0.take(0) =~= Seq::<ShapeModel>::empty());
        }
        for j in 0..nb
            invariant
                ns == squares@.len(),
                nb == bullets@.len(),
                ss0 == views_of(old(squares)@),
                bs0 == views_of(old(bullets)@),
                ss0.len() == ns,
                bs0.len() == nb,
                ns <= LEN_LIMIT,
                nb <= LEN_LIMIT,
                score <= SCORE_LIMIT,
                score <= high,
                0 <= i < ns,
                sq_model == ss0[i as int],
                forall|k: int| 0 <= k < ns ==> (#[trigger] ss0[k]).bounded(),
                forall|k: int| 0 <= k < nb ==> (#[trigger] bs0[k]).bounded(),
                forall|k: int| 0 <= k < ns ==> spec_geom_eq((#[trigger] squares@[k])@, ss0[k]),
                forall|k: int|
                    0 <= k < ns && k != i ==> ((#[trigger] squares@[k])@.collided == (
                    ss0[k].collided || (k < i && spec_hit_by_bullet(ss0[k], bs0)))),
                squares@[i as int]@.collided == (ss0[i as int].collided || spec_hit_by_bullet(
                    ss0[i as int],
                    bs0.take(j as int),
                )),
                forall|k: int| 0 <= k < nb ==> spec_geom_eq((#[trigger] bullets@[k])@, bs0[k]),
                forall|k: int|
                    0 <= k < nb ==> ((#[trigger] bullets@[k])@.collided == (bs0[k].collided
                        || spec_hit_by_square(bs0[k], ss0.take(i as int)) || (k < j
                        && spec_shapes_overlap(bs0[k], ss0[i as int])))),
                sc as int == score + spec_total_gain(ss0.take(i as int), bs0) + spec_square_gain(
                    ss0[i as int],
                    bs0.take(j as int),
                ),
                sc as int <= score + (i as int) * (nb as int) * ROUND_MAX + (j as int) * ROUND_MAX,
                hg == (if sc > high {
                    sc
                } else {
                    high
                }),
        {
            let b = bullets[j];
            let s = squares[i];
            proof {
                assert(b@.bounded());
                assert(s@.bounded());
            }
            let hit = b.collide_with(&s);
            proof {
                assert(hit == spec_shapes_overlap(bs0[j as int], ss0[i as int]));
                lemma_square_gain_take_step(ss0[i as int], bs0, j as int);
                lemma_hit_by_bullet_take_step(ss0[i as int], bs0, j as int);
            }
            if hit {
                let mut marked_b = b;
                marked_b.collided = true;
                bullets.set(j, marked_b);
                let mut marked_s = s;
                marked_s.collided = true;
                squares.set(i, marked_s);
                let gain_px = (s.size + 500) / 1000;
                proof {
                    assert(0 <= gain_px <= ROUND_MAX);
                    assert(gain_px as int == spec_round_to_px(ss0[i as int].size));
                    assert((i as int) * (nb as int) * ROUND_MAX + (j as int) * ROUND_MAX
                        <= 1048576 * 1048576 * 64 + 1048576 * 64) by (nonlinear_arith)
                        requires
                            0 <= i as int <= 1048576,
                            0 <= nb as int <= 1048576,
                            0 <= j as int <= 1048576,
                    ;
                }
                sc = sc + (gain_px as u64);
                if sc > hg {
                    hg = sc;
                }
            }
        }
        proof {
            assert(bs0.take(nb as int) =~= bs0);
            lemma_total_gain_take_step(ss0, bs0, i as int);
            assert forall|k: int| 0 <= k < nb implies ((#[trigger] bullets@[k])@.collided == (
            bs0[k].collided || spec_hit_by_square(bs0[k], ss0.take(i + 1)))) by {
                lemma_hit_by_square_take_step(bs0[k], ss0, i as int);
            }
            assert(sc as int <= score + (i as int) * (nb as int) * ROUND_MAX + (nb as int)
                * ROUND_MAX);
            assert((i as int) * (nb as int) * ROUND_MAX + (nb as int) * ROUND_MAX == (i + 1) * (
            nb as int) * ROUND_MAX) by (nonlinear_arith);
        }
    }
    proof {
        assert(ss0.take(ns as int) =~= ss0);
        assert(views_of(squares@) =~= spec_marked_squares(ss0, bs0));
        assert(views_of(bullets@) =~= spec_marked_bullets(bs0, ss0));
    }
    (sc, hg)
}

/// One frame of the `Playing` state, in this fixed order: movement, fire,
/// clamp, spawn, advance, cull, player-death check, bullet/obstacle
/// collision pass. Returns the mode to run next frame and the high score to
/// persist, if the player died while the score sat at the high score. The
/// remaining steps still run on a death or a pause: both take effect only
/// from the next frame.
pub fn playing_frame(
    sess: &mut Session,
    inp: &FrameInput,
    dt: i64,
    draws: &SpawnDraws,
    w: i64,
    h: i64,
) -> (out: FrameOutput)
    requires
        old(sess)@.wf(),
        old(sess)@.player.size <= w,
        old(sess)@.player.size <= h,
        0 <= dt <= MAX_DT,
        0 < w <= SCREEN_LIMIT,
        0 < h <= SCREEN_LIMIT,
        draws.roll <= 99,
        draws.roll >= SPAWN_THRESHOLD ==> SPAWN_SIZE_MIN <= draws.size <= SPAWN_SIZE_MAX,
        draws.roll >= SPAWN_THRESHOLD ==> SPAWN_SPEED_MIN <= draws.speed <= SPAWN_SPEED_MAX,
        draws.roll >= SPAWN_THRESHOLD ==> draws.size / 2 <= draws.x <= w - draws.size / 2,
        old(sess)@.squares.len() < LEN_LIMIT,
        old(sess)@.bullets.len() < LEN_LIMIT,
        old(sess)@.score <= SCORE_LIMIT,
    ensures
        final(sess)@ == spec_next_session(old(sess)@, *inp, dt as int, *draws, w as int, h as int),
        final(sess)@.wf(),
        out.next_mode == spec_next_mode(
            spec_player_dead(old(sess)@, *inp, dt as int, *draws, w as int, h as int),
            inp.escape_pressed,
        ),
        out.save == (if spec_player_dead(old(sess)@, *inp, dt as int, *draws, w as int, h as int)
            && old(sess)@.score == old(sess)@.high_score {
            Some(old(sess).high_score)
        } else {
            None::<u64>
        }),
        final(sess)@.squares.len() <= old(sess)@.squares.len() + 1,
        final(sess)@.bullets.len() <= old(sess)@.bullets.len() + 1,
{
    let ghost m0 = sess@;
    apply_movement(&mut sess.player, inp, dt);
    let ghost moved = sess.player@;
    proof {
        assert(moved == spec_moved_player(m0.player, *inp, dt as int));
        let ghost sp: int = m0.player.speed;
        assert(0 <= sp * (dt as int) <= 549755813888) by (nonlinear_arith)
            requires
                0 <= sp <= 524288,
                0 <= dt as int <= 1048576,
        ;
        assert(-2199023255552 <= moved.x <= 2199023255552);
        assert(-2199023255552 <= moved.y <= 2199023255552);
    }
    if inp.space_pressed {
        let b = Shape {
            size: BULLET_SIZE,
            speed: 2 * sess.player.speed,
            x: sess.player.x,
            y: sess.player.y,
            collided: false,
        };
        sess.bullets.push(b);
        proof {
            assert(b@ == spec_new_bullet(moved));
            assert(views_of(sess.bullets@) =~= spec_with_fire(m0.bullets, moved, true));
        }
    } else {
        proof {
            assert(views_of(sess.bullets@) =~= spec_with_fire(
                m0.bullets,
                moved,
                inp.space_pressed,
            ));
        }
    }
    apply_clamp(&mut sess.player, w, h);
    proof {
        assert(sess.player@ == spec_player_after(m0.player, *inp, dt as int, w as int, h as int));
    }
    if draws.roll >= SPAWN_THRESHOLD {
        let s = Shape {
            size: draws.size,
            speed: draws.speed,
            x: draws.x,
            y: -draws.size,
            collided: false,
        };
        sess.squares.push(s);
        proof {
            assert(s@ == spec_new_square(*draws));
            assert(views_of(sess.squares@) =~= spec_with_spawn(m0.squares, *draws));
        }
    } else {
        proof {
            assert(views_of(sess.squares@) =~= spec_with_spawn(m0.squares, *draws));
        }
    }
    let ghost spawned = spec_with_spawn(m0.squares, *draws);
    let ghost fired = spec_with_fire(m0.bullets, moved, inp.space_pressed);
    proof {
        assert(views_of(sess.squares@) == spawned);
        assert(views_of(sess.bullets@) == fired);
        assert forall|k: int| 0 <= k < sess.squares@.len() implies (#[trigger] sess.squares@[k])@
            .wf() by {
            assert(sess.squares@[k]@ == spawned[k]);
            if k < m0.squares.len() {
                assert(spawned[k] == m0.squares[k]);
            }
        }
        assert forall|k: int| 0 <= k < sess.bullets@.len() implies (#[trigger] sess.bullets@[k])@
            .wf() by {
            assert(sess.bullets@[k]@ == fired[k]);
            if k < m0.bullets.len() {
                assert(fired[k] == m0.bullets[k]);
            }
        }
    }
    advance_squares(&mut sess.squares, dt);
    advance_bullets(&mut sess.bullets, dt);
    let ghost adv_s = spec_advanced_down(spawned, dt as int);
    let ghost adv_b = spec_advanced_up(fired, dt as int);
    proof {
        assert(views_of(sess.squares@) == adv_s);
        assert(views_of(sess.bullets@) == adv_b);
        assert forall|k: int| 0 <= k < adv_s.len() implies 0 < (#[trigger] adv_s[k]).size
            <= MAX_SIZE && 0 <= adv_s[k].speed <= MAX_SPEED && -POS_LIMIT <= adv_s[k].x <= POS_LIMIT
            && -POS_LIMIT <= adv_s[k].y by {
            assert(adv_s[k] == spec_fallen(spawned[k], dt as int));
            assert(spawned[k].wf());
            let sk: int = spawned[k].speed;
            assert(0 <= sk * (dt as int) <= 1099511627776) by (nonlinear_arith)
                requires
                    0 <= sk <= 1048576,
                    0 <= dt as int <= 1048576,
            ;
        }
        assert forall|k: int| 0 <= k < adv_b.len() implies 0 < (#[trigger] adv_b[k]).size
            <= MAX_SIZE && 0 <= adv_b[k].speed <= MAX_SPEED && -POS_LIMIT <= adv_b[k].x <= POS_LIMIT
            && adv_b[k].y <= POS_LIMIT by {
            assert(adv_b[k] == spec_risen(fired[k], dt as int));
            assert(fired[k].wf());
            let sk: int = fired[k].speed;
            assert(0 <= sk * (dt as int) <= 1099511627776) by (nonlinear_arith)
                requires
                    0 <= sk <= 1048576,
                    0 <= dt as int <= 1048576,
            ;
        }
        assert forall|k: int| 0 <= k < sess.squares@.len() implies (#[trigger] sess.squares@[k])@
            .size <= MAX_SIZE by {
            assert(sess.squares@[k]@ == adv_s[k]);
        }
    }
    cull_squares(&mut sess.squares, h);
    cull_bullets(&mut sess.bullets);
    let ghost cs = spec_cull_squares(adv_s, h as int);
    let ghost cb = spec_cull_bullets(adv_b);
    proof {
        assert(views_of(sess.squares@) == cs);
        assert(views_of(sess.bullets@) == cb);
        lemma_cull_squares_elems(
            adv_s,
            h as int,
            |s: ShapeModel|
                0 < s.size <= MAX_SIZE && 0 <= s.speed <= MAX_SPEED && -POS_LIMIT <= s.x
                    <= POS_LIMIT && -POS_LIMIT <= s.y,
        );
        lemma_cull_bullets_elems(
            adv_b,
            |s: ShapeModel|
                0 < s.size <= MAX_SIZE && 0 <= s.speed <= MAX_SPEED && -POS_LIMIT <= s.x
                    <= POS_LIMIT && s.y <= POS_LIMIT,
        );
        assert forall|k: int| 0 <= k < cs.len() implies (#[trigger] cs[k]).wf() by {
            assert(spec_square_kept(cs[k], h as int));
        }
        assert forall|k: int| 0 <= k < cb.len() implies (#[trigger] cb[k]).wf() by {
            assert(spec_bullet_kept(cb[k]));
        }
        assert forall|k: int| 0 <= k < sess.squares@.len() implies (#[trigger] sess.squares@[k])@
            .bounded() by {
            assert(sess.squares@[k]@ == cs[k]);
        }
        assert(sess.player@.bounded());
    }
    let dead = any_hit(&sess.player, &sess.squares);
    let save: Option<u64> = if dead && sess.score == sess.high_score {
        Some(sess.high_score)
    } else {
        None
    };
    proof {
        assert(dead == spec_player_dead(m0, *inp, dt as int, *draws, w as int, h as int));
        assert forall|k: int| 0 <= k < sess.bullets@.len() implies (#[trigger] sess.bullets@[k])@
            .bounded() by {
            assert(sess.bullets@[k]@ == cb[k]);
        }
        lemma_total_gain_bound(cs, cb);
    }
    let (sc, hg) = collision_pass(
        &mut sess.squares,
        &mut sess.bullets,
        sess.score,
        sess.high_score,
    );
    sess.score = sc;
    sess.high_score = hg;
    let next_mode = if dead {
        GameMode::GameOver
    } else if inp.escape_pressed {
        GameMode::Paused
    } else {
        GameMode::Playing
    };
    proof {
        let result = spec_next_session(m0, *inp, dt as int, *draws, w as int, h as int);
        assert(sess@ =~= result);
        assert forall|k: int| 0 <= k < result.squares.len() implies (#[trigger] result.squares[k])
            .wf() by {
            assert(result.squares[k].size == cs[k].size);
        }
        assert forall|k: int| 0 <= k < result.bullets.len() implies (#[trigger] result.bullets[k])
            .wf() by {
            assert(result.bullets[k].size == cb[k].size);
        }
        assert(result.player_wf());
        assert(result.wf());
    }
    FrameOutput { next_mode, save }
}

} // verus!
