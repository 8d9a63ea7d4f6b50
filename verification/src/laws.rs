//! Frame-level laws of the update, stated and proved over the same spec
//! functions the exec contracts use. The geometric laws of the overlap
//! predicate stand beside it in `shape`.

use crate::frame::lemma_cull_squares_elems;
use crate::frame::spec_advanced_down;
use crate::frame::spec_bullets_culled;
use crate::frame::spec_clamped_player;
use crate::frame::spec_hit_by_bullet;
use crate::frame::spec_next_session;
use crate::frame::spec_player_after;
use crate::frame::spec_square_kept;
use crate::frame::spec_squares_culled;
use crate::frame::spec_with_spawn;
use crate::frame::FrameInput;
use crate::frame::SpawnDraws;
use crate::session::SessionModel;
use crate::shape::ShapeModel;
use vstd::prelude::*;

verus! {

/// In a frame where no directional key is held, the player's position is
/// unchanged except for clamping: the frame leaves the player exactly where
/// the clamp step alone would.
pub proof fn lemma_idle_player_only_clamped(
    p: ShapeModel,
    inp: FrameInput,
    dt: int,
    w: int,
    h: int,
)
    requires
        !inp.left,
        !inp.right,
        !inp.up,
        !inp.down,
    ensures
        spec_player_after(p, inp, dt, w, h) == spec_clamped_player(p, w, h),
{
}

/// The clamp step is idempotent: applying it twice yields the same player
/// as applying it once, whenever each screen dimension is at least the
/// player's size (so that each clamp interval is non-empty).
pub proof fn lemma_clamp_idempotent(p: ShapeModel, w: int, h: int)
    requires
        p.size / 2 <= w - p.size / 2,
        p.size / 2 <= h - p.size / 2,
    ensures
        spec_clamped_player(spec_clamped_player(p, w, h), w, h) == spec_clamped_player(p, w, h),
{
}

/// The high score never decreases: a frame leaves it at the maximum of its
/// old value and the new score.
pub proof fn lemma_high_score_monotone(
    m: SessionModel,
    inp: FrameInput,
    dt: int,
    d: SpawnDraws,
    w: int,
    h: int,
)
    ensures
        spec_next_session(m, inp, dt, d, w, h).high_score >= m.high_score,
        spec_next_session(m, inp, dt, d, w, h).high_score >= spec_next_session(
            m,
            inp,
            dt,
            d,
            w,
            h,
        ).score,
{
}

/// Obstacle removal: at the end of a frame, no remaining obstacle lies at
/// or past the bottom boundary by its own size, and any remaining obstacle
/// that carries the collided mark was marked by this frame's collision
/// pass — an obstacle that entered the frame already marked is culled
/// before the pass and is absent. An obstacle marked by this frame's pass
/// leaves at the next frame's cull, since the mark is never reset.
pub proof fn lemma_obstacles_culled(
    m: SessionModel,
    inp: FrameInput,
    dt: int,
    d: SpawnDraws,
    w: int,
    h: int,
)
    ensures
        forall|k: int|
            0 <= k < spec_next_session(m, inp, dt, d, w, h).squares.len() ==> (
            #[trigger] spec_next_session(m, inp, dt, d, w, h).squares[k]).y < h
                + spec_next_session(m, inp, dt, d, w, h).squares[k].size,
        forall|k: int|
            0 <= k < spec_next_session(m, inp, dt, d, w, h).squares.len() ==> ((
            #[trigger] spec_next_session(m, inp, dt, d, w, h).squares[k]).collided
                == spec_hit_by_bullet(
                spec_squares_culled(m.squares, d, dt, h)[k],
                spec_bullets_culled(m.bullets, m.player, inp, dt),
            )),
{
    let cs = spec_squares_culled(m.squares, d, dt, h);
    lemma_cull_squares_elems(
        spec_advanced_down(spec_with_spawn(m.squares, d), dt),
        h,
        |s: ShapeModel| true,
    );
    let r = spec_next_session(m, inp, dt, d, w, h);
    assert forall|k: int| 0 <= k < r.squares.len() implies (#[trigger] r.squares[k]).y < h
        + r.squares[k].size && (r.squares[k].collided == spec_hit_by_bullet(
        cs[k],
        spec_bullets_culled(m.bullets, m.player, inp, dt),
    )) by {
        assert(spec_square_kept(cs[k], h));
        assert(r.squares[k].y == cs[k].y && r.squares[k].size == cs[k].size);
        assert(!cs[k].collided);
    }
}

} // verus!
