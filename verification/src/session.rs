//! The play session and the four-state menu flow.

use crate::shape::views_of;
use crate::shape::Shape;
use crate::shape::ShapeModel;
use crate::shape::MAX_SIZE;
use vstd::prelude::*;

verus! {

/// Edge length / diameter of the player shape, in subpixels (16 pixels).
pub const PLAYER_SIZE: i64 = 16000;

/// Movement speed of the player, in subpixels per millisecond.
pub const PLAYER_SPEED: i64 = 200;

/// Diameter of a bullet, in subpixels (5 pixels).
pub const BULLET_SIZE: i64 = 5000;

/// Bound on the player's speed; bullets move at twice the player's speed and
/// must stay within `MAX_SPEED`.
pub const PLAYER_SPEED_MAX: i64 = 524288;

/// Bound on screen dimensions handed to the library, in subpixels.
pub const SCREEN_LIMIT: i64 = 1099511627776;

/// Bound on the entity collections' lengths at the start of a frame.
pub const LEN_LIMIT: usize = 1048576;

/// Bound on the score at the start of a frame, so that one frame's gains
/// cannot overflow the counter.
pub const SCORE_LIMIT: u64 = 4611686018427387904;

/// The current mode of the game: an exhaustive, mutually exclusive
/// enumeration with no associated data.
#[derive(Clone, Copy, Debug, PartialEq, Eq, Structural)]
pub enum GameMode {
    MainMenu,
    Playing,
    Paused,
    GameOver,
}

/// The mutable state scoped to one play-through: the player shape, the two
/// entity collections, and the score pair. Reset on entering `Playing` from
/// `MainMenu`; the high score alone survives the reset.
pub struct Session {
    pub player: Shape,
    pub squares: Vec<Shape>,
    pub bullets: Vec<Shape>,
    pub score: u64,
    pub high_score: u64,
}

/// Mathematical model of a `Session`.
#[verifier::ext_equal]
pub struct SessionModel {
    pub player: ShapeModel,
    pub squares: Seq<ShapeModel>,
    pub bullets: Seq<ShapeModel>,
    pub score: int,
    pub high_score: int,
}

impl View for Session {
    type V = SessionModel;

    open spec fn view(&self) -> SessionModel {
        SessionModel {
            player: self.player@,
            squares: views_of(self.squares@),
            bullets: views_of(self.bullets@),
            score: self.score as int,
            high_score: self.high_score as int,
        }
    }
}

impl SessionModel {
    /// The player stays within the screen-coordinate range and moves no
    /// faster than half the bullet speed bound.
    pub open spec fn player_wf(self) -> bool {
        &&& 0 < self.player.size <= MAX_SIZE
        &&& 0 <= self.player.speed <= PLAYER_SPEED_MAX
        &&& 0 <= self.player.x <= SCREEN_LIMIT
        &&& 0 <= self.player.y <= SCREEN_LIMIT
    }

    /// Session invariant: every entity is well formed and the score never
    /// exceeds the high score.
    pub open spec fn wf(self) -> bool {
        &&& self.player_wf()
        &&& forall|i: int| 0 <= i < self.squares.len() ==> (#[trigger] self.squares[i]).wf()
        &&& forall|i: int| 0 <= i < self.bullets.len() ==> (#[trigger] self.bullets[i]).wf()
        &&& 0 <= self.score <= self.high_score
    }
}

/// The player shape as created for a session on a screen of the given
/// dimensions: centered, standard size and speed, never marked collided.
pub open spec fn spec_centered_player(w: int, h: int) -> ShapeModel {
    ShapeModel {
        size: PLAYER_SIZE as int,
        speed: PLAYER_SPEED as int,
        x: w / 2,
        y: h / 2,
        collided: false,
    }
}

impl Session {
    /// A fresh session on a screen of `w` by `h` subpixels, carrying the
    /// high score loaded at startup. The score starts at zero and the
    /// collections start empty.
    pub fn new(w: i64, h: i64, high_score: u64) -> (s: Session)
        requires
            0 < w <= SCREEN_LIMIT,
            0 < h <= SCREEN_LIMIT,
        ensures
            s@.player == spec_centered_player(w as int, h as int),
            s@.squares == Seq::<ShapeModel>::empty(),
            s@.bullets == Seq::<ShapeModel>::empty(),
            s@.score == 0,
            s@.high_score == high_score,
            s@.wf(),
    {
        let s = Session {
            player: Shape {
                size: PLAYER_SIZE,
                speed: PLAYER_SPEED,
                x: w / 2,
                y: h / 2,
                collided: false,
            },
            squares: Vec::new(),
            bullets: Vec::new(),
            score: 0,
            high_score,
        };
        proof {
            assert(s@.squares =~= Seq::<ShapeModel>::empty());
            assert(s@.bullets =~= Seq::<ShapeModel>::empty());
        }
        s
    }

    /// Starts a new play-through: clears both collections, recenters the
    /// player, and resets the score. The high score is unchanged.
    pub fn reset(&mut self, w: i64, h: i64)
        requires
            0 < w <= SCREEN_LIMIT,
            0 < h <= SCREEN_LIMIT,
        ensures
            final(self)@.player == spec_centered_player(w as int, h as int),
            final(self)@.squares == Seq::<ShapeModel>::empty(),
            final(self)@.bullets == Seq::<ShapeModel>::empty(),
            final(self)@.score == 0,
            final(self)@.high_score == old(self)@.high_score,
            final(self)@.wf(),
    {
        self.squares.clear();
        self.bullets.clear();
        self.player = Shape {
            size: PLAYER_SIZE,
            speed: PLAYER_SPEED,
            x: w / 2,
            y: h / 2,
            collided: false,
        };
        self.score = 0;
        proof {
            assert(self@.squares =~= Seq::<ShapeModel>::empty());
            assert(self@.bullets =~= Seq::<ShapeModel>::empty());
        }
    }
}

} // verus!
