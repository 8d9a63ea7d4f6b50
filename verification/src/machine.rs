//! The game's state machine: dispatches one frame of behavior for the
//! current mode and applies the menu transitions.

use crate::frame::playing_frame;
use crate::frame::spec_next_mode;
use crate::frame::spec_next_session;
use crate::frame::spec_player_dead;
use crate::frame::FrameInput;
use crate::frame::SpawnDraws;
use crate::frame::MAX_DT;
use crate::frame::SPAWN_SIZE_MAX;
use crate::frame::SPAWN_SIZE_MIN;
use crate::frame::SPAWN_SPEED_MAX;
use crate::frame::SPAWN_SPEED_MIN;
use crate::frame::SPAWN_THRESHOLD;
use crate::session::spec_centered_player;
use crate::session::GameMode;
use crate::session::Session;
use crate::session::LEN_LIMIT;
use crate::session::SCORE_LIMIT;
use crate::session::SCREEN_LIMIT;
use crate::shape::ShapeModel;
use vstd::prelude::*;

verus! {

/// The whole game: the current mode and the play session it owns.
pub struct Game {
    pub mode: GameMode,
    pub session: Session,
}

/// What one step asks of the host: to exit the process (quit action from
/// the main menu), and the high score to persist now, if any.
#[derive(Clone, Copy, Debug)]
pub struct StepOutput {
    pub quit: bool,
    pub save: Option<u64>,
}

impl Game {
    /// A fresh game at the main menu, with the high score loaded at startup.
    pub fn new(w: i64, h: i64, high_score: u64) -> (g: Game)
        requires
            0 < w <= SCREEN_LIMIT,
            0 < h <= SCREEN_LIMIT,
        ensures
            g.mode == GameMode::MainMenu,
            g.session@.player == spec_centered_player(w as int, h as int),
            g.session@.squares == Seq::<ShapeModel>::empty(),
            g.session@.bullets == Seq::<ShapeModel>::empty(),
            g.session@.score == 0,
            g.session@.high_score == high_score,
            g.session@.wf(),
    {
        Game { mode: GameMode::MainMenu, session: Session::new(w, h, high_score) }
    }

    /// One frame of the state machine.
    ///
    /// At the main menu, Escape asks the host to exit and Space starts a new
    /// play-through (session reset; the high score carries over). In
    /// `Playing` the frame update runs in full; a death wins over a pause,
    /// and the high score is handed back for persistence exactly when the
    /// player dies with the score at the high score. `Paused` resumes on
    /// Space; `GameOver` returns to the main menu on Space. Any other input
    /// changes nothing.
    pub fn step(&mut self, inp: &FrameInput, dt: i64, draws: &SpawnDraws, w: i64, h: i64) -> (out:
        StepOutput)
        requires
            old(self).session@.wf(),
            0 <= dt <= MAX_DT,
            0 < w <= SCREEN_LIMIT,
            0 < h <= SCREEN_LIMIT,
            draws.roll <= 99,
            draws.roll >= SPAWN_THRESHOLD ==> SPAWN_SIZE_MIN <= draws.size <= SPAWN_SIZE_MAX,
            draws.roll >= SPAWN_THRESHOLD ==> SPAWN_SPEED_MIN <= draws.speed <= SPAWN_SPEED_MAX,
            draws.roll >= SPAWN_THRESHOLD ==> draws.size / 2 <= draws.x <= w - draws.size / 2,
            old(self).mode == GameMode::Playing ==> old(self).session@.player.size <= w,
            old(self).mode == GameMode::Playing ==> old(self).session@.player.size <= h,
            old(self).mode == GameMode::Playing ==> old(self).session@.squares.len() < LEN_LIMIT,
            old(self).mode == GameMode::Playing ==> old(self).session@.bullets.len() < LEN_LIMIT,
            old(self).mode == GameMode::Playing ==> old(self).session@.score <= SCORE_LIMIT,
        ensures
            final(self).session@.wf(),
            out.quit == (old(self).mode == GameMode::MainMenu && inp.escape_pressed),
            out.save == (if old(self).mode == GameMode::Playing && spec_player_dead(
                old(self).session@,
                *inp,
                dt as int,
                *draws,
                w as int,
                h as int,
            ) && old(self).session@.score == old(self).session@.high_score {
                Some(old(self).session.high_score)
            } else {
                None::<u64>
            }),
            old(self).mode == GameMode::MainMenu && inp.escape_pressed ==> final(self).mode
                == GameMode::MainMenu && final(self).session@ == old(self).session@,
            old(self).mode == GameMode::MainMenu && !inp.escape_pressed && inp.space_pressed
                ==> final(self).mode == GameMode::Playing && final(self).session@.player
                == spec_centered_player(w as int, h as int) && final(self).session@.squares
                == Seq::<ShapeModel>::empty() && final(self).session@.bullets
                == Seq::<ShapeModel>::empty() && final(self).session@.score == 0
                && final(self).session@.high_score == old(self).session@.high_score,
            old(self).mode == GameMode::MainMenu && !inp.escape_pressed && !inp.space_pressed
                ==> final(self).mode == GameMode::MainMenu
                && final(self).session@ == old(self).session@,
            old(self).mode == GameMode::Playing ==> final(self).session@ == spec_next_session(
                old(self).session@,
                *inp,
                dt as int,
                *draws,
                w as int,
                h as int,
            ) && final(self).mode == spec_next_mode(
                spec_player_dead(old(self).session@, *inp, dt as int, *draws, w as int, h as int),
                inp.escape_pressed,
            ),
            old(self).mode == GameMode::Paused ==> final(self).session@ == old(self).session@
                && final(self).mode == (if inp.space_pressed {
                GameMode::Playing
            } else {
                GameMode::Paused
            }),
            old(self).mode == GameMode::GameOver ==> final(self).session@ == old(self).session@
                && final(self).mode == (if inp.space_pressed {
                GameMode::MainMenu
            } else {
                GameMode::GameOver
            }),
    {
        match self.mode {
            GameMode::MainMenu => {
                if inp.escape_pressed {
                    StepOutput { quit: true, save: None }
                } else {
                    if inp.space_pressed {
                        self.session.reset(w, h);
                        self.mode = GameMode::Playing;
                    }
                    StepOutput { quit: false, save: None }
                }
            },
            GameMode::Playing => {
                let fo = playing_frame(&mut self.session, inp, dt, draws, w, h);
                self.mode = fo.next_mode;
                StepOutput { quit: false, save: fo.save }
            },
            GameMode::Paused => {
                if inp.space_pressed {
                    self.mode = GameMode::Playing;
                }
                StepOutput { quit: false, save: None }
            },
            GameMode::GameOver => {
                if inp.space_pressed {
                    self.mode = GameMode::MainMenu;
                }
                StepOutput { quit: false, save: None }
            },
        }
    }
}

} // verus!
