//! The course of a session: pausing, finishing and starting anew, and the
//! waves of rats.

use vstd::prelude::*;
use crate::config::{later, BRAT_KILL, BRAT_SPAWN_SECONDS, HALF_RATS_PER_FACTORY, RAT_SPAWN_SECONDS};
use crate::entities::dir::NONE;
use crate::game_context::{random, Counters, GameContext, GameState};
use crate::video::init::InitOptions;

verus! {

impl GameState {
    /// The state after the pause key: a running game pauses, a paused
    /// game runs on, and any other stays as it is.
    pub open spec fn toggled(self) -> GameState {
        match self {
            GameState::Running => GameState::Paused,
            GameState::Paused => GameState::Running,
            _ => self,
        }
    }

    /// The state after the key that declines another game: a finished
    /// game is quit, and any other stays as it is.
    pub open spec fn declined(self) -> GameState {
        match self {
            GameState::Finished => GameState::Quit,
            _ => self,
        }
    }

    /// The state after the restart key: a finished game is to start
    /// anew, and any other stays as it is.
    pub open spec fn restarted(self) -> GameState {
        match self {
            GameState::Finished => GameState::Restart,
            _ => self,
        }
    }

    /// The name of the state as text.
    pub open spec fn label_text(self) -> Seq<char> {
        match self {
            GameState::Running => "RUNNING"@,
            GameState::Paused => "PAUSED"@,
            GameState::Finished => "FINISHED"@,
            GameState::Quit => "QUIT"@,
            GameState::Restart => "RESTART"@,
        }
    }

    /// The name of the state.
    pub fn label(&self) -> (text: &'static str)
        ensures
            text@ == self.label_text(),
    {
        match self {
            GameState::Running => "RUNNING",
            GameState::Paused => "PAUSED",
            GameState::Finished => "FINISHED",
            GameState::Quit => "QUIT",
            GameState::Restart => "RESTART",
        }
    }
}

/// The rats that a wave asks for: two and a half for each live factory,
/// rounded down.
pub open spec fn rat_wave(live_factories: usize) -> int {
    live_factories * HALF_RATS_PER_FACTORY / 2
}

/// The baby rats that a wave asks for: one for every eight live rats,
/// and a few more by the roll of a die.
pub open spec fn brat_wave(live_rats: usize, roll: usize) -> int {
    live_rats / 8 + roll
}

impl Counters {
    /// Whether the game is over: no factory and no rat is left, or the
    /// player has no life left.
    pub open spec fn game_over(self) -> bool {
        (self.live_factories == 0 && self.live_rats == 0) || self.players_left == 0
    }

    /// The numbers once the game is over. Outside the classic game the
    /// baby rats that are left count as killed and are scored.
    pub open spec fn settled(self, classic: bool) -> Counters {
        if classic {
            self
        } else {
            Counters {
                score: (self.score + self.live_brats * BRAT_KILL) as usize,
                dead_brats: (self.dead_brats + self.live_brats) as usize,
                live_brats: 0,
                ..self
            }
        }
    }
}

impl GameContext {
    /// The pause key: a running game pauses and a paused game runs on.
    pub fn pause(&mut self)
        ensures
            *final(self) == (GameContext {
                game_state: old(self).game_state.toggled(),
                ..*old(self)
            }),
            old(self).wf() ==> final(self).wf(),
    {
        match self.game_state {
            GameState::Running => {
                self.game_state = GameState::Paused;
            },
            GameState::Paused => {
                self.game_state = GameState::Running;
            },
            _ => {},
        }
    }

    /// Ends the session.
    pub fn quit(&mut self)
        ensures
            *final(self) == (GameContext { game_state: GameState::Quit, ..*old(self) }),
            old(self).wf() ==> final(self).wf(),
    {
        self.game_state = GameState::Quit;
    }

    /// The restart key: a finished game is to start anew.
    pub fn restart(&mut self)
        ensures
            *final(self) == (GameContext {
                game_state: old(self).game_state.restarted(),
                ..*old(self)
            }),
            old(self).wf() ==> final(self).wf(),
    {
        if self.game_state == GameState::Finished {
            self.game_state = GameState::Restart;
        }
    }

    /// The key that declines another game: a finished game is quit.
    pub fn decline(&mut self)
        ensures
            *final(self) == (GameContext {
                game_state: old(self).game_state.declined(),
                ..*old(self)
            }),
            old(self).wf() ==> final(self).wf(),
    {
        if self.game_state == GameState::Finished {
            self.game_state = GameState::Quit;
        }
    }

    /// Shows the diagnostics, or hides them.
    pub fn toggle_diagnostics(&mut self)
        ensures
            *final(self) == (GameContext { diagnostics: !old(self).diagnostics, ..*old(self) }),
    {
        self.diagnostics = !self.diagnostics;
    }

    /// Whether this is the session `before` after the waves that were due
    /// at time `now` were called for. A wave of rats is due from the time
    /// set for it, and the next one twenty seconds later; it asks each
    /// live factory for two and a half rats. A wave of baby rats is due
    /// from the time set for it while there are rats, and the next one
    /// forty-five seconds later; it asks for one for every eight rats and
    /// `roll` more.
    pub open spec fn called(&self, before: &GameContext, now: u32, roll: usize) -> bool {
        let rats_due = now >= before.next_rat_wave;
        let brats_due = before.counters.live_rats > 0 && now >= before.next_brat_wave;
        *self == (GameContext {
            next_rat_wave: if rats_due {
                (now + RAT_SPAWN_SECONDS * 1000) as u64
            } else {
                before.next_rat_wave
            },
            next_brat_wave: if brats_due {
                (now + BRAT_SPAWN_SECONDS * 1000) as u64
            } else {
                before.next_brat_wave
            },
            counters: Counters {
                new_rats: if rats_due {
                    rat_wave(before.counters.live_factories) as usize
                } else {
                    before.counters.new_rats
                },
                new_brats: if brats_due {
                    brat_wave(before.counters.live_rats, roll) as usize
                } else {
                    before.counters.new_brats
                },
                ..before.counters
            },
            ..*before
        })
    }

    /// Calls for the waves that are due at time `now`: of rats, and of
    /// baby rats, `roll` of which are thrown in.
    pub fn spawn_waves(&mut self, now: u32, roll: usize)
        requires
            old(self).counters.live_factories * HALF_RATS_PER_FACTORY <= usize::MAX,
            old(self).counters.live_rats / 8 + roll <= usize::MAX,
        ensures
            final(self).called(old(self), now, roll),
            old(self).wf() ==> final(self).wf(),
    {
        assert(RAT_SPAWN_SECONDS == 20 && BRAT_SPAWN_SECONDS == 45 && HALF_RATS_PER_FACTORY == 5);
        if now as u64 >= self.next_rat_wave {
            self.counters.new_rats = self.counters.live_factories * HALF_RATS_PER_FACTORY / 2;
            self.next_rat_wave = later(now, (RAT_SPAWN_SECONDS as u32) * 1000);
        }
        if self.counters.live_rats > 0 && now as u64 >= self.next_brat_wave {
            self.counters.new_brats = self.counters.live_rats / 8 + roll;
            self.next_brat_wave = later(now, (BRAT_SPAWN_SECONDS as u32) * 1000);
        }
    }

    /// Whether this is the session `before` after a game that was over at
    /// time `now` was ended: finished, with its numbers settled and the
    /// seconds it took noted, unless it was finished already. A game
    /// that does not end yet is as it was.
    pub open spec fn closed(&self, before: &GameContext, now: u32, classic: bool) -> bool {
        if before.ending(classic) {
            *self == (GameContext {
                game_state: GameState::Finished,
                counters: before.counters.settled(classic),
                time: if before.game_state == GameState::Finished {
                    before.time
                } else {
                    (now / 1000) as usize
                },
                ..*before
            })
        } else {
            *self == *before
        }
    }

    /// Ends the game if it is over at time `now`: no factory and no rat
    /// is left, or the player has no life left. Outside the classic game
    /// the baby rats that are left are scored as killed; in the classic
    /// game the game goes on until they are gone. A session that was quit
    /// stays so.
    pub fn check_finished(&mut self, now: u32, classic: bool)
        requires
            old(self).counters.score + old(self).counters.live_brats * BRAT_KILL <= usize::MAX,
            old(self).counters.dead_brats + old(self).counters.live_brats <= usize::MAX,
        ensures
            final(self).closed(old(self), now, classic),
            old(self).wf() ==> final(self).wf(),
    {
        assert(BRAT_KILL == 25);
        if self.game_state != GameState::Quit && ((self.counters.live_factories == 0
            && self.counters.live_rats == 0) || self.counters.players_left == 0) {
            if !classic {
                self.counters.score += self.counters.live_brats * BRAT_KILL;
                self.counters.dead_brats += self.counters.live_brats;
                self.counters.live_brats = 0;
            }
            if self.counters.live_brats == 0 {
                if self.game_state != GameState::Finished {
                    self.time = (now / 1000) as usize;
                }
                self.game_state = GameState::Finished;
            }
        }
    }

    /// Whether the game ends now: the session was not quit, the game is
    /// over, and no baby rat is left to deal with (outside the classic
    /// game none ever is).
    pub open spec fn ending(&self, classic: bool) -> bool {
        &&& self.game_state != GameState::Quit
        &&& self.counters.game_over()
        &&& !classic || self.counters.live_brats == 0
    }
}

impl GameContext {
    /// Whether this is the session `before` after a frame of play at time
    /// `now`, by way of the sessions `renewed`, `stepped`, `shot` and
    /// `called`: a game that was to start anew has done so; then the
    /// simulation took its step; then a held firing key fired the gun, if
    /// the gun was ready; then the waves that were due were called for,
    /// with `roll` baby rats thrown in, two to ten of them; and at last a
    /// game that was over was ended.
    pub open spec fn played(
        &self,
        before: &GameContext,
        opts: InitOptions,
        now: u32,
        classic: bool,
        renewed: &GameContext,
        stepped: &GameContext,
        shot: &GameContext,
        called: &GameContext,
        roll: usize,
    ) -> bool {
        &&& if before.game_state == GameState::Restart {
            renewed.renewed(before, opts, now)
        } else {
            *renewed == *before
        }
        &&& stepped.stepped(renewed, now)
        &&& if stepped.firing_dir != NONE && now >= stepped.next_fire_time {
            shot.fired(stepped, now)
        } else {
            *shot == *stepped
        }
        &&& 2 <= roll <= 10
        &&& called.called(shot, now, roll)
        &&& self.closed(called, now, classic)
    }

    /// What a frame does to the game at time `now`, once the picture is
    /// drawn and the keys are read: a game that is to start anew does so;
    /// the simulation takes its step; a held firing key fires as soon as
    /// the gun is ready; the waves that are due are called for; and a
    /// game that is over is ended.
    pub fn play_frame(&mut self, opts: InitOptions, now: u32, classic: bool)
        requires
            old(self).wf(),
            old(self).game_state != GameState::Restart ==> old(self).scene().room_for_frame(),
        ensures
            final(self).wf(),
            exists|
                renewed: GameContext,
                stepped: GameContext,
                shot: GameContext,
                called: GameContext,
                roll: usize,
            | #[trigger]
                final(self).played(
                    old(self),
                    opts,
                    now,
                    classic,
                    &renewed,
                    &stepped,
                    &shot,
                    &called,
                    roll,
                ),
            old(self).game_state == GameState::Quit ==> final(self).game_state == GameState::Quit,
            final(self).game_state != GameState::Restart,
            final(self).game_state == GameState::Running || final(self).game_state
                == GameState::Paused ==> !final(self).ending(classic),
    {
        assert(BRAT_KILL == 25);
        assert(HALF_RATS_PER_FACTORY == 5);
        if self.game_state == GameState::Restart {
            self.new_game(opts, now);
        }
        let ghost renewed = *self;
        proof {
            renewed.scene().lemma_room();
        }
        self.update(now);
        let ghost stepped = *self;
        if self.firing_dir != NONE && now as u64 >= self.next_fire_time {
            self.fire(now);
        }
        let ghost shot = *self;
        let roll: u16 = random(2, 10);
        proof {
            crate::game_context::lemma_count_bound(self.entities@, crate::entities::Kind::Rat);
            crate::game_context::lemma_count_bound(self.entities@, crate::entities::Kind::Factory);
            assert(crate::config::FACTORY_KILL == 250);
        }
        self.spawn_waves(now, roll as usize);
        let ghost called = *self;
        self.check_finished(now, classic);
        proof {
            assert(self.played(
                old(self),
                opts,
                now,
                classic,
                &renewed,
                &stepped,
                &shot,
                &called,
                roll as usize,
            ));
        }
    }
}

} // verus!
