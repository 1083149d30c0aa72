//! The control signals that reach the core, and what each does.
use vstd::prelude::*;
use crate::enemy::Enemy;
use crate::events::Event;
use crate::game::{Game, GameView};
use crate::player::{Direction, Player, Velocity};
use crate::ui::GameState;

verus! {

/// A control signal.
#[derive(Clone, Copy, Debug, PartialEq, Eq, Structural)]
pub enum Signal {
    /// Start moving in a direction.  A horizontal and a vertical movement
    /// can go on together.
    StartMove(Direction),
    /// Stop moving, on both axes.
    StopMove,
    /// Open the attack window.
    Attack,
    /// Start a new game; heeded only once the game is won or lost.
    Restart,
    /// Leave the program.
    Quit,
}

impl GameView {
    /// The signal starts a new game: it asks for one, and the game is won
    /// or lost.
    pub open spec fn restarts(self, signal: Signal) -> bool {
        signal is Restart && self.game_state != GameState::Playing
    }

    /// The session after a signal that does not start a new game.  Only
    /// the player changes.
    pub open spec fn signalled(self, signal: Signal) -> GameView {
        match signal {
            Signal::StartMove(direction) => GameView {
                player: self.player.steered(direction),
                ..self
            },
            Signal::StopMove => GameView {
                player: Player { velocity: Velocity { x: 0, y: 0 }, ..self.player },
                ..self
            },
            Signal::Attack => GameView { player: self.player.swinging(), ..self },
            Signal::Restart => self,
            Signal::Quit => self,
        }
    }
}

/// A game that is won or lost stays so, whatever time passes and whatever
/// signal arrives, but for the one that starts a new game: a step changes
/// nothing and reports nothing, and a signal leaves the phase alone.
pub proof fn lemma_final_phase_absorbing(
    g: GameView,
    dt: u32,
    spawned: Option<Enemy>,
    signal: Signal,
)
    requires
        g.game_state != GameState::Playing,
        !(signal is Restart),
    ensures
        g.stepped(dt, spawned) == g,
        g.step_events(dt, spawned) == Seq::<Event>::empty(),
        !g.restarts(signal),
        g.signalled(signal).game_state == g.game_state,
{
}

impl Game {
    /// Heeds a control signal.  Tells whether the program is to quit.
    pub fn handle_signal(&mut self, signal: Signal) -> (quit: bool)
        requires
            old(self).wf(),
        ensures
            final(self).wf(),
            quit == (signal is Quit),
            old(self)@.restarts(signal) ==> final(self)@.is_fresh(),
            !old(self)@.restarts(signal) ==> final(self)@ == old(self)@.signalled(signal),
    {
        match signal {
            Signal::StartMove(direction) => {
                self.player.move_direction(direction);
                false
            },
            Signal::StopMove => {
                self.player.stop_movement();
                false
            },
            Signal::Attack => {
                self.player.attack();
                false
            },
            Signal::Restart => {
                if self.game_state != GameState::Playing {
                    *self = Game::new();
                }
                false
            },
            Signal::Quit => true,
        }
    }
}

} // verus!
