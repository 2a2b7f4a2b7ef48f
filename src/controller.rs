//! Decisions of the loop that drives a game in real time: when a session
//! starts, which heading the next tick uses, when a tick is due, and when the
//! loop stops. Whoever runs the loop hands in each control message and the
//! current time, and publishes what comes back.

use crate::model::{food_placed, initial_snake, Direction, Game, GameStep};
use vstd::prelude::*;

verus! {

/// Milliseconds between two ticks.
pub const STEP_MILLIS: u64 = 200;

/// Milliseconds the loop sleeps between two polls.
pub const SLEEP_MILLIS: u64 = 1;

/// A command sent to the loop.
#[derive(Clone, Copy, Debug, PartialEq, Eq, Structural)]
pub enum GameControl {
    Start,
    Move(Direction),
}

/// Where the loop stands.
#[derive(Clone, Copy, Debug, PartialEq, Eq, Structural)]
pub enum Phase {
    AwaitingStart,
    Running,
    Terminated,
}

/// Whether a message ends the wait for a session to start.
pub fn await_start(control: &GameControl) -> (r: bool)
    ensures
        r == (*control is Start),
{
    match control {
        GameControl::Start => true,
        GameControl::Move(_) => false,
    }
}

/// A tick is due once a whole interval has passed since the last one.
pub open spec fn tick_is_due(now: u64, last_tick: u64) -> bool {
    now >= last_tick + STEP_MILLIS
}

/// The heading in force after `controls`, starting from `active`: the last
/// move wins, and starts change nothing.
pub open spec fn last_move(controls: Seq<GameControl>, active: Direction) -> Direction
    decreases controls.len(),
{
    if controls.len() == 0 {
        active
    } else {
        match controls.last() {
            GameControl::Move(d) => d,
            GameControl::Start => last_move(controls.drop_last(), active),
        }
    }
}

/// The state of the loop: the grid's size, its phase, the game once started,
/// the heading the next tick uses, and the time of the last tick in
/// milliseconds.
pub struct Controller {
    pub width: usize,
    pub height: usize,
    pub phase: Phase,
    pub game: Option<Game>,
    pub active_direction: Direction,
    pub last_tick: u64,
}

impl Controller {
    /// The state invariant: a grid that holds the starting snake, and a valid
    /// game of that size while running.
    pub open spec fn wf(&self) -> bool {
        &&& 8 <= self.width
        &&& 8 <= self.height
        &&& self.width * self.height <= usize::MAX
        &&& self.phase == Phase::AwaitingStart ==> self.game is None
        &&& self.phase != Phase::AwaitingStart ==> {
            &&& self.game is Some
            &&& self.game->Some_0.wf()
            &&& self.game->Some_0.width == self.width
            &&& self.game->Some_0.height == self.height
        }
    }

    /// What one call of `receive` does.
    pub open spec fn received(
        pre: Controller,
        control: GameControl,
        now: u64,
        post: Controller,
        out: Option<GameStep>,
    ) -> bool {
        if pre.phase == Phase::AwaitingStart && control is Start {
            &&& post.width == pre.width
            &&& post.height == pre.height
            &&& post.phase == Phase::Running
            &&& post.active_direction == Direction::Up
            &&& post.last_tick == now
            &&& post.game is Some
            &&& post.game->Some_0.snake@ == initial_snake()
            &&& post.game->Some_0.last_direction == Direction::Up
            &&& food_placed(post.game->Some_0.food, initial_snake(), pre.width, pre.height)
            &&& out is Some
            &&& out->Some_0 is Continue
            &&& out->Some_0->Continue_0.derived_from(
                pre.width,
                pre.height,
                initial_snake(),
                post.game->Some_0.food,
            )
        } else if pre.phase == Phase::Running && control is Move {
            &&& post.width == pre.width
            &&& post.height == pre.height
            &&& post.phase == pre.phase
            &&& post.game == pre.game
            &&& post.last_tick == pre.last_tick
            &&& post.active_direction == control->Move_0
            &&& out is None
        } else {
            post == pre && out is None
        }
    }

    /// What one call of `tick` does.
    pub open spec fn ticked(pre: Controller, now: u64, post: Controller, out: Option<GameStep>) -> bool {
        if pre.phase == Phase::Running && tick_is_due(now, pre.last_tick) {
            &&& post.width == pre.width
            &&& post.height == pre.height
            &&& post.active_direction == pre.active_direction
            &&& post.last_tick == pre.last_tick + STEP_MILLIS
            &&& out is Some
            &&& post.game is Some
            &&& Game::stepped(pre.game->Some_0, pre.active_direction, post.game->Some_0, out->Some_0)
            &&& post.phase == (if out->Some_0 is Lose {
                Phase::Terminated
            } else {
                Phase::Running
            })
        } else {
            post == pre && out is None
        }
    }

    /// A loop for a `width` by `height` grid, waiting for a start.
    pub fn new(width: usize, height: usize) -> (r: Controller)
        requires
            8 <= width,
            8 <= height,
            width * height <= usize::MAX,
        ensures
            r.wf(),
            r.width == width,
            r.height == height,
            r.phase == Phase::AwaitingStart,
            r.game is None,
            r.active_direction == Direction::Up,
    {
        Controller {
            width,
            height,
            phase: Phase::AwaitingStart,
            game: None,
            active_direction: Direction::Up,
            last_tick: 0,
        }
    }

    /// Takes in one control message at time `now`; returns the snapshot to
    /// publish, if any.
    pub fn receive(&mut self, control: GameControl, now: u64) -> (out: Option<GameStep>)
        requires
            old(self).wf(),
        ensures
            final(self).wf(),
            Controller::received(*old(self), control, now, *final(self), out),
    {
        match self.phase {
            Phase::AwaitingStart => {
                if await_start(&control) {
                    let game = Game::new(self.width, self.height);
                    let board = game.board();
                    self.game = Some(game);
                    self.phase = Phase::Running;
                    self.active_direction = Direction::Up;
                    self.last_tick = now;
                    Some(GameStep::Continue(board))
                } else {
                    None
                }
            },
            Phase::Running => {
                match control {
                    GameControl::Move(d) => {
                        self.active_direction = d;
                    },
                    GameControl::Start => {},
                }
                None
            },
            Phase::Terminated => None,
        }
    }

    /// Advances the game at time `now` if a tick is due; returns the step to
    /// publish, if any. A lost game stops the loop.
    pub fn tick(&mut self, now: u64) -> (out: Option<GameStep>)
        requires
            old(self).wf(),
        ensures
            final(self).wf(),
            Controller::ticked(*old(self), now, *final(self), out),
    {
        if self.phase != Phase::Running || now < self.last_tick || now - self.last_tick
            < STEP_MILLIS {
            return None;
        }
        let mut game = self.game.take().unwrap();
        let r = game.step(self.active_direction);
        self.game = Some(game);
        self.last_tick = self.last_tick + STEP_MILLIS;
        if let GameStep::Lose = r {
            self.phase = Phase::Terminated;
        }
        Some(r)
    }

    /// Stops the loop because nobody consumes its snapshots any more.
    pub fn disconnect(&mut self)
        requires
            old(self).wf(),
        ensures
            final(self).wf(),
            final(self).phase == (if old(self).phase == Phase::AwaitingStart {
                Phase::AwaitingStart
            } else {
                Phase::Terminated
            }),
            final(self).width == old(self).width,
            final(self).height == old(self).height,
            final(self).game == old(self).game,
            final(self).active_direction == old(self).active_direction,
            final(self).last_tick == old(self).last_tick,
    {
        if self.phase == Phase::Running {
            self.phase = Phase::Terminated;
        }
    }

    /// Whether the loop has stopped for good.
    pub fn is_terminated(&self) -> (r: bool)
        ensures
            r == (self.phase == Phase::Terminated),
    {
        self.phase == Phase::Terminated
    }
}


/// Moves sent before the start change nothing and publish nothing; the
/// snapshot published at the start is that of a fresh game heading Up, and
/// the first tick then heads Up.
pub proof fn lemma_moves_before_start_ignored(
    states: Seq<Controller>,
    controls: Seq<GameControl>,
    times: Seq<u64>,
    outs: Seq<Option<GameStep>>,
)
    requires
        controls.len() > 0,
        states.len() == controls.len() + 1,
        times.len() == controls.len(),
        outs.len() == controls.len(),
        states[0].phase == Phase::AwaitingStart,
        forall|i: int|
            0 <= i < controls.len() ==> Controller::received(
                #[trigger] states[i],
                controls[i],
                times[i],
                states[i + 1],
                outs[i],
            ),
        forall|i: int| 0 <= i < controls.len() - 1 ==> #[trigger] controls[i] is Move,
        controls.last() is Start,
    ensures
        forall|i: int| 0 <= i < controls.len() - 1 ==> #[trigger] outs[i] is None,
        states.last().phase == Phase::Running,
        states.last().active_direction == Direction::Up,
        states.last().game is Some,
        states.last().game->Some_0.last_direction == Direction::Up,
        states.last().game->Some_0.snake@ == initial_snake(),
        outs.last() is Some,
        outs.last()->Some_0 is Continue,
        outs.last()->Some_0->Continue_0.derived_from(
            states[0].width,
            states[0].height,
            initial_snake(),
            states.last().game->Some_0.food,
        ),
{
    let n = controls.len() as int;
    assert forall|i: int| 0 <= i < n implies #[trigger] states[i] == states[0] by {
        lemma_waiting_unchanged(states, controls, times, outs, i);
    }
    assert forall|i: int| 0 <= i < n - 1 implies #[trigger] outs[i] is None by {
        assert(states[i] == states[0]);
    }
    assert(states[n - 1] == states[0]);
}

proof fn lemma_waiting_unchanged(
    states: Seq<Controller>,
    controls: Seq<GameControl>,
    times: Seq<u64>,
    outs: Seq<Option<GameStep>>,
    k: int,
)
    requires
        0 <= k < controls.len(),
        states.len() == controls.len() + 1,
        times.len() == controls.len(),
        outs.len() == controls.len(),
        states[0].phase == Phase::AwaitingStart,
        forall|i: int|
            0 <= i < controls.len() ==> Controller::received(
                #[trigger] states[i],
                controls[i],
                times[i],
                states[i + 1],
                outs[i],
            ),
        forall|i: int| 0 <= i < controls.len() - 1 ==> #[trigger] controls[i] is Move,
    ensures
        states[k] == states[0],
    decreases k,
{
    if k > 0 {
        lemma_waiting_unchanged(states, controls, times, outs, k - 1);
        assert(controls[k - 1] is Move);
        assert(Controller::received(states[k - 1], controls[k - 1], times[k - 1], states[k], outs[k - 1]));
    }
}

/// While running, the heading that the next tick uses is the one of the last
/// move received since the previous tick; the messages themselves publish
/// nothing and leave the game alone.
pub proof fn lemma_last_move_wins(
    states: Seq<Controller>,
    controls: Seq<GameControl>,
    times: Seq<u64>,
    outs: Seq<Option<GameStep>>,
)
    requires
        states.len() == controls.len() + 1,
        times.len() == controls.len(),
        outs.len() == controls.len(),
        states[0].phase == Phase::Running,
        forall|i: int|
            0 <= i < controls.len() ==> Controller::received(
                #[trigger] states[i],
                controls[i],
                times[i],
                states[i + 1],
                outs[i],
            ),
    ensures
        states.last().active_direction == last_move(controls, states[0].active_direction),
        states.last().phase == Phase::Running,
        states.last().game == states[0].game,
        states.last().last_tick == states[0].last_tick,
        forall|i: int| 0 <= i < controls.len() ==> #[trigger] outs[i] is None,
    decreases controls.len(),
{
    let n = controls.len() as int;
    if n > 0 {
        let s2 = states.drop_last();
        let c2 = controls.drop_last();
        let t2 = times.drop_last();
        let o2 = outs.drop_last();
        assert forall|i: int| 0 <= i < c2.len() implies Controller::received(
            #[trigger] s2[i],
            c2[i],
            t2[i],
            s2[i + 1],
            o2[i],
        ) by {
            assert(Controller::received(states[i], controls[i], times[i], states[i + 1], outs[i]));
        }
        lemma_last_move_wins(s2, c2, t2, o2);
        assert(Controller::received(states[n - 1], controls[n - 1], times[n - 1], states[n], outs[n - 1]));
        assert forall|i: int| 0 <= i < n implies #[trigger] outs[i] is None by {
            if i < n - 1 {
                assert(o2[i] is None);
            }
        }
    }
}

/// Once the loop has stopped, no message and no tick changes it or publishes
/// anything again.
pub proof fn lemma_terminated_is_final(
    pre: Controller,
    control: GameControl,
    now: u64,
    post1: Controller,
    out1: Option<GameStep>,
    post2: Controller,
    out2: Option<GameStep>,
)
    requires
        pre.phase == Phase::Terminated,
        Controller::received(pre, control, now, post1, out1),
        Controller::ticked(pre, now, post2, out2),
    ensures
        post1 == pre,
        out1 is None,
        post2 == pre,
        out2 is None,
{
}

} // verus!
