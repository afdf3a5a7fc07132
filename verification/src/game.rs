//! The lifecycle of a game loop: which hook of a [`Game`] is due, and what its
//! answer does to the loop.
//!
//! A loop starts the game once, then updates and renders it frame by frame
//! for as long as every hook has answered `true`, and at last lets it exit,
//! exactly once.

use crate::clock::WallClock;
use crate::timer::{FrameTimer, TimeError, TimerModel, NANOS_PER_SECOND};
use std::time::SystemTime;
use vstd::prelude::*;

verus! {

/// What an application implements to be driven by a [`GameLoop`].
///
/// Every hook but `on_exit` answers whether the loop may go on. A hook that
/// is not implemented answers `true` and changes nothing; of a hook that is
/// implemented, nothing is known but what its implementation states.
pub trait Game {
    /// Called once, before the first frame.
    fn on_start(&mut self) -> (go_on: bool)
        default_ensures
            go_on,
            &*final(self) == &*old(self),
    {
        true
    }

    /// Called once per frame with the time since the previous frame, in
    /// nanoseconds.
    fn on_update(&mut self, delta_nanos: u128) -> (go_on: bool)
        default_ensures
            go_on,
            &*final(self) == &*old(self),
    {
        true
    }

    /// Called once per frame, after `on_update`, with the frame rate sampled
    /// last.
    fn on_render(&mut self, frame_rate: u32) -> (go_on: bool)
        default_ensures
            go_on,
            &*final(self) == &*old(self),
    {
        true
    }

    /// Called once, as the last hook. Its answer is not used.
    fn on_exit(&mut self) -> (answer: bool)
        default_ensures
            answer,
            &*final(self) == &*old(self),
    {
        true
    }
}

/// Where a loop is in its lifecycle, named by the hook that is due.
#[derive(Clone, Copy, Debug, PartialEq, Eq, Structural)]
pub enum Phase {
    /// `on_start` is due.
    Starting,
    /// `on_update` is due.
    Updating,
    /// `on_render` is due.
    Rendering,
    /// `on_exit` is due.
    Exiting,
    /// Every hook has been called; none is due.
    Finished,
}

/// A hook that is due, with what it is to be called with.
#[derive(Clone, Copy, Debug, PartialEq, Eq, Structural)]
pub enum Hook {
    Start,
    Update { delta_nanos: u128 },
    Render { frame_rate: u32 },
    Exit,
}

/// What a [`GameLoop`] is: its phase, whether it is to go on, and its timer.
pub struct LoopModel {
    pub phase: Phase,
    pub running: bool,
    pub timer: TimerModel,
}

impl LoopModel {
    /// A loop before its first hook.
    pub open spec fn initial() -> LoopModel {
        LoopModel { phase: Phase::Starting, running: true, timer: TimerModel::initial() }
    }

    /// The phase that follows the start of the game or the end of a frame.
    pub open spec fn after_frame(running: bool) -> Phase {
        if running {
            Phase::Updating
        } else {
            Phase::Exiting
        }
    }

    /// Whether the loop can take in a clock reading: always, but at the end
    /// of a frame, where the timer has to accept it.
    pub open spec fn accepts(self, now: nat) -> bool {
        self.phase == Phase::Rendering ==> self.timer.accepts(now)
    }

    /// The loop after the hook that was due has answered `go_on`, and the
    /// clock then read `now`.
    ///
    /// The loop goes on only while every answer was `true`. The answer of
    /// `on_exit` is not used, and the clock is used only at the end of a
    /// frame, which is after `on_render`.
    pub open spec fn advance(self, go_on: bool, now: nat) -> LoopModel {
        match self.phase {
            Phase::Starting => LoopModel {
                phase: Self::after_frame(self.running && go_on),
                running: self.running && go_on,
                timer: self.timer,
            },
            Phase::Updating => LoopModel {
                phase: Phase::Rendering,
                running: self.running && go_on,
                timer: self.timer,
            },
            Phase::Rendering => LoopModel {
                phase: Self::after_frame(self.running && go_on),
                running: self.running && go_on,
                timer: self.timer.tick(now),
            },
            Phase::Exiting => LoopModel {
                phase: Phase::Finished,
                running: self.running,
                timer: self.timer,
            },
            Phase::Finished => self,
        }
    }

    /// The loop after one hook per input, in order: each input is the answer
    /// of the hook that was due and the clock reading taken after it.
    pub open spec fn advance_all(self, inputs: Seq<(bool, nat)>) -> LoopModel
        decreases inputs.len(),
    {
        if inputs.len() == 0 {
            self
        } else {
            self.advance_all(inputs.drop_last()).advance(inputs.last().0, inputs.last().1)
        }
    }

    /// The phase in which a new loop takes the input at `position`: it names
    /// the hook that gave the answer.
    pub open spec fn phase_at(inputs: Seq<(bool, nat)>, position: int) -> Phase {
        Self::initial().advance_all(inputs.take(position)).phase
    }

    /// The phase at `position` of a loop in which no hook has refused yet:
    /// the start, then update and render in turn.
    pub open spec fn phase_while_running(position: int) -> Phase {
        if position == 0 {
            Phase::Starting
        } else if position % 2 == 1 {
            Phase::Updating
        } else {
            Phase::Rendering
        }
    }
}

/// The state of a game loop.
pub struct GameLoop {
    phase: Phase,
    running: bool,
    timer: FrameTimer,
}

impl View for GameLoop {
    type V = LoopModel;

    closed spec fn view(&self) -> LoopModel {
        LoopModel { phase: self.phase, running: self.running, timer: self.timer@ }
    }
}

impl GameLoop {
    /// A loop before its first hook: it is to go on, and its timer is at zero.
    pub fn new() -> (state: GameLoop)
        ensures
            state@ == LoopModel::initial(),
    {
        GameLoop { phase: Phase::Starting, running: true, timer: FrameTimer::new() }
    }

    /// The phase the loop is in.
    pub fn phase(&self) -> (phase: Phase)
        ensures
            phase == self@.phase,
    {
        self.phase
    }

    /// Whether the loop is to go on: no hook has answered `false`, and no
    /// shutdown was asked for.
    pub fn is_running(&self) -> (running: bool)
        ensures
            running == self@.running,
    {
        self.running
    }

    /// Whether every hook has been called.
    pub fn is_finished(&self) -> (finished: bool)
        ensures
            finished == (self@.phase == Phase::Finished),
    {
        match self.phase {
            Phase::Finished => true,
            _ => false,
        }
    }

    /// The frame rate sampled last; zero until a full second has passed.
    pub fn frame_rate(&self) -> (rate: u32)
        ensures
            rate == self@.timer.frame_rate,
    {
        self.timer.frame_rate()
    }

    /// Asks the loop to stop. It stops where it would after a hook that
    /// answered `false`: before the next frame, with `on_exit` still to come.
    pub fn shutdown(&mut self)
        ensures
            final(self)@ == (LoopModel { running: false, ..old(self)@ }),
    {
        self.running = false;
    }

    /// The hook that is due, with what it is to be called with.
    ///
    /// `Ok(None)` where the loop has finished. Fails where `on_update` is due
    /// and the clock ran backwards between the last two frames.
    pub fn next_hook(&self) -> (due: Result<Option<Hook>, TimeError>)
        ensures
            match self@.phase {
                Phase::Starting => due == Ok::<Option<Hook>, TimeError>(Some(Hook::Start)),
                Phase::Updating => match self@.timer.delta() {
                    Some(delta) => due matches Ok(Some(Hook::Update { delta_nanos }))
                        && delta_nanos == delta,
                    None => due == Err::<Option<Hook>, TimeError>(TimeError::ClockWentBackwards),
                },
                Phase::Rendering => due matches Ok(Some(Hook::Render { frame_rate }))
                    && frame_rate == self@.timer.frame_rate,
                Phase::Exiting => due == Ok::<Option<Hook>, TimeError>(Some(Hook::Exit)),
                Phase::Finished => due == Ok::<Option<Hook>, TimeError>(None),
            },
    {
        match self.phase {
            Phase::Starting => Ok(Some(Hook::Start)),
            Phase::Updating => match self.timer.delta_nanos() {
                Some(delta_nanos) => Ok(Some(Hook::Update { delta_nanos })),
                None => Err(TimeError::ClockWentBackwards),
            },
            Phase::Rendering => Ok(Some(Hook::Render { frame_rate: self.timer.frame_rate() })),
            Phase::Exiting => Ok(Some(Hook::Exit)),
            Phase::Finished => Ok(None),
        }
    }

    /// Takes in the answer of the hook that was due, and the clock reading
    /// taken after it.
    ///
    /// Fails, and changes nothing, where a frame ends and `now` is earlier
    /// than the start of the timer's sampling window.
    pub fn advance(&mut self, go_on: bool, now: u128) -> (result: Result<(), TimeError>)
        ensures
            result is Ok <==> old(self)@.accepts(now as nat),
            result is Ok ==> final(self)@ == old(self)@.advance(go_on, now as nat),
            result is Err ==> final(self)@ == old(self)@,
    {
        match self.phase {
            Phase::Starting => {
                self.running = self.running && go_on;
                self.phase = if self.running { Phase::Updating } else { Phase::Exiting };
            },
            Phase::Updating => {
                self.running = self.running && go_on;
                self.phase = Phase::Rendering;
            },
            Phase::Rendering => {
                match self.timer.tick(now) {
                    Ok(()) => {},
                    Err(e) => { return Err(e); },
                }
                self.running = self.running && go_on;
                self.phase = if self.running { Phase::Updating } else { Phase::Exiting };
            },
            Phase::Exiting => {
                self.phase = Phase::Finished;
            },
            Phase::Finished => {},
        }
        Ok(())
    }

    /// Calls the hook of `game` that is due, once, with what [`Self::next_hook`]
    /// names, reads `clock` where a frame ends, and takes both in. Does
    /// nothing where the loop has finished.
    ///
    /// `clock` is restarted when the game has started, so that the loop's
    /// times count from there, and is left as it is in every other phase.
    ///
    /// Fails, and leaves the loop as it was, where the clock ran backwards:
    /// before `on_update`, which is then not called, where it did so between
    /// the last two frames; after `on_render`, where `clock` has no reading
    /// or reads earlier than the start of the timer's sampling window. The
    /// frame ends at what `clock` reads in every other case.
    pub fn step<G: Game>(&mut self, game: &mut G, clock: &mut WallClock) -> (result: Result<
        (),
        TimeError,
    >)
        ensures
            old(self)@.phase != Phase::Starting ==> *final(clock) == *old(clock),
            match old(self)@.phase {
                Phase::Starting => result is Ok && exists|hooked: &mut G, go_on: bool|
                    {
                        &&& *hooked == *old(game)
                        &&& #[trigger] call_ensures(<G as Game>::on_start, (hooked,), go_on)
                        &&& *final(game) == *final(hooked)
                        &&& final(self)@ == old(self)@.advance(go_on, 0)
                    },
                Phase::Updating => match old(self)@.timer.delta() {
                    Some(delta) => result is Ok && exists|
                        hooked: &mut G,
                        delta_nanos: u128,
                        go_on: bool,
                    |
                        {
                            &&& *hooked == *old(game)
                            &&& delta_nanos == delta
                            &&& #[trigger] call_ensures(
                                <G as Game>::on_update,
                                (hooked, delta_nanos),
                                go_on,
                            )
                            &&& *final(game) == *final(hooked)
                            &&& final(self)@ == old(self)@.advance(go_on, 0)
                        },
                    None => result is Err && final(self)@ == old(self)@ && *final(game) == *old(
                        game,
                    ),
                },
                Phase::Rendering => exists|
                    hooked: &mut G,
                    frame_rate: u32,
                    go_on: bool,
                    now: SystemTime,
                |
                    #![trigger
                        call_ensures(<G as Game>::on_render, (hooked, frame_rate), go_on),
                        old(clock).reading_at(now),
                    ]
                    {
                        &&& *hooked == *old(game)
                        &&& frame_rate == old(self)@.timer.frame_rate
                        &&& call_ensures(<G as Game>::on_render, (hooked, frame_rate), go_on)
                        &&& *final(game) == *final(hooked)
                        &&& match old(clock).reading_at(now) {
                            Ok(nanos) if old(self)@.accepts(nanos as nat) => result is Ok
                                && final(self)@ == old(self)@.advance(go_on, nanos as nat),
                            _ => result is Err && final(self)@ == old(self)@,
                        }
                    },
                Phase::Exiting => result is Ok && exists|hooked: &mut G, answer: bool|
                    {
                        &&& *hooked == *old(game)
                        &&& #[trigger] call_ensures(<G as Game>::on_exit, (hooked,), answer)
                        &&& *final(game) == *final(hooked)
                        &&& final(self)@ == old(self)@.advance(answer, 0)
                    },
                Phase::Finished => result is Ok && final(self)@ == old(self)@ && *final(game)
                    == *old(game),
            },
    {
        match self.next_hook() {
            Err(e) => Err(e),
            Ok(None) => {
                Ok(())
            },
            Ok(Some(Hook::Start)) => {
                let go_on = game.on_start();
                clock.restart();
                self.advance(go_on, 0)
            },
            Ok(Some(Hook::Update { delta_nanos })) => {
                let go_on = game.on_update(delta_nanos);
                self.advance(go_on, 0)
            },
            Ok(Some(Hook::Render { frame_rate })) => {
                let go_on = game.on_render(frame_rate);
                match clock.elapsed_nanos() {
                    Ok(nanos) => self.advance(go_on, nanos),
                    Err(e) => Err(e),
                }
            },
            Ok(Some(Hook::Exit)) => {
                let answer = game.on_exit();
                self.advance(answer, 0)
            },
        }
    }
}

/// A loop that is not to go on never goes on again.
pub proof fn lemma_stopped_stays_stopped(state: LoopModel, inputs: Seq<(bool, nat)>)
    requires
        !state.running,
    ensures
        !state.advance_all(inputs).running,
    decreases inputs.len(),
{
    if inputs.len() > 0 {
        lemma_stopped_stays_stopped(state, inputs.drop_last());
    }
}

/// A loop that has finished stays as it is: no hook follows `on_exit`.
pub proof fn lemma_finished_stays_finished(state: LoopModel, inputs: Seq<(bool, nat)>)
    requires
        state.phase == Phase::Finished,
    ensures
        state.advance_all(inputs) == state,
    decreases inputs.len(),
{
    if inputs.len() > 0 {
        lemma_finished_stays_finished(state, inputs.drop_last());
    }
}

/// Whatever the hooks answer, a new loop lets the game exit only once it is
/// not to go on.
pub proof fn lemma_exits_only_when_stopped(inputs: Seq<(bool, nat)>)
    ensures
        ({
            let state = LoopModel::initial().advance_all(inputs);
            state.phase == Phase::Exiting || state.phase == Phase::Finished ==> !state.running
        }),
    decreases inputs.len(),
{
    if inputs.len() > 0 {
        lemma_exits_only_when_stopped(inputs.drop_last());
    }
}

/// Where every hook answers `true` but the `frames`-th `on_update`, a new
/// loop calls `on_start` once, then `on_update` and `on_render` in turn,
/// `frames` times each, then `on_exit`, and then no hook.
pub proof fn lemma_stops_after_refusing_update(frames: nat, inputs: Seq<(bool, nat)>)
    requires
        frames >= 1,
        inputs.len() == 2 * frames + 1,
        forall|i: int| 0 <= i < inputs.len() ==> (#[trigger] inputs[i]).0 == (i != 2 * frames - 1),
    ensures
        forall|position: int|
            0 <= position < inputs.len() ==> #[trigger] LoopModel::phase_at(inputs, position)
                == LoopModel::phase_while_running(position),
        LoopModel::initial().advance_all(inputs).phase == Phase::Exiting,
        forall|answer: bool, now: nat|
            (#[trigger] LoopModel::initial().advance_all(inputs).advance(answer, now)).phase
                == Phase::Finished,
{
    assert forall|position: int| 0 <= position <= inputs.len() implies ({
        let state = LoopModel::initial().advance_all(#[trigger] inputs.take(position));
        &&& state.running == (position < 2 * frames)
        &&& state.phase == if position < inputs.len() {
            LoopModel::phase_while_running(position)
        } else {
            Phase::Exiting
        }
    }) by {
        lemma_prefix_while_running(frames, inputs, position);
    }
    assert(inputs.take(inputs.len() as int) =~= inputs);
    assert forall|position: int| 0 <= position < inputs.len() implies #[trigger]
        LoopModel::phase_at(inputs, position) == LoopModel::phase_while_running(position) by {
        let prefix = inputs.take(position);
        assert(LoopModel::initial().advance_all(prefix).phase == LoopModel::phase_while_running(
            position,
        ));
    }
}

/// The state of the loop of [`lemma_stops_after_refusing_update`] after the
/// first `position` inputs.
proof fn lemma_prefix_while_running(frames: nat, inputs: Seq<(bool, nat)>, position: int)
    requires
        frames >= 1,
        inputs.len() == 2 * frames + 1,
        forall|i: int| 0 <= i < inputs.len() ==> (#[trigger] inputs[i]).0 == (i != 2 * frames - 1),
        0 <= position <= inputs.len(),
    ensures
        ({
            let state = LoopModel::initial().advance_all(inputs.take(position));
            &&& state.running == (position < 2 * frames)
            &&& state.phase == if position < inputs.len() {
                LoopModel::phase_while_running(position)
            } else {
                Phase::Exiting
            }
        }),
    decreases position,
{
    if position > 0 {
        lemma_prefix_while_running(frames, inputs, position - 1);
        let prefix = inputs.take(position);
        assert(prefix.drop_last() =~= inputs.take(position - 1));
        assert(prefix.last() == inputs[position - 1]);
    }
}

/// A new loop hands the frame rate zero to `on_render` for as long as every
/// clock reading lies within the first second.
pub proof fn lemma_rate_zero_in_first_second(inputs: Seq<(bool, nat)>)
    requires
        forall|i: int| 0 <= i < inputs.len() ==> (#[trigger] inputs[i]).1 < NANOS_PER_SECOND,
    ensures
        LoopModel::initial().advance_all(inputs).timer.frame_rate == 0,
        LoopModel::initial().advance_all(inputs).timer.window_start == 0,
    decreases inputs.len(),
{
    if inputs.len() > 0 {
        lemma_rate_zero_in_first_second(inputs.drop_last());
        assert(inputs.last() == inputs[inputs.len() - 1]);
    }
}

} // verus!
