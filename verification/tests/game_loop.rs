use engine::clock::{reading, WallClock};
use engine::game::{Game, GameLoop, Hook, Phase};
use engine::timer::TimeError;

/// A game that writes down every hook call and refuses where it is told to.
struct Script {
    calls: Vec<&'static str>,
    deltas: Vec<u128>,
    rates: Vec<u32>,
    start_answer: bool,
    refuse_update: usize,
    refuse_render: usize,
}

impl Script {
    fn new() -> Script {
        Script {
            calls: Vec::new(),
            deltas: Vec::new(),
            rates: Vec::new(),
            start_answer: true,
            refuse_update: 0,
            refuse_render: 0,
        }
    }

    fn count(&self, hook: &str) -> usize {
        self.calls.iter().filter(|call| **call == hook).count()
    }
}

impl Game for Script {
    fn on_start(&mut self) -> bool {
        self.calls.push("start");
        self.start_answer
    }

    fn on_update(&mut self, delta_nanos: u128) -> bool {
        self.calls.push("update");
        self.deltas.push(delta_nanos);
        self.count("update") != self.refuse_update
    }

    fn on_render(&mut self, frame_rate: u32) -> bool {
        self.calls.push("render");
        self.rates.push(frame_rate);
        self.count("render") != self.refuse_render
    }

    fn on_exit(&mut self) -> bool {
        self.calls.push("exit");
        false
    }
}

struct Silent;

impl Game for Silent {}

fn run(game: &mut Script) -> GameLoop {
    let mut clock = WallClock::start();
    let mut state = GameLoop::new();
    let mut steps = 0;
    while !state.is_finished() {
        assert_eq!(state.step(game, &mut clock), Ok(()));
        steps += 1;
        assert!(steps < 1000);
    }
    state
}

#[test]
fn loop_stops_after_the_frame_in_which_update_said_no() {
    let mut game = Script::new();
    game.refuse_update = 3;
    let mut state = run(&mut game);
    assert_eq!(game.count("start"), 1);
    assert_eq!(game.count("update"), 3);
    assert_eq!(game.count("render"), 3);
    assert_eq!(game.count("exit"), 1);
    assert_eq!(
        game.calls,
        vec!["start", "update", "render", "update", "render", "update", "render", "exit"]
    );
    let mut clock = WallClock::start();
    assert_eq!(state.step(&mut game, &mut clock), Ok(()));
    assert_eq!(state.step(&mut game, &mut clock), Ok(()));
    assert_eq!(game.calls.len(), 8);
    assert_eq!(state.phase(), Phase::Finished);
    assert!(!state.is_running());
}

#[test]
fn loop_that_may_not_start_only_exits() {
    let mut game = Script::new();
    game.start_answer = false;
    let state = run(&mut game);
    assert_eq!(game.calls, vec!["start", "exit"]);
    assert!(state.is_finished());
}

#[test]
fn loop_stops_after_render_said_no() {
    let mut game = Script::new();
    game.refuse_render = 2;
    run(&mut game);
    assert_eq!(game.calls, vec!["start", "update", "render", "update", "render", "exit"]);
}

#[test]
fn first_frame_sees_no_time_passed_and_no_frame_rate() {
    let mut game = Script::new();
    game.refuse_update = 5;
    run(&mut game);
    assert_eq!(game.rates.len(), 5);
    assert_eq!(game.rates[0], 0);
    assert_eq!(game.deltas.len(), 5);
    assert_eq!(game.deltas[0], 0);
}

#[test]
fn hooks_that_are_not_written_let_the_loop_go_on() {
    let mut game = Silent;
    let mut clock = WallClock::start();
    let mut state = GameLoop::new();
    for _ in 0..7 {
        assert_eq!(state.step(&mut game, &mut clock), Ok(()));
    }
    assert!(state.is_running());
    assert_eq!(state.phase(), Phase::Updating);
    state.shutdown();
    assert!(!state.is_running());
    assert_eq!(state.step(&mut game, &mut clock), Ok(()));
    assert_eq!(state.phase(), Phase::Rendering);
    assert_eq!(state.step(&mut game, &mut clock), Ok(()));
    assert_eq!(state.phase(), Phase::Exiting);
    assert_eq!(state.step(&mut game, &mut clock), Ok(()));
    assert!(state.is_finished());
}

#[test]
fn new_loop_is_about_to_start() {
    let state = GameLoop::new();
    assert_eq!(state.phase(), Phase::Starting);
    assert!(state.is_running());
    assert!(!state.is_finished());
    assert_eq!(state.frame_rate(), 0);
    assert_eq!(state.next_hook(), Ok(Some(Hook::Start)));
}

#[test]
fn answers_and_readings_move_the_loop_through_its_phases() {
    let mut state = GameLoop::new();
    assert_eq!(state.advance(true, 123), Ok(()));
    assert_eq!(state.next_hook(), Ok(Some(Hook::Update { delta_nanos: 0 })));
    assert_eq!(state.advance(true, 456), Ok(()));
    assert_eq!(state.next_hook(), Ok(Some(Hook::Render { frame_rate: 0 })));
    assert_eq!(state.advance(true, 250_000_000), Ok(()));
    assert_eq!(state.next_hook(), Ok(Some(Hook::Update { delta_nanos: 250_000_000 })));
    assert_eq!(state.advance(true, 0), Ok(()));
    assert_eq!(state.advance(true, 1_000_000_000), Ok(()));
    assert_eq!(state.frame_rate(), 2);
    assert_eq!(state.next_hook(), Ok(Some(Hook::Update { delta_nanos: 750_000_000 })));
    assert_eq!(state.advance(false, 0), Ok(()));
    assert!(!state.is_running());
    assert_eq!(state.phase(), Phase::Rendering);
    assert_eq!(state.next_hook(), Ok(Some(Hook::Render { frame_rate: 2 })));
    assert_eq!(state.advance(true, 1_999_999_999), Ok(()));
    assert_eq!(state.frame_rate(), 2);
    assert_eq!(state.phase(), Phase::Exiting);
    assert_eq!(state.next_hook(), Ok(Some(Hook::Exit)));
    assert_eq!(state.advance(true, 0), Ok(()));
    assert_eq!(state.phase(), Phase::Finished);
    assert!(!state.is_running());
    assert_eq!(state.next_hook(), Ok(None));
    assert_eq!(state.advance(true, 5_000_000_000), Ok(()));
    assert_eq!(state.phase(), Phase::Finished);
    assert_eq!(state.frame_rate(), 2);
}

#[test]
fn a_stopped_loop_does_not_go_on_again() {
    let mut state = GameLoop::new();
    assert_eq!(state.advance(true, 0), Ok(()));
    assert_eq!(state.advance(false, 0), Ok(()));
    assert_eq!(state.advance(true, 10), Ok(()));
    assert!(!state.is_running());
    assert_eq!(state.phase(), Phase::Exiting);
}

#[test]
fn frame_end_before_the_window_began_is_refused() {
    let mut state = GameLoop::new();
    assert_eq!(state.advance(true, 0), Ok(()));
    assert_eq!(state.advance(true, 0), Ok(()));
    assert_eq!(state.advance(true, 2_000_000_000), Ok(()));
    assert_eq!(state.frame_rate(), 1);
    assert_eq!(state.advance(true, 0), Ok(()));
    assert_eq!(state.phase(), Phase::Rendering);
    assert_eq!(state.advance(true, 1_999_999_999), Err(TimeError::ClockWentBackwards));
    assert_eq!(state.phase(), Phase::Rendering);
    assert_eq!(state.frame_rate(), 1);
    assert_eq!(state.advance(true, 2_000_000_000), Ok(()));
    assert_eq!(state.next_hook(), Ok(Some(Hook::Update { delta_nanos: 0 })));
}

#[test]
fn update_is_not_due_after_the_clock_ran_backwards() {
    let mut state = GameLoop::new();
    assert_eq!(state.advance(true, 0), Ok(()));
    assert_eq!(state.advance(true, 0), Ok(()));
    assert_eq!(state.advance(true, 500), Ok(()));
    assert_eq!(state.advance(true, 0), Ok(()));
    assert_eq!(state.advance(true, 200), Ok(()));
    assert_eq!(state.phase(), Phase::Updating);
    assert_eq!(state.next_hook(), Err(TimeError::ClockWentBackwards));
    let mut game = Script::new();
    let mut clock = WallClock::start();
    assert_eq!(state.step(&mut game, &mut clock), Err(TimeError::ClockWentBackwards));
    assert!(game.calls.is_empty());
    assert_eq!(state.phase(), Phase::Updating);
}

#[test]
fn wall_clock_counts_from_its_origin() {
    let mut clock = WallClock::start();
    let mut spins = 0u64;
    let mut elapsed = 0;
    while elapsed == 0 {
        elapsed = match clock.elapsed_nanos() {
            Ok(nanos) => nanos,
            Err(error) => panic!("the system clock ran backwards: {:?}", error),
        };
        spins += 1;
        assert!(spins < 1_000_000_000);
    }
    assert!(elapsed < 60_000_000_000);
    clock.restart();
    match clock.elapsed_nanos() {
        Ok(nanos) => assert!(nanos < 60_000_000_000),
        Err(error) => panic!("the system clock ran backwards: {:?}", error),
    }
}

#[test]
fn reading_is_the_span_in_nanoseconds_or_the_error() {
    let origin = std::time::SystemTime::UNIX_EPOCH;
    let later = origin + std::time::Duration::new(1, 5);
    assert_eq!(reading(origin.duration_since(origin)), Ok(0));
    assert_eq!(reading(later.duration_since(origin)), Ok(1_000_000_005));
    assert_eq!(reading(origin.duration_since(later)), Err(TimeError::ClockWentBackwards));
}

#[test]
fn provided_hooks_answer_yes() {
    let mut game = Silent;
    assert!(game.on_start());
    assert!(game.on_update(16_000_000));
    assert!(game.on_render(60));
    assert!(game.on_exit());
}

struct OnlyUpdate {
    updates: u32,
}

impl Game for OnlyUpdate {
    fn on_update(&mut self, _delta_nanos: u128) -> bool {
        self.updates += 1;
        false
    }
}

#[test]
fn hooks_are_provided_one_by_one() {
    let mut game = OnlyUpdate { updates: 0 };
    assert!(game.on_start());
    assert!(game.on_render(0));
    assert!(game.on_exit());
    assert_eq!(game.updates, 0);
    assert!(!game.on_update(0));
    assert_eq!(game.updates, 1);
}
