//! The animation driver: a state machine advanced once per redraw tick.
//!
//! Each tick pauses for the current delay, shortens the delay down to a fixed
//! floor, increments the depth, and asks for the whole nested stack from
//! depth 0 up to the new depth so that the full figure is redrawn every
//! frame.  The run terminates when the depth reaches the configured maximum,
//! or immediately when the window asks to close.  The driver itself performs
//! no I/O: it turns an incoming event into a new state and an action for the
//! surrounding render loop to carry out.

use vstd::prelude::*;
use crate::geometry::{Color, Vertex, ring_at, sequence};

verus! {

/// The delay before the first frame, in milliseconds.
pub const INITIAL_DELAY_MS: u64 = 1000;

/// The floor under the inter-frame delay, in milliseconds.
pub const MIN_DELAY_MS: u64 = 100;

/// How much the delay shrinks after each frame, in milliseconds.
pub const DELAY_STEP_MS: u64 = 20;

/// Startup configuration: the polygon's side count and the depth at which
/// the animation stops.
#[derive(Clone, Copy, Debug, PartialEq, Eq, Structural)]
pub struct Config {
    pub sides: usize,
    pub max_depth: usize,
}

/// A configuration the animation can run with.
pub open spec fn config_wf(c: Config) -> bool {
    &&& c.sides >= 3
    &&& 1 <= c.max_depth < usize::MAX
}

/// Why a configuration was rejected.
#[derive(Clone, Copy, Debug, PartialEq, Eq, Structural)]
pub enum ConfigError {
    /// The side count is below three: no closed polygon exists.
    TooFewSides,
    /// The maximum depth is zero: there would be nothing to animate.
    ZeroMaxDepth,
}

impl Config {
    /// Validates the startup configuration once; a bad configuration is
    /// rejected here, before the animation loop begins.
    pub fn new(sides: usize, max_depth: usize) -> (r: Result<Config, ConfigError>)
        requires
            max_depth < usize::MAX,
        ensures
            sides >= 3 && max_depth >= 1 ==> r == Ok::<Config, ConfigError>(
                Config { sides, max_depth },
            ),
            sides < 3 ==> r == Err::<Config, ConfigError>(ConfigError::TooFewSides),
            sides >= 3 && max_depth < 1 ==> r == Err::<Config, ConfigError>(
                ConfigError::ZeroMaxDepth,
            ),
            r is Ok ==> config_wf(r->Ok_0),
    {
        if sides < 3 {
            Err(ConfigError::TooFewSides)
        } else if max_depth < 1 {
            Err(ConfigError::ZeroMaxDepth)
        } else {
            Ok(Config { sides, max_depth })
        }
    }
}

/// The driver's per-run state.
#[derive(Clone, Copy, Debug, PartialEq, Eq, Structural)]
pub enum DriverState {
    /// The animation is still advancing: `depth` frames have been drawn so
    /// far and the next pause lasts `delay_ms` milliseconds.
    Running { depth: usize, delay_ms: u64 },
    /// The run is over; no further tick is processed.
    Terminated,
}

/// What the event source delivered for this turn of the loop.
#[derive(Clone, Copy, Debug, PartialEq, Eq, Structural)]
pub enum DriverEvent {
    /// The surface offers a redraw opportunity: advance the animation.
    Redraw,
    /// The window was resized to the given dimensions.
    Resized { width: u32, height: u32 },
    /// The window asked to close: terminate regardless of depth.
    CloseRequested,
}

/// The color the frame is cleared to before the rings are drawn.
pub open spec fn clear_shade() -> Color {
    Color { red: 5, green: 5, blue: 5, alpha: 1000 }
}

/// One full redraw, handed to the render loop: pause, clear, then draw every
/// ring in depth order as a closed line loop, then present.
pub struct FrameRequest {
    /// How long to pause before drawing, in milliseconds.
    pub sleep_ms: u64,
    /// The clear color for the frame.
    pub clear: Color,
    /// The rings to draw, depth 0 first.
    pub rings: Vec<Vec<Vertex>>,
}

/// What the surrounding render loop must do with the event just handled.
pub enum Action {
    /// Pause, then redraw the whole stack, then present.
    Render(FrameRequest),
    /// Forward the new dimensions to the render surface.
    ForwardResize { width: u32, height: u32 },
    /// Nothing to do.
    Idle,
}

/// The state invariant: a running driver is strictly below the configured
/// maximum depth, and its delay is one of the values the decay can reach.
pub open spec fn state_wf(c: Config, s: DriverState) -> bool {
    match s {
        DriverState::Running { depth, delay_ms } => {
            &&& depth < c.max_depth
            &&& MIN_DELAY_MS <= delay_ms <= INITIAL_DELAY_MS
            &&& (delay_ms - MIN_DELAY_MS) % (DELAY_STEP_MS as int) == 0
        },
        DriverState::Terminated => true,
    }
}

/// The delay after one frame: shrink by the step while above the floor.
pub open spec fn next_delay(d: u64) -> u64 {
    if d > MIN_DELAY_MS {
        (d - DELAY_STEP_MS) as u64
    } else {
        d
    }
}

/// The state after one redraw tick from `Running { depth, delay_ms }`.
pub open spec fn tick_state(c: Config, depth: usize, delay_ms: u64) -> DriverState {
    if depth + 1 >= c.max_depth {
        DriverState::Terminated
    } else {
        DriverState::Running { depth: (depth + 1) as usize, delay_ms: next_delay(delay_ms) }
    }
}

/// The state at the start of a run: depth 0, the initial delay.
pub open spec fn initial_spec() -> DriverState {
    DriverState::Running { depth: 0, delay_ms: INITIAL_DELAY_MS }
}

/// Returns the state the animation starts in.
pub fn initial_state() -> (s: DriverState)
    ensures
        s == initial_spec(),
{
    DriverState::Running { depth: 0, delay_ms: INITIAL_DELAY_MS }
}

/// Handles one event.  A redraw tick pauses for the old delay, shrinks the
/// delay, increments the depth, and redraws the whole stack from depth 0 up
/// to the new depth; the run terminates once the new depth reaches the
/// configured maximum.  A resize is forwarded; a close request terminates
/// immediately.  After termination every event is ignored.
pub fn handle_event(config: &Config, state: DriverState, event: DriverEvent) -> (r: (
    DriverState,
    Action,
))
    requires
        config_wf(*config),
        state_wf(*config, state),
    ensures
        state_wf(*config, r.0),
        state is Terminated ==> r.0 is Terminated && r.1 is Idle,
        state matches DriverState::Running { depth, delay_ms } ==> match event {
            DriverEvent::Redraw => {
                &&& r.0 == tick_state(*config, depth, delay_ms)
                &&& r.1 matches Action::Render(f) && f.sleep_ms == delay_ms && f.clear
                    == clear_shade() && f.rings@.len() == depth + 2 && forall|d: int|
                    0 <= d <= depth + 1 ==> (#[trigger] f.rings@[d])@ == ring_at(
                        config.sides as int,
                        d as nat,
                    )
            },
            DriverEvent::Resized { width, height } => r.0 == state && (r.1 matches
                Action::ForwardResize { width: w, height: h } && w == width && h == height),
            DriverEvent::CloseRequested => r.0 is Terminated && r.1 is Idle,
        },
{
    match state {
        DriverState::Terminated => (DriverState::Terminated, Action::Idle),
        DriverState::Running { depth, delay_ms } => match event {
            DriverEvent::Redraw => {
                let new_delay = if delay_ms > MIN_DELAY_MS {
                    delay_ms - DELAY_STEP_MS
                } else {
                    delay_ms
                };
                let new_depth = depth + 1;
                let rings = sequence(config.sides, new_depth);
                let frame = FrameRequest { sleep_ms: delay_ms, clear: clear_color(), rings };
                let next = if new_depth >= config.max_depth {
                    DriverState::Terminated
                } else {
                    DriverState::Running { depth: new_depth, delay_ms: new_delay }
                };
                (next, Action::Render(frame))
            },
            DriverEvent::Resized { width, height } => (state, Action::ForwardResize {
                width,
                height,
            }),
            DriverEvent::CloseRequested => (DriverState::Terminated, Action::Idle),
        },
    }
}

/// Returns the clear color.
pub fn clear_color() -> (c: Color)
    ensures
        c == clear_shade(),
{
    Color { red: 5, green: 5, blue: 5, alpha: 1000 }
}

/// The delay after `n` redraw ticks, starting from the initial delay.
pub open spec fn delay_after(n: nat) -> u64
    decreases n,
{
    if n == 0 {
        INITIAL_DELAY_MS
    } else {
        next_delay(delay_after((n - 1) as nat))
    }
}

/// The state after `n` redraw ticks from the initial state; once terminated
/// it stays terminated.
pub open spec fn state_after(c: Config, n: nat) -> DriverState
    decreases n,
{
    if n == 0 {
        initial_spec()
    } else {
        match state_after(c, (n - 1) as nat) {
            DriverState::Running { depth, delay_ms } => tick_state(c, depth, delay_ms),
            DriverState::Terminated => DriverState::Terminated,
        }
    }
}

/// Law: the delay shrinks by one step per tick until it reaches the floor,
/// and from then on it stays at the floor.
pub proof fn lemma_delay_decay(n: nat)
    ensures
        DELAY_STEP_MS * n <= INITIAL_DELAY_MS - MIN_DELAY_MS ==> delay_after(n)
            == INITIAL_DELAY_MS - DELAY_STEP_MS * n,
        DELAY_STEP_MS * n > INITIAL_DELAY_MS - MIN_DELAY_MS ==> delay_after(n) == MIN_DELAY_MS,
    decreases n,
{
    if n > 0 {
        lemma_delay_decay((n - 1) as nat);
    }
}

/// Law: from the initial state, the first `max_depth` redraw ticks all find
/// the driver running, with the tick count as its depth and the decayed
/// delay; every later point is terminated, so exactly `max_depth` ticks are
/// processed.
pub proof fn lemma_termination(c: Config, n: nat)
    requires
        config_wf(c),
    ensures
        n < c.max_depth ==> state_after(c, n) == (DriverState::Running {
            depth: n as usize,
            delay_ms: delay_after(n),
        }),
        n >= c.max_depth ==> (state_after(c, n) is Terminated),
    decreases n,
{
    if n > 0 {
        lemma_termination(c, (n - 1) as nat);
    }
}

/// Drives the animation to completion on redraw ticks alone and counts the
/// frames it renders: exactly `max_depth` frames come out, and after the
/// last one the driver is terminated, so no further frame is rendered.
pub fn run_redraws(config: &Config) -> (frames: usize)
    requires
        config_wf(*config),
    ensures
        frames == config.max_depth,
{
    let mut state = initial_state();
    let mut frames: usize = 0;
    loop
        invariant_except_break
            config_wf(*config),
            state_wf(*config, state),
            frames <= config.max_depth,
            state == state_after(*config, frames as nat),
            (state matches DriverState::Running { depth, .. } ==> depth == frames),
            (state is Terminated ==> frames == config.max_depth),
        ensures
            frames == config.max_depth,
        decreases config.max_depth - frames,
    {
        match state {
            DriverState::Terminated => {
                break ;
            },
            DriverState::Running { .. } => {
                let (next, act) = handle_event(config, state, DriverEvent::Redraw);
                match act {
                    Action::Render(_frame) => {
                        frames = frames + 1;
                    },
                    _ => {
                        proof {
                            assert(false);
                        }
                    },
                }
                state = next;
            },
        }
    }
    frames
}

} // verus!
