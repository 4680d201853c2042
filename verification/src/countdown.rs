//! The timer itself: its configuration, its state, and the transition taken
//! for each event of the loop.

use crate::clock_face::{clock_text, lemma_clock_text_is_short};
use crate::text::{frame_of, glyphs_of, placed, to_text, Stroke};
use vstd::prelude::*;

verus! {

/// Whether ticks currently count.
#[derive(Clone, Copy, Debug, PartialEq, Eq, Structural)]
pub enum Phase {
    /// The tick source is armed; each tick consumes one second.
    Running,
    /// The tick source is disarmed; the remaining time is frozen.
    Paused,
}

/// What the event loop carries from one event to the next.
#[derive(Clone, Copy, Debug, PartialEq, Eq, Structural)]
pub struct TimerState {
    /// Seconds left until the timer has run out.
    pub remaining_seconds: usize,
    pub phase: Phase,
}

/// The settings of one run, fixed when the timer is created.
#[derive(Clone, Copy, Debug, PartialEq, Eq, Structural)]
pub struct Countdown {
    /// Number of seconds to count.
    pub target_secs: usize,
    /// Count up from zero instead of down to zero.
    pub up: bool,
}

/// A key of the keyboard, as far as the timer tells keys apart.
#[derive(Clone, Copy, Debug, PartialEq, Eq, Structural)]
pub enum Key {
    /// A key that produces a character.
    Char(char),
    /// Any other key: arrows, function keys, escape and so on.
    Other,
}

/// The modifier keys held down together with a key.
#[derive(Clone, Copy, Debug, PartialEq, Eq, Structural)]
pub struct Modifiers {
    pub shift: bool,
    pub control: bool,
    pub alt: bool,
    /// Some modifier other than shift, control and alt.
    pub other: bool,
}

/// One event of the loop, from the tick source or from the terminal.
#[derive(Clone, Copy, Debug, PartialEq, Eq, Structural)]
pub enum Event {
    /// One second has passed.
    Tick,
    /// The terminal has changed its size.
    Resize,
    /// A key was pressed.
    Key { key: Key, modifiers: Modifiers },
    /// The terminal's event stream has ended.
    Closed,
    /// Reading from the terminal has failed.
    Failed,
    /// A terminal event the timer has no use for.
    Other,
}

/// What a key press asks of the timer.
#[derive(Clone, Copy, Debug, PartialEq, Eq, Structural)]
pub enum Command {
    Quit,
    Pause,
    Resume,
}

/// What the caller has to do after an event was handled.
#[derive(Clone, Copy, Debug, PartialEq, Eq, Structural)]
pub enum Action {
    /// Draw the frame for the given number of remaining seconds, then go on.
    Draw(usize),
    /// Draw the frame for zero remaining seconds, then leave the loop.
    Finish,
    /// Leave the loop.
    Stop,
    /// Leave the loop and report the failure.
    Abort,
    /// Replace the tick source with one that never fires.
    DisarmTicks,
    /// Replace the tick source with a fresh one, whose first tick is a full
    /// second away.
    ArmTicks,
    /// Nothing to do.
    Nothing,
}

impl Modifiers {
    /// No modifier is held.
    pub open spec fn is_none(self) -> bool {
        !self.shift && !self.control && !self.alt && !self.other
    }

    /// Control is held, and nothing else.
    pub open spec fn is_control(self) -> bool {
        !self.shift && self.control && !self.alt && !self.other
    }

    pub fn none() -> (modifiers: Self)
        ensures
            modifiers.is_none(),
    {
        Modifiers { shift: false, control: false, alt: false, other: false }
    }

    pub fn control() -> (modifiers: Self)
        ensures
            modifiers.is_control(),
    {
        Modifiers { shift: false, control: true, alt: false, other: false }
    }
}

/// The command bound to a key press, if there is one: `q` and control-`c`
/// quit, `p` pauses, `c` resumes.
pub open spec fn command_of(key: Key, modifiers: Modifiers) -> Option<Command> {
    if key == Key::Char('q') && modifiers.is_none() {
        Some(Command::Quit)
    } else if key == Key::Char('c') && modifiers.is_control() {
        Some(Command::Quit)
    } else if key == Key::Char('p') && modifiers.is_none() {
        Some(Command::Pause)
    } else if key == Key::Char('c') && modifiers.is_none() {
        Some(Command::Resume)
    } else {
        None
    }
}

/// Reads a key press as a command.
pub fn command_for(key: Key, modifiers: Modifiers) -> (command: Option<Command>)
    ensures
        command == command_of(key, modifiers),
{
    let plain = !modifiers.shift && !modifiers.control && !modifiers.alt && !modifiers.other;
    let control = !modifiers.shift && modifiers.control && !modifiers.alt && !modifiers.other;
    match key {
        Key::Char(c) => {
            if c == 'q' && plain {
                Some(Command::Quit)
            } else if c == 'c' && control {
                Some(Command::Quit)
            } else if c == 'p' && plain {
                Some(Command::Pause)
            } else if c == 'c' && plain {
                Some(Command::Resume)
            } else {
                None
            }
        },
        Key::Other => None,
    }
}

impl TimerState {
    /// The state that follows `self` when `event` arrives.
    pub open spec fn next(self, event: Event) -> TimerState {
        match event {
            Event::Tick => if self.phase == Phase::Running && self.remaining_seconds > 0 {
                TimerState {
                    remaining_seconds: (self.remaining_seconds - 1) as usize,
                    phase: Phase::Running,
                }
            } else {
                self
            },
            Event::Key { key, modifiers } => match command_of(key, modifiers) {
                Some(Command::Pause) => TimerState { phase: Phase::Paused, ..self },
                Some(Command::Resume) => TimerState { phase: Phase::Running, ..self },
                _ => self,
            },
            _ => self,
        }
    }

    /// What the caller is to do when `event` arrives in state `self`.
    pub open spec fn action(self, event: Event) -> Action {
        match event {
            Event::Tick => match self.phase {
                Phase::Running => if self.remaining_seconds == 0 {
                    Action::Finish
                } else {
                    Action::Draw(self.remaining_seconds)
                },
                Phase::Paused => Action::Nothing,
            },
            Event::Resize => Action::Draw(self.remaining_seconds),
            Event::Key { key, modifiers } => match command_of(key, modifiers) {
                Some(Command::Quit) => Action::Stop,
                Some(Command::Pause) => if self.phase == Phase::Running {
                    Action::DisarmTicks
                } else {
                    Action::Nothing
                },
                Some(Command::Resume) => if self.phase == Phase::Paused {
                    Action::ArmTicks
                } else {
                    Action::Nothing
                },
                None => Action::Nothing,
            },
            Event::Closed => Action::Stop,
            Event::Failed => Action::Abort,
            Event::Other => Action::Nothing,
        }
    }

    /// Handles one event: gives the state to go on with and what the caller
    /// has to do before it waits for the next event.
    pub fn step(self, event: Event) -> (result: (TimerState, Action))
        ensures
            result.0 == self.next(event),
            result.1 == self.action(event),
    {
        match event {
            Event::Tick => match self.phase {
                Phase::Running => {
                    if self.remaining_seconds == 0 {
                        (self, Action::Finish)
                    } else {
                        let next = TimerState {
                            remaining_seconds: self.remaining_seconds - 1,
                            phase: Phase::Running,
                        };
                        (next, Action::Draw(self.remaining_seconds))
                    }
                },
                Phase::Paused => (self, Action::Nothing),
            },
            Event::Resize => (self, Action::Draw(self.remaining_seconds)),
            Event::Key { key, modifiers } => match command_for(key, modifiers) {
                Some(Command::Quit) => (self, Action::Stop),
                Some(Command::Pause) => match self.phase {
                    Phase::Running => (
                        TimerState { phase: Phase::Paused, ..self },
                        Action::DisarmTicks,
                    ),
                    Phase::Paused => (self, Action::Nothing),
                },
                Some(Command::Resume) => match self.phase {
                    Phase::Paused => (
                        TimerState { phase: Phase::Running, ..self },
                        Action::ArmTicks,
                    ),
                    Phase::Running => (self, Action::Nothing),
                },
                None => (self, Action::Nothing),
            },
            Event::Closed => (self, Action::Stop),
            Event::Failed => (self, Action::Abort),
            Event::Other => (self, Action::Nothing),
        }
    }
}

impl Countdown {
    pub fn new(target_secs: usize, up: bool) -> (countdown: Self)
        ensures
            countdown.target_secs == target_secs,
            countdown.up == up,
    {
        Self { target_secs, up }
    }

    /// The state in which the loop starts: running, with the whole target
    /// still to go.
    pub open spec fn initial(self) -> TimerState {
        TimerState { remaining_seconds: self.target_secs, phase: Phase::Running }
    }

    /// Enters the loop: gives the state to start in and asks for the first
    /// frame, which is drawn before any event is waited for.
    pub fn start(&self) -> (result: (TimerState, Action))
        ensures
            result.0 == self.initial(),
            result.1 == Action::Draw(self.target_secs),
    {
        (
            TimerState { remaining_seconds: self.target_secs, phase: Phase::Running },
            Action::Draw(self.target_secs),
        )
    }

    /// The number on the clock face when `remaining` seconds are left: the
    /// seconds left when counting down, the seconds gone when counting up.
    pub open spec fn shown(self, remaining: usize) -> usize {
        if self.up {
            (self.target_secs - remaining) as usize
        } else {
            remaining
        }
    }

    /// The number on the clock face when `remaining` seconds are left.
    pub fn display_value(&self, remaining: usize) -> (value: usize)
        requires
            self.up ==> remaining <= self.target_secs,
        ensures
            value == self.shown(remaining),
            self.up ==> value == self.target_secs - remaining,
            !self.up ==> value == remaining,
    {
        if self.up {
            self.target_secs - remaining
        } else {
            remaining
        }
    }

    /// The frame for `remaining` seconds left on a screen of `width` columns
    /// and `height` rows: the number to show, written as a clock face, set in
    /// large glyphs and centered. The caller clears the screen and prints
    /// the strokes in order.
    pub fn draw(&self, remaining: usize, width: u16, height: u16) -> (frame: Vec<Stroke>)
        requires
            self.up ==> remaining <= self.target_secs,
        ensures
            placed(frame@) == frame_of(
                glyphs_of(clock_text(self.shown(remaining) as nat)),
                width,
                height,
            ),
    {
        let value = self.display_value(remaining);
        let text = crate::clock_face::format(value);
        proof {
            lemma_clock_text_is_short(value as nat);
        }
        let text = to_text(text);
        text.layout(width, height)
    }

    /// What happens when the loop, in state `state`, is fed `events` one
    /// after the other: every event is handled completely before the next
    /// one is looked at, and nothing is looked at once the loop has ended.
    pub open spec fn trace_from(self, state: TimerState, events: Seq<Event>) -> Trace
        decreases events.len(),
    {
        if events.len() == 0 {
            Trace { shown: Seq::empty(), state, exit: Exit::Waiting, handled: 0 }
        } else {
            let next = state.next(events[0]);
            let rest = events.drop_first();
            match state.action(events[0]) {
                Action::Draw(remaining) => self.trace_from(next, rest).after(
                    seq![self.shown(remaining)],
                    1,
                ),
                Action::Finish => Trace {
                    shown: seq![self.shown(0)],
                    state: next,
                    exit: Exit::Elapsed,
                    handled: 1,
                },
                Action::Stop => Trace {
                    shown: Seq::empty(),
                    state: next,
                    exit: Exit::Quit,
                    handled: 1,
                },
                Action::Abort => Trace {
                    shown: Seq::empty(),
                    state: next,
                    exit: Exit::Failed,
                    handled: 1,
                },
                _ => self.trace_from(next, rest).after(Seq::empty(), 1),
            }
        }
    }

    /// What happens when a fresh loop is fed `events`.
    pub open spec fn trace(self, events: Seq<Event>) -> Trace {
        self.trace_from(self.initial(), events)
    }

    /// Runs the loop over a recorded sequence of events and reports what it
    /// drew for them and how it ended. The frame that `start` asks for is
    /// drawn before the first event and is not part of the report.
    pub fn run(&self, events: &Vec<Event>) -> (outcome: Outcome)
        ensures
            outcome@ == self.trace(events@),
    {
        let (mut state, _) = self.start();
        let mut shown: Vec<usize> = Vec::new();
        let mut exit = Exit::Waiting;
        let mut handled: usize = 0;
        proof {
            assert(events@.skip(0) =~= events@);
            assert(Seq::<usize>::empty() + self.trace(events@).shown =~= self.trace(events@).shown);
        }
        loop
            invariant_except_break
                exit == Exit::Waiting,
                self.trace(events@) == self.trace_from(state, events@.skip(handled as int)).after(
                    shown@,
                    handled as nat,
                ),
            invariant
                handled <= events.len(),
                state.remaining_seconds <= self.target_secs,
            ensures
                self.trace(events@) == (Trace {
                    shown: shown@,
                    state,
                    exit,
                    handled: handled as nat,
                }),
            decreases events.len() - handled,
        {
            let ghost before = shown@;
            let ghost pending = events@.skip(handled as int);
            if handled >= events.len() {
                assert(before + Seq::<usize>::empty() =~= before);
                break ;
            }
            let event = events[handled];
            assert(pending[0] == event);
            assert(pending.drop_first() =~= events@.skip(handled + 1));
            let ghost later = self.trace_from(state.next(event), pending.drop_first()).shown;
            let (next, action) = state.step(event);
            handled = handled + 1;
            state = next;
            match action {
                Action::Draw(remaining) => {
                    shown.push(self.display_value(remaining));
                    assert(before + (seq![self.shown(remaining)] + later) =~= shown@ + later);
                },
                Action::Finish => {
                    shown.push(self.display_value(0));
                    exit = Exit::Elapsed;
                    assert(before + seq![self.shown(0)] =~= shown@);
                    break ;
                },
                Action::Stop => {
                    exit = Exit::Quit;
                    assert(before + Seq::<usize>::empty() =~= before);
                    break ;
                },
                Action::Abort => {
                    exit = Exit::Failed;
                    assert(before + Seq::<usize>::empty() =~= before);
                    break ;
                },
                _ => {
                    assert(before + (Seq::<usize>::empty() + later) =~= shown@ + later);
                },
            }
        }
        Outcome { shown, state, exit, handled }
    }
}

/// How a run over a sequence of events ended.
#[derive(Clone, Copy, Debug, PartialEq, Eq, Structural)]
pub enum Exit {
    /// The events ran out while the loop was still waiting for more.
    Waiting,
    /// A quit command arrived, or the terminal's event stream ended.
    Quit,
    /// The timer ran out, and zero remaining seconds were drawn.
    Elapsed,
    /// Reading from the terminal failed.
    Failed,
}

/// The course of a run, as a mathematical value.
pub struct Trace {
    /// The numbers drawn in response to the events, in the order drawn.
    pub shown: Seq<usize>,
    /// The state the loop was left in.
    pub state: TimerState,
    pub exit: Exit,
    /// How many events were handled, the one that ended the loop included.
    pub handled: nat,
}

impl Trace {
    /// The same course, preceded by `count` handled events that drew `drawn`.
    pub open spec fn after(self, drawn: Seq<usize>, count: nat) -> Trace {
        Trace { shown: drawn + self.shown, handled: count + self.handled, ..self }
    }
}

/// The course of a run.
#[derive(Debug, PartialEq, Eq)]
pub struct Outcome {
    /// The numbers drawn in response to the events, in the order drawn.
    pub shown: Vec<usize>,
    /// The state the loop was left in.
    pub state: TimerState,
    pub exit: Exit,
    /// How many events were handled, the one that ended the loop included.
    pub handled: usize,
}

impl View for Outcome {
    type V = Trace;

    open spec fn view(&self) -> Trace {
        Trace {
            shown: self.shown@,
            state: self.state,
            exit: self.exit,
            handled: self.handled as nat,
        }
    }
}

} // verus!
