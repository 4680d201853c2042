//! What holds of the timer whatever the events are: which events leave the
//! state alone, and what a run of ticks draws.

use crate::countdown::{
    command_of, Action, Command, Countdown, Event, Exit, Key, Modifiers, Phase, TimerState,
};
use vstd::prelude::*;

verus! {

/// `count` ticks in a row.
pub open spec fn ticks(count: nat) -> Seq<Event> {
    Seq::new(count, |i: int| Event::Tick)
}

/// The remaining time never grows, and only a tick that arrives while the
/// timer is running with time left takes a second off: exactly one.
pub proof fn lemma_only_ticks_consume_time(state: TimerState, event: Event)
    ensures
        state.next(event).remaining_seconds == if event == Event::Tick && state.phase
            == Phase::Running && state.remaining_seconds > 0 {
            state.remaining_seconds - 1
        } else {
            state.remaining_seconds as int
        },
{
}

/// While the timer is paused a tick changes nothing and draws nothing.
pub proof fn lemma_paused_ignores_ticks(state: TimerState)
    requires
        state.phase == Phase::Paused,
    ensures
        state.next(Event::Tick) == state,
        state.action(Event::Tick) == Action::Nothing,
{
}

/// A resize redraws the current number and leaves the remaining time and the
/// phase as they are.
pub proof fn lemma_resize_keeps_state(state: TimerState)
    ensures
        state.next(Event::Resize) == state,
        state.action(Event::Resize) == Action::Draw(state.remaining_seconds),
{
}

/// A key that no command is bound to leaves the remaining time and the phase
/// as they are and asks for nothing: no frame is drawn.
pub proof fn lemma_unbound_key_is_ignored(state: TimerState, key: Key, modifiers: Modifiers)
    requires
        command_of(key, modifiers) is None,
    ensures
        state.next(Event::Key { key, modifiers }) == state,
        state.action(Event::Key { key, modifiers }) == Action::Nothing,
{
}

/// No key press draws a frame or changes the remaining time, whatever is
/// bound to it.
pub proof fn lemma_keys_never_draw(state: TimerState, key: Key, modifiers: Modifiers)
    ensures
        state.next(Event::Key { key, modifiers }).remaining_seconds == state.remaining_seconds,
        !(state.action(Event::Key { key, modifiers }) is Draw),
        !(state.action(Event::Key { key, modifiers }) is Finish),
{
}

/// A pause followed at once by a resume neither skips nor repeats a second:
/// the timer is running again with the remaining time it had before the
/// pause.
pub proof fn lemma_pause_then_resume_keeps_time(
    state: TimerState,
    pause: Event,
    resume: Event,
)
    requires
        pause matches Event::Key { key, modifiers } && command_of(key, modifiers) == Some(
            Command::Pause,
        ),
        resume matches Event::Key { key, modifiers } && command_of(key, modifiers) == Some(
            Command::Resume,
        ),
    ensures
        state.next(pause).remaining_seconds == state.remaining_seconds,
        state.next(pause).phase == Phase::Paused,
        state.next(pause).next(resume).remaining_seconds == state.remaining_seconds,
        state.next(pause).next(resume).phase == Phase::Running,
{
}

/// A quit command ends the loop at once in either phase, with no frame drawn
/// for it.
pub proof fn lemma_quit_ends_the_loop(
    countdown: Countdown,
    state: TimerState,
    quit: Event,
    later: Seq<Event>,
)
    requires
        quit matches Event::Key { key, modifiers } && command_of(key, modifiers) == Some(
            Command::Quit,
        ),
    ensures
        state.action(quit) == Action::Stop,
        countdown.trace_from(state, seq![quit] + later).exit == Exit::Quit,
        countdown.trace_from(state, seq![quit] + later).shown == Seq::<usize>::empty(),
        countdown.trace_from(state, seq![quit] + later).handled == 1,
        countdown.trace_from(state, seq![quit] + later).state == state,
{
    assert((seq![quit] + later)[0] == quit);
}

/// However a run goes, it handles no more events than it was given, draws at
/// most one frame per event handled, and leaves no more time on the timer
/// than it found. A run that ends because the time is up has drawn the number
/// for zero seconds left as its last frame.
pub proof fn lemma_every_run(countdown: Countdown, state: TimerState, events: Seq<Event>)
    ensures
        ({
            let trace = countdown.trace_from(state, events);
            &&& trace.handled <= events.len()
            &&& trace.shown.len() <= trace.handled
            &&& trace.state.remaining_seconds <= state.remaining_seconds
            &&& trace.exit == Exit::Waiting ==> trace.handled == events.len()
            &&& trace.exit == Exit::Elapsed ==> {
                &&& trace.state.remaining_seconds == 0
                &&& trace.shown.len() > 0
                &&& trace.shown.last() == countdown.shown(0)
            }
        }),
    decreases events.len(),
{
    if events.len() > 0 {
        lemma_every_run(countdown, state.next(events[0]), events.drop_first());
    }
}

/// Whatever the events are, the frames of a run follow the count and never
/// skip a second: the first frame shows the number for the time that was
/// left when the run began, and each later frame shows either the same
/// number as the one before it or the number for one second less.
pub proof fn lemma_frames_follow_the_count(
    countdown: Countdown,
    state: TimerState,
    events: Seq<Event>,
)
    requires
        countdown.up ==> state.remaining_seconds <= countdown.target_secs,
    ensures
        ({
            let shown = countdown.trace_from(state, events).shown;
            &&& shown.len() > 0 ==> shown[0] == countdown.shown(state.remaining_seconds)
            &&& forall|i: int|
                0 <= i && i + 1 < shown.len() ==> {
                    ||| #[trigger] shown[i + 1] == shown[i]
                    ||| !countdown.up && shown[i + 1] == shown[i] - 1
                    ||| countdown.up && shown[i + 1] == shown[i] + 1
                }
        }),
    decreases events.len(),
{
    if events.len() > 0 {
        let next = state.next(events[0]);
        let later = countdown.trace_from(next, events.drop_first()).shown;
        let shown = countdown.trace_from(state, events).shown;
        lemma_frames_follow_the_count(countdown, next, events.drop_first());
        match state.action(events[0]) {
            Action::Draw(remaining) => {
                assert(shown == seq![countdown.shown(remaining)] + later);
                assert forall|i: int| 0 <= i && i + 1 < shown.len() implies {
                    ||| #[trigger] shown[i + 1] == shown[i]
                    ||| !countdown.up && shown[i + 1] == shown[i] - 1
                    ||| countdown.up && shown[i + 1] == shown[i] + 1
                } by {
                    if i > 0 {
                        assert(shown[i] == later[i - 1]);
                        assert(shown[i + 1] == later[i - 1 + 1]);
                    }
                }
            },
            Action::Finish | Action::Stop | Action::Abort => {},
            _ => {
                assert(shown =~= later);
            },
        }
    }
}

/// A running timer with `r` seconds left that is fed nothing but ticks draws
/// the numbers for `r`, `r - 1`, and so on, one per tick. The tick that finds
/// zero seconds left draws the number for zero and ends the loop; ticks after
/// that one are not looked at.
pub proof fn lemma_ticks_draw_each_second(countdown: Countdown, state: TimerState, count: nat)
    requires
        state.phase == Phase::Running,
    ensures
        ({
            let trace = countdown.trace_from(state, ticks(count));
            let r = state.remaining_seconds as nat;
            let frames = if count <= r {
                count
            } else {
                r + 1
            };
            &&& trace.shown == Seq::new(frames, |i: int| countdown.shown((r - i) as usize))
            &&& trace.handled == frames
            &&& trace.exit == if count <= r {
                Exit::Waiting
            } else {
                Exit::Elapsed
            }
            &&& trace.state == TimerState {
                remaining_seconds: (r - if count <= r {
                    count
                } else {
                    r
                }) as usize,
                phase: Phase::Running,
            }
        }),
    decreases count,
{
    let r = state.remaining_seconds as nat;
    let trace = countdown.trace_from(state, ticks(count));
    if count == 0 {
        assert(trace.shown =~= Seq::new(0, |i: int| countdown.shown((r - i) as usize)));
    } else if r == 0 {
        assert(trace.shown =~= Seq::new(1, |i: int| countdown.shown((r - i) as usize)));
    } else {
        let next = state.next(Event::Tick);
        assert(ticks(count).drop_first() =~= ticks((count - 1) as nat));
        lemma_ticks_draw_each_second(countdown, next, (count - 1) as nat);
        let rest = countdown.trace_from(next, ticks((count - 1) as nat));
        assert(trace == rest.after(seq![countdown.shown(state.remaining_seconds)], 1));
        let frames = if count <= r {
            count
        } else {
            r + 1
        };
        assert(trace.shown =~= Seq::new(frames, |i: int| countdown.shown((r - i) as usize)));
    }
}

/// Counting down from `target`, the first `target + 1` ticks draw
/// `target, target - 1, ..., 1, 0`, and the loop ends once it has drawn 0.
pub proof fn lemma_counts_down_to_zero(target: usize)
    ensures
        ({
            let countdown = Countdown { target_secs: target, up: false };
            let trace = countdown.trace(ticks(target as nat + 1));
            &&& trace.shown == Seq::new(target as nat + 1, |i: int| (target - i) as usize)
            &&& trace.exit == Exit::Elapsed
            &&& trace.handled == target + 1
        }),
{
    let countdown = Countdown { target_secs: target, up: false };
    lemma_ticks_draw_each_second(countdown, countdown.initial(), target as nat + 1);
    let trace = countdown.trace(ticks(target as nat + 1));
    assert(trace.shown =~= Seq::new(target as nat + 1, |i: int| (target - i) as usize));
}

/// Counting up to `target`, the first `target + 1` ticks draw
/// `0, 1, ..., target`, and the loop ends once it has drawn `target`.
pub proof fn lemma_counts_up_to_target(target: usize)
    ensures
        ({
            let countdown = Countdown { target_secs: target, up: true };
            let trace = countdown.trace(ticks(target as nat + 1));
            &&& trace.shown == Seq::new(target as nat + 1, |i: int| i as usize)
            &&& trace.exit == Exit::Elapsed
            &&& trace.handled == target + 1
        }),
{
    let countdown = Countdown { target_secs: target, up: true };
    lemma_ticks_draw_each_second(countdown, countdown.initial(), target as nat + 1);
    let trace = countdown.trace(ticks(target as nat + 1));
    assert(trace.shown =~= Seq::new(target as nat + 1, |i: int| i as usize));
}

} // verus!
