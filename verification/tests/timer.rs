use countdown::countdown::{
    command_for, Action, Command, Countdown, Event, Exit, Key, Modifiers, Phase, TimerState,
};

fn key(c: char) -> Event {
    Event::Key { key: Key::Char(c), modifiers: Modifiers::none() }
}

fn control(c: char) -> Event {
    Event::Key { key: Key::Char(c), modifiers: Modifiers::control() }
}

fn running(remaining_seconds: usize) -> TimerState {
    TimerState { remaining_seconds, phase: Phase::Running }
}

fn paused(remaining_seconds: usize) -> TimerState {
    TimerState { remaining_seconds, phase: Phase::Paused }
}

#[test]
fn new_keeps_its_arguments() {
    let countdown = Countdown::new(90, true);
    assert_eq!(countdown.target_secs, 90);
    assert!(countdown.up);
    let countdown = Countdown::new(0, false);
    assert_eq!(countdown.target_secs, 0);
    assert!(!countdown.up);
}

#[test]
fn starts_running_with_the_whole_target() {
    assert_eq!(Countdown::new(42, false).start(), (running(42), Action::Draw(42)));
    assert_eq!(Countdown::new(42, true).start(), (running(42), Action::Draw(42)));
    assert_eq!(Countdown::new(0, false).start(), (running(0), Action::Draw(0)));
}

#[test]
fn display_value_counts_down_or_up() {
    let down = Countdown::new(10, false);
    assert_eq!(down.display_value(10), 10);
    assert_eq!(down.display_value(3), 3);
    assert_eq!(down.display_value(0), 0);
    let up = Countdown::new(10, true);
    assert_eq!(up.display_value(10), 0);
    assert_eq!(up.display_value(3), 7);
    assert_eq!(up.display_value(0), 10);
}

#[test]
fn tick_draws_then_takes_a_second_off() {
    assert_eq!(running(5).step(Event::Tick), (running(4), Action::Draw(5)));
    assert_eq!(running(1).step(Event::Tick), (running(0), Action::Draw(1)));
}

#[test]
fn tick_at_zero_draws_zero_and_ends() {
    assert_eq!(running(0).step(Event::Tick), (running(0), Action::Finish));
}

#[test]
fn tick_while_paused_is_dropped() {
    assert_eq!(paused(5).step(Event::Tick), (paused(5), Action::Nothing));
    assert_eq!(paused(0).step(Event::Tick), (paused(0), Action::Nothing));
}

#[test]
fn resize_redraws_without_changing_state() {
    assert_eq!(running(7).step(Event::Resize), (running(7), Action::Draw(7)));
    assert_eq!(paused(7).step(Event::Resize), (paused(7), Action::Draw(7)));
    assert_eq!(running(0).step(Event::Resize), (running(0), Action::Draw(0)));
}

#[test]
fn q_and_control_c_quit() {
    assert_eq!(running(7).step(key('q')), (running(7), Action::Stop));
    assert_eq!(paused(7).step(key('q')), (paused(7), Action::Stop));
    assert_eq!(running(7).step(control('c')), (running(7), Action::Stop));
    assert_eq!(paused(7).step(control('c')), (paused(7), Action::Stop));
}

#[test]
fn p_pauses_a_running_timer() {
    assert_eq!(running(7).step(key('p')), (paused(7), Action::DisarmTicks));
}

#[test]
fn p_on_a_paused_timer_does_nothing() {
    assert_eq!(paused(7).step(key('p')), (paused(7), Action::Nothing));
}

#[test]
fn c_resumes_a_paused_timer() {
    assert_eq!(paused(7).step(key('c')), (running(7), Action::ArmTicks));
}

#[test]
fn c_on_a_running_timer_does_nothing() {
    assert_eq!(running(7).step(key('c')), (running(7), Action::Nothing));
}

#[test]
fn unbound_keys_are_ignored() {
    let shift = Modifiers { shift: true, control: false, alt: false, other: false };
    let control_alt = Modifiers { shift: false, control: true, alt: true, other: false };
    let other = Modifiers { shift: false, control: false, alt: false, other: true };
    let events = [
        key('x'),
        key('Q'),
        key('P'),
        key(' '),
        control('q'),
        control('p'),
        Event::Key { key: Key::Other, modifiers: Modifiers::none() },
        Event::Key { key: Key::Other, modifiers: Modifiers::control() },
        Event::Key { key: Key::Char('q'), modifiers: shift },
        Event::Key { key: Key::Char('p'), modifiers: shift },
        Event::Key { key: Key::Char('c'), modifiers: control_alt },
        Event::Key { key: Key::Char('c'), modifiers: other },
    ];
    for event in events {
        assert_eq!(running(7).step(event), (running(7), Action::Nothing));
        assert_eq!(paused(7).step(event), (paused(7), Action::Nothing));
    }
}

#[test]
fn keys_are_read_as_commands() {
    assert_eq!(command_for(Key::Char('q'), Modifiers::none()), Some(Command::Quit));
    assert_eq!(command_for(Key::Char('c'), Modifiers::control()), Some(Command::Quit));
    assert_eq!(command_for(Key::Char('p'), Modifiers::none()), Some(Command::Pause));
    assert_eq!(command_for(Key::Char('c'), Modifiers::none()), Some(Command::Resume));
    assert_eq!(command_for(Key::Char('q'), Modifiers::control()), None);
    assert_eq!(command_for(Key::Char('z'), Modifiers::none()), None);
    assert_eq!(command_for(Key::Other, Modifiers::none()), None);
}

#[test]
fn closed_stream_quits_and_failure_aborts() {
    assert_eq!(running(7).step(Event::Closed), (running(7), Action::Stop));
    assert_eq!(paused(7).step(Event::Closed), (paused(7), Action::Stop));
    assert_eq!(running(7).step(Event::Failed), (running(7), Action::Abort));
    assert_eq!(paused(7).step(Event::Failed), (paused(7), Action::Abort));
}

#[test]
fn other_terminal_events_are_ignored() {
    assert_eq!(running(7).step(Event::Other), (running(7), Action::Nothing));
    assert_eq!(paused(7).step(Event::Other), (paused(7), Action::Nothing));
}

#[test]
fn pause_then_resume_keeps_the_remaining_time() {
    let before = running(17);
    let (during, _) = before.step(key('p'));
    assert_eq!(during.remaining_seconds, 17);
    assert_eq!(during.phase, Phase::Paused);
    let (after, _) = during.step(key('c'));
    assert_eq!(after, before);
}

#[test]
fn counting_down_from_five_draws_six_frames() {
    let outcome = Countdown::new(5, false).run(&vec![Event::Tick; 6]);
    assert_eq!(outcome.shown, vec![5, 4, 3, 2, 1, 0]);
    assert_eq!(outcome.exit, Exit::Elapsed);
    assert_eq!(outcome.handled, 6);
    assert_eq!(outcome.state, running(0));
}

#[test]
fn counting_up_to_five_draws_six_frames() {
    let outcome = Countdown::new(5, true).run(&vec![Event::Tick; 6]);
    assert_eq!(outcome.shown, vec![0, 1, 2, 3, 4, 5]);
    assert_eq!(outcome.exit, Exit::Elapsed);
    assert_eq!(outcome.handled, 6);
}

#[test]
fn nothing_is_handled_once_the_timer_has_run_out() {
    let mut events = vec![Event::Tick; 3];
    events.push(Event::Resize);
    events.push(Event::Tick);
    let outcome = Countdown::new(2, false).run(&events);
    assert_eq!(outcome.shown, vec![2, 1, 0]);
    assert_eq!(outcome.exit, Exit::Elapsed);
    assert_eq!(outcome.handled, 3);
}

#[test]
fn a_target_of_zero_draws_zero_once() {
    let outcome = Countdown::new(0, false).run(&vec![Event::Tick, Event::Tick]);
    assert_eq!(outcome.shown, vec![0]);
    assert_eq!(outcome.exit, Exit::Elapsed);
    assert_eq!(outcome.handled, 1);
}

#[test]
fn too_few_ticks_leave_the_loop_waiting() {
    let outcome = Countdown::new(5, false).run(&vec![Event::Tick; 2]);
    assert_eq!(outcome.shown, vec![5, 4]);
    assert_eq!(outcome.exit, Exit::Waiting);
    assert_eq!(outcome.handled, 2);
    assert_eq!(outcome.state, running(3));
}

#[test]
fn no_events_draw_nothing() {
    let outcome = Countdown::new(5, false).run(&vec![]);
    assert_eq!(outcome.shown, Vec::<usize>::new());
    assert_eq!(outcome.exit, Exit::Waiting);
    assert_eq!(outcome.handled, 0);
    assert_eq!(outcome.state, running(5));
}

#[test]
fn quit_while_paused_ends_the_loop_without_a_frame() {
    let events = vec![key('p'), key('q'), Event::Tick, Event::Resize];
    let outcome = Countdown::new(5, false).run(&events);
    assert_eq!(outcome.shown, Vec::<usize>::new());
    assert_eq!(outcome.exit, Exit::Quit);
    assert_eq!(outcome.handled, 2);
    assert_eq!(outcome.state, paused(5));
}

#[test]
fn a_pause_freezes_the_count_until_resumed() {
    let events = vec![
        Event::Tick,
        key('p'),
        Event::Tick,
        Event::Resize,
        key('x'),
        key('c'),
        Event::Tick,
        control('c'),
    ];
    let outcome = Countdown::new(3, false).run(&events);
    assert_eq!(outcome.shown, vec![3, 2, 2]);
    assert_eq!(outcome.exit, Exit::Quit);
    assert_eq!(outcome.handled, 8);
    assert_eq!(outcome.state, running(1));
}

#[test]
fn a_failure_ends_the_run() {
    let events = vec![Event::Tick, Event::Failed, Event::Tick];
    let outcome = Countdown::new(3, true).run(&events);
    assert_eq!(outcome.shown, vec![0]);
    assert_eq!(outcome.exit, Exit::Failed);
    assert_eq!(outcome.handled, 2);
}

#[test]
fn a_closed_stream_ends_the_run() {
    let events = vec![Event::Closed, Event::Tick];
    let outcome = Countdown::new(3, false).run(&events);
    assert_eq!(outcome.shown, Vec::<usize>::new());
    assert_eq!(outcome.exit, Exit::Quit);
    assert_eq!(outcome.handled, 1);
}
