use tomatoes::backend::{Pomodoro, Task, Timer, TimerType};

const FOCUS_TIME: u64 = 15;
const REST_TIME: u64 = 15;

#[test]
fn should_initialize_in_focus_time() {
    let pomodoro = Pomodoro::new(FOCUS_TIME, REST_TIME);
    assert_eq!(pomodoro.timer, TimerType::Focus);
}

#[test]
fn should_initalize_timers() {
    let pomodoro = Pomodoro::new(FOCUS_TIME, REST_TIME);

    let focus_timer = Timer::new(FOCUS_TIME);
    let rest_timer = Timer::new(REST_TIME);

    assert_eq!(pomodoro.focus, focus_timer);
    assert_eq!(pomodoro.rest, rest_timer);
}

#[test]
fn should_initialize_with_the_play_sound_alarm_equals_true() {
    let pomodoro = Pomodoro::new(FOCUS_TIME, REST_TIME);
    assert_eq!(pomodoro.play_sound_alarm, true);
}

#[test]
fn should_initialize_with_the_task_vec_empty() {
    let pomodoro = Pomodoro::new(FOCUS_TIME, REST_TIME);
    assert_eq!(pomodoro.tasks.is_empty(), true);
}

#[test]
fn should_use_extra_time_mode() {
    let mut pomodoro = Pomodoro::new(FOCUS_TIME, REST_TIME);
    pomodoro.timer_extend = true;
    pomodoro.timer = TimerType::Focus;

    for _ in 0..FOCUS_TIME + 1 {
        pomodoro.forward();
    }

    assert_eq!(pomodoro.timer, TimerType::Focus);
    assert!(pomodoro.focus.current_time == 0);
    assert_eq!(pomodoro.focus.extra_time, 1);
}

#[test]
fn should_advance_current_time_one_second_by_timer_type() {
    let mut pomodoro = Pomodoro::new(FOCUS_TIME, REST_TIME);

    pomodoro.timer = TimerType::Focus;
    pomodoro.forward();
    let new_focus_time = FOCUS_TIME - 1;
    assert_eq!(pomodoro.focus.current_time, new_focus_time);

    pomodoro.timer = TimerType::Rest;
    pomodoro.forward();
    let new_rest_time = REST_TIME - 1;
    assert_eq!(pomodoro.rest.current_time, new_rest_time);
}

#[test]
fn should_reset_timer_when_is_done() {
    let mut pomodoro = Pomodoro::new(FOCUS_TIME, REST_TIME);
    pomodoro.timer_extend = false;
    pomodoro.alarm_disable();

    pomodoro.focus.current_time = 1;
    pomodoro.forward();
    assert_eq!(pomodoro.focus.current_time, pomodoro.focus.initial_time);

    assert_eq!(pomodoro.timer, TimerType::Rest);
    pomodoro.rest.current_time = 1;
    pomodoro.forward();
    assert_eq!(pomodoro.rest.current_time, pomodoro.rest.initial_time);
}

#[test]
fn should_exit_transition() {
    let mut pomodoro = Pomodoro::new(FOCUS_TIME, REST_TIME);

    pomodoro.timer = TimerType::Transitioning(Box::new(TimerType::Focus));
    pomodoro.forward();
    assert_eq!(pomodoro.timer, TimerType::Focus);

    pomodoro.timer = TimerType::Transitioning(Box::new(TimerType::Rest));
    pomodoro.forward();
    assert_eq!(pomodoro.timer, TimerType::Rest);
}

#[test]
fn should_not_transition_if_timer_is_disabled() {
    let mut pomodoro = Pomodoro::new(FOCUS_TIME, REST_TIME);
    pomodoro.timer_extend = false;
    pomodoro.alarm_disable();

    pomodoro.focus.current_time = 1;
    pomodoro.forward();
    assert_eq!(pomodoro.timer, TimerType::Rest);

    pomodoro.rest.current_time = 1;
    pomodoro.forward();
    assert_eq!(pomodoro.timer, TimerType::Focus);
}

#[should_panic]
#[test]
fn should_crash_if_is_transitioning_to_anoter_transition() {
    let mut pomodoro = Pomodoro::new(FOCUS_TIME, REST_TIME);

    pomodoro.timer = TimerType::Transitioning(Box::new(TimerType::Transitioning(Box::new(
        TimerType::Focus,
    ))));
    pomodoro.forward();
}

#[test]
fn should_set_play_sound_alarm_to_false() {
    let mut pomodoro = Pomodoro::new(FOCUS_TIME, REST_TIME);
    assert_eq!(pomodoro.play_sound_alarm, true);

    pomodoro.alarm_disable();
    assert_eq!(pomodoro.play_sound_alarm, false);
}

#[test]
fn should_move_to_another_timer() {
    let mut pomodoro = Pomodoro::new(FOCUS_TIME, REST_TIME);

    assert_eq!(pomodoro.timer, TimerType::Focus);
    pomodoro.next_mode();
    assert_eq!(pomodoro.timer, TimerType::Rest);
    pomodoro.next_mode();
    assert_eq!(pomodoro.timer, TimerType::Focus);
}

#[should_panic]
#[test]
fn should_crash_if_in_transitioning() {
    let mut pomodoro = Pomodoro::new(FOCUS_TIME, REST_TIME);
    pomodoro.timer = TimerType::Transitioning(Box::new(TimerType::Focus));
    pomodoro.next_mode();
}

#[test]
fn should_reset_by_the_timer_type() {
    let mut pomodoro = Pomodoro::new(FOCUS_TIME, REST_TIME);

    pomodoro.forward();
    assert_ne!(pomodoro.focus.current_time, pomodoro.focus.initial_time);
    pomodoro.reset_timer(TimerType::Focus);
    assert_eq!(pomodoro.focus.current_time, pomodoro.focus.initial_time);

    pomodoro.next_mode();
    assert_eq!(pomodoro.timer, TimerType::Rest);
    pomodoro.forward();
    assert_ne!(pomodoro.rest.current_time, pomodoro.rest.initial_time);
    pomodoro.reset_timer(TimerType::Rest);
    assert_eq!(pomodoro.rest.current_time, pomodoro.rest.initial_time);
}

#[should_panic]
#[test]
fn should_crash_if_is_resetting_a_transition() {
    let mut pomodoro = Pomodoro::new(FOCUS_TIME, REST_TIME);

    pomodoro.reset_timer(TimerType::Transitioning(Box::new(TimerType::Focus)));
}

#[test]
fn should_delete_by_task_attributes() {
    let task = Task::new("Name1", "Description1");
    let mut pomodoro = Pomodoro::new(FOCUS_TIME, REST_TIME);

    pomodoro.task_add(task.clone());

    assert_eq!(pomodoro.tasks.len(), 1);
    pomodoro.task_remove_by_attributes(task);
    assert_eq!(pomodoro.tasks.len(), 0);
}
