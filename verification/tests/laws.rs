use tomatoes::backend::{Pomodoro, Task, Timer, TimerType};

fn session_that_moves_on(focus: u64, rest: u64) -> Pomodoro {
    let mut pomodoro = Pomodoro::new(focus, rest);
    pomodoro.timer_extend = false;
    pomodoro
}

fn names(tasks: &[Task]) -> Vec<&str> {
    tasks.iter().map(|t| t.name.as_str()).collect()
}

#[test]
fn new_period_has_all_its_time_and_no_extra_time() {
    for d in [0, 1, 59, 60, 1500, u64::MAX] {
        let timer = Timer::new(d);
        assert_eq!(timer.current_time, d);
        assert_eq!(timer.initial_time, d);
        assert_eq!(timer.extra_time, 0);
    }
}

#[test]
fn period_runs_down_and_then_counts_extra_time() {
    for d in [0u64, 1, 7, 90] {
        let mut timer = Timer::new(d);
        for _ in 0..d {
            timer.forward();
        }
        assert_eq!(timer, Timer { current_time: 0, initial_time: d, extra_time: 0 });
        timer.forward();
        assert_eq!(timer, Timer { current_time: 0, initial_time: d, extra_time: 1 });
    }
}

#[test]
fn reset_after_any_number_of_ticks_gives_the_period_back() {
    for ticks in [0u64, 1, 4, 5, 6, 40] {
        let mut timer = Timer::new(5);
        for _ in 0..ticks {
            timer.forward();
        }
        timer.reset();
        assert_eq!(timer, Timer::new(5));
    }
}

#[test]
fn period_with_a_full_counter_cannot_tick() {
    let full = Timer { current_time: 0, initial_time: 3, extra_time: u64::MAX };
    assert!(!full.can_tick());
    assert!(Timer { current_time: 1, initial_time: 3, extra_time: u64::MAX }.can_tick());
    assert!(Timer { current_time: 0, initial_time: 3, extra_time: u64::MAX - 1 }.can_tick());
}

#[test]
fn extra_time_is_carried_over_in_proportion() {
    let carried = |initial: u64, extra: u64, next: u64| {
        let mut from = Timer::new(initial);
        from.extra_time = extra;
        let mut to = Timer::new(next);
        to.current_time = 1;
        to.extra_time = 9;
        from.transfer_extra_timer_to(&mut to);
        assert_eq!(to.initial_time, next);
        assert_eq!(to.extra_time, 0);
        to.current_time
    };
    assert_eq!(carried(60, 60, 42), 84);
    assert_eq!(carried(60, 0, 42), 42);
    assert_eq!(carried(3, 1, 10), 13);
    assert_eq!(carried(3, 2, 10), 17);
    assert_eq!(carried(4, 1, 2), 3);
    assert_eq!(carried(4, 3, 1), 2);
    assert_eq!(carried(1500, 750, 300), 450);
    assert_eq!(carried(7, 100, 0), 0);
}

#[test]
fn carried_time_stops_at_the_largest_number() {
    let mut from = Timer::new(1);
    from.extra_time = 1;
    let mut to = Timer::new(u64::MAX);
    from.transfer_extra_timer_to(&mut to);
    assert_eq!(to.current_time, u64::MAX);

    let mut from = Timer::new(u64::MAX);
    from.extra_time = u64::MAX;
    let mut to = Timer::new(u64::MAX / 2);
    from.transfer_extra_timer_to(&mut to);
    assert_eq!(to.current_time, u64::MAX - 1);
}

#[test]
fn clock_shows_minutes_and_seconds() {
    assert_eq!(Timer::new(0).to_string(), "00:00(+00:00)");
    assert_eq!(Timer::new(9).to_string(), "00:09");
    assert_eq!(Timer::new(600).to_string(), "10:00");
    assert_eq!(Timer::new(1500).to_string(), "25:00");
    assert_eq!(Timer::new(5400).to_string(), "90:00");
    assert_eq!(Timer::new(6000 + 59).to_string(), "100:59");
    assert_eq!(
        Timer { current_time: 0, initial_time: 5, extra_time: 61 }.to_string(),
        "00:00(+01:01)"
    );
    assert_eq!(
        Timer { current_time: 3, initial_time: 5, extra_time: 61 }.to_string(),
        "00:03"
    );
    assert_eq!(Timer::new(u64::MAX).to_string(), format!("{}:{:02}", u64::MAX / 60, u64::MAX % 60));
}

#[test]
fn mode_predicates() {
    let on_the_way = TimerType::Transitioning(Box::new(TimerType::Rest));
    let nested = TimerType::Transitioning(Box::new(on_the_way.clone()));
    assert!(TimerType::Focus.is_steady() && TimerType::Rest.is_steady());
    assert!(!on_the_way.is_steady());
    assert!(TimerType::Focus.well_formed() && on_the_way.well_formed());
    assert!(!nested.well_formed());
    assert_eq!(nested.clone(), nested);
}

#[test]
fn session_starts_in_focus_and_holds_periods_open() {
    let pomodoro = Pomodoro::new(1500, 300);
    assert_eq!(pomodoro.get_mode(), TimerType::Focus);
    assert!(pomodoro.timer_extend);
    assert!(pomodoro.play_sound_alarm);
    assert!(!pomodoro.alarm_due());
    assert_eq!(pomodoro.get_current_timer(), Timer::new(1500));
    assert_eq!(pomodoro.get_current_duration(), 1500);
    assert_eq!(pomodoro.to_string(), "Focus: \n\t 25:00");
    assert_eq!(pomodoro.timer_mode_string(), "Focus");
    assert_eq!(pomodoro.timer_to_string(), "25:00");
}

#[test]
fn period_ends_by_way_of_the_alarm() {
    let mut pomodoro = session_that_moves_on(3, 5);
    assert_eq!(pomodoro.forward(), 2);
    assert_eq!(pomodoro.forward(), 1);
    assert_eq!(pomodoro.timer, TimerType::Focus);
    assert!(!pomodoro.alarm_due());

    assert_eq!(pomodoro.forward(), 3);
    assert_eq!(pomodoro.timer, TimerType::Transitioning(Box::new(TimerType::Rest)));
    assert_eq!(pomodoro.focus, Timer::new(3));
    assert!(pomodoro.alarm_due());
    assert_eq!(pomodoro.get_current_timer(), Timer::new(5));
    assert_eq!(pomodoro.to_string(), "Transitioning(Rest): \n\t 00:05");

    assert_eq!(pomodoro.forward(), 5);
    assert_eq!(pomodoro.timer, TimerType::Rest);
    assert_eq!(pomodoro.rest.current_time, pomodoro.rest.initial_time);
    assert_eq!(pomodoro.focus, Timer::new(3));
    assert!(!pomodoro.alarm_due());

    for _ in 0..5 {
        pomodoro.forward();
    }
    assert_eq!(pomodoro.timer, TimerType::Transitioning(Box::new(TimerType::Focus)));
    assert_eq!(pomodoro.rest, Timer::new(5));
    pomodoro.forward();
    assert_eq!(pomodoro.timer, TimerType::Focus);
}

#[test]
fn without_the_alarm_no_transition_is_seen() {
    let mut pomodoro = session_that_moves_on(3, 2);
    pomodoro.alarm_disable();
    let mut modes = Vec::new();
    for _ in 0..12 {
        pomodoro.forward();
        assert!(pomodoro.timer.is_steady());
        assert!(!pomodoro.alarm_due());
        assert!(!pomodoro.play_sound_alarm);
        modes.push(pomodoro.get_mode());
    }
    let f = TimerType::Focus;
    let r = TimerType::Rest;
    assert_eq!(
        modes,
        vec![
            f.clone(),
            f.clone(),
            r.clone(),
            r.clone(),
            f.clone(),
            f.clone(),
            f.clone(),
            r.clone(),
            r.clone(),
            f.clone(),
            f.clone(),
            f
        ]
    );
}

#[test]
fn alarm_turned_off_on_the_way_is_not_due() {
    let mut pomodoro = session_that_moves_on(1, 1);
    pomodoro.forward();
    assert!(pomodoro.alarm_due());
    pomodoro.alarm_disable();
    assert!(!pomodoro.alarm_due());
    pomodoro.forward();
    assert_eq!(pomodoro.timer, TimerType::Rest);
}

#[test]
fn period_of_no_length_ends_with_the_first_tick() {
    let mut pomodoro = session_that_moves_on(0, 4);
    pomodoro.alarm_disable();
    assert_eq!(pomodoro.forward(), 0);
    assert_eq!(pomodoro.timer, TimerType::Rest);
    assert_eq!(pomodoro.focus, Timer::new(0));
}

#[test]
fn held_open_period_shows_its_extra_time() {
    let mut pomodoro = Pomodoro::new(2, 9);
    assert_eq!(pomodoro.forward(), 1);
    assert_eq!(pomodoro.forward(), 0);
    assert_eq!(pomodoro.forward(), 1);
    assert_eq!(pomodoro.forward(), 2);
    assert_eq!(pomodoro.timer, TimerType::Focus);
    assert_eq!(pomodoro.focus, Timer { current_time: 0, initial_time: 2, extra_time: 2 });
    assert_eq!(pomodoro.rest, Timer::new(9));
    assert_eq!(pomodoro.to_string(), "Focus: \n\t 00:00(+00:02)");
}

#[test]
fn session_with_a_full_counter_cannot_go_on() {
    let mut pomodoro = Pomodoro::new(2, 9);
    assert!(pomodoro.can_forward());
    pomodoro.focus = Timer { current_time: 0, initial_time: 2, extra_time: u64::MAX };
    assert!(!pomodoro.can_forward());
    pomodoro.timer = TimerType::Rest;
    assert!(pomodoro.can_forward());
    pomodoro.timer = TimerType::Transitioning(Box::new(TimerType::Focus));
    assert!(pomodoro.can_forward());
}

#[test]
fn next_mode_sets_the_period_back_and_flips() {
    let mut pomodoro = Pomodoro::new(2, 9);
    for _ in 0..5 {
        pomodoro.forward();
    }
    assert_eq!(pomodoro.focus.extra_time, 3);
    pomodoro.next_mode();
    assert_eq!(pomodoro.timer, TimerType::Rest);
    assert_eq!(pomodoro.focus, Timer::new(2));
    assert_eq!(pomodoro.rest, Timer::new(9));

    pomodoro.forward();
    pomodoro.next_mode();
    assert_eq!(pomodoro.timer, TimerType::Focus);
    assert_eq!(pomodoro.rest, Timer::new(9));
}

#[test]
fn reset_timer_sets_one_period_back() {
    let mut pomodoro = Pomodoro::new(2, 9);
    for _ in 0..5 {
        pomodoro.forward();
    }
    pomodoro.rest.current_time = 4;
    pomodoro.reset_timer(TimerType::Focus);
    assert_eq!(pomodoro.focus, Timer::new(2));
    assert_eq!(pomodoro.rest.current_time, 4);
    assert_eq!(pomodoro.timer, TimerType::Focus);
    pomodoro.reset_timer(TimerType::Rest);
    assert_eq!(pomodoro.rest, Timer::new(9));
}

#[test]
fn task_index_counts_within_the_filtered_list() {
    let mut pomodoro = Pomodoro::new(1, 1);
    for name in ["a", "b", "c", "d"] {
        pomodoro.task_add(Task::new(name, ""));
    }
    pomodoro.task_complete(1);
    assert_eq!(names(&pomodoro.task_get_by_complete(true)), vec!["b"]);
    assert_eq!(names(&pomodoro.task_get_by_complete(false)), vec!["a", "c", "d"]);

    pomodoro.task_complete(1);
    assert_eq!(names(&pomodoro.task_get_by_complete(true)), vec!["b", "c"]);
    pomodoro.task_complete(1);
    assert_eq!(names(&pomodoro.task_get_by_complete(true)), vec!["b", "c", "d"]);
    assert_eq!(names(&pomodoro.task_get_by_complete(false)), vec!["a"]);

    pomodoro.task_not_complete(1);
    assert_eq!(names(&pomodoro.task_get_by_complete(true)), vec!["b", "d"]);
    assert_eq!(names(&pomodoro.task_get_by_complete(false)), vec!["a", "c"]);
    assert_eq!(names(&pomodoro.tasks), vec!["a", "b", "c", "d"]);
}

#[test]
fn task_index_beyond_the_filtered_list_changes_nothing() {
    let mut pomodoro = Pomodoro::new(1, 1);
    pomodoro.task_add(Task::new("a", "x"));
    pomodoro.task_add(Task::new("b", "y"));
    pomodoro.task_complete(0);
    let before = pomodoro.tasks.clone();

    pomodoro.task_complete(1);
    assert!(pomodoro.tasks == before);
    pomodoro.task_complete(usize::MAX);
    assert!(pomodoro.tasks == before);
    pomodoro.task_not_complete(1);
    assert!(pomodoro.tasks == before);

    let mut empty = Pomodoro::new(1, 1);
    empty.task_complete(0);
    empty.task_not_complete(0);
    assert!(empty.tasks.is_empty());
}

#[test]
fn task_remove_takes_by_position_in_the_whole_list() {
    let mut pomodoro = Pomodoro::new(1, 1);
    for name in ["a", "b", "c"] {
        pomodoro.task_add(Task::new(name, "same"));
    }
    pomodoro.task_complete(0);
    let removed = pomodoro.task_remove(1);
    assert_eq!(removed.name, "b");
    assert!(!removed.completed);
    assert_eq!(names(&pomodoro.tasks), vec!["a", "c"]);
}

#[test]
fn task_remove_by_attributes_takes_the_first_equal_task_only() {
    let mut pomodoro = Pomodoro::new(1, 1);
    pomodoro.task_add(Task::new("a", "x"));
    pomodoro.task_add(Task::new("b", "y"));
    pomodoro.task_add(Task::new("a", "x"));
    pomodoro.task_add(Task::new("a", "x"));
    pomodoro.task_complete(0);

    pomodoro.task_remove_by_attributes(Task::new("a", "x"));
    assert_eq!(names(&pomodoro.tasks), vec!["a", "b", "a"]);
    assert!(pomodoro.tasks[0].completed);
    assert!(!pomodoro.tasks[2].completed);

    pomodoro.task_remove_by_attributes(Task::new("a", "other"));
    pomodoro.task_remove_by_attributes(Task::new("c", "x"));
    assert_eq!(pomodoro.tasks.len(), 3);

    let mut done = Task::new("a", "x");
    done.completed = true;
    pomodoro.task_remove_by_attributes(done);
    assert_eq!(names(&pomodoro.tasks), vec!["b", "a"]);
}

#[test]
fn tasks_do_not_touch_the_timers() {
    let mut pomodoro = Pomodoro::new(8, 3);
    pomodoro.forward();
    pomodoro.task_add(Task::new("a", "x"));
    pomodoro.task_complete(0);
    pomodoro.task_not_complete(0);
    pomodoro.task_remove(0);
    assert_eq!(pomodoro.focus, Timer { current_time: 7, initial_time: 8, extra_time: 0 });
    assert_eq!(pomodoro.rest, Timer::new(3));
    assert_eq!(pomodoro.timer, TimerType::Focus);
}
