//! The session: a focus period and a rest period that take turns, the mode
//! that says whose turn it is, and the to-do list.

use crate::backend::file::{stored_tasks, stored_text, PomoFile};
use crate::backend::task::{views, Task};
use crate::backend::text::{first_index, lemma_first_index_is};
use crate::backend::timer::{lemma_after, Timer, TimerType};
use vstd::pervasive::unreached;
use vstd::prelude::*;
use vstd::string::*;

verus! {

/// A session of focus and rest.
///
/// The caller calls [`Pomodoro::forward`] once for every second that has
/// passed. While `timer_extend` is on, a period that has run down is held open
/// and counts extra time until the caller moves on with
/// [`Pomodoro::next_mode`]; while it is off, the session moves on by itself.
/// While `play_sound_alarm` is on, it does so by way of
/// `TimerType::Transitioning`, and the caller sounds the alarm when
/// [`Pomodoro::alarm_due`] says so.
pub struct Pomodoro {
    pub focus: Timer,
    pub rest: Timer,
    pub tasks: Vec<Task>,
    pub timer: TimerType,
    pub play_sound_alarm: bool,
    pub timer_extend: bool,
}

/// The tasks of `tasks` that are done, or those that are not, in their order.
pub open spec fn by_completion(tasks: Seq<Task>, completed: bool) -> Seq<Task> {
    tasks.filter(|t: Task| t.completed == completed)
}

/// Where in `tasks` the task stands that is number `n`, counted from zero,
/// among those that are done (or among those that are not); the length of
/// `tasks` where there are not that many.
pub open spec fn nth_by_completion(tasks: Seq<Task>, completed: bool, n: nat) -> int
    decreases tasks.len(),
{
    if tasks.len() == 0 {
        0
    } else if tasks[0].completed != completed {
        1 + nth_by_completion(tasks.drop_first(), completed, n)
    } else if n == 0 {
        0
    } else {
        1 + nth_by_completion(tasks.drop_first(), completed, (n - 1) as nat)
    }
}

/// `tasks` with the task at `k` marked as done, or as not done; `tasks`
/// itself where `k` is no position in it.
pub open spec fn marked(tasks: Seq<Task>, k: int, completed: bool) -> Seq<Task> {
    if 0 <= k < tasks.len() {
        tasks.update(k, Task { completed, ..tasks[k] })
    } else {
        tasks
    }
}

impl Pomodoro {
    /// The session as it starts: in focus, both periods unused, no tasks, the
    /// alarm on and periods held open.
    pub open spec fn is_fresh(self, focus_time: u64, rest_time: u64) -> bool {
        &&& self.focus == Timer::fresh(focus_time)
        &&& self.rest == Timer::fresh(rest_time)
        &&& self.tasks@ == Seq::<Task>::empty()
        &&& self.timer == TimerType::Focus
        &&& self.play_sound_alarm
        &&& self.timer_extend
    }

    /// What every operation of the session keeps: the mode is well formed,
    /// and so are both periods.
    pub open spec fn well_formed(self) -> bool {
        &&& self.timer.well_formed()
        &&& self.focus.well_formed()
        &&& self.rest.well_formed()
    }

    /// The period that belongs to the steady mode `mode`.
    pub open spec fn period(self, mode: TimerType) -> Timer
        recommends
            mode.is_steady(),
    {
        if mode is Focus {
            self.focus
        } else {
            self.rest
        }
    }

    /// The session with `period` in the place of the period of `mode`.
    pub open spec fn with_period(self, mode: TimerType, period: Timer) -> Pomodoro
        recommends
            mode.is_steady(),
    {
        if mode is Focus {
            Pomodoro { focus: period, ..self }
        } else {
            Pomodoro { rest: period, ..self }
        }
    }

    /// The period that counts now, or the one that will count next while the
    /// session is on the way there.
    pub open spec fn current_timer(self) -> Timer
        recommends
            self.timer.well_formed(),
    {
        self.period(self.timer.target())
    }

    /// The mode that follows the steady mode `from` when its period has run
    /// down: the other steady mode, by way of `Transitioning` while the alarm
    /// is on.
    pub open spec fn handed_over(self, from: TimerType) -> TimerType
        recommends
            from.is_steady(),
    {
        if self.play_sound_alarm {
            TimerType::Transitioning(Box::new(from.other()))
        } else {
            from.other()
        }
    }

    /// Whether the session can take one more second: always, but for a
    /// period held open whose extra time has filled its counter.
    pub open spec fn spec_can_forward(&self) -> bool {
        self.timer.is_steady() ==> self.period(self.timer).can_tick()
    }

    #[verifier::when_used_as_spec(spec_can_forward)]
    pub fn can_forward(&self) -> (b: bool)
        ensures
            b == self.spec_can_forward(),
    {
        match &self.timer {
            TimerType::Focus => self.focus.can_tick(),
            TimerType::Rest => self.rest.can_tick(),
            TimerType::Transitioning(_) => true,
        }
    }

    /// The number of ticks after which the period of the steady mode ends,
    /// where periods are not held open: one for each second left, and one
    /// tick where none is left.
    pub open spec fn ticks_to_expiry(self) -> nat
        recommends
            self.timer.is_steady(),
    {
        if self.period(self.timer).current_time == 0 {
            1
        } else {
            self.period(self.timer).current_time as nat
        }
    }

    /// The session one second later.
    ///
    /// In a steady mode the period of that mode counts the second. If no time
    /// is left then and periods are not held open, the period is set back and
    /// the session moves on. On the way to a steady mode, the session arrives
    /// there and no period counts.
    pub open spec fn forwarded(self) -> Pomodoro
        recommends
            self.timer.well_formed(),
    {
        match self.timer {
            TimerType::Transitioning(next) => Pomodoro { timer: *next, ..self },
            mode => {
                let ticked = self.period(mode).ticked();
                if ticked.current_time == 0 && !self.timer_extend {
                    Pomodoro { timer: self.handed_over(mode), ..self }.with_period(
                        mode,
                        ticked.rewound(),
                    )
                } else {
                    self.with_period(mode, ticked)
                }
            },
        }
    }

    /// The session `n` seconds later.
    pub open spec fn run(self, n: nat) -> Pomodoro
        decreases n,
    {
        if n == 0 {
            self
        } else {
            self.run((n - 1) as nat).forwarded()
        }
    }

    /// The session after its steady mode has been left by hand: the period
    /// of that mode is set back and the other steady mode begins.
    pub open spec fn skipped(self) -> Pomodoro
        recommends
            self.timer.is_steady(),
    {
        Pomodoro { timer: self.timer.other(), ..self }.with_period(
            self.timer,
            self.period(self.timer).rewound(),
        )
    }

    /// Whether `other` differs from this session in its tasks at most.
    pub open spec fn same_but_tasks(self, other: Pomodoro) -> bool {
        other == (Pomodoro { tasks: other.tasks, ..self })
    }

    /// What the session shows: the name of the mode and the period.
    pub open spec fn banner(self) -> Seq<char>
        recommends
            self.timer.well_formed(),
    {
        self.timer.label() + ": \n\t "@ + self.current_timer().face()
    }

    pub fn new(focus_time: u64, rest_time: u64) -> (p: Self)
        ensures
            p.is_fresh(focus_time, rest_time),
            p.well_formed(),
    {
        Self {
            focus: Timer::new(focus_time),
            rest: Timer::new(rest_time),
            tasks: Vec::new(),
            timer: TimerType::Focus,
            play_sound_alarm: true,
            timer_extend: true,
        }
    }

    /// Takes in the tasks that the stored text `data` keeps: they are put
    /// behind the tasks that the session has already.
    pub fn load(&mut self, data: &str)
        ensures
            final(self).tasks@.len() >= old(self).tasks@.len(),
            final(self).tasks@.take(old(self).tasks@.len() as int) == old(self).tasks@,
            views(final(self).tasks@.skip(old(self).tasks@.len() as int)) == stored_tasks(data@),
            old(self).same_but_tasks(*final(self)),
    {
        let mut loaded = PomoFile::load(data);
        self.tasks.append(&mut loaded);
    }

    /// The text to store: it keeps the tasks that are not done, and only
    /// those.
    pub fn save(&self) -> (data: String)
        ensures
            data@ == stored_text(views(by_completion(self.tasks@, false))),
    {
        PomoFile::save(self.task_get_by_complete(false))
    }

    /// Whether the alarm is to sound before the next call of `forward`: when
    /// the session is on the way to a steady mode and the alarm is on.
    pub fn alarm_due(&self) -> (due: bool)
        ensures
            due == (self.timer is Transitioning && self.play_sound_alarm),
    {
        match &self.timer {
            TimerType::Transitioning(_) => self.play_sound_alarm,
            _ => false,
        }
    }

    /// Takes the session one second on and returns what the display shows of
    /// the period concerned: the time left, or the extra time once none is
    /// left.
    pub fn forward(&mut self) -> (shown: u64)
        requires
            old(self).timer.well_formed(),
            old(self).can_forward(),
        ensures
            *final(self) == old(self).forwarded(),
            shown == final(self).period(old(self).timer.target()).shown(),
            old(self).well_formed() ==> final(self).well_formed(),
            !old(self).play_sound_alarm && old(self).timer.is_steady() ==> final(self).timer.is_steady(),
    {
        match &self.timer {
            TimerType::Focus => {
                self.focus.forward();
                if self.focus.current_time == 0 && !self.timer_extend {
                    self.timer = self.hand_over(TimerType::Rest);
                    self.focus.reset();
                }
                Self::shown_of(&self.focus)
            },
            TimerType::Rest => {
                self.rest.forward();
                if self.rest.current_time == 0 && !self.timer_extend {
                    self.timer = self.hand_over(TimerType::Focus);
                    self.rest.reset();
                }
                Self::shown_of(&self.rest)
            },
            TimerType::Transitioning(next) => {
                match &**next {
                    TimerType::Focus => {
                        self.timer = TimerType::Focus;
                        Self::shown_of(&self.focus)
                    },
                    TimerType::Rest => {
                        self.timer = TimerType::Rest;
                        Self::shown_of(&self.rest)
                    },
                    TimerType::Transitioning(_) => unreached(),
                }
            },
        }
    }

    fn hand_over(&self, next: TimerType) -> (mode: TimerType)
        requires
            next.is_steady(),
        ensures
            mode == self.handed_over(next.other()),
    {
        if self.play_sound_alarm {
            TimerType::Transitioning(Box::new(next))
        } else {
            next
        }
    }

    fn shown_of(period: &Timer) -> (shown: u64)
        ensures
            shown == period.shown(),
    {
        if period.current_time > 0 {
            period.current_time
        } else {
            period.extra_time
        }
    }

    /// Turns the alarm off, for good: from here on a period that has run down
    /// is followed by the next steady mode at once.
    pub fn alarm_disable(&mut self)
        ensures
            *final(self) == (Pomodoro { play_sound_alarm: false, ..*old(self) }),
    {
        self.play_sound_alarm = false;
    }

    /// Leaves the steady mode by hand: its period is set back, and the other
    /// steady mode begins, without the alarm.
    pub fn next_mode(&mut self)
        requires
            old(self).timer.is_steady(),
        ensures
            *final(self) == old(self).skipped(),
            old(self).well_formed() ==> final(self).well_formed(),
    {
        match &self.timer {
            TimerType::Focus => {
                self.timer = TimerType::Rest;
                self.focus.reset();
            },
            TimerType::Rest => {
                self.timer = TimerType::Focus;
                self.rest.reset();
            },
            TimerType::Transitioning(_) => unreached(),
        }
    }

    /// Sets the period of the steady mode `timer_type` back to its start.
    pub fn reset_timer(&mut self, timer_type: TimerType)
        requires
            timer_type.is_steady(),
        ensures
            *final(self) == old(self).with_period(
                timer_type,
                old(self).period(timer_type).rewound(),
            ),
            old(self).well_formed() ==> final(self).well_formed(),
    {
        match timer_type {
            TimerType::Rest => self.rest.reset(),
            TimerType::Focus => self.focus.reset(),
            TimerType::Transitioning(_) => unreached(),
        }
    }

    pub fn get_mode(&self) -> (mode: TimerType)
        ensures
            mode == self.timer,
    {
        self.timer.clone()
    }

    /// Puts `new_task` at the end of the list.
    pub fn task_add(&mut self, new_task: Task)
        ensures
            final(self).tasks@ == old(self).tasks@.push(new_task),
            old(self).same_but_tasks(*final(self)),
    {
        self.tasks.push(new_task);
    }

    /// Takes the task at `task_index` of the whole list out and returns it.
    pub fn task_remove(&mut self, task_index: usize) -> (task: Task)
        requires
            task_index < old(self).tasks.len(),
        ensures
            task == old(self).tasks@[task_index as int],
            final(self).tasks@ == old(self).tasks@.remove(task_index as int),
            old(self).same_but_tasks(*final(self)),
    {
        self.tasks.remove(task_index)
    }

    /// Takes out the first task that equals `task` in name, description and
    /// state. Leaves the list as it is where there is none.
    pub fn task_remove_by_attributes(&mut self, task: Task)
        ensures
            ({
                let k = first_index(views(old(self).tasks@), task@);
                final(self).tasks@ == if 0 <= k < old(self).tasks.len() {
                    old(self).tasks@.remove(k)
                } else {
                    old(self).tasks@
                }
            }),
            old(self).same_but_tasks(*final(self)),
    {
        let n = self.tasks.len();
        let mut i: usize = 0;
        while i < n
            invariant
                n == self.tasks.len(),
                i <= n,
                *self == *old(self),
                forall|j: int| 0 <= j < i ==> views(self.tasks@)[j] != task@,
            decreases n - i,
        {
            if self.tasks[i] == task {
                proof {
                    lemma_first_index_is(views(self.tasks@), task@, i as int);
                }
                self.tasks.remove(i);
                return ;
            }
            i += 1;
        }
        proof {
            lemma_first_index_is(views(self.tasks@), task@, n as int);
        }
    }

    /// Marks as done the task at `task_index` of the list of tasks that are
    /// not done. Leaves all tasks as they are where that list is shorter.
    pub fn task_complete(&mut self, task_index: usize)
        ensures
            final(self).tasks@ == marked(
                old(self).tasks@,
                nth_by_completion(old(self).tasks@, false, task_index as nat),
                true,
            ),
            task_index >= by_completion(old(self).tasks@, false).len() ==> final(self).tasks@
                == old(self).tasks@,
            old(self).same_but_tasks(*final(self)),
    {
        self.mark(false, task_index);
    }

    /// Marks as not done the task at `task_index` of the list of tasks that
    /// are done. Leaves all tasks as they are where that list is shorter.
    pub fn task_not_complete(&mut self, task_index: usize)
        ensures
            final(self).tasks@ == marked(
                old(self).tasks@,
                nth_by_completion(old(self).tasks@, true, task_index as nat),
                false,
            ),
            task_index >= by_completion(old(self).tasks@, true).len() ==> final(self).tasks@
                == old(self).tasks@,
            old(self).same_but_tasks(*final(self)),
    {
        self.mark(true, task_index);
    }

    /// Turns over the state of the task that is number `n` among those whose
    /// state is `from`.
    fn mark(&mut self, from: bool, n: usize)
        ensures
            final(self).tasks@ == marked(
                old(self).tasks@,
                nth_by_completion(old(self).tasks@, from, n as nat),
                !from,
            ),
            n >= by_completion(old(self).tasks@, from).len() ==> final(self).tasks@ == old(self).tasks@,
            old(self).same_but_tasks(*final(self)),
    {
        let len = self.tasks.len();
        let mut i: usize = 0;
        let mut seen: usize = 0;
        assert(self.tasks@.skip(0) == self.tasks@);
        while i < len
            invariant
                len == self.tasks.len(),
                i <= len,
                seen <= n,
                seen <= i,
                *self == *old(self),
                seen == by_completion(self.tasks@.take(i as int), from).len(),
                nth_by_completion(self.tasks@, from, n as nat) == i + nth_by_completion(
                    self.tasks@.skip(i as int),
                    from,
                    (n - seen) as nat,
                ),
            decreases len - i,
        {
            proof {
                assert(self.tasks@.skip(i as int).drop_first() == self.tasks@.skip(i + 1));
                lemma_by_completion_step(self.tasks@, from, i as int);
            }
            if self.tasks[i].completed == from {
                if seen == n {
                    proof {
                        lemma_nth_by_completion(self.tasks@, from, n as nat);
                    }
                    self.tasks[i].completed = !from;
                    return ;
                }
                seen += 1;
            }
            i += 1;
        }
        proof {
            lemma_nth_by_completion(self.tasks@, from, n as nat);
        }
    }

    /// The tasks that are done, or those that are not, as copies in the order
    /// of the list.
    pub fn task_get_by_complete(&self, completed: bool) -> (found: Vec<Task>)
        ensures
            found@ == by_completion(self.tasks@, completed),
    {
        let mut found: Vec<Task> = Vec::new();
        let len = self.tasks.len();
        let mut i: usize = 0;
        while i < len
            invariant
                len == self.tasks.len(),
                i <= len,
                found@ == by_completion(self.tasks@.take(i as int), completed),
            decreases len - i,
        {
            proof {
                lemma_by_completion_step(self.tasks@, completed, i as int);
            }
            if self.tasks[i].completed == completed {
                found.push(self.tasks[i].clone());
            }
            i += 1;
        }
        assert(self.tasks@.take(len as int) == self.tasks@);
        found
    }

    pub fn to_string(&self) -> (s: String)
        requires
            self.timer.well_formed(),
        ensures
            s@ == self.banner(),
    {
        let mut r = self.timer.to_string();
        r.append(": \n\t ");
        r.append(self.get_current_timer().to_string().as_str());
        r
    }

    /// The name of the mode.
    pub fn timer_mode_string(&self) -> (s: String)
        requires
            self.timer.well_formed(),
        ensures
            s@ == self.timer.label(),
    {
        self.timer.to_string()
    }

    /// The period that counts now, or will count next, as text.
    pub fn timer_to_string(&self) -> (s: String)
        requires
            self.timer.well_formed(),
        ensures
            s@ == self.current_timer().face(),
    {
        self.get_current_timer().to_string()
    }

    /// The time left in the period that counts now, or will count next.
    pub fn get_current_duration(&self) -> (left: u64)
        requires
            self.timer.well_formed(),
        ensures
            left == self.current_timer().current_time,
    {
        self.get_current_timer().current_time
    }

    /// The period that counts now, or the one that will count next while the
    /// session is on the way there.
    pub fn get_current_timer(&self) -> (period: Timer)
        requires
            self.timer.well_formed(),
        ensures
            period == self.current_timer(),
    {
        match &self.timer {
            TimerType::Focus => self.focus,
            TimerType::Rest => self.rest,
            TimerType::Transitioning(next) => match &**next {
                TimerType::Focus => self.focus,
                TimerType::Rest => self.rest,
                TimerType::Transitioning(_) => unreached(),
            },
        }
    }
}

/// While the period of a steady mode has more seconds left than have
/// passed, the session stays in that mode and only that period counts.
pub proof fn lemma_counting_down(p: Pomodoro, k: nat)
    requires
        p.timer.is_steady(),
        k < p.period(p.timer).current_time,
    ensures
        p.run(k) == p.with_period(p.timer, p.period(p.timer).after(k)),
        p.run(k).period(p.timer).current_time == p.period(p.timer).current_time - k,
    decreases k,
{
    if k > 0 {
        lemma_counting_down(p, (k - 1) as nat);
    }
}

/// While periods are held open the session never leaves a steady mode by
/// itself: the period of that mode counts every second, first down and then
/// up, and nothing else changes.
pub proof fn lemma_held_open(p: Pomodoro, k: nat)
    requires
        p.timer.is_steady(),
        p.timer_extend,
    ensures
        p.run(k) == p.with_period(p.timer, p.period(p.timer).after(k)),
    decreases k,
{
    if k > 0 {
        lemma_held_open(p, (k - 1) as nat);
    }
}

/// With the alarm on, a period that is not held open ends by way of
/// `Transitioning`. The session stays in its mode until the period has run
/// down. With the tick that takes the last second it is on the way to the
/// other steady mode, and the period that ran down is set back. One tick
/// later it is in that mode, whose period has not been touched.
pub proof fn lemma_expiry_with_alarm(p: Pomodoro)
    requires
        p.timer.is_steady(),
        !p.timer_extend,
        p.play_sound_alarm,
    ensures
        forall|k: nat| k < p.ticks_to_expiry() ==> (#[trigger] p.run(k)).timer == p.timer,
        p.run(p.ticks_to_expiry()) == (Pomodoro {
            timer: TimerType::Transitioning(Box::new(p.timer.other())),
            ..p
        }).with_period(p.timer, p.period(p.timer).rewound()),
        p.run(p.ticks_to_expiry() + 1) == (Pomodoro { timer: p.timer.other(), ..p }).with_period(
            p.timer,
            p.period(p.timer).rewound(),
        ),
{
    lemma_expiry(p);
}

/// With the alarm off, a period that is not held open is followed by the
/// other steady mode at once: the tick that takes the last second sets the
/// period back and begins the other mode.
pub proof fn lemma_expiry_without_alarm(p: Pomodoro)
    requires
        p.timer.is_steady(),
        !p.timer_extend,
        !p.play_sound_alarm,
    ensures
        forall|k: nat| k < p.ticks_to_expiry() ==> (#[trigger] p.run(k)).timer == p.timer,
        p.run(p.ticks_to_expiry()) == (Pomodoro { timer: p.timer.other(), ..p }).with_period(
            p.timer,
            p.period(p.timer).rewound(),
        ),
{
    lemma_expiry(p);
}

/// With the alarm off, a session in a steady mode is in a steady mode after
/// every tick, and the alarm stays off.
pub proof fn lemma_no_transition_without_alarm(p: Pomodoro, k: nat)
    requires
        p.timer.is_steady(),
        !p.play_sound_alarm,
    ensures
        p.run(k).timer.is_steady(),
        !p.run(k).play_sound_alarm,
    decreases k,
{
    if k > 0 {
        lemma_no_transition_without_alarm(p, (k - 1) as nat);
    }
}

/// A session on the way to a steady mode is there after one tick, with
/// nothing else changed: the alarm comes due once for each period that ends.
pub proof fn lemma_transition_lasts_one_tick(p: Pomodoro)
    requires
        p.timer.well_formed(),
        p.timer is Transitioning,
    ensures
        p.forwarded() == (Pomodoro { timer: p.timer.target(), ..p }),
        p.forwarded().timer.is_steady(),
{
}

proof fn lemma_expiry(p: Pomodoro)
    requires
        p.timer.is_steady(),
        !p.timer_extend,
    ensures
        forall|k: nat| k < p.ticks_to_expiry() ==> (#[trigger] p.run(k)).timer == p.timer,
        p.run(p.ticks_to_expiry()) == (Pomodoro {
            timer: p.handed_over(p.timer),
            ..p
        }).with_period(p.timer, p.period(p.timer).rewound()),
        p.play_sound_alarm ==> p.run(p.ticks_to_expiry() + 1) == (Pomodoro {
            timer: p.timer.other(),
            ..p
        }).with_period(p.timer, p.period(p.timer).rewound()),
{
    let n = p.ticks_to_expiry();
    let period = p.period(p.timer);
    assert forall|k: nat| k < n implies (#[trigger] p.run(k)).timer == p.timer by {
        if period.current_time > 0 {
            lemma_counting_down(p, k);
        }
    }
    if period.current_time > 0 {
        lemma_counting_down(p, (n - 1) as nat);
        lemma_after(period, (n - 1) as nat);
    }
}

/// Taking one more task into account adds it to the chosen tasks where its
/// state is the one asked for, and adds nothing where it is not.
pub proof fn lemma_by_completion_step(tasks: Seq<Task>, completed: bool, i: int)
    requires
        0 <= i < tasks.len(),
    ensures
        by_completion(tasks.take(i + 1), completed) == if tasks[i].completed == completed {
            by_completion(tasks.take(i), completed).push(tasks[i])
        } else {
            by_completion(tasks.take(i), completed)
        },
{
    let pred = |t: Task| t.completed == completed;
    assert(tasks.take(i + 1) == tasks.take(i).push(tasks[i]));
    Seq::lemma_filter_push(tasks.take(i), tasks[i], pred);
}

/// `nth_by_completion` counts by the list of the tasks in one state: it is
/// a position in `tasks` exactly when that list has a task number `n`, and
/// then the task at it is that one.
pub proof fn lemma_nth_by_completion(tasks: Seq<Task>, completed: bool, n: nat)
    ensures
        0 <= nth_by_completion(tasks, completed, n) <= tasks.len(),
        nth_by_completion(tasks, completed, n) < tasks.len() <==> n < by_completion(
            tasks,
            completed,
        ).len(),
        n < by_completion(tasks, completed).len() ==> tasks[nth_by_completion(tasks, completed, n)]
            == by_completion(tasks, completed)[n as int],
    decreases tasks.len(),
{
    let pred = |t: Task| t.completed == completed;
    if tasks.len() > 0 {
        let rest = tasks.drop_first();
        assert(tasks == seq![tasks[0]] + rest);
        Seq::lemma_filter_prepend(rest, tasks[0], pred);
        if tasks[0].completed != completed {
            lemma_nth_by_completion(rest, completed, n);
        } else if n > 0 {
            lemma_nth_by_completion(rest, completed, (n - 1) as nat);
        }
    }
}

/// Marking the task that is number `n` in its list takes it out of that
/// list, which keeps its other tasks in their order. Nothing else changes in
/// the whole list: it keeps its length, the task keeps its place, its name
/// and its description, and every other task stays as it is.
pub proof fn lemma_marked_leaves_its_list(tasks: Seq<Task>, from: bool, n: nat)
    requires
        n < by_completion(tasks, from).len(),
    ensures
        ({
            let k = nth_by_completion(tasks, from, n);
            let after = marked(tasks, k, !from);
            &&& 0 <= k < tasks.len()
            &&& by_completion(after, from) == by_completion(tasks, from).remove(n as int)
            &&& after.len() == tasks.len()
            &&& after[k] == (Task { completed: !from, ..tasks[k] })
            &&& forall|i: int| 0 <= i < tasks.len() && i != k ==> after[i] == tasks[i]
        }),
    decreases tasks.len(),
{
    let pred = |t: Task| t.completed == from;
    let k = nth_by_completion(tasks, from, n);
    let after = marked(tasks, k, !from);
    let first = tasks[0];
    let rest = tasks.drop_first();
    lemma_nth_by_completion(tasks, from, n);
    assert(tasks == seq![first] + rest);
    Seq::lemma_filter_prepend(rest, first, pred);
    if first.completed == from && n == 0 {
        let turned = Task { completed: !from, ..first };
        assert(after == seq![turned] + rest);
        Seq::lemma_filter_prepend(rest, turned, pred);
    } else {
        let m: nat = if first.completed == from {
            (n - 1) as nat
        } else {
            n
        };
        let inner = marked(rest, k - 1, !from);
        lemma_nth_by_completion(rest, from, m);
        lemma_marked_leaves_its_list(rest, from, m);
        assert(after == seq![first] + inner);
        Seq::lemma_filter_prepend(inner, first, pred);
    }
}

} // verus!
