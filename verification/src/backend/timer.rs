//! One period of the timer, counted in whole seconds, and the modes a
//! session can be in.

use crate::backend::text::{clock, push_clock};
use vstd::arithmetic::div_mod::lemma_fundamental_div_mod_converse;
use vstd::pervasive::unreached;
use vstd::prelude::*;
use vstd::string::*;

verus! {

/// The counter of one period.
///
/// `current_time` runs down from `initial_time` to zero, one second per tick.
/// Once it is zero the period is held open and `extra_time` runs up instead,
/// until the period is reset.
#[derive(Clone, Copy, Debug, PartialEq, Eq, Structural)]
pub struct Timer {
    pub current_time: u64,
    pub initial_time: u64,
    pub extra_time: u64,
}

/// `base * (1 + extra / initial)`, rounded to the nearest whole number, a half
/// rounded up.
pub open spec fn stretched(base: nat, extra: nat, initial: nat) -> nat
    recommends
        initial > 0,
{
    ((2 * base * (initial + extra) + initial) / (2 * initial)) as nat
}

/// `stretched` is the whole number nearest to the exact quotient: twice their
/// distance is at most one, and a half goes up.
pub proof fn lemma_stretched_is_nearest(base: nat, extra: nat, initial: nat)
    requires
        initial > 0,
    ensures
        2 * initial * stretched(base, extra, initial) <= 2 * base * (initial + extra) + initial,
        2 * base * (initial + extra) + initial < 2 * initial * (stretched(base, extra, initial)
            + 1),
{
    let x = (2 * base * (initial + extra) + initial) as int;
    let d = (2 * initial) as int;
    vstd::arithmetic::div_mod::lemma_fundamental_div_mod(x, d);
    vstd::arithmetic::div_mod::lemma_mod_bound(x, d);
    assert(d * (x / d) + d == d * (x / d + 1)) by (nonlinear_arith);
}

/// A period that has not run over is followed by one of its own length.
pub proof fn lemma_stretched_without_extra(base: nat, initial: nat)
    requires
        initial > 0,
    ensures
        stretched(base, 0, initial) == base,
{
    let x = (2 * base * (initial + 0) + initial) as int;
    let d = (2 * initial) as int;
    assert(x == base * d + initial) by (nonlinear_arith)
        requires
            x == 2 * base * (initial + 0) + initial,
            d == 2 * initial,
    ;
    lemma_fundamental_div_mod_converse(x, d, base as int, initial as int);
}

/// A period that has run over by its whole length doubles the next one.
pub proof fn lemma_stretched_by_whole_length(base: nat, initial: nat)
    requires
        initial > 0,
    ensures
        stretched(base, initial, initial) == 2 * base,
{
    let x = (2 * base * (initial + initial) + initial) as int;
    let d = (2 * initial) as int;
    assert(x == (2 * base) * d + initial) by (nonlinear_arith)
        requires
            x == 2 * base * (initial + initial) + initial,
            d == 2 * initial,
    ;
    lemma_fundamental_div_mod_converse(x, d, 2 * base as int, initial as int);
}

impl Timer {
    /// A period of `initial_time` seconds that has not started.
    pub open spec fn fresh(initial_time: u64) -> Timer {
        Timer { current_time: initial_time, initial_time, extra_time: 0 }
    }

    /// What ticking keeps: no more time is left than the period has, and no
    /// extra time is counted while some is left.
    pub open spec fn well_formed(self) -> bool {
        &&& self.current_time <= self.initial_time
        &&& self.current_time > 0 ==> self.extra_time == 0
    }

    /// Whether one more second can be counted: always while time is left,
    /// and after that until the extra time has filled its counter.
    pub open spec fn spec_can_tick(self) -> bool {
        self.current_time > 0 || self.extra_time < u64::MAX
    }

    #[verifier::when_used_as_spec(spec_can_tick)]
    pub fn can_tick(self) -> (b: bool)
        ensures
            b == self.spec_can_tick(),
    {
        self.current_time > 0 || self.extra_time < u64::MAX
    }

    /// The period one second later.
    pub open spec fn ticked(self) -> Timer {
        if self.current_time > 0 {
            Timer { current_time: (self.current_time - 1) as u64, ..self }
        } else {
            Timer { extra_time: (self.extra_time + 1) as u64, ..self }
        }
    }

    /// The period `n` seconds later.
    pub open spec fn after(self, n: nat) -> Timer
        decreases n,
    {
        if n == 0 {
            self
        } else {
            self.after((n - 1) as nat).ticked()
        }
    }

    /// The period set back to its start.
    pub open spec fn rewound(self) -> Timer {
        Timer { current_time: self.initial_time, extra_time: 0, ..self }
    }

    /// What a display shows of the period: the time left while there is
    /// some, the extra time after that.
    pub open spec fn shown(self) -> u64 {
        if self.current_time > 0 {
            self.current_time
        } else {
            self.extra_time
        }
    }

    /// The period as text: the time left as `mm:ss`, and behind it, once
    /// none is left, the extra time as `(+mm:ss)`.
    pub open spec fn face(self) -> Seq<char> {
        if self.current_time == 0 {
            clock(0) + seq!['(', '+'] + clock(self.extra_time as nat) + seq![')']
        } else {
            clock(self.current_time as nat)
        }
    }

    /// The time this period starts with when it follows `previous` and takes
    /// over its extra time in proportion: `previous` ran over by a fraction of
    /// its own length, and this period is lengthened by the same fraction of
    /// its own. The result is rounded to the nearest second and stops at the
    /// largest number of seconds a period can hold.
    pub open spec fn carried_time(self, previous: Timer) -> u64
        recommends
            previous.initial_time > 0,
    {
        let exact = stretched(
            self.initial_time as nat,
            previous.extra_time as nat,
            previous.initial_time as nat,
        );
        if exact > u64::MAX {
            u64::MAX
        } else {
            exact as u64
        }
    }

    pub fn new(initial_time: u64) -> (t: Self)
        ensures
            t == Timer::fresh(initial_time),
            t.well_formed(),
    {
        Self { current_time: initial_time, extra_time: 0, initial_time }
    }

    pub fn to_string(&self) -> (s: String)
        ensures
            s@ == self.face(),
    {
        let mut r = String::new();
        push_clock(&mut r, self.current_time);
        if self.current_time == 0 {
            proof {
                reveal_strlit("(+");
                reveal_strlit(")");
            }
            r.append("(+");
            push_clock(&mut r, self.extra_time);
            r.append(")");
        }
        r
    }

    /// Counts one second: down while time is left, up on the extra time
    /// after that.
    pub fn forward(&mut self)
        requires
            old(self).can_tick(),
        ensures
            *final(self) == old(self).ticked(),
            old(self).well_formed() ==> final(self).well_formed(),
    {
        if self.current_time == 0 {
            self.extra_time += 1;
        } else {
            self.current_time -= 1;
        }
    }

    pub fn reset(&mut self)
        ensures
            *final(self) == old(self).rewound(),
            final(self).well_formed(),
    {
        self.current_time = self.initial_time;
        self.extra_time = 0;
    }

    /// Starts `t` anew and lengthens it by the share that this period ran
    /// over. The one operation that leaves a period with more time than its
    /// `initial_time`.
    pub fn transfer_extra_timer_to(&self, t: &mut Timer)
        requires
            self.initial_time > 0,
        ensures
            *final(t) == (Timer {
                current_time: old(t).carried_time(*self),
                extra_time: 0,
                initial_time: old(t).initial_time,
            }),
    {
        let base: u128 = t.initial_time as u128;
        let initial: u128 = self.initial_time as u128;
        let extra: u128 = self.extra_time as u128;
        assert(base * extra <= 0xFFFF_FFFF_FFFF_FFFF * 0xFFFF_FFFF_FFFF_FFFF) by (nonlinear_arith)
            requires
                base <= 0xFFFF_FFFF_FFFF_FFFF,
                extra <= 0xFFFF_FFFF_FFFF_FFFF,
        ;
        let share: u128 = base * extra;
        let whole: u128 = share / initial;
        let rest: u128 = share % initial;
        let half_up: u128 = if rest >= initial - rest {
            1
        } else {
            0
        };
        assert(whole <= share) by (nonlinear_arith)
            requires
                whole == share / initial,
                initial > 0,
        ;
        let total: u128 = base + whole + half_up;
        proof {
            let x = 2 * base * (initial + extra) + initial;
            let d = 2 * initial;
            let r = if half_up == 1 {
                2 * rest - initial
            } else {
                2 * rest + initial
            };
            vstd::arithmetic::div_mod::lemma_fundamental_div_mod(share as int, initial as int);
            assert(x == total * d + r) by (nonlinear_arith)
                requires
                    x == 2 * base * (initial + extra) + initial,
                    d == 2 * initial,
                    share == base * extra,
                    share == initial * whole + rest,
                    total == base + whole + half_up,
                    r == if half_up == 1 {
                        2 * rest - initial
                    } else {
                        2 * rest + initial
                    },
                    half_up == 0 || half_up == 1,
            ;
            lemma_fundamental_div_mod_converse(x as int, d as int, total as int, r as int);
        }
        t.reset();
        t.current_time = if total > u64::MAX as u128 {
            u64::MAX
        } else {
            total as u64
        };
    }
}

/// Ticking never changes the length that a period was set up with. The
/// first ticks take the time left down, second by second; the ticks after
/// that add to the extra time, as far as its counter goes.
pub proof fn lemma_after(t: Timer, n: nat)
    ensures
        t.after(n).initial_time == t.initial_time,
        n <= t.current_time ==> t.after(n) == (Timer {
            current_time: (t.current_time - n) as u64,
            ..t
        }),
        n > t.current_time && t.extra_time + (n - t.current_time) <= u64::MAX ==> t.after(n) == (Timer {
            current_time: 0,
            extra_time: (t.extra_time + (n - t.current_time)) as u64,
            ..t
        }),
        t.well_formed() ==> t.after(n).well_formed(),
    decreases n,
{
    if n > 0 {
        lemma_after(t, (n - 1) as nat);
    }
}

/// A period of `d` seconds that has not started has no time left after `d`
/// ticks, and no extra time yet; the tick after that is the first second of
/// extra time.
pub proof fn lemma_runs_down(d: u64)
    ensures
        Timer::fresh(d).after(d as nat) == (Timer {
            current_time: 0,
            initial_time: d,
            extra_time: 0,
        }),
        Timer::fresh(d).after((d + 1) as nat) == (Timer {
            current_time: 0,
            initial_time: d,
            extra_time: 1,
        }),
{
    lemma_after(Timer::fresh(d), d as nat);
}

/// Setting a period back after any number of ticks gives the period as it
/// was before it started.
pub proof fn lemma_reset_after_ticks(t: Timer, n: nat)
    ensures
        t.after(n).rewound() == Timer::fresh(t.initial_time),
{
    lemma_after(t, n);
}

/// The mode of a session: one of the two steady modes, or on the way to one
/// of them while the alarm is due.
#[derive(Debug, PartialEq, Eq)]
pub enum TimerType {
    Focus,
    Rest,
    Transitioning(Box<TimerType>),
}

impl TimerType {
    /// Focus or rest.
    pub open spec fn spec_is_steady(&self) -> bool {
        self is Focus || self is Rest
    }

    #[verifier::when_used_as_spec(spec_is_steady)]
    pub fn is_steady(&self) -> (b: bool)
        ensures
            b == self.spec_is_steady(),
    {
        match self {
            TimerType::Transitioning(_) => false,
            _ => true,
        }
    }

    /// A mode on the way leads to a steady mode, never to another one on the
    /// way.
    pub open spec fn spec_well_formed(&self) -> bool {
        self matches TimerType::Transitioning(next) ==> next.is_steady()
    }

    #[verifier::when_used_as_spec(spec_well_formed)]
    pub fn well_formed(&self) -> (b: bool)
        ensures
            b == self.spec_well_formed(),
    {
        match self {
            TimerType::Transitioning(next) => next.is_steady(),
            _ => true,
        }
    }

    /// The steady mode that follows a steady mode.
    pub open spec fn other(self) -> TimerType
        recommends
            self.is_steady(),
    {
        if self is Focus {
            TimerType::Rest
        } else {
            TimerType::Focus
        }
    }

    /// The steady mode whose period counts, or will count next.
    pub open spec fn target(self) -> TimerType
        recommends
            self.well_formed(),
    {
        match self {
            TimerType::Transitioning(next) => *next,
            _ => self,
        }
    }

    /// The name of the mode.
    pub open spec fn label(self) -> Seq<char>
        decreases self,
    {
        match self {
            TimerType::Focus => "Focus"@,
            TimerType::Rest => "Rest"@,
            TimerType::Transitioning(next) => "Transitioning("@ + next.label() + ")"@,
        }
    }

    pub fn to_string(&self) -> (s: String)
        requires
            self.well_formed(),
        ensures
            s@ == self.label(),
    {
        match self {
            TimerType::Focus => String::from_str("Focus"),
            TimerType::Rest => String::from_str("Rest"),
            TimerType::Transitioning(next) => {
                let inner = match &**next {
                    TimerType::Focus => "Focus",
                    TimerType::Rest => "Rest",
                    TimerType::Transitioning(_) => unreached(),
                };
                let mut r = String::from_str("Transitioning(");
                r.append(inner);
                r.append(")");
                proof {
                    reveal_with_fuel(TimerType::label, 2);
                }
                r
            },
        }
    }
}

impl Clone for TimerType {
    fn clone(&self) -> (r: Self)
        ensures
            r == *self,
        decreases self,
    {
        match self {
            TimerType::Focus => TimerType::Focus,
            TimerType::Rest => TimerType::Rest,
            TimerType::Transitioning(next) => TimerType::Transitioning(Box::new((&**next).clone())),
        }
    }
}

} // verus!
