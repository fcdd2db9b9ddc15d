//! Clocks at two resolutions, and sleeps longer than the timer behind a
//! clock can wait in one go.

use vstd::prelude::*;

verus! {

/// The longest wait, in ticks, that the timer behind a clock takes at once.
pub const MAX_WAIT: u32 = 0xffff_ffff;

/// Nanoseconds in a second.
pub const NANOS_PER_SEC: u32 = 1_000_000_000;

/// A monotonic clock. The two clocks count in different ticks, and ticks of
/// one are never taken for ticks of the other: every sleep carries its clock.
#[derive(Clone, Copy, Debug, PartialEq, Eq, Structural)]
pub enum Clock {
    /// The coarse clock: one tick each second.
    Seconds,
    /// The fine clock: one tick each millisecond.
    Milliseconds,
}

/// Why a duration cannot be slept on a clock.
#[derive(Clone, Copy, Debug, PartialEq, Eq, Structural)]
pub enum DurationError {
    /// The nanoseconds beside the seconds reach a full second.
    NanosOutOfRange,
    /// The duration is more ticks of the clock than 64 bits count.
    TooLong,
}

/// The ticks per second of `clock`.
pub open spec fn hz_of(clock: Clock) -> nat {
    match clock {
        Clock::Seconds => 1,
        Clock::Milliseconds => 1000,
    }
}

/// The duration of `secs` seconds and `nanos` nanoseconds, in nanoseconds.
pub open spec fn nanos_of(secs: nat, nanos: nat) -> nat {
    secs * 1_000_000_000 + nanos
}

/// The least number of ticks at `hz` ticks per second that last at least
/// `total_nanos` nanoseconds.
pub open spec fn ticks_covering(total_nanos: nat, hz: nat) -> nat {
    ((total_nanos * hz + 999_999_999) / 1_000_000_000) as nat
}

/// The single waits into which a sleep of `ticks` ticks is cut: full waits of
/// `MAX_WAIT` ticks while more than that is left, then what is left.
pub open spec fn waits(ticks: nat) -> Seq<nat>
    decreases ticks,
{
    if ticks == 0 {
        Seq::empty()
    } else if ticks > MAX_WAIT {
        seq![MAX_WAIT as nat] + waits((ticks - MAX_WAIT) as nat)
    } else {
        seq![ticks]
    }
}

/// The sum of a sequence of waits.
pub open spec fn total(waits: Seq<nat>) -> nat
    decreases waits.len(),
{
    if waits.len() == 0 {
        0
    } else {
        waits[0] + total(waits.skip(1))
    }
}

/// The waits of a sleep add up to the ticks asked for, neither fewer nor
/// more; each is at least one tick and at most `MAX_WAIT`; and there are as
/// few of them as that bound allows.
pub proof fn lemma_waits_cover(ticks: nat)
    ensures
        total(waits(ticks)) == ticks,
        forall|i: int| 0 <= i < waits(ticks).len() ==> 1 <= (#[trigger] waits(ticks)[i]) <= MAX_WAIT,
        waits(ticks).len() == (ticks + MAX_WAIT - 1) / (MAX_WAIT as int),
    decreases ticks,
{
    if ticks == 0 {
    } else if ticks > MAX_WAIT {
        let rest = waits((ticks - MAX_WAIT) as nat);
        lemma_waits_cover((ticks - MAX_WAIT) as nat);
        let all = waits(ticks);
        assert(all.skip(1) =~= rest);
        assert forall|i: int| 0 <= i < all.len() implies 1 <= (#[trigger] all[i]) <= MAX_WAIT by {}
        assert((ticks + MAX_WAIT - 1) / (MAX_WAIT as int) == (ticks - MAX_WAIT + MAX_WAIT - 1) / (
        MAX_WAIT as int) + 1) by (nonlinear_arith)
            requires
                ticks > MAX_WAIT,
                MAX_WAIT == 0xffff_ffff,
        ;
    } else {
        let all = waits(ticks);
        assert(total(all.skip(1)) == 0);
        assert((ticks + MAX_WAIT - 1) / (MAX_WAIT as int) == 1) by (nonlinear_arith)
            requires
                0 < ticks <= MAX_WAIT,
                MAX_WAIT == 0xffff_ffff,
        ;
    }
}

/// `ticks_covering` rounds up: its ticks last at least the duration, and one
/// tick fewer would fall short of it.
pub proof fn lemma_ticks_cover_duration(total_nanos: nat, hz: nat)
    ensures
        ticks_covering(total_nanos, hz) * 1_000_000_000 >= total_nanos * hz,
        ticks_covering(total_nanos, hz) > 0 ==> (ticks_covering(total_nanos, hz) - 1)
            * 1_000_000_000 < total_nanos * hz,
        ticks_covering(total_nanos, hz) == 0 <==> total_nanos * hz == 0,
{
    let product = total_nanos * hz;
    assert(product >= 0) by (nonlinear_arith)
        requires
            product == total_nanos * hz,
    ;
    let t = (product + 999_999_999) / 1_000_000_000;
    assert(t * 1_000_000_000 <= product + 999_999_999 < (t + 1) * 1_000_000_000)
        by (nonlinear_arith)
        requires
            product >= 0,
            t == (product + 999_999_999) / 1_000_000_000,
    ;
}

impl Clock {
    /// The coarse clock.
    pub fn sec() -> (r: Clock)
        ensures
            r == Clock::Seconds,
    {
        Clock::Seconds
    }

    /// The fine clock.
    pub fn msec() -> (r: Clock)
        ensures
            r == Clock::Milliseconds,
    {
        Clock::Milliseconds
    }

    /// The ticks per second of the clock.
    pub fn hz(&self) -> (r: u32)
        ensures
            r == hz_of(*self),
    {
        match self {
            Clock::Seconds => 1,
            Clock::Milliseconds => 1000,
        }
    }

    /// The ticks of this clock that a sleep of `secs` seconds and
    /// `subsec_nanos` nanoseconds takes, rounded up to whole ticks.
    pub fn ticks_for(&self, secs: u64, subsec_nanos: u32) -> (r: Result<u64, DurationError>)
        ensures
            subsec_nanos >= NANOS_PER_SEC ==> r == Err::<u64, DurationError>(
                DurationError::NanosOutOfRange,
            ),
            subsec_nanos < NANOS_PER_SEC && ticks_covering(
                nanos_of(secs as nat, subsec_nanos as nat),
                hz_of(*self),
            ) > u64::MAX ==> r == Err::<u64, DurationError>(DurationError::TooLong),
            subsec_nanos < NANOS_PER_SEC && ticks_covering(
                nanos_of(secs as nat, subsec_nanos as nat),
                hz_of(*self),
            ) <= u64::MAX ==> r == Ok::<u64, DurationError>(
                ticks_covering(nanos_of(secs as nat, subsec_nanos as nat), hz_of(*self)) as u64,
            ),
    {
        if subsec_nanos >= NANOS_PER_SEC {
            return Err(DurationError::NanosOutOfRange);
        }
        let hz: u128 = self.hz() as u128;
        let whole: u128 = secs as u128 * 1_000_000_000u128 + subsec_nanos as u128;
        assert(whole * hz <= 0xffff_ffff_ffff_ffff_ffff_ffff_ffff) by (nonlinear_arith)
            requires
                whole <= 0xffff_ffff_ffff_ffff * 1_000_000_000 + 1_000_000_000,
                hz <= 1000,
        ;
        let ticks: u128 = (whole * hz + 999_999_999u128) / 1_000_000_000u128;
        if ticks > u64::MAX as u128 {
            Err(DurationError::TooLong)
        } else {
            Ok(ticks as u64)
        }
    }

    /// Plans a sleep of `secs` seconds and `subsec_nanos` nanoseconds on this
    /// clock. The sleep may be longer than the timer can wait at once: the
    /// plan hands out the single waits one by one.
    pub fn sleep_extended(&self, secs: u64, subsec_nanos: u32) -> (r: Result<
        ExtendedSleep,
        DurationError,
    >)
        ensures
            r is Ok <==> self.ticks_for_spec(secs, subsec_nanos) is Ok,
            r is Ok ==> r->Ok_0.clock() == *self && r->Ok_0.remaining()
                == self.ticks_for_spec(secs, subsec_nanos)->Ok_0,
            r is Err ==> r->Err_0 == self.ticks_for_spec(secs, subsec_nanos)->Err_0,
    {
        match self.ticks_for(secs, subsec_nanos) {
            Ok(ticks) => Ok(ExtendedSleep { clock: *self, left: ticks }),
            Err(e) => Err(e),
        }
    }

    /// What `ticks_for` returns.
    pub open spec fn ticks_for_spec(&self, secs: u64, subsec_nanos: u32) -> Result<
        u64,
        DurationError,
    > {
        let ticks = ticks_covering(nanos_of(secs as nat, subsec_nanos as nat), hz_of(*self));
        if subsec_nanos >= NANOS_PER_SEC {
            Err(DurationError::NanosOutOfRange)
        } else if ticks > u64::MAX {
            Err(DurationError::TooLong)
        } else {
            Ok(ticks as u64)
        }
    }

    /// Plans a sleep of `ticks` ticks of this clock.
    pub fn sleep_ticks(&self, ticks: u64) -> (r: ExtendedSleep)
        ensures
            r.clock() == *self,
            r.remaining() == ticks,
    {
        ExtendedSleep { clock: *self, left: ticks }
    }
}

/// A sleep in progress: the clock it runs on and the ticks still to wait.
#[derive(Clone, Copy, Debug, PartialEq, Eq)]
pub struct ExtendedSleep {
    clock: Clock,
    left: u64,
}

impl ExtendedSleep {
    /// The clock of the sleep.
    pub closed spec fn clock(&self) -> Clock {
        self.clock
    }

    /// The ticks still to wait.
    pub closed spec fn remaining(&self) -> nat {
        self.left as nat
    }

    /// The clock on which the waits are to be made.
    pub fn on_clock(&self) -> (r: Clock)
        ensures
            r == self.clock(),
    {
        self.clock
    }

    /// The ticks still to wait.
    pub fn ticks_left(&self) -> (r: u64)
        ensures
            r == self.remaining(),
    {
        self.left
    }

    /// Whether every tick has been waited for.
    pub fn is_done(&self) -> (r: bool)
        ensures
            r == (self.remaining() == 0),
    {
        self.left == 0
    }

    /// The next single wait, in ticks of the sleep's clock; `None` when the
    /// whole sleep has been handed out. The caller waits that long on the
    /// timer and asks again.
    pub fn next_wait(&mut self) -> (r: Option<u32>)
        ensures
            final(self).clock() == old(self).clock(),
            r is None <==> old(self).remaining() == 0,
            r is None ==> final(self).remaining() == 0,
            r is Some ==> r->0 == (if old(self).remaining() > MAX_WAIT {
                MAX_WAIT as nat
            } else {
                old(self).remaining()
            }),
            r is Some ==> final(self).remaining() + r->0 == old(self).remaining(),
            r is Some ==> waits(old(self).remaining()) == seq![r->0 as nat] + waits(
                final(self).remaining(),
            ),
    {
        if self.left == 0 {
            None
        } else if self.left > MAX_WAIT as u64 {
            self.left = self.left - MAX_WAIT as u64;
            Some(MAX_WAIT)
        } else {
            let last: u32 = self.left as u32;
            self.left = 0;
            Some(last)
        }
    }
}

} // verus!
