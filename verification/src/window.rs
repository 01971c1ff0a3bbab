//! Fixed-window counter: counts events inside the current aligned window of
//! `window_secs` seconds and resets when time moves into a new window.

use vstd::prelude::*;

verus! {

/// Outcome of a checked increment.
#[derive(Debug, Clone, Copy, PartialEq, Eq, Structural)]
pub enum WindowCheck {
    Passed,
    Full { retry_after_secs: u64 },
}

/// The abstract state of a [`FixedWindowCounter`].
#[derive(Debug, Clone, Copy, PartialEq, Eq, Structural)]
pub struct WindowState {
    pub window_secs: u64,
    pub window_start: u64,
    pub count: u64,
}

/// Start of the aligned window that contains `now`.
pub open spec fn bucket_of(now: u64, window_secs: u64) -> int {
    (now as int / window_secs as int) * window_secs as int
}

impl WindowState {
    pub open spec fn wf(self) -> bool {
        self.window_secs > 0
    }

    /// The state after moving to the window that holds `now`: a stale
    /// window starts afresh with a zero count.
    pub open spec fn rolled(self, now: u64) -> WindowState {
        if bucket_of(now, self.window_secs) != self.window_start as int {
            WindowState {
                window_secs: self.window_secs,
                window_start: bucket_of(now, self.window_secs) as u64,
                count: 0,
            }
        } else {
            self
        }
    }

    /// Seconds until the window that starts at `window_start` ends, at least one.
    pub open spec fn retry_after(self, now: u64) -> u64 {
        let rem = self.window_secs.saturating_sub(now.saturating_sub(self.window_start));
        if rem >= 1 { rem } else { 1 }
    }

    /// What a checked increment of `delta` against `limit` leaves behind and returns.
    pub open spec fn checked(self, now: u64, delta: u64, limit: u64) -> (WindowState, WindowCheck) {
        let r = self.rolled(now);
        let would_be = r.count.saturating_add(delta);
        if would_be > limit {
            (r, WindowCheck::Full { retry_after_secs: r.retry_after(now) })
        } else {
            (WindowState { count: would_be, ..r }, WindowCheck::Passed)
        }
    }

    /// An unconditional increment (post-deduct usage).
    pub open spec fn added(self, now: u64, delta: u64) -> WindowState {
        let r = self.rolled(now);
        WindowState { count: r.count.saturating_add(delta), ..r }
    }

    /// A decrement that only touches the window holding `now`.
    pub open spec fn decremented(self, now: u64, delta: u64) -> WindowState {
        if bucket_of(now, self.window_secs) == self.window_start as int {
            WindowState { count: self.count.saturating_sub(delta), ..self }
        } else {
            self
        }
    }

    /// The answer of `is_exceeded`.
    pub open spec fn exceeded(self, now: u64, limit: u64) -> Option<u64> {
        let r = self.rolled(now);
        if r.count > limit {
            Some(r.retry_after(now))
        } else {
            None
        }
    }
}

proof fn lemma_bucket_bounds(now: u64, w: u64)
    requires
        w > 0,
    ensures
        0 <= bucket_of(now, w) <= now,
        now < bucket_of(now, w) + w,
{
    vstd::arithmetic::div_mod::lemma_fundamental_div_mod(now as int, w as int);
    vstd::arithmetic::div_mod::lemma_remainder_lower(now as int, w as int);
    vstd::arithmetic::div_mod::lemma_div_pos_is_pos(now as int, w as int);
    assert(0 <= (now as int / w as int) * w as int) by (nonlinear_arith)
        requires
            now as int / w as int >= 0,
            w > 0,
    ;
    assert((now as int % w as int) < (w as int));
}

/// A checked increment never leaves the count above the limit when it
/// succeeds, and a refused one leaves the count as rolling left it.
pub proof fn lemma_checked_respects_limit(s: WindowState, now: u64, delta: u64, limit: u64)
    ensures
        s.checked(now, delta, limit).1 == WindowCheck::Passed ==> s.checked(now, delta, limit).0.count <= limit,
        s.checked(now, delta, limit).1 != WindowCheck::Passed ==> s.checked(now, delta, limit).0 == s.rolled(now),
{
}

/// The wait that a full window reports lies between one second and the
/// window length.
pub proof fn lemma_retry_after_bounds(s: WindowState, now: u64)
    requires
        s.wf(),
    ensures
        1 <= s.rolled(now).retry_after(now) <= s.window_secs,
{
}

/// Decrementing in the same window takes back exactly an accepted increment
/// (when the increment did not saturate).
pub proof fn lemma_decrement_undoes_increment(s: WindowState, now: u64, delta: u64, limit: u64)
    requires
        s.wf(),
        s.checked(now, delta, limit).1 == WindowCheck::Passed,
        s.rolled(now).count + delta <= u64::MAX,
    ensures
        s.checked(now, delta, limit).0.decremented(now, delta) == s.rolled(now),
{
    lemma_bucket_bounds(now, s.window_secs);
}

/// Moving into another window starts the count at zero, and a check of zero
/// is a pure peek: it passes and changes nothing beyond rolling.
pub proof fn lemma_rollover_and_peek(s: WindowState, now: u64, limit: u64)
    requires
        s.wf(),
    ensures
        bucket_of(now, s.window_secs) != s.window_start ==> s.rolled(now).count == 0,
        s.rolled(now).count <= limit ==> s.checked(now, 0, limit) == (s.rolled(now), WindowCheck::Passed),
        s.rolled(now).rolled(now) == s.rolled(now),
{
    lemma_bucket_bounds(now, s.window_secs);
}

/// What is added at `now` stays counted by a read at `now`: the window it
/// lands in is the one that holds `now`.
pub proof fn lemma_added_stays_current(s: WindowState, now: u64, delta: u64)
    requires
        s.wf(),
    ensures
        s.added(now, delta).rolled(now) == s.added(now, delta),
        s.added(now, delta).count == s.rolled(now).count.saturating_add(delta),
{
    lemma_bucket_bounds(now, s.window_secs);
}

/// A counter of events in fixed, aligned windows of `window_secs` seconds.
#[derive(Debug, Clone, Copy)]
pub struct FixedWindowCounter {
    window_secs: u64,
    window_start: u64,
    count: u64,
}

impl View for FixedWindowCounter {
    type V = WindowState;

    closed spec fn view(&self) -> WindowState {
        WindowState { window_secs: self.window_secs, window_start: self.window_start, count: self.count }
    }
}

impl FixedWindowCounter {
    pub open spec fn wf(&self) -> bool {
        self@.wf()
    }

    /// A fresh counter; the window length must be positive.
    pub fn new(window_secs: u64) -> (w: FixedWindowCounter)
        requires
            window_secs > 0,
        ensures
            w@ == (WindowState { window_secs, window_start: 0, count: 0 }),
            w.wf(),
    {
        FixedWindowCounter { window_secs, window_start: 0, count: 0 }
    }

    pub fn window_secs(&self) -> (r: u64)
        ensures
            r == self@.window_secs,
    {
        self.window_secs
    }

    fn bucket_start(&self, now_secs: u64) -> (b: u64)
        requires
            self.wf(),
        ensures
            b == bucket_of(now_secs, self@.window_secs),
    {
        proof {
            lemma_bucket_bounds(now_secs, self.window_secs);
        }
        (now_secs / self.window_secs) * self.window_secs
    }

    fn roll_if_stale(&mut self, now_secs: u64)
        requires
            old(self).wf(),
        ensures
            final(self)@ == old(self)@.rolled(now_secs),
    {
        let bucket_start = self.bucket_start(now_secs);
        if bucket_start != self.window_start {
            self.window_start = bucket_start;
            self.count = 0;
        }
    }

    fn retry_after(&self, now_secs: u64) -> (r: u64)
        ensures
            r == self@.retry_after(now_secs),
    {
        let remainder = self.window_secs.saturating_sub(now_secs.saturating_sub(self.window_start));
        if remainder >= 1 {
            remainder
        } else {
            1
        }
    }

    /// Adds `delta` if the rolled count stays within `limit`; otherwise
    /// leaves the (rolled) count alone and says how long to wait.
    pub fn check_and_increment(&mut self, now_secs: u64, delta: u64, limit: u64) -> (res: WindowCheck)
        requires
            old(self).wf(),
        ensures
            (final(self)@, res) == old(self)@.checked(now_secs, delta, limit),
            final(self).wf(),
    {
        self.roll_if_stale(now_secs);
        let would_be = self.count.saturating_add(delta);
        if would_be > limit {
            return WindowCheck::Full { retry_after_secs: self.retry_after(now_secs) };
        }
        self.count = would_be;
        WindowCheck::Passed
    }

    /// Records `delta` unconditionally in the current window.
    pub fn add(&mut self, now_secs: u64, delta: u64)
        requires
            old(self).wf(),
        ensures
            final(self)@ == old(self)@.added(now_secs, delta),
            final(self).wf(),
    {
        self.roll_if_stale(now_secs);
        self.count = self.count.saturating_add(delta);
    }

    /// Takes back `delta` if `now` still lies in the counter's window.
    pub fn decrement(&mut self, now_secs: u64, delta: u64)
        requires
            old(self).wf(),
        ensures
            final(self)@ == old(self)@.decremented(now_secs, delta),
            final(self).wf(),
    {
        let bucket_start = self.bucket_start(now_secs);
        if bucket_start == self.window_start {
            self.count = self.count.saturating_sub(delta);
        }
    }

    /// The count of the window that holds `now`.
    pub fn current(&mut self, now_secs: u64) -> (c: u64)
        requires
            old(self).wf(),
        ensures
            final(self)@ == old(self)@.rolled(now_secs),
            c == final(self)@.count,
            final(self).wf(),
    {
        self.roll_if_stale(now_secs);
        self.count
    }

    /// `Some(retry)` when the count of the window that holds `now` is above `limit`.
    pub fn is_exceeded(&mut self, now_secs: u64, limit: u64) -> (res: Option<u64>)
        requires
            old(self).wf(),
        ensures
            final(self)@ == old(self)@.rolled(now_secs),
            res == old(self)@.exceeded(now_secs, limit),
            final(self).wf(),
    {
        self.roll_if_stale(now_secs);
        if self.count > limit {
            Some(self.retry_after(now_secs))
        } else {
            None
        }
    }
}

} // verus!
