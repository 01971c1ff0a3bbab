//! Per-key rate-limit state and the in-process store that holds it.
//!
//! A request is admitted in two phases: `acquire` checks the concurrency
//! cap, checks (without adding) the token windows and increments the
//! request windows, undoing its own increments when a later request window
//! refuses; `commit` then adds the tokens actually used and frees the slot.

use vstd::prelude::*;
use crate::clock::{Clock, SystemClock};
use crate::models::RateLimitConfig;
use dashmap::DashMap;
use crate::window::{FixedWindowCounter, WindowCheck, WindowState};

verus! {

pub const SECOND_SECS: u64 = 1;
pub const MINUTE_SECS: u64 = 60;
pub const HOUR_SECS: u64 = 3600;
pub const DAY_SECS: u64 = 86400;

/// Which budget refused a request.
#[derive(Debug, Clone, Copy, PartialEq, Eq, Structural)]
pub enum RateLimitScope {
    Requests,
    Tokens,
}

/// Why a request was refused.
#[derive(Debug, Clone, Copy, PartialEq, Eq, Structural)]
pub enum RateLimitError {
    Concurrency,
    Requests { scope: RateLimitScope, retry_after_secs: u64 },
    Tokens { scope: RateLimitScope, retry_after_secs: u64 },
}

/// A limit dimension that is switched on.
#[derive(Debug, Clone, Copy)]
pub struct Dim {
    pub name: &'static str,
    pub window_secs: u64,
    pub limit: u64,
}

/// The dimension `(name, window, limit)` when its limit is set, else nothing.
pub open spec fn opt_dim(name: Seq<char>, window_secs: u64, limit: Option<u64>) -> Seq<(Seq<char>, u64, u64)> {
    match limit {
        Some(l) => seq![(name, window_secs, l)],
        None => Seq::empty(),
    }
}

pub open spec fn dims_view(d: Seq<Dim>) -> Seq<(Seq<char>, u64, u64)> {
    d.map_values(|x: Dim| (x.name@, x.window_secs, x.limit))
}

fn push_dim(v: &mut Vec<Dim>, name: &'static str, window_secs: u64, limit: Option<u64>)
    ensures
        dims_view(final(v)@) == dims_view(old(v)@) + opt_dim(name@, window_secs, limit),
{
    if let Some(l) = limit {
        v.push(Dim { name, window_secs, limit: l });
    }
    assert(dims_view(final(v)@) =~= dims_view(old(v)@) + opt_dim(name@, window_secs, limit));
}

/// The request dimensions that are on, in the order rps, rpm, rph, rpd.
pub fn request_dims(limits: &RateLimitConfig) -> (d: Vec<Dim>)
    ensures
        dims_view(d@) == opt_dim("rps"@, 1, limits.rps) + opt_dim("rpm"@, 60, limits.rpm) + opt_dim(
            "rph"@,
            3600,
            limits.rph,
        ) + opt_dim("rpd"@, 86400, limits.rpd),
{
    let mut v: Vec<Dim> = Vec::new();
    assert(dims_view(v@) =~= Seq::empty());
    push_dim(&mut v, "rps", SECOND_SECS, limits.rps);
    push_dim(&mut v, "rpm", MINUTE_SECS, limits.rpm);
    push_dim(&mut v, "rph", HOUR_SECS, limits.rph);
    push_dim(&mut v, "rpd", DAY_SECS, limits.rpd);
    assert(dims_view(v@) =~= opt_dim("rps"@, 1, limits.rps) + opt_dim("rpm"@, 60, limits.rpm) + opt_dim(
        "rph"@,
        3600,
        limits.rph,
    ) + opt_dim("rpd"@, 86400, limits.rpd));
    v
}

/// The token dimensions that are on, in the order tpm, tpd.
pub fn token_dims(limits: &RateLimitConfig) -> (d: Vec<Dim>)
    ensures
        dims_view(d@) == opt_dim("tpm"@, 60, limits.tpm) + opt_dim("tpd"@, 86400, limits.tpd),
{
    let mut v: Vec<Dim> = Vec::new();
    assert(dims_view(v@) =~= Seq::empty());
    push_dim(&mut v, "tpm", MINUTE_SECS, limits.tpm);
    push_dim(&mut v, "tpd", DAY_SECS, limits.tpd);
    assert(dims_view(v@) =~= opt_dim("tpm"@, 60, limits.tpm) + opt_dim("tpd"@, 86400, limits.tpd));
    v
}

/// The abstract state of one key: six windows and the in-flight count.
#[derive(Debug, Clone, Copy, PartialEq, Eq, Structural)]
pub struct KeyView {
    pub rps: WindowState,
    pub rpm: WindowState,
    pub rph: WindowState,
    pub rpd: WindowState,
    pub tpm: WindowState,
    pub tpd: WindowState,
    pub in_flight: u32,
}

pub open spec fn fresh_window(window_secs: u64) -> WindowState {
    WindowState { window_secs, window_start: 0, count: 0 }
}

impl KeyView {
    /// The state of a key nobody has used yet.
    pub open spec fn fresh() -> KeyView {
        KeyView {
            rps: fresh_window(1),
            rpm: fresh_window(60),
            rph: fresh_window(3600),
            rpd: fresh_window(86400),
            tpm: fresh_window(60),
            tpd: fresh_window(86400),
            in_flight: 0,
        }
    }

    pub open spec fn wf(self) -> bool {
        &&& self.rps.window_secs == 1
        &&& self.rpm.window_secs == 60
        &&& self.rph.window_secs == 3600
        &&& self.rpd.window_secs == 86400
        &&& self.tpm.window_secs == 60
        &&& self.tpd.window_secs == 86400
    }
}

/// A token window checked (without adding) against an optional limit.
pub open spec fn exceeded_opt(w: WindowState, limit: Option<u64>, now: u64) -> (WindowState, Option<u64>) {
    match limit {
        Some(m) => (w.rolled(now), w.exceeded(now, m)),
        None => (w, None),
    }
}

/// A request window incremented by one against an optional limit;
/// `Some(retry)` when it is full.
pub open spec fn checked_opt(w: WindowState, limit: Option<u64>, now: u64) -> (WindowState, Option<u64>) {
    match limit {
        Some(m) => {
            let (w2, c) = w.checked(now, 1, m);
            (
                w2,
                match c {
                    WindowCheck::Passed => None,
                    WindowCheck::Full { retry_after_secs } => Some(retry_after_secs),
                },
            )
        },
        None => (w, None),
    }
}

/// Takes back an increment that `checked_opt` made.
pub open spec fn undo_opt(w: WindowState, limit: Option<u64>, now: u64) -> WindowState {
    if limit is Some {
        w.decremented(now, 1)
    } else {
        w
    }
}

pub open spec fn too_many_requests(retry: u64) -> RateLimitError {
    RateLimitError::Requests { scope: RateLimitScope::Requests, retry_after_secs: retry }
}

pub open spec fn too_many_tokens(retry: u64) -> RateLimitError {
    RateLimitError::Tokens { scope: RateLimitScope::Tokens, retry_after_secs: retry }
}

/// The pre-commit decision for one key at time `now`, and the state it leaves.
pub open spec fn acquire_spec(s: KeyView, l: RateLimitConfig, now: u64) -> (KeyView, Result<(), RateLimitError>) {
    if l.concurrency is Some && s.in_flight >= l.concurrency->0 {
        (s, Err(RateLimitError::Concurrency))
    } else {
        let (tpm, e1) = exceeded_opt(s.tpm, l.tpm, now);
        let s1 = KeyView { tpm, ..s };
        if e1 is Some {
            (s1, Err(too_many_tokens(e1->0)))
        } else {
            let (tpd, e2) = exceeded_opt(s1.tpd, l.tpd, now);
            let s2 = KeyView { tpd, ..s1 };
            if e2 is Some {
                (s2, Err(too_many_tokens(e2->0)))
            } else {
                let (rps, r1) = checked_opt(s2.rps, l.rps, now);
                let s3 = KeyView { rps, ..s2 };
                if r1 is Some {
                    (s3, Err(too_many_requests(r1->0)))
                } else {
                    let (rpm, r2) = checked_opt(s3.rpm, l.rpm, now);
                    let s4 = KeyView { rpm, ..s3 };
                    if r2 is Some {
                        (KeyView { rps: undo_opt(s4.rps, l.rps, now), ..s4 }, Err(too_many_requests(r2->0)))
                    } else {
                        let (rph, r3) = checked_opt(s4.rph, l.rph, now);
                        let s5 = KeyView { rph, ..s4 };
                        if r3 is Some {
                            (
                                KeyView {
                                    rpm: undo_opt(s5.rpm, l.rpm, now),
                                    rps: undo_opt(s5.rps, l.rps, now),
                                    ..s5
                                },
                                Err(too_many_requests(r3->0)),
                            )
                        } else {
                            let (rpd, r4) = checked_opt(s5.rpd, l.rpd, now);
                            let s6 = KeyView { rpd, ..s5 };
                            if r4 is Some {
                                (
                                    KeyView {
                                        rph: undo_opt(s6.rph, l.rph, now),
                                        rpm: undo_opt(s6.rpm, l.rpm, now),
                                        rps: undo_opt(s6.rps, l.rps, now),
                                        ..s6
                                    },
                                    Err(too_many_requests(r4->0)),
                                )
                            } else {
                                (KeyView { in_flight: (s6.in_flight + 1) as u32, ..s6 }, Ok(()))
                            }
                        }
                    }
                }
            }
        }
    }
}

/// The post-deduct commit: tokens go to both token windows and the slot is freed.
pub open spec fn commit_spec(s: KeyView, tokens: u64, now: u64) -> KeyView {
    KeyView {
        tpm: s.tpm.added(now, tokens),
        tpd: s.tpd.added(now, tokens),
        in_flight: s.in_flight.saturating_sub(1),
        ..s
    }
}

/// Tokens recorded after a stream finished; the slot is not touched.
pub open spec fn add_tokens_spec(s: KeyView, tokens: u64, now: u64) -> KeyView {
    KeyView { tpm: s.tpm.added(now, tokens), tpd: s.tpd.added(now, tokens), ..s }
}

/// A snapshot of a key's minute windows and concurrency.
#[derive(Debug, Clone, Copy, PartialEq, Eq, Structural)]
pub struct RateLimitStatus {
    pub rpm_limit: Option<u64>,
    pub rpm_used: u64,
    pub rpm_reset_secs: u64,
    pub tpm_limit: Option<u64>,
    pub tpm_used: u64,
    pub tpm_reset_secs: u64,
    pub concurrency_limit: Option<u32>,
    pub in_flight: u32,
}

impl RateLimitStatus {
    /// Requests left in the minute, when the minute is limited.
    pub fn rpm_remaining(&self) -> (r: Option<u64>)
        ensures
            r == match self.rpm_limit {
                Some(lim) => Some(lim.saturating_sub(self.rpm_used)),
                None => None,
            },
    {
        match self.rpm_limit {
            Some(lim) => Some(lim.saturating_sub(self.rpm_used)),
            None => None,
        }
    }

    /// Tokens left in the minute, when the minute is limited.
    pub fn tpm_remaining(&self) -> (r: Option<u64>)
        ensures
            r == match self.tpm_limit {
                Some(lim) => Some(lim.saturating_sub(self.tpm_used)),
                None => None,
            },
    {
        match self.tpm_limit {
            Some(lim) => Some(lim.saturating_sub(self.tpm_used)),
            None => None,
        }
    }
}

/// What `peek` reports of a key and the state it leaves (the minute windows rolled).
pub open spec fn peek_spec(s: KeyView, l: RateLimitConfig, now: u64) -> (KeyView, RateLimitStatus) {
    let rpm = s.rpm.rolled(now);
    let tpm = s.tpm.rolled(now);
    let reset = (60 - now % 60) as u64;
    (
        KeyView { rpm, tpm, ..s },
        RateLimitStatus {
            rpm_limit: l.rpm,
            rpm_used: rpm.count,
            rpm_reset_secs: reset,
            tpm_limit: l.tpm,
            tpm_used: tpm.count,
            tpm_reset_secs: reset,
            concurrency_limit: l.concurrency,
            in_flight: s.in_flight,
        },
    )
}

/// The counters of one key.
#[derive(Debug, Clone, Copy)]
pub struct KeyState {
    rps: FixedWindowCounter,
    rpm: FixedWindowCounter,
    rph: FixedWindowCounter,
    rpd: FixedWindowCounter,
    tpm: FixedWindowCounter,
    tpd: FixedWindowCounter,
    in_flight: u32,
}

impl View for KeyState {
    type V = KeyView;

    closed spec fn view(&self) -> KeyView {
        KeyView {
            rps: self.rps@,
            rpm: self.rpm@,
            rph: self.rph@,
            rpd: self.rpd@,
            tpm: self.tpm@,
            tpd: self.tpd@,
            in_flight: self.in_flight,
        }
    }
}

impl KeyState {
    fn new() -> (s: KeyState)
        ensures
            s@ == KeyView::fresh(),
    {
        KeyState {
            rps: FixedWindowCounter::new(SECOND_SECS),
            rpm: FixedWindowCounter::new(MINUTE_SECS),
            rph: FixedWindowCounter::new(HOUR_SECS),
            rpd: FixedWindowCounter::new(DAY_SECS),
            tpm: FixedWindowCounter::new(MINUTE_SECS),
            tpd: FixedWindowCounter::new(DAY_SECS),
            in_flight: 0,
        }
    }

    fn acquire(&mut self, limits: &RateLimitConfig, now: u64) -> (r: Result<(), RateLimitError>)
        requires
            old(self)@.wf(),
            limits.concurrency is None ==> old(self)@.in_flight < u32::MAX,
        ensures
            (final(self)@, r) == acquire_spec(old(self)@, *limits, now),
    {
        if let Some(max) = limits.concurrency {
            if self.in_flight >= max {
                return Err(RateLimitError::Concurrency);
            }
        }
        if let Some(max) = limits.tpm {
            if let Some(retry) = self.tpm.is_exceeded(now, max) {
                return Err(RateLimitError::Tokens { scope: RateLimitScope::Tokens, retry_after_secs: retry });
            }
        }
        if let Some(max) = limits.tpd {
            if let Some(retry) = self.tpd.is_exceeded(now, max) {
                return Err(RateLimitError::Tokens { scope: RateLimitScope::Tokens, retry_after_secs: retry });
            }
        }
        let mut rps_incremented = false;
        if let Some(max) = limits.rps {
            if let WindowCheck::Full { retry_after_secs } = self.rps.check_and_increment(now, 1, max) {
                return Err(RateLimitError::Requests { scope: RateLimitScope::Requests, retry_after_secs });
            }
            rps_incremented = true;
        }
        let mut rpm_incremented = false;
        if let Some(max) = limits.rpm {
            if let WindowCheck::Full { retry_after_secs } = self.rpm.check_and_increment(now, 1, max) {
                if rps_incremented {
                    self.rps.decrement(now, 1);
                }
                return Err(RateLimitError::Requests { scope: RateLimitScope::Requests, retry_after_secs });
            }
            rpm_incremented = true;
        }
        let mut rph_incremented = false;
        if let Some(max) = limits.rph {
            if let WindowCheck::Full { retry_after_secs } = self.rph.check_and_increment(now, 1, max) {
                if rpm_incremented {
                    self.rpm.decrement(now, 1);
                }
                if rps_incremented {
                    self.rps.decrement(now, 1);
                }
                return Err(RateLimitError::Requests { scope: RateLimitScope::Requests, retry_after_secs });
            }
            rph_incremented = true;
        }
        if let Some(max) = limits.rpd {
            if let WindowCheck::Full { retry_after_secs } = self.rpd.check_and_increment(now, 1, max) {
                if rph_incremented {
                    self.rph.decrement(now, 1);
                }
                if rpm_incremented {
                    self.rpm.decrement(now, 1);
                }
                if rps_incremented {
                    self.rps.decrement(now, 1);
                }
                return Err(RateLimitError::Requests { scope: RateLimitScope::Requests, retry_after_secs });
            }
        }
        self.in_flight = self.in_flight + 1;
        Ok(())
    }
}

/// A backend that keeps rate-limit state per key.
pub trait RateStore {
    /// The store's own consistency condition.
    spec fn store_wf(&self) -> bool;

    /// The in-flight count the store holds for `key`.
    spec fn in_flight_of(&self, key: Seq<char>) -> u32;

    fn acquire(&mut self, key: &str, limits: &RateLimitConfig, member: &str) -> (r: Result<(), RateLimitError>)
        requires
            old(self).store_wf(),
            limits.concurrency is None ==> old(self).in_flight_of(key@) < u32::MAX,
        ensures
            final(self).store_wf(),
    ;

    fn commit(&mut self, key: &str, tokens: u64, member: &str)
        requires
            old(self).store_wf(),
        ensures
            final(self).store_wf(),
    ;

    fn release(&mut self, key: &str, member: &str)
        requires
            old(self).store_wf(),
        ensures
            final(self).store_wf(),
    ;

    fn add_tokens(&mut self, key: &str, tokens: u64)
        requires
            old(self).store_wf(),
        ensures
            final(self).store_wf(),
    ;

    fn peek(&mut self, key: &str, limits: &RateLimitConfig) -> (r: Option<RateLimitStatus>)
        requires
            old(self).store_wf(),
        ensures
            final(self).store_wf(),
    ;
}

/// The key map after `add_tokens` at time `now`.
pub open spec fn added_tokens_map(m: Map<Seq<char>, KeyView>, key: Seq<char>, tokens: u64, now: u64) -> Map<
    Seq<char>,
    KeyView,
> {
    if tokens == 0 {
        m
    } else {
        let s = if m.dom().contains(key) { m[key] } else { KeyView::fresh() };
        m.insert(key, add_tokens_spec(s, tokens, now))
    }
}

/// The key map and answer of `peek` at time `now`.
pub open spec fn peeked(m: Map<Seq<char>, KeyView>, key: Seq<char>, l: RateLimitConfig, now: u64) -> (
    Map<Seq<char>, KeyView>,
    Option<RateLimitStatus>,
) {
    if m.dom().contains(key) {
        (m.insert(key, peek_spec(m[key], l, now).0), Some(peek_spec(m[key], l, now).1))
    } else {
        (m, None)
    }
}

/// The state of `k` in `m`; a key never seen is fresh.
pub open spec fn state_in(m: Map<Seq<char>, KeyView>, k: Seq<char>) -> KeyView {
    if m.dom().contains(k) {
        m[k]
    } else {
        KeyView::fresh()
    }
}

/// Every state in `m` is well formed.
pub open spec fn all_wf(m: Map<Seq<char>, KeyView>) -> bool {
    forall|k: Seq<char>| #[trigger] m.dom().contains(k) ==> m[k].wf()
}

/// The counts a status shows: requests and tokens in the minute, and the
/// slots in use; a key never seen shows none.
pub open spec fn shown_counts(o: Option<RateLimitStatus>) -> (u64, u64, u32) {
    match o {
        Some(st) => (st.rpm_used, st.tpm_used, st.in_flight),
        None => (0, 0, 0),
    }
}

/// Whether a key in state `s` may take one more request under `l` at time
/// `now`: a free slot under a set concurrency cap, no set token limit passed
/// in its current window, and room for one more request in every set
/// request window. Unset limits never refuse.
pub open spec fn within_limits(s: KeyView, l: RateLimitConfig, now: u64) -> bool {
    &&& (l.concurrency matches Some(c) ==> s.in_flight < c)
    &&& (l.tpm matches Some(m) ==> s.tpm.rolled(now).count <= m)
    &&& (l.tpd matches Some(m) ==> s.tpd.rolled(now).count <= m)
    &&& (l.rps matches Some(m) ==> s.rps.rolled(now).count + 1 <= m)
    &&& (l.rpm matches Some(m) ==> s.rpm.rolled(now).count + 1 <= m)
    &&& (l.rph matches Some(m) ==> s.rph.rolled(now).count + 1 <= m)
    &&& (l.rpd matches Some(m) ==> s.rpd.rolled(now).count + 1 <= m)
}

/// A request window under an optional limit after one admitted request:
/// one more in the current window when the limit is set, untouched otherwise.
pub open spec fn counted_once(w: WindowState, limit: Option<u64>, now: u64) -> WindowState {
    if limit is Some {
        WindowState { count: (w.rolled(now).count + 1) as u64, ..w.rolled(now) }
    } else {
        w
    }
}

/// A token window under an optional limit after an admitted request: only
/// moved to the current window when the limit is set; nothing is added.
pub open spec fn looked_at(w: WindowState, limit: Option<u64>, now: u64) -> WindowState {
    if limit is Some {
        w.rolled(now)
    } else {
        w
    }
}

/// The state an admitted request leaves: one more slot in use, one more
/// request in every set request window, the token counts as they were.
pub open spec fn admitted_state(s: KeyView, l: RateLimitConfig, now: u64) -> KeyView {
    KeyView {
        rps: counted_once(s.rps, l.rps, now),
        rpm: counted_once(s.rpm, l.rpm, now),
        rph: counted_once(s.rph, l.rph, now),
        rpd: counted_once(s.rpd, l.rpd, now),
        tpm: looked_at(s.tpm, l.tpm, now),
        tpd: looked_at(s.tpd, l.tpd, now),
        in_flight: (s.in_flight + 1) as u32,
    }
}

/// Phase one admits a request exactly when it is within every set limit,
/// and then leaves `admitted_state`: one more slot, one more request in
/// each set request window, and the token counts unchanged (for request
/// counters below `u64::MAX`).
pub proof fn lemma_admitted_iff_within_limits(s: KeyView, l: RateLimitConfig, now: u64)
    requires
        s.wf(),
        l.concurrency is None ==> s.in_flight < u32::MAX,
        s.rps.count < u64::MAX,
        s.rpm.count < u64::MAX,
        s.rph.count < u64::MAX,
        s.rpd.count < u64::MAX,
    ensures
        acquire_spec(s, l, now).1 is Ok <==> within_limits(s, l, now),
        within_limits(s, l, now) ==> acquire_spec(s, l, now).0 == admitted_state(s, l, now),
{
}

/// A refused request leaves no increment behind: the in-flight count is
/// unchanged and every window is either untouched or only rolled to `now`
/// (for counters below `u64::MAX`).
pub proof fn lemma_refusal_adds_nothing(s: KeyView, l: RateLimitConfig, now: u64)
    requires
        s.wf(),
        s.rps.count < u64::MAX,
        s.rpm.count < u64::MAX,
        s.rph.count < u64::MAX,
        s.rpd.count < u64::MAX,
        acquire_spec(s, l, now).1 is Err,
    ensures
        ({
            let f = acquire_spec(s, l, now).0;
            &&& f.in_flight == s.in_flight
            &&& f.rps == s.rps || f.rps == s.rps.rolled(now)
            &&& f.rpm == s.rpm || f.rpm == s.rpm.rolled(now)
            &&& f.rph == s.rph || f.rph == s.rph.rolled(now)
            &&& f.rpd == s.rpd || f.rpd == s.rpd.rolled(now)
            &&& f.tpm == s.tpm || f.tpm == s.tpm.rolled(now)
            &&& f.tpd == s.tpd || f.tpd == s.tpd.rolled(now)
        }),
{
    lemma_undo_restores(s.rps, l.rps, now);
    lemma_undo_restores(s.rpm, l.rpm, now);
    lemma_undo_restores(s.rph, l.rph, now);
}

proof fn lemma_undo_restores(w: WindowState, limit: Option<u64>, now: u64)
    requires
        w.wf(),
        w.count < u64::MAX,
    ensures
        checked_opt(w, limit, now).1 is None ==> undo_opt(checked_opt(w, limit, now).0, limit, now) == w
            || undo_opt(checked_opt(w, limit, now).0, limit, now) == w.rolled(now),
{
    if let Some(m) = limit {
        if checked_opt(w, limit, now).1 is None {
            crate::window::lemma_decrement_undoes_increment(w, now, 1, m);
        }
    }
}

/// An admitted request takes one slot, stays within every configured limit,
/// and counts exactly once in every configured request window.
pub proof fn lemma_admission_within_limits(s: KeyView, l: RateLimitConfig, now: u64)
    requires
        s.wf(),
        l.concurrency is None ==> s.in_flight < u32::MAX,
        s.rps.count < u64::MAX,
        s.rpm.count < u64::MAX,
        s.rph.count < u64::MAX,
        s.rpd.count < u64::MAX,
        acquire_spec(s, l, now).1 is Ok,
    ensures
        ({
            let f = acquire_spec(s, l, now).0;
            &&& f.in_flight == s.in_flight + 1
            &&& (l.concurrency matches Some(c) ==> f.in_flight <= c)
            &&& (l.rps matches Some(m) ==> f.rps.count <= m && f.rps.count == s.rps.rolled(now).count + 1)
            &&& (l.rpm matches Some(m) ==> f.rpm.count <= m && f.rpm.count == s.rpm.rolled(now).count + 1)
            &&& (l.rph matches Some(m) ==> f.rph.count <= m && f.rph.count == s.rph.rolled(now).count + 1)
            &&& (l.rpd matches Some(m) ==> f.rpd.count <= m && f.rpd.count == s.rpd.rolled(now).count + 1)
            &&& (l.tpm matches Some(m) ==> f.tpm.count <= m)
            &&& (l.tpd matches Some(m) ==> f.tpd.count <= m)
        }),
{
}

/// Without limits a request is always admitted and only takes a slot.
pub proof fn lemma_no_limits_never_refuse(s: KeyView, now: u64)
    requires
        s.in_flight < u32::MAX,
    ensures
        acquire_spec(s, RateLimitConfig::unlimited(), now) == (KeyView { in_flight: (s.in_flight + 1) as u32, ..s }, Ok::<(), RateLimitError>(())),
{
}

/// Committing an admitted request gives its slot back.
pub proof fn lemma_commit_returns_slot(s: KeyView, l: RateLimitConfig, now: u64, tokens: u64, later: u64)
    requires
        l.concurrency is None ==> s.in_flight < u32::MAX,
        acquire_spec(s, l, now).1 is Ok,
    ensures
        commit_spec(acquire_spec(s, l, now).0, tokens, later).in_flight == s.in_flight,
{
}

/// When the tokens recorded in the current minute are above the minute's
/// token limit, the next request (that the concurrency cap lets through)
/// is refused for tokens.
pub proof fn lemma_token_overshoot_blocks(s: KeyView, l: RateLimitConfig, now: u64)
    requires
        s.wf(),
        l.concurrency matches Some(c) ==> s.in_flight < c,
        l.tpm matches Some(m) && s.tpm.rolled(now).count > m,
    ensures
        acquire_spec(s, l, now).1 matches Err(RateLimitError::Tokens { .. }),
        acquire_spec(s, l, now).0.in_flight == s.in_flight,
{
}

#[verifier::external_type_specification]
#[verifier::external_body]
#[verifier::reject_recursive_types(K)]
#[verifier::reject_recursive_types(V)]
#[verifier::reject_recursive_types(S)]
pub struct ExDashMap<K, V, S>(dashmap::DashMap<K, V, S>);

/// The concurrent map that holds each key's state.
pub type KeyStates = DashMap<String, KeyState>;

/// The per-key states a concurrent map holds, by key.
pub uninterp spec fn key_states(m: KeyStates) -> Map<Seq<char>, KeyView>;

/// An empty map.
/// Trusted: `DashMap::new` makes a map with no entries.
#[verifier::external_body]
fn states_new() -> (r: KeyStates)
    ensures
        key_states(r).dom() == Set::<Seq<char>>::empty(),
{
    DashMap::new()
}

/// The state held under `key`, copied out.
/// Trusted: `DashMap::get` gives the value last inserted under an equal
/// key, or `None` when there is none.
#[verifier::external_body]
fn states_get(m: &KeyStates, key: &str) -> (r: Option<KeyState>)
    ensures
        match r {
            Some(s) => key_states(*m).dom().contains(key@) && s@ == key_states(*m)[key@],
            None => !key_states(*m).dom().contains(key@),
        },
{
    m.get(key).map(|e| *e.value())
}

/// Whether a state is held under `key`.
/// Trusted: `DashMap::contains_key` tells whether an equal key is present.
#[verifier::external_body]
fn states_contains(m: &KeyStates, key: &str) -> (b: bool)
    ensures
        b == key_states(*m).dom().contains(key@),
{
    m.contains_key(key)
}

/// Puts `s` under `key`, replacing what was there.
/// Trusted: `DashMap::insert` leaves `key` mapped to the new value and
/// every other key as it was.
#[verifier::external_body]
fn states_insert(m: &mut KeyStates, key: String, s: KeyState)
    ensures
        key_states(*final(m)) == key_states(*old(m)).insert(key@, s@),
{
    m.insert(key, s);
}

/// The in-process store: one [`KeyView`] per key, created on first use.
pub struct LocalStore<C: Clock> {
    states: KeyStates,
    clock: C,
    last_read: Ghost<u64>,
}

impl LocalStore<SystemClock> {
    pub fn new() -> (s: Self)
        ensures
            s.wf(),
            s.keys() == Map::<Seq<char>, KeyView>::empty(),
    {
        LocalStore::with_clock(SystemClock)
    }
}

impl Default for LocalStore<SystemClock> {
    fn default() -> (s: Self)
        ensures
            s.wf(),
            s.keys() == Map::<Seq<char>, KeyView>::empty(),
    {
        LocalStore::new()
    }
}

impl<C: Clock> LocalStore<C> {
    pub closed spec fn wf(&self) -> bool {
        forall|k: Seq<char>| #[trigger] key_states(self.states).dom().contains(k) ==> key_states(self.states)[k].wf()
    }

    /// The state of every key seen so far.
    pub closed spec fn keys(&self) -> Map<Seq<char>, KeyView> {
        key_states(self.states)
    }

    /// The state of `k`; a key never seen is fresh.
    pub open spec fn key_view(&self, k: Seq<char>) -> KeyView {
        if self.keys().dom().contains(k) {
            self.keys()[k]
        } else {
            KeyView::fresh()
        }
    }

    pub closed spec fn spec_clock(&self) -> C {
        self.clock
    }

    /// The time the store's clock gave at its last reading (0 before any).
    pub closed spec fn last_read(&self) -> u64 {
        self.last_read@
    }

    pub proof fn lemma_wf_keys(&self)
        requires
            self.wf(),
        ensures
            forall|k: Seq<char>| #[trigger] self.key_view(k).wf(),
    {
        assert forall|k: Seq<char>| #[trigger] self.key_view(k).wf() by {
            if self.keys().dom().contains(k) {
                assert(key_states(self.states).dom().contains(k));
            }
        }
    }

    pub fn with_clock(clock: C) -> (s: Self)
        ensures
            s.wf(),
            s.keys() == Map::<Seq<char>, KeyView>::empty(),
            s.spec_clock() == clock,
    {
        let s = LocalStore { states: states_new(), clock, last_read: Ghost(0) };
        assert(s.keys() =~= Map::<Seq<char>, KeyView>::empty());
        s
    }

    fn state_for(&self, key: &str) -> (s: KeyState)
        requires
            self.wf(),
        ensures
            s@ == self.key_view(key@),
            s@.wf(),
    {
        match states_get(&self.states, key) {
            Some(s) => s,
            None => KeyState::new(),
        }
    }

    fn put_state(&mut self, key: &str, s: KeyState)
        requires
            old(self).wf(),
            s@.wf(),
        ensures
            final(self).wf(),
            final(self).keys() == old(self).keys().insert(key@, s@),
            final(self).spec_clock() == old(self).spec_clock(),
            final(self).last_read() == old(self).last_read(),
    {
        states_insert(&mut self.states, String::from_str(key), s);
        assert(self.keys() =~= old(self).keys().insert(key@, s@));
    }

    /// The in-flight count of `key` (zero for a key never seen).
    pub fn in_flight(&self, key: &str) -> (n: u32)
        requires
            self.wf(),
        ensures
            n == self.key_view(key@).in_flight,
    {
        let s = self.state_for(key);
        s.in_flight
    }

    /// Phase one at time `now`: see [`acquire_spec`].
    pub fn acquire_at(&mut self, key: &str, limits: &RateLimitConfig, now: u64) -> (r: Result<(), RateLimitError>)
        requires
            old(self).wf(),
            limits.concurrency is None ==> old(self).key_view(key@).in_flight < u32::MAX,
        ensures
            final(self).wf(),
            final(self).keys() == old(self).keys().insert(key@, acquire_spec(old(self).key_view(key@), *limits, now).0),
            r == acquire_spec(old(self).key_view(key@), *limits, now).1,
            final(self).spec_clock() == old(self).spec_clock(),
            final(self).last_read() == old(self).last_read(),
    {
        let mut s = self.state_for(key);
        let r = s.acquire(limits, now);
        self.put_state(key, s);
        r
    }

    /// Phase two at time `now`: see [`commit_spec`].
    pub fn commit_at(&mut self, key: &str, tokens: u64, now: u64)
        requires
            old(self).wf(),
        ensures
            final(self).wf(),
            final(self).keys() == old(self).keys().insert(key@, commit_spec(old(self).key_view(key@), tokens, now)),
            final(self).spec_clock() == old(self).spec_clock(),
            final(self).last_read() == old(self).last_read(),
    {
        let mut s = self.state_for(key);
        s.tpm.add(now, tokens);
        s.tpd.add(now, tokens);
        s.in_flight = s.in_flight.saturating_sub(1);
        self.put_state(key, s);
    }

    /// Frees the slot of `key` without recording tokens; unknown keys are left alone.
    pub fn release_key(&mut self, key: &str)
        requires
            old(self).wf(),
        ensures
            final(self).wf(),
            final(self).keys() == if old(self).keys().dom().contains(key@) {
                old(self).keys().insert(
                    key@,
                    KeyView { in_flight: old(self).keys()[key@].in_flight.saturating_sub(1), ..old(self).keys()[key@] },
                )
            } else {
                old(self).keys()
            },
            final(self).spec_clock() == old(self).spec_clock(),
            final(self).last_read() == old(self).last_read(),
    {
        if states_contains(&self.states, key) {
            let mut s = self.state_for(key);
            s.in_flight = s.in_flight.saturating_sub(1);
            self.put_state(key, s);
        }
    }

    /// Records tokens used after a stream at time `now`; zero tokens change nothing.
    pub fn add_tokens_at(&mut self, key: &str, tokens: u64, now: u64)
        requires
            old(self).wf(),
        ensures
            final(self).wf(),
            final(self).keys() == if tokens == 0 {
                old(self).keys()
            } else {
                old(self).keys().insert(key@, add_tokens_spec(old(self).key_view(key@), tokens, now))
            },
            final(self).spec_clock() == old(self).spec_clock(),
            final(self).last_read() == old(self).last_read(),
    {
        if tokens == 0 {
            return;
        }
        let mut s = self.state_for(key);
        s.tpm.add(now, tokens);
        s.tpd.add(now, tokens);
        self.put_state(key, s);
    }

    /// The status of `key` at time `now`, or `None` for a key never seen.
    pub fn peek_at(&mut self, key: &str, limits: &RateLimitConfig, now: u64) -> (r: Option<RateLimitStatus>)
        requires
            old(self).wf(),
        ensures
            final(self).wf(),
            final(self).spec_clock() == old(self).spec_clock(),
            final(self).last_read() == old(self).last_read(),
            if old(self).keys().dom().contains(key@) {
                &&& final(self).keys() == old(self).keys().insert(key@, peek_spec(old(self).keys()[key@], *limits, now).0)
                &&& r == Some(peek_spec(old(self).keys()[key@], *limits, now).1)
            } else {
                &&& final(self).keys() == old(self).keys()
                &&& r is None
            },
    {
        if !states_contains(&self.states, key) {
            return None;
        }
        let mut s = self.state_for(key);
        let rpm_used = s.rpm.current(now);
        let tpm_used = s.tpm.current(now);
        let in_flight = s.in_flight;
        let minute_reset = MINUTE_SECS - (now % MINUTE_SECS);
        self.put_state(key, s);
        Some(RateLimitStatus {
            rpm_limit: limits.rpm,
            rpm_used,
            rpm_reset_secs: minute_reset,
            tpm_limit: limits.tpm,
            tpm_used,
            tpm_reset_secs: minute_reset,
            concurrency_limit: limits.concurrency,
            in_flight,
        })
    }
}

impl<C: Clock> LocalStore<C> {
    /// Phase one at the clock's current time.
    pub fn acquire_now(&mut self, key: &str, limits: &RateLimitConfig) -> (r: Result<(), RateLimitError>)
        requires
            old(self).wf(),
            limits.concurrency is None ==> old(self).key_view(key@).in_flight < u32::MAX,
        ensures
            final(self).wf(),
            final(self).spec_clock() == old(self).spec_clock(),
            final(self).keys() == old(self).keys().insert(
                key@,
                acquire_spec(old(self).key_view(key@), *limits, final(self).last_read()).0,
            ),
            r == acquire_spec(old(self).key_view(key@), *limits, final(self).last_read()).1,
    {
        let now = self.clock.unix_secs();
        self.last_read = Ghost(now);
        self.acquire_at(key, limits, now)
    }

    /// Phase two at the clock's current time.
    pub fn commit_now(&mut self, key: &str, tokens: u64)
        requires
            old(self).wf(),
        ensures
            final(self).wf(),
            final(self).spec_clock() == old(self).spec_clock(),
            final(self).keys() == old(self).keys().insert(
                key@,
                commit_spec(old(self).key_view(key@), tokens, final(self).last_read()),
            ),
    {
        let now = self.clock.unix_secs();
        self.last_read = Ghost(now);
        self.commit_at(key, tokens, now)
    }

    /// Post-stream tokens at the clock's current time.
    pub fn add_tokens_now(&mut self, key: &str, tokens: u64)
        requires
            old(self).wf(),
        ensures
            final(self).wf(),
            final(self).spec_clock() == old(self).spec_clock(),
            final(self).keys() == added_tokens_map(old(self).keys(), key@, tokens, final(self).last_read()),
    {
        let now = self.clock.unix_secs();
        self.last_read = Ghost(now);
        self.add_tokens_at(key, tokens, now);
    }

    /// The status of `key` at the clock's current time.
    pub fn peek_now(&mut self, key: &str, limits: &RateLimitConfig) -> (r: Option<RateLimitStatus>)
        requires
            old(self).wf(),
        ensures
            final(self).wf(),
            final(self).spec_clock() == old(self).spec_clock(),
            peeked(old(self).keys(), key@, *limits, final(self).last_read()) == (final(self).keys(), r),
    {
        let now = self.clock.unix_secs();
        self.last_read = Ghost(now);
        self.peek_at(key, limits, now)
    }
}

impl<C: Clock> RateStore for LocalStore<C> {
    open spec fn store_wf(&self) -> bool {
        self.wf()
    }

    open spec fn in_flight_of(&self, key: Seq<char>) -> u32 {
        self.key_view(key).in_flight
    }

    fn acquire(&mut self, key: &str, limits: &RateLimitConfig, member: &str) -> (r: Result<(), RateLimitError>)
        ensures
            final(self).wf(),
            final(self).spec_clock() == old(self).spec_clock(),
            final(self).keys() == old(self).keys().insert(
                key@,
                acquire_spec(old(self).key_view(key@), *limits, final(self).last_read()).0,
            ),
            r == acquire_spec(old(self).key_view(key@), *limits, final(self).last_read()).1,
    {
        self.acquire_now(key, limits)
    }

    fn commit(&mut self, key: &str, tokens: u64, member: &str)
        ensures
            final(self).wf(),
            final(self).spec_clock() == old(self).spec_clock(),
            final(self).keys() == old(self).keys().insert(
                key@,
                commit_spec(old(self).key_view(key@), tokens, final(self).last_read()),
            ),
    {
        self.commit_now(key, tokens)
    }

    fn release(&mut self, key: &str, member: &str)
        ensures
            final(self).wf(),
            final(self).keys() == if old(self).keys().dom().contains(key@) {
                old(self).keys().insert(
                    key@,
                    KeyView { in_flight: old(self).keys()[key@].in_flight.saturating_sub(1), ..old(self).keys()[key@] },
                )
            } else {
                old(self).keys()
            },
            final(self).spec_clock() == old(self).spec_clock(),
            final(self).last_read() == old(self).last_read(),
    {
        self.release_key(key)
    }

    fn add_tokens(&mut self, key: &str, tokens: u64)
        ensures
            final(self).wf(),
            final(self).spec_clock() == old(self).spec_clock(),
            final(self).keys() == added_tokens_map(old(self).keys(), key@, tokens, final(self).last_read()),
    {
        self.add_tokens_now(key, tokens)
    }

    fn peek(&mut self, key: &str, limits: &RateLimitConfig) -> (r: Option<RateLimitStatus>)
        ensures
            final(self).wf(),
            final(self).spec_clock() == old(self).spec_clock(),
            peeked(old(self).keys(), key@, *limits, final(self).last_read()) == (final(self).keys(), r),
    {
        self.peek_now(key, limits)
    }
}

} // verus!
