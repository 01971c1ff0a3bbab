//! Two-phase limiter keyed on an opaque key.
//!
//! Phase 1, `pre_commit`, runs before the upstream request: it takes a
//! concurrency slot, counts the request and checks the token budget.
//! Phase 2 finalises the returned [`Reservation`]: `commit_tokens` records
//! the tokens used and frees the slot; `release` frees the slot alone.

use vstd::prelude::*;
use crate::clock::{Clock, SystemClock};
use crate::error::join2;
use crate::models::RateLimitConfig;
use crate::rate_store::{
    acquire_spec, commit_spec, KeyView, LocalStore, RateLimitError, RateLimitStatus, RateStore,
    added_tokens_map, all_wf, lemma_refusal_adds_nothing, peek_spec, peeked, shown_counts, state_in,
};
use crate::window::{lemma_added_stays_current, lemma_rollover_and_peek};
use crate::text::{decimal, u64_to_decimal};

verus! {

/// A fresh random identifier in UUID "simple" form.
/// Trusted: `uuid::Uuid::new_v4` formatted by `Uuid::simple`; the value is
/// random, so nothing is claimed of it.
#[verifier::external_body]
fn random_uuid_simple() -> String {
    uuid::Uuid::new_v4().simple().to_string()
}

/// The key map after the slot of `k` is freed (keys never seen stay unseen).
pub open spec fn release_one(m: Map<Seq<char>, KeyView>, k: Seq<char>) -> Map<Seq<char>, KeyView> {
    if m.dom().contains(k) {
        m.insert(k, KeyView { in_flight: m[k].in_flight.saturating_sub(1), ..m[k] })
    } else {
        m
    }
}

/// The key map after the slots of `ks` are freed, in order.
pub open spec fn release_all(m: Map<Seq<char>, KeyView>, ks: Seq<Seq<char>>) -> Map<Seq<char>, KeyView>
    decreases ks.len(),
{
    if ks.len() == 0 {
        m
    } else {
        release_one(release_all(m, ks.drop_last()), ks.last())
    }
}

/// The key map after `k` commits `tokens` at time `now`.
pub open spec fn commit_one(m: Map<Seq<char>, KeyView>, k: Seq<char>, tokens: u64, now: u64) -> Map<
    Seq<char>,
    KeyView,
> {
    let s = if m.dom().contains(k) { m[k] } else { KeyView::fresh() };
    m.insert(k, commit_spec(s, tokens, now))
}

/// The key map after each key of `ks` commits `tokens`, the i-th at time `nows[i]`.
pub open spec fn commit_all(m: Map<Seq<char>, KeyView>, ks: Seq<Seq<char>>, tokens: u64, nows: Seq<u64>) -> Map<
    Seq<char>,
    KeyView,
>
    decreases ks.len(),
{
    if ks.len() == 0 {
        m
    } else {
        commit_one(commit_all(m, ks.drop_last(), tokens, nows.drop_last()), ks.last(), tokens, nows.last())
    }
}

/// A second peek at the same time shows what the first one showed and
/// changes nothing more; peeking at a key never seen shows `None` and
/// creates no state, and adding zero tokens creates none either.
pub proof fn lemma_peek_is_stable(m: Map<Seq<char>, KeyView>, key: Seq<char>, l: RateLimitConfig, now: u64)
    requires
        all_wf(m),
    ensures
        peeked(peeked(m, key, l, now).0, key, l, now) == peeked(m, key, l, now),
        !m.dom().contains(key) ==> peeked(m, key, l, now) == (m, None::<RateLimitStatus>),
        added_tokens_map(m, key, 0, now) == m,
{
    if m.dom().contains(key) {
        let s = m[key];
        lemma_rollover_and_peek(s.rpm, now, 0);
        lemma_rollover_and_peek(s.tpm, now, 0);
        let m1 = peeked(m, key, l, now).0;
        assert(m1.insert(key, peek_spec(m1[key], l, now).0) =~= m1);
    }
}

/// A refused request leaves what a peek at the same time shows as it was:
/// the requests and tokens of the minute and the slots in use (a key never
/// seen shows none, before and after). Holds for request counters below
/// `u64::MAX`.
pub proof fn lemma_refusal_keeps_status(
    m: Map<Seq<char>, KeyView>,
    key: Seq<char>,
    l: RateLimitConfig,
    shown: RateLimitConfig,
    now: u64,
)
    requires
        all_wf(m),
        state_in(m, key).rps.count < u64::MAX,
        state_in(m, key).rpm.count < u64::MAX,
        state_in(m, key).rph.count < u64::MAX,
        state_in(m, key).rpd.count < u64::MAX,
        acquire_spec(state_in(m, key), l, now).1 is Err,
    ensures
        shown_counts(peeked(m.insert(key, acquire_spec(state_in(m, key), l, now).0), key, shown, now).1)
            == shown_counts(peeked(m, key, shown, now).1),
{
    let s = state_in(m, key);
    lemma_refusal_adds_nothing(s, l, now);
    lemma_rollover_and_peek(s.rpm, now, 0);
    lemma_rollover_and_peek(s.tpm, now, 0);
}

/// Committing `tokens` and then peeking at the same time shows the tokens
/// added (saturating) to the minute, and to the day, one slot fewer, and
/// the minute's requests unchanged.
pub proof fn lemma_commit_shows_tokens(
    m: Map<Seq<char>, KeyView>,
    key: Seq<char>,
    l: RateLimitConfig,
    tokens: u64,
    now: u64,
)
    requires
        all_wf(m),
    ensures
        ({
            let before = shown_counts(peeked(m, key, l, now).1);
            shown_counts(peeked(commit_one(m, key, tokens, now), key, l, now).1) == (
                before.0,
                before.1.saturating_add(tokens),
                before.2.saturating_sub(1),
            )
        }),
        commit_one(m, key, tokens, now)[key].tpd.rolled(now).count == state_in(m, key).tpd.rolled(
            now,
        ).count.saturating_add(tokens),
{
    let s = state_in(m, key);
    lemma_rollover_and_peek(s.rpm, now, 0);
    lemma_rollover_and_peek(s.tpm, now, 0);
    lemma_added_stays_current(s.tpm, now, tokens);
    lemma_added_stays_current(s.tpd, now, tokens);
}

/// Releasing a slot and then peeking at the same time shows one slot fewer
/// (none below zero) and the minute's requests and tokens unchanged.
pub proof fn lemma_release_shows_slot(m: Map<Seq<char>, KeyView>, key: Seq<char>, l: RateLimitConfig, now: u64)
    ensures
        ({
            let before = shown_counts(peeked(m, key, l, now).1);
            shown_counts(peeked(release_one(m, key), key, l, now).1) == (
                before.0,
                before.1,
                before.2.saturating_sub(1),
            )
        }),
{
}

/// The limiter: a store, and a source of unique reservation names.
pub struct Limiter<C: Clock> {
    store: LocalStore<C>,
    member_prefix: String,
    seq: u64,
}

impl Limiter<SystemClock> {
    /// A limiter over a fresh in-process store on the system clock.
    pub fn new() -> (l: Self)
        ensures
            l.wf(),
            l.keys() == Map::<Seq<char>, KeyView>::empty(),
    {
        Limiter::with_store(LocalStore::new())
    }
}

impl Default for Limiter<SystemClock> {
    fn default() -> (l: Self)
        ensures
            l.wf(),
            l.keys() == Map::<Seq<char>, KeyView>::empty(),
    {
        Limiter::new()
    }
}

impl<C: Clock> Limiter<C> {
    pub closed spec fn wf(&self) -> bool {
        self.store.wf()
    }

    /// The rate-limit state of every key seen so far.
    pub closed spec fn keys(&self) -> Map<Seq<char>, KeyView> {
        self.store.keys()
    }

    /// The state of `k`; a key never seen is fresh.
    pub open spec fn key_view(&self, k: Seq<char>) -> KeyView {
        if self.keys().dom().contains(k) {
            self.keys()[k]
        } else {
            KeyView::fresh()
        }
    }

    /// Every key state the limiter holds is well formed.
    pub proof fn lemma_keys_wf(&self)
        requires
            self.wf(),
        ensures
            all_wf(self.keys()),
    {
        self.store.lemma_wf_keys();
        assert forall|k: Seq<char>| #[trigger] self.keys().dom().contains(k) implies self.keys()[k].wf() by {
            assert(self.store.key_view(k).wf());
        }
    }

    /// The time the limiter's clock gave at its last reading (0 before any).
    pub closed spec fn last_read(&self) -> u64 {
        self.store.last_read()
    }

    pub closed spec fn member_prefix(&self) -> Seq<char> {
        self.member_prefix@
    }

    pub closed spec fn seq(&self) -> u64 {
        self.seq
    }

    pub fn with_store(store: LocalStore<C>) -> (l: Self)
        requires
            store.wf(),
        ensures
            l.wf(),
            l.keys() == store.keys(),
            l.seq() == 0,
    {
        let id = random_uuid_simple();
        Limiter { store, member_prefix: join2(id.as_str(), ":"), seq: 0 }
    }

    pub fn local_with_clock(clock: C) -> (l: Self)
        ensures
            l.wf(),
            l.keys() == Map::<Seq<char>, KeyView>::empty(),
    {
        Limiter::with_store(LocalStore::with_clock(clock))
    }

    /// A reservation name unique within this limiter: the prefix, then a counter.
    fn next_member(&mut self) -> (m: String)
        ensures
            m@ == old(self).member_prefix() + decimal(old(self).seq() as nat),
            final(self).seq() == old(self).seq().wrapping_add(1),
            final(self).member_prefix() == old(self).member_prefix(),
            final(self).keys() == old(self).keys(),
            final(self).last_read() == old(self).last_read(),
            final(self).wf() == old(self).wf(),
    {
        let n = self.seq;
        self.seq = self.seq.wrapping_add(1);
        let digits = u64_to_decimal(n);
        join2(self.member_prefix.as_str(), digits.as_str())
    }

    /// The in-flight count of `key`.
    pub fn in_flight(&self, key: &str) -> (n: u32)
        requires
            self.wf(),
        ensures
            n == self.key_view(key@).in_flight,
    {
        self.store.in_flight(key)
    }

    /// Phase one for `key` at the clock's current time (see `acquire_spec`).
    pub fn pre_commit(&mut self, key: &str, limits: &RateLimitConfig) -> (r: Result<Reservation, RateLimitError>)
        requires
            old(self).wf(),
            limits.concurrency is None ==> old(self).key_view(key@).in_flight < u32::MAX,
        ensures
            final(self).wf(),
            final(self).keys() == old(self).keys().insert(
                key@,
                acquire_spec(old(self).key_view(key@), *limits, final(self).last_read()).0,
            ),
            match r {
                Ok(res) => acquire_spec(old(self).key_view(key@), *limits, final(self).last_read()).1 is Ok
                    && res.key() == key@ && !res.committed(),
                Err(e) => acquire_spec(old(self).key_view(key@), *limits, final(self).last_read()).1 == Err::<
                    (),
                    RateLimitError,
                >(e),
            },
    {
        let member = self.next_member();
        let r = self.store.acquire_now(key, limits);
        match r {
            Ok(()) => Ok(Reservation { key: String::from_str(key), member, committed: false }),
            Err(e) => Err(e),
        }
    }

    /// Phase one for any caller: with no concurrency cap and the in-flight
    /// count of `key` at `u32::MAX`, where one more slot cannot be counted,
    /// the request is refused for concurrency and nothing changes; otherwise
    /// it is `pre_commit`.
    pub fn try_pre_commit(&mut self, key: &str, limits: &RateLimitConfig) -> (r: Result<Reservation, RateLimitError>)
        requires
            old(self).wf(),
        ensures
            final(self).wf(),
            limits.concurrency is None && old(self).key_view(key@).in_flight == u32::MAX ==> {
                &&& r matches Err(RateLimitError::Concurrency)
                &&& final(self).keys() == old(self).keys()
            },
            !(limits.concurrency is None && old(self).key_view(key@).in_flight == u32::MAX) ==> {
                &&& final(self).keys() == old(self).keys().insert(
                    key@,
                    acquire_spec(old(self).key_view(key@), *limits, final(self).last_read()).0,
                )
                &&& match r {
                    Ok(res) => acquire_spec(old(self).key_view(key@), *limits, final(self).last_read()).1 is Ok
                        && res.key() == key@ && !res.committed(),
                    Err(e) => acquire_spec(old(self).key_view(key@), *limits, final(self).last_read()).1 == Err::<
                        (),
                        RateLimitError,
                    >(e),
                }
            },
    {
        if limits.concurrency.is_none() && self.in_flight(key) == u32::MAX {
            return Err(RateLimitError::Concurrency);
        }
        self.pre_commit(key, limits)
    }

    /// Records tokens a finished stream used; zero tokens change nothing and
    /// create no state.
    pub fn add_tokens_post_stream(&mut self, key: &str, tokens: u64)
        requires
            old(self).wf(),
        ensures
            final(self).wf(),
            final(self).keys() == added_tokens_map(old(self).keys(), key@, tokens, final(self).last_read()),
            tokens == 0 ==> final(self).keys() == old(self).keys() && final(self).last_read() == old(self).last_read(),
    {
        if tokens == 0 {
            return;
        }
        self.store.add_tokens_now(key, tokens);
    }

    /// The status of `key`, or `None` for a key never seen.
    pub fn peek(&mut self, key: &str, limits: &RateLimitConfig) -> (r: Option<RateLimitStatus>)
        requires
            old(self).wf(),
        ensures
            final(self).wf(),
            peeked(old(self).keys(), key@, *limits, final(self).last_read()) == (final(self).keys(), r),
    {
        self.store.peek_now(key, limits)
    }

    fn commit_key(&mut self, key: &str, tokens: u64, member: &str)
        requires
            old(self).wf(),
        ensures
            final(self).wf(),
            final(self).keys() == commit_one(old(self).keys(), key@, tokens, final(self).last_read()),
            final(self).member_prefix() == old(self).member_prefix(),
            final(self).seq() == old(self).seq(),
    {
        self.store.commit_now(key, tokens);
    }

    fn release_key(&mut self, key: &str, member: &str)
        requires
            old(self).wf(),
        ensures
            final(self).wf(),
            final(self).keys() == release_one(old(self).keys(), key@),
            final(self).last_read() == old(self).last_read(),
            final(self).member_prefix() == old(self).member_prefix(),
            final(self).seq() == old(self).seq(),
    {
        self.store.release_key(key);
    }
}

/// A taken slot for one key, waiting to be committed or released.
#[derive(Debug)]
#[must_use]
pub struct Reservation {
    key: String,
    member: String,
    committed: bool,
}

impl Reservation {
    pub closed spec fn key(&self) -> Seq<char> {
        self.key@
    }

    pub closed spec fn committed(&self) -> bool {
        self.committed
    }

    /// The key the slot was taken for.
    pub fn key_str(&self) -> (k: &str)
        ensures
            k@ == self.key(),
    {
        self.key.as_str()
    }

    /// Phase two: records `tokens` and frees the slot.
    pub fn commit_tokens<C: Clock>(self, limiter: &mut Limiter<C>, tokens: u64)
        requires
            old(limiter).wf(),
        ensures
            final(limiter).wf(),
            final(limiter).keys() == commit_one(old(limiter).keys(), self.key(), tokens, final(limiter).last_read()),
    {
        limiter.commit_key(self.key.as_str(), tokens, self.member.as_str());
    }

    /// Gives the slot back without recording tokens (what dropping an
    /// uncommitted reservation does).
    pub fn release<C: Clock>(self, limiter: &mut Limiter<C>)
        requires
            old(limiter).wf(),
        ensures
            final(limiter).wf(),
            final(limiter).keys() == if self.committed() {
                old(limiter).keys()
            } else {
                release_one(old(limiter).keys(), self.key())
            },
    {
        if self.committed {
            return;
        }
        limiter.release_key(self.key.as_str(), self.member.as_str());
    }
}

/// Reservations for several keys that are finalised together.
#[derive(Debug)]
#[must_use]
pub struct MultiReservation {
    reservations: Vec<Reservation>,
}

pub open spec fn reservation_keys(rs: Seq<Reservation>) -> Seq<Seq<char>> {
    rs.map_values(|r: Reservation| r.key())
}

impl MultiReservation {
    pub closed spec fn parts(&self) -> Seq<Reservation> {
        self.reservations@
    }

    pub fn new(reservations: Vec<Reservation>) -> (m: Self)
        ensures
            m.parts() == reservations@,
    {
        MultiReservation { reservations }
    }

    /// The keys held, in order.
    pub fn keys(&self) -> (ks: Vec<String>)
        ensures
            ks@.map_values(|s: String| s@) == reservation_keys(self.parts()),
    {
        let mut ks: Vec<String> = Vec::new();
        let n = self.reservations.len();
        let mut i: usize = 0;
        while i < n
            invariant
                n == self.reservations@.len(),
                0 <= i <= n,
                ks@.len() == i,
                ks@.map_values(|s: String| s@) == reservation_keys(self.reservations@).take(i as int),
            decreases n - i,
        {
            let k = self.reservations[i].key.clone();
            assert(k@ == self.reservations@[i as int].key());
            let ghost prev = ks@;
            ks.push(k);
            assert forall|j: int| 0 <= j < i implies ks@[j]@ == reservation_keys(self.reservations@)[j] by {
                assert(prev.map_values(|s: String| s@)[j] == reservation_keys(self.reservations@).take(i as int)[j]);
            }
            assert(ks@.map_values(|s: String| s@) =~= reservation_keys(self.reservations@).take(i + 1));
            i = i + 1;
        }
        assert(reservation_keys(self.reservations@).take(n as int) =~= reservation_keys(self.reservations@));
        ks
    }

    /// Takes over the reservations of `other`, after its own.
    pub fn merge(&mut self, other: MultiReservation)
        ensures
            final(self).parts() == old(self).parts() + other.parts(),
    {
        let mut o = other.reservations;
        self.reservations.append(&mut o);
    }

    /// Commits `tokens` to every key in order.
    pub fn commit_tokens<C: Clock>(self, limiter: &mut Limiter<C>, tokens: u64)
        requires
            old(limiter).wf(),
        ensures
            final(limiter).wf(),
            exists|nows: Seq<u64>|
                nows.len() == self.parts().len() && final(limiter).keys() == #[trigger] commit_all(
                    old(limiter).keys(),
                    reservation_keys(self.parts()),
                    tokens,
                    nows,
                ),
    {
        let ghost ks = reservation_keys(self.reservations@);
        let ghost start = limiter.keys();
        let ghost mut nows: Seq<u64> = Seq::empty();
        let n = self.reservations.len();
        let mut i: usize = 0;
        while i < n
            invariant
                n == self.reservations@.len(),
                ks == reservation_keys(self.reservations@),
                0 <= i <= n,
                limiter.wf(),
                nows.len() == i,
                limiter.keys() == commit_all(start, ks.take(i as int), tokens, nows),
            decreases n - i,
        {
            let ghost before = limiter.keys();
            limiter.commit_key(self.reservations[i].key.as_str(), tokens, self.reservations[i].member.as_str());
            let ghost t = limiter.last_read();
            proof {
                assert(ks.take(i + 1).drop_last() =~= ks.take(i as int));
                assert(ks.take(i + 1).last() == ks[i as int]);
                assert(nows.push(t).drop_last() =~= nows);
                nows = nows.push(t);
                assert(limiter.keys() == commit_all(start, ks.take(i + 1), tokens, nows));
            }
            i = i + 1;
        }
        assert(ks.take(n as int) =~= ks);
        assert(limiter.keys() == commit_all(start, reservation_keys(self.parts()), tokens, nows));
    }

    /// Frees the slot of every uncommitted reservation, in order (what
    /// dropping the multi-reservation does).
    pub fn release<C: Clock>(self, limiter: &mut Limiter<C>)
        requires
            old(limiter).wf(),
        ensures
            final(limiter).wf(),
            final(limiter).keys() == release_all(old(limiter).keys(), uncommitted_keys(self.parts())),
    {
        let ghost start = limiter.keys();
        let n = self.reservations.len();
        let mut i: usize = 0;
        while i < n
            invariant
                n == self.reservations@.len(),
                0 <= i <= n,
                limiter.wf(),
                limiter.keys() == release_all(start, uncommitted_keys(self.reservations@.take(i as int))),
            decreases n - i,
        {
            proof {
                assert(self.reservations@.take(i + 1).drop_last() =~= self.reservations@.take(i as int));
                assert(self.reservations@.take(i + 1).last() == self.reservations@[i as int]);
                let u = uncommitted_keys(self.reservations@.take(i as int));
                assert(u.push(self.reservations@[i as int].key()).drop_last() =~= u);
            }
            if !self.reservations[i].committed {
                limiter.release_key(self.reservations[i].key.as_str(), self.reservations[i].member.as_str());
            }
            i = i + 1;
        }
        assert(self.reservations@.take(n as int) =~= self.reservations@);
    }

    /// Keeps every slot taken for the life of a stream: the returned guard
    /// frees them when released.
    pub fn into_stream_hold(self) -> (g: StreamConcurrencyGuard)
        ensures
            g.hold_keys() == reservation_keys(self.parts()),
            !g.released(),
    {
        let mut holds: Vec<(String, String)> = Vec::new();
        let n = self.reservations.len();
        let mut i: usize = 0;
        while i < n
            invariant
                n == self.reservations@.len(),
                0 <= i <= n,
                holds@.len() == i,
                hold_key_seq(holds@) == reservation_keys(self.reservations@).take(i as int),
            decreases n - i,
        {
            let k = self.reservations[i].key.clone();
            assert(k@ == self.reservations@[i as int].key());
            let ghost prev = holds@;
            holds.push((k, self.reservations[i].member.clone()));
            assert forall|j: int| 0 <= j < i implies holds@[j].0@ == reservation_keys(self.reservations@)[j] by {
                assert(hold_key_seq(prev)[j] == reservation_keys(self.reservations@).take(i as int)[j]);
            }
            assert(hold_key_seq(holds@) =~= reservation_keys(self.reservations@).take(i + 1));
            i = i + 1;
        }
        assert(reservation_keys(self.reservations@).take(n as int) =~= reservation_keys(self.reservations@));
        StreamConcurrencyGuard { holds, released: false }
    }
}

/// The keys of the reservations that are not committed, in order.
pub open spec fn uncommitted_keys(rs: Seq<Reservation>) -> Seq<Seq<char>>
    decreases rs.len(),
{
    if rs.len() == 0 {
        Seq::empty()
    } else if rs.last().committed() {
        uncommitted_keys(rs.drop_last())
    } else {
        uncommitted_keys(rs.drop_last()).push(rs.last().key())
    }
}

pub open spec fn hold_key_seq(h: Seq<(String, String)>) -> Seq<Seq<char>> {
    h.map_values(|p: (String, String)| p.0@)
}

/// Slots kept for a streaming response until the stream ends.
#[derive(Debug)]
#[must_use]
pub struct StreamConcurrencyGuard {
    holds: Vec<(String, String)>,
    released: bool,
}

impl StreamConcurrencyGuard {
    pub closed spec fn hold_keys(&self) -> Seq<Seq<char>> {
        hold_key_seq(self.holds@)
    }

    pub closed spec fn released(&self) -> bool {
        self.released
    }

    /// Frees every held slot once; later calls do nothing.
    pub fn release_now<C: Clock>(&mut self, limiter: &mut Limiter<C>)
        requires
            old(limiter).wf(),
        ensures
            final(limiter).wf(),
            final(self).released(),
            final(self).hold_keys() == old(self).hold_keys(),
            final(limiter).keys() == if old(self).released() {
                old(limiter).keys()
            } else {
                release_all(old(limiter).keys(), old(self).hold_keys())
            },
    {
        if self.released {
            return;
        }
        self.released = true;
        let ghost start = limiter.keys();
        let ghost ks = hold_key_seq(self.holds@);
        let n = self.holds.len();
        let mut i: usize = 0;
        while i < n
            invariant
                n == self.holds@.len(),
                ks == hold_key_seq(self.holds@),
                0 <= i <= n,
                limiter.wf(),
                limiter.keys() == release_all(start, ks.take(i as int)),
            decreases n - i,
        {
            proof {
                assert(ks.take(i + 1).drop_last() =~= ks.take(i as int));
                assert(ks.take(i + 1).last() == ks[i as int]);
            }
            limiter.release_key(self.holds[i].0.as_str(), self.holds[i].1.as_str());
            i = i + 1;
        }
        assert(ks.take(n as int) =~= ks);
    }
}

} // verus!
