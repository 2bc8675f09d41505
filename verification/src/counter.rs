//! Very simple denial of service protection: a peer may only send what it
//! was asked for, and has to answer in time.

use vstd::prelude::*;
use std::time::Duration;
use tokio::time::Instant;
use crate::outside::{duration_between, duration_exceeds, duration_longer, instant_duration_since, instant_now};

verus! {

/// A peer cannot send 10,000 ADDRs in one connection.
pub const ADDR_HARD_LIMIT: i32 = 10_000;

/// How many filters one `getcfilters` request may be answered with.
pub const FILTERS_PER_REQUEST: i64 = 1000;

/// Tracks whether a peer owes the local node an answer, and since when.
#[derive(Debug, Clone)]
pub struct MessageTimer {
    pub tracked_time: Option<Instant>,
    pub timeout: Duration,
}

/// Counts, per kind of message, how many more the peer may still send.
/// A negative count means the peer sent something it was not asked for.
#[derive(Debug, Clone)]
pub struct MessageCounter {
    pub timer: MessageTimer,
    pub version: i8,
    pub verack: i8,
    pub header: i32,
    pub filter_header: i32,
    pub filters: i64,
    pub addrs: i32,
    pub block: i32,
    pub tx: i32,
}

/// The state of a [`MessageCounter`]: since when an answer is awaited, if
/// one is, the timeout, and the count of each kind of message.
pub struct CounterState {
    pub tracked_time: Option<Instant>,
    pub timeout: Duration,
    pub version: int,
    pub verack: int,
    pub header: int,
    pub filter_header: int,
    pub filters: int,
    pub addrs: int,
    pub block: int,
    pub tx: int,
}

impl CounterState {
    /// The state of a fresh counter: one version and one verack expected.
    pub open spec fn initial(timeout: Duration) -> CounterState {
        CounterState {
            tracked_time: None,
            timeout,
            version: 1,
            verack: 1,
            header: 0,
            filter_header: 0,
            filters: 0,
            addrs: 0,
            block: 0,
            tx: 0,
        }
    }

    /// Some kind of message arrived more often than it was asked for.
    pub open spec fn unsolicited(self) -> bool {
        ||| self.version < 0
        ||| self.header < 0
        ||| self.filters < 0
        ||| self.verack < 0
        ||| self.filter_header < 0
        ||| self.addrs < 0
        ||| self.block < 0
        ||| self.tx < 0
    }

    /// An answer is awaited.
    pub open spec fn tracking(self) -> bool {
        self.tracked_time is Some
    }

    /// No answer awaited any more.
    pub open spec fn untracked(self) -> CounterState {
        CounterState { tracked_time: None, ..self }
    }

    /// An answer awaited since `at`.
    pub open spec fn tracked_at(self, at: Instant) -> CounterState {
        CounterState { tracked_time: Some(at), ..self }
    }

    pub open spec fn on_got_version(self) -> CounterState {
        CounterState { version: self.version - 1, ..self }
    }

    pub open spec fn on_got_verack(self) -> CounterState {
        CounterState { tracked_time: None, verack: self.verack - 1, ..self }
    }

    pub open spec fn on_got_header(self) -> CounterState {
        self.untracked()
    }

    pub open spec fn on_got_filter_header(self) -> CounterState {
        CounterState { tracked_time: None, filter_header: self.filter_header - 1, ..self }
    }

    pub open spec fn on_got_filter(self) -> CounterState {
        CounterState { tracked_time: None, filters: self.filters - 1, ..self }
    }

    /// `got` is the number of addresses received, as the counter reads it.
    pub open spec fn on_got_addrs(self, got: int) -> CounterState {
        CounterState { addrs: self.addrs - got, ..self }
    }

    /// `n` filters received, one after the other.
    pub open spec fn on_got_filters(self, n: nat) -> CounterState
        decreases n,
    {
        if n == 0 {
            self
        } else {
            self.on_got_filters((n - 1) as nat).on_got_filter()
        }
    }

    pub open spec fn on_got_block(self) -> CounterState {
        CounterState { tracked_time: None, block: self.block - 1, ..self }
    }

    pub open spec fn on_got_reject(self) -> CounterState {
        CounterState { tx: self.tx - 1, ..self }
    }

    /// The `on_sent_*` states that start the timer take the instant `at`
    /// that the clock gave.
    pub open spec fn on_sent_version(self, at: Instant) -> CounterState {
        self.tracked_at(at)
    }

    pub open spec fn on_sent_header(self, at: Instant) -> CounterState {
        self.tracked_at(at)
    }

    pub open spec fn on_sent_filter_header(self, at: Instant) -> CounterState {
        CounterState { tracked_time: Some(at), filter_header: self.filter_header + 1, ..self }
    }

    pub open spec fn on_sent_filters(self, at: Instant) -> CounterState {
        CounterState {
            tracked_time: Some(at),
            filters: self.filters + FILTERS_PER_REQUEST,
            ..self
        }
    }

    pub open spec fn on_sent_addrs(self) -> CounterState {
        CounterState { addrs: self.addrs + ADDR_HARD_LIMIT, ..self }
    }

    pub open spec fn on_sent_block(self, at: Instant) -> CounterState {
        CounterState { tracked_time: Some(at), block: self.block + 1, ..self }
    }

    pub open spec fn on_sent_tx(self) -> CounterState {
        CounterState { tx: self.tx + 1, ..self }
    }
}

impl View for MessageCounter {
    type V = CounterState;

    open spec fn view(&self) -> CounterState {
        CounterState {
            tracked_time: self.timer.tracked_time,
            timeout: self.timer.timeout,
            version: self.version as int,
            verack: self.verack as int,
            header: self.header as int,
            filter_header: self.filter_header as int,
            filters: self.filters as int,
            addrs: self.addrs as int,
            block: self.block as int,
            tx: self.tx as int,
        }
    }
}

impl MessageTimer {
    /// A timer that awaits nothing.
    pub fn new(timeout: Duration) -> (t: Self)
        ensures
            t.tracked_time is None,
            t.timeout == timeout,
    {
        MessageTimer { tracked_time: None, timeout }
    }

    /// Starts waiting for an answer, from now.
    pub fn track(&mut self)
        ensures
            final(self).tracked_time is Some,
            final(self).timeout == old(self).timeout,
    {
        self.tracked_time = Some(instant_now());
    }

    /// Stops waiting for an answer.
    pub fn untrack(&mut self)
        ensures
            final(self).tracked_time is None,
            final(self).timeout == old(self).timeout,
    {
        self.tracked_time = None;
    }

    /// Whether, at the instant `now`, an awaited answer is overdue: more
    /// than the timeout has passed since tracking started.
    pub open spec fn overdue_at(self, now: Instant) -> bool {
        match self.tracked_time {
            Some(time) => duration_longer(duration_between(now, time), self.timeout),
            None => false,
        }
    }

    /// Whether an awaited answer is overdue at the instant `now`. A timer
    /// that awaits nothing is never overdue.
    pub fn unresponsive_at(&self, now: Instant) -> (r: bool)
        ensures
            r == self.overdue_at(now),
    {
        match self.tracked_time {
            Some(time) => {
                let elapsed = instant_duration_since(&now, &time);
                duration_exceeds(&elapsed, &self.timeout)
            },
            None => false,
        }
    }

    /// Whether an awaited answer is overdue now: the answer of
    /// [`Self::unresponsive_at`] at the instant the clock gives. A timer that
    /// awaits nothing is never overdue.
    pub fn unresponsive(&self) -> (r: bool)
        ensures
            exists|now: Instant| r == #[trigger] self.overdue_at(now),
            self.tracked_time is None ==> !r,
    {
        let now = instant_now();
        self.unresponsive_at(now)
    }
}

impl MessageCounter {
    /// Whether, at the instant `now`, the answer the timer awaits is overdue
    /// (see [`MessageTimer::overdue_at`]).
    pub open spec fn overdue_at(&self, now: Instant) -> bool {
        self.timer.overdue_at(now)
    }

    /// A counter that expects one version and one verack, and awaits nothing.
    pub fn new(timeout: Duration) -> (c: Self)
        ensures
            c@ == CounterState::initial(timeout),
    {
        MessageCounter {
            timer: MessageTimer::new(timeout),
            version: 1,
            verack: 1,
            header: 0,
            filter_header: 0,
            filters: 0,
            addrs: 0,
            block: 0,
            tx: 0,
        }
    }

    pub fn got_version(&mut self)
        requires
            old(self)@.version - 1 >= i8::MIN,
        ensures
            final(self)@ == old(self)@.on_got_version(),
    {
        self.version -= 1;
    }

    pub fn got_verack(&mut self)
        requires
            old(self)@.verack - 1 >= i8::MIN,
        ensures
            final(self)@ == old(self)@.on_got_verack(),
    {
        self.timer.untrack();
        self.verack -= 1;
    }

    pub fn got_header(&mut self)
        ensures
            final(self)@ == old(self)@.on_got_header(),
    {
        self.timer.untrack();
    }

    pub fn got_filter_header(&mut self)
        requires
            old(self)@.filter_header - 1 >= i32::MIN,
        ensures
            final(self)@ == old(self)@.on_got_filter_header(),
    {
        self.timer.untrack();
        self.filter_header -= 1;
    }

    pub fn got_filter(&mut self)
        requires
            old(self)@.filters - 1 >= i64::MIN,
        ensures
            final(self)@ == old(self)@.on_got_filter(),
    {
        self.timer.untrack();
        self.filters -= 1;
    }

    /// `num_addrs` is read as an `i32`, as a cast does.
    pub fn got_addrs(&mut self, num_addrs: usize)
        requires
            i32::MIN <= old(self)@.addrs - (num_addrs as i32) <= i32::MAX,
        ensures
            final(self)@ == old(self)@.on_got_addrs((num_addrs as i32) as int),
    {
        self.addrs -= num_addrs as i32;
    }

    pub fn got_block(&mut self)
        requires
            old(self)@.block - 1 >= i32::MIN,
        ensures
            final(self)@ == old(self)@.on_got_block(),
    {
        self.timer.untrack();
        self.block -= 1;
    }

    pub fn got_reject(&mut self)
        requires
            old(self)@.tx - 1 >= i32::MIN,
        ensures
            final(self)@ == old(self)@.on_got_reject(),
    {
        self.tx -= 1;
    }

    pub fn sent_version(&mut self)
        ensures
            final(self)@.tracking(),
            final(self)@ == old(self)@.on_sent_version(final(self)@.tracked_time->0),
    {
        self.timer.track();
    }

    pub fn sent_header(&mut self)
        ensures
            final(self)@.tracking(),
            final(self)@ == old(self)@.on_sent_header(final(self)@.tracked_time->0),
    {
        self.timer.track();
    }

    pub fn sent_filter_header(&mut self)
        requires
            old(self)@.filter_header + 1 <= i32::MAX,
        ensures
            final(self)@.tracking(),
            final(self)@ == old(self)@.on_sent_filter_header(final(self)@.tracked_time->0),
    {
        self.timer.track();
        self.filter_header += 1;
    }

    pub fn sent_filters(&mut self)
        requires
            old(self)@.filters + FILTERS_PER_REQUEST <= i64::MAX,
        ensures
            final(self)@.tracking(),
            final(self)@ == old(self)@.on_sent_filters(final(self)@.tracked_time->0),
    {
        self.timer.track();
        self.filters += FILTERS_PER_REQUEST;
    }

    pub fn sent_addrs(&mut self)
        requires
            old(self)@.addrs + ADDR_HARD_LIMIT <= i32::MAX,
        ensures
            final(self)@ == old(self)@.on_sent_addrs(),
    {
        self.addrs += ADDR_HARD_LIMIT;
    }

    pub fn sent_block(&mut self)
        requires
            old(self)@.block + 1 <= i32::MAX,
        ensures
            final(self)@.tracking(),
            final(self)@ == old(self)@.on_sent_block(final(self)@.tracked_time->0),
    {
        self.timer.track();
        self.block += 1;
    }

    pub fn sent_tx(&mut self)
        requires
            old(self)@.tx + 1 <= i32::MAX,
        ensures
            final(self)@ == old(self)@.on_sent_tx(),
    {
        self.tx += 1;
    }

    /// Whether the peer sent some kind of message more often than it was
    /// asked for.
    pub fn unsolicited(&self) -> (r: bool)
        ensures
            r == self@.unsolicited(),
    {
        self.version < 0 || self.header < 0 || self.filters < 0 || self.verack < 0
            || self.filter_header < 0 || self.addrs < 0 || self.block < 0 || self.tx < 0
    }

    /// Whether an awaited answer is overdue now (see
    /// [`MessageTimer::unresponsive`]); never while nothing is awaited.
    pub fn unresponsive(&self) -> (r: bool)
        ensures
            exists|now: Instant| r == #[trigger] self.overdue_at(now),
            !self@.tracking() ==> !r,
    {
        let r = self.timer.unresponsive();
        proof {
            let now = choose|now: Instant| r == #[trigger] self.timer.overdue_at(now);
            assert(r == self.overdue_at(now));
        }
        r
    }
}

/// The view of a counter is what its public timer holds, and its counts
/// fit the integer types they are kept in.
pub proof fn lemma_counter_view(c: &MessageCounter)
    ensures
        c@.tracked_time == c.timer.tracked_time,
        c@.timeout == c.timer.timeout,
        i8::MIN <= c@.version <= i8::MAX,
        i8::MIN <= c@.verack <= i8::MAX,
        i32::MIN <= c@.header <= i32::MAX,
        i32::MIN <= c@.filter_header <= i32::MAX,
        i64::MIN <= c@.filters <= i64::MAX,
        i32::MIN <= c@.addrs <= i32::MAX,
        i32::MIN <= c@.block <= i32::MAX,
        i32::MIN <= c@.tx <= i32::MAX,
{
}

/// A request answered by its response leaves every count as it was, and
/// the timer no longer waiting; requests that start no timer leave it as
/// it was.
pub proof fn lemma_answered_request_balances(s: CounterState, at: Instant)
    ensures
        s.on_sent_header(at).on_got_header() == s.untracked(),
        s.on_sent_filter_header(at).on_got_filter_header() == s.untracked(),
        s.on_sent_filters(at).on_got_filters(FILTERS_PER_REQUEST as nat) == s.untracked(),
        s.on_sent_block(at).on_got_block() == s.untracked(),
        s.on_sent_tx().on_got_reject() == s,
        s.on_sent_addrs().on_got_addrs(ADDR_HARD_LIMIT as int) == s,
{
    lemma_got_filters(s.on_sent_filters(at), FILTERS_PER_REQUEST as nat);
}

/// Receiving `n` filters lowers their count by `n`, and stops the timer
/// once at least one arrived.
pub proof fn lemma_got_filters(s: CounterState, n: nat)
    ensures
        s.on_got_filters(n) == (CounterState {
            tracked_time: if n == 0 { s.tracked_time } else { None },
            filters: s.filters - n,
            ..s
        }),
    decreases n,
{
    if n > 0 {
        lemma_got_filters(s, (n - 1) as nat);
    }
}

/// Answers within what was asked for never make the peer unsolicited.
pub proof fn lemma_asked_answers_are_solicited(s: CounterState, got: int, n: nat, at: Instant)
    requires
        !s.unsolicited(),
        0 <= got <= ADDR_HARD_LIMIT,
        n <= FILTERS_PER_REQUEST,
    ensures
        !s.on_sent_header(at).on_got_header().unsolicited(),
        !s.on_sent_filter_header(at).on_got_filter_header().unsolicited(),
        !s.on_sent_filters(at).on_got_filters(n).unsolicited(),
        !s.on_sent_addrs().on_got_addrs(got).unsolicited(),
        !s.on_sent_block(at).on_got_block().unsolicited(),
        !s.on_sent_tx().on_got_reject().unsolicited(),
{
    lemma_got_filters(s.on_sent_filters(at), n);
}

/// A message that nothing asked for is caught: receiving a kind of
/// message whose count is not positive makes the peer unsolicited.
pub proof fn lemma_unasked_answers_are_caught(s: CounterState, got: int)
    ensures
        s.version <= 0 ==> s.on_got_version().unsolicited(),
        s.verack <= 0 ==> s.on_got_verack().unsolicited(),
        s.filter_header <= 0 ==> s.on_got_filter_header().unsolicited(),
        s.filters <= 0 ==> s.on_got_filter().unsolicited(),
        got > s.addrs ==> s.on_got_addrs(got).unsolicited(),
        s.block <= 0 ==> s.on_got_block().unsolicited(),
        s.tx <= 0 ==> s.on_got_reject().unsolicited(),
{
}

/// A fresh counter accepts one version and one verack, and no second one.
pub proof fn lemma_fresh_counter_handshake(timeout: Duration)
    ensures
        !CounterState::initial(timeout).unsolicited(),
        !CounterState::initial(timeout).tracking(),
        !CounterState::initial(timeout).on_got_version().on_got_verack().unsolicited(),
        CounterState::initial(timeout).on_got_version().on_got_version().unsolicited(),
        CounterState::initial(timeout).on_got_verack().on_got_verack().unsolicited(),
{
}

/// The timer waits after every request that expects an answer in time, and
/// stops at every such answer; the other messages leave it as it was.
pub proof fn lemma_timer_follows_requests(s: CounterState, at: Instant, got: int)
    ensures
        s.on_sent_version(at).tracked_time == Some(at),
        s.on_sent_header(at).tracked_time == Some(at),
        s.on_sent_filter_header(at).tracked_time == Some(at),
        s.on_sent_filters(at).tracked_time == Some(at),
        s.on_sent_block(at).tracked_time == Some(at),
        !s.on_got_verack().tracking(),
        !s.on_got_header().tracking(),
        !s.on_got_filter_header().tracking(),
        !s.on_got_filter().tracking(),
        !s.on_got_block().tracking(),
        s.on_got_version().tracked_time == s.tracked_time,
        s.on_got_addrs(got).tracked_time == s.tracked_time,
        s.on_got_reject().tracked_time == s.tracked_time,
        s.on_sent_addrs().tracked_time == s.tracked_time,
        s.on_sent_tx().tracked_time == s.tracked_time,
{
}

/// One step of the address exchange with a peer.
pub enum AddrEvent {
    /// A `getaddr` request was sent.
    Sent,
    /// This many addresses were received.
    Got(nat),
}

impl CounterState {
    /// The state after the address exchange `events`, in order.
    pub open spec fn on_addr_events(self, events: Seq<AddrEvent>) -> CounterState
        decreases events.len(),
    {
        if events.len() == 0 {
            self
        } else {
            let before = self.on_addr_events(events.drop_last());
            match events.last() {
                AddrEvent::Sent => before.on_sent_addrs(),
                AddrEvent::Got(n) => before.on_got_addrs(n as int),
            }
        }
    }
}

/// How many requests `events` sends.
pub open spec fn addr_requests(events: Seq<AddrEvent>) -> nat
    decreases events.len(),
{
    if events.len() == 0 {
        0
    } else {
        addr_requests(events.drop_last()) + match events.last() {
            AddrEvent::Sent => 1nat,
            AddrEvent::Got(_) => 0nat,
        }
    }
}

/// How many addresses `events` receives.
pub open spec fn addrs_received(events: Seq<AddrEvent>) -> nat
    decreases events.len(),
{
    if events.len() == 0 {
        0
    } else {
        addrs_received(events.drop_last()) + match events.last() {
            AddrEvent::Sent => 0nat,
            AddrEvent::Got(n) => n,
        }
    }
}

/// Whatever the order of requests and answers, the address count is the
/// budget of `ADDR_HARD_LIMIT` per request sent less the addresses
/// received, and nothing else changes.
pub proof fn lemma_addr_budget(s: CounterState, events: Seq<AddrEvent>)
    ensures
        s.on_addr_events(events) == (CounterState {
            addrs: s.addrs + ADDR_HARD_LIMIT * addr_requests(events) - addrs_received(events),
            ..s
        }),
    decreases events.len(),
{
    if events.len() > 0 {
        lemma_addr_budget(s, events.drop_last());
    }
}

/// From a fresh counter, whatever the order of requests and answers, the
/// peer is unsolicited exactly when it sent more addresses than
/// `ADDR_HARD_LIMIT` per request; exactly that many is still accepted.
pub proof fn lemma_fresh_addr_budget(timeout: Duration, events: Seq<AddrEvent>)
    ensures
        CounterState::initial(timeout).on_addr_events(events).addrs == ADDR_HARD_LIMIT
            * addr_requests(events) - addrs_received(events),
        CounterState::initial(timeout).on_addr_events(events).unsolicited() <==> addrs_received(
            events,
        ) > ADDR_HARD_LIMIT * addr_requests(events),
{
    lemma_addr_budget(CounterState::initial(timeout), events);
}


/// A request changes no count but that of the answers it asks for, and
/// raises that one by what may come back: sending our own version, a
/// `getheaders` or a transaction grants nothing of another kind.
pub proof fn lemma_requests_grant_only_their_answers(s: CounterState, at: Instant)
    ensures
        ({
            let t = s.on_sent_version(at);
            t.version == s.version && t.verack == s.verack && t.header == s.header
                && t.filter_header == s.filter_header && t.filters == s.filters && t.addrs
                == s.addrs && t.block == s.block && t.tx == s.tx && t.timeout == s.timeout
                && t.tracked_time == Some(at)
        }),
        ({
            let t = s.on_sent_header(at);
            t.version == s.version && t.verack == s.verack && t.header == s.header
                && t.filter_header == s.filter_header && t.filters == s.filters && t.addrs
                == s.addrs && t.block == s.block && t.tx == s.tx && t.timeout == s.timeout
                && t.tracked_time == Some(at)
        }),
        ({
            let t = s.on_sent_filter_header(at);
            t.version == s.version && t.verack == s.verack && t.header == s.header
                && t.filter_header == s.filter_header + 1 && t.filters == s.filters && t.addrs
                == s.addrs && t.block == s.block && t.tx == s.tx && t.timeout == s.timeout
                && t.tracked_time == Some(at)
        }),
        ({
            let t = s.on_sent_filters(at);
            t.version == s.version && t.verack == s.verack && t.header == s.header
                && t.filter_header == s.filter_header && t.filters == s.filters + 1000 && t.addrs
                == s.addrs && t.block == s.block && t.tx == s.tx && t.timeout == s.timeout
                && t.tracked_time == Some(at)
        }),
        ({
            let t = s.on_sent_block(at);
            t.version == s.version && t.verack == s.verack && t.header == s.header
                && t.filter_header == s.filter_header && t.filters == s.filters && t.addrs
                == s.addrs && t.block == s.block + 1 && t.tx == s.tx && t.timeout == s.timeout
                && t.tracked_time == Some(at)
        }),
        ({
            let t = s.on_sent_addrs();
            t.version == s.version && t.verack == s.verack && t.header == s.header
                && t.filter_header == s.filter_header && t.filters == s.filters && t.addrs
                == s.addrs + 10_000 && t.block == s.block && t.tx == s.tx && t.timeout
                == s.timeout && t.tracked_time == s.tracked_time
        }),
        ({
            let t = s.on_sent_tx();
            t.version == s.version && t.verack == s.verack && t.header == s.header
                && t.filter_header == s.filter_header && t.filters == s.filters && t.addrs
                == s.addrs && t.block == s.block && t.tx == s.tx + 1 && t.timeout == s.timeout
                && t.tracked_time == s.tracked_time
        }),
{
}

/// Sending our own version does not let the peer send a second one: from
/// a fresh counter, our version followed by two of the peer's is caught,
/// and in general a version beyond the expected one is caught whatever we
/// sent.
pub proof fn lemma_second_version_caught(timeout: Duration, s: CounterState, at: Instant)
    ensures
        CounterState::initial(timeout).on_sent_version(at).on_got_version().on_got_version().unsolicited(),
        s.version <= 0 ==> s.on_sent_version(at).on_got_version().unsolicited(),
{
}

} // verus!
