//! Markets of the fifteen-minute bitcoin series: their descriptors, and the
//! choice of the previous, current and next market around a moment.
//!
//! Times are whole milliseconds since the Unix epoch.

use vstd::prelude::*;

verus! {

/// Length of one market, in minutes.
pub const MARKET_INTERVAL_MINUTES: usize = 15;

/// Length of one market, in seconds.
pub const MARKET_INTERVAL_SECONDS: usize = MARKET_INTERVAL_MINUTES * 60;

/// Length of one market, in milliseconds.
pub const MARKET_INTERVAL_MS: i64 = 900_000;

/// Life-cycle status of a market as the exchange reports it.
#[derive(Debug, Clone, Copy, PartialEq, Eq, PartialOrd, Ord, Structural)]
pub enum KalshiMarketStatus {
    Initialized,
    Inactive,
    Active,
    Closed,
    Determined,
    Disputed,
    Amended,
    Finalized,
}

/// Outcome of a binary market.
#[derive(Debug, Clone, Copy, PartialEq, Eq, Structural)]
pub enum KalshiBinaryMarketResult {
    Yes,
    No,
    Unresolved,
}

/// The exchange's identifier of a market.
#[derive(Debug, Clone, PartialEq, Eq, PartialOrd, Ord)]
pub struct MarketTicker(pub String);

impl MarketTicker {
    /// Whether two tickers name the same market.
    pub fn same_as(&self, other: &MarketTicker) -> (r: bool)
        ensures
            r == (self.0@ == other.0@),
    {
        self.0 == other.0
    }
}

/// A bitcoin price in dollars, carried as the bit pattern of the IEEE-754
/// double that holds it. The library moves such prices around and never
/// computes with them.
#[derive(Debug, Clone, Copy, PartialEq, Eq, Structural)]
pub struct PriceBits(pub u64);

/// What the exchange says about one market.
#[derive(Debug, Clone)]
pub struct KalshiMarketDescriptor {
    pub ticker: MarketTicker,
    /// The bitcoin price the market settles against, once it is known.
    pub strike_price: Option<PriceBits>,
    /// When trading ends, in milliseconds since the epoch.
    pub close_time: i64,
    pub status: KalshiMarketStatus,
    pub result: Option<KalshiBinaryMarketResult>,
    /// The bitcoin price the market settled at, once it is known.
    pub expiration_value: Option<PriceBits>,
}

/// The start of a market that closes at `close_time`.
pub open spec fn start_of(close_time: int) -> int {
    close_time - MARKET_INTERVAL_MS
}

impl KalshiMarketDescriptor {
    /// When trading starts: one market interval before the close.
    pub fn get_start_time(&self) -> (t: i64)
        requires
            self.close_time >= i64::MIN + MARKET_INTERVAL_MS,
        ensures
            t == start_of(self.close_time as int),
    {
        self.close_time - MARKET_INTERVAL_MS
    }
}

/// The three markets around a moment.
pub struct PreviousCurrentAndNextMarkets {
    pub next_market: KalshiMarketDescriptor,
    pub current_market: KalshiMarketDescriptor,
    pub previous_market: KalshiMarketDescriptor,
}

/// Inserts `d` into `s` after every element, counted from the back, up to the
/// last one that closes no later than `d`: the step of a stable insertion sort.
pub open spec fn insert_by_close(s: Seq<KalshiMarketDescriptor>, d: KalshiMarketDescriptor) -> Seq<
    KalshiMarketDescriptor,
>
    decreases s.len(),
{
    if s.len() == 0 {
        seq![d]
    } else if s.last().close_time <= d.close_time {
        s.push(d)
    } else {
        insert_by_close(s.drop_last(), d).push(s.last())
    }
}

/// The markets ordered by close time; markets that close together keep their order.
pub open spec fn sort_by_close(s: Seq<KalshiMarketDescriptor>) -> Seq<KalshiMarketDescriptor>
    decreases s.len(),
{
    if s.len() == 0 {
        s
    } else {
        insert_by_close(sort_by_close(s.drop_last()), s.last())
    }
}

/// A market is live at moment `t` when `t` lies in `[start, close)`.
pub open spec fn is_live_at(d: KalshiMarketDescriptor, t: int) -> bool {
    start_of(d.close_time as int) <= t < d.close_time
}

/// A market is live from one market interval before its close, included, up to
/// its close, excluded.
pub proof fn lemma_live_window(d: KalshiMarketDescriptor, t: int)
    ensures
        is_live_at(d, t) <==> d.close_time - 900_000 <= t && t < d.close_time,
{
}

/// `i` is the first position of `s` whose market is live at `t`.
pub open spec fn is_first_live(s: Seq<KalshiMarketDescriptor>, t: int, i: int) -> bool {
    &&& 0 <= i < s.len()
    &&& is_live_at(s[i], t)
    &&& forall|j: int| 0 <= j < i ==> !is_live_at(#[trigger] s[j], t)
}

/// The previous, current and next markets around `t`: once the markets are sorted
/// by close time, the first one live at `t` and its two neighbours. `None` when
/// no market is live at `t` or the live one lacks a neighbour on either side.
pub open spec fn markets_around(markets: Seq<KalshiMarketDescriptor>, t: int) -> Option<
    (KalshiMarketDescriptor, KalshiMarketDescriptor, KalshiMarketDescriptor),
> {
    let s = sort_by_close(markets);
    if exists|i: int| is_first_live(s, t, i) {
        let i: int = choose|i: int| is_first_live(s, t, i);
        if 1 <= i && i + 1 < s.len() {
            Some((s[i - 1], s[i], s[i + 1]))
        } else {
            None
        }
    } else {
        None
    }
}

/// The markets close in order: no market closes before an earlier one in the sequence.
pub open spec fn closes_in_order(s: Seq<KalshiMarketDescriptor>) -> bool {
    forall|i: int, j: int| 0 <= i < j < s.len() ==> s[i].close_time <= s[j].close_time
}

proof fn lemma_insert_by_close_sorted(s: Seq<KalshiMarketDescriptor>, d: KalshiMarketDescriptor)
    requires
        closes_in_order(s),
    ensures
        closes_in_order(insert_by_close(s, d)),
        insert_by_close(s, d).to_multiset() == s.to_multiset().insert(d),
    decreases s.len(),
{
    broadcast use vstd::seq_lib::group_to_multiset_ensures;
    broadcast use vstd::multiset::group_multiset_axioms;

    if s.len() == 0 {
        assert(seq![d] =~= Seq::<KalshiMarketDescriptor>::empty().push(d));
    } else if s.last().close_time <= d.close_time {
    } else {
        let rest = s.drop_last();
        assert(closes_in_order(rest));
        lemma_insert_by_close_sorted(rest, d);
        let r = insert_by_close(rest, d);
        assert forall|k: int| 0 <= k < r.len() implies #[trigger] r[k].close_time <= s.last().close_time by {
            let x = r[k];
            assert(r.contains(x));
            assert(r.to_multiset().count(x) > 0);
            if x != d {
                assert(rest.to_multiset().count(x) > 0);
                assert(rest.contains(x));
                let m: int = choose|m: int| 0 <= m < rest.len() && rest[m] == x;
                assert(s[m] == x);
            }
        }
        assert(s =~= rest.push(s.last()));
    }
}

/// Sorting by close time orders the markets by close time and keeps every
/// market, as often as it was listed.
pub proof fn lemma_sort_by_close_sorts(s: Seq<KalshiMarketDescriptor>)
    ensures
        closes_in_order(sort_by_close(s)),
        sort_by_close(s).to_multiset() == s.to_multiset(),
    decreases s.len(),
{
    broadcast use vstd::seq_lib::group_to_multiset_ensures;

    if s.len() > 0 {
        lemma_sort_by_close_sorts(s.drop_last());
        lemma_insert_by_close_sorted(sort_by_close(s.drop_last()), s.last());
        assert(s =~= s.drop_last().push(s.last()));
    }
}

/// The markets of `s` that close at `close_time`, in their order in `s`.
pub open spec fn closing_at(s: Seq<KalshiMarketDescriptor>, close_time: i64) -> Seq<
    KalshiMarketDescriptor,
>
    decreases s.len(),
{
    if s.len() == 0 {
        s
    } else if s.last().close_time == close_time {
        closing_at(s.drop_last(), close_time).push(s.last())
    } else {
        closing_at(s.drop_last(), close_time)
    }
}

proof fn lemma_insert_by_close_stable(
    s: Seq<KalshiMarketDescriptor>,
    d: KalshiMarketDescriptor,
    close_time: i64,
)
    ensures
        closing_at(insert_by_close(s, d), close_time) == if d.close_time == close_time {
            closing_at(s, close_time).push(d)
        } else {
            closing_at(s, close_time)
        },
    decreases s.len(),
{
    if s.len() == 0 {
        assert(seq![d].drop_last() =~= s);
    } else if s.last().close_time <= d.close_time {
        assert(s.push(d).drop_last() =~= s);
    } else {
        lemma_insert_by_close_stable(s.drop_last(), d, close_time);
        let r = insert_by_close(s.drop_last(), d);
        assert(r.push(s.last()).drop_last() =~= r);
    }
}

/// Sorting by close time is stable: the markets that close at the same time come
/// out in the order in which they were listed.
pub proof fn lemma_sort_by_close_stable(s: Seq<KalshiMarketDescriptor>, close_time: i64)
    ensures
        closing_at(sort_by_close(s), close_time) == closing_at(s, close_time),
    decreases s.len(),
{
    if s.len() > 0 {
        lemma_sort_by_close_stable(s.drop_last(), close_time);
        lemma_insert_by_close_stable(sort_by_close(s.drop_last()), s.last(), close_time);
    }
}

/// The markets picked around a moment were listed, the current one is live at
/// that moment, and they close in the order previous, current, next.
pub proof fn lemma_markets_around_ordered(markets: Seq<KalshiMarketDescriptor>, t: int)
    requires
        markets_around(markets, t) is Some,
    ensures
        ({
            let (previous, current, next) = markets_around(markets, t)->Some_0;
            &&& is_live_at(current, t)
            &&& previous.close_time <= current.close_time <= next.close_time
            &&& markets.contains(previous)
            &&& markets.contains(current)
            &&& markets.contains(next)
        }),
{
    broadcast use vstd::seq_lib::group_to_multiset_ensures;

    let s = sort_by_close(markets);
    lemma_sort_by_close_sorts(markets);
    let i: int = choose|i: int| is_first_live(s, t, i);
    assert(s.contains(s[i - 1]));
    assert(s.contains(s[i]));
    assert(s.contains(s[i + 1]));
    assert(s.to_multiset().count(s[i - 1]) > 0);
    assert(s.to_multiset().count(s[i]) > 0);
    assert(s.to_multiset().count(s[i + 1]) > 0);
}

proof fn lemma_insert_at(s: Seq<KalshiMarketDescriptor>, d: KalshiMarketDescriptor, p: int)
    requires
        0 <= p <= s.len(),
        forall|j: int| p <= j < s.len() ==> #[trigger] s[j].close_time > d.close_time,
        p > 0 ==> s[p - 1].close_time <= d.close_time,
    ensures
        insert_by_close(s, d) == s.insert(p, d),
    decreases s.len(),
{
    if s.len() == 0 {
        assert(s.insert(p, d) =~= seq![d]);
    } else if s.last().close_time <= d.close_time {
        assert(p == s.len());
        assert(s.insert(p, d) =~= s.push(d));
    } else {
        lemma_insert_at(s.drop_last(), d, p);
        assert(s.drop_last().insert(p, d).push(s.last()) =~= s.insert(p, d));
    }
}

/// Sorts markets by close time, stably.
fn sort_markets_by_close(markets: Vec<KalshiMarketDescriptor>) -> (r: Vec<KalshiMarketDescriptor>)
    ensures
        r@ == sort_by_close(markets@),
{
    let ghost orig = markets@;
    let mut input = markets;
    let mut sorted: Vec<KalshiMarketDescriptor> = Vec::new();
    let n: usize = input.len();
    let mut i: usize = 0;
    assert(orig.take(0) =~= Seq::<KalshiMarketDescriptor>::empty());
    assert(orig.skip(0) =~= orig);
    while i < n
        invariant
            n == orig.len(),
            i <= n,
            input@ == orig.skip(i as int),
            sorted@ == sort_by_close(orig.take(i as int)),
        decreases n - i,
    {
        let d = input.remove(0);
        assert(d == orig[i as int]);
        let mut p: usize = sorted.len();
        while p > 0 && sorted[p - 1].close_time > d.close_time
            invariant
                p <= sorted@.len(),
                forall|j: int| p <= j < sorted@.len() ==> #[trigger] sorted@[j].close_time > d.close_time,
            decreases p,
        {
            p = p - 1;
        }
        proof {
            lemma_insert_at(sorted@, d, p as int);
            assert(orig.take(i as int + 1).drop_last() =~= orig.take(i as int));
            assert(orig.skip(i as int).remove(0) =~= orig.skip(i as int + 1));
        }
        sorted.insert(p, d);
        i = i + 1;
    }
    assert(orig.take(n as int) =~= orig);
    sorted
}

/// The previous, current and next markets around `target_time`, from the markets
/// the exchange listed near that moment (in any order); `None` when there is no
/// such triple.
pub fn pick_previous_current_and_next(
    markets: Vec<KalshiMarketDescriptor>,
    target_time: i64,
) -> (r: Option<PreviousCurrentAndNextMarkets>)
    ensures
        match r {
            Some(p) => markets_around(markets@, target_time as int) == Some(
                (p.previous_market, p.current_market, p.next_market),
            ),
            None => markets_around(markets@, target_time as int) is None,
        },
{
    let mut sorted = sort_markets_by_close(markets);
    let ghost s = sorted@;
    let n: usize = sorted.len();
    let mut i: usize = 0;
    while i < n
        invariant
            n == s.len(),
            sorted@ == s,
            s == sort_by_close(markets@),
            i <= n,
            forall|j: int| 0 <= j < i ==> !is_live_at(#[trigger] s[j], target_time as int),
        decreases n - i,
    {
        let close: i128 = sorted[i].close_time as i128;
        if close - (MARKET_INTERVAL_MS as i128) <= target_time as i128 && (target_time as i128)
            < close {
            proof {
                assert(is_first_live(s, target_time as int, i as int));
                let k: int = choose|k: int| is_first_live(s, target_time as int, k);
                assert(k == i as int) by {
                    if k < i {
                        assert(!is_live_at(s[k], target_time as int));
                    }
                    if k > i {
                        assert(!is_live_at(s[i as int], target_time as int));
                    }
                }
            }
            if i == 0 || i + 1 >= n {
                return None;
            }
            let next_market = sorted.remove(i + 1);
            let current_market = sorted.remove(i);
            let previous_market = sorted.remove(i - 1);
            return Some(PreviousCurrentAndNextMarkets { next_market, current_market, previous_market });
        }
        i = i + 1;
    }
    None
}

/// What a market reader is doing for its market.
#[derive(Debug, Clone, Copy, PartialEq, Eq, PartialOrd, Ord, Structural)]
pub enum MarketPollState {
    /// Well before the market opens: nothing to do yet.
    FarBeforeActive,
    /// Just before the market opens: the order book stream is opened.
    RightBeforeActive,
    /// Trading, and the strike price is still unknown: stream the book and poll
    /// the exchange for the strike.
    ActiveLookingForStrike,
    /// Trading with a known strike: stream the book.
    ActiveKnownStrike,
    /// Trading is over: poll the exchange until the market is settled.
    ActivelyTryingToResolve,
    /// Settled: nothing more to do.
    Resolved,
}

/// The position of a poll state in a market's life; states only move forward.
pub open spec fn poll_stage(s: MarketPollState) -> int {
    match s {
        MarketPollState::FarBeforeActive => 0,
        MarketPollState::RightBeforeActive => 1,
        MarketPollState::ActiveLookingForStrike => 2,
        MarketPollState::ActiveKnownStrike => 3,
        MarketPollState::ActivelyTryingToResolve => 4,
        MarketPollState::Resolved => 5,
    }
}

/// The three markets a terminal follows.
#[derive(Debug, Clone, Copy, PartialEq, Eq, Structural)]
pub enum MarketRole {
    Next,
    Current,
    Previous,
}

/// The poll state a market gets when it takes a role, at start-up or when the
/// markets move on by one.
pub fn poll_state_for_new_role(role: MarketRole) -> (s: MarketPollState)
    ensures
        role == MarketRole::Next ==> s == MarketPollState::FarBeforeActive,
        role == MarketRole::Current ==> s == MarketPollState::ActiveLookingForStrike,
        role == MarketRole::Previous ==> s == MarketPollState::ActivelyTryingToResolve,
{
    match role {
        MarketRole::Next => MarketPollState::FarBeforeActive,
        MarketRole::Current => MarketPollState::ActiveLookingForStrike,
        MarketRole::Previous => MarketPollState::ActivelyTryingToResolve,
    }
}

/// How a market is shown.
#[derive(Debug, Clone, Copy, PartialEq, Eq, Structural)]
pub enum RenderPhase {
    /// Open or about to open: header, order book and charts.
    Active,
    /// Closed and waiting for settlement: header, order book and charts.
    Resolving,
    /// Settled: header and charts.
    Resolved,
}

/// How a market in a poll state is shown.
pub fn render_phase(state: MarketPollState) -> (p: RenderPhase)
    ensures
        poll_stage(state) <= 3 ==> p == RenderPhase::Active,
        state == MarketPollState::ActivelyTryingToResolve ==> p == RenderPhase::Resolving,
        state == MarketPollState::Resolved ==> p == RenderPhase::Resolved,
{
    match state {
        MarketPollState::ActiveLookingForStrike
        | MarketPollState::ActiveKnownStrike
        | MarketPollState::RightBeforeActive
        | MarketPollState::FarBeforeActive => RenderPhase::Active,
        MarketPollState::ActivelyTryingToResolve => RenderPhase::Resolving,
        MarketPollState::Resolved => RenderPhase::Resolved,
    }
}

} // verus!
