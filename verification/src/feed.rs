//! The decisions of the market and price feeds: how exchange messages become
//! order book events, what a market reader does on each tick of its clock, and
//! how the price poller backs off after failures.

use vstd::prelude::*;

use crate::bundle::{floor_seconds, seconds_of, MarketStreamEvent};
use crate::market::MarketPollState;
use crate::orderbook::Orderbook;
use crate::price::{
    index_of_price,
    is_grid_price,
    lemma_index_of_price_injective,
    lemma_price_index_round_trip,
    PRICE_LEVELS,
};

verus! {

broadcast use vstd::array::group_array_axioms;

/// The side of a binary market an exchange message speaks of.
#[derive(Debug, Clone, Copy, PartialEq, Eq, PartialOrd, Ord, Structural)]
pub enum KalshiMarketSide {
    Yes,
    No,
}

/// An integer clamped into `i32`, as a float-to-`i32` cast clamps its (truncated) value.
pub open spec fn saturate_i32(x: int) -> i32 {
    if x < i32::MIN {
        i32::MIN
    } else if x > i32::MAX {
        i32::MAX
    } else {
        x as i32
    }
}

/// `x` clamped into `i32`.
pub fn saturate_to_i32(x: i64) -> (r: i32)
    ensures
        r == saturate_i32(x as int),
{
    if x < i32::MIN as i64 {
        i32::MIN
    } else if x > i32::MAX as i64 {
        i32::MAX
    } else {
        x as i32
    }
}

/// `-x` clamped into `i32`.
pub fn saturate_negated_to_i32(x: i64) -> (r: i32)
    ensures
        r == saturate_i32(-(x as int)),
{
    if x <= i32::MIN as i64 {
        i32::MAX
    } else if x >= 2147483648i64 {
        i32::MIN
    } else {
        -(x as i32)
    }
}

/// The book with YES levels of a snapshot set, in order: each level's shares are
/// its size clamped into `i32`.
pub open spec fn with_yes_levels(book: Seq<i32>, levels: Seq<(i32, i64)>) -> Seq<i32>
    decreases levels.len(),
{
    if levels.len() == 0 {
        book
    } else {
        with_yes_levels(book, levels.drop_last()).update(
            index_of_price(levels.last().0 as int),
            saturate_i32(levels.last().1 as int),
        )
    }
}

/// The book with NO levels of a snapshot set, in order. A NO bid at a price is an
/// ask at the complementary YES price (one dollar minus the NO price), so each
/// level, given at that YES price, is set there with its size negated.
pub open spec fn with_no_levels(book: Seq<i32>, levels: Seq<(i32, i64)>) -> Seq<i32>
    decreases levels.len(),
{
    if levels.len() == 0 {
        book
    } else {
        with_no_levels(book, levels.drop_last()).update(
            index_of_price(levels.last().0 as int),
            saturate_i32(-(levels.last().1 as int)),
        )
    }
}

/// The book a snapshot describes: empty, then the YES levels, then the NO levels.
pub open spec fn snapshot_book(yes_levels: Seq<(i32, i64)>, no_levels: Seq<(i32, i64)>) -> Seq<
    i32,
> {
    with_no_levels(with_yes_levels(Seq::new(281, |i: int| 0i32), yes_levels), no_levels)
}

/// The book of a snapshot message. Each level is (YES price in mils, size): a YES
/// level is a bid at its price; a NO level is given at its complementary YES
/// price (one dollar minus the NO price, rounded to mils by the caller) and is an
/// ask there.
pub fn orderbook_from_snapshot(yes_levels: &Vec<(i32, i64)>, no_levels: &Vec<(i32, i64)>) -> (book:
    Orderbook)
    requires
        forall|k: int| 0 <= k < yes_levels@.len() ==> is_grid_price(#[trigger] yes_levels@[k].0 as int),
        forall|k: int|
            0 <= k < no_levels@.len() ==> is_grid_price(#[trigger] no_levels@[k].0 as int),
    ensures
        book.data@ == snapshot_book(yes_levels@, no_levels@),
{
    let mut book = Orderbook::new();
    assert(book.data@ =~= Seq::new(281, |i: int| 0i32));
    let mut i: usize = 0;
    while i < yes_levels.len()
        invariant
            i <= yes_levels@.len(),
            forall|k: int|
                0 <= k < yes_levels@.len() ==> is_grid_price(#[trigger] yes_levels@[k].0 as int),
            book.data@ == with_yes_levels(Seq::new(281, |i: int| 0i32), yes_levels@.take(i as int)),
        decreases yes_levels@.len() - i,
    {
        let (price, size): (i32, i64) = yes_levels[i];
        book.set_shares(price, saturate_to_i32(size));
        assert(yes_levels@.take(i as int + 1).drop_last() =~= yes_levels@.take(i as int));
        i = i + 1;
    }
    assert(yes_levels@.take(yes_levels@.len() as int) =~= yes_levels@);
    let ghost after_yes = book.data@;
    let mut j: usize = 0;
    while j < no_levels.len()
        invariant
            j <= no_levels@.len(),
            forall|k: int|
                0 <= k < no_levels@.len() ==> is_grid_price(#[trigger] no_levels@[k].0 as int),
            book.data@ == with_no_levels(after_yes, no_levels@.take(j as int)),
        decreases no_levels@.len() - j,
    {
        let (price, size): (i32, i64) = no_levels[j];
        book.set_shares(price, saturate_negated_to_i32(size));
        assert(no_levels@.take(j as int + 1).drop_last() =~= no_levels@.take(j as int));
        j = j + 1;
    }
    assert(no_levels@.take(no_levels@.len() as int) =~= no_levels@);
    book
}

/// The order book change of a delta message on one side, seen from the YES side:
/// a YES change keeps its size, a NO change has its size negated.
pub open spec fn aligned_delta(yes_price_mils: int, delta: int, side: KalshiMarketSide) -> (int, int) {
    match side {
        KalshiMarketSide::Yes => (yes_price_mils, saturate_i32(delta) as int),
        KalshiMarketSide::No => (yes_price_mils, -(saturate_i32(delta) as int)),
    }
}

/// The event of a delta message. `yes_price_mils` is the YES price the change
/// lands on: the message's price for a YES change, and for a NO change the
/// complementary price (one dollar minus the NO price, rounded to mils by the
/// caller). A NO change is an ask there, so its size is negated.
pub fn align_delta(yes_price_mils: i32, delta: i64, side: KalshiMarketSide) -> (e: MarketStreamEvent)
    requires
        side == KalshiMarketSide::No ==> delta > i32::MIN,
    ensures
        e matches MarketStreamEvent::OrderbookDelta { price_mils: p, size_delta: s } && (p as int, s as int)
            == aligned_delta(yes_price_mils as int, delta as int, side),
{
    match side {
        KalshiMarketSide::Yes => MarketStreamEvent::OrderbookDelta {
            price_mils: yes_price_mils,
            size_delta: saturate_to_i32(delta),
        },
        KalshiMarketSide::No => MarketStreamEvent::OrderbookDelta {
            price_mils: yes_price_mils,
            size_delta: -saturate_to_i32(delta),
        },
    }
}

/// Clamping into `i32` keeps a value that fits and takes the nearest bound otherwise.
pub proof fn lemma_saturate_i32(x: int)
    ensures
        i32::MIN <= x <= i32::MAX ==> saturate_i32(x) == x,
        x > i32::MAX ==> saturate_i32(x) == i32::MAX,
        x < i32::MIN ==> saturate_i32(x) == i32::MIN,
{
}

proof fn lemma_yes_levels_at(book: Seq<i32>, levels: Seq<(i32, i64)>, i: int)
    requires
        book.len() == PRICE_LEVELS,
        0 <= i < PRICE_LEVELS,
        forall|k: int| 0 <= k < levels.len() ==> is_grid_price(#[trigger] levels[k].0 as int),
    ensures
        with_yes_levels(book, levels).len() == PRICE_LEVELS,
        (forall|k: int| 0 <= k < levels.len() ==> index_of_price(#[trigger] levels[k].0 as int) != i)
            ==> with_yes_levels(book, levels)[i] == book[i],
        forall|k: int|
            0 <= k < levels.len() && index_of_price(levels[k].0 as int) == i && (forall|j: int|
                k < j < levels.len() ==> index_of_price(#[trigger] levels[j].0 as int) != i)
                ==> with_yes_levels(book, levels)[i] == saturate_i32(#[trigger] levels[k].1 as int),
    decreases levels.len(),
{
    if levels.len() > 0 {
        let rest = levels.drop_last();
        lemma_yes_levels_at(book, rest, i);
        lemma_price_index_round_trip(levels.last().0 as int);
        assert forall|k: int|
            0 <= k < levels.len() && index_of_price(levels[k].0 as int) == i && (forall|j: int|
                k < j < levels.len() ==> index_of_price(#[trigger] levels[j].0 as int) != i)
                implies with_yes_levels(book, levels)[i] == saturate_i32(#[trigger] levels[k].1 as int) by {
            if k < levels.len() - 1 {
                assert(index_of_price(levels[levels.len() - 1].0 as int) != i);
                assert(rest[k] == levels[k]);
                assert forall|j: int| k < j < rest.len() implies index_of_price(#[trigger] rest[j].0 as int) != i by {
                    assert(rest[j] == levels[j]);
                }
            }
        }
        if forall|k: int| 0 <= k < levels.len() ==> index_of_price(#[trigger] levels[k].0 as int) != i {
            assert forall|k: int| 0 <= k < rest.len() implies index_of_price(#[trigger] rest[k].0 as int) != i by {
                assert(rest[k] == levels[k]);
            }
            assert(index_of_price(levels[levels.len() - 1].0 as int) != i);
        }
    }
}

proof fn lemma_no_levels_at(book: Seq<i32>, levels: Seq<(i32, i64)>, i: int)
    requires
        book.len() == PRICE_LEVELS,
        0 <= i < PRICE_LEVELS,
        forall|k: int| 0 <= k < levels.len() ==> is_grid_price(#[trigger] levels[k].0 as int),
    ensures
        with_no_levels(book, levels).len() == PRICE_LEVELS,
        (forall|k: int| 0 <= k < levels.len() ==> index_of_price(#[trigger] levels[k].0 as int) != i)
            ==> with_no_levels(book, levels)[i] == book[i],
        forall|k: int|
            0 <= k < levels.len() && index_of_price(levels[k].0 as int) == i && (forall|j: int|
                k < j < levels.len() ==> index_of_price(#[trigger] levels[j].0 as int) != i)
                ==> with_no_levels(book, levels)[i] == saturate_i32(-(#[trigger] levels[k].1 as int)),
    decreases levels.len(),
{
    if levels.len() > 0 {
        let rest = levels.drop_last();
        lemma_no_levels_at(book, rest, i);
        lemma_price_index_round_trip(levels.last().0 as int);
        assert forall|k: int|
            0 <= k < levels.len() && index_of_price(levels[k].0 as int) == i && (forall|j: int|
                k < j < levels.len() ==> index_of_price(#[trigger] levels[j].0 as int) != i)
                implies with_no_levels(book, levels)[i] == saturate_i32(-(#[trigger] levels[k].1 as int)) by {
            if k < levels.len() - 1 {
                assert(index_of_price(levels[levels.len() - 1].0 as int) != i);
                assert(rest[k] == levels[k]);
                assert forall|j: int| k < j < rest.len() implies index_of_price(#[trigger] rest[j].0 as int) != i by {
                    assert(rest[j] == levels[j]);
                }
            }
        }
        if forall|k: int| 0 <= k < levels.len() ==> index_of_price(#[trigger] levels[k].0 as int) != i {
            assert forall|k: int| 0 <= k < rest.len() implies index_of_price(#[trigger] rest[k].0 as int) != i by {
                assert(rest[k] == levels[k]);
            }
            assert(index_of_price(levels[levels.len() - 1].0 as int) != i);
        }
    }
}

/// What a snapshot book holds at a grid price: the last NO level at that price,
/// as an ask of its size negated (clamped into `i32`); else the last YES level
/// there, as a bid of its size (clamped); else nothing.
pub proof fn lemma_snapshot_reads(
    yes_levels: Seq<(i32, i64)>,
    no_levels: Seq<(i32, i64)>,
    price: int,
    k: int,
)
    requires
        is_grid_price(price),
        forall|j: int| 0 <= j < yes_levels.len() ==> is_grid_price(#[trigger] yes_levels[j].0 as int),
        forall|j: int| 0 <= j < no_levels.len() ==> is_grid_price(#[trigger] no_levels[j].0 as int),
    ensures
        0 <= k < no_levels.len() && no_levels[k].0 == price && (forall|j: int|
            k < j < no_levels.len() ==> #[trigger] no_levels[j].0 != price) ==> snapshot_book(
            yes_levels,
            no_levels,
        )[index_of_price(price)] == saturate_i32(-(no_levels[k].1 as int)),
        (forall|j: int| 0 <= j < no_levels.len() ==> #[trigger] no_levels[j].0 != price) && 0 <= k
            < yes_levels.len() && yes_levels[k].0 == price && (forall|j: int|
            k < j < yes_levels.len() ==> #[trigger] yes_levels[j].0 != price) ==> snapshot_book(
            yes_levels,
            no_levels,
        )[index_of_price(price)] == saturate_i32(yes_levels[k].1 as int),
        (forall|j: int| 0 <= j < no_levels.len() ==> #[trigger] no_levels[j].0 != price) && (forall|
            j: int,
        | 0 <= j < yes_levels.len() ==> #[trigger] yes_levels[j].0 != price) ==> snapshot_book(
            yes_levels,
            no_levels,
        )[index_of_price(price)] == 0,
{
    let i = index_of_price(price);
    lemma_price_index_round_trip(price);
    let empty = Seq::new(281, |x: int| 0i32);
    lemma_yes_levels_at(empty, yes_levels, i);
    let after_yes = with_yes_levels(empty, yes_levels);
    lemma_no_levels_at(after_yes, no_levels, i);
    assert forall|j: int| 0 <= j < no_levels.len() implies (#[trigger] no_levels[j].0 != price
        <==> index_of_price(no_levels[j].0 as int) != i) by {
        if index_of_price(no_levels[j].0 as int) == i {
            lemma_index_of_price_injective(no_levels[j].0 as int, price);
        }
    }
    assert forall|j: int| 0 <= j < yes_levels.len() implies (#[trigger] yes_levels[j].0 != price
        <==> index_of_price(yes_levels[j].0 as int) != i) by {
        if index_of_price(yes_levels[j].0 as int) == i {
            lemma_index_of_price_injective(yes_levels[j].0 as int, price);
        }
    }
}

/// A delta keeps its size on the YES side and has it negated on the NO side, at
/// the price it is given; the size is the message's delta when that fits in
/// `i32`, and the nearest bound of `i32` otherwise.
pub proof fn lemma_delta_sizes(yes_price_mils: int, delta: int)
    ensures
        aligned_delta(yes_price_mils, delta, KalshiMarketSide::Yes).0 == yes_price_mils,
        aligned_delta(yes_price_mils, delta, KalshiMarketSide::No).0 == yes_price_mils,
        i32::MIN <= delta <= i32::MAX ==> aligned_delta(yes_price_mils, delta, KalshiMarketSide::Yes).1
            == delta,
        delta > i32::MAX ==> aligned_delta(yes_price_mils, delta, KalshiMarketSide::Yes).1
            == i32::MAX,
        delta < i32::MIN ==> aligned_delta(yes_price_mils, delta, KalshiMarketSide::Yes).1
            == i32::MIN,
        aligned_delta(yes_price_mils, delta, KalshiMarketSide::No).1 == -aligned_delta(
            yes_price_mils,
            delta,
            KalshiMarketSide::Yes,
        ).1,
        delta < 0 ==> aligned_delta(yes_price_mils, delta, KalshiMarketSide::Yes).1 < 0,
        delta > 0 ==> aligned_delta(yes_price_mils, delta, KalshiMarketSide::Yes).1 > 0,
{
}

/// Milliseconds between two ticks of a market reader's clock.
pub const TIME_BETWEEN_TICKS_MS: u64 = 25;

/// Milliseconds between two polls of the exchange while a reader waits for news.
pub const TIME_BETWEEN_RESOLVE_POLLS_MS: u64 = 1000;

/// Ticks between two polls of the exchange.
pub const TICKS_BETWEEN_RESOLVE_POLLS: u64 = TIME_BETWEEN_RESOLVE_POLLS_MS / TIME_BETWEEN_TICKS_MS;

/// In these states a reader keeps the order book stream open.
pub open spec fn streams_book(s: MarketPollState) -> bool {
    ||| s == MarketPollState::RightBeforeActive
    ||| s == MarketPollState::ActiveLookingForStrike
    ||| s == MarketPollState::ActiveKnownStrike
}

/// In these states a reader polls the exchange for the market's descriptor.
pub open spec fn polls_exchange(s: MarketPollState) -> bool {
    ||| s == MarketPollState::ActiveLookingForStrike
    ||| s == MarketPollState::ActivelyTryingToResolve
}

/// What a market reader does on one tick of its clock, in this order.
#[derive(Debug, Clone, Copy, PartialEq, Eq, Structural)]
pub struct ReaderTickPlan {
    /// Open the order book stream.
    pub connect_websocket: bool,
    /// Ask the exchange for the markets near now and pass them on.
    pub poll_markets: bool,
    /// The tick count since the last poll, after this tick.
    pub ticks_since_last_resolve_poll: u64,
}

/// The plan of a reader's tick: it opens the book stream when its state streams
/// the book and the stream is closed; when its state polls the exchange it counts
/// the tick and polls (starting the count again) once more than
/// `TICKS_BETWEEN_RESOLVE_POLLS` ticks have passed.
pub open spec fn reader_tick_plan(state: MarketPollState, websocket_connected: bool, ticks: u64) -> ReaderTickPlan {
    let poll = polls_exchange(state) && ticks + 1 > TICKS_BETWEEN_RESOLVE_POLLS;
    ReaderTickPlan {
        connect_websocket: streams_book(state) && !websocket_connected,
        poll_markets: poll,
        ticks_since_last_resolve_poll: if !polls_exchange(state) {
            ticks
        } else if poll {
            0
        } else {
            (ticks + 1) as u64
        },
    }
}

/// A reader's tick.
pub fn plan_reader_tick(
    state: MarketPollState,
    websocket_connected: bool,
    ticks_since_last_resolve_poll: u64,
) -> (plan: ReaderTickPlan)
    requires
        ticks_since_last_resolve_poll <= TICKS_BETWEEN_RESOLVE_POLLS,
    ensures
        plan == reader_tick_plan(state, websocket_connected, ticks_since_last_resolve_poll),
        plan.ticks_since_last_resolve_poll <= TICKS_BETWEEN_RESOLVE_POLLS,
{
    let streams = match state {
        MarketPollState::RightBeforeActive
        | MarketPollState::ActiveLookingForStrike
        | MarketPollState::ActiveKnownStrike => true,
        _ => false,
    };
    let polls = match state {
        MarketPollState::ActiveLookingForStrike | MarketPollState::ActivelyTryingToResolve => true,
        _ => false,
    };
    let mut ticks: u64 = ticks_since_last_resolve_poll;
    let mut poll_markets = false;
    if polls {
        ticks = ticks + 1;
        if ticks > TICKS_BETWEEN_RESOLVE_POLLS {
            ticks = 0;
            poll_markets = true;
        }
    }
    ReaderTickPlan {
        connect_websocket: streams && !websocket_connected,
        poll_markets,
        ticks_since_last_resolve_poll: ticks,
    }
}

/// The number of polls of the exchange over `n` ticks of a reader that stays in
/// `state`, starting with the tick count `ticks`.
pub open spec fn polls_in_run(state: MarketPollState, ticks: u64, n: nat) -> nat
    decreases n,
{
    if n == 0 {
        0
    } else {
        let plan = reader_tick_plan(state, true, ticks);
        (if plan.poll_markets {
            1nat
        } else {
            0nat
        }) + polls_in_run(state, plan.ticks_since_last_resolve_poll, (n - 1) as nat)
    }
}

/// Which states open the book stream and which poll the exchange: on a tick with
/// the stream closed, a reader right before opening or trading (strike known or
/// not) opens it, and a reader in any other state does not; with the stream open
/// nothing is opened. A reader trading without a strike, or waiting for
/// settlement, counts the tick towards a poll; in the other states the count
/// stays and nothing is polled.
pub proof fn lemma_reader_states(state: MarketPollState, websocket_connected: bool, ticks: u64)
    requires
        ticks <= TICKS_BETWEEN_RESOLVE_POLLS,
    ensures
        reader_tick_plan(state, websocket_connected, ticks).connect_websocket <==> !websocket_connected
            && (state == MarketPollState::RightBeforeActive || state
            == MarketPollState::ActiveLookingForStrike || state == MarketPollState::ActiveKnownStrike),
        (state == MarketPollState::ActiveLookingForStrike || state
            == MarketPollState::ActivelyTryingToResolve) ==> {
            &&& ticks < 40 ==> !reader_tick_plan(state, websocket_connected, ticks).poll_markets
                && reader_tick_plan(state, websocket_connected, ticks).ticks_since_last_resolve_poll
                == ticks + 1
            &&& ticks == 40 ==> reader_tick_plan(state, websocket_connected, ticks).poll_markets
                && reader_tick_plan(state, websocket_connected, ticks).ticks_since_last_resolve_poll
                == 0
        },
        !(state == MarketPollState::ActiveLookingForStrike || state
            == MarketPollState::ActivelyTryingToResolve) ==> !reader_tick_plan(
            state,
            websocket_connected,
            ticks,
        ).poll_markets && reader_tick_plan(state, websocket_connected, ticks).ticks_since_last_resolve_poll
            == ticks,
{
}

/// Far before its market opens and once it is resolved, a reader does nothing on
/// a tick: it opens no stream, polls nothing, and its tick count stays.
pub proof fn lemma_idle_reader_does_nothing(state: MarketPollState, websocket_connected: bool, ticks: u64)
    requires
        state == MarketPollState::FarBeforeActive || state == MarketPollState::Resolved,
    ensures
        !reader_tick_plan(state, websocket_connected, ticks).connect_websocket,
        !reader_tick_plan(state, websocket_connected, ticks).poll_markets,
        reader_tick_plan(state, websocket_connected, ticks).ticks_since_last_resolve_poll == ticks,
{
}

/// While a reader stays in a state that polls the exchange, starting from a tick
/// count of `ticks`, it polls exactly `(ticks + n) / 41` times in `n` ticks; in
/// any other state it never polls. So a polling reader polls once in every 41
/// ticks, and never twice within 41 ticks.
pub proof fn lemma_polls_spaced(state: MarketPollState, ticks: u64, n: nat)
    requires
        ticks <= TICKS_BETWEEN_RESOLVE_POLLS,
    ensures
        polls_exchange(state) ==> polls_in_run(state, ticks, n) == (ticks + n) / (
        TICKS_BETWEEN_RESOLVE_POLLS + 1),
        !polls_exchange(state) ==> polls_in_run(state, ticks, n) == 0,
        n <= TICKS_BETWEEN_RESOLVE_POLLS + 1 ==> polls_in_run(state, ticks, n) <= 1,
        polls_exchange(state) && n == TICKS_BETWEEN_RESOLVE_POLLS + 1 ==> polls_in_run(
            state,
            ticks,
            n,
        ) == 1,
    decreases n,
{
    if n > 0 {
        let plan = reader_tick_plan(state, true, ticks);
        lemma_polls_spaced(state, plan.ticks_since_last_resolve_poll, (n - 1) as nat);
        if polls_exchange(state) {
            if plan.poll_markets {
                assert(ticks == 40);
                assert((ticks + n) / 41 == 1 + (n - 1) / 41) by {
                    assert(ticks + n == 41 + (n - 1));
                }
            } else {
                assert(ticks + n == (ticks + 1) + (n - 1));
            }
        }
    }
}

/// How many failed polls of the official price in a row are tolerated.
pub const MAX_FAILS: u64 = 10;

/// Milliseconds between two polls of the official price.
pub const OFFICIAL_PRICE_POLL_PERIOD_MS: u64 = 1100;

/// What the price poller does after a failed poll.
#[derive(Debug, Clone, Copy, PartialEq, Eq, Structural)]
pub enum RetryDecision {
    /// Wait this many milliseconds, then poll again.
    RetryAfterMs(u64),
    /// Too many failures in a row: stop.
    GiveUp,
}

/// After a failed poll: one more failure in a row; past `MAX_FAILS` the poller
/// gives up, otherwise it waits 2.5 seconds times one more than the failures.
pub fn after_failed_poll(fails: u64) -> (r: (u64, RetryDecision))
    requires
        fails <= MAX_FAILS,
    ensures
        r.0 == fails + 1,
        r.0 > MAX_FAILS ==> r.1 == RetryDecision::GiveUp,
        r.0 <= MAX_FAILS ==> r.1 == RetryDecision::RetryAfterMs(((r.0 + 1) * 2500) as u64),
{
    let now_failed: u64 = fails + 1;
    if now_failed > MAX_FAILS {
        (now_failed, RetryDecision::GiveUp)
    } else {
        (now_failed, RetryDecision::RetryAfterMs((now_failed + 1) * 2500))
    }
}

/// How far from a moment the markets asked for may close, in milliseconds.
pub const NEARBY_WINDOW_MS: i64 = 1_800_000;

/// The close times, in whole seconds, between which markets near `target_time`
/// (milliseconds) are asked for: half an hour either side.
pub fn nearby_close_window(target_time: i64) -> (w: (i64, i64))
    requires
        i64::MIN + NEARBY_WINDOW_MS <= target_time <= i64::MAX - NEARBY_WINDOW_MS,
    ensures
        w.0 == seconds_of(target_time - NEARBY_WINDOW_MS),
        w.1 == seconds_of(target_time + NEARBY_WINDOW_MS),
{
    (floor_seconds(target_time - NEARBY_WINDOW_MS), floor_seconds(target_time + NEARBY_WINDOW_MS))
}

} // verus!
