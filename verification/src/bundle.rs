//! Everything a terminal keeps about one market: its book, its recorded ticks,
//! what the exchange last said of it, and the reader that feeds it. Also the
//! archive record written once a market is settled.

use vstd::prelude::*;

use crate::decimal::{decimal_int, push_decimal_i64};
use crate::market::{
    start_of,
    KalshiMarketDescriptor,
    KalshiMarketStatus,
    MarketTicker,
    PriceBits,
    MARKET_INTERVAL_MS,
};
use crate::orderbook::{mid_cents_of, MidCents, Orderbook};
use crate::price::{index_of_price, is_grid_price};

verus! {

/// What a market looked like at one moment.
#[derive(Clone, Copy)]
pub struct MarketTick {
    pub timestamp_ms: i64,
    pub official_bitcoin_price: Option<PriceBits>,
    pub approx_bitcoin_price: Option<PriceBits>,
    pub market_mid_cents: Option<MidCents>,
    pub orderbook: Orderbook,
}

/// What a market reader hands to its bundle.
pub enum MarketStreamEvent {
    /// A whole new book.
    OrderbookSnapshot(Orderbook),
    /// A change of the shares at one price (in mils), YES side.
    OrderbookDelta { price_mils: i32, size_delta: i32 },
    /// What the exchange now lists near the present moment.
    NewDescriptors(Vec<KalshiMarketDescriptor>),
}

/// One followed market. `C` is the reader that streams its events.
pub struct MarketBundle<C> {
    pub communicator: C,
    pub orderbook: Orderbook,
    pub tick_history: Vec<MarketTick>,
    pub ticker: MarketTicker,
    /// Milliseconds since the epoch.
    pub close_time: i64,
    pub strike_price: Option<PriceBits>,
    pub final_price: Option<PriceBits>,
    pub status: KalshiMarketStatus,
}

/// `i` is the last position of `descriptors` that names the market `ticker`.
pub open spec fn is_last_match(
    descriptors: Seq<KalshiMarketDescriptor>,
    ticker: Seq<char>,
    i: int,
) -> bool {
    &&& 0 <= i < descriptors.len()
    &&& descriptors[i].ticker.0@ == ticker
    &&& forall|j: int| i < j < descriptors.len() ==> #[trigger] descriptors[j].ticker.0@ != ticker
}

/// The fields that a bundle takes from a descriptor equal that descriptor's.
pub open spec fn describes<C>(b: MarketBundle<C>, d: KalshiMarketDescriptor) -> bool {
    &&& b.ticker == d.ticker
    &&& b.close_time == d.close_time
    &&& b.strike_price == d.strike_price
    &&& b.final_price == d.expiration_value
    &&& b.status == d.status
}

/// The fields that a bundle takes from a descriptor are the same in both bundles.
pub open spec fn same_description<C>(a: MarketBundle<C>, b: MarketBundle<C>) -> bool {
    &&& a.ticker == b.ticker
    &&& a.close_time == b.close_time
    &&& a.strike_price == b.strike_price
    &&& a.final_price == b.final_price
    &&& a.status == b.status
}

/// Whether an event can be applied to a book: a delta must name a grid price and
/// keep the shares there within `i32`.
pub open spec fn event_applies(book: Orderbook, event: MarketStreamEvent) -> bool {
    match event {
        MarketStreamEvent::OrderbookDelta { price_mils, size_delta } => {
            &&& is_grid_price(price_mils as int)
            &&& i32::MIN <= book.data@[index_of_price(price_mils as int)] + size_delta <= i32::MAX
        },
        _ => true,
    }
}

impl<C> MarketBundle<C> {
    /// A bundle for a described market, with an empty book and no ticks yet.
    pub fn new(descriptor: KalshiMarketDescriptor, communicator: C) -> (b: MarketBundle<C>)
        ensures
            describes(b, descriptor),
            b.communicator == communicator,
            forall|i: int| 0 <= i < 281 ==> b.orderbook.data@[i] == 0,
            b.tick_history@.len() == 0,
    {
        MarketBundle {
            communicator,
            orderbook: Orderbook::new(),
            tick_history: Vec::new(),
            ticker: descriptor.ticker,
            close_time: descriptor.close_time,
            strike_price: descriptor.strike_price,
            final_price: descriptor.expiration_value,
            status: descriptor.status,
        }
    }

    /// Takes over what a descriptor says of the market; the book, the ticks and the
    /// reader stay.
    pub fn update_with_new_descriptor(&mut self, descriptor: KalshiMarketDescriptor)
        ensures
            describes(*final(self), descriptor),
            final(self).communicator == old(self).communicator,
            final(self).orderbook == old(self).orderbook,
            final(self).tick_history == old(self).tick_history,
    {
        self.ticker = descriptor.ticker;
        self.close_time = descriptor.close_time;
        self.strike_price = descriptor.strike_price;
        self.final_price = descriptor.expiration_value;
        self.status = descriptor.status;
    }

    /// When trading starts: one market interval before the close.
    pub fn get_start_time(&self) -> (t: i64)
        requires
            self.close_time >= i64::MIN + MARKET_INTERVAL_MS,
        ensures
            t == start_of(self.close_time as int),
    {
        self.close_time - MARKET_INTERVAL_MS
    }

    /// Applies an event from the market's reader: a snapshot replaces the book, a
    /// delta adds shares at one price, and a list of descriptors updates the
    /// market from the last one in the list that names it.
    pub fn apply_event(&mut self, event: MarketStreamEvent)
        requires
            event_applies(old(self).orderbook, event),
        ensures
            final(self).communicator == old(self).communicator,
            final(self).tick_history == old(self).tick_history,
            match event {
                MarketStreamEvent::OrderbookSnapshot(book) => {
                    &&& final(self).orderbook == book
                    &&& same_description(*final(self), *old(self))
                },
                MarketStreamEvent::OrderbookDelta { price_mils, size_delta } => {
                    &&& final(self).orderbook.data@ == old(self).orderbook.data@.update(
                        index_of_price(price_mils as int),
                        (old(self).orderbook.data@[index_of_price(price_mils as int)]
                            + size_delta) as i32,
                    )
                    &&& same_description(*final(self), *old(self))
                },
                MarketStreamEvent::NewDescriptors(descriptors) => {
                    &&& final(self).orderbook == old(self).orderbook
                    &&& if exists|i: int| is_last_match(descriptors@, old(self).ticker.0@, i) {
                        describes(
                            *final(self),
                            descriptors@[choose|i: int|
                                is_last_match(descriptors@, old(self).ticker.0@, i)],
                        )
                    } else {
                        same_description(*final(self), *old(self))
                    }
                },
            },
    {
        match event {
            MarketStreamEvent::OrderbookSnapshot(new_orderbook) => self.orderbook = new_orderbook,
            MarketStreamEvent::OrderbookDelta { price_mils, size_delta } => {
                self.orderbook.add_shares(price_mils, size_delta);
            },
            MarketStreamEvent::NewDescriptors(descriptors) => {
                let ghost ds = descriptors@;
                let ghost t = self.ticker.0@;
                let mut descriptors = descriptors;
                let mut last: Option<usize> = None;
                let mut i: usize = 0;
                while i < descriptors.len()
                    invariant
                        descriptors@ == ds,
                        i <= ds.len(),
                        self.ticker.0@ == t,
                        match last {
                            Some(l) => l < i && ds[l as int].ticker.0@ == t && forall|j: int|
                                l < j < i ==> #[trigger] ds[j].ticker.0@ != t,
                            None => forall|j: int| 0 <= j < i ==> #[trigger] ds[j].ticker.0@ != t,
                        },
                    decreases ds.len() - i,
                {
                    if descriptors[i].ticker.same_as(&self.ticker) {
                        last = Some(i);
                    }
                    i = i + 1;
                }
                match last {
                    Some(l) => {
                        proof {
                            assert(is_last_match(ds, t, l as int));
                            let k: int = choose|k: int| is_last_match(ds, t, k);
                            assert(k == l as int) by {
                                if k < l {
                                    assert(ds[l as int].ticker.0@ != t);
                                }
                                if k > l {
                                    assert(ds[k].ticker.0@ != t);
                                }
                            }
                        }
                        let d = descriptors.remove(l);
                        self.update_with_new_descriptor(d);
                    },
                    None => {
                        assert(!exists|k: int| is_last_match(ds, t, k));
                    },
                }
            },
        }
    }

    /// Records the market as it is now: the given bitcoin prices, the book and its mid.
    pub fn record_tick(
        &mut self,
        timestamp_ms: i64,
        official_bitcoin_price: Option<PriceBits>,
        approx_bitcoin_price: Option<PriceBits>,
    )
        ensures
            final(self).tick_history@ == old(self).tick_history@.push(
                (MarketTick {
                    timestamp_ms,
                    official_bitcoin_price,
                    approx_bitcoin_price,
                    market_mid_cents: mid_cents_of(old(self).orderbook.data@),
                    orderbook: old(self).orderbook,
                }),
            ),
            final(self).communicator == old(self).communicator,
            final(self).orderbook == old(self).orderbook,
            same_description(*final(self), *old(self)),
    {
        let tick = MarketTick {
            timestamp_ms,
            official_bitcoin_price,
            approx_bitcoin_price,
            market_mid_cents: self.orderbook.get_mid_cents(),
            orderbook: self.orderbook,
        };
        self.tick_history.push(tick);
    }
}

/// Moves the followed markets on by one: the current market becomes the previous
/// one, the next becomes the current, and `new_next` is followed next; the old
/// previous market is dropped.
pub fn rotate_markets<C>(
    next: &mut MarketBundle<C>,
    current: &mut MarketBundle<C>,
    previous: &mut MarketBundle<C>,
    new_next: MarketBundle<C>,
)
    ensures
        *final(previous) == *old(current),
        *final(current) == *old(next),
        *final(next) == new_next,
{
    std::mem::swap(previous, current);
    std::mem::swap(next, current);
    *next = new_next;
}

/// The whole-second part of a time in milliseconds, rounded down.
pub open spec fn seconds_of(ms: int) -> int {
    ms / 1000
}

/// The whole seconds of a time in milliseconds are the last whole second at or
/// before it.
pub proof fn lemma_seconds_of_bounds(ms: int)
    ensures
        seconds_of(ms) * 1000 <= ms < seconds_of(ms) * 1000 + 1000,
{
}

/// The whole seconds of a time in milliseconds, rounded toward the past.
pub fn floor_seconds(ms: i64) -> (s: i64)
    ensures
        s == seconds_of(ms as int),
{
    if ms >= 0 {
        ((ms as u64) / 1000) as i64
    } else {
        let a: u64 = (-(ms + 1)) as u64;
        let q: i64 = (a / 1000) as i64;
        assert((ms as int) / 1000 == -q - 1) by (nonlinear_arith)
            requires
                ms < 0,
                a == -(ms + 1),
                q == a / 1000,
        ;
        -q - 1
    }
}

/// What is kept of a settled market.
pub struct MarketArchive {
    pub ticker: String,
    /// Whole seconds since the epoch.
    pub close_time_ts: i64,
    pub strike_price: PriceBits,
    pub final_price: PriceBits,
    pub tick_history: Vec<MarketTick>,
}

/// The bit pattern of the double `0.0`, kept where a price is unknown.
pub open spec fn zero_price() -> PriceBits {
    PriceBits(0)
}

/// The name of the file that keeps a market.
pub open spec fn archive_file_name(ticker: Seq<char>, close_time_ts: int) -> Seq<char> {
    ticker + "_"@ + decimal_int(close_time_ts) + ".kalshi.rkyv"@
}

impl MarketArchive {
    /// The record of a market: its close in whole seconds, and zero for a price
    /// that is not known.
    pub fn new(
        ticker: &str,
        close_time: i64,
        strike_price: Option<PriceBits>,
        final_price: Option<PriceBits>,
        tick_history: &[MarketTick],
    ) -> (a: MarketArchive)
        ensures
            a.ticker@ == ticker@,
            a.close_time_ts == seconds_of(close_time as int),
            a.strike_price == match strike_price {
                Some(p) => p,
                None => zero_price(),
            },
            a.final_price == match final_price {
                Some(p) => p,
                None => zero_price(),
            },
            a.tick_history@ == tick_history@,
    {
        let mut ticks: Vec<MarketTick> = Vec::new();
        let mut i: usize = 0;
        while i < tick_history.len()
            invariant
                i <= tick_history@.len(),
                ticks@ == tick_history@.take(i as int),
            decreases tick_history@.len() - i,
        {
            ticks.push(tick_history[i]);
            assert(tick_history@.take(i as int + 1) =~= tick_history@.take(i as int).push(
                tick_history@[i as int],
            ));
            i = i + 1;
        }
        assert(tick_history@.take(tick_history@.len() as int) =~= tick_history@);
        MarketArchive {
            ticker: String::from_str(ticker),
            close_time_ts: floor_seconds(close_time),
            strike_price: match strike_price {
                Some(p) => p,
                None => PriceBits(0),
            },
            final_price: match final_price {
                Some(p) => p,
                None => PriceBits(0),
            },
            tick_history: ticks,
        }
    }

    /// The name of the file that keeps this market: its ticker, an underscore, its
    /// close in seconds, and the extension `.kalshi.rkyv`.
    pub fn file_name(&self) -> (name: String)
        ensures
            name@ == archive_file_name(self.ticker@, self.close_time_ts as int),
    {
        let mut name = self.ticker.clone();
        name.append("_");
        push_decimal_i64(&mut name, self.close_time_ts);
        name.append(".kalshi.rkyv");
        name
    }
}

} // verus!
