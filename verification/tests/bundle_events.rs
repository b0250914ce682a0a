use kalshi_terminal::bundle::{floor_seconds, rotate_markets, MarketArchive, MarketBundle, MarketStreamEvent, MarketTick};
use kalshi_terminal::market::{KalshiMarketDescriptor, KalshiMarketStatus, MarketTicker, PriceBits};
use kalshi_terminal::orderbook::{MidCents, Orderbook};

fn descriptor(name: &str, close_time: i64, strike: Option<u64>, status: KalshiMarketStatus) -> KalshiMarketDescriptor {
    KalshiMarketDescriptor {
        ticker: MarketTicker(name.to_string()),
        strike_price: strike.map(PriceBits),
        close_time,
        status,
        result: None,
        expiration_value: None,
    }
}

#[test]
fn new_bundle_takes_the_descriptor() {
    let b = MarketBundle::new(descriptor("M", 1_800_000, Some(7), KalshiMarketStatus::Active), 5u8);
    assert_eq!(b.communicator, 5);
    assert_eq!(b.ticker, MarketTicker("M".to_string()));
    assert_eq!(b.close_time, 1_800_000);
    assert_eq!(b.strike_price, Some(PriceBits(7)));
    assert_eq!(b.final_price, None);
    assert_eq!(b.status, KalshiMarketStatus::Active);
    assert!(b.tick_history.is_empty());
    assert!(b.orderbook.data.iter().all(|&s| s == 0));
    assert_eq!(b.get_start_time(), 900_000);
}

#[test]
fn snapshot_replaces_and_delta_adds() {
    let mut b = MarketBundle::new(descriptor("M", 0, None, KalshiMarketStatus::Active), ());
    let mut snap = Orderbook::new();
    snap.set_shares(300, 4);
    b.apply_event(MarketStreamEvent::OrderbookSnapshot(snap));
    assert_eq!(b.orderbook.get_shares(300), 4);
    b.apply_event(MarketStreamEvent::OrderbookDelta { price_mils: 300, size_delta: -1 });
    assert_eq!(b.orderbook.get_shares(300), 3);
    b.apply_event(MarketStreamEvent::OrderbookDelta { price_mils: 950, size_delta: -2 });
    assert_eq!(b.orderbook.get_shares(950), -2);
    assert_eq!(b.ticker, MarketTicker("M".to_string()));
}

#[test]
fn descriptors_update_from_the_last_that_names_the_market() {
    let mut b = MarketBundle::new(descriptor("M", 0, None, KalshiMarketStatus::Active), ());
    b.apply_event(MarketStreamEvent::NewDescriptors(vec![
        descriptor("M", 10, Some(1), KalshiMarketStatus::Closed),
        descriptor("N", 20, Some(2), KalshiMarketStatus::Determined),
        descriptor("M", 30, Some(3), KalshiMarketStatus::Determined),
        descriptor("O", 40, Some(4), KalshiMarketStatus::Finalized),
    ]));
    assert_eq!(b.close_time, 30);
    assert_eq!(b.strike_price, Some(PriceBits(3)));
    assert_eq!(b.status, KalshiMarketStatus::Determined);
    assert_eq!(b.ticker, MarketTicker("M".to_string()));
}

#[test]
fn descriptors_of_other_markets_change_nothing() {
    let mut b = MarketBundle::new(descriptor("M", 0, None, KalshiMarketStatus::Active), ());
    b.apply_event(MarketStreamEvent::NewDescriptors(vec![descriptor("N", 20, Some(2), KalshiMarketStatus::Determined)]));
    assert_eq!(b.close_time, 0);
    assert_eq!(b.strike_price, None);
    assert_eq!(b.status, KalshiMarketStatus::Active);
}

#[test]
fn a_tick_records_the_book_and_its_mid() {
    let mut b = MarketBundle::new(descriptor("M", 0, None, KalshiMarketStatus::Active), ());
    b.orderbook.set_shares(600, -1);
    b.orderbook.set_shares(400, 1);
    b.record_tick(1234, Some(PriceBits(9)), None);
    assert_eq!(b.tick_history.len(), 1);
    let t = &b.tick_history[0];
    assert_eq!(t.timestamp_ms, 1234);
    assert_eq!(t.official_bitcoin_price, Some(PriceBits(9)));
    assert_eq!(t.approx_bitcoin_price, None);
    assert_eq!(t.market_mid_cents, Some(MidCents { twentieths: 1000 }));
    assert_eq!(t.orderbook.data, b.orderbook.data);
}

#[test]
fn rotation_moves_each_market_one_role_on() {
    let mut next = MarketBundle::new(descriptor("N", 3, None, KalshiMarketStatus::Initialized), 'n');
    let mut current = MarketBundle::new(descriptor("C", 2, None, KalshiMarketStatus::Active), 'c');
    let mut previous = MarketBundle::new(descriptor("P", 1, None, KalshiMarketStatus::Closed), 'p');
    let new_next = MarketBundle::new(descriptor("X", 4, None, KalshiMarketStatus::Initialized), 'x');
    rotate_markets(&mut next, &mut current, &mut previous, new_next);
    assert_eq!(previous.communicator, 'c');
    assert_eq!(current.communicator, 'n');
    assert_eq!(next.communicator, 'x');
    assert_eq!(next.ticker, MarketTicker("X".to_string()));
}

#[test]
fn seconds_round_toward_the_past() {
    assert_eq!(floor_seconds(0), 0);
    assert_eq!(floor_seconds(999), 0);
    assert_eq!(floor_seconds(1000), 1);
    assert_eq!(floor_seconds(-1), -1);
    assert_eq!(floor_seconds(-1000), -1);
    assert_eq!(floor_seconds(-1001), -2);
    assert_eq!(floor_seconds(i64::MIN), -9223372036854776);
    assert_eq!(floor_seconds(i64::MAX), 9223372036854775);
}

#[test]
fn archive_of_a_settled_market() {
    let tick = MarketTick {
        timestamp_ms: 5,
        official_bitcoin_price: None,
        approx_bitcoin_price: None,
        market_mid_cents: None,
        orderbook: Orderbook::new(),
    };
    let a = MarketArchive::new("KXBTC15M-25JAN01", 1_735_689_600_500, Some(PriceBits(42)), None, &[tick, tick]);
    assert_eq!(a.ticker, "KXBTC15M-25JAN01");
    assert_eq!(a.close_time_ts, 1_735_689_600);
    assert_eq!(a.strike_price, PriceBits(42));
    assert_eq!(a.final_price, PriceBits(0.0f64.to_bits()));
    assert_eq!(a.tick_history.len(), 2);
    assert_eq!(a.file_name(), "KXBTC15M-25JAN01_1735689600.kalshi.rkyv");
}

#[test]
fn archive_file_name_of_a_close_before_the_epoch() {
    let a = MarketArchive::new("T", -1500, None, Some(PriceBits(1)), &[]);
    assert_eq!(a.close_time_ts, -2);
    assert_eq!(a.file_name(), "T_-2.kalshi.rkyv");
}
