use kalshi_terminal::bundle::MarketStreamEvent;
use kalshi_terminal::feed::{
    after_failed_poll, align_delta, nearby_close_window, orderbook_from_snapshot, plan_reader_tick,
    saturate_negated_to_i32, saturate_to_i32, KalshiMarketSide, ReaderTickPlan, RetryDecision,
    TICKS_BETWEEN_RESOLVE_POLLS,
};
use kalshi_terminal::market::MarketPollState;

#[test]
fn snapshot_sets_yes_bids_and_no_asks() {
    // NO levels come at their complementary YES price: a NO bid at 55 cents is
    // given at 45 cents, one at 2 cents at 98 cents.
    let book = orderbook_from_snapshot(&vec![(400, 10), (410, 3)], &vec![(450, 7), (980, 1)]);
    assert_eq!(book.get_shares(400), 10);
    assert_eq!(book.get_shares(410), 3);
    assert_eq!(book.get_shares(450), -7);
    assert_eq!(book.get_shares(980), -1);
    assert_eq!(book.get_best_bid_dollars(), Some(410));
    assert_eq!(book.get_best_ask_dollars(), Some(450));
}

#[test]
fn later_snapshot_levels_overwrite_earlier_ones() {
    let book = orderbook_from_snapshot(&vec![(400, 10), (400, 2)], &vec![(400, 5)]);
    // the NO level lands on 400 too and is applied last
    assert_eq!(book.get_shares(400), -5);
}

#[test]
fn snapshot_sizes_saturate_like_float_casts() {
    let book = orderbook_from_snapshot(&vec![(10, 1i64 << 40)], &vec![(100, 1i64 << 40), (200, i64::MIN)]);
    assert_eq!(book.get_shares(10), i32::MAX);
    assert_eq!(book.get_shares(100), i32::MIN);
    assert_eq!(book.get_shares(200), i32::MAX);
    assert_eq!(saturate_to_i32(-5), -5);
    assert_eq!(saturate_negated_to_i32(-5), 5);
    assert_eq!(saturate_negated_to_i32(2147483648), i32::MIN);
    assert_eq!(saturate_negated_to_i32(-2147483648), i32::MAX);
}

#[test]
fn deltas_are_seen_from_the_yes_side() {
    match align_delta(370, 12, KalshiMarketSide::Yes) {
        MarketStreamEvent::OrderbookDelta { price_mils, size_delta } => {
            assert_eq!((price_mils, size_delta), (370, 12));
        }
        _ => panic!("not a delta"),
    }
    // a NO change at 37 cents arrives at its complementary YES price, 63 cents
    match align_delta(630, 12, KalshiMarketSide::No) {
        MarketStreamEvent::OrderbookDelta { price_mils, size_delta } => {
            assert_eq!((price_mils, size_delta), (630, -12));
        }
        _ => panic!("not a delta"),
    }
    match align_delta(-1, -4, KalshiMarketSide::No) {
        MarketStreamEvent::OrderbookDelta { price_mils, size_delta } => {
            assert_eq!((price_mils, size_delta), (-1, 4));
        }
        _ => panic!("not a delta"),
    }
    match align_delta(5, i64::MAX, KalshiMarketSide::No) {
        MarketStreamEvent::OrderbookDelta { price_mils, size_delta } => {
            assert_eq!((price_mils, size_delta), (5, -i32::MAX));
        }
        _ => panic!("not a delta"),
    }
}

#[test]
fn reader_connects_only_in_streaming_states() {
    let p = plan_reader_tick(MarketPollState::FarBeforeActive, false, 0);
    assert_eq!(p, ReaderTickPlan { connect_websocket: false, poll_markets: false, ticks_since_last_resolve_poll: 0 });
    let p = plan_reader_tick(MarketPollState::RightBeforeActive, false, 3);
    assert_eq!(p, ReaderTickPlan { connect_websocket: true, poll_markets: false, ticks_since_last_resolve_poll: 3 });
    let p = plan_reader_tick(MarketPollState::ActiveKnownStrike, true, 0);
    assert!(!p.connect_websocket);
    let p = plan_reader_tick(MarketPollState::Resolved, false, 7);
    assert_eq!(p, ReaderTickPlan { connect_websocket: false, poll_markets: false, ticks_since_last_resolve_poll: 7 });
}

#[test]
fn reader_polls_once_every_forty_one_ticks() {
    assert_eq!(TICKS_BETWEEN_RESOLVE_POLLS, 40);
    let mut ticks = 0;
    let mut polls = Vec::new();
    for tick in 1..=100u64 {
        let p = plan_reader_tick(MarketPollState::ActivelyTryingToResolve, false, ticks);
        assert!(!p.connect_websocket);
        if p.poll_markets {
            polls.push(tick);
        }
        ticks = p.ticks_since_last_resolve_poll;
    }
    assert_eq!(polls, vec![41, 82]);
    let p = plan_reader_tick(MarketPollState::ActiveLookingForStrike, false, 40);
    assert_eq!(p, ReaderTickPlan { connect_websocket: true, poll_markets: true, ticks_since_last_resolve_poll: 0 });
}

#[test]
fn idle_reader_never_polls_or_connects() {
    for state in [MarketPollState::FarBeforeActive, MarketPollState::Resolved] {
        let mut ticks = 0;
        for _ in 0..200 {
            let p = plan_reader_tick(state, false, ticks);
            assert!(!p.connect_websocket);
            assert!(!p.poll_markets);
            ticks = p.ticks_since_last_resolve_poll;
        }
        assert_eq!(ticks, 0);
    }
}

#[test]
fn any_forty_one_ticks_of_a_polling_reader_hold_one_poll() {
    for start in 0..=40u64 {
        let mut ticks = start;
        let mut polls = 0;
        for _ in 0..41 {
            let p = plan_reader_tick(MarketPollState::ActiveLookingForStrike, true, ticks);
            if p.poll_markets {
                polls += 1;
            }
            ticks = p.ticks_since_last_resolve_poll;
        }
        assert_eq!(polls, 1);
    }
}

#[test]
fn price_poller_backs_off_then_gives_up() {
    assert_eq!(after_failed_poll(0), (1, RetryDecision::RetryAfterMs(5000)));
    assert_eq!(after_failed_poll(4), (5, RetryDecision::RetryAfterMs(15000)));
    assert_eq!(after_failed_poll(9), (10, RetryDecision::RetryAfterMs(27500)));
    assert_eq!(after_failed_poll(10), (11, RetryDecision::GiveUp));
}

#[test]
fn nearby_window_is_half_an_hour_either_side() {
    assert_eq!(nearby_close_window(1_735_689_600_500), (1_735_687_800, 1_735_691_400));
    assert_eq!(nearby_close_window(0), (-1800, 1800));
}
