use kalshi_terminal::bundle::MarketBundle;
use kalshi_terminal::market::{KalshiMarketDescriptor, KalshiMarketStatus, MarketPollState, MarketTicker, PriceBits};
use kalshi_terminal::session::{plan_frame, FramePlan};

fn bundle(close_time: i64, strike: Option<u64>, status: KalshiMarketStatus) -> MarketBundle<()> {
    MarketBundle::new(
        KalshiMarketDescriptor {
            ticker: MarketTicker("M".to_string()),
            strike_price: strike.map(PriceBits),
            close_time,
            status,
            result: None,
            expiration_value: None,
        },
        (),
    )
}

const MIN15: i64 = 900_000;

#[test]
fn quiet_frame_changes_nothing() {
    let now = 10 * MIN15;
    let next = bundle(12 * MIN15, None, KalshiMarketStatus::Initialized);
    let current = bundle(11 * MIN15, None, KalshiMarketStatus::Active);
    let previous = bundle(10 * MIN15, None, KalshiMarketStatus::Closed);
    let plan = plan_frame(
        now,
        &next,
        MarketPollState::RightBeforeActive,
        &current,
        MarketPollState::ActiveKnownStrike,
        &previous,
        MarketPollState::ActivelyTryingToResolve,
        false,
    );
    assert_eq!(
        plan,
        FramePlan {
            next_poll_state: None,
            start_market_fetch: false,
            previous_poll_state: None,
            archive_previous: false,
            current_poll_state: None,
        }
    );
}

#[test]
fn busy_frame_moves_every_market_on() {
    let now = 11 * MIN15 + 1;
    let next = bundle(12 * MIN15, None, KalshiMarketStatus::Initialized);
    let current = bundle(11 * MIN15, Some(5), KalshiMarketStatus::Active);
    let previous = bundle(10 * MIN15, Some(4), KalshiMarketStatus::Finalized);
    let plan = plan_frame(
        now,
        &next,
        MarketPollState::FarBeforeActive,
        &current,
        MarketPollState::ActiveLookingForStrike,
        &previous,
        MarketPollState::ActivelyTryingToResolve,
        false,
    );
    assert_eq!(
        plan,
        FramePlan {
            next_poll_state: Some(MarketPollState::RightBeforeActive),
            start_market_fetch: true,
            previous_poll_state: Some(MarketPollState::Resolved),
            archive_previous: true,
            current_poll_state: Some(MarketPollState::ActiveKnownStrike),
        }
    );
}

#[test]
fn next_market_wakes_in_the_thirty_seconds_before_its_start() {
    let current = bundle(11 * MIN15, None, KalshiMarketStatus::Active);
    let previous = bundle(10 * MIN15, None, KalshiMarketStatus::Determined);
    let next = bundle(12 * MIN15, None, KalshiMarketStatus::Initialized);
    // The next market starts at 11 * MIN15.
    let at = |now: i64| {
        plan_frame(now, &next, MarketPollState::FarBeforeActive, &current, MarketPollState::ActiveKnownStrike,
            &previous, MarketPollState::Resolved, true)
    };
    assert_eq!(at(10 * MIN15).next_poll_state, None);
    assert_eq!(at(11 * MIN15 - 30_000).next_poll_state, None);
    assert_eq!(at(11 * MIN15 - 29_999).next_poll_state, Some(MarketPollState::RightBeforeActive));
    assert_eq!(at(11 * MIN15 + 5).next_poll_state, Some(MarketPollState::RightBeforeActive));
    let plan = at(11 * MIN15 - 30_000);
    assert!(!plan.start_market_fetch);
    assert!(!plan.archive_previous);
}
