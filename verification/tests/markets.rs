use kalshi_terminal::market::{
    pick_previous_current_and_next, poll_state_for_new_role, render_phase, KalshiMarketDescriptor,
    KalshiMarketStatus, MarketPollState, MarketRole, MarketTicker, PriceBits, RenderPhase,
};

fn market(name: &str, close_time: i64) -> KalshiMarketDescriptor {
    KalshiMarketDescriptor {
        ticker: MarketTicker(name.to_string()),
        strike_price: None,
        close_time,
        status: KalshiMarketStatus::Active,
        result: None,
        expiration_value: None,
    }
}

const MIN15: i64 = 900_000;

#[test]
fn start_time_is_fifteen_minutes_before_close() {
    let m = market("A", 10 * MIN15);
    assert_eq!(m.get_start_time(), 9 * MIN15);
}

#[test]
fn picks_neighbours_of_the_live_market_from_unsorted_listing() {
    let markets = vec![
        market("D", 5 * MIN15),
        market("B", 3 * MIN15),
        market("A", 2 * MIN15),
        market("C", 4 * MIN15),
    ];
    // 3*MIN15 - 1 lies in [2*MIN15, 3*MIN15): market B is live.
    let picked = pick_previous_current_and_next(markets, 3 * MIN15 - 1).unwrap();
    assert_eq!(picked.previous_market.ticker, MarketTicker("A".to_string()));
    assert_eq!(picked.current_market.ticker, MarketTicker("B".to_string()));
    assert_eq!(picked.next_market.ticker, MarketTicker("C".to_string()));
}

#[test]
fn a_market_is_not_live_at_its_close() {
    let markets = vec![market("A", MIN15), market("B", 2 * MIN15), market("C", 3 * MIN15), market("D", 4 * MIN15)];
    // At exactly 2*MIN15, B has closed and C is live.
    let picked = pick_previous_current_and_next(markets, 2 * MIN15).unwrap();
    assert_eq!(picked.current_market.ticker, MarketTicker("C".to_string()));
    assert_eq!(picked.previous_market.ticker, MarketTicker("B".to_string()));
    assert_eq!(picked.next_market.ticker, MarketTicker("D".to_string()));
}

#[test]
fn no_triple_without_neighbours_or_live_market() {
    let markets = vec![market("A", MIN15), market("B", 2 * MIN15)];
    // A is live, but it has no previous market.
    assert!(pick_previous_current_and_next(markets, 1).is_none());
    let markets = vec![market("A", MIN15), market("B", 2 * MIN15)];
    // B is live, but it has no next market.
    assert!(pick_previous_current_and_next(markets, MIN15 + 5).is_none());
    let markets = vec![market("A", MIN15), market("B", 2 * MIN15), market("C", 3 * MIN15)];
    assert!(pick_previous_current_and_next(markets, 10 * MIN15).is_none());
    assert!(pick_previous_current_and_next(vec![], 0).is_none());
}

#[test]
fn markets_closing_together_keep_their_listed_order() {
    let markets = vec![
        market("X", 3 * MIN15),
        market("P", MIN15),
        market("Q", MIN15),
        market("C", 2 * MIN15),
    ];
    // Sorted: P, Q, C, X (P before Q as listed); C is live at 2*MIN15 - 1.
    let picked = pick_previous_current_and_next(markets, 2 * MIN15 - 1).unwrap();
    assert_eq!(picked.previous_market.ticker, MarketTicker("Q".to_string()));
    assert_eq!(picked.current_market.ticker, MarketTicker("C".to_string()));
    assert_eq!(picked.next_market.ticker, MarketTicker("X".to_string()));
}

#[test]
fn roles_and_render_phases() {
    assert_eq!(poll_state_for_new_role(MarketRole::Next), MarketPollState::FarBeforeActive);
    assert_eq!(poll_state_for_new_role(MarketRole::Current), MarketPollState::ActiveLookingForStrike);
    assert_eq!(poll_state_for_new_role(MarketRole::Previous), MarketPollState::ActivelyTryingToResolve);
    assert_eq!(render_phase(MarketPollState::FarBeforeActive), RenderPhase::Active);
    assert_eq!(render_phase(MarketPollState::RightBeforeActive), RenderPhase::Active);
    assert_eq!(render_phase(MarketPollState::ActiveLookingForStrike), RenderPhase::Active);
    assert_eq!(render_phase(MarketPollState::ActiveKnownStrike), RenderPhase::Active);
    assert_eq!(render_phase(MarketPollState::ActivelyTryingToResolve), RenderPhase::Resolving);
    assert_eq!(render_phase(MarketPollState::Resolved), RenderPhase::Resolved);
}

#[test]
fn poll_states_are_ordered_by_life_cycle() {
    assert!(MarketPollState::FarBeforeActive < MarketPollState::RightBeforeActive);
    assert!(MarketPollState::ActiveKnownStrike < MarketPollState::Resolved);
    assert!(KalshiMarketStatus::Determined < KalshiMarketStatus::Finalized);
}

#[test]
fn tickers_compare_by_text() {
    let a = MarketTicker("KXBTC15M-1".to_string());
    assert!(a.same_as(&MarketTicker("KXBTC15M-1".to_string())));
    assert!(!a.same_as(&MarketTicker("KXBTC15M-2".to_string())));
    let _ = PriceBits(0);
}
