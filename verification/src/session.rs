//! The decisions a terminal takes on each frame about the three markets it
//! follows: when to wake the next market's reader, when to fetch the markets
//! anew, when the previous market is settled, and when the current one has
//! learnt its strike.

use vstd::prelude::*;

use crate::bundle::MarketBundle;
use crate::market::{poll_stage, start_of, KalshiMarketStatus, MarketPollState, MARKET_INTERVAL_MS};

verus! {

/// How long before its start the next market's reader is woken, in milliseconds.
pub const WAKE_BEFORE_START_MS: i64 = 30_000;

/// The changes a frame makes.
#[derive(Debug, Clone, Copy, PartialEq, Eq, Structural)]
pub struct FramePlan {
    /// The next market's new poll state, if it changes.
    pub next_poll_state: Option<MarketPollState>,
    /// Ask the exchange for the markets around now.
    pub start_market_fetch: bool,
    /// The previous market's new poll state, if it changes.
    pub previous_poll_state: Option<MarketPollState>,
    /// Write the previous market's archive.
    pub archive_previous: bool,
    /// The current market's new poll state, if it changes.
    pub current_poll_state: Option<MarketPollState>,
}

/// A settled market: its outcome is determined or final.
pub open spec fn is_settled(status: KalshiMarketStatus) -> bool {
    status == KalshiMarketStatus::Determined || status == KalshiMarketStatus::Finalized
}

/// A market is settled exactly when its outcome is determined or final; while
/// it is open, closed, disputed, amended or not yet active it is not.
pub proof fn lemma_settled_statuses()
    ensures
        is_settled(KalshiMarketStatus::Determined),
        is_settled(KalshiMarketStatus::Finalized),
        !is_settled(KalshiMarketStatus::Initialized),
        !is_settled(KalshiMarketStatus::Inactive),
        !is_settled(KalshiMarketStatus::Active),
        !is_settled(KalshiMarketStatus::Closed),
        !is_settled(KalshiMarketStatus::Disputed),
        !is_settled(KalshiMarketStatus::Amended),
{
}

/// The plan of a frame at `now` (milliseconds):
/// - the next market's reader goes from far-before to right-before once that
///   market starts in less than thirty seconds;
/// - the markets are fetched anew once the current market has closed, unless a
///   fetch is under way;
/// - the previous market, while waiting for settlement, becomes resolved (and is
///   archived) once its status says it is settled;
/// - the current market, while looking for its strike, moves on once it has one.
pub fn plan_frame<C>(
    now: i64,
    next: &MarketBundle<C>,
    next_state: MarketPollState,
    current: &MarketBundle<C>,
    current_state: MarketPollState,
    previous: &MarketBundle<C>,
    previous_state: MarketPollState,
    market_fetch_pending: bool,
) -> (plan: FramePlan)
    ensures
        plan.next_poll_state == if next_state == MarketPollState::FarBeforeActive && start_of(
            next.close_time as int,
        ) - now < WAKE_BEFORE_START_MS {
            Some(MarketPollState::RightBeforeActive)
        } else {
            None::<MarketPollState>
        },
        plan.start_market_fetch == (now > current.close_time && !market_fetch_pending),
        plan.previous_poll_state == if previous_state == MarketPollState::ActivelyTryingToResolve
            && is_settled(previous.status) {
            Some(MarketPollState::Resolved)
        } else {
            None::<MarketPollState>
        },
        plan.archive_previous == (plan.previous_poll_state == Some(MarketPollState::Resolved)),
        plan.current_poll_state == if current_state == MarketPollState::ActiveLookingForStrike
            && current.strike_price is Some {
            Some(MarketPollState::ActiveKnownStrike)
        } else {
            None::<MarketPollState>
        },
        plan.next_poll_state matches Some(s) ==> poll_stage(s) > poll_stage(next_state),
        plan.previous_poll_state matches Some(s) ==> poll_stage(s) > poll_stage(previous_state),
        plan.current_poll_state matches Some(s) ==> poll_stage(s) > poll_stage(current_state),
{
    let next_start: i128 = next.close_time as i128 - MARKET_INTERVAL_MS as i128;
    let until_start: i128 = next_start - now as i128;
    let next_poll_state = if next_state == MarketPollState::FarBeforeActive && until_start
        < WAKE_BEFORE_START_MS as i128 {
        Some(MarketPollState::RightBeforeActive)
    } else {
        None
    };
    let start_market_fetch = now > current.close_time && !market_fetch_pending;
    let settled = previous.status == KalshiMarketStatus::Determined || previous.status
        == KalshiMarketStatus::Finalized;
    let resolve_previous = previous_state == MarketPollState::ActivelyTryingToResolve && settled;
    let previous_poll_state = if resolve_previous {
        Some(MarketPollState::Resolved)
    } else {
        None
    };
    let current_poll_state = if current_state == MarketPollState::ActiveLookingForStrike
        && current.strike_price.is_some() {
        Some(MarketPollState::ActiveKnownStrike)
    } else {
        None
    };
    FramePlan {
        next_poll_state,
        start_market_fetch,
        previous_poll_state,
        archive_previous: resolve_previous,
        current_poll_state,
    }
}

} // verus!
