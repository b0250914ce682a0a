//! The tapered price grid of a binary contract.
//!
//! A price is a whole number of mils (thousandths of a dollar). The grid has
//! three bands: $0.000 to $0.100 in steps of one mil (levels 0..=100),
//! $0.110 to $0.890 in steps of ten mils (levels 101..=179), and $0.900 to
//! $1.000 in steps of one mil (levels 180..=280).

use vstd::prelude::*;

verus! {

/// Number of levels of the grid, and so of slots in an order book.
pub const PRICE_LEVELS: usize = 281;

/// Highest price on the grid, in mils: one dollar.
pub const MAX_PRICE_MILS: i32 = 1000;

/// Whether a price in mils lies on the grid.
pub open spec fn is_grid_price(mils: int) -> bool {
    ||| 0 <= mils <= 100
    ||| 110 <= mils <= 890 && mils % 10 == 0
    ||| 900 <= mils <= 1000
}

/// The level of a grid price.
pub open spec fn index_of_price(mils: int) -> int {
    if mils <= 100 {
        mils
    } else if mils <= 890 {
        101 + (mils - 110) / 10
    } else {
        180 + (mils - 900)
    }
}

/// The price, in mils, of a level of the grid.
pub open spec fn price_of_index(idx: int) -> int {
    if idx <= 100 {
        idx
    } else if idx <= 179 {
        110 + (idx - 101) * 10
    } else {
        900 + (idx - 180)
    }
}

/// The level of a price, or `None` for a price that is not on the grid
/// (below zero, above a dollar, or between two ten-mil steps of the middle band).
pub fn get_index_of_dollars(price_mils: i32) -> (r: Option<usize>)
    ensures
        is_grid_price(price_mils as int) ==> r == Some(index_of_price(price_mils as int) as usize),
        !is_grid_price(price_mils as int) ==> r is None,
{
    if price_mils < 0 || price_mils > MAX_PRICE_MILS {
        return None;
    }
    let mils: u32 = price_mils as u32;
    if mils <= 100 {
        Some(mils as usize)
    } else if 110 <= mils && mils <= 890 {
        if mils % 10 == 0 {
            Some((101 + (mils - 110) / 10) as usize)
        } else {
            None
        }
    } else if 900 <= mils {
        Some((180 + (mils - 900)) as usize)
    } else {
        None
    }
}

/// The price in mils of a level, or `None` past the last level.
pub fn index_to_dollars(idx: usize) -> (r: Option<i32>)
    ensures
        idx < PRICE_LEVELS ==> r == Some(price_of_index(idx as int) as i32),
        idx >= PRICE_LEVELS ==> r is None,
{
    if idx <= 100 {
        Some(idx as i32)
    } else if idx <= 179 {
        Some((110 + (idx - 101) * 10) as i32)
    } else if idx <= 280 {
        Some((900 + (idx - 180)) as i32)
    } else {
        None
    }
}

/// Every grid price has a level, and that level's price is the grid price again.
pub proof fn lemma_price_index_round_trip(mils: int)
    requires
        is_grid_price(mils),
    ensures
        0 <= index_of_price(mils) < PRICE_LEVELS,
        price_of_index(index_of_price(mils)) == mils,
{
}

/// Every level has a grid price, and that price's level is the level again.
pub proof fn lemma_index_price_round_trip(idx: int)
    requires
        0 <= idx < PRICE_LEVELS,
    ensures
        is_grid_price(price_of_index(idx)),
        index_of_price(price_of_index(idx)) == idx,
        0 <= price_of_index(idx) <= MAX_PRICE_MILS,
{
}

/// A higher level always stands for a strictly higher price.
pub proof fn lemma_grid_strictly_increasing(i: int, j: int)
    requires
        0 <= i < j < PRICE_LEVELS,
    ensures
        price_of_index(i) < price_of_index(j),
{
}

/// The grid is symmetric about fifty cents: the complement of a grid price, one
/// dollar minus it, is on the grid exactly when the price is.
pub proof fn lemma_grid_complement(mils: int)
    ensures
        is_grid_price(mils) <==> is_grid_price(MAX_PRICE_MILS - mils),
{
}

/// Two grid prices share a level only if they are the same price.
pub proof fn lemma_index_of_price_injective(p: int, q: int)
    requires
        is_grid_price(p),
        is_grid_price(q),
        index_of_price(p) == index_of_price(q),
    ensures
        p == q,
{
    lemma_price_index_round_trip(p);
    lemma_price_index_round_trip(q);
}

} // verus!
