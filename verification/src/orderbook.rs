//! The order book of one market: a signed share count per grid level.
//!
//! A positive count at a level is resting demand to buy YES at that price (a
//! bid); a negative count is resting supply (an ask, which is a NO bid seen from
//! the YES side).

use vstd::prelude::*;

use crate::price::{
    get_index_of_dollars,
    index_of_price,
    index_to_dollars,
    is_grid_price,
    lemma_grid_strictly_increasing,
    lemma_index_of_price_injective,
    lemma_index_price_round_trip,
    lemma_price_index_round_trip,
    price_of_index,
    PRICE_LEVELS,
};

verus! {

broadcast use vstd::array::group_array_axioms;

/// Share counts per grid level, YES side.
#[derive(Clone, Copy)]
pub struct Orderbook {
    pub data: [i32; 281],
}

/// The mid price of a book. The mid in cents is `twentieths / 20`: the sum of
/// the best ask and the best bid in mils, halved, is the mid in mils, and ten
/// mils make a cent.
#[derive(Clone, Copy, Debug, PartialEq, Eq, Structural)]
pub struct MidCents {
    pub twentieths: i32,
}

/// Level `i` is the best ask: it holds an ask and no lower level does.
pub open spec fn is_best_ask_level(book: Seq<i32>, i: int) -> bool {
    &&& 0 <= i < book.len()
    &&& book[i] < 0
    &&& forall|j: int| 0 <= j < i ==> book[j] >= 0
}

/// Level `i` is the best bid: it holds a bid and no higher level does.
pub open spec fn is_best_bid_level(book: Seq<i32>, i: int) -> bool {
    &&& 0 <= i < book.len()
    &&& book[i] > 0
    &&& forall|j: int| i < j < book.len() ==> book[j] <= 0
}

/// The lowest price at which shares are offered, if any are.
pub open spec fn best_ask_mils(book: Seq<i32>) -> Option<int> {
    if exists|i: int| is_best_ask_level(book, i) {
        Some(price_of_index(choose|i: int| is_best_ask_level(book, i)))
    } else {
        None
    }
}

/// The highest price at which shares are bid for, if any are.
pub open spec fn best_bid_mils(book: Seq<i32>) -> Option<int> {
    if exists|i: int| is_best_bid_level(book, i) {
        Some(price_of_index(choose|i: int| is_best_bid_level(book, i)))
    } else {
        None
    }
}

/// The mid price of a book, when it has both an ask and a bid.
pub open spec fn mid_cents_of(book: Seq<i32>) -> Option<MidCents> {
    match (best_ask_mils(book), best_bid_mils(book)) {
        (Some(ask), Some(bid)) => Some(MidCents { twentieths: (ask + bid) as i32 }),
        _ => None,
    }
}

/// The levels below `n` that hold an ask, lowest first.
pub open spec fn ask_levels_below(book: Seq<i32>, n: int) -> Seq<int>
    decreases n,
{
    if n <= 0 {
        Seq::empty()
    } else if book[n - 1] < 0 {
        ask_levels_below(book, n - 1).push(n - 1)
    } else {
        ask_levels_below(book, n - 1)
    }
}

/// The levels from `n` up that hold a bid, highest first.
pub open spec fn bid_levels_from(book: Seq<i32>, n: int) -> Seq<int>
    decreases book.len() - n,
{
    if n >= book.len() {
        Seq::empty()
    } else if book[n] > 0 {
        bid_levels_from(book, n + 1).push(n)
    } else {
        bid_levels_from(book, n + 1)
    }
}

/// At most `depth` elements from the front of `s`.
pub open spec fn front(s: Seq<int>, depth: nat) -> Seq<int> {
    if s.len() <= depth {
        s
    } else {
        s.take(depth as int)
    }
}

/// A level shown as its price in mils and its share count.
pub open spec fn level_entry(book: Seq<i32>, i: int) -> (i32, i32) {
    (price_of_index(i) as i32, book[i])
}

/// The `depth` lowest asks, shown highest price first, so that the best ask comes last.
pub open spec fn ask_ladder(book: Seq<i32>, depth: nat) -> Seq<(i32, i32)> {
    front(ask_levels_below(book, book.len() as int), depth).reverse().map_values(
        |i: int| level_entry(book, i),
    )
}

/// The `depth` highest bids, shown highest price first, so that the best bid comes first.
pub open spec fn bid_ladder(book: Seq<i32>, depth: nat) -> Seq<(i32, i32)> {
    front(bid_levels_from(book, 0), depth).map_values(|i: int| level_entry(book, i))
}

/// The gap between the best ask and the best bid, when both exist and the ask is
/// the higher of the two.
pub open spec fn spread_of(book: Seq<i32>) -> Option<int> {
    match (best_ask_mils(book), best_bid_mils(book)) {
        (Some(ask), Some(bid)) => if ask - bid > 0 {
            Some(ask - bid)
        } else {
            None
        },
        _ => None,
    }
}

proof fn lemma_ask_levels_shape(book: Seq<i32>, n: int)
    requires
        n <= book.len(),
    ensures
        forall|k: int|
            0 <= k < ask_levels_below(book, n).len() ==> 0 <= #[trigger] ask_levels_below(book, n)[k]
                < n && book[ask_levels_below(book, n)[k]] < 0,
    decreases n,
{
    if n > 0 {
        lemma_ask_levels_shape(book, n - 1);
        let prev = ask_levels_below(book, n - 1);
        let cur = ask_levels_below(book, n);
        assert forall|k: int| 0 <= k < cur.len() implies 0 <= #[trigger] cur[k] < n && book[cur[k]]
            < 0 by {
            if k < prev.len() {
                assert(cur[k] == prev[k]);
            }
        }
    }
}

proof fn lemma_ask_levels_prefix(book: Seq<i32>, m: int, n: int)
    requires
        0 <= m <= n,
    ensures
        ask_levels_below(book, m).len() <= ask_levels_below(book, n).len(),
        ask_levels_below(book, n).take(ask_levels_below(book, m).len() as int) =~= ask_levels_below(
            book,
            m,
        ),
    decreases n - m,
{
    if m < n {
        lemma_ask_levels_prefix(book, m, n - 1);
        let a = ask_levels_below(book, n - 1);
        let l: int = ask_levels_below(book, m).len() as int;
        if book[n - 1] < 0 {
            assert(a.push(n - 1).take(l) =~= a.take(l));
        }
    }
}

proof fn lemma_bid_levels_shape(book: Seq<i32>, n: int)
    requires
        0 <= n,
    ensures
        forall|k: int|
            0 <= k < bid_levels_from(book, n).len() ==> n <= #[trigger] bid_levels_from(book, n)[k]
                < book.len() && book[bid_levels_from(book, n)[k]] > 0,
    decreases book.len() - n,
{
    if n < book.len() {
        lemma_bid_levels_shape(book, n + 1);
        let prev = bid_levels_from(book, n + 1);
        let cur = bid_levels_from(book, n);
        assert forall|k: int| 0 <= k < cur.len() implies n <= #[trigger] cur[k] < book.len()
            && book[cur[k]] > 0 by {
            if k < prev.len() {
                assert(cur[k] == prev[k]);
            }
        }
    }
}

proof fn lemma_bid_levels_prefix(book: Seq<i32>, m: int, n: int)
    requires
        0 <= n <= m,
    ensures
        bid_levels_from(book, m).len() <= bid_levels_from(book, n).len(),
        bid_levels_from(book, n).take(bid_levels_from(book, m).len() as int) =~= bid_levels_from(
            book,
            m,
        ),
    decreases m - n,
{
    if n < m && n < book.len() {
        lemma_bid_levels_prefix(book, m, n + 1);
        let a = bid_levels_from(book, n + 1);
        let l: int = bid_levels_from(book, m).len() as int;
        if book[n] > 0 {
            assert(a.push(n).take(l) =~= a.take(l));
        }
    }
}

/// Reading a price after writing shares at a price gives the written shares when
/// the two prices are the same, and the earlier shares otherwise.
pub proof fn lemma_get_after_set(book: Seq<i32>, written: int, read: int, shares: i32)
    requires
        book.len() == PRICE_LEVELS,
        is_grid_price(written),
        is_grid_price(read),
    ensures
        book.update(index_of_price(written), shares)[index_of_price(read)] == if written == read {
            shares
        } else {
            book[index_of_price(read)]
        },
{
    lemma_price_index_round_trip(written);
    lemma_price_index_round_trip(read);
    if written != read && index_of_price(written) == index_of_price(read) {
        lemma_index_of_price_injective(written, read);
    }
}

/// Adding shares at a price and then adding their negation there gives back the
/// book as it was.
pub proof fn lemma_add_then_subtract(book: Seq<i32>, price: int, shares: int)
    requires
        book.len() == PRICE_LEVELS,
        is_grid_price(price),
        i32::MIN <= book[index_of_price(price)] + shares <= i32::MAX,
    ensures
        ({
            let i: int = index_of_price(price);
            let added = book.update(i, (book[i] + shares) as i32);
            added.update(i, (added[i] - shares) as i32)
        }) =~= book,
{
    lemma_price_index_round_trip(price);
}

/// The best ask is at or below every price that holds an ask.
pub proof fn lemma_best_ask_is_lowest(book: Seq<i32>, i: int)
    requires
        book.len() == PRICE_LEVELS,
        0 <= i < PRICE_LEVELS,
        book[i] < 0,
    ensures
        best_ask_mils(book) matches Some(m) && m <= price_of_index(i),
{
    lemma_exists_first_negative(book, i);
    let k: int = choose|k: int| is_best_ask_level(book, k);
    if k > i {
        assert(book[i] >= 0);
    }
    if k < i {
        lemma_grid_strictly_increasing(k, i);
    }
}

proof fn lemma_exists_first_negative(book: Seq<i32>, i: int)
    requires
        0 <= i < book.len(),
        book[i] < 0,
    ensures
        exists|k: int| is_best_ask_level(book, k),
    decreases i,
{
    if forall|j: int| 0 <= j < i ==> book[j] >= 0 {
        assert(is_best_ask_level(book, i));
    } else {
        let j: int = choose|j: int| 0 <= j < i && book[j] < 0;
        lemma_exists_first_negative(book, j);
    }
}

/// The best bid is at or above every price that holds a bid.
pub proof fn lemma_best_bid_is_highest(book: Seq<i32>, i: int)
    requires
        book.len() == PRICE_LEVELS,
        0 <= i < PRICE_LEVELS,
        book[i] > 0,
    ensures
        best_bid_mils(book) matches Some(m) && m >= price_of_index(i),
{
    lemma_exists_last_positive(book, i);
    let k: int = choose|k: int| is_best_bid_level(book, k);
    if k < i {
        assert(book[i] <= 0);
    }
    if k > i {
        lemma_grid_strictly_increasing(i, k);
    }
}

proof fn lemma_exists_last_positive(book: Seq<i32>, i: int)
    requires
        0 <= i < book.len(),
        book[i] > 0,
    ensures
        exists|k: int| is_best_bid_level(book, k),
    decreases book.len() - i,
{
    if forall|j: int| i < j < book.len() ==> book[j] <= 0 {
        assert(is_best_bid_level(book, i));
    } else {
        let j: int = choose|j: int| i < j < book.len() && book[j] > 0;
        lemma_exists_last_positive(book, j);
    }
}

proof fn lemma_ask_levels_complete_and_rising(book: Seq<i32>, n: int)
    requires
        0 <= n <= book.len(),
    ensures
        forall|i: int| 0 <= i < n && book[i] < 0 ==> #[trigger] ask_levels_below(book, n).contains(i),
        forall|a: int, b: int|
            0 <= a < b < ask_levels_below(book, n).len() ==> ask_levels_below(book, n)[a]
                < ask_levels_below(book, n)[b],
    decreases n,
{
    if n > 0 {
        lemma_ask_levels_complete_and_rising(book, n - 1);
        lemma_ask_levels_shape(book, n - 1);
        let prev = ask_levels_below(book, n - 1);
        let cur = ask_levels_below(book, n);
        assert forall|i: int| 0 <= i < n && book[i] < 0 implies #[trigger] cur.contains(i) by {
            if i < n - 1 {
                assert(prev.contains(i));
                let k = choose|k: int| 0 <= k < prev.len() && prev[k] == i;
                assert(cur[k] == i);
            } else {
                assert(cur[cur.len() - 1] == i);
            }
        }
    }
}

proof fn lemma_bid_levels_complete_and_falling(book: Seq<i32>, n: int)
    requires
        0 <= n <= book.len(),
    ensures
        forall|i: int| n <= i < book.len() && book[i] > 0 ==> #[trigger] bid_levels_from(book, n).contains(i),
        forall|a: int, b: int|
            0 <= a < b < bid_levels_from(book, n).len() ==> bid_levels_from(book, n)[a]
                > bid_levels_from(book, n)[b],
    decreases book.len() - n,
{
    if n < book.len() {
        lemma_bid_levels_complete_and_falling(book, n + 1);
        lemma_bid_levels_shape(book, n + 1);
        let prev = bid_levels_from(book, n + 1);
        let cur = bid_levels_from(book, n);
        assert forall|i: int| n <= i < book.len() && book[i] > 0 implies #[trigger] cur.contains(i) by {
            if i > n {
                assert(prev.contains(i));
                let k = choose|k: int| 0 <= k < prev.len() && prev[k] == i;
                assert(cur[k] == i);
            } else {
                assert(cur[cur.len() - 1] == i);
            }
        }
    }
}

/// The ask ladder ends with the best ask: its last row is at the best ask's price.
pub proof fn lemma_ask_ladder_ends_at_best_ask(book: Seq<i32>, depth: nat)
    requires
        book.len() == PRICE_LEVELS,
        depth > 0,
        best_ask_mils(book) is Some,
    ensures
        ask_ladder(book, depth).len() > 0,
        ask_ladder(book, depth).last().0 == best_ask_mils(book)->Some_0,
{
    let n = book.len() as int;
    let lv = ask_levels_below(book, n);
    let k = choose|k: int| is_best_ask_level(book, k);
    lemma_ask_levels_complete_and_rising(book, n);
    lemma_ask_levels_shape(book, n);
    assert(lv.contains(k));
    let p = choose|p: int| 0 <= p < lv.len() && lv[p] == k;
    if lv[0] < k {
        assert(book[lv[0]] < 0);
    }
    if p > 0 {
        assert(lv[0] < lv[p]);
    }
    assert(lv[0] == k);
    let shown = front(lv, depth);
    assert(shown[0] == k);
    assert(shown.reverse().last() == shown[0]);
    lemma_index_price_round_trip(k);
}

/// The bid ladder starts with the best bid: its first row is at the best bid's price.
pub proof fn lemma_bid_ladder_starts_at_best_bid(book: Seq<i32>, depth: nat)
    requires
        book.len() == PRICE_LEVELS,
        depth > 0,
        best_bid_mils(book) is Some,
    ensures
        bid_ladder(book, depth).len() > 0,
        bid_ladder(book, depth)[0].0 == best_bid_mils(book)->Some_0,
{
    let lv = bid_levels_from(book, 0);
    let k = choose|k: int| is_best_bid_level(book, k);
    lemma_bid_levels_complete_and_falling(book, 0);
    lemma_bid_levels_shape(book, 0);
    assert(lv.contains(k));
    let p = choose|p: int| 0 <= p < lv.len() && lv[p] == k;
    if lv[0] > k {
        assert(book[lv[0]] > 0);
    }
    if p > 0 {
        assert(lv[0] > lv[p]);
    }
    assert(lv[0] == k);
    let shown = front(lv, depth);
    assert(shown[0] == k);
    lemma_index_price_round_trip(k);
}

/// The mid of a book is halfway between its best ask and its best bid (in
/// twentieths of a cent, their sum in mils); a book missing either has no mid.
pub proof fn lemma_mid_is_halfway(book: Seq<i32>, ask: int, bid: int)
    ensures
        best_ask_mils(book) == Some(ask) && best_bid_mils(book) == Some(bid) ==> mid_cents_of(book)
            == Some(MidCents { twentieths: (ask + bid) as i32 }),
        best_ask_mils(book) is None ==> mid_cents_of(book) is None,
        best_bid_mils(book) is None ==> mid_cents_of(book) is None,
{
}

/// The spread is the best ask less the best bid whenever both exist and the ask
/// is above the bid; there is none when either side is empty or the book is
/// locked or crossed.
pub proof fn lemma_spread_is_ask_minus_bid(book: Seq<i32>, ask: int, bid: int)
    ensures
        best_ask_mils(book) == Some(ask) && best_bid_mils(book) == Some(bid) && ask > bid
            ==> spread_of(book) == Some(ask - bid),
        best_ask_mils(book) == Some(ask) && best_bid_mils(book) == Some(bid) && ask <= bid
            ==> spread_of(book) is None,
        best_ask_mils(book) is None ==> spread_of(book) is None,
        best_bid_mils(book) is None ==> spread_of(book) is None,
{
}

/// The ask ladder shows `depth` rows, or every ask when there are fewer. Each row
/// is a level that holds an ask, with its price and its shares; rows fall in price
/// from first to last; and every ask priced at or below the first row is shown.
pub proof fn lemma_ask_ladder_shape(book: Seq<i32>, depth: nat)
    requires
        book.len() == PRICE_LEVELS,
    ensures
        ({
            let rows = ask_ladder(book, depth);
            let asks = ask_levels_below(book, PRICE_LEVELS as int).len();
            &&& rows.len() == if depth < asks {
                depth
            } else {
                asks
            }
            &&& forall|k: int|
                0 <= k < rows.len() ==> #[trigger] rows[k].1 < 0 && is_grid_price(rows[k].0 as int)
                    && rows[k].1 == book[index_of_price(rows[k].0 as int)]
            &&& forall|k: int, l: int| 0 <= k < l < rows.len() ==> rows[k].0 > rows[l].0
            &&& forall|i: int|
                0 <= i < PRICE_LEVELS && book[i] < 0 && rows.len() > 0 && price_of_index(i)
                    <= rows[0].0 ==> exists|k: int|
                    0 <= k < rows.len() && #[trigger] rows[k].0 == price_of_index(i)
        }),
{
    let n = PRICE_LEVELS as int;
    let lv = ask_levels_below(book, n);
    lemma_ask_levels_shape(book, n);
    lemma_ask_levels_complete_and_rising(book, n);
    let shown = front(lv, depth);
    let len = shown.len();
    let rows = ask_ladder(book, depth);
    assert(len == if depth < lv.len() { depth as int } else { lv.len() as int });
    assert forall|j: int| 0 <= j < len implies #[trigger] shown[j] == lv[j] by {}
    assert forall|k: int| 0 <= k < rows.len() implies rows[k] == level_entry(
        book,
        #[trigger] shown[len - 1 - k],
    ) by {}
    assert forall|k: int|
        0 <= k < rows.len() implies #[trigger] rows[k].1 < 0 && is_grid_price(rows[k].0 as int)
            && rows[k].1 == book[index_of_price(rows[k].0 as int)] by {
        let i = shown[len - 1 - k];
        assert(lv[len - 1 - k] == i);
        lemma_index_price_round_trip(i);
    }
    assert forall|k: int, l: int| 0 <= k < l < rows.len() implies rows[k].0 > rows[l].0 by {
        let i = shown[len - 1 - k];
        let j = shown[len - 1 - l];
        assert(lv[len - 1 - l] < lv[len - 1 - k]);
        lemma_grid_strictly_increasing(j, i);
        lemma_index_price_round_trip(i);
        lemma_index_price_round_trip(j);
    }
    assert forall|i: int|
        0 <= i < PRICE_LEVELS && book[i] < 0 && rows.len() > 0 && price_of_index(i)
            <= rows[0].0 implies exists|k: int|
        0 <= k < rows.len() && #[trigger] rows[k].0 == price_of_index(i) by {
        assert(lv.contains(i));
        let p = choose|p: int| 0 <= p < lv.len() && lv[p] == i;
        let top = shown[len - 1];
        assert(lv[len - 1] == top);
        lemma_index_price_round_trip(top);
        lemma_index_price_round_trip(i);
        if p > len - 1 {
            assert(lv[len - 1] < lv[p]);
            lemma_grid_strictly_increasing(top, i);
        }
        let k = len - 1 - p;
        assert(shown[p] == i);
        assert(rows[k].0 == price_of_index(i));
    }
}

/// The bid ladder shows `depth` rows, or every bid when there are fewer. Each row
/// is a level that holds a bid, with its price and its shares; rows fall in price
/// from first to last; and every bid priced at or above the last row is shown.
pub proof fn lemma_bid_ladder_shape(book: Seq<i32>, depth: nat)
    requires
        book.len() == PRICE_LEVELS,
    ensures
        ({
            let rows = bid_ladder(book, depth);
            let bids = bid_levels_from(book, 0).len();
            &&& rows.len() == if depth < bids {
                depth
            } else {
                bids
            }
            &&& forall|k: int|
                0 <= k < rows.len() ==> #[trigger] rows[k].1 > 0 && is_grid_price(rows[k].0 as int)
                    && rows[k].1 == book[index_of_price(rows[k].0 as int)]
            &&& forall|k: int, l: int| 0 <= k < l < rows.len() ==> rows[k].0 > rows[l].0
            &&& forall|i: int|
                0 <= i < PRICE_LEVELS && book[i] > 0 && rows.len() > 0 && price_of_index(i)
                    >= rows[rows.len() - 1].0 ==> exists|k: int|
                    0 <= k < rows.len() && #[trigger] rows[k].0 == price_of_index(i)
        }),
{
    let lv = bid_levels_from(book, 0);
    lemma_bid_levels_shape(book, 0);
    lemma_bid_levels_complete_and_falling(book, 0);
    let shown = front(lv, depth);
    let len = shown.len();
    let rows = bid_ladder(book, depth);
    assert(len == if depth < lv.len() { depth as int } else { lv.len() as int });
    assert forall|j: int| 0 <= j < len implies #[trigger] shown[j] == lv[j] by {}
    assert forall|k: int|
        0 <= k < rows.len() implies #[trigger] rows[k].1 > 0 && is_grid_price(rows[k].0 as int)
            && rows[k].1 == book[index_of_price(rows[k].0 as int)] by {
        let i = shown[k];
        assert(lv[k] == i);
        lemma_index_price_round_trip(i);
    }
    assert forall|k: int, l: int| 0 <= k < l < rows.len() implies rows[k].0 > rows[l].0 by {
        let i = shown[k];
        let j = shown[l];
        assert(lv[l] < lv[k]);
        lemma_grid_strictly_increasing(j, i);
        lemma_index_price_round_trip(i);
        lemma_index_price_round_trip(j);
    }
    assert forall|i: int|
        0 <= i < PRICE_LEVELS && book[i] > 0 && rows.len() > 0 && price_of_index(i)
            >= rows[rows.len() - 1].0 implies exists|k: int|
        0 <= k < rows.len() && #[trigger] rows[k].0 == price_of_index(i) by {
        assert(lv.contains(i));
        let p = choose|p: int| 0 <= p < lv.len() && lv[p] == i;
        let bottom = shown[len - 1];
        assert(lv[len - 1] == bottom);
        lemma_index_price_round_trip(bottom);
        lemma_index_price_round_trip(i);
        if p > len - 1 {
            assert(lv[len - 1] > lv[p]);
            lemma_grid_strictly_increasing(i, bottom);
        }
        assert(shown[p] == i);
        assert(rows[p].0 == price_of_index(i));
    }
}

impl Orderbook {
    /// An empty book: no shares at any level.
    pub fn new() -> (book: Orderbook)
        ensures
            forall|i: int| 0 <= i < PRICE_LEVELS ==> book.data@[i] == 0,
    {
        Orderbook { data: [0i32; 281] }
    }

    /// The shares at a grid price.
    pub fn get_shares(&self, price_mils: i32) -> (shares: i32)
        requires
            is_grid_price(price_mils as int),
        ensures
            shares == self.data@[index_of_price(price_mils as int)],
    {
        proof {
            lemma_price_index_round_trip(price_mils as int);
        }
        let idx: usize = get_index_of_dollars(price_mils).unwrap();
        self.data[idx]
    }

    /// Replaces the shares at a grid price; every other level keeps its count.
    pub fn set_shares(&mut self, price_mils: i32, shares: i32)
        requires
            is_grid_price(price_mils as int),
        ensures
            final(self).data@ == old(self).data@.update(index_of_price(price_mils as int), shares),
    {
        proof {
            lemma_price_index_round_trip(price_mils as int);
        }
        let idx: usize = get_index_of_dollars(price_mils).unwrap();
        self.data[idx] = shares;
    }

    /// Adds a (signed) number of shares at a grid price; every other level keeps its count.
    pub fn add_shares(&mut self, price_mils: i32, shares: i32)
        requires
            is_grid_price(price_mils as int),
            i32::MIN <= old(self).data@[index_of_price(price_mils as int)] + shares <= i32::MAX,
        ensures
            final(self).data@ == old(self).data@.update(
                index_of_price(price_mils as int),
                (old(self).data@[index_of_price(price_mils as int)] + shares) as i32,
            ),
    {
        proof {
            lemma_price_index_round_trip(price_mils as int);
        }
        let idx: usize = get_index_of_dollars(price_mils).unwrap();
        self.data[idx] = self.data[idx] + shares;
    }

    /// The lowest price holding an ask, in mils.
    pub fn get_best_ask_dollars(&self) -> (r: Option<i32>)
        ensures
            match r {
                Some(m) => best_ask_mils(self.data@) == Some(m as int),
                None => best_ask_mils(self.data@) is None,
            },
    {
        let mut i: usize = 0;
        while i < PRICE_LEVELS
            invariant
                i <= PRICE_LEVELS,
                self.data@.len() == PRICE_LEVELS,
                forall|j: int| 0 <= j < i ==> self.data@[j] >= 0,
            decreases PRICE_LEVELS - i,
        {
            if self.data[i] < 0 {
                proof {
                    let book = self.data@;
                    assert(is_best_ask_level(book, i as int));
                    let k: int = choose|k: int| is_best_ask_level(book, k);
                    assert(k == i as int) by {
                        if k < i {
                            assert(book[k] >= 0);
                        }
                        if k > i {
                            assert(book[i as int] >= 0);
                        }
                    }
                }
                return index_to_dollars(i);
            }
            i = i + 1;
        }
        None
    }

    /// The highest price holding a bid, in mils.
    pub fn get_best_bid_dollars(&self) -> (r: Option<i32>)
        ensures
            match r {
                Some(m) => best_bid_mils(self.data@) == Some(m as int),
                None => best_bid_mils(self.data@) is None,
            },
    {
        let mut i: usize = PRICE_LEVELS;
        while i > 0
            invariant
                i <= PRICE_LEVELS,
                self.data@.len() == PRICE_LEVELS,
                forall|j: int| i <= j < PRICE_LEVELS ==> self.data@[j] <= 0,
            decreases i,
        {
            let l: usize = i - 1;
            if self.data[l] > 0 {
                proof {
                    let book = self.data@;
                    assert(is_best_bid_level(book, l as int));
                    let k: int = choose|k: int| is_best_bid_level(book, k);
                    assert(k == l as int) by {
                        if k < l {
                            assert(book[l as int] <= 0);
                        }
                        if k > l {
                            assert(book[k] <= 0);
                        }
                    }
                }
                return index_to_dollars(l);
            }
            i = l;
        }
        None
    }

    /// The mid price between the best ask and the best bid, when both exist.
    pub fn get_mid_cents(&self) -> (r: Option<MidCents>)
        ensures
            r == mid_cents_of(self.data@),
    {
        let ask: i32 = match self.get_best_ask_dollars() {
            Some(a) => a,
            None => return None,
        };
        let bid: i32 = match self.get_best_bid_dollars() {
            Some(b) => b,
            None => return None,
        };
        proof {
            let book = self.data@;
            let ka: int = choose|k: int| is_best_ask_level(book, k);
            let kb: int = choose|k: int| is_best_bid_level(book, k);
            lemma_index_price_round_trip(ka);
            lemma_index_price_round_trip(kb);
        }
        Some(MidCents { twentieths: ask + bid })
    }

    /// Up to `depth` of the lowest asks as (price in mils, shares), highest price
    /// first, so that the best ask comes last.
    pub fn ask_levels(&self, depth: usize) -> (r: Vec<(i32, i32)>)
        ensures
            r@ == ask_ladder(self.data@, depth as nat),
    {
        let ghost book = self.data@;
        let mut found: Vec<usize> = Vec::new();
        let mut i: usize = 0;
        while i < PRICE_LEVELS && found.len() < depth
            invariant
                i <= PRICE_LEVELS,
                book == self.data@,
                book.len() == PRICE_LEVELS,
                found@.len() <= depth,
                found@.len() == ask_levels_below(book, i as int).len(),
                forall|k: int|
                    0 <= k < found@.len() ==> found@[k] as int == #[trigger] ask_levels_below(
                        book,
                        i as int,
                    )[k],
                found@.len() == depth ==> front(ask_levels_below(book, PRICE_LEVELS as int), depth as nat)
                    =~= ask_levels_below(book, i as int),
            decreases PRICE_LEVELS - i,
        {
            if self.data[i] < 0 {
                found.push(i);
            }
            proof {
                lemma_ask_levels_prefix(book, i as int + 1, PRICE_LEVELS as int);
            }
            i = i + 1;
        }
        let ghost shown = front(ask_levels_below(book, PRICE_LEVELS as int), depth as nat);
        proof {
            lemma_ask_levels_prefix(book, i as int, PRICE_LEVELS as int);
            lemma_ask_levels_shape(book, i as int);
            if found@.len() < depth {
                assert(i == PRICE_LEVELS);
            }
            assert(shown =~= ask_levels_below(book, i as int));
        }
        let mut r: Vec<(i32, i32)> = Vec::new();
        let mut k: usize = found.len();
        while k > 0
            invariant
                k <= found@.len(),
                book == self.data@,
                book.len() == PRICE_LEVELS,
                shown.len() == found@.len(),
                forall|j: int| 0 <= j < found@.len() ==> found@[j] as int == #[trigger] shown[j],
                forall|j: int| 0 <= j < shown.len() ==> 0 <= #[trigger] shown[j] < PRICE_LEVELS,
                r@ =~= shown.subrange(k as int, shown.len() as int).reverse().map_values(
                    |l: int| level_entry(book, l),
                ),
            decreases k,
        {
            k = k - 1;
            let l: usize = found[k];
            assert(shown[k as int] == l as int);
            let p: i32 = index_to_dollars(l).unwrap();
            r.push((p, self.data[l]));
            proof {
                let old_part = shown.subrange(k as int + 1, shown.len() as int);
                let new_part = shown.subrange(k as int, shown.len() as int);
                assert(new_part.reverse() =~= old_part.reverse().push(shown[k as int]));
            }
        }
        assert(shown.subrange(0, shown.len() as int) =~= shown);
        r
    }

    /// Up to `depth` of the highest bids as (price in mils, shares), highest price
    /// first, so that the best bid comes first.
    pub fn bid_levels(&self, depth: usize) -> (r: Vec<(i32, i32)>)
        ensures
            r@ == bid_ladder(self.data@, depth as nat),
    {
        let ghost book = self.data@;
        let mut r: Vec<(i32, i32)> = Vec::new();
        let mut i: usize = PRICE_LEVELS;
        proof {
            lemma_bid_levels_shape(book, 0);
        }
        while i > 0 && r.len() < depth
            invariant
                i <= PRICE_LEVELS,
                book == self.data@,
                book.len() == PRICE_LEVELS,
                r@.len() <= depth,
                r@ =~= bid_levels_from(book, i as int).map_values(|l: int| level_entry(book, l)),
                r@.len() == depth ==> front(bid_levels_from(book, 0), depth as nat) =~= bid_levels_from(
                    book,
                    i as int,
                ),
            decreases i,
        {
            let l: usize = i - 1;
            if self.data[l] > 0 {
                let p: i32 = index_to_dollars(l).unwrap();
                r.push((p, self.data[l]));
            }
            proof {
                lemma_bid_levels_prefix(book, l as int, 0);
            }
            i = l;
        }
        proof {
            lemma_bid_levels_prefix(book, i as int, 0);
            if r@.len() < depth {
                assert(i == 0);
            }
        }
        r
    }

    /// The gap between the best ask and the best bid in mils, shown only when the
    /// ask is above the bid.
    pub fn spread_mils(&self) -> (r: Option<i32>)
        ensures
            match spread_of(self.data@) {
                Some(s) => r == Some(s as i32),
                None => r is None,
            },
    {
        let ask = self.get_best_ask_dollars();
        let bid = self.get_best_bid_dollars();
        match (ask, bid) {
            (Some(a), Some(b)) => {
                proof {
                    let book = self.data@;
                    lemma_index_price_round_trip(choose|k: int| is_best_ask_level(book, k));
                    lemma_index_price_round_trip(choose|k: int| is_best_bid_level(book, k));
                }
                if a - b > 0 {
                    Some(a - b)
                } else {
                    None
                }
            },
            _ => None,
        }
    }
}

} // verus!
