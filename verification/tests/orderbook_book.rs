use kalshi_terminal::orderbook::{MidCents, Orderbook};

#[test]
fn new_book_is_empty() {
    let book = Orderbook::new();
    assert!(book.data.iter().all(|&s| s == 0));
    assert_eq!(book.get_best_ask_dollars(), None);
    assert_eq!(book.get_best_bid_dollars(), None);
    assert_eq!(book.get_mid_cents(), None);
    assert_eq!(book.spread_mils(), None);
}

#[test]
fn set_then_get_reads_back_the_shares() {
    let mut book = Orderbook::new();
    book.set_shares(420, 17);
    assert_eq!(book.get_shares(420), 17);
    assert_eq!(book.data[132], 17);
    assert_eq!(book.get_shares(430), 0);
    book.set_shares(420, -3);
    assert_eq!(book.get_shares(420), -3);
}

#[test]
fn add_then_subtract_restores_the_book() {
    let mut book = Orderbook::new();
    book.set_shares(55, 10);
    let before = book.data;
    book.add_shares(55, 25);
    assert_eq!(book.get_shares(55), 35);
    book.add_shares(55, -25);
    assert_eq!(book.data, before);
}

#[test]
fn best_ask_is_the_lowest_offer_and_best_bid_the_highest_bid() {
    let mut book = Orderbook::new();
    book.set_shares(600, -5);
    book.set_shares(550, -2);
    book.set_shares(950, -1);
    book.set_shares(400, 7);
    book.set_shares(120, 3);
    book.set_shares(5, 1);
    assert_eq!(book.get_best_ask_dollars(), Some(550));
    assert_eq!(book.get_best_bid_dollars(), Some(400));
    // mid = (550 + 400) / 2 mils = 47.5 cents = 950 / 20
    assert_eq!(book.get_mid_cents(), Some(MidCents { twentieths: 950 }));
    assert_eq!(book.spread_mils(), Some(150));
}

#[test]
fn crossed_book_has_no_spread_but_a_mid() {
    let mut book = Orderbook::new();
    book.set_shares(300, -1);
    book.set_shares(500, 4);
    assert_eq!(book.spread_mils(), None);
    assert_eq!(book.get_mid_cents(), Some(MidCents { twentieths: 800 }));
}

#[test]
fn one_sided_book_has_no_mid() {
    let mut book = Orderbook::new();
    book.set_shares(1000, 9);
    assert_eq!(book.get_best_bid_dollars(), Some(1000));
    assert_eq!(book.get_mid_cents(), None);
    book.set_shares(0, -9);
    assert_eq!(book.get_best_ask_dollars(), Some(0));
}

#[test]
fn ladders_show_up_to_depth_levels_highest_first() {
    let mut book = Orderbook::new();
    for (i, p) in [600, 610, 620, 630, 640].iter().enumerate() {
        book.set_shares(*p, -(i as i32) - 1);
    }
    for (i, p) in [100, 90, 80].iter().enumerate() {
        book.set_shares(*p, (i as i32) + 1);
    }
    assert_eq!(book.ask_levels(3), vec![(620, -3), (610, -2), (600, -1)]);
    assert_eq!(book.ask_levels(8), vec![(640, -5), (630, -4), (620, -3), (610, -2), (600, -1)]);
    assert_eq!(book.bid_levels(2), vec![(100, 1), (90, 2)]);
    assert_eq!(book.bid_levels(8), vec![(100, 1), (90, 2), (80, 3)]);
    assert_eq!(book.ask_levels(3).last().unwrap().0, book.get_best_ask_dollars().unwrap());
    assert_eq!(book.bid_levels(3)[0].0, book.get_best_bid_dollars().unwrap());
    assert_eq!(book.ask_levels(0), vec![]);
    assert_eq!(book.bid_levels(0), vec![]);
}
