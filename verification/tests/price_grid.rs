use kalshi_terminal::price::{get_index_of_dollars, index_to_dollars};

#[test]
fn grid_bands_map_to_levels() {
    assert_eq!(get_index_of_dollars(0), Some(0));
    assert_eq!(get_index_of_dollars(100), Some(100));
    assert_eq!(get_index_of_dollars(110), Some(101));
    assert_eq!(get_index_of_dollars(890), Some(179));
    assert_eq!(get_index_of_dollars(900), Some(180));
    assert_eq!(get_index_of_dollars(1000), Some(280));
    assert_eq!(get_index_of_dollars(115), None);
    assert_eq!(get_index_of_dollars(105), None);
    assert_eq!(get_index_of_dollars(-1), None);
    assert_eq!(get_index_of_dollars(1001), None);
    assert_eq!(index_to_dollars(101), Some(110));
    assert_eq!(index_to_dollars(281), None);
}

#[test]
fn every_level_round_trips_through_its_price() {
    for idx in 0..281usize {
        let mils = index_to_dollars(idx).unwrap();
        assert_eq!(get_index_of_dollars(mils), Some(idx));
    }
}

#[test]
fn prices_rise_with_levels() {
    let mut last = -1;
    for idx in 0..281usize {
        let mils = index_to_dollars(idx).unwrap();
        assert!(mils > last);
        last = mils;
    }
    assert_eq!(index_to_dollars(0), Some(0));
    assert_eq!(index_to_dollars(100), Some(100));
    assert_eq!(index_to_dollars(179), Some(890));
    assert_eq!(index_to_dollars(180), Some(900));
    assert_eq!(index_to_dollars(280), Some(1000));
}

#[test]
fn grid_is_symmetric_about_fifty_cents() {
    for mils in -20..1020 {
        assert_eq!(get_index_of_dollars(mils).is_some(), get_index_of_dollars(1000 - mils).is_some());
    }
}

#[test]
fn middle_band_only_takes_whole_cents() {
    assert_eq!(get_index_of_dollars(500), Some(140));
    assert_eq!(get_index_of_dollars(501), None);
    assert_eq!(get_index_of_dollars(109), None);
    assert_eq!(get_index_of_dollars(891), None);
    assert_eq!(get_index_of_dollars(899), None);
    assert_eq!(get_index_of_dollars(i32::MIN), None);
    assert_eq!(get_index_of_dollars(i32::MAX), None);
}
