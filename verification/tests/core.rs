use pricing::BidOffer;

#[test]
fn it_works() {}

#[test]
fn basic_integer() {
    let bid_offer = BidOffer::new_with_price(Some(12), Some(23));

    assert_eq!(*bid_offer.get_bid(), Some(12));
    assert_eq!(*bid_offer.get_offer(), Some(23));
    assert_eq!(bid_offer.get_mid(), Some((12 + 23) / 2)); // 17 as integer division truncates
}

#[test]
fn mid_test() {
    let bid_offer = BidOffer::new_with_price(Some(12), None);
    assert_eq!(bid_offer.get_mid(), Some(12));

    let bid_offer = BidOffer::new_with_price(None, Some(23));
    assert_eq!(bid_offer.get_mid(), Some(23));

    let bid_offer: BidOffer<i64> = BidOffer::new_with_price(None, None);
    assert_eq!(bid_offer.get_mid(), None);
}

#[test]
fn mid_truncates_towards_zero() {
    // (-3 + 0) / 2 is -1 with division truncating towards zero
    let bid_offer = BidOffer::new_with_price(Some(-3), Some(0));
    assert_eq!(bid_offer.get_mid(), Some(-1));

    let bid_offer = BidOffer::new_with_price(Some(-5), Some(-8));
    assert_eq!(bid_offer.get_mid(), Some(-6));
}

#[test]
fn mid_of_extreme_prices() {
    let bid_offer = BidOffer::new_with_price(Some(i64::MIN), Some(i64::MIN));
    assert_eq!(bid_offer.get_mid(), Some(i64::MIN));

    let bid_offer = BidOffer::new_with_price(Some(i64::MAX), Some(i64::MAX));
    assert_eq!(bid_offer.get_mid(), Some(i64::MAX));

    let bid_offer = BidOffer::new_with_price(Some(i64::MIN), Some(i64::MAX));
    assert_eq!(bid_offer.get_mid(), Some(0));
}

#[test]
fn default_is_empty() {
    let bid_offer: BidOffer<i64> = Default::default();
    assert_eq!(*bid_offer.get_bid(), None);
    assert_eq!(*bid_offer.get_offer(), None);
}

#[test]
fn level_holds_its_pair() {
    let level = pricing::Level::new(100u64, 12i64);
    assert_eq!(*level.get_size(), 100);
    assert_eq!(*level.get_price(), 12);
}
