use pricing::BidOffer;
use pricing::L2FullAmountMarketData;
use pricing::L2SweepableMarketData;
use pricing::MarketSide;
use pricing::UpdateAction;

#[test]
fn sweepable_get_basic_price() {
    let mut test = L2SweepableMarketData::new();

    test.update(UpdateAction::Add, MarketSide::Bid, 12, 10);
    test.update(UpdateAction::Add, MarketSide::Offer, 15, 20);

    assert_eq!(
        test.get_price(1),
        BidOffer::new_with_price(Some(12), Some(15))
    );
    assert_eq!(
        test.get_price(10),
        BidOffer::new_with_price(Some(12), Some(15))
    );
    assert_eq!(test.get_price(11), BidOffer::new_with_price(None, Some(15)));
    assert_eq!(test.get_price(20), BidOffer::new_with_price(None, Some(15)));
    assert_eq!(test.get_price(21), BidOffer::new_with_price(None, None));
}

#[test]
fn sweepable_get_vwap_price() {
    let mut test = L2SweepableMarketData::new();

    test.update(UpdateAction::Add, MarketSide::Bid, 12, 10);
    test.update(UpdateAction::Add, MarketSide::Bid, 10, 10);
    test.update(UpdateAction::Add, MarketSide::Bid, 8, 10);
    test.update(UpdateAction::Add, MarketSide::Bid, 6, 10);
    test.update(UpdateAction::Add, MarketSide::Offer, 16, 10);
    test.update(UpdateAction::Add, MarketSide::Offer, 20, 20);
    test.update(UpdateAction::Add, MarketSide::Offer, 24, 10);

    assert_eq!(
        test.get_price(20),
        BidOffer::new_with_price(Some(11), Some(18))
    );

    assert_eq!(
        test.get_price(40),
        BidOffer::new_with_price(Some(9), Some(20))
    );
}

#[test]
fn sweepable_update_and_remove() {
    let mut test = L2SweepableMarketData::new();

    test.update(UpdateAction::Add, MarketSide::Bid, 12, 10);
    // an Update to a price not present behaves as an insert
    test.update(UpdateAction::Update, MarketSide::Bid, 10, 10);
    assert_eq!(test.get_price(20), BidOffer::new_with_price(Some(11), None));

    // an Update to a present price replaces the size outright
    test.update(UpdateAction::Update, MarketSide::Bid, 12, 30);
    assert_eq!(test.get_price(30), BidOffer::new_with_price(Some(12), None));

    // a Remove deletes the level outright, not decrements
    test.update(UpdateAction::Remove, MarketSide::Bid, 12, 5);
    assert_eq!(test.get_price(10), BidOffer::new_with_price(Some(10), None));
    assert_eq!(test.get_price(11), BidOffer::new_with_price(None, None));

    test.clear();
    assert_eq!(test.get_price(1), BidOffer::new_with_price(None, None));
}

#[test]
fn full_amount_get_basic_price() {
    let mut test: L2FullAmountMarketData = L2FullAmountMarketData::new();

    test.update(UpdateAction::Add, MarketSide::Bid, 12, 10);
    test.update(UpdateAction::Add, MarketSide::Offer, 15, 20);

    assert_eq!(
        test.get_price(1),
        BidOffer::new_with_price(Some(12), Some(15))
    );
    assert_eq!(
        test.get_price(10),
        BidOffer::new_with_price(Some(12), Some(15))
    );
    assert_eq!(test.get_price(11), BidOffer::new_with_price(None, Some(15)));
    assert_eq!(test.get_price(20), BidOffer::new_with_price(None, Some(15)));
    assert_eq!(test.get_price(21), BidOffer::new_with_price(None, None));
}

#[test]
fn full_amount_get_vwap_price() {
    let mut test = L2FullAmountMarketData::new();

    test.update(UpdateAction::Add, MarketSide::Bid, 12, 10);
    test.update(UpdateAction::Add, MarketSide::Bid, 10, 20);
    test.update(UpdateAction::Add, MarketSide::Bid, 8, 30);
    test.update(UpdateAction::Add, MarketSide::Bid, 6, 40);
    test.update(UpdateAction::Add, MarketSide::Offer, 16, 10);
    test.update(UpdateAction::Add, MarketSide::Offer, 20, 30);
    test.update(UpdateAction::Add, MarketSide::Offer, 24, 40);

    assert_eq!(
        test.get_price(20),
        BidOffer::new_with_price(Some(10), Some(20))
    );

    assert_eq!(
        test.get_price(40),
        BidOffer::new_with_price(Some(6), Some(24))
    );
}

#[test]
fn full_amount_selects_tier_not_blend() {
    // bids quoted per tier: size 10 at price 12, size 20 at price 10;
    // a request for 15 takes the size-20 tier's price of 10, unblended
    let mut test = L2FullAmountMarketData::new();

    test.update(UpdateAction::Add, MarketSide::Bid, 12, 10);
    test.update(UpdateAction::Add, MarketSide::Bid, 10, 20);

    assert_eq!(test.get_price(15), BidOffer::new_with_price(Some(10), None));
}

#[test]
fn full_amount_update_and_remove() {
    let mut test = L2FullAmountMarketData::new();

    test.update(UpdateAction::Add, MarketSide::Offer, 16, 10);
    // an Update to a tier not present behaves as an insert
    test.update(UpdateAction::Update, MarketSide::Offer, 20, 30);
    assert_eq!(test.get_price(20), BidOffer::new_with_price(None, Some(20)));

    // an Update to a present tier replaces the price
    test.update(UpdateAction::Update, MarketSide::Offer, 21, 30);
    assert_eq!(test.get_price(20), BidOffer::new_with_price(None, Some(21)));

    test.update(UpdateAction::Remove, MarketSide::Offer, 0, 30);
    assert_eq!(test.get_price(20), BidOffer::new_with_price(None, None));
    assert_eq!(test.get_price(10), BidOffer::new_with_price(None, Some(16)));

    test.clear();
    assert_eq!(test.get_price(1), BidOffer::new_with_price(None, None));
}

#[test]
fn sweepable_reads_do_not_mutate() {
    let mut test = L2SweepableMarketData::new();
    test.update(UpdateAction::Add, MarketSide::Bid, 12, 10);
    test.update(UpdateAction::Add, MarketSide::Offer, 15, 20);

    let first = test.get_price(10);
    let again = test.get_price(10);
    assert_eq!(first, again);
    assert_eq!(test.get_price(21), BidOffer::new_with_price(None, None));
    // the failed sweep left the book as it was
    assert_eq!(
        test.get_price(10),
        BidOffer::new_with_price(Some(12), Some(15))
    );
}
