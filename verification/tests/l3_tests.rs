use pricing::BidOffer;
use pricing::L3MarketData;
use pricing::MarketSide;
use pricing::UpdateAction;

#[test]
fn simple_add_price() {
    let mut test = L3MarketData::new();

    assert_eq!(
        test.update(UpdateAction::Add, MarketSide::Bid, 123, 12, 10),
        Ok(())
    );
    assert_eq!(
        test.update(UpdateAction::Add, MarketSide::Offer, 124, 15, 20),
        Ok(())
    );

    assert_eq!(
        test.get_price(1),
        BidOffer::new_with_price(Some(12), Some(15))
    );
    assert_eq!(
        test.get_price(10),
        BidOffer::new_with_price(Some(12), Some(15))
    );

    assert_eq!(test.get_price(11), BidOffer::new_with_price(None, Some(15)));
    assert_eq!(test.get_price(20), BidOffer::new_with_price(None, Some(15)));
    assert_eq!(test.get_price(21), BidOffer::new_with_price(None, None));
}

#[test]
fn simple_modify_size() {
    let mut test = L3MarketData::new();

    assert_eq!(
        test.update(UpdateAction::Add, MarketSide::Bid, 123, 12, 10),
        Ok(())
    );
    assert_eq!(
        test.update(UpdateAction::Add, MarketSide::Offer, 124, 15, 20),
        Ok(())
    );

    assert_eq!(
        test.update(UpdateAction::Update, MarketSide::Bid, 123, 12, 8),
        Ok(())
    );
    assert_eq!(
        test.update(UpdateAction::Update, MarketSide::Offer, 124, 15, 12),
        Ok(())
    );

    assert_eq!(
        test.get_price(1),
        BidOffer::new_with_price(Some(12), Some(15))
    );
    assert_eq!(
        test.get_price(8),
        BidOffer::new_with_price(Some(12), Some(15))
    );
    assert_eq!(test.get_price(9), BidOffer::new_with_price(None, Some(15)));
    assert_eq!(test.get_price(12), BidOffer::new_with_price(None, Some(15)));
    assert_eq!(test.get_price(13), BidOffer::new_with_price(None, None));
}

#[test]
fn simple_modify_price() {
    let mut test = L3MarketData::new();

    assert_eq!(
        test.update(UpdateAction::Add, MarketSide::Bid, 123, 12, 10),
        Ok(())
    );
    assert_eq!(
        test.update(UpdateAction::Add, MarketSide::Offer, 124, 15, 20),
        Ok(())
    );

    assert_eq!(
        test.update(UpdateAction::Update, MarketSide::Bid, 123, 11, 10),
        Ok(())
    );
    assert_eq!(
        test.update(UpdateAction::Update, MarketSide::Offer, 124, 16, 20),
        Ok(())
    );

    assert_eq!(
        test.get_price(1),
        BidOffer::new_with_price(Some(11), Some(16))
    );
    assert_eq!(
        test.get_price(10),
        BidOffer::new_with_price(Some(11), Some(16))
    );
    assert_eq!(test.get_price(11), BidOffer::new_with_price(None, Some(16)));
    assert_eq!(test.get_price(20), BidOffer::new_with_price(None, Some(16)));
    assert_eq!(test.get_price(21), BidOffer::new_with_price(None, None));
}

#[test]
fn simple_remove_price() {
    let mut test = L3MarketData::new();

    assert_eq!(
        test.update(UpdateAction::Add, MarketSide::Bid, 123, 12, 10),
        Ok(())
    );
    assert_eq!(
        test.update(UpdateAction::Add, MarketSide::Offer, 124, 15, 20),
        Ok(())
    );

    assert_eq!(
        test.get_price(10),
        BidOffer::new_with_price(Some(12), Some(15))
    );

    assert_eq!(
        test.update(UpdateAction::Remove, MarketSide::Bid, 123, 11, 10),
        Ok(())
    );
    assert_eq!(
        test.update(UpdateAction::Remove, MarketSide::Offer, 124, 16, 20),
        Ok(())
    );

    assert_eq!(test.get_price(10), BidOffer::new_with_price(None, None));
}

#[test]
fn multi_price_on_level() {
    let mut test = L3MarketData::new();

    assert_eq!(
        test.update(UpdateAction::Add, MarketSide::Bid, 123, 12, 10),
        Ok(())
    );
    assert_eq!(
        test.update(UpdateAction::Add, MarketSide::Offer, 124, 15, 10),
        Ok(())
    );

    assert_eq!(test.get_price(12), BidOffer::new_with_price(None, None));

    assert_eq!(
        test.update(UpdateAction::Add, MarketSide::Bid, 125, 12, 5),
        Ok(())
    );
    assert_eq!(
        test.update(UpdateAction::Add, MarketSide::Offer, 126, 15, 5),
        Ok(())
    );

    assert_eq!(
        test.get_price(12),
        BidOffer::new_with_price(Some(12), Some(15))
    );

    assert_eq!(
        test.update(UpdateAction::Remove, MarketSide::Bid, 123, 11, 10),
        Ok(())
    );
    assert_eq!(
        test.update(UpdateAction::Remove, MarketSide::Offer, 124, 16, 10),
        Ok(())
    );

    assert_eq!(
        test.get_price(5),
        BidOffer::new_with_price(Some(12), Some(15))
    );
    assert_eq!(test.get_price(10), BidOffer::new_with_price(None, None));
}

#[test]
fn multi_price_modify() {
    let mut test = L3MarketData::new();

    assert_eq!(
        test.update(UpdateAction::Add, MarketSide::Bid, 123, 12, 10),
        Ok(())
    );
    assert_eq!(
        test.update(UpdateAction::Add, MarketSide::Offer, 124, 15, 10),
        Ok(())
    );

    assert_eq!(test.get_price(12), BidOffer::new_with_price(None, None));

    assert_eq!(
        test.update(UpdateAction::Add, MarketSide::Bid, 125, 12, 5),
        Ok(())
    );
    assert_eq!(
        test.update(UpdateAction::Add, MarketSide::Offer, 126, 15, 5),
        Ok(())
    );

    assert_eq!(
        test.get_price(12),
        BidOffer::new_with_price(Some(12), Some(15))
    );

    assert_eq!(
        test.update(UpdateAction::Update, MarketSide::Bid, 123, 12, 15),
        Ok(())
    );
    assert_eq!(
        test.update(UpdateAction::Update, MarketSide::Offer, 124, 15, 15),
        Ok(())
    );

    assert_eq!(
        test.get_price(20),
        BidOffer::new_with_price(Some(12), Some(15))
    );

    assert_eq!(
        test.update(UpdateAction::Update, MarketSide::Bid, 123, 10, 10),
        Ok(())
    );
    assert_eq!(
        test.update(UpdateAction::Update, MarketSide::Offer, 124, 17, 10),
        Ok(())
    );

    assert_eq!(
        test.get_price(10),
        BidOffer::new_with_price(Some(11), Some(16))
    );
}

#[test]
fn unknown_id_is_invalid_reference() {
    let mut test = L3MarketData::new();

    assert_eq!(
        test.update(UpdateAction::Add, MarketSide::Bid, 123, 12, 10),
        Ok(())
    );

    // Update and Remove on an unknown id fail and change nothing
    assert_eq!(
        test.update(UpdateAction::Update, MarketSide::Bid, 999, 11, 5),
        Err(())
    );
    assert_eq!(
        test.update(UpdateAction::Remove, MarketSide::Bid, 999, 11, 5),
        Err(())
    );
    assert_eq!(test.get_price(10), BidOffer::new_with_price(Some(12), None));

    // a second Add under a resting id is rejected rather than double-counted
    assert_eq!(
        test.update(UpdateAction::Add, MarketSide::Bid, 123, 12, 10),
        Err(())
    );
    assert_eq!(test.get_price(10), BidOffer::new_with_price(Some(12), None));
    assert_eq!(test.get_price(11), BidOffer::new_with_price(None, None));
}

#[test]
fn move_order_retargets_its_id() {
    let mut test = L3MarketData::new();

    assert_eq!(
        test.update(UpdateAction::Add, MarketSide::Bid, 123, 12, 10),
        Ok(())
    );
    assert_eq!(
        test.update(UpdateAction::Add, MarketSide::Bid, 125, 12, 5),
        Ok(())
    );

    // moving id 123 from price 12 to 11 leaves the shared level at 12 in
    // place for id 125 and registers 123 under 11
    assert_eq!(
        test.update(UpdateAction::Update, MarketSide::Bid, 123, 11, 10),
        Ok(())
    );
    assert_eq!(test.get_price(5), BidOffer::new_with_price(Some(12), None));
    assert_eq!(test.get_price(15), BidOffer::new_with_price(Some(11), None));

    // a subsequent Remove by id alone targets the new price
    assert_eq!(
        test.update(UpdateAction::Remove, MarketSide::Bid, 123, 0, 0),
        Ok(())
    );
    assert_eq!(test.get_price(5), BidOffer::new_with_price(Some(12), None));
    assert_eq!(test.get_price(6), BidOffer::new_with_price(None, None));
}

#[test]
fn clear_empties_everything() {
    let mut test = L3MarketData::new();

    assert_eq!(
        test.update(UpdateAction::Add, MarketSide::Bid, 123, 12, 10),
        Ok(())
    );
    assert_eq!(
        test.update(UpdateAction::Add, MarketSide::Offer, 124, 15, 20),
        Ok(())
    );

    test.clear();
    assert_eq!(test.get_price(1), BidOffer::new_with_price(None, None));
    // the index was cleared too: the old ids are unknown again
    assert_eq!(
        test.update(UpdateAction::Remove, MarketSide::Bid, 123, 12, 10),
        Err(())
    );
}

#[test]
fn reads_do_not_mutate() {
    let mut test = L3MarketData::new();

    assert_eq!(
        test.update(UpdateAction::Add, MarketSide::Bid, 123, 12, 10),
        Ok(())
    );

    let first = test.get_price(10);
    let again = test.get_price(10);
    assert_eq!(first, again);
    assert_eq!(test.get_price(11), BidOffer::new_with_price(None, None));
    assert_eq!(test.get_price(10), BidOffer::new_with_price(Some(12), None));
}
