use std::cell::RefCell;
use std::rc::Rc;

use pricing::BidOffer;
use pricing::L1MarketCallback;
use pricing::L1MarketData;

#[derive(Clone)]
struct TestCallback {
    called: Rc<RefCell<bool>>,
}

impl TestCallback {
    fn new() -> Self {
        Self { called: Rc::new(RefCell::new(false)) }
    }

    fn reset(&self) {
        *self.called.borrow_mut() = false;
    }

    fn is_called(&self) -> bool {
        *self.called.borrow()
    }
}

impl L1MarketCallback for TestCallback {
    fn market_updated(&self) {
        *self.called.borrow_mut() = true;
    }
}

#[test]
fn max_applied_when_set() {
    let test = L1MarketData::<TestCallback>::new_with_max(Some(10), Some(10), Some(10), Some(10));

    assert_eq!(
        test.get_price(9),
        BidOffer::new_with_price(Some(10), Some(10))
    );
    assert_eq!(
        test.get_price(10),
        BidOffer::new_with_price(Some(10), Some(10))
    );
    assert_eq!(test.get_price(11), BidOffer::new());
}

#[test]
fn max_not_applied_when_not_set() {
    let test = L1MarketData::<TestCallback>::new_with_max(Some(10), Some(10), Some(10), None);

    assert_eq!(
        test.get_price(9),
        BidOffer::new_with_price(Some(10), Some(10))
    );
    assert_eq!(
        test.get_price(10),
        BidOffer::new_with_price(Some(10), Some(10))
    );
    assert_eq!(test.get_price(11), BidOffer::new_with_price(None, Some(10)));

    let test = L1MarketData::<TestCallback>::new_with_max(Some(10), Some(10), None, Some(10));

    assert_eq!(
        test.get_price(9),
        BidOffer::new_with_price(Some(10), Some(10))
    );
    assert_eq!(
        test.get_price(10),
        BidOffer::new_with_price(Some(10), Some(10))
    );
    assert_eq!(test.get_price(11), BidOffer::new_with_price(Some(10), None));
}

#[test]
fn update_individual_triggers_subscriptions() {
    let mut test = L1MarketData::new_with_max(Some(10), Some(10), Some(60), Some(70));

    let callback = TestCallback::new();
    test.subscribe(callback.clone());

    test.update_bid(Some(10));
    assert!(!callback.is_called());
    test.update_bid(Some(9));
    assert!(callback.is_called());

    callback.reset();
    test.update_offer(Some(10));
    assert!(!callback.is_called());
    test.update_offer(Some(19));
    assert!(callback.is_called());

    callback.reset();
    test.update_max_bid(Some(60));
    assert!(!callback.is_called());
    test.update_max_bid(Some(59));
    assert!(callback.is_called());

    callback.reset();
    test.update_max_offer(Some(70));
    assert!(!callback.is_called());
    test.update_max_offer(Some(71));
    assert!(callback.is_called());
}

#[test]
fn update_multiple_triggers_subscriptions() {
    let mut test = L1MarketData::new_with_max(Some(10), Some(10), Some(60), Some(70));

    let callback = TestCallback::new();
    test.subscribe(callback.clone());

    test.update(Some(10), Some(10));
    assert!(!callback.is_called());
    test.update(Some(12), Some(10));
    assert!(callback.is_called());
    callback.reset();
    test.update(Some(12), Some(12));
    assert!(callback.is_called());

    callback.reset();
    test.update_price(BidOffer::new_with_price(Some(12), Some(12)));
    assert!(!callback.is_called());
    test.update_price(BidOffer::new_with_price(Some(11), Some(12)));
    assert!(callback.is_called());
    callback.reset();
    test.update_price(BidOffer::new_with_price(Some(11), Some(11)));
    assert!(callback.is_called());

    callback.reset();
    test.update_max(BidOffer::new_with_price(Some(60), Some(70)));
    assert!(!callback.is_called());
    test.update_max(BidOffer::new_with_price(Some(61), Some(70)));
    assert!(callback.is_called());
    callback.reset();
    test.update_max(BidOffer::new_with_price(Some(61), Some(71)));
    assert!(callback.is_called());

    callback.reset();
    test.update_price_with_max(
        BidOffer::new_with_price(Some(11), Some(11)),
        BidOffer::new_with_price(Some(61), Some(71)),
    );
    assert!(!callback.is_called());
    test.update_price_with_max(
        BidOffer::new_with_price(Some(12), Some(11)),
        BidOffer::new_with_price(Some(61), Some(71)),
    );
    assert!(callback.is_called());
    callback.reset();
    test.update_price_with_max(
        BidOffer::new_with_price(Some(12), Some(12)),
        BidOffer::new_with_price(Some(61), Some(71)),
    );
    assert!(callback.is_called());
    callback.reset();
    test.update_price_with_max(
        BidOffer::new_with_price(Some(12), Some(12)),
        BidOffer::new_with_price(Some(62), Some(71)),
    );
    assert!(callback.is_called());
    callback.reset();
    test.update_price_with_max(
        BidOffer::new_with_price(Some(12), Some(12)),
        BidOffer::new_with_price(Some(62), Some(72)),
    );
    assert!(callback.is_called());
}

#[test]
fn clear_triggers_subscriptions() {
    let mut test = L1MarketData::new();

    let callback = TestCallback::new();
    test.subscribe(callback.clone());

    test.clear();
    assert!(!callback.is_called());

    test.update_with_max(Some(10), Some(10), Some(60), Some(70));
    callback.reset();

    test.clear();
    assert!(callback.is_called());

    test.update_with_max(Some(10), None, None, None);
    callback.reset();
    test.clear();
    assert!(callback.is_called());

    test.update_with_max(None, Some(10), None, None);
    callback.reset();
    test.clear();
    assert!(callback.is_called());

    test.update_with_max(None, None, Some(10), None);
    callback.reset();
    test.clear();
    assert!(callback.is_called());

    test.update_with_max(None, None, None, Some(10));
    callback.reset();
    test.clear();
    assert!(callback.is_called());
}

#[test]
fn unsubscribe_stops_notifications() {
    let mut test = L1MarketData::new_with_price(Some(10), Some(20));

    let first = TestCallback::new();
    let second = TestCallback::new();
    let first_id = test.subscribe(first.clone());
    let second_id = test.subscribe(second.clone());
    assert_ne!(first_id, second_id);

    assert!(test.unsubscribe(first_id));
    test.update_bid(Some(9));
    assert!(!first.is_called());
    assert!(second.is_called());

    // an unknown handle removes nothing
    assert!(!test.unsubscribe(first_id));
}

#[test]
fn get_price_reads_do_not_mutate() {
    let test = L1MarketData::<TestCallback>::new_with_max(Some(10), Some(20), Some(40), Some(50));

    let first = test.get_price(45);
    let again = test.get_price(45);
    assert_eq!(first, again);
    assert_eq!(first, BidOffer::new_with_price(None, Some(20)));
    assert_eq!(*test.get_bid(), Some(10));
    assert_eq!(*test.get_offer(), Some(20));
    assert_eq!(*test.get_max_bid(), Some(40));
    assert_eq!(*test.get_max_offer(), Some(50));
}
