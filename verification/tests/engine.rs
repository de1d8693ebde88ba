use record_store::engine::DataEngine;

#[test]
fn store_then_get_scenario() {
    let mut engine = DataEngine::new();
    assert_eq!(engine.store_record(String::from("hello")), Ok(1));
    assert_eq!(engine.get_record(1), Some(Ok(String::from("hello"))));
    assert_eq!(engine.store_record(String::from("world")), Ok(2));
    assert_eq!(engine.get_record(3), None);
}

#[test]
fn identifiers_are_monotonic() {
    let mut engine = DataEngine::new();
    let texts = ["first", "second", "third", "fourth", "fifth"];
    for (i, text) in texts.iter().enumerate() {
        let id = engine.store_record(String::from(*text)).unwrap();
        assert_eq!(id, i as u64 + 1);
    }
    assert_eq!(engine.record_count(), 5);
    for (i, text) in texts.iter().enumerate() {
        assert_eq!(engine.get_record(i as u64 + 1), Some(Ok(String::from(*text))));
    }
}

#[test]
fn read_miss_is_absent_not_error() {
    let mut engine = DataEngine::new();
    assert_eq!(engine.get_record(1), None);
    engine.store_record(String::from("only one")).unwrap();
    assert_eq!(engine.get_record(0), None);
    assert_eq!(engine.get_record(2), None);
    assert_eq!(engine.get_record(u64::MAX), None);
}

#[test]
fn default_engine_is_empty() {
    let engine = DataEngine::default();
    assert_eq!(engine.record_count(), 0);
    assert_eq!(engine.get_record(1), None);
    assert_eq!(engine.balance_of(&String::from("alice")), None);
}

#[test]
fn charge_unknown_account_is_noop() {
    let mut engine = DataEngine::new();
    engine.set_balance(String::from("alice"), 100);
    engine.charge_for_data(String::from("bob"), 10);
    assert_eq!(engine.balance_of(&String::from("bob")), None);
    assert_eq!(engine.balance_of(&String::from("alice")), Some(100));
}

#[test]
fn charge_on_empty_ledger_creates_nothing() {
    let mut engine = DataEngine::new();
    engine.charge_for_data(String::from("nobody"), 1);
    assert_eq!(engine.balance_of(&String::from("nobody")), None);
}

#[test]
fn charge_unknown_account_ignores_any_amount() {
    let mut engine = DataEngine::new();
    engine.set_balance(String::from("alice"), 100);
    engine.charge_for_data(String::from("bob"), u128::MAX);
    assert_eq!(engine.balance_of(&String::from("bob")), None);
    assert_eq!(engine.balance_of(&String::from("alice")), Some(100));
}

#[test]
fn charge_underflow_stores_negative_balance() {
    let mut engine = DataEngine::new();
    engine.set_balance(String::from("alice"), 50);
    engine.charge_for_data(String::from("alice"), 80);
    assert_eq!(engine.balance_of(&String::from("alice")), Some(-30));
}

#[test]
fn seed_then_charge_scenario() {
    let mut engine = DataEngine::new();
    engine.set_balance(String::from("alice"), 100);
    engine.charge_for_data(String::from("alice"), 30);
    assert_eq!(engine.balance_of(&String::from("alice")), Some(70));
    engine.charge_for_data(String::from("bob"), 10);
    assert_eq!(engine.balance_of(&String::from("alice")), Some(70));
    assert_eq!(engine.balance_of(&String::from("bob")), None);
}

#[test]
fn seeding_overwrites_a_balance() {
    let mut engine = DataEngine::new();
    engine.set_balance(String::from("alice"), 100);
    engine.set_balance(String::from("alice"), 40);
    assert_eq!(engine.balance_of(&String::from("alice")), Some(40));
}

#[test]
fn charges_accumulate() {
    let mut engine = DataEngine::new();
    engine.set_balance(String::from("carol"), 10);
    engine.charge_for_data(String::from("carol"), 3);
    engine.charge_for_data(String::from("carol"), 4);
    assert_eq!(engine.balance_of(&String::from("carol")), Some(3));
}

#[test]
fn stores_and_charges_are_independent() {
    let mut engine = DataEngine::new();
    engine.set_balance(String::from("alice"), 5);
    engine.store_record(String::from("payload")).unwrap();
    assert_eq!(engine.balance_of(&String::from("alice")), Some(5));
    engine.charge_for_data(String::from("alice"), 2);
    assert_eq!(engine.record_count(), 1);
    assert_eq!(engine.get_record(1), Some(Ok(String::from("payload"))));
}
