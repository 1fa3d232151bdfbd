use wifi_monitor::store::{plan_store, StoreAction};

#[test]
fn known_access_point_is_updated_under_its_id() {
    assert_eq!(plan_store(Some(42), "net"), StoreAction::Update { id: 42 });
    assert_eq!(plan_store(Some(-1), ""), StoreAction::Update { id: -1 });
}

#[test]
fn new_access_point_is_created_under_its_name() {
    assert_eq!(plan_store(None, "net"), StoreAction::Insert { name: String::from("net") });
    assert_eq!(
        plan_store(None, "<Hidden>"),
        StoreAction::Insert { name: String::from("<Hidden>") }
    );
}

#[test]
fn new_access_point_without_name_is_created_as_unknown() {
    assert_eq!(plan_store(None, ""), StoreAction::Insert { name: String::from("Unknown") });
}

#[test]
fn planning_twice_gives_the_same_step() {
    assert_eq!(plan_store(Some(7), "a"), plan_store(Some(7), "a"));
    assert_eq!(plan_store(None, "a"), plan_store(None, "a"));
}
