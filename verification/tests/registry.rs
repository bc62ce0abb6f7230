use email_schedule_backend::registry::{is_live, TokenRegistry, STATE_TIMEOUT};

fn listing(registry: &TokenRegistry) -> Vec<(String, u64)> {
    registry.entries()
}

fn pair(token: &str, at: u64) -> (String, u64) {
    (token.to_string(), at)
}

#[test]
fn new_registry_is_empty() {
    let registry = TokenRegistry::new();
    assert_eq!(listing(&registry), vec![]);
    assert!(!registry.contains("t1"));
}

#[test]
fn token_is_consumed_once() {
    let mut registry = TokenRegistry::new();
    registry.add("t1", 1_000);
    assert!(registry.check("t1"));
    assert!(!registry.check("t1"));
    assert_eq!(listing(&registry), vec![]);
}

#[test]
fn check_of_unknown_token_changes_nothing() {
    let mut registry = TokenRegistry::new();
    registry.add("a", 1);
    registry.add("b", 2);
    assert!(!registry.check("c"));
    assert_eq!(listing(&registry), vec![pair("a", 1), pair("b", 2)]);
}

#[test]
fn check_removes_one_token_and_keeps_the_order() {
    let mut registry = TokenRegistry::new();
    registry.add("a", 1);
    registry.add("b", 2);
    registry.add("c", 3);
    registry.add("d", 4);
    assert!(registry.check("b"));
    assert_eq!(listing(&registry), vec![pair("a", 1), pair("c", 3), pair("d", 4)]);
    assert!(registry.check("a"));
    assert_eq!(listing(&registry), vec![pair("c", 3), pair("d", 4)]);
}

#[test]
fn tokens_are_listed_in_insertion_order() {
    let mut registry = TokenRegistry::new();
    registry.add("zeta", 30);
    registry.add("alpha", 10);
    registry.add("mid", 20);
    assert_eq!(listing(&registry), vec![pair("zeta", 30), pair("alpha", 10), pair("mid", 20)]);
}

#[test]
fn reissued_token_keeps_its_place_and_takes_the_new_time() {
    let mut registry = TokenRegistry::new();
    registry.add("a", 1);
    registry.add("b", 2);
    registry.add("a", 50);
    assert_eq!(listing(&registry), vec![pair("a", 50), pair("b", 2)]);
}

#[test]
fn contains_does_not_consume() {
    let mut registry = TokenRegistry::new();
    registry.add("t1", 7);
    assert!(registry.contains("t1"));
    assert!(registry.contains("t1"));
    assert!(registry.check("t1"));
    assert!(!registry.contains("t1"));
}

#[test]
fn token_expires_at_the_timeout() {
    let issued_at = 1_700_000_000;
    let mut registry = TokenRegistry::new();
    registry.add("t1", issued_at);
    registry.prune(issued_at + STATE_TIMEOUT - 1);
    assert!(registry.contains("t1"));
    assert_eq!(listing(&registry), vec![pair("t1", issued_at)]);
    registry.prune(issued_at + STATE_TIMEOUT);
    assert!(!registry.contains("t1"));
    assert_eq!(listing(&registry), vec![]);
}

#[test]
fn prune_keeps_the_order_of_the_survivors() {
    let mut registry = TokenRegistry::new();
    registry.add("old1", 0);
    registry.add("new1", 100);
    registry.add("old2", 40);
    registry.add("new2", 41);
    registry.add("new3", 99);
    registry.prune(100);
    assert_eq!(listing(&registry), vec![pair("new1", 100), pair("new2", 41), pair("new3", 99)]);
}

#[test]
fn prune_keeps_a_token_stamped_after_now() {
    let mut registry = TokenRegistry::new();
    registry.add("early", 10);
    registry.add("late", 500);
    registry.prune(100);
    assert_eq!(listing(&registry), vec![pair("late", 500)]);
}

#[test]
fn prune_of_empty_registry_is_empty() {
    let mut registry = TokenRegistry::new();
    registry.prune(u64::MAX);
    assert_eq!(listing(&registry), vec![]);
}

#[test]
fn reissue_renews_the_lifetime() {
    let mut registry = TokenRegistry::new();
    registry.add("t1", 0);
    registry.add("t1", 30);
    registry.prune(60);
    assert!(registry.contains("t1"));
    registry.prune(90);
    assert!(!registry.contains("t1"));
}

#[test]
fn liveness_formula() {
    assert_eq!(STATE_TIMEOUT, 60);
    assert!(is_live(0, 0));
    assert!(is_live(59, 0));
    assert!(!is_live(60, 0));
    assert!(!is_live(61, 0));
    assert!(is_live(1_059, 1_000));
    assert!(!is_live(1_060, 1_000));
    assert!(is_live(5, 6));
    assert!(is_live(0, u64::MAX));
    assert!(!is_live(u64::MAX, 0));
    assert!(is_live(u64::MAX, u64::MAX - 59));
    assert!(!is_live(u64::MAX, u64::MAX - 60));
}

#[test]
fn empty_token_is_a_token() {
    let mut registry = TokenRegistry::new();
    registry.add("", 3);
    assert!(registry.contains(""));
    assert!(!registry.contains(" "));
    assert!(registry.check(""));
    assert!(!registry.check(""));
}
