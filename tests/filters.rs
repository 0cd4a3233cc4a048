use std::sync::atomic::{AtomicU32, Ordering};
use std::sync::{Arc, Mutex};

use chat_server::filter::{next_body, outcome, FilterAction, FilterRegistry, MessageFilter};

struct Fixed {
    action: FilterAction,
    calls: Arc<AtomicU32>,
    seen: Arc<Mutex<Vec<String>>>,
}

impl Fixed {
    fn new(action: FilterAction) -> (Self, Arc<AtomicU32>, Arc<Mutex<Vec<String>>>) {
        let calls = Arc::new(AtomicU32::new(0));
        let seen = Arc::new(Mutex::new(Vec::new()));
        (Fixed { action, calls: calls.clone(), seen: seen.clone() }, calls, seen)
    }
}

impl MessageFilter for Fixed {
    fn check(&mut self, _username: &str, body: &str) -> FilterAction {
        self.calls.fetch_add(1, Ordering::SeqCst);
        self.seen.lock().unwrap().push(body.to_string());
        match &self.action {
            FilterAction::Allow => FilterAction::Allow,
            FilterAction::Modify(b) => FilterAction::Modify(b.clone()),
            FilterAction::Block(r) => FilterAction::Block(r.clone()),
        }
    }
}

#[test]
fn modify_then_allow_gives_modify() {
    let mut reg = FilterRegistry::new();
    let (f1, _, _) = Fixed::new(FilterAction::Modify("x".to_string()));
    let (f2, _, seen2) = Fixed::new(FilterAction::Allow);
    reg.add(f1);
    reg.add(f2);
    match reg.apply("u", "orig") {
        FilterAction::Modify(b) => assert_eq!(b, "x"),
        other => panic!("unexpected {:?}", other),
    }
    assert_eq!(*seen2.lock().unwrap(), vec!["x".to_string()]);
}

#[test]
fn allow_then_block_gives_block_after_running_both() {
    let mut reg = FilterRegistry::new();
    let (f1, calls1, _) = Fixed::new(FilterAction::Allow);
    let (f2, calls2, _) = Fixed::new(FilterAction::Block("spam".to_string()));
    let (f3, calls3, _) = Fixed::new(FilterAction::Allow);
    reg.add(f1);
    reg.add(f2);
    reg.add(f3);
    match reg.apply("u", "orig") {
        FilterAction::Block(r) => assert_eq!(r, "spam"),
        other => panic!("unexpected {:?}", other),
    }
    assert_eq!(calls1.load(Ordering::SeqCst), 1);
    assert_eq!(calls2.load(Ordering::SeqCst), 1);
    assert_eq!(calls3.load(Ordering::SeqCst), 0);
}

#[test]
fn modification_discarded_by_later_block() {
    let mut reg = FilterRegistry::new();
    let (f1, calls1, _) = Fixed::new(FilterAction::Modify("changed".to_string()));
    let (f2, _, seen2) = Fixed::new(FilterAction::Block("no".to_string()));
    reg.add(f1);
    reg.add(f2);
    assert!(matches!(reg.apply("u", "orig"), FilterAction::Block(ref r) if r == "no"));
    assert_eq!(calls1.load(Ordering::SeqCst), 1);
    assert_eq!(*seen2.lock().unwrap(), vec!["changed".to_string()]);
}

#[test]
fn no_filters_allows() {
    let mut reg = FilterRegistry::new();
    assert!(matches!(reg.apply("u", "body"), FilterAction::Allow));
}

#[test]
fn modify_back_to_input_is_allow() {
    let mut reg = FilterRegistry::new();
    let (f1, _, _) = Fixed::new(FilterAction::Modify("tmp".to_string()));
    let (f2, _, _) = Fixed::new(FilterAction::Modify("orig".to_string()));
    reg.add(f1);
    reg.add(f2);
    assert!(matches!(reg.apply("u", "orig"), FilterAction::Allow));
}

#[test]
fn next_body_threads_or_stops() {
    assert_eq!(next_body("cur".to_string(), FilterAction::Allow), Ok("cur".to_string()));
    assert_eq!(next_body("cur".to_string(), FilterAction::Modify("new".into())), Ok("new".to_string()));
    assert_eq!(next_body("cur".to_string(), FilterAction::Block("why".into())), Err("why".to_string()));
}

#[test]
fn outcome_compares_with_input() {
    assert!(matches!(outcome("same", "same".to_string()), FilterAction::Allow));
    assert!(matches!(outcome("orig", "x".to_string()), FilterAction::Modify(ref b) if b == "x"));
}

#[test]
fn filters_run_in_registration_order() {
    let mut reg = FilterRegistry::new();
    let (f1, _, seen1) = Fixed::new(FilterAction::Modify("one".to_string()));
    let (f2, _, seen2) = Fixed::new(FilterAction::Modify("two".to_string()));
    let (f3, calls3, seen3) = Fixed::new(FilterAction::Allow);
    reg.add(f1);
    reg.add(f2);
    reg.add(f3);
    assert!(matches!(reg.apply("u", "zero"), FilterAction::Modify(ref b) if b == "two"));
    assert_eq!(*seen1.lock().unwrap(), vec!["zero".to_string()]);
    assert_eq!(*seen2.lock().unwrap(), vec!["one".to_string()]);
    assert_eq!(*seen3.lock().unwrap(), vec!["two".to_string()]);
    assert_eq!(calls3.load(Ordering::SeqCst), 1);
}
