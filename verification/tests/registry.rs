use nodemgr::node::{Chain, Node};
use nodemgr::profile::Profile;
use nodemgr::registry::Registry;
use nodemgr::service::Step;

fn node(name: &str) -> Node {
    Node { name: name.to_string(), path: format!("/data/{}", name), chain: Chain::Testnet }
}

fn names(r: &Registry) -> Vec<String> {
    r.entries().iter().map(|(k, _)| k.clone()).collect()
}

#[test]
fn default_registry_is_empty() {
    let r = Registry::default();
    assert_eq!(r.len(), 0);
    assert_eq!(r.list(), "");
}

#[test]
fn add_node_then_get() {
    let mut r = Registry::default();
    assert!(r.add_node(&node("alpha")));
    let got = r.get("alpha").unwrap();
    assert_eq!(got.path, "/data/alpha");
    assert!(r.get("beta").is_none());
}

#[test]
fn add_existing_name_changes_nothing() {
    let mut r = Registry::default();
    assert!(r.add_node(&node("alpha")));
    let mut other = node("alpha");
    other.path = "/elsewhere".to_string();
    assert!(!r.add_node(&other));
    assert_eq!(r.len(), 1);
    assert_eq!(r.get("alpha").unwrap().path, "/data/alpha");
}

#[test]
fn add_twice_same_as_once() {
    let mut once = Registry::default();
    once.add_node(&node("a"));
    let mut twice = Registry::default();
    twice.add_node(&node("a"));
    twice.add_node(&node("a"));
    assert_eq!(names(&once), names(&twice));
}

#[test]
fn remove_returns_node() {
    let mut r = Registry::default();
    r.add_node(&node("alpha"));
    r.add_node(&node("beta"));
    let removed = r.remove_node("alpha").unwrap();
    assert_eq!(removed.name, "alpha");
    assert!(r.get("alpha").is_none());
    assert_eq!(names(&r), vec!["beta".to_string()]);
}

#[test]
fn remove_absent_changes_nothing() {
    let mut r = Registry::default();
    r.add_node(&node("alpha"));
    assert!(r.remove_node("zeta").is_none());
    assert_eq!(names(&r), vec!["alpha".to_string()]);
}

#[test]
fn add_then_remove_restores() {
    let mut r = Registry::default();
    r.add_node(&node("a"));
    r.add_node(&node("b"));
    let before = names(&r);
    r.add_node(&node("c"));
    r.remove_node("c");
    assert_eq!(names(&r), before);
}

#[test]
fn list_joins_names() {
    let mut r = Registry::default();
    r.add_node(&node("a"));
    assert_eq!(r.list(), "a");
    r.add_node(&node("bb"));
    r.add_node(&node("c"));
    assert_eq!(r.list(), "a bb c");
}

#[test]
fn from_entries_later_wins() {
    let r = Registry::from_entries(vec![
        ("x".to_string(), node("one")),
        ("y".to_string(), node("two")),
        ("x".to_string(), node("three")),
    ]);
    assert_eq!(names(&r), vec!["x".to_string(), "y".to_string()]);
    assert_eq!(r.get("x").unwrap().name, "three");
}

#[test]
fn insert_replaces() {
    let mut r = Registry::default();
    r.insert("k".to_string(), node("one"));
    r.insert("k".to_string(), node("two"));
    assert_eq!(r.len(), 1);
    assert_eq!(r.get("k").unwrap().name, "two");
}

#[test]
fn enable_all_plan() {
    let mut r = Registry::default();
    r.add_node(&node("a"));
    r.add_node(&node("b"));
    let steps = r.enable_all_service(Profile::Debug);
    assert_eq!(steps.len(), 8);
    match &steps[0] {
        Step::Write(w) => assert_eq!(w.path, "selendra.a.service"),
        s => panic!("unexpected step {:?}", s),
    }
    match &steps[4] {
        Step::Write(w) => assert_eq!(w.path, "selendra.b.service"),
        s => panic!("unexpected step {:?}", s),
    }
    match &steps[7] {
        Step::Run(i) => assert_eq!(i.args[1], "enable"),
        s => panic!("unexpected step {:?}", s),
    }
}

#[test]
fn disable_all_plan() {
    let mut r = Registry::default();
    r.add_node(&node("a"));
    let steps = r.disable_all_service(Profile::Release);
    assert_eq!(steps.len(), 4);
    match &steps[0] {
        Step::Write(w) => assert_eq!(w.path, "/etc/systemd/system/selendra.a.service"),
        s => panic!("unexpected step {:?}", s),
    }
    match &steps[2] {
        Step::Run(i) => assert_eq!(i.args[1], "disable"),
        s => panic!("unexpected step {:?}", s),
    }
    assert!(Registry::default().disable_all_service(Profile::Debug).is_empty());
}

#[test]
fn plan_uses_stored_node_not_key() {
    let r = Registry::from_entries(vec![("key".to_string(), node("inner"))]);
    let steps = r.enable_all_service(Profile::Debug);
    match &steps[0] {
        Step::Write(w) => assert_eq!(w.path, "selendra.inner.service"),
        s => panic!("unexpected step {:?}", s),
    }
}

#[test]
fn rebuild_from_own_entries() {
    let mut r = Registry::default();
    r.add_node(&node("c"));
    r.add_node(&node("a"));
    r.add_node(&node("b"));
    let again = Registry::from_entries(r.entries().clone());
    assert_eq!(names(&again), names(&r));
    assert_eq!(again.get("a").unwrap().path, "/data/a");
}

#[test]
fn remove_keeps_other_lookups() {
    let mut r = Registry::default();
    r.add_node(&node("a"));
    r.add_node(&node("b"));
    r.add_node(&node("c"));
    r.remove_node("b");
    assert_eq!(r.get("a").unwrap().name, "a");
    assert_eq!(r.get("c").unwrap().name, "c");
    assert!(r.get("b").is_none());
    assert_eq!(r.list(), "a c");
}
