//! Scopes of a store, up to the limit of its depth and beyond.

use std::sync::Arc;

use dcontext::registry::Registry;
use dcontext::store::{ContextStore, MAX_SCOPE_DEPTH};

fn empty() -> Registry<'static, (), (), ()> {
    Registry::empty()
}

#[test]
fn test_max_scope_depth_creates_dead_scopes() {
    let mut store: ContextStore<String> = ContextStore::new();
    let registry = empty();

    for i in 0..MAX_SCOPE_DEPTH {
        let depth = store.push_scope(&registry, Some(format!("scope_{}", i)));
        assert_eq!(depth, i + 2);
    }
    assert_eq!(store.depth(), MAX_SCOPE_DEPTH + 1);
    assert_eq!(store.parent_count(), MAX_SCOPE_DEPTH);

    let dead_depth_1 = store.push_scope(&registry, Some("dead_1".to_string()));
    assert_eq!(dead_depth_1, MAX_SCOPE_DEPTH + 2);
    let dead_depth_2 = store.push_scope(&registry, Some("dead_2".to_string()));
    assert_eq!(dead_depth_2, MAX_SCOPE_DEPTH + 3);
    assert_eq!(store.parent_count(), MAX_SCOPE_DEPTH);

    store.set_value("key", Arc::new("dead_val".to_string()));
    assert!(store.get_value("key").is_some());

    let garbage = store.pop_scope(dead_depth_2);
    assert!(garbage.is_none());
    assert_eq!(store.depth(), MAX_SCOPE_DEPTH + 2);
    let garbage = store.pop_scope(dead_depth_1);
    assert!(garbage.is_none());
    assert_eq!(store.depth(), MAX_SCOPE_DEPTH + 1);

    let real_depth = store.depth();
    let garbage = store.pop_scope(real_depth);
    assert!(garbage.is_some());
    assert_eq!(store.depth(), MAX_SCOPE_DEPTH);
}

#[test]
fn test_max_scope_depth_values_survive_dead_pop() {
    let mut store: ContextStore<u64> = ContextStore::new();
    let registry = empty();
    store.push_scope(&registry, None);
    store.set_value("persistent", Arc::new(42u64));

    for _ in 0..MAX_SCOPE_DEPTH + 5 {
        store.push_scope(&registry, None);
    }
    let val = store.get_value("persistent");
    assert!(val.is_some());

    for _ in 0..5 {
        let d = store.depth();
        store.pop_scope(d);
    }
    assert!(store.get_value("persistent").is_some());
}

#[test]
fn test_max_scope_depth_full_roundtrip() {
    let mut store: ContextStore<u64> = ContextStore::new();
    let mut depths = Vec::new();
    let registry = empty();

    let total = MAX_SCOPE_DEPTH + 10;
    for _ in 0..total {
        let d = store.push_scope(&registry, None);
        depths.push(d);
    }
    assert_eq!(store.depth(), total + 1);

    for &d in depths.iter().rev() {
        store.pop_scope(d);
    }
    assert_eq!(store.depth(), 1);
    assert_eq!(store.parent_count(), 0);
}

#[test]
fn leaving_an_outer_scope_leaves_the_inner_ones_too() {
    let mut store: ContextStore<u64> = ContextStore::new();
    let registry = empty();
    store.set_value("k", Arc::new(1));
    let outer = store.push_scope(&registry, Some("outer".to_string()));
    store.set_value("k", Arc::new(2));
    let inner = store.push_scope(&registry, Some("inner".to_string()));
    store.set_value("k", Arc::new(3));

    assert!(store.pop_scope(outer).is_some());
    assert_eq!(store.depth(), 1);
    assert_eq!(store.get_value("k"), Some(Arc::new(1)));
    assert!(store.scope_chain(0).is_empty());

    // A guard that comes late does nothing.
    assert!(store.pop_scope(inner).is_none());
    assert_eq!(store.depth(), 1);
    assert_eq!(store.get_value("k"), Some(Arc::new(1)));
}

#[test]
fn long_chains_keep_their_ends() {
    let mut store: ContextStore<u64> = ContextStore::new();
    let registry = empty();
    for name in ["a", "b", "c", "d", "e", "f"] {
        store.push_scope(&registry, Some(name.to_string()));
    }
    assert_eq!(store.scope_chain(0), vec!["a", "b", "c", "d", "e", "f"]);
    assert_eq!(store.scope_chain(6), vec!["a", "b", "c", "d", "e", "f"]);
    assert!(store.scope_chain(4).len() <= 4);
    assert_eq!(store.scope_chain(4).last().map(String::as_str), Some("f"));
}

#[test]
fn barrier_hides_what_lies_outside() {
    let mut store: ContextStore<u64> = ContextStore::new();
    let registry = empty();
    store.set_value("outside", Arc::new(1));
    let depth = store.push_scope(&registry, None);
    store.set_scope_barrier();
    store.set_value("inside", Arc::new(2));
    assert!(store.get_value("outside").is_none());
    assert_eq!(store.get_value("inside"), Some(Arc::new(2)));
    store.pop_scope(depth);
    assert_eq!(store.get_value("outside"), Some(Arc::new(1)));
    assert!(store.get_value("inside").is_none());
}

#[test]
fn fork_reads_through_and_writes_apart() {
    let mut store: ContextStore<u64> = ContextStore::new();
    let registry = empty();
    store.set_value("k", Arc::new(1));
    store.push_scope(&registry, Some("parent".to_string()));
    store.set_value("l", Arc::new(2));

    let mut child = store.fork_child();
    assert_eq!(child.depth(), 1);
    assert_eq!(child.get_value("k"), Some(Arc::new(1)));
    assert_eq!(child.get_value("l"), Some(Arc::new(2)));
    assert_eq!(child.scope_chain(0), vec!["parent"]);
    child.set_value("k", Arc::new(9));
    assert_eq!(child.get_value("k"), Some(Arc::new(9)));
    assert_eq!(store.get_value("k"), Some(Arc::new(1)));
}

#[test]
fn fork_of_a_fork_reads_through_both() {
    let mut store: ContextStore<u64> = ContextStore::new();
    let registry = empty();
    store.set_value("k", Arc::new(1));
    store.push_scope(&registry, Some("first".to_string()));
    let mut child = store.fork_child();
    child.push_scope(&registry, Some("second".to_string()));
    child.set_value("l", Arc::new(2));
    let mut grandchild = child.fork_child();
    grandchild.push_scope(&registry, Some("third".to_string()));

    assert_eq!(grandchild.get_value("k"), Some(Arc::new(1)));
    assert_eq!(grandchild.get_value("l"), Some(Arc::new(2)));
    assert_eq!(grandchild.scope_chain(0), vec!["first", "second", "third"]);
    let all = grandchild.collect_values();
    assert_eq!(all.len(), 2);
    assert_eq!(all.get("k"), Some(&Arc::new(1)));
    child.set_value("k", Arc::new(3));
    assert_eq!(grandchild.get_value("k"), Some(Arc::new(1)));
    assert_eq!(grandchild.fork_child().fork_child().get_value("k"), Some(Arc::new(1)));
}

#[test]
fn fork_shows_nothing_that_is_hidden() {
    let mut outer: ContextStore<u64> = ContextStore::new();
    let registry = empty();
    outer.set_value("far", Arc::new(1));
    outer.push_scope(&registry, Some("far".to_string()));
    let mut store = outer.fork_child();
    store.set_value("outside", Arc::new(2));
    store.push_scope(&registry, Some("outside".to_string()));
    store.push_scope(&registry, Some("inside".to_string()));
    store.set_scope_barrier();
    store.set_value("inside", Arc::new(3));

    let child = store.fork_child();
    assert!(child.get_value("far").is_none());
    assert!(child.get_value("outside").is_none());
    assert_eq!(child.get_value("inside"), Some(Arc::new(3)));
    assert_eq!(child.collect_values().len(), 1);
    assert_eq!(store.scope_chain(0), vec!["inside"]);
    assert_eq!(child.scope_chain(0), vec!["inside"]);
}

#[test]
fn fork_lists_the_names_that_were_listed() {
    let mut store: ContextStore<u64> = ContextStore::new();
    let registry = empty();
    store.push_scope(&registry, Some("replaced".to_string()));
    store.set_value("k", Arc::new(1));
    store.set_remote_chain(vec!["far".to_string()]);
    assert_eq!(store.scope_chain(0), vec!["far"]);

    let mut child = store.fork_child();
    assert_eq!(child.depth(), 1);
    assert_eq!(child.get_value("k"), Some(Arc::new(1)));
    assert_eq!(child.scope_chain(0), vec!["far"]);
    child.push_scope(&registry, Some("own".to_string()));
    assert_eq!(child.scope_chain(0), vec!["far", "own"]);

    store.push_scope(&registry, Some("near".to_string()));
    assert_eq!(store.scope_chain(0), vec!["far", "near"]);
    assert_eq!(store.fork_child().scope_chain(0), vec!["far", "near"]);
}

#[test]
fn fork_of_a_store_beyond_the_limit_reads_the_same() {
    let mut store: ContextStore<u64> = ContextStore::new();
    let registry = empty();
    store.set_value("k", Arc::new(1));
    for _ in 0..MAX_SCOPE_DEPTH + 3 {
        store.push_scope(&registry, None);
    }
    store.set_value("l", Arc::new(2));
    let child = store.fork_child();
    assert_eq!(child.get_value("k"), Some(Arc::new(1)));
    assert_eq!(child.get_value("l"), Some(Arc::new(2)));
    store.set_scope_barrier();
    let child = store.fork_child();
    assert_eq!(store.get_value("k"), None);
    assert_eq!(child.get_value("k"), None);
    assert_eq!(child.get_value("l"), Some(Arc::new(2)));
}

#[test]
fn remote_names_come_first() {
    let mut store: ContextStore<u64> = ContextStore::new();
    let registry = empty();
    store.set_remote_chain(vec!["far".to_string(), "away".to_string()]);
    store.push_scope(&registry, Some("here".to_string()));
    assert_eq!(store.scope_chain(0), vec!["far", "away", "here"]);
}

#[test]
fn collected_values_are_the_visible_ones() {
    let mut store: ContextStore<u64> = ContextStore::new();
    let registry = empty();
    store.set_value("a", Arc::new(1));
    store.set_value("b", Arc::new(2));
    store.push_scope(&registry, None);
    store.set_value("b", Arc::new(3));
    let all = store.collect_values();
    assert_eq!(all.len(), 2);
    assert_eq!(all.get("a"), Some(&Arc::new(1)));
    assert_eq!(all.get("b"), Some(&Arc::new(3)));
}

#[test]
fn leaving_a_shared_scope_keeps_the_other_handle() {
    let mut store: ContextStore<u64> = ContextStore::new();
    let registry = empty();
    store.set_value("k", Arc::new(1));
    let depth = store.push_scope(&registry, Some("inner".to_string()));
    store.set_value("k", Arc::new(2));

    // The fork shares the scopes around the one that is left.
    let child = store.fork_child();
    let garbage = store.pop_scope(depth).unwrap();
    assert_eq!(garbage.old_values.get("k"), Some(&Arc::new(2)));
    assert_eq!(store.get_value("k"), Some(Arc::new(1)));
    assert_eq!(store.depth(), 1);
    assert_eq!(child.get_value("k"), Some(Arc::new(2)));
    assert_eq!(child.scope_chain(0), vec!["inner"]);

    let copy = store.duplicate();
    store.set_value("k", Arc::new(7));
    assert_eq!(copy.get_value("k"), Some(Arc::new(1)));
}
