use std::collections::HashMap;

use reovim::factory::{ChangeType, Factory};

#[test]
fn insert_get_remove() {
    let mut f: Factory<&str> = Factory::new();
    assert!(f.is_empty());
    f.insert(1, "one");
    f.insert(2, "two");
    assert_eq!(f.len(), 2);
    assert_eq!(f.get(1), Some(&"one"));
    if let Some(v) = f.get_mut(2) {
        *v = "deux";
    }
    assert_eq!(f.get(2), Some(&"deux"));
    assert_eq!(f.remove(1), Some("one"));
    assert_eq!(f.remove(1), None);
    assert_eq!(f.len(), 1);
    f.insert(1, "again");
    f.flush();
    assert_eq!(f.get(1), Some(&"again"));
    f.clear();
    assert!(f.is_empty());
}

#[test]
fn hashmap_round_trip() {
    let mut f: Factory<u8> = Factory::from_hashmap(HashMap::from([(1, 10u8), (2, 20)]));
    assert_eq!(f.len(), 2);
    assert_eq!(f.get(1), Some(&10));
    assert_eq!(f.get(2), Some(&20));
    assert!(f.render_changes().is_empty());
    f.flush();
    let mut changes = f.render_changes();
    changes.sort_by_key(|(k, _)| *k);
    assert_eq!(changes, vec![(1, ChangeType::Add), (2, ChangeType::Add)]);
    let mut g: Factory<u8> = Factory::new();
    g.insert(3, 30);
    let m = g.into_hashmap();
    assert_eq!(m, HashMap::from([(3, 30u8)]));
}

#[test]
fn flushed_changes_reach_the_view_once() {
    let mut f: Factory<char> = Factory::new();
    f.insert(1, 'a');
    f.insert(2, 'b');
    f.remove(2);
    f.flush();
    let mut changes = f.render_changes();
    changes.sort_by_key(|(k, _)| *k);
    assert_eq!(changes, vec![(1, ChangeType::Add), (2, ChangeType::Remove)]);
    assert!(f.render_changes().is_empty());
    if let Some(c) = f.get_mut(1) {
        *c = 'z';
    }
    f.insert(2, 'c');
    f.flush();
    let mut changes = f.render_changes();
    changes.sort_by_key(|(k, _)| *k);
    assert_eq!(changes, vec![(1, ChangeType::Update), (2, ChangeType::Add)]);
}

#[test]
fn reinserted_component_is_recreated() {
    let mut f: Factory<u8> = Factory::new();
    f.insert(4, 1);
    f.flush();
    f.render_changes();
    f.remove(4);
    f.insert(4, 2);
    f.flush();
    assert_eq!(f.render_changes(), vec![(4, ChangeType::Recreate)]);
    assert_eq!(f.get(4), Some(&2));
}
