use recovery_state::keys::{std_ordering, FlowKey, SnapshotEpoch, StateKey, StepId, StoreKey};
use recovery_state::order::{compare_bytes, compare_text, compare_u64, KeyOrder};
use std::cmp::Ordering;
use std::collections::hash_map::DefaultHasher;
use std::hash::{Hash, Hasher};

fn store_key(epoch: u64, step: &str, key: &str) -> StoreKey {
    StoreKey(
        SnapshotEpoch(epoch),
        FlowKey(StepId(step.to_string()), StateKey(key.to_string())),
    )
}

fn hash_of<T: Hash>(value: &T) -> u64 {
    let mut hasher = DefaultHasher::new();
    value.hash(&mut hasher);
    hasher.finish()
}

fn samples() -> Vec<StoreKey> {
    let mut out = Vec::new();
    for epoch in [0u64, 1, 2, u64::MAX] {
        for step in ["", "a", "ab", "b", "\u{e9}", "z"] {
            for key in ["", "k", "k1", "k10", "k2", "\u{1f600}"] {
                out.push(store_key(epoch, step, key));
            }
        }
    }
    out
}

#[test]
fn compare_bytes_is_lexicographic() {
    assert_eq!(compare_bytes(&[], &[]), KeyOrder::Equal);
    assert_eq!(compare_bytes(&[], &[0]), KeyOrder::Less);
    assert_eq!(compare_bytes(&[0], &[]), KeyOrder::Greater);
    assert_eq!(compare_bytes(&[1, 2, 3], &[1, 2, 3]), KeyOrder::Equal);
    assert_eq!(compare_bytes(&[1, 2], &[1, 2, 0]), KeyOrder::Less);
    assert_eq!(compare_bytes(&[1, 3], &[1, 2, 9]), KeyOrder::Greater);
    assert_eq!(compare_bytes(&[0, 255], &[1, 0]), KeyOrder::Less);
    assert_eq!(compare_bytes(&[200], &[100, 100]), KeyOrder::Greater);
}

#[test]
fn compare_u64_orders_numbers() {
    assert_eq!(compare_u64(0, 0), KeyOrder::Equal);
    assert_eq!(compare_u64(0, 1), KeyOrder::Less);
    assert_eq!(compare_u64(u64::MAX, 1), KeyOrder::Greater);
    assert_eq!(compare_u64(u64::MAX, u64::MAX), KeyOrder::Equal);
}

#[test]
fn compare_text_orders_as_strings_do() {
    let texts = ["", "a", "A", "ab", "b", "k1", "k10", "k2", "\u{e9}", "z", "\u{1f600}", "\u{ffff}"];
    for a in texts {
        for b in texts {
            assert_eq!(std_ordering(compare_text(a, b)), a.cmp(b), "{a:?} against {b:?}");
        }
    }
    assert_eq!(compare_text("k10", "k2"), KeyOrder::Less);
    assert_eq!(compare_text("z", "\u{e9}"), KeyOrder::Less);
    assert_eq!(compare_text("ab", "a"), KeyOrder::Greater);
}

#[test]
fn and_then_takes_the_first_difference() {
    let all = [KeyOrder::Less, KeyOrder::Equal, KeyOrder::Greater];
    for rest in all {
        assert_eq!(KeyOrder::Less.and_then(rest), KeyOrder::Less);
        assert_eq!(KeyOrder::Greater.and_then(rest), KeyOrder::Greater);
        assert_eq!(KeyOrder::Equal.and_then(rest), rest);
    }
}

#[test]
fn std_ordering_keeps_the_meaning() {
    assert_eq!(std_ordering(KeyOrder::Less), Ordering::Less);
    assert_eq!(std_ordering(KeyOrder::Equal), Ordering::Equal);
    assert_eq!(std_ordering(KeyOrder::Greater), Ordering::Greater);
}

#[test]
fn store_key_order_is_lexicographic_over_epoch_step_key() {
    for a in samples() {
        for b in samples() {
            let tuple_a = (a.0 .0, a.1 .0 .0.clone(), a.1 .1 .0.clone());
            let tuple_b = (b.0 .0, b.1 .0 .0.clone(), b.1 .1 .0.clone());
            let expected = tuple_a.cmp(&tuple_b);
            assert_eq!(std_ordering(a.compare(&b)), expected);
            assert_eq!(a.partial_cmp(&b), Some(expected));
            assert_eq!(a.cmp(&b), expected);
            assert_eq!(a == b, tuple_a == tuple_b);
            assert_eq!(a == b, expected == Ordering::Equal);
            assert_eq!(a < b, expected == Ordering::Less);
            assert_eq!(a >= b, expected != Ordering::Less);
        }
    }
}

#[test]
fn store_key_epoch_decides_before_the_flow_key() {
    assert_eq!(store_key(1, "z", "z").compare(&store_key(2, "a", "a")), KeyOrder::Less);
    assert_eq!(store_key(2, "a", "z").compare(&store_key(2, "b", "a")), KeyOrder::Less);
    assert_eq!(store_key(2, "a", "b").compare(&store_key(2, "a", "a")), KeyOrder::Greater);
    assert_eq!(store_key(3, "a", "a").compare(&store_key(3, "a", "a")), KeyOrder::Equal);
    assert!(store_key(0, "b", "") > store_key(0, "a", "zzz"));
}

#[test]
fn store_keys_sort_by_epoch_then_step_then_key() {
    let mut keys = vec![
        store_key(2, "a", "k"),
        store_key(1, "b", "k"),
        store_key(1, "a", "k2"),
        store_key(1, "a", "k1"),
        store_key(0, "z", "z"),
    ];
    keys.sort();
    let flat: Vec<(u64, String, String)> =
        keys.into_iter().map(|k| (k.0 .0, k.1 .0 .0, k.1 .1 .0)).collect();
    assert_eq!(
        flat,
        vec![
            (0, "z".to_string(), "z".to_string()),
            (1, "a".to_string(), "k1".to_string()),
            (1, "a".to_string(), "k2".to_string()),
            (1, "b".to_string(), "k".to_string()),
            (2, "a".to_string(), "k".to_string()),
        ]
    );
}

#[test]
fn store_key_order_is_a_total_order() {
    let keys = samples();
    for a in &keys {
        assert_eq!(a.compare(a), KeyOrder::Equal);
        for b in &keys {
            let ab = a.compare(b);
            let ba = b.compare(a);
            let reversed = match ab {
                KeyOrder::Less => KeyOrder::Greater,
                KeyOrder::Equal => KeyOrder::Equal,
                KeyOrder::Greater => KeyOrder::Less,
            };
            assert_eq!(ba, reversed);
        }
    }
    let few: Vec<StoreKey> = keys.into_iter().step_by(7).collect();
    for a in &few {
        for b in &few {
            for c in &few {
                if a.compare(b) == KeyOrder::Less && b.compare(c) == KeyOrder::Less {
                    assert_eq!(a.compare(c), KeyOrder::Less);
                }
            }
        }
    }
}

#[test]
fn equal_keys_hash_alike() {
    let a = store_key(4, "step", "key");
    let b = store_key(4, "step", "key");
    assert_eq!(a, b);
    assert_eq!(hash_of(&a), hash_of(&b));
    assert_eq!(hash_of(&a.1), hash_of(&b.1));
    assert_ne!(a, store_key(5, "step", "key"));
    assert_ne!(a, store_key(4, "step2", "key"));
    assert_ne!(a, store_key(4, "step", "key2"));
}

#[test]
fn flow_key_compares_step_then_key() {
    let fk = |s: &str, k: &str| FlowKey(StepId(s.to_string()), StateKey(k.to_string()));
    assert_eq!(fk("a", "z").compare(&fk("b", "a")), KeyOrder::Less);
    assert_eq!(fk("a", "a").compare(&fk("a", "b")), KeyOrder::Less);
    assert_eq!(fk("b", "a").compare(&fk("a", "b")), KeyOrder::Greater);
    assert_eq!(fk("a", "a").compare(&fk("a", "a")), KeyOrder::Equal);
    assert_eq!(fk("a", "a"), fk("a", "a"));
    assert_ne!(fk("a", "b"), fk("b", "a"));
    assert!(fk("a", "b") < fk("b", "a"));
    assert_eq!(fk("ab", "c").cmp(&fk("a", "bc")), Ordering::Greater);
}

#[test]
fn step_ids_and_state_keys_compare_as_text() {
    let a = StepId("alpha".to_string());
    let b = StepId("beta".to_string());
    assert_eq!(a.compare(&b), KeyOrder::Less);
    assert!(a < b);
    assert_eq!(a.cmp(&b), Ordering::Less);
    assert_eq!(a, a.clone());
    assert_ne!(a, b);
    let k1 = StateKey("10".to_string());
    let k2 = StateKey("9".to_string());
    assert_eq!(k1.compare(&k2), KeyOrder::Less);
    assert!(k1 < k2);
    assert_eq!(k2.partial_cmp(&k1), Some(Ordering::Greater));
    assert_eq!(k1.clone(), k1);
    let mut keys = vec![k2.clone(), k1.clone(), StateKey("".to_string())];
    keys.sort();
    assert_eq!(keys, vec![StateKey("".to_string()), k1, k2]);
}

#[test]
fn epochs_compare_as_numbers() {
    assert_eq!(SnapshotEpoch(0).compare(&SnapshotEpoch(0)), KeyOrder::Equal);
    assert_eq!(SnapshotEpoch(9).compare(&SnapshotEpoch(10)), KeyOrder::Less);
    assert_eq!(SnapshotEpoch(u64::MAX).compare(&SnapshotEpoch(0)), KeyOrder::Greater);
    assert!(SnapshotEpoch(1) < SnapshotEpoch(2));
    assert_eq!(SnapshotEpoch(3), SnapshotEpoch(3));
    assert_eq!(SnapshotEpoch(3).cmp(&SnapshotEpoch(2)), Ordering::Greater);
    let epoch = SnapshotEpoch(5);
    let copy = epoch;
    assert_eq!(epoch, copy);
}

#[test]
fn store_key_clone_is_equal() {
    let a = store_key(7, "s", "k");
    let b = a.clone();
    assert_eq!(a, b);
    assert_eq!(a.compare(&b), KeyOrder::Equal);
}
