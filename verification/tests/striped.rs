use std::collections::HashMap;

use conc_map_bench::{
    bucket_count, bucket_get, bucket_index, bucket_insert, bucket_remove, bucket_update,
    StripedMapTable,
};

#[test]
fn bucket_count_is_next_power_of_two_of_four_per_cpu() {
    assert_eq!(bucket_count(0), Some(1));
    assert_eq!(bucket_count(1), Some(4));
    assert_eq!(bucket_count(2), Some(8));
    assert_eq!(bucket_count(3), Some(16));
    assert_eq!(bucket_count(5), Some(32));
    assert_eq!(bucket_count(16), Some(64));
    assert_eq!(bucket_count(usize::MAX / 8 + 1), Some(usize::MAX / 2 + 1));
}

#[test]
fn bucket_count_that_does_not_fit_is_refused() {
    assert_eq!(bucket_count(usize::MAX / 8 + 2), None);
    assert_eq!(bucket_count(usize::MAX), None);
}

#[test]
fn bucket_index_is_key_modulo_buckets() {
    assert_eq!(bucket_index(0, 4), 0);
    assert_eq!(bucket_index(13, 4), 1);
    assert_eq!(bucket_index(13, 5), 3);
    // The key is cut to a usize before the modulo.
    let key: u128 = (1u128 << 64) + 6;
    assert_eq!(bucket_index(key, 5), ((key as usize) % 5));
}

#[test]
fn bucket_operations_follow_map_semantics() {
    let mut b: HashMap<u128, u128> = HashMap::new();
    assert!(!bucket_get(&b, 3));
    assert!(bucket_insert(&mut b, 3));
    assert!(bucket_get(&b, 3));
    assert!(bucket_update(&mut b, 3));
    assert_eq!(b.get(&3), Some(&1));
    assert!(!bucket_insert(&mut b, 3));
    assert_eq!(b.get(&3), Some(&0));
    assert!(bucket_remove(&mut b, 3));
    assert!(!bucket_remove(&mut b, 3));
    assert!(!bucket_update(&mut b, 3));
    assert!(b.is_empty());
}

#[test]
fn table_insert_get_update_remove() {
    let mut t = StripedMapTable::with_buckets(4, 1024);
    assert_eq!(t.bucket_len(), 4);
    assert!(!t.get(10));
    assert!(t.insert(10));
    assert!(t.get(10));
    assert!(!t.insert(10));
    assert!(t.update(10));
    assert!(!t.update(11));
    assert!(!t.get(11));
    assert!(t.remove(10));
    assert!(!t.get(10));
    assert!(!t.remove(10));
}

#[test]
fn table_keeps_keys_apart() {
    let mut t = StripedMapTable::with_buckets(8, 0);
    for k in 0..100u128 {
        assert!(t.insert(k));
    }
    for k in (0..100u128).step_by(2) {
        assert!(t.remove(k));
    }
    for k in 0..100u128 {
        assert_eq!(t.get(k), k % 2 == 1);
    }
}

#[test]
fn buckets_hold_keys_at_their_index() {
    let mut t = StripedMapTable::with_buckets(4, 16);
    for k in [1u128, 2, 7, 8, 1000] {
        t.insert(k);
    }
    t.update(7);
    let buckets = t.into_buckets();
    assert_eq!(buckets.len(), 4);
    for (i, b) in buckets.iter().enumerate() {
        for k in b.keys() {
            assert_eq!(bucket_index(*k, 4), i);
        }
    }
    assert_eq!(buckets[3].get(&7), Some(&1));
    assert_eq!(buckets[0].get(&1000), Some(&0));
    let total: usize = buckets.iter().map(|b| b.len()).sum();
    assert_eq!(total, 5);
}

#[test]
fn table_for_cpus_has_a_power_of_two_of_buckets() {
    let t = StripedMapTable::with_capacity_for_cpus(3, 1 << 10).unwrap();
    assert_eq!(t.bucket_len(), 16);
    assert!(StripedMapTable::with_capacity_for_cpus(usize::MAX, 0).is_none());
    let t = StripedMapTable::with_capacity(1 << 10).unwrap();
    let n = t.bucket_len();
    assert!(n >= 4 && n.is_power_of_two());
    assert!(!t.get(0));
}

#[test]
fn table_follows_a_single_map_over_a_run_of_operations() {
    let mut t = StripedMapTable::with_buckets(4, 0);
    let mut model: HashMap<u128, u128> = HashMap::new();
    let keys = [3u128, 7, 11, 3, 1 << 70, 15, 7, 0, 4];
    for (step, k) in keys.iter().cycle().take(60).enumerate() {
        match step % 4 {
            0 => assert_eq!(t.insert(*k), model.insert(*k, 0).is_none()),
            1 => {
                let expected = model.get_mut(k).map(|v| *v += 1).is_some();
                assert_eq!(t.update(*k), expected);
            }
            2 => assert_eq!(t.get(*k), model.contains_key(k)),
            _ => {
                if step % 8 == 3 {
                    assert_eq!(t.remove(*k), model.remove(k).is_some());
                }
            }
        }
    }
    assert_eq!(t.bucket_len(), 4);
    let buckets = t.into_buckets();
    let mut total = 0;
    for (i, b) in buckets.iter().enumerate() {
        for (k, v) in b.iter() {
            assert_eq!(bucket_index(*k, 4), i);
            assert_eq!(model.get(k), Some(v));
            total += 1;
        }
    }
    assert_eq!(total, model.len());
}
