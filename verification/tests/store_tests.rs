use store_probe::batch::Batch;
use store_probe::generator::generate;
use store_probe::protocol::{
    batch_form, check_sweep, check_ttl, script_form, sweep, Command, Form,
};
use store_probe::store::MemoryStore;
use store_probe::verdict::{check_default, check_dense, check_optional};

#[test]
fn binary_key_and_value_round_trip() {
    let mut store = MemoryStore::new();
    let k: Vec<u8> = vec![0, 255, 0, 10];
    let v: Vec<u8> = vec![1, 0, 0];
    store.set(&k, &v);
    assert_eq!(store.get(&k), Some(v));
}

#[test]
fn empty_value_is_stored_not_absent() {
    let mut store = MemoryStore::new();
    let k = b"key".to_vec();
    assert_eq!(store.get(&k), None);
    store.set(&k, &vec![]);
    assert_eq!(store.get(&k), Some(vec![]));
}

#[test]
fn empty_key_round_trips() {
    let mut store = MemoryStore::new();
    store.set(&vec![], &vec![7]);
    assert_eq!(store.get(&vec![]), Some(vec![7]));
}

#[test]
fn set_overwrites() {
    let mut store = MemoryStore::new();
    store.set(&vec![0], &vec![1]);
    assert_eq!(store.get(&vec![0]), Some(vec![1]));
    store.set(&vec![0], &vec![2]);
    assert_eq!(store.get(&vec![0]), Some(vec![2]));
}

#[test]
fn set_clears_the_expiry() {
    let mut store = MemoryStore::new();
    store.set(&vec![0], &vec![1]);
    assert!(store.expire(&vec![0], 9));
    assert_eq!(store.ttl(&vec![0]), 9);
    store.set(&vec![0], &vec![2]);
    assert_eq!(store.ttl(&vec![0]), -1);
}

#[test]
fn conditional_set_does_not_overwrite() {
    let mut store = MemoryStore::new();
    let (k, v1, v2) = (vec![0u8], vec![1u8], vec![2u8]);
    store.set(&k, &v1);
    assert_eq!(store.get(&k), Some(v1.clone()));
    assert!(!store.set_if_not_exists(&k, &v2));
    assert_eq!(store.get(&k), Some(v1));
}

#[test]
fn conditional_set_stores_on_a_free_key() {
    let mut store = MemoryStore::new();
    assert!(store.set_if_not_exists(&vec![0], &vec![2]));
    assert_eq!(store.get(&vec![0]), Some(vec![2]));
    assert_eq!(store.ttl(&vec![0]), -1);
}

#[test]
fn ttl_sentinels() {
    let mut store = MemoryStore::new();
    assert_eq!(store.ttl(&vec![0]), -2);
    store.set(&vec![0], &vec![1]);
    assert_eq!(store.ttl(&vec![0]), -1);
}

#[test]
fn expire_on_a_missing_key_does_nothing() {
    let mut store = MemoryStore::new();
    assert!(!store.expire(&vec![0], 5));
    assert_eq!(store.get(&vec![0]), None);
    assert_eq!(store.ttl(&vec![0]), -2);
}

#[test]
fn expire_with_zero_seconds_removes_the_key() {
    let mut store = MemoryStore::new();
    store.set(&vec![0], &vec![1]);
    store.set(&vec![1], &vec![2]);
    store.set(&vec![2], &vec![3]);
    assert!(store.expire(&vec![1], 0));
    assert_eq!(store.get(&vec![1]), None);
    assert_eq!(store.get(&vec![0]), Some(vec![1]));
    assert_eq!(store.get(&vec![2]), Some(vec![3]));
}

#[test]
fn flush_all_forgets_everything() {
    let mut store = MemoryStore::new();
    store.set(&vec![0], &vec![1]);
    store.set(&vec![1], &vec![1]);
    store.flush_all();
    assert_eq!(store.get(&vec![0]), None);
    assert_eq!(store.get(&vec![1]), None);
}

#[test]
fn batch_form_sets_a_ttl_on_an_existing_value() {
    let mut store = MemoryStore::new();
    let (k, v1, v2) = (vec![0u8], vec![1u8], vec![2u8]);
    store.set(&k, &v1);
    assert_eq!(store.ttl(&k), -1);
    store.execute_all(&batch_form(&k, &v2, 20).unwrap());
    assert_eq!(store.get(&k), Some(v1.clone()));
    assert_eq!(store.ttl(&k), 20);
    assert!(store.ttl(&k) > 0);
    assert!(check_ttl(Form::Batch, &v1, store.ttl(&k)));
}

#[test]
fn script_form_leaves_a_non_empty_value_without_ttl() {
    let mut store = MemoryStore::new();
    let (k, v1) = (vec![0u8], vec![1u8]);
    store.set(&k, &v1);
    store.execute(&script_form(&k, 5).unwrap());
    assert_eq!(store.ttl(&k), -1);
    assert_eq!(store.get(&k), Some(v1.clone()));
    assert!(check_ttl(Form::Script, &v1, store.ttl(&k)));
}

#[test]
fn script_form_sets_a_ttl_on_an_empty_value() {
    let mut store = MemoryStore::new();
    let k = vec![0u8];
    store.set(&k, &vec![]);
    store.execute(&script_form(&k, 5).unwrap());
    assert_eq!(store.ttl(&k), 5);
    assert_eq!(store.get(&k), Some(vec![]));
    assert!(check_ttl(Form::Script, &vec![], store.ttl(&k)));
}

#[test]
fn script_form_on_a_missing_key_does_nothing() {
    let mut store = MemoryStore::new();
    store.expire_if_empty(&vec![0], 5);
    assert_eq!(store.get(&vec![0]), None);
    assert_eq!(store.ttl(&vec![0]), -2);
}

#[test]
fn execute_runs_each_kind_of_command() {
    let mut store = MemoryStore::new();
    store.execute(&Command::SetIfNotExists { key: vec![1], value: vec![] });
    assert_eq!(store.get(&vec![1]), Some(vec![]));
    store.execute(&Command::Expire { key: vec![1], seconds: 3 });
    assert_eq!(store.ttl(&vec![1]), 3);
    store.execute(&Command::ExpireIfEmpty { key: vec![1], seconds: 8 });
    assert_eq!(store.ttl(&vec![1]), 8);
}

#[test]
fn batched_get_reports_membership_in_order() {
    let mut store = MemoryStore::new();
    store.set(&b"a".to_vec(), &b"1".to_vec());
    store.set(&b"c".to_vec(), &vec![]);
    let query = vec![b"c".to_vec(), b"b".to_vec(), b"a".to_vec()];
    assert_eq!(store.batched_get(&query), vec![Some(vec![]), None, Some(b"1".to_vec())]);
    assert_eq!(store.batched_get_default(&query), vec![vec![], vec![], b"1".to_vec()]);
}

#[test]
fn dense_batch_comes_back_in_the_queried_order() {
    let mut store = MemoryStore::new();
    let mut batch = generate(1000, 0).unwrap();
    store.populate(&batch);
    let mut last = batch.fingerprint();
    for _ in 0..10 {
        last = batch.reorder(last).unwrap();
        let values = store.batched_get_default(&batch.query_keys());
        assert!(check_dense(&batch, &values));
    }
}

#[test]
fn mixed_batch_in_optional_mode() {
    let mut store = MemoryStore::new();
    let mut batch = generate(300, 300).unwrap();
    store.populate(&batch);
    let mut last = batch.fingerprint();
    for _ in 0..10 {
        last = batch.reorder(last).unwrap();
        let replies = store.batched_get(&batch.query_keys());
        assert!(check_optional(&batch, &replies));
    }
}

#[test]
fn mixed_batch_in_default_mode() {
    let mut store = MemoryStore::new();
    let mut batch = generate(300, 300).unwrap();
    store.populate(&batch);
    let mut last = batch.fingerprint();
    for _ in 0..10 {
        last = batch.reorder(last).unwrap();
        let values = store.batched_get_default(&batch.query_keys());
        assert!(check_default(&batch, &values));
    }
}

#[test]
fn populate_writes_only_the_existing_keys() {
    let mut store = MemoryStore::new();
    let batch = Batch::from_keys(&vec![b"e".to_vec()], &vec![b"n".to_vec()]).unwrap();
    store.populate(&batch);
    assert_eq!(store.get(&b"e".to_vec()), Some(b"e".to_vec()));
    assert_eq!(store.get(&b"n".to_vec()), None);
}

#[test]
fn stale_reply_fails_the_check_after_a_reorder() {
    let mut store = MemoryStore::new();
    let mut batch = generate(500, 0).unwrap();
    store.populate(&batch);
    let stale = store.batched_get_default(&batch.query_keys());
    let previous = batch.fingerprint();
    assert!(batch.reorder(previous).is_some());
    assert!(!check_dense(&batch, &stale));
}

#[test]
fn script_sweep_over_empty_values_sets_every_ttl() {
    let mut store = MemoryStore::new();
    let batch = generate(200, 0).unwrap();
    let empty: Vec<u8> = vec![];
    let mut results = Vec::new();
    for key in batch.query_keys() {
        store.set_if_not_exists(&key, &empty);
        store.execute(&script_form(&key, 20).unwrap());
    }
    for key in batch.query_keys() {
        results.push((store.get(&key).unwrap(), store.ttl(&key)));
    }
    assert!(results.iter().all(|(v, ttl)| v.is_empty() && *ttl == 20));
    assert!(check_sweep(Form::Script, &empty, &results));
}

#[test]
fn script_sweep_over_non_empty_values_sets_no_ttl() {
    let mut store = MemoryStore::new();
    let batch = generate(200, 0).unwrap();
    let v: Vec<u8> = vec![1];
    let mut results = Vec::new();
    for key in batch.query_keys() {
        store.set_if_not_exists(&key, &v);
        store.execute(&script_form(&key, 20).unwrap());
    }
    for key in batch.query_keys() {
        results.push((store.get(&key).unwrap(), store.ttl(&key)));
    }
    assert!(results.iter().all(|(value, ttl)| value == &v && *ttl == -1));
    assert!(check_sweep(Form::Script, &v, &results));
}

#[test]
fn batch_sweep_sets_every_ttl() {
    let mut store = MemoryStore::new();
    let batch = generate(200, 0).unwrap();
    let empty: Vec<u8> = vec![];
    let mut results = Vec::new();
    for key in batch.query_keys() {
        store.execute_all(&batch_form(&key, &empty, 20).unwrap());
    }
    for key in batch.query_keys() {
        results.push((store.get(&key).unwrap(), store.ttl(&key)));
    }
    assert!(check_sweep(Form::Batch, &empty, &results));
}

#[test]
fn sweep_in_one_round_trip_at_scale() {
    let batch = generate(1000, 0).unwrap();
    let keys = batch.query_keys();
    for (form, value, want_ttl) in
        [(Form::Batch, vec![], 20), (Form::Script, vec![], 20), (Form::Script, vec![1u8], -1)]
    {
        let mut store = MemoryStore::new();
        store.execute_all(&sweep(form, &keys, &value, 20).unwrap());
        let results: Vec<(Vec<u8>, i64)> =
            keys.iter().map(|k| (store.get(k).unwrap(), store.ttl(k))).collect();
        assert!(results.iter().all(|(v, ttl)| v == &value && *ttl == want_ttl));
        assert!(check_sweep(form, &value, &results));
    }
}
