use store_probe::batch::Batch;
use store_probe::generator::{generate, KEY_BYTES};
use store_probe::key::{copy_bytes, same_bytes, Membership, TaggedKey};
use store_probe::oracle::fingerprint;

fn keys(raw: &[&[u8]]) -> Vec<Vec<u8>> {
    raw.iter().map(|k| k.to_vec()).collect()
}

fn sorted_content(batch: &Batch) -> Vec<(Vec<u8>, bool)> {
    let mut out: Vec<(Vec<u8>, bool)> = (0..batch.len())
        .map(|i| {
            let k = batch.get(i);
            (k.bytes().clone(), k.class() == Membership::Exists)
        })
        .collect();
    out.sort();
    out
}

#[test]
fn same_bytes_compares_content() {
    assert!(same_bytes(&vec![], &vec![]));
    assert!(same_bytes(&vec![0, 1, 255], &vec![0, 1, 255]));
    assert!(!same_bytes(&vec![0], &vec![]));
    assert!(!same_bytes(&vec![0, 1], &vec![0, 2]));
}

#[test]
fn copy_bytes_keeps_zero_bytes() {
    assert_eq!(copy_bytes(&vec![0, 0, 7, 0]), vec![0, 0, 7, 0]);
    assert_eq!(copy_bytes(&vec![]), Vec::<u8>::new());
}

#[test]
fn tagged_key_reports_what_it_was_given() {
    let k = TaggedKey::new(vec![0, 9], Membership::Absent);
    assert_eq!(k.bytes(), &vec![0, 9]);
    assert_eq!(k.class(), Membership::Absent);
}

#[test]
fn from_keys_puts_existing_before_absent() {
    let batch = Batch::from_keys(&keys(&[b"a", b"b"]), &keys(&[b"c"])).unwrap();
    assert_eq!(batch.len(), 3);
    assert_eq!(batch.get(0), &TaggedKey::new(b"a".to_vec(), Membership::Exists));
    assert_eq!(batch.get(1), &TaggedKey::new(b"b".to_vec(), Membership::Exists));
    assert_eq!(batch.get(2), &TaggedKey::new(b"c".to_vec(), Membership::Absent));
    assert_eq!(batch.query_keys(), keys(&[b"a", b"b", b"c"]));
}

#[test]
fn from_keys_accepts_the_empty_batch() {
    let batch = Batch::from_keys(&vec![], &vec![]).unwrap();
    assert_eq!(batch.len(), 0);
    assert_eq!(batch.query_keys(), Vec::<Vec<u8>>::new());
}

#[test]
fn from_keys_refuses_a_repeated_key() {
    assert!(Batch::from_keys(&keys(&[b"a", b"a"]), &vec![]).is_none());
    assert!(Batch::from_keys(&vec![], &keys(&[b"x", b"y", b"x"])).is_none());
}

#[test]
fn from_keys_refuses_a_key_in_both_classes() {
    assert!(Batch::from_keys(&keys(&[b"a", b"b"]), &keys(&[b"b"])).is_none());
}

#[test]
fn generate_gives_counts_classes_and_sixteen_bytes() {
    let batch = generate(5, 3).unwrap();
    assert_eq!(batch.len(), 8);
    for i in 0..8 {
        assert_eq!(batch.get(i).bytes().len(), KEY_BYTES);
        assert_eq!(batch.get(i).bytes().len(), 16);
        let want = if i < 5 { Membership::Exists } else { Membership::Absent };
        assert_eq!(batch.get(i).class(), want);
    }
}

#[test]
fn generate_gives_pairwise_distinct_keys() {
    let batch = generate(300, 300).unwrap();
    let mut seen = std::collections::HashSet::new();
    for i in 0..batch.len() {
        assert!(seen.insert(batch.get(i).bytes().clone()));
    }
    assert_eq!(seen.len(), 600);
}

#[test]
fn generate_of_nothing_is_empty() {
    assert_eq!(generate(0, 0).unwrap().len(), 0);
}

#[test]
fn fingerprint_is_repeatable() {
    let a = Batch::from_keys(&keys(&[b"a", b"b"]), &keys(&[b"c"])).unwrap();
    let b = Batch::from_keys(&keys(&[b"a", b"b"]), &keys(&[b"c"])).unwrap();
    assert_eq!(a.fingerprint(), a.fingerprint());
    assert_eq!(a.fingerprint(), b.fingerprint());
}

#[test]
fn fingerprint_depends_on_order() {
    let a = Batch::from_keys(&keys(&[b"a", b"b"]), &vec![]).unwrap();
    let b = Batch::from_keys(&keys(&[b"b", b"a"]), &vec![]).unwrap();
    assert_ne!(a.fingerprint(), b.fingerprint());
}

#[test]
fn fingerprint_depends_on_class() {
    let a = Batch::from_keys(&keys(&[b"a"]), &vec![]).unwrap();
    let b = Batch::from_keys(&vec![], &keys(&[b"a"])).unwrap();
    assert_ne!(a.fingerprint(), b.fingerprint());
}

#[test]
fn fingerprint_tells_key_boundaries_apart() {
    let a = Batch::from_keys(&keys(&[b"ab", b"c"]), &vec![]).unwrap();
    let b = Batch::from_keys(&keys(&[b"a", b"bc"]), &vec![]).unwrap();
    assert_ne!(a.fingerprint(), b.fingerprint());
}

#[test]
fn fingerprint_of_a_key_sequence_matches_the_batch() {
    let batch = Batch::from_keys(&keys(&[b"k1"]), &keys(&[b"k2"])).unwrap();
    let plain = vec![
        TaggedKey::new(b"k1".to_vec(), Membership::Exists),
        TaggedKey::new(b"k2".to_vec(), Membership::Absent),
    ];
    assert_eq!(fingerprint(&plain), batch.fingerprint());
}

#[test]
fn reorder_keeps_the_content() {
    let mut batch = generate(40, 40).unwrap();
    let before = sorted_content(&batch);
    let previous = batch.fingerprint();
    let _ = batch.reorder(previous);
    assert_eq!(batch.len(), 80);
    assert_eq!(sorted_content(&batch), before);
}

#[test]
fn reorder_changes_the_order_of_a_large_batch() {
    let mut batch = generate(1000, 0).unwrap();
    let before = batch.query_keys();
    let previous = batch.fingerprint();
    let token = batch.reorder(previous);
    assert!(token.is_some());
    assert_eq!(token, Some(batch.fingerprint()));
    assert_ne!(batch.query_keys(), before);
}

#[test]
fn reorder_reports_an_unchanged_fingerprint() {
    let mut batch = Batch::from_keys(&keys(&[b"only"]), &vec![]).unwrap();
    let previous = batch.fingerprint();
    assert_eq!(batch.reorder(previous), None);
    assert_eq!(batch.reorder(previous.wrapping_add(1)), Some(previous));
}

#[test]
fn a_hundred_reorders_each_change_the_fingerprint() {
    let mut batch = generate(1000, 0).unwrap();
    let mut last = batch.fingerprint();
    for _ in 0..100 {
        let token = batch.reorder(last);
        assert!(token.is_some());
        last = token.unwrap();
    }
}

#[test]
fn reorder_leaves_the_empty_batch_alone() {
    let mut batch = Batch::from_keys(&vec![], &vec![]).unwrap();
    let previous = batch.fingerprint();
    assert_eq!(batch.reorder(previous), None);
    assert_eq!(batch.len(), 0);
}

#[test]
fn generate_of_a_single_key_always_succeeds() {
    for _ in 0..50 {
        let existing = generate(1, 0).unwrap();
        assert_eq!(existing.len(), 1);
        assert_eq!(existing.get(0).class(), Membership::Exists);
        let absent = generate(0, 1).unwrap();
        assert_eq!(absent.len(), 1);
        assert_eq!(absent.get(0).class(), Membership::Absent);
    }
}
