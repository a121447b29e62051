use std::cell::Cell;

use rs_bucket_filter::bucket::Bucket;
use rs_bucket_filter::cache::{
    get_or_skip_if_bucket_missing, refill_cache, update_cache_btree, BucketSet,
};
use rs_bucket_filter::evt::Event;

fn bucket(name: &str) -> Bucket {
    Bucket::new_checked(name.to_string())
}

fn listed(names: &[&str]) -> (BucketSet, u64) {
    let mut cache = BucketSet::new();
    let mut db: u8 = 0;
    let count = update_cache_btree(&mut cache, &mut db, &mut |_: &mut u8| {
        Ok(names.iter().map(|n| n.to_string()).collect())
    })
    .unwrap();
    (cache, count)
}

#[test]
fn consult_present_bucket_delegates() {
    let (cache, count) = listed(&["a", "b"]);
    assert_eq!(count, 2);
    let fetches: Cell<u32> = Cell::new(0);
    let mut db: u8 = 0;
    let mut getter = |_: &mut u8, b: &Bucket, f: &u8| -> Result<Vec<String>, Event> {
        fetches.set(fetches.get() + 1);
        Ok(vec![format!("{}:{}", b.as_str(), f)])
    };
    let consult = |b: &Bucket| cache.contains(b);
    let r = get_or_skip_if_bucket_missing(&consult, &mut db, &bucket("a"), &mut getter, &4u8);
    assert_eq!(r.unwrap(), vec!["a:4".to_string()]);
    assert_eq!(fetches.get(), 1);
    let r = get_or_skip_if_bucket_missing(&consult, &mut db, &bucket("c"), &mut getter, &4u8);
    assert!(r.unwrap().is_empty());
    assert_eq!(fetches.get(), 1);
}

#[test]
fn duplicate_names_count_once() {
    let (cache, count) = listed(&["a", "b", "a", "c", "b"]);
    assert_eq!(count, 3);
    assert!(cache.contains(&bucket("c")));
    assert!(!cache.contains(&bucket("d")));
}

#[test]
fn refresh_replaces_the_cache() {
    let mut cache = BucketSet::new();
    assert_eq!(refill_cache(&mut cache, vec!["x".to_string()]), 1);
    let names = vec!["a".to_string(), "b".to_string()];
    assert_eq!(refill_cache(&mut cache, names.clone()), 2);
    assert_eq!(refill_cache(&mut cache, names), 2);
    assert!(!cache.contains(&bucket("x")));
    assert!(cache.contains(&bucket("a")));
}

#[test]
fn empty_listing_gives_empty_cache() {
    let (cache, count) = listed(&[]);
    assert_eq!(count, 0);
    assert!(!cache.contains(&bucket("a")));
}

#[test]
fn lister_error_leaves_cache_cleared() {
    let (mut cache, _) = listed(&["a"]);
    let mut db: u8 = 0;
    let r = update_cache_btree(&mut cache, &mut db, &mut |_: &mut u8| -> Result<Vec<String>, Event> {
        Err(Event::UnableToConnect("refused".into()))
    });
    assert!(matches!(r, Err(Event::UnableToConnect(ref m)) if m == "refused"));
    assert!(!cache.contains(&bucket("a")));
}

#[test]
fn set_insert_and_clear() {
    let mut cache = BucketSet::new();
    assert!(cache.insert(bucket("a")));
    assert!(!cache.insert(bucket("a")));
    cache.clear();
    assert!(!cache.contains(&bucket("a")));
}

#[test]
fn bucket_keeps_its_name() {
    let b = bucket("items_2023_01_01");
    assert_eq!(b.as_str(), "items_2023_01_01");
    assert!(b == bucket("items_2023_01_01"));
    assert!(b != bucket("items_2023_01_02"));
    assert!(bucket("a") < bucket("b"));
    assert!(b.clone() == b);
}
