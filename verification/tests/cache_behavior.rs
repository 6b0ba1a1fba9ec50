use objcache::cache::{CacheError, CacheImpl, MemoryCacheDriver, MemoryCacheOptions};

fn local_driver(max_size: usize) -> MemoryCacheDriver {
    MemoryCacheDriver::connect(MemoryCacheOptions { max_size })
}

#[test]
fn insert_then_fetch_round_trip() {
    let mut driver = local_driver(2);
    let r = driver.insert("a".to_string(), vec![1u8, 2, 3], "image/png".to_string());
    assert_eq!(r, Ok(()));
    let fetched = driver.fetch("a".to_string());
    assert_eq!(fetched, Some((vec![1u8, 2, 3], "image/png".to_string())));
}

#[test]
fn fetch_never_inserted_is_none() {
    let mut driver = local_driver(4);
    assert_eq!(driver.fetch("missing".to_string()), None);
    let r = driver.insert("present".to_string(), vec![9u8], "text/plain".to_string());
    assert_eq!(r, Ok(()));
    // an insert under a different identifier never makes this one appear
    assert_eq!(driver.fetch("missing".to_string()), None);
}

#[test]
fn delete_then_fetch_is_none() {
    let mut driver = local_driver(2);
    let r = driver.insert("a".to_string(), vec![1u8, 2, 3], "image/png".to_string());
    assert_eq!(r, Ok(()));
    driver.delete("a".to_string());
    assert_eq!(driver.fetch("a".to_string()), None);
}

#[test]
fn delete_is_idempotent() {
    let mut driver = local_driver(2);
    driver.delete("never-stored".to_string());
    let r = driver.insert("a".to_string(), vec![5u8], "image/gif".to_string());
    assert_eq!(r, Ok(()));
    driver.delete("a".to_string());
    driver.delete("a".to_string());
    assert_eq!(driver.fetch("a".to_string()), None);
}

#[test]
fn capacity_rejects_new_identifier() {
    let mut driver = local_driver(2);
    assert_eq!(driver.insert("a".to_string(), vec![1u8], "image/png".to_string()), Ok(()));
    assert_eq!(driver.insert("b".to_string(), vec![2u8], "image/jpeg".to_string()), Ok(()));
    // a third distinct identifier is refused: reject-new policy
    let r = driver.insert("c".to_string(), vec![3u8], "image/webp".to_string());
    assert_eq!(r, Err(CacheError::CapacityExhausted));
    assert_eq!(driver.fetch("c".to_string()), None);
    // the two stored objects are untouched by the refusal
    assert_eq!(driver.fetch("a".to_string()), Some((vec![1u8], "image/png".to_string())));
    assert_eq!(driver.fetch("b".to_string()), Some((vec![2u8], "image/jpeg".to_string())));
}

#[test]
fn overwrite_accepted_at_capacity() {
    let mut driver = local_driver(2);
    assert_eq!(driver.insert("a".to_string(), vec![1u8], "image/png".to_string()), Ok(()));
    assert_eq!(driver.insert("b".to_string(), vec![2u8], "image/jpeg".to_string()), Ok(()));
    // overwriting a stored identifier needs no free slot
    let r = driver.insert("a".to_string(), vec![7u8, 8], "image/bmp".to_string());
    assert_eq!(r, Ok(()));
    assert_eq!(driver.fetch("a".to_string()), Some((vec![7u8, 8], "image/bmp".to_string())));
}

#[test]
fn capacity_frees_after_delete() {
    let mut driver = local_driver(1);
    assert_eq!(driver.insert("a".to_string(), vec![1u8], "image/png".to_string()), Ok(()));
    assert_eq!(
        driver.insert("b".to_string(), vec![2u8], "image/jpeg".to_string()),
        Err(CacheError::CapacityExhausted)
    );
    driver.delete("a".to_string());
    assert_eq!(driver.insert("b".to_string(), vec![2u8], "image/jpeg".to_string()), Ok(()));
    assert_eq!(driver.fetch("b".to_string()), Some((vec![2u8], "image/jpeg".to_string())));
}

#[test]
fn empty_payload_and_label_round_trip() {
    let mut driver = local_driver(2);
    assert_eq!(driver.insert("empty".to_string(), Vec::new(), String::new()), Ok(()));
    assert_eq!(driver.fetch("empty".to_string()), Some((Vec::new(), String::new())));
}
