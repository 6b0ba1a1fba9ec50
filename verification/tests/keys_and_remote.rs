use objcache::cache::CacheError;
use objcache::keys::{image_key, mime_key};
use objcache::remote::{delete_commands, insert_commands, resolve_pair, StoreCommand};
use objcache::store::{Entry, KeyValueMap};

#[test]
fn key_schema_is_exact() {
    assert_eq!(image_key("a"), "a-image");
    assert_eq!(mime_key("a"), "a-mime");
    assert_eq!(image_key(""), "-image");
    assert_eq!(mime_key("user/42"), "user/42-mime");
}

#[test]
fn derived_keys_never_collide() {
    assert_ne!(image_key("a"), image_key("b"));
    assert_ne!(mime_key("a"), mime_key("b"));
    // a payload key never spells a content-type key, even for identifiers
    // chosen to imitate the suffixes
    assert_ne!(image_key("a"), mime_key("a"));
    assert_ne!(image_key("a-mime"), mime_key("a-image"));
    assert_ne!(mime_key("a-image"), image_key("a"));
}

#[test]
fn insert_commands_ordered_payload_first() {
    let cmds = insert_commands("pic", vec![1u8, 2], "image/png".to_string());
    assert_eq!(cmds.len(), 2);
    match &cmds[0] {
        StoreCommand::SetPayload(key, bytes) => {
            assert_eq!(key, "pic-image");
            assert_eq!(bytes, &vec![1u8, 2]);
        }
        _ => panic!("first command must write the payload"),
    }
    match &cmds[1] {
        StoreCommand::SetLabel(key, label) => {
            assert_eq!(key, "pic-mime");
            assert_eq!(label, "image/png");
        }
        _ => panic!("second command must write the label"),
    }
}

#[test]
fn delete_commands_ordered_payload_first() {
    let cmds = delete_commands("pic");
    assert_eq!(cmds.len(), 2);
    match &cmds[0] {
        StoreCommand::Remove(key) => assert_eq!(key, "pic-image"),
        _ => panic!("first command must remove the payload key"),
    }
    match &cmds[1] {
        StoreCommand::Remove(key) => assert_eq!(key, "pic-mime"),
        _ => panic!("second command must remove the label key"),
    }
}

#[test]
fn resolve_pair_both_present() {
    let r = resolve_pair(Some(vec![1u8, 2, 3]), Some("image/png".to_string()));
    assert_eq!(r, Ok(Some((vec![1u8, 2, 3], "image/png".to_string()))));
}

#[test]
fn resolve_pair_both_absent_is_miss() {
    assert_eq!(resolve_pair(None, None), Ok(None));
}

#[test]
fn resolve_pair_orphaned_payload_is_error() {
    assert_eq!(resolve_pair(Some(vec![1u8]), None), Err(CacheError::IncompletePair));
}

#[test]
fn resolve_pair_orphaned_label_is_error() {
    assert_eq!(
        resolve_pair(None, Some("image/png".to_string())),
        Err(CacheError::IncompletePair)
    );
}

#[test]
fn partial_write_leaves_incomplete_pair() {
    // Simulated remote backend: the SET of the payload key succeeds, then
    // the SET of the mime key fails, so it is never issued.  The store is
    // left with an orphaned payload key, and a fetch observes the
    // documented incomplete pair instead of a silent miss.
    let mut store = KeyValueMap::new();
    store.set(image_key("a"), Entry::Payload(vec![1u8, 2, 3]));

    let image = store.get(&image_key("a")).and_then(Entry::into_payload);
    let mime = store.get(&mime_key("a")).and_then(Entry::into_label);
    assert_eq!(image, Some(vec![1u8, 2, 3]));
    assert_eq!(mime, None);
    assert_eq!(resolve_pair(image, mime), Err(CacheError::IncompletePair));
}

#[test]
fn key_value_map_set_get_del() {
    let mut store = KeyValueMap::new();
    assert!(store.get(&"k".to_string()).is_none());
    let prev = store.set("k".to_string(), Entry::Label("first".to_string()));
    assert!(prev.is_none());
    match store.get(&"k".to_string()) {
        Some(Entry::Label(s)) => assert_eq!(s, "first"),
        _ => panic!("stored label must come back"),
    }
    // overwriting hands back the overwritten entry
    let prev = store.set("k".to_string(), Entry::Payload(vec![7u8]));
    match prev {
        Some(Entry::Label(s)) => assert_eq!(s, "first"),
        _ => panic!("previous entry must come back"),
    }
    match store.get(&"k".to_string()) {
        Some(Entry::Payload(b)) => assert_eq!(b, vec![7u8]),
        _ => panic!("stored payload must come back"),
    }
    let removed = store.del(&"k".to_string());
    match removed {
        Some(Entry::Payload(b)) => assert_eq!(b, vec![7u8]),
        _ => panic!("removed entry must come back"),
    }
    assert!(store.get(&"k".to_string()).is_none());
    // deleting an absent key succeeds and removes nothing
    assert!(store.del(&"k".to_string()).is_none());
}
