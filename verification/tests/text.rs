use blobs::ids::ExpiryKey;
use blobs::ids::SubscriptionId;
use blobs::key::Key;
use blobs::key::OrdKey;
use blobs::text::hex_text;

#[test]
fn hex_of_bytes() {
    assert_eq!(hex_text(&[]), "");
    assert_eq!(hex_text(&[0]), "00");
    assert_eq!(hex_text(&[0x0f, 0xf0, 0xa5]), "0ff0a5");
    assert_eq!(hex_text(&[255, 16, 1]), "ff1001");
    assert_eq!(hex_text(&[0x12, 0x34, 0x56, 0x78, 0x9a, 0xbc, 0xde]), "123456789abcde");
}

#[test]
fn hash_as_text() {
    let mut bytes = [0u8; 32];
    bytes[0] = 0xab;
    bytes[31] = 0x01;
    let text = blobs::ids::Hash(bytes).to_string();
    assert_eq!(text.len(), 64);
    assert!(text.starts_with("ab00"));
    assert!(text.ends_with("0001"));
}

#[test]
fn subscription_id_as_text() {
    assert_eq!(SubscriptionId::Default.to_string(), "default");
    assert_eq!(SubscriptionId::Key(b"foo".to_vec()).to_string(), "666f6f");
    assert_eq!(SubscriptionId::Key(vec![]).to_string(), "");
}

#[test]
fn subscription_ids_are_compared_by_value() {
    let foo = SubscriptionId::Key(b"foo".to_vec());
    assert!(foo.same(&SubscriptionId::Key(vec![b'f', b'o', b'o'])));
    assert!(!foo.same(&SubscriptionId::Key(b"fo".to_vec())));
    assert!(!foo.same(&SubscriptionId::Key(b"fop".to_vec())));
    assert!(!foo.same(&SubscriptionId::Default));
    assert!(SubscriptionId::Default.same(&SubscriptionId::Default));
    // The default id is not the id with the empty name.
    assert!(!SubscriptionId::Default.same(&SubscriptionId::Key(vec![])));
    assert!(foo.dup().same(&foo));
}

#[test]
fn expiry_keys_name_blob_and_subscription() {
    let id = SubscriptionId::Key(b"k".to_vec());
    let key = ExpiryKey::new(blobs::ids::Hash([3; 32]), &id);
    assert_eq!(key.hash, blobs::ids::Hash([3; 32]));
    assert_eq!(key.id, id);
    assert!(key.same(&ExpiryKey::new(blobs::ids::Hash([3; 32]), &id)));
    assert!(!key.same(&ExpiryKey::new(blobs::ids::Hash([4; 32]), &id)));
    assert!(!key.same(&ExpiryKey::new(blobs::ids::Hash([3; 32]), &SubscriptionId::Default)));
}

#[test]
fn hashes_are_ordered_like_words_in_a_dictionary() {
    let mut a = [0u8; 32];
    let mut b = [0u8; 32];
    assert!(!blobs::ids::Hash(a).precedes(&blobs::ids::Hash(b)));
    b[31] = 1;
    assert!(blobs::ids::Hash(a).precedes(&blobs::ids::Hash(b)));
    assert!(!blobs::ids::Hash(b).precedes(&blobs::ids::Hash(a)));
    a[0] = 1;
    assert!(blobs::ids::Hash(b).precedes(&blobs::ids::Hash(a)));
    a[0] = 0;
    a[30] = 200;
    b[30] = 199;
    b[31] = 255;
    assert!(blobs::ids::Hash(b).precedes(&blobs::ids::Hash(a)));
    assert!(blobs::ids::Hash(a).same(&blobs::ids::Hash(a)));
    assert!(!blobs::ids::Hash(a).same(&blobs::ids::Hash(b)));
}
