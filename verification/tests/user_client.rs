use user_directory::document::Document;
use user_directory::error::Error;
use user_directory::pub_keys::PubKeys;
use user_directory::storage::{Client, MemoryStorageClient};
use user_directory::user::User;
use user_directory::user_client::UserCLient;

fn directory() -> UserCLient<MemoryStorageClient> {
    UserCLient::new(Client::new(MemoryStorageClient::new()))
}

fn text(value: &str) -> Document {
    Document::Text(value.to_string())
}

fn user_document(uuid: &str, pub_key: &str, hash: &str) -> Document {
    Document::Object(vec![
        ("uuid".to_string(), text(uuid)),
        ("pub_key".to_string(), text(pub_key)),
        ("hash".to_string(), text(hash)),
    ])
}

#[test]
fn test_get_user() {
    let mut user_client = directory();
    let initial_uuid = "uuid";

    // nothing is stored before
    assert!(user_client.client.get("user:uuid").is_none());

    let user = User::new(initial_uuid.to_string(), "pub_key".to_string(), "hash".to_string());
    assert!(user_client.client.set("user:uuid", user.to_document()).is_ok());

    match user_client.get_user(initial_uuid) {
        Some(result) => assert_eq!(result, user.clone()),
        None => assert!(false),
    };
}

#[test]
fn test_put_user() {
    let mut user_client = directory();

    let pub_key = "pub_key";
    let hash = "hash";
    match user_client.put_user(pub_key, hash) {
        Ok(result) => {
            // the set user should be a new uuid
            assert!(!result.uuid.is_empty());
            assert_eq!(result.pub_key.to_string(), pub_key.to_string());
            assert_eq!(result.hash, hash);
            let key = format!("user:{}", result.uuid);
            assert!(user_client.client.get(&key).is_some());
        }
        Err(_) => assert!(false),
    }
}

#[test]
fn test_delete_user() {
    let mut user_client = directory();
    let initial_uuid = "uuid";

    // confirm the record doesn't exist before
    assert!(user_client.client.get("user:uuid").is_none());

    let user = User::new(initial_uuid.to_string(), "pub_key".to_string(), "hash".to_string());
    assert!(user_client.client.set("user:uuid", user.to_document()).is_ok());

    // confirm the record exists
    assert!(user_client.client.get("user:uuid").is_some());

    // delete the user: should be true as the record should be deleted
    assert!(user_client.delete_user(initial_uuid));

    // confirm the record doesn't exist after
    assert!(user_client.client.get("user:uuid").is_none());

    // try to delete the user again: should be false as the record doesn't exist
    assert!(!user_client.delete_user(initial_uuid));
}

#[test]
fn test_get_keys() {
    let mut user_client = directory();

    // confirm nothing is stored before
    assert!(user_client.client.get("keys").is_none());

    // Keys are default when nothing is stored
    match user_client.get_keys() {
        Ok(result) => {
            assert_eq!(result, PubKeys::default());
        }
        Err(_) => assert!(false),
    }

    let user_uuid = "test_user_uuid";
    let pub_key = "test_pub_key";

    let mut pub_keys = PubKeys::default();
    pub_keys.add_user_uuid(user_uuid, pub_key);
    assert!(user_client.client.set("keys", pub_keys.to_document()).is_ok());

    match user_client.get_keys() {
        Ok(result) => {
            let result_user_uuid = result.get_user_uuid(pub_key);
            assert!(result_user_uuid.is_some());
            assert_eq!(user_uuid, result_user_uuid.unwrap().as_str());
        }
        Err(_) => assert!(false),
    };
}

#[test]
fn test_save_pub_keys() {
    let mut user_client = directory();

    // confirm nothing is stored before
    assert!(user_client.client.get("keys").is_none());

    let mut pub_keys = PubKeys::default();
    pub_keys.add_user_uuid("test_user_uuid", "test_pub_key");

    match user_client.save_pub_keys(pub_keys.clone()) {
        Ok(_) => {
            // read the document and check the contents
            match user_client.client.get("keys") {
                Some(data) => {
                    let result = PubKeys::from_document(&data).expect("Failed to deserialize");
                    assert_eq!(result, pub_keys);
                }
                None => panic!("Failed to read document"),
            }
        }
        Err(_) => assert!(false),
    }
}

#[test]
fn key_is_prefix_and_uuid() {
    assert_eq!(UserCLient::<MemoryStorageClient>::key("abc"), "user:abc");
    assert_eq!(UserCLient::<MemoryStorageClient>::key(""), "user:");
    assert_eq!(UserCLient::<MemoryStorageClient>::key("a:b"), "user:a:b");
}

#[test]
fn created_uuids_are_pairwise_distinct() {
    let mut user_client = directory();
    let mut uuids: Vec<String> = Vec::new();
    for _ in 0..200 {
        let user = user_client.put_user("pub_key", "hash").expect("memory never fails");
        assert_eq!(user.uuid.len(), 36);
        assert!(!uuids.contains(&user.uuid));
        uuids.push(user.uuid);
    }
    for uuid in &uuids {
        assert!(user_client.get_user(uuid).is_some());
    }
}

#[test]
fn stored_user_round_trips() {
    let mut user_client = directory();
    let user = User::new("u-1".to_string(), "02ab".to_string(), "h\"1\u{e9}".to_string());
    let stored = user_client.store_user(user.clone()).expect("memory never fails");
    assert_eq!(stored, user);
    assert_eq!(user_client.get_user("u-1"), Some(user));
    assert_eq!(user_client.get_user("u-2"), None);
}

#[test]
fn stored_record_has_three_text_members() {
    let mut user_client = directory();
    let user = User::new("u-1".to_string(), "key".to_string(), "hash".to_string());
    user_client.store_user(user).expect("memory never fails");
    assert_eq!(user_client.client.get("user:u-1"), Some(user_document("u-1", "key", "hash")));
}

#[test]
fn put_user_leaves_the_index_alone() {
    let mut user_client = directory();
    let user = user_client.put_user("key", "hash").expect("memory never fails");
    assert!(user_client.client.get("keys").is_none());
    assert_eq!(user_client.get_user_uuid("key"), None);
    assert_eq!(user_client.get_user(&user.uuid), Some(user));
}

#[test]
fn delete_is_idempotent() {
    let mut user_client = directory();
    assert!(!user_client.delete_user("never-there"));
    let user = user_client.put_user("key", "hash").expect("memory never fails");
    assert!(user_client.delete_user(&user.uuid));
    assert!(!user_client.delete_user(&user.uuid));
    assert!(!user_client.delete_user(&user.uuid));
    assert_eq!(user_client.get_user(&user.uuid), None);
}

#[test]
fn delete_leaves_other_users() {
    let mut user_client = directory();
    let first = user_client.put_user("k1", "h1").expect("memory never fails");
    let second = user_client.put_user("k2", "h2").expect("memory never fails");
    assert!(user_client.delete_user(&first.uuid));
    assert_eq!(user_client.get_user(&second.uuid), Some(second));
}

#[test]
fn last_registration_of_a_key_wins() {
    let mut user_client = directory();
    assert!(user_client.update_keys("key", "uuid-1").is_ok());
    assert_eq!(user_client.get_user_uuid("key"), Some("uuid-1".to_string()));
    assert!(user_client.update_keys("key", "uuid-2").is_ok());
    assert_eq!(user_client.get_user_uuid("key"), Some("uuid-2".to_string()));
    assert_eq!(user_client.get_keys().unwrap().len(), 1);
}

#[test]
fn registrations_of_different_keys_stand_side_by_side() {
    let mut user_client = directory();
    assert!(user_client.update_keys("k1", "uuid-1").is_ok());
    assert!(user_client.update_keys("k2", "uuid-2").is_ok());
    assert_eq!(user_client.get_user_uuid("k1"), Some("uuid-1".to_string()));
    assert_eq!(user_client.get_user_uuid("k2"), Some("uuid-2".to_string()));
    assert_eq!(user_client.get_user_uuid("k3"), None);
    assert_eq!(
        user_client.client.get("keys"),
        Some(Document::Object(vec![
            ("k1".to_string(), text("uuid-1")),
            ("k2".to_string(), text("uuid-2")),
        ]))
    );
}

#[test]
fn missing_index_resolves_nothing() {
    let user_client = directory();
    assert_eq!(user_client.get_user_uuid("key"), None);
}

#[test]
fn undecodable_index_counts_as_empty() {
    let mut user_client = directory();
    assert!(user_client.client.set("keys", Document::List(vec![text("x")])).is_ok());
    assert_eq!(user_client.get_keys(), Ok(PubKeys::default()));
    assert_eq!(user_client.get_user_uuid("x"), None);

    let broken = Document::Object(vec![
        ("k1".to_string(), text("uuid-1")),
        ("k2".to_string(), Document::Bool(true)),
    ]);
    assert!(user_client.client.set("keys", broken).is_ok());
    assert_eq!(user_client.get_user_uuid("k1"), None);

    // a registration starts again from the empty index
    assert!(user_client.update_keys("k3", "uuid-3").is_ok());
    assert_eq!(user_client.get_user_uuid("k3"), Some("uuid-3".to_string()));
    assert_eq!(user_client.get_user_uuid("k1"), None);
}

#[test]
fn remove_key_takes_one_entry_out() {
    let mut user_client = directory();
    assert!(user_client.update_keys("k1", "uuid-1").is_ok());
    assert!(user_client.update_keys("k2", "uuid-2").is_ok());
    assert!(user_client.remove_key("k1").is_ok());
    assert_eq!(user_client.get_user_uuid("k1"), None);
    assert_eq!(user_client.get_user_uuid("k2"), Some("uuid-2".to_string()));
    assert!(user_client.remove_key("k1").is_ok());
    assert_eq!(user_client.get_user_uuid("k2"), Some("uuid-2".to_string()));
}

#[test]
fn corrupted_record_reads_as_absent() {
    let mut user_client = directory();
    let records = vec![
        Document::Null,
        Document::Bool(false),
        Document::Number("12".to_string()),
        text("user"),
        Document::List(vec![text("uuid"), text("pub_key"), text("hash")]),
        Document::Object(vec![]),
        Document::Object(vec![
            ("uuid".to_string(), text("u")),
            ("pub_key".to_string(), text("k")),
        ]),
        Document::Object(vec![
            ("uuid".to_string(), text("u")),
            ("pub_key".to_string(), text("k")),
            ("hash".to_string(), Document::Number("1".to_string())),
        ]),
    ];
    for record in records {
        assert!(user_client.client.set("user:u", record).is_ok());
        assert_eq!(user_client.get_user("u"), None);
    }
    // the record is still there, and a well-formed one reads again
    assert!(user_client.client.get("user:u").is_some());
    assert!(user_client.client.set("user:u", user_document("u", "k", "h")).is_ok());
    assert!(user_client.get_user("u").is_some());
}

#[test]
fn record_with_more_members_still_reads() {
    let mut user_client = directory();
    let record = Document::Object(vec![
        ("extra".to_string(), Document::Null),
        ("hash".to_string(), text("h")),
        ("uuid".to_string(), text("u")),
        ("pub_key".to_string(), text("k")),
        ("hash".to_string(), text("later")),
    ]);
    assert!(user_client.client.set("user:u", record).is_ok());
    assert_eq!(
        user_client.get_user("u"),
        Some(User::new("u".to_string(), "k".to_string(), "h".to_string()))
    );
}

#[test]
fn update_hash_rewrites_the_record() {
    let mut user_client = directory();
    let user = user_client.put_user("key", "h1").expect("memory never fails");
    let updated = user_client.update_hash(&user.uuid, "h2").expect("memory never fails");
    assert_eq!(updated.uuid, user.uuid);
    assert_eq!(updated.pub_key, "key");
    assert_eq!(updated.hash, "h2");
    assert_eq!(user_client.get_user(&user.uuid), Some(updated));
}

#[test]
fn update_hash_of_missing_user_is_not_found() {
    let mut user_client = directory();
    assert_eq!(user_client.update_hash("nobody", "h2"), Err(Error::NotFound));
    assert!(user_client.client.get("user:nobody").is_none());
}
