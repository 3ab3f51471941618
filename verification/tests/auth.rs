use sessionless::Sessionless;
use user_directory::auth::{authenticate, message_of, verdict};
use user_directory::document::Document;
use user_directory::error::Error;
use user_directory::handlers::{
    delete_user_handler, update_hash_handler, DeleteUserRequest, Response, UpdateHashRequest,
};
use user_directory::storage::{Client, MemoryStorageClient, StorageClient, StorageError};
use user_directory::user::User;
use user_directory::user_client::UserCLient;

/// A backend whose writes can be switched off.
struct Flaky {
    inner: MemoryStorageClient,
    writes: bool,
}

impl StorageClient for Flaky {
    fn get(&self, key: &str) -> Option<Document> {
        self.inner.get(key)
    }

    fn set(&mut self, key: &str, value: Document) -> Result<(), StorageError> {
        if self.writes {
            self.inner.set(key, value)
        } else {
            Err(StorageError)
        }
    }

    fn delete(&mut self, key: &str) -> bool {
        self.inner.delete(key)
    }
}

fn flaky_directory() -> UserCLient<Flaky> {
    UserCLient::new(Client::new(Flaky { inner: MemoryStorageClient::new(), writes: true }))
}

fn memory_directory() -> UserCLient<MemoryStorageClient> {
    UserCLient::new(Client::new(MemoryStorageClient::new()))
}

fn signed(signer: &Sessionless, timestamp: &str, uuid: &str, payload: &str) -> String {
    signer.sign(format!("{}{}{}", timestamp, uuid, payload)).to_string()
}

fn delete_request(signer: &Sessionless, uuid: &str, hash: &str) -> DeleteUserRequest {
    let timestamp = "1700000000";
    DeleteUserRequest {
        timestamp: timestamp.to_string(),
        user_uuid: uuid.to_string(),
        hash: hash.to_string(),
        signature: signed(signer, timestamp, uuid, hash),
    }
}

fn update_request(signer: &Sessionless, uuid: &str, new_hash: &str) -> UpdateHashRequest {
    let timestamp = "1700000000";
    UpdateHashRequest {
        timestamp: timestamp.to_string(),
        user_uuid: uuid.to_string(),
        new_hash: new_hash.to_string(),
        signature: signed(signer, timestamp, uuid, new_hash),
    }
}

#[test]
fn message_is_the_three_parts_in_order() {
    assert_eq!(message_of("1700000000", "uuid-1", "h2"), "1700000000uuid-1h2");
    assert_eq!(message_of("", "", ""), "");
    assert_eq!(message_of(" a", "b ", " c "), " ab  c ");
    assert_eq!(message_of("x", "", "z"), "xz");
}

#[test]
fn verdict_for_every_finding() {
    let user = || User::new("u".to_string(), "k".to_string(), "h".to_string());
    for key_ok in [false, true] {
        for matches in [false, true] {
            // a signature that does not parse is refused first
            assert_eq!(verdict(false, None, key_ok, matches), Err(Error::Auth));
            assert_eq!(verdict(false, Some(user()), key_ok, matches), Err(Error::Auth));
            // then a missing user is reported
            assert_eq!(verdict(true, None, key_ok, matches), Err(Error::NotFound));
        }
    }
    assert_eq!(verdict(true, Some(user()), false, false), Err(Error::Auth));
    assert_eq!(verdict(true, Some(user()), false, true), Err(Error::Auth));
    assert_eq!(verdict(true, Some(user()), true, false), Err(Error::Auth));
    assert_eq!(verdict(true, Some(user()), true, true), Ok(user()));
}

#[test]
fn update_with_the_users_signature_passes() {
    let signer = Sessionless::new();
    let mut user_client = memory_directory();
    let user = user_client
        .put_user(&signer.public_key().to_string(), "h1")
        .expect("memory never fails");

    let body = update_request(&signer, &user.uuid, "h2");
    let updated = update_hash_handler(&mut user_client, &body).expect("authentic request");
    assert_eq!(updated.uuid, user.uuid);
    assert_eq!(updated.pub_key, user.pub_key);
    assert_eq!(updated.hash, "h2");
    assert_eq!(user_client.get_user(&user.uuid).unwrap().hash, "h2");
}

#[test]
fn update_with_another_keys_signature_is_refused() {
    let signer = Sessionless::new();
    let stranger = Sessionless::new();
    let mut user_client = memory_directory();
    let user = user_client
        .put_user(&signer.public_key().to_string(), "h1")
        .expect("memory never fails");

    let body = update_request(&stranger, &user.uuid, "h2");
    assert_eq!(update_hash_handler(&mut user_client, &body), Err(Error::Auth));
    assert_eq!(user_client.get_user(&user.uuid).unwrap().hash, "h1");
}

#[test]
fn signature_over_another_message_is_refused() {
    let signer = Sessionless::new();
    let mut user_client = memory_directory();
    let user = user_client
        .put_user(&signer.public_key().to_string(), "h1")
        .expect("memory never fails");

    // signed for "h2", sent with "h3"
    let mut body = update_request(&signer, &user.uuid, "h2");
    body.new_hash = "h3".to_string();
    assert_eq!(update_hash_handler(&mut user_client, &body), Err(Error::Auth));

    // signed with one timestamp, sent with another
    let mut body = update_request(&signer, &user.uuid, "h2");
    body.timestamp = "1700000001".to_string();
    assert_eq!(update_hash_handler(&mut user_client, &body), Err(Error::Auth));
    assert_eq!(user_client.get_user(&user.uuid).unwrap().hash, "h1");
}

#[test]
fn authenticate_returns_the_stored_user() {
    let signer = Sessionless::new();
    let mut user_client = memory_directory();
    let user = user_client
        .put_user(&signer.public_key().to_string(), "h1")
        .expect("memory never fails");
    let signature = signed(&signer, "17", &user.uuid, "payload");
    assert_eq!(authenticate(&user_client, "17", &user.uuid, "payload", &signature), Ok(user));
}

#[test]
fn missing_user_is_not_found_whatever_the_signature_signs() {
    let signer = Sessionless::new();
    let mut user_client = memory_directory();

    let body = update_request(&signer, "nobody", "h2");
    assert_eq!(update_hash_handler(&mut user_client, &body), Err(Error::NotFound));

    // a signature that belongs to another message is still a signature
    let mut body = update_request(&signer, "somebody", "h2");
    body.user_uuid = "nobody".to_string();
    assert_eq!(update_hash_handler(&mut user_client, &body), Err(Error::NotFound));

    let body = delete_request(&signer, "nobody", "h1");
    assert_eq!(delete_user_handler(&mut user_client, &body), Response::NotFound);
}

#[test]
fn malformed_signature_is_refused_before_the_user_is_looked_for() {
    let signer = Sessionless::new();
    let mut user_client = memory_directory();
    let user = user_client
        .put_user(&signer.public_key().to_string(), "h1")
        .expect("memory never fails");

    for signature in ["", "zz", "not a signature", "abc", "00"] {
        for uuid in [user.uuid.as_str(), "nobody"] {
            let body = DeleteUserRequest {
                timestamp: "1".to_string(),
                user_uuid: uuid.to_string(),
                hash: "h1".to_string(),
                signature: signature.to_string(),
            };
            assert_eq!(delete_user_handler(&mut user_client, &body), Response::AuthError);
            assert_eq!(
                authenticate(&user_client, "1", uuid, "h1", signature),
                Err(Error::Auth)
            );
        }
    }
    assert!(user_client.get_user(&user.uuid).is_some());
}

#[test]
fn stored_key_that_does_not_parse_is_refused() {
    let signer = Sessionless::new();
    let mut user_client = memory_directory();
    let user = user_client.put_user("pub_key", "h1").expect("memory never fails");
    let body = delete_request(&signer, &user.uuid, "h1");
    assert_eq!(delete_user_handler(&mut user_client, &body), Response::AuthError);
    assert!(user_client.get_user(&user.uuid).is_some());
}

#[test]
fn test_delete_user_handler() {
    let initial_uuid_1 = "1234";
    let initial_hash_1 = "initial_hash_1";
    let initial_uuid_2 = "1235";
    let initial_hash_2 = "initial_hash_2";

    let mut user_client = memory_directory();
    let sessionless = Sessionless::new();
    let pub_key = sessionless.public_key().to_string();

    // write two users and the keys
    for (uuid, hash) in [(initial_uuid_1, initial_hash_1), (initial_uuid_2, initial_hash_2)] {
        let user = User::new(uuid.to_string(), pub_key.clone(), hash.to_string());
        assert!(user_client.store_user(user).is_ok());
    }
    assert!(user_client.update_keys(&pub_key, initial_uuid_1).is_ok());
    assert!(user_client.update_keys("another_key", initial_uuid_2).is_ok());

    let body = delete_request(&sessionless, initial_uuid_1, initial_hash_1);
    assert_eq!(delete_user_handler(&mut user_client, &body), Response::Success { code: 202 });

    // the record and the index entry are gone, the rest stays
    assert_eq!(user_client.get_user(initial_uuid_1), None);
    assert_eq!(user_client.get_user_uuid(&pub_key), None);
    assert!(user_client.get_user(initial_uuid_2).is_some());
    assert_eq!(user_client.get_user_uuid("another_key"), Some(initial_uuid_2.to_string()));

    // the same request again finds no user
    assert_eq!(delete_user_handler(&mut user_client, &body), Response::NotFound);
}

#[test]
fn delete_with_another_keys_signature_changes_nothing() {
    let signer = Sessionless::new();
    let stranger = Sessionless::new();
    let mut user_client = memory_directory();
    let pub_key = signer.public_key().to_string();
    let user = user_client.put_user(&pub_key, "h1").expect("memory never fails");
    assert!(user_client.update_keys(&pub_key, &user.uuid).is_ok());

    let body = delete_request(&stranger, &user.uuid, "h1");
    assert_eq!(delete_user_handler(&mut user_client, &body), Response::AuthError);
    assert_eq!(user_client.get_user(&user.uuid), Some(user.clone()));
    assert_eq!(user_client.get_user_uuid(&pub_key), Some(user.uuid));
}

#[test]
fn delete_of_a_record_that_names_another_user_fails() {
    let signer = Sessionless::new();
    let mut user_client = memory_directory();
    let pub_key = signer.public_key().to_string();
    // the record under "user:here" says that it belongs to "elsewhere"
    let misplaced = User::new("elsewhere".to_string(), pub_key, "h1".to_string());
    assert!(user_client.client.set("user:here", misplaced.to_document()).is_ok());

    let body = delete_request(&signer, "here", "h1");
    assert_eq!(
        delete_user_handler(&mut user_client, &body),
        Response::ServerError { message: "Failed to delete user".to_string() }
    );
    assert!(user_client.client.get("user:here").is_some());
}

#[test]
fn delete_reports_an_index_that_cannot_be_written() {
    let signer = Sessionless::new();
    let mut user_client = flaky_directory();
    let pub_key = signer.public_key().to_string();
    let user = user_client.put_user(&pub_key, "h1").expect("writes are on");
    assert!(user_client.update_keys(&pub_key, &user.uuid).is_ok());

    user_client.client.storage_client.writes = false;
    let body = delete_request(&signer, &user.uuid, "h1");
    assert_eq!(
        delete_user_handler(&mut user_client, &body),
        Response::ServerError { message: "Failed to delete key".to_string() }
    );
    // the record is gone all the same, the index entry is not
    assert_eq!(user_client.get_user(&user.uuid), None);
    assert_eq!(user_client.get_user_uuid(&pub_key), Some(user.uuid));
}

#[test]
fn failed_writes_are_storage_errors() {
    let signer = Sessionless::new();
    let mut user_client = flaky_directory();
    let pub_key = signer.public_key().to_string();
    let user = user_client.put_user(&pub_key, "h1").expect("writes are on");

    user_client.client.storage_client.writes = false;
    assert_eq!(user_client.put_user("k", "h"), Err(Error::Storage));
    assert_eq!(user_client.update_hash(&user.uuid, "h2"), Err(Error::Storage));
    assert_eq!(user_client.update_keys("k", "u"), Err(Error::Storage));
    assert_eq!(user_client.remove_key("k"), Err(Error::Storage));
    let body = update_request(&signer, &user.uuid, "h2");
    assert_eq!(update_hash_handler(&mut user_client, &body), Err(Error::Storage));
    assert_eq!(user_client.get_user(&user.uuid).unwrap().hash, "h1");
}

#[test]
fn errors_map_to_answers() {
    assert_eq!(Response::from_error(Error::NotFound), Response::NotFound);
    assert_eq!(Response::from_error(Error::Auth), Response::AuthError);
    assert_eq!(
        Response::from_error(Error::Storage),
        Response::ServerError { message: "Failed to store".to_string() }
    );
    assert_eq!(
        Response::from_error(Error::Serialization),
        Response::ServerError { message: "Failed to serialize".to_string() }
    );
    assert_eq!(Error::from(StorageError), Error::Storage);
    assert_eq!(Response::success(202), Response::Success { code: 202 });
    assert_eq!(Response::auth_error(), Response::AuthError);
    assert_eq!(Response::not_found(), Response::NotFound);
    assert_eq!(
        Response::server_error("cause".to_string()),
        Response::ServerError { message: "cause".to_string() }
    );
}
