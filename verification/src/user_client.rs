//! The directory service: user records and the public-key index, kept in one
//! storage client.

use vstd::prelude::*;
use crate::assoc::{lookup, upsert, without};
use crate::document::DocumentView;
use crate::error::Error;
use crate::pub_keys::{decode_index, encode_index, PubKeys};
use crate::signing::generate_uuid;
use crate::storage::{Client, StorageClient};
use crate::text::joined;
use crate::user::{decode_user, encode_user, found_view, user_key, User, UserView};

verus! {

/// The key under which the index is stored.
pub open spec fn index_key() -> Seq<char> {
    "keys"@
}

/// The user that the documents hold for `uuid`: the one that the document
/// under the user's key decodes to. A key without a document and a document
/// that does not decode are both no user.
pub open spec fn stored_user(documents: Map<Seq<char>, DocumentView>, uuid: Seq<char>) -> Option<
    UserView,
> {
    if documents.contains_key(user_key(uuid)) {
        decode_user(documents[user_key(uuid)])
    } else {
        None
    }
}

/// The index that the documents hold. No document under the index key and a
/// document that does not decode are both the empty index.
pub open spec fn stored_index(documents: Map<Seq<char>, DocumentView>) -> Seq<
    (Seq<char>, Seq<char>),
> {
    if documents.contains_key(index_key()) {
        match decode_index(documents[index_key()]) {
            Some(entries) => entries,
            None => Seq::empty(),
        }
    } else {
        Seq::empty()
    }
}

/// The directory over one storage client.
#[derive(Debug)]
pub struct UserCLient<S: StorageClient> {
    pub client: Client<S>,
}

impl<S: StorageClient> UserCLient<S> {
    /// The directory that keeps its documents in `client`.
    pub fn new(client: Client<S>) -> (user_client: Self)
        ensures
            user_client.client == client,
    {
        Self { client }
    }

    /// The documents of the directory, by key.
    pub open spec fn documents(&self) -> Map<Seq<char>, DocumentView> {
        self.client.documents()
    }

    /// Whether every write of the backend succeeds.
    pub open spec fn never_fails(&self) -> bool {
        self.client.never_fails()
    }

    /// The key under which the record of the user `uuid` is stored.
    pub fn key(uuid: &str) -> (key: String)
        ensures
            key@ == user_key(uuid@),
    {
        joined("user:", uuid)
    }

    /// The identifier registered for `pub_key`.
    pub fn get_user_uuid(&self, pub_key: &str) -> (user_uuid: Option<String>)
        ensures
            match user_uuid {
                Some(uuid) => lookup(stored_index(self.documents()), pub_key@) == Some(uuid@),
                None => lookup(stored_index(self.documents()), pub_key@) is None,
            },
    {
        match self.get_keys() {
            Ok(pub_keys) => match pub_keys.get_user_uuid(pub_key) {
                Some(uuid) => Some(uuid.clone()),
                None => None,
            },
            Err(_) => None,
        }
    }

    /// The user stored for `uuid`.
    pub fn get_user(&self, uuid: &str) -> (user: Option<User>)
        ensures
            found_view(user) == stored_user(self.documents(), uuid@),
    {
        match self.client.get(Self::key(uuid).as_str()) {
            Some(value) => User::from_document(&value),
            None => None,
        }
    }

    /// Stores `user` under the key of its identifier.
    pub fn store_user(&mut self, user: User) -> (stored: Result<User, Error>)
        ensures
            old(self).never_fails() ==> stored is Ok,
            final(self).never_fails() == old(self).never_fails(),
            match stored {
                Ok(u) => {
                    &&& u@ == user@
                    &&& final(self).documents() == old(self).documents().insert(
                        user_key(user@.uuid),
                        encode_user(user@),
                    )
                },
                Err(error) => {
                    &&& error == Error::Storage
                    &&& final(self).documents().remove(user_key(user@.uuid)) == old(
                        self,
                    ).documents().remove(user_key(user@.uuid))
                },
            },
    {
        match self.client.set(Self::key(user.uuid.as_str()).as_str(), user.to_document()) {
            Ok(_) => Ok(user),
            Err(e) => Err(Error::from(e)),
        }
    }

    /// Creates a user with a fresh identifier and stores the record. The
    /// index is left as it is.
    pub fn put_user(&mut self, pub_key: &str, hash: &str) -> (created: Result<User, Error>)
        ensures
            old(self).never_fails() ==> created is Ok,
            final(self).never_fails() == old(self).never_fails(),
            match created {
                Ok(user) => {
                    &&& user@.uuid.len() == 36
                    &&& user@.pub_key == pub_key@
                    &&& user@.hash == hash@
                    &&& final(self).documents() == old(self).documents().insert(
                        user_key(user@.uuid),
                        encode_user(user@),
                    )
                },
                Err(error) => {
                    &&& error == Error::Storage
                    &&& exists|uuid: Seq<char>|
                        uuid.len() == 36 && #[trigger] final(self).documents().remove(
                            user_key(uuid),
                        ) == old(self).documents().remove(user_key(uuid))
                },
            },
    {
        let uuid = generate_uuid();
        let user = User::new(uuid, pub_key.to_owned(), hash.to_owned());
        self.store_user(user)
    }

    /// Gives the user stored for `uuid` the hash `new_hash`, and stores the
    /// record again under the same key.
    pub fn update_hash(&mut self, uuid: &str, new_hash: &str) -> (updated: Result<User, Error>)
        ensures
            old(self).never_fails() && stored_user(old(self).documents(), uuid@) is Some
                ==> updated is Ok,
            final(self).never_fails() == old(self).never_fails(),
            match stored_user(old(self).documents(), uuid@) {
                None => updated == Err::<User, Error>(Error::NotFound) && final(self).documents()
                    == old(self).documents(),
                Some(before) => match updated {
                    Ok(user) => {
                        &&& user@ == (UserView { hash: new_hash@, ..before })
                        &&& final(self).documents() == old(self).documents().insert(
                            user_key(uuid@),
                            encode_user(user@),
                        )
                    },
                    Err(error) => {
                        &&& error == Error::Storage
                        &&& final(self).documents().remove(user_key(uuid@)) == old(
                            self,
                        ).documents().remove(user_key(uuid@))
                    },
                },
            },
    {
        match self.get_user(uuid) {
            Some(mut user) => {
                user.hash = new_hash.to_owned();
                match self.client.set(Self::key(uuid).as_str(), user.to_document()) {
                    Ok(_) => Ok(user),
                    Err(e) => Err(Error::from(e)),
                }
            },
            None => Err(Error::NotFound),
        }
    }

    /// Removes the record of the user `uuid`, and says whether there was one.
    pub fn delete_user(&mut self, uuid: &str) -> (removed: bool)
        ensures
            final(self).never_fails() == old(self).never_fails(),
            removed == old(self).documents().contains_key(user_key(uuid@)),
            final(self).documents() == old(self).documents().remove(user_key(uuid@)),
    {
        self.client.delete(Self::key(uuid).as_str())
    }

    /// Stores `keys` as the index, in the place of the one that was stored.
    pub fn save_pub_keys(&mut self, keys: PubKeys) -> (saved: Result<(), Error>)
        ensures
            old(self).never_fails() ==> saved is Ok,
            final(self).never_fails() == old(self).never_fails(),
            match saved {
                Ok(_) => final(self).documents() == old(self).documents().insert(
                    index_key(),
                    encode_index(keys@),
                ),
                Err(error) => {
                    &&& error == Error::Storage
                    &&& final(self).documents().remove(index_key()) == old(
                        self,
                    ).documents().remove(index_key())
                },
            },
    {
        match self.client.set("keys", keys.to_document()) {
            Ok(_) => Ok(()),
            Err(e) => Err(Error::from(e)),
        }
    }

    /// The stored index. It is always there: where none is stored, or what is
    /// stored does not decode, it is empty.
    pub fn get_keys(&self) -> (keys: Result<PubKeys, Error>)
        ensures
            keys is Ok,
            keys->Ok_0@ == stored_index(self.documents()),
    {
        match self.client.get("keys") {
            Some(value) => match PubKeys::from_document(&value) {
                Some(result) => Ok(result),
                None => Ok(PubKeys::default()),
            },
            None => Ok(PubKeys::default()),
        }
    }

    /// Registers `user_uuid` for `pub_key` in the stored index, in the place
    /// of what was registered for that key before.
    pub fn update_keys(&mut self, pub_key: &str, user_uuid: &str) -> (updated: Result<(), Error>)
        ensures
            old(self).never_fails() ==> updated is Ok,
            final(self).never_fails() == old(self).never_fails(),
            match updated {
                Ok(_) => final(self).documents() == old(self).documents().insert(
                    index_key(),
                    encode_index(upsert(stored_index(old(self).documents()), pub_key@, user_uuid@)),
                ),
                Err(error) => {
                    &&& error == Error::Storage
                    &&& final(self).documents().remove(index_key()) == old(
                        self,
                    ).documents().remove(index_key())
                },
            },
    {
        match self.get_keys() {
            Ok(mut pub_keys) => {
                pub_keys.add_user_uuid(user_uuid, pub_key);
                self.save_pub_keys(pub_keys)
            },
            Err(e) => Err(e),
        }
    }

    /// Takes the entry of `pub_key` out of the stored index.
    pub fn remove_key(&mut self, pub_key: &str) -> (removed: Result<(), Error>)
        ensures
            old(self).never_fails() ==> removed is Ok,
            final(self).never_fails() == old(self).never_fails(),
            match removed {
                Ok(_) => final(self).documents() == old(self).documents().insert(
                    index_key(),
                    encode_index(without(stored_index(old(self).documents()), pub_key@)),
                ),
                Err(error) => {
                    &&& error == Error::Storage
                    &&& final(self).documents().remove(index_key()) == old(
                        self,
                    ).documents().remove(index_key())
                },
            },
    {
        match self.get_keys() {
            Ok(mut pub_keys) => {
                let _ = pub_keys.remove_key(pub_key);
                self.save_pub_keys(pub_keys)
            },
            Err(e) => Err(e),
        }
    }
}

} // verus!
