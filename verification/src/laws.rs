//! What holds of the directory whatever it stores, stated over the documents
//! that the operations leave behind.

use vstd::prelude::*;
use crate::assoc::{
    lemma_lookup_upsert, lemma_lookup_without, lemma_upsert_unique, lemma_without_unique, lookup,
    unique_keys, upsert, without,
};
use crate::document::DocumentView;
use crate::pub_keys::{encode_index, lemma_collect_unique, lemma_decode_encode_index};
use crate::user::{
    decode_user, encode_user, lemma_decode_encode_user, lemma_user_keys, user_key, UserView,
};
use crate::user_client::{index_key, stored_index, stored_user};

verus! {

/// A user that was stored is the user that is read.
pub proof fn lemma_stored_user_is_read(documents: Map<Seq<char>, DocumentView>, user: UserView)
    ensures
        stored_user(documents.insert(user_key(user.uuid), encode_user(user)), user.uuid) == Some(
            user,
        ),
{
    lemma_decode_encode_user(user);
}

/// Storing or deleting the record of one user leaves every other user and
/// the index as they were.
pub proof fn lemma_record_stands_alone(
    documents: Map<Seq<char>, DocumentView>,
    uuid: Seq<char>,
    record: DocumentView,
    other: Seq<char>,
)
    requires
        other != uuid,
    ensures
        stored_user(documents.insert(user_key(uuid), record), other) == stored_user(
            documents,
            other,
        ),
        stored_user(documents.remove(user_key(uuid)), other) == stored_user(documents, other),
        stored_index(documents.insert(user_key(uuid), record)) == stored_index(documents),
        stored_index(documents.remove(user_key(uuid))) == stored_index(documents),
{
    lemma_user_keys(uuid, other);
}

/// Writing the index leaves every user as it was.
pub proof fn lemma_index_stands_alone(
    documents: Map<Seq<char>, DocumentView>,
    index: DocumentView,
    uuid: Seq<char>,
)
    ensures
        stored_user(documents.insert(index_key(), index), uuid) == stored_user(documents, uuid),
{
    lemma_user_keys(uuid, uuid);
}

/// After a user was deleted it is not there: a second deletion finds nothing
/// and changes nothing.
pub proof fn lemma_delete_is_idempotent(documents: Map<Seq<char>, DocumentView>, uuid: Seq<char>)
    ensures
        !documents.remove(user_key(uuid)).contains_key(user_key(uuid)),
        documents.remove(user_key(uuid)).remove(user_key(uuid)) == documents.remove(
            user_key(uuid),
        ),
        stored_user(documents.remove(user_key(uuid)), uuid) is None,
{
    assert(documents.remove(user_key(uuid)).remove(user_key(uuid)) =~= documents.remove(
        user_key(uuid),
    ));
}

/// A record that does not decode counts as no user.
pub proof fn lemma_undecodable_is_absent(
    documents: Map<Seq<char>, DocumentView>,
    uuid: Seq<char>,
    record: DocumentView,
)
    requires
        decode_user(record) is None,
    ensures
        stored_user(documents.insert(user_key(uuid), record), uuid) is None,
{
}

/// The stored index never holds a public key twice.
pub proof fn lemma_stored_index_unique(documents: Map<Seq<char>, DocumentView>)
    ensures
        unique_keys(stored_index(documents)),
{
    if documents.contains_key(index_key()) {
        match documents[index_key()] {
            DocumentView::Object(members) => {
                lemma_collect_unique(members);
            },
            _ => {},
        }
    }
}

/// An index with distinct keys that was stored is the index that is read.
pub proof fn lemma_stored_index_is_read(
    documents: Map<Seq<char>, DocumentView>,
    entries: Seq<(Seq<char>, Seq<char>)>,
)
    requires
        unique_keys(entries),
    ensures
        stored_index(documents.insert(index_key(), encode_index(entries))) == entries,
{
    lemma_decode_encode_index(entries);
}

/// After a registration the public key resolves to the identifier that was
/// registered, and every other key to what it resolved to before.
pub proof fn lemma_registered_key_resolves(
    documents: Map<Seq<char>, DocumentView>,
    pub_key: Seq<char>,
    uuid: Seq<char>,
    other: Seq<char>,
)
    ensures
        ({
            let after = documents.insert(
                index_key(),
                encode_index(upsert(stored_index(documents), pub_key, uuid)),
            );
            &&& stored_index(after) == upsert(stored_index(documents), pub_key, uuid)
            &&& lookup(stored_index(after), pub_key) == Some(uuid)
            &&& other != pub_key ==> lookup(stored_index(after), other) == lookup(
                stored_index(documents),
                other,
            )
        }),
{
    let before = stored_index(documents);
    lemma_stored_index_unique(documents);
    lemma_upsert_unique(before, pub_key, uuid);
    lemma_stored_index_is_read(documents, upsert(before, pub_key, uuid));
    lemma_lookup_upsert(before, pub_key, uuid, pub_key);
    lemma_lookup_upsert(before, pub_key, uuid, other);
}

/// Of two registrations of one public key the later one wins.
pub proof fn lemma_last_registration_wins(
    documents: Map<Seq<char>, DocumentView>,
    pub_key: Seq<char>,
    first: Seq<char>,
    second: Seq<char>,
)
    ensures
        ({
            let once = documents.insert(
                index_key(),
                encode_index(upsert(stored_index(documents), pub_key, first)),
            );
            let twice = once.insert(
                index_key(),
                encode_index(upsert(stored_index(once), pub_key, second)),
            );
            lookup(stored_index(twice), pub_key) == Some(second)
        }),
{
    let once = documents.insert(
        index_key(),
        encode_index(upsert(stored_index(documents), pub_key, first)),
    );
    lemma_registered_key_resolves(once, pub_key, second, pub_key);
}

/// After its entry was taken out a public key resolves to nothing, and every
/// other key to what it resolved to before.
pub proof fn lemma_removed_key_is_unregistered(
    documents: Map<Seq<char>, DocumentView>,
    pub_key: Seq<char>,
    other: Seq<char>,
)
    ensures
        ({
            let after = documents.insert(
                index_key(),
                encode_index(without(stored_index(documents), pub_key)),
            );
            &&& lookup(stored_index(after), pub_key) is None
            &&& other != pub_key ==> lookup(stored_index(after), other) == lookup(
                stored_index(documents),
                other,
            )
        }),
{
    let before = stored_index(documents);
    lemma_stored_index_unique(documents);
    lemma_without_unique(before, pub_key);
    lemma_stored_index_is_read(documents, without(before, pub_key));
    lemma_lookup_without(before, pub_key, pub_key);
    lemma_lookup_without(before, pub_key, other);
}

/// After a user was created and its public key registered, the identifier
/// gives the user and the public key gives the identifier.
pub proof fn lemma_created_user_is_indexed(documents: Map<Seq<char>, DocumentView>, user: UserView)
    ensures
        ({
            let recorded = documents.insert(user_key(user.uuid), encode_user(user));
            let after = recorded.insert(
                index_key(),
                encode_index(upsert(stored_index(recorded), user.pub_key, user.uuid)),
            );
            &&& stored_user(after, user.uuid) == Some(user)
            &&& lookup(stored_index(after), user.pub_key) == Some(user.uuid)
        }),
{
    let recorded = documents.insert(user_key(user.uuid), encode_user(user));
    lemma_stored_user_is_read(documents, user);
    lemma_index_stands_alone(
        recorded,
        encode_index(upsert(stored_index(recorded), user.pub_key, user.uuid)),
        user.uuid,
    );
    lemma_registered_key_resolves(recorded, user.pub_key, user.uuid, user.pub_key);
}

/// After a user was deleted and the entry of its public key taken out, the
/// identifier gives no user and the public key no identifier.
pub proof fn lemma_deleted_user_is_unindexed(
    documents: Map<Seq<char>, DocumentView>,
    uuid: Seq<char>,
    pub_key: Seq<char>,
)
    ensures
        ({
            let deleted = documents.remove(user_key(uuid));
            let after = deleted.insert(
                index_key(),
                encode_index(without(stored_index(deleted), pub_key)),
            );
            &&& stored_user(after, uuid) is None
            &&& lookup(stored_index(after), pub_key) is None
        }),
{
    let deleted = documents.remove(user_key(uuid));
    lemma_delete_is_idempotent(documents, uuid);
    lemma_index_stands_alone(
        deleted,
        encode_index(without(stored_index(deleted), pub_key)),
        uuid,
    );
    lemma_removed_key_is_unregistered(deleted, pub_key, pub_key);
}

} // verus!
