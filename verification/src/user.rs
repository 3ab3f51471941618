//! User records and the documents that hold them.

use vstd::prelude::*;
use crate::assoc::{is_first_at, lemma_first_is};
use crate::document::{Document, DocumentView};
use crate::error::Error;

verus! {

/// A user of the directory.
///
/// The identifier is made by the directory when the user is created. The
/// public key never changes afterwards; the hash may.
#[derive(Debug, PartialEq, Eq)]
pub struct User {
    pub uuid: String,
    pub pub_key: String,
    pub hash: String,
}

/// The mathematical value of a [`User`].
pub struct UserView {
    pub uuid: Seq<char>,
    pub pub_key: Seq<char>,
    pub hash: Seq<char>,
}

impl View for User {
    type V = UserView;

    open spec fn view(&self) -> UserView {
        UserView { uuid: self.uuid@, pub_key: self.pub_key@, hash: self.hash@ }
    }
}

/// The value of a user that may not be there.
pub open spec fn found_view(user: Option<User>) -> Option<UserView> {
    match user {
        Some(u) => Some(u@),
        None => None,
    }
}

/// The value of the outcome of an operation that gives a user.
pub open spec fn outcome_view(outcome: Result<User, Error>) -> Result<UserView, Error> {
    match outcome {
        Ok(u) => Ok(u@),
        Err(error) => Err(error),
    }
}

/// The key under which the record of the user `uuid` is stored.
pub open spec fn user_key(uuid: Seq<char>) -> Seq<char> {
    "user:"@ + uuid
}

/// The document that holds a user: an object of three texts.
pub open spec fn encode_user(user: UserView) -> DocumentView {
    DocumentView::Object(
        seq![
            ("uuid"@, DocumentView::Text(user.uuid)),
            ("pub_key"@, DocumentView::Text(user.pub_key)),
            ("hash"@, DocumentView::Text(user.hash)),
        ],
    )
}

/// The user that a document holds: its three text members, where it has them.
pub open spec fn decode_user(document: DocumentView) -> Option<UserView> {
    match (
        document.text_member("uuid"@),
        document.text_member("pub_key"@),
        document.text_member("hash"@),
    ) {
        (Some(uuid), Some(pub_key), Some(hash)) => Some(UserView { uuid, pub_key, hash }),
        _ => None,
    }
}

/// Decoding the document of a user gives that user back.
pub proof fn lemma_decode_encode_user(user: UserView)
    ensures
        decode_user(encode_user(user)) == Some(user),
{
    reveal_strlit("uuid");
    reveal_strlit("pub_key");
    reveal_strlit("hash");
    let members = encode_user(user)->Object_0;
    assert("uuid"@[0] != "hash"@[0]);
    assert("uuid"@.len() != "pub_key"@.len());
    assert("hash"@.len() != "pub_key"@.len());
    assert(is_first_at(members, "uuid"@, 0));
    assert(is_first_at(members, "pub_key"@, 1));
    assert(is_first_at(members, "hash"@, 2));
    lemma_first_is(members, "uuid"@, 0);
    lemma_first_is(members, "pub_key"@, 1);
    lemma_first_is(members, "hash"@, 2);
}

/// Distinct users are stored under distinct keys, and never under `"keys"`.
pub proof fn lemma_user_keys(a: Seq<char>, b: Seq<char>)
    ensures
        user_key(a) == user_key(b) <==> a == b,
        user_key(a) != "keys"@,
{
    reveal_strlit("user:");
    reveal_strlit("keys");
    assert(user_key(a)[0] == 'u');
    assert("keys"@[0] == 'k');
    if user_key(a) == user_key(b) {
        assert(a =~= user_key(a).subrange(5, user_key(a).len() as int));
        assert(b =~= user_key(b).subrange(5, user_key(b).len() as int));
    }
}

impl Clone for User {
    fn clone(&self) -> (copy: Self)
        ensures
            copy@ == self@,
    {
        User { uuid: self.uuid.clone(), pub_key: self.pub_key.clone(), hash: self.hash.clone() }
    }
}

impl User {
    /// The user with these three values.
    pub fn new(uuid: String, pub_key: String, hash: String) -> (user: Self)
        ensures
            user@ == (UserView { uuid: uuid@, pub_key: pub_key@, hash: hash@ }),
    {
        User { uuid, pub_key, hash }
    }

    /// The document that holds this user.
    pub fn to_document(&self) -> (document: Document)
        ensures
            document@ == encode_user(self@),
    {
        let mut members: Vec<(String, Document)> = Vec::new();
        members.push(("uuid".to_owned(), Document::Text(self.uuid.clone())));
        members.push(("pub_key".to_owned(), Document::Text(self.pub_key.clone())));
        members.push(("hash".to_owned(), Document::Text(self.hash.clone())));
        let document = Document::Object(members);
        assert(document@->Object_0 =~= encode_user(self@)->Object_0) by {
            assert(members@[0].1@ == DocumentView::Text(self.uuid@));
            assert(members@[1].1@ == DocumentView::Text(self.pub_key@));
            assert(members@[2].1@ == DocumentView::Text(self.hash@));
        }
        document
    }

    /// The user that `document` holds, where it holds one.
    pub fn from_document(document: &Document) -> (user: Option<Self>)
        ensures
            found_view(user) == decode_user(document@),
    {
        let uuid = match document.text_member("uuid") {
            Some(text) => text,
            None => {
                return None;
            },
        };
        let pub_key = match document.text_member("pub_key") {
            Some(text) => text,
            None => {
                return None;
            },
        };
        let hash = match document.text_member("hash") {
            Some(text) => text,
            None => {
                return None;
            },
        };
        Some(User { uuid: uuid.clone(), pub_key: pub_key.clone(), hash: hash.clone() })
    }
}

} // verus!
