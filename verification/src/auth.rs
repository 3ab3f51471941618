//! Authentication of requests: a request passes where its signature was made
//! over its own content with the key of the user it names.

use vstd::prelude::*;
use vstd::string::*;
use crate::document::DocumentView;
use crate::error::Error;
use crate::signing::{
    public_key_is_well_formed, public_key_parses, signature_is_well_formed, signature_matches,
    signature_parses, signature_verifies,
};
use crate::storage::StorageClient;
use crate::user::{found_view, outcome_view, User, UserView};
use crate::user_client::{stored_user, UserCLient};

verus! {

/// The message that a request signs: its timestamp, the identifier of the
/// user and the payload, one after the other and with nothing between them.
pub open spec fn signed_message(
    timestamp: Seq<char>,
    uuid: Seq<char>,
    payload: Seq<char>,
) -> Seq<char> {
    timestamp + uuid + payload
}

/// The answer to a request, given what was found of it.
///
/// A signature that does not parse is refused before the user is looked for.
/// Then a missing user is reported as such. A stored key that does not parse
/// and a signature that does not match are refused alike.
pub open spec fn verdict_of(
    signature_ok: bool,
    user: Option<UserView>,
    key_ok: bool,
    matches: bool,
) -> Result<UserView, Error> {
    if !signature_ok {
        Err(Error::Auth)
    } else {
        match user {
            None => Err(Error::NotFound),
            Some(found) => if key_ok && matches {
                Ok(found)
            } else {
                Err(Error::Auth)
            },
        }
    }
}

/// The answer to a request, given the documents of the directory.
pub open spec fn authenticated(
    documents: Map<Seq<char>, DocumentView>,
    timestamp: Seq<char>,
    uuid: Seq<char>,
    payload: Seq<char>,
    signature: Seq<char>,
) -> Result<UserView, Error> {
    match stored_user(documents, uuid) {
        None => verdict_of(signature_parses(signature), None, false, false),
        Some(user) => verdict_of(
            signature_parses(signature),
            Some(user),
            public_key_parses(user.pub_key),
            signature_matches(signed_message(timestamp, uuid, payload), user.pub_key, signature),
        ),
    }
}

/// A user that is not stored is reported as not found, whether or not the
/// signature matches anything, as long as the signature parses.
pub proof fn lemma_missing_user(
    documents: Map<Seq<char>, DocumentView>,
    timestamp: Seq<char>,
    uuid: Seq<char>,
    payload: Seq<char>,
    signature: Seq<char>,
)
    requires
        stored_user(documents, uuid) is None,
        signature_parses(signature),
    ensures
        authenticated(documents, timestamp, uuid, payload, signature) == Err::<UserView, Error>(
            Error::NotFound,
        ),
{
}

/// The answer is never anything but the user, `Auth` or `NotFound`, and a
/// request passes only with the stored user whose key matched.
pub proof fn lemma_authenticated_user(
    documents: Map<Seq<char>, DocumentView>,
    timestamp: Seq<char>,
    uuid: Seq<char>,
    payload: Seq<char>,
    signature: Seq<char>,
)
    ensures
        match authenticated(documents, timestamp, uuid, payload, signature) {
            Ok(user) => {
                &&& stored_user(documents, uuid) == Some(user)
                &&& signature_parses(signature)
                &&& public_key_parses(user.pub_key)
                &&& signature_matches(
                    signed_message(timestamp, uuid, payload),
                    user.pub_key,
                    signature,
                )
            },
            Err(error) => error == Error::Auth || error == Error::NotFound,
        },
{
}

/// The message that a request signs.
pub fn message_of(timestamp: &str, uuid: &str, payload: &str) -> (message: String)
    ensures
        message@ == signed_message(timestamp@, uuid@, payload@),
{
    let mut message = timestamp.to_owned();
    message.append(uuid);
    message.append(payload);
    message
}

/// The answer to a request, given what was found of it.
pub fn verdict(signature_ok: bool, user: Option<User>, key_ok: bool, matches: bool) -> (outcome:
    Result<User, Error>)
    ensures
        outcome_view(outcome) == verdict_of(signature_ok, found_view(user), key_ok, matches),
        outcome matches Ok(u) ==> user == Some(u),
{
    if !signature_ok {
        Err(Error::Auth)
    } else {
        match user {
            None => Err(Error::NotFound),
            Some(found) => if key_ok && matches {
                Ok(found)
            } else {
                Err(Error::Auth)
            },
        }
    }
}

/// Authenticates a request: the user it names, where the signature is one
/// over the request's message under that user's stored key.
pub fn authenticate<S: StorageClient>(
    user_client: &UserCLient<S>,
    timestamp: &str,
    uuid: &str,
    payload: &str,
    signature: &str,
) -> (outcome: Result<User, Error>)
    ensures
        outcome_view(outcome) == authenticated(
            user_client.documents(),
            timestamp@,
            uuid@,
            payload@,
            signature@,
        ),
{
    let signature_ok = signature_is_well_formed(signature);
    let user = if signature_ok {
        user_client.get_user(uuid)
    } else {
        None
    };
    let key_ok = match &user {
        Some(found) => public_key_is_well_formed(found.pub_key.as_str()),
        None => false,
    };
    let matches = match &user {
        Some(found) => if signature_ok && key_ok {
            let message = message_of(timestamp, uuid, payload);
            signature_verifies(message.as_str(), found.pub_key.as_str(), signature)
        } else {
            false
        },
        None => false,
    };
    verdict(signature_ok, user, key_ok, matches)
}

} // verus!
