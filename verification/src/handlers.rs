//! The mutating requests of the directory, each authenticated first, and the
//! answers that go back to the transport.

use vstd::prelude::*;
use crate::assoc::{upsert, without};
use crate::error::Error;
use crate::auth::{authenticate, authenticated};
use crate::pub_keys::encode_index;
use crate::storage::StorageClient;
use crate::user::{encode_user, outcome_view, user_key, User, UserView};
use crate::user_client::{index_key, stored_index, stored_user, UserCLient};

verus! {

/// A request to create a user.
#[derive(Debug, PartialEq, Eq)]
pub struct CreateUserRequest {
    pub pub_key: String,
    pub hash: String,
}

/// A request to delete a user, signed over timestamp, identifier and hash.
#[derive(Debug, PartialEq, Eq)]
pub struct DeleteUserRequest {
    pub timestamp: String,
    pub user_uuid: String,
    pub hash: String,
    pub signature: String,
}

/// A request to give a user a new hash, signed over timestamp, identifier and
/// the new hash.
#[derive(Debug, PartialEq, Eq)]
pub struct UpdateHashRequest {
    pub timestamp: String,
    pub user_uuid: String,
    pub new_hash: String,
    pub signature: String,
}

/// An answer to the transport.
#[derive(Debug, PartialEq, Eq)]
pub enum Response {
    Success { code: u16 },
    AuthError,
    NotFound,
    ServerError { message: String },
}

/// The mathematical value of a [`Response`].
pub enum ResponseView {
    Success { code: u16 },
    AuthError,
    NotFound,
    ServerError { message: Seq<char> },
}

impl View for Response {
    type V = ResponseView;

    open spec fn view(&self) -> ResponseView {
        match self {
            Response::Success { code } => ResponseView::Success { code: *code },
            Response::AuthError => ResponseView::AuthError,
            Response::NotFound => ResponseView::NotFound,
            Response::ServerError { message } => ResponseView::ServerError { message: message@ },
        }
    }
}

/// The answer that stands for an error.
pub open spec fn error_response(error: Error) -> ResponseView {
    match error {
        Error::NotFound => ResponseView::NotFound,
        Error::Auth => ResponseView::AuthError,
        Error::Serialization => ResponseView::ServerError { message: "Failed to serialize"@ },
        Error::Storage => ResponseView::ServerError { message: "Failed to store"@ },
    }
}

impl Response {
    /// Success, with its status code.
    pub fn success(code: u16) -> (response: Self)
        ensures
            response@ == (ResponseView::Success { code }),
    {
        Response::Success { code }
    }

    /// The request was not authorized.
    pub fn auth_error() -> (response: Self)
        ensures
            response@ == ResponseView::AuthError,
    {
        Response::AuthError
    }

    /// The user is not there.
    pub fn not_found() -> (response: Self)
        ensures
            response@ == ResponseView::NotFound,
    {
        Response::NotFound
    }

    /// The server failed, with a short cause.
    pub fn server_error(message: String) -> (response: Self)
        ensures
            response@ == (ResponseView::ServerError { message: message@ }),
    {
        Response::ServerError { message }
    }

    /// The answer that stands for `error`.
    pub fn from_error(error: Error) -> (response: Self)
        ensures
            response@ == error_response(error),
    {
        match error {
            Error::NotFound => Response::not_found(),
            Error::Auth => Response::auth_error(),
            Error::Serialization => Response::server_error("Failed to serialize".to_owned()),
            Error::Storage => Response::server_error("Failed to store".to_owned()),
        }
    }
}

/// Creates a user with a fresh identifier, and then registers the user's
/// public key for that identifier.
///
/// The two are written one after the other. Where the index cannot be
/// written, the record stays without its entry.
pub fn create_user_handler<S: StorageClient>(
    user_client: &mut UserCLient<S>,
    body: &CreateUserRequest,
) -> (created: Result<User, Error>)
    ensures
        old(user_client).never_fails() ==> created is Ok,
        final(user_client).never_fails() == old(user_client).never_fails(),
        match created {
            Ok(user) => {
                let recorded = old(user_client).documents().insert(
                    user_key(user@.uuid),
                    encode_user(user@),
                );
                &&& user@.uuid.len() == 36
                &&& user@.pub_key == body.pub_key@
                &&& user@.hash == body.hash@
                &&& final(user_client).documents() == recorded.insert(
                    index_key(),
                    encode_index(upsert(stored_index(recorded), body.pub_key@, user@.uuid)),
                )
            },
            Err(error) => {
                &&& error == Error::Storage
                &&& exists|uuid: Seq<char>|
                    uuid.len() == 36 && #[trigger] final(user_client).documents().remove(
                        user_key(uuid),
                    ).remove(index_key()) == old(user_client).documents().remove(
                        user_key(uuid),
                    ).remove(index_key())
            },
        },
{
    let user = match user_client.put_user(body.pub_key.as_str(), body.hash.as_str()) {
        Ok(user) => user,
        Err(error) => {
            proof {
                let before = old(user_client).documents();
                let after = user_client.documents();
                let uuid = choose|uuid: Seq<char>|
                    uuid.len() == 36 && #[trigger] after.remove(user_key(uuid)) == before.remove(
                        user_key(uuid),
                    );
                assert(after.remove(user_key(uuid)).remove(index_key()) == before.remove(
                    user_key(uuid),
                ).remove(index_key()));
            }
            return Err(error);
        },
    };
    let ghost recorded = user_client.documents();
    match user_client.update_keys(body.pub_key.as_str(), user.uuid.as_str()) {
        Ok(_) => Ok(user),
        Err(error) => {
            proof {
                let before = old(user_client).documents();
                let after = user_client.documents();
                let record = user_key(user@.uuid);
                assert(after.remove(record).remove(index_key()) =~= after.remove(
                    index_key(),
                ).remove(record));
                assert(recorded.remove(index_key()).remove(record) =~= before.remove(
                    record,
                ).remove(index_key()));
            }
            Err(error)
        },
    }
}

/// The user that is stored for `uuid`, or that there is none.
pub fn get_user_handler<S: StorageClient>(user_client: &UserCLient<S>, uuid: &str) -> (found: Result<
    User,
    Error,
>)
    ensures
        outcome_view(found) == match stored_user(user_client.documents(), uuid@) {
            Some(user) => Ok::<UserView, Error>(user),
            None => Err::<UserView, Error>(Error::NotFound),
        },
{
    match user_client.get_user(uuid) {
        Some(user) => Ok(user),
        None => Err(Error::NotFound),
    }
}

/// Deletes the user that the request names, and the entry of that user's
/// public key in the index, where the request is authentic.
///
/// A request that is not changes nothing. Where the record that the
/// stored user names is not there, nothing changes either. Where the index
/// cannot be written, the record is gone all the same.
pub fn delete_user_handler<S: StorageClient>(
    user_client: &mut UserCLient<S>,
    body: &DeleteUserRequest,
) -> (response: Response)
    ensures
        final(user_client).never_fails() == old(user_client).never_fails(),
        match authenticated(
            old(user_client).documents(),
            body.timestamp@,
            body.user_uuid@,
            body.hash@,
            body.signature@,
        ) {
            Err(error) => {
                &&& response@ == if error == Error::NotFound {
                    ResponseView::NotFound
                } else {
                    ResponseView::AuthError
                }
                &&& final(user_client).documents() == old(user_client).documents()
            },
            Ok(user) => {
                let before = old(user_client).documents();
                let after = final(user_client).documents();
                let deleted = before.remove(user_key(user.uuid));
                if !before.contains_key(user_key(user.uuid)) {
                    &&& response@ == (ResponseView::ServerError {
                        message: "Failed to delete user"@,
                    })
                    &&& after == before
                } else {
                    ||| {
                        &&& response@ == (ResponseView::Success { code: 202 })
                        &&& after == deleted.insert(
                            index_key(),
                            encode_index(without(stored_index(deleted), user.pub_key)),
                        )
                    }
                    ||| {
                        &&& !old(user_client).never_fails()
                        &&& response@ == (ResponseView::ServerError {
                            message: "Failed to delete key"@,
                        })
                        &&& after.remove(index_key()) == deleted.remove(index_key())
                    }
                }
            },
        },
{
    let found_user = match authenticate(
        &*user_client,
        body.timestamp.as_str(),
        body.user_uuid.as_str(),
        body.hash.as_str(),
        body.signature.as_str(),
    ) {
        Ok(user) => user,
        Err(Error::NotFound) => {
            return Response::not_found();
        },
        Err(_) => {
            return Response::auth_error();
        },
    };
    if user_client.delete_user(found_user.uuid.as_str()) {
        if let Err(_) = user_client.remove_key(found_user.pub_key.as_str()) {
            return Response::server_error("Failed to delete key".to_owned());
        }
        Response::success(202)
    } else {
        assert(user_client.documents() =~= old(user_client).documents());
        Response::server_error("Failed to delete user".to_owned())
    }
}

/// Gives the user that the request names the new hash, where the request is
/// authentic. A request that is not changes nothing.
pub fn update_hash_handler<S: StorageClient>(
    user_client: &mut UserCLient<S>,
    body: &UpdateHashRequest,
) -> (updated: Result<User, Error>)
    ensures
        final(user_client).never_fails() == old(user_client).never_fails(),
        old(user_client).never_fails() ==> updated != Err::<User, Error>(Error::Storage),
        match authenticated(
            old(user_client).documents(),
            body.timestamp@,
            body.user_uuid@,
            body.new_hash@,
            body.signature@,
        ) {
            Err(error) => {
                &&& updated == Err::<User, Error>(error)
                &&& final(user_client).documents() == old(user_client).documents()
            },
            Ok(before) => match updated {
                Ok(user) => {
                    &&& user@ == (UserView { hash: body.new_hash@, ..before })
                    &&& final(user_client).documents() == old(user_client).documents().insert(
                        user_key(body.user_uuid@),
                        encode_user(user@),
                    )
                },
                Err(error) => {
                    &&& error == Error::Storage
                    &&& final(user_client).documents().remove(user_key(body.user_uuid@)) == old(
                        user_client,
                    ).documents().remove(user_key(body.user_uuid@))
                },
            },
        },
{
    match authenticate(
        &*user_client,
        body.timestamp.as_str(),
        body.user_uuid.as_str(),
        body.new_hash.as_str(),
        body.signature.as_str(),
    ) {
        Ok(_) => user_client.update_hash(body.user_uuid.as_str(), body.new_hash.as_str()),
        Err(error) => Err(error),
    }
}

} // verus!
