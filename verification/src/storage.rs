//! The storage contract, the client that forwards to one backend, and a
//! backend that keeps its documents in memory.

use vstd::prelude::*;
use crate::assoc::{as_map, lemma_upsert_as_map, lemma_without_as_map};
use crate::document::{Document, DocumentView};
use crate::table::Table;

verus! {

/// A backend could not write a document.
#[derive(Debug, Clone, Copy, PartialEq, Eq)]
pub struct StorageError;

/// A key-value store of documents under text keys.
///
/// A read never fails: a key without a readable document is a key that is not
/// there. A write that fails may have lost the document under its own key,
/// and touches no other key.
pub trait StorageClient {
    /// The documents held, by key.
    ///
    /// A backend that keeps its documents outside of its own value, in files
    /// or behind a network, cannot say here what it holds and leaves this as
    /// it is. For such a backend `documents` stands for what that medium
    /// holds, and the contracts of the three operations are what its author
    /// promises.
    open spec fn documents(&self) -> Map<Seq<char>, DocumentView> {
        arbitrary()
    }

    /// Whether every write of this backend succeeds. A backend that does not
    /// say so promises nothing.
    open spec fn never_fails(&self) -> bool {
        false
    }

    /// The document under `key`.
    fn get(&self, key: &str) -> (document: Option<Document>)
        ensures
            match document {
                Some(d) => self.documents().contains_key(key@) && self.documents()[key@] == d@,
                None => !self.documents().contains_key(key@),
            },
    ;

    /// Writes `value` under `key`, in the place of what was there.
    fn set(&mut self, key: &str, value: Document) -> (written: Result<(), StorageError>)
        ensures
            old(self).never_fails() ==> written is Ok,
            final(self).never_fails() == old(self).never_fails(),
            written is Ok ==> final(self).documents() == old(self).documents().insert(
                key@,
                value@,
            ),
            written is Err ==> final(self).documents().remove(key@) == old(
                self,
            ).documents().remove(key@),
    ;

    /// Removes the document under `key`, and says whether there was one.
    fn delete(&mut self, key: &str) -> (removed: bool)
        ensures
            final(self).never_fails() == old(self).never_fails(),
            removed == old(self).documents().contains_key(key@),
            final(self).documents() == old(self).documents().remove(key@),
    ;
}

/// The one storage handle of a directory: it owns a backend and forwards to it.
#[derive(Debug)]
pub struct Client<S: StorageClient> {
    pub storage_client: S,
}

impl<S: StorageClient> Client<S> {
    /// A client of `storage_client`.
    pub fn new(storage_client: S) -> (client: Self)
        ensures
            client.storage_client == storage_client,
    {
        Client { storage_client }
    }

    /// The documents held by the backend, by key.
    pub open spec fn documents(&self) -> Map<Seq<char>, DocumentView> {
        self.storage_client.documents()
    }

    /// Whether every write of the backend succeeds.
    pub open spec fn never_fails(&self) -> bool {
        self.storage_client.never_fails()
    }

    /// The document under `key`.
    pub fn get(&self, key: &str) -> (document: Option<Document>)
        ensures
            match document {
                Some(d) => self.documents().contains_key(key@) && self.documents()[key@] == d@,
                None => !self.documents().contains_key(key@),
            },
    {
        self.storage_client.get(key)
    }

    /// Writes `value` under `key`, in the place of what was there.
    pub fn set(&mut self, key: &str, value: Document) -> (written: Result<(), StorageError>)
        ensures
            old(self).never_fails() ==> written is Ok,
            final(self).never_fails() == old(self).never_fails(),
            written is Ok ==> final(self).documents() == old(self).documents().insert(
                key@,
                value@,
            ),
            written is Err ==> final(self).documents().remove(key@) == old(
                self,
            ).documents().remove(key@),
    {
        self.storage_client.set(key, value)
    }

    /// Removes the document under `key`, and says whether there was one.
    pub fn delete(&mut self, key: &str) -> (removed: bool)
        ensures
            final(self).never_fails() == old(self).never_fails(),
            removed == old(self).documents().contains_key(key@),
            final(self).documents() == old(self).documents().remove(key@),
    {
        self.storage_client.delete(key)
    }
}

/// A backend that keeps its documents in memory. Its writes never fail.
#[derive(Debug)]
pub struct MemoryStorageClient {
    table: Table<Document>,
}

impl MemoryStorageClient {
    /// A backend that holds nothing.
    pub fn new() -> (backend: Self)
        ensures
            backend.documents() == Map::<Seq<char>, DocumentView>::empty(),
    {
        let backend = MemoryStorageClient { table: Table::new() };
        assert(backend.documents() =~= Map::<Seq<char>, DocumentView>::empty());
        backend
    }
}

impl StorageClient for MemoryStorageClient {
    closed spec fn documents(&self) -> Map<Seq<char>, DocumentView> {
        as_map(self.table@)
    }

    open spec fn never_fails(&self) -> bool {
        true
    }

    fn get(&self, key: &str) -> (document: Option<Document>) {
        match self.table.get(key) {
            Some(d) => Some(d.clone()),
            None => None,
        }
    }

    fn set(&mut self, key: &str, value: Document) -> (written: Result<(), StorageError>) {
        proof {
            lemma_upsert_as_map(self.table@, key@, value@);
        }
        self.table.put(key, value);
        Ok(())
    }

    fn delete(&mut self, key: &str) -> (removed: bool) {
        let removed = self.table.remove(key);
        proof {
            lemma_without_as_map(old(self).table@, key@);
        }
        removed
    }
}

} // verus!
