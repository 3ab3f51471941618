//! The index from public keys to user identifiers, and the document that
//! holds it.

use vstd::prelude::*;
use crate::assoc::{has_key, keyed, lemma_upsert_unique, lookup, unique_keys, upsert, without};
use crate::document::{Document, DocumentView};
use crate::table::Table;

verus! {

/// The index: for each public key that was registered, the identifier that
/// was registered for it last.
#[derive(Debug, PartialEq, Eq)]
pub struct PubKeys {
    table: Table<String>,
}

impl View for PubKeys {
    type V = Seq<(Seq<char>, Seq<char>)>;

    closed spec fn view(&self) -> Seq<(Seq<char>, Seq<char>)> {
        self.table@
    }
}

/// The document that holds an index: an object with one text member for each
/// entry, named by the public key.
pub open spec fn encode_index(entries: Seq<(Seq<char>, Seq<char>)>) -> DocumentView {
    DocumentView::Object(
        Seq::new(entries.len(), |i: int| (entries[i].0, DocumentView::Text(entries[i].1))),
    )
}

/// The entries that text members give, read in order: a later member with the
/// name of an earlier one takes its place.
pub open spec fn collect_index(members: Seq<(Seq<char>, DocumentView)>) -> Seq<
    (Seq<char>, Seq<char>),
>
    decreases members.len(),
{
    if members.len() == 0 {
        Seq::empty()
    } else {
        upsert(
            collect_index(members.drop_last()),
            members.last().0,
            members.last().1.text()->0,
        )
    }
}

/// Every member is a text.
pub open spec fn all_texts(members: Seq<(Seq<char>, DocumentView)>) -> bool {
    forall|i: int| 0 <= i < members.len() ==> (#[trigger] members[i]).1 is Text
}

/// The index that a document holds, where it is an object of texts.
pub open spec fn decode_index(document: DocumentView) -> Option<Seq<(Seq<char>, Seq<char>)>> {
    match document {
        DocumentView::Object(members) => if all_texts(members) {
            Some(collect_index(members))
        } else {
            None
        },
        _ => None,
    }
}

/// What is collected has distinct keys.
pub proof fn lemma_collect_unique(members: Seq<(Seq<char>, DocumentView)>)
    ensures
        unique_keys(collect_index(members)),
    decreases members.len(),
{
    if members.len() > 0 {
        lemma_collect_unique(members.drop_last());
        lemma_upsert_unique(
            collect_index(members.drop_last()),
            members.last().0,
            members.last().1.text()->0,
        );
    }
}

/// Decoding the document of an index with distinct keys gives that index back.
pub proof fn lemma_decode_encode_index(entries: Seq<(Seq<char>, Seq<char>)>)
    requires
        unique_keys(entries),
    ensures
        decode_index(encode_index(entries)) == Some(entries),
    decreases entries.len(),
{
    let members = encode_index(entries)->Object_0;
    assert(all_texts(members));
    if entries.len() == 0 {
        assert(collect_index(members) =~= entries);
    } else {
        let shorter = entries.drop_last();
        lemma_decode_encode_index(shorter);
        assert(encode_index(shorter)->Object_0 =~= members.drop_last());
        let last = entries.last();
        assert forall|i: int| 0 <= i < shorter.len() implies #[trigger] shorter[i].0 != last.0 by {
            assert(entries[i].0 != entries[entries.len() - 1].0);
        }
        assert(!has_key(shorter, last.0));
        assert(shorter.push((last.0, last.1)) =~= entries);
    }
}

impl Default for PubKeys {
    fn default() -> (keys: Self)
        ensures
            keys@ == Seq::<(Seq<char>, Seq<char>)>::empty(),
    {
        PubKeys { table: Table::new() }
    }
}

impl Clone for PubKeys {
    fn clone(&self) -> (copy: Self)
        ensures
            copy@ == self@,
    {
        let mut copy = PubKeys { table: Table::new() };
        let n = self.table.len();
        let mut i: usize = 0;
        while i < n
            invariant
                n == self@.len(),
                unique_keys(self@),
                i <= n,
                copy@ == self@.take(i as int),
            decreases n - i,
        {
            proof {
                let done = self@.take(i as int);
                assert forall|j: int| 0 <= j < done.len() implies #[trigger] done[j].0
                    != self@[i as int].0 by {
                    assert(self@[j].0 != self@[i as int].0);
                }
                assert(!has_key(done, self@[i as int].0));
                assert(done.push(self@[i as int]) =~= self@.take(i + 1));
            }
            copy.table.put(self.table.key_at(i).as_str(), self.table.value_at(i).clone());
            i += 1;
        }
        assert(self@.take(n as int) =~= self@);
        copy
    }
}

impl PubKeys {
    /// The number of public keys that are registered.
    pub fn len(&self) -> (n: usize)
        ensures
            n == self@.len(),
            unique_keys(self@),
    {
        self.table.len()
    }

    /// Registers `user_uuid` for `pub_key`, in the place of what was
    /// registered for that key before.
    pub fn add_user_uuid(&mut self, user_uuid: &str, pub_key: &str)
        ensures
            final(self)@ == upsert(old(self)@, pub_key@, user_uuid@),
    {
        self.table.put(pub_key, user_uuid.to_owned());
    }

    /// The identifier registered for `pub_key`.
    pub fn get_user_uuid(&self, pub_key: &str) -> (user_uuid: Option<&String>)
        ensures
            match user_uuid {
                Some(uuid) => lookup(self@, pub_key@) == Some(uuid@),
                None => lookup(self@, pub_key@) is None,
            },
    {
        self.table.get(pub_key)
    }

    /// Takes out the entry of `pub_key`, and says whether there was one.
    pub fn remove_key(&mut self, pub_key: &str) -> (removed: bool)
        ensures
            removed == has_key(old(self)@, pub_key@),
            final(self)@ == without(old(self)@, pub_key@),
    {
        self.table.remove(pub_key)
    }

    /// The document that holds this index.
    pub fn to_document(&self) -> (document: Document)
        ensures
            unique_keys(self@),
            document@ == encode_index(self@),
    {
        let mut members: Vec<(String, Document)> = Vec::new();
        let n = self.table.len();
        let mut i: usize = 0;
        while i < n
            invariant
                n == self@.len(),
                i <= n,
                members@.len() == i,
                forall|j: int|
                    0 <= j < i ==> (#[trigger] members@[j]).0@ == self@[j].0 && members@[j].1@
                        == DocumentView::Text(self@[j].1),
            decreases n - i,
        {
            members.push(
                (self.table.key_at(i).clone(), Document::Text(self.table.value_at(i).clone())),
            );
            i += 1;
        }
        let document = Document::Object(members);
        assert(document@->Object_0 =~= encode_index(self@)->Object_0);
        document
    }

    /// The index that `document` holds, where it holds one.
    pub fn from_document(document: &Document) -> (keys: Option<Self>)
        ensures
            match keys {
                Some(k) => decode_index(document@) == Some(k@),
                None => decode_index(document@) is None,
            },
    {
        match document {
            Document::Object(members) => {
                let ghost all = document@->Object_0;
                assert(all =~= keyed(members@));
                let mut keys = PubKeys { table: Table::new() };
                let mut i: usize = 0;
                while i < members.len()
                    invariant
                        document@ == DocumentView::Object(all),
                        all == keyed(members@),
                        i <= members.len(),
                        all_texts(all.take(i as int)),
                        keys@ == collect_index(all.take(i as int)),
                    decreases members.len() - i,
                {
                    match members[i].1.text() {
                        Some(user_uuid) => {
                            proof {
                                let next = all.take(i + 1);
                                assert(next.drop_last() =~= all.take(i as int));
                                assert(next.last() == all[i as int]);
                                assert forall|j: int| 0 <= j < next.len() implies (
                                #[trigger] next[j]).1 is Text by {
                                    if j < i {
                                        assert(all.take(i as int)[j].1 is Text);
                                    }
                                }
                            }
                            keys.table.put(members[i].0.as_str(), user_uuid.clone());
                        },
                        None => {
                            assert(!(all[i as int].1 is Text));
                            assert(!all_texts(all));
                            return None;
                        },
                    }
                    i += 1;
                }
                assert(all.take(members.len() as int) =~= all);
                Some(keys)
            },
            _ => None,
        }
    }
}

} // verus!
