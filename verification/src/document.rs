//! Documents: the structured values a storage backend keeps under its keys.

use vstd::prelude::*;
use crate::assoc::{find, keyed, lemma_first_is, lookup};

verus! {

/// A structured, JSON-like value.
///
/// A number is held as its decimal text. The members of an object keep the
/// order in which they were written.
#[derive(Debug, PartialEq, Eq)]
pub enum Document {
    Null,
    Bool(bool),
    Number(String),
    Text(String),
    List(Vec<Document>),
    Object(Vec<(String, Document)>),
}

/// The mathematical value of a [`Document`].
pub enum DocumentView {
    Null,
    Bool(bool),
    Number(Seq<char>),
    Text(Seq<char>),
    List(Seq<DocumentView>),
    Object(Seq<(Seq<char>, DocumentView)>),
}

/// The value of a document: each text by its characters, each list and
/// object member by member.
pub open spec fn document_view(document: Document) -> DocumentView
    decreases document,
{
    match document {
        Document::Null => DocumentView::Null,
        Document::Bool(b) => DocumentView::Bool(b),
        Document::Number(n) => DocumentView::Number(n@),
        Document::Text(t) => DocumentView::Text(t@),
        Document::List(items) => DocumentView::List(
            Seq::new(
                items@.len(),
                |i: int|
                    if 0 <= i < items@.len() {
                        document_view(items@[i])
                    } else {
                        DocumentView::Null
                    },
            ),
        ),
        Document::Object(members) => DocumentView::Object(
            Seq::new(
                members@.len(),
                |i: int|
                    if 0 <= i < members@.len() {
                        (members@[i].0@, document_view(members@[i].1))
                    } else {
                        (Seq::empty(), DocumentView::Null)
                    },
            ),
        ),
    }
}

impl View for Document {
    type V = DocumentView;

    open spec fn view(&self) -> DocumentView {
        document_view(*self)
    }
}

impl DocumentView {
    /// The characters of a text; nothing for any other document.
    pub open spec fn text(self) -> Option<Seq<char>> {
        match self {
            DocumentView::Text(t) => Some(t),
            _ => None,
        }
    }

    /// The first member of an object that is called `name`; nothing where the
    /// document is no object or has no such member.
    pub open spec fn member(self, name: Seq<char>) -> Option<DocumentView> {
        match self {
            DocumentView::Object(members) => lookup(members, name),
            _ => None,
        }
    }

    /// The characters of the member called `name`, where that member is a text.
    pub open spec fn text_member(self, name: Seq<char>) -> Option<Seq<char>> {
        match self.member(name) {
            Some(member) => member.text(),
            None => None,
        }
    }
}

impl Document {
    /// The characters of a text.
    pub fn text(&self) -> (text: Option<&String>)
        ensures
            match text {
                Some(t) => self@.text() == Some(t@),
                None => self@.text() is None,
            },
    {
        match self {
            Document::Text(t) => Some(t),
            _ => None,
        }
    }

    /// The first member called `name`.
    pub fn member(&self, name: &str) -> (member: Option<&Document>)
        ensures
            match member {
                Some(m) => self@.member(name@) == Some(m@),
                None => self@.member(name@) is None,
            },
    {
        match self {
            Document::Object(members) => {
                assert(self@->Object_0 =~= keyed(members@));
                match find(members, name) {
                    Some(i) => {
                        proof {
                            lemma_first_is(keyed(members@), name@, i as int);
                        }
                        Some(&members[i].1)
                    },
                    None => None,
                }
            },
            _ => None,
        }
    }

    /// The characters of the member called `name`, where that member is a text.
    pub fn text_member(&self, name: &str) -> (text: Option<&String>)
        ensures
            match text {
                Some(t) => self@.text_member(name@) == Some(t@),
                None => self@.text_member(name@) is None,
            },
    {
        match self.member(name) {
            Some(member) => member.text(),
            None => None,
        }
    }
}

impl Clone for Document {
    fn clone(&self) -> (copy: Self)
        ensures
            copy@ == self@,
        decreases self,
    {
        match self {
            Document::Null => Document::Null,
            Document::Bool(b) => Document::Bool(*b),
            Document::Number(n) => Document::Number(n.clone()),
            Document::Text(t) => Document::Text(t.clone()),
            Document::List(items) => {
                let mut copies: Vec<Document> = Vec::new();
                let mut i: usize = 0;
                while i < items.len()
                    invariant
                        *self == Document::List(*items),
                        i <= items.len(),
                        copies.len() == i,
                        forall|j: int| 0 <= j < i ==> copies@[j]@ == items@[j]@,
                    decreases items.len() - i,
                {
                    let item = &items[i];
                    assert(decreases_to!(self => item)) by {
                        assert(decreases_to!(self => self->List_0));
                        assert(decreases_to!(items => items@[i as int]));
                    }
                    copies.push(item.clone());
                    i += 1;
                }
                let copy = Document::List(copies);
                assert(copy@ == self@) by {
                    assert(copy@->List_0 =~= self@->List_0);
                }
                copy
            },
            Document::Object(members) => {
                let mut copies: Vec<(String, Document)> = Vec::new();
                let mut i: usize = 0;
                while i < members.len()
                    invariant
                        *self == Document::Object(*members),
                        i <= members.len(),
                        copies.len() == i,
                        forall|j: int|
                            0 <= j < i ==> copies@[j].0@ == members@[j].0@ && copies@[j].1@
                                == members@[j].1@,
                    decreases members.len() - i,
                {
                    let member = &members[i];
                    assert(decreases_to!(self => member.1)) by {
                        assert(decreases_to!(self => self->Object_0));
                        assert(decreases_to!(members => members@[i as int]));
                        assert(decreases_to!(members@[i as int] => members@[i as int].1));
                    }
                    copies.push((member.0.clone(), member.1.clone()));
                    i += 1;
                }
                let copy = Document::Object(copies);
                assert(copy@ == self@) by {
                    assert(copy@->Object_0 =~= self@->Object_0);
                }
                copy
            },
        }
    }
}

} // verus!
