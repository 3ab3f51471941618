//! How a backend that keeps each document in a file of its own may name the
//! files: by the key itself, where the key can be the name of one file.

use vstd::prelude::*;
use crate::text::same_text;
use crate::user::user_key;
use crate::user_client::index_key;

verus! {

/// A character that a file name cannot hold: a separator of path components,
/// or the character that ends a path.
pub open spec fn separates(c: char) -> bool {
    c == '/' || c == '\\' || c == '\0'
}

/// The key names one file in a directory, and nothing outside of it: it is
/// not empty, it is neither `.` nor `..`, and it holds no separator.
pub open spec fn names_a_file(key: Seq<char>) -> bool {
    &&& key.len() > 0
    &&& key != "."@
    &&& key != ".."@
    &&& forall|i: int| 0 <= i < key.len() ==> !separates(#[trigger] key[i])
}

/// The key of the index names a file, and so does the key of every user
/// whose identifier holds no separator. No other user has a file.
pub proof fn lemma_directory_keys(uuid: Seq<char>)
    ensures
        names_a_file(index_key()),
        names_a_file(user_key(uuid)) <==> forall|i: int|
            0 <= i < uuid.len() ==> !separates(#[trigger] uuid[i]),
{
    reveal_strlit("keys");
    reveal_strlit("user:");
    reveal_strlit(".");
    reveal_strlit("..");
    let index = index_key();
    assert(index.len() == 4 && index[0] == 'k' && index[1] == 'e' && index[2] == 'y' && index[3]
        == 's');
    assert(names_a_file(index));
    let key = user_key(uuid);
    assert(key.len() == uuid.len() + 5);
    assert(key[0] == 'u' && key[1] == 's' && key[2] == 'e' && key[3] == 'r' && key[4] == ':');
    if names_a_file(key) {
        assert forall|i: int| 0 <= i < uuid.len() implies !separates(#[trigger] uuid[i]) by {
            assert(key[i + 5] == uuid[i]);
        }
    }
    if forall|i: int| 0 <= i < uuid.len() ==> !separates(#[trigger] uuid[i]) {
        assert forall|i: int| 0 <= i < key.len() implies !separates(#[trigger] key[i]) by {
            if i >= 5 {
                assert(key[i] == uuid[i - 5]);
            }
        }
    }
}

/// Whether the key can be the name of the file that holds its document.
pub fn is_file_name(key: &str) -> (safe: bool)
    ensures
        safe == names_a_file(key@),
{
    for c in it: key.chars()
        invariant
            it.seq() == key@,
            forall|i: int| 0 <= i < it.index() ==> !separates(#[trigger] key@[i]),
    {
        if c == '/' || c == '\\' || c == '\0' {
            return false;
        }
    }
    proof {
        reveal_strlit("");
        assert(key@.len() == 0 ==> key@ =~= ""@);
    }
    !same_text(key, "") && !same_text(key, ".") && !same_text(key, "..")
}

} // verus!
