//! Where revisions and branches are kept in files.

use crate::revision::ids::BranchRefView;
use crate::revision::local_store::{head_read, object_kept, object_stem};
use crate::text::{is_blank, is_white_space, trimmed};
use crate::text_laws::law_only_white_space_is_trimmed;
use vstd::prelude::*;

verus! {

/// The file of a revision has its name, with an underscore in the place of each colon.
pub proof fn law_file_has_the_name_of_the_revision(id: Seq<char>)
    ensures
        object_stem(id).len() == id.len(),
        forall|i: int|
            #![trigger object_stem(id)[i]]
            0 <= i < id.len() ==> object_stem(id)[i] == if id[i] == ':' {
                '_'
            } else {
                id[i]
            },
        !object_stem(id).contains(':'),
{
    if object_stem(id).contains(':') {
        let i = choose|i: int| 0 <= i < object_stem(id).len() && object_stem(id)[i] == ':';
        assert(object_stem(id)[i] != ':');
    }
}

/// A branch points to what its file says, whatever white space is around it; a file that says
/// nothing is an error.
pub proof fn law_head_is_what_the_file_says(
    branch: BranchRefView,
    front: Seq<char>,
    id: Seq<char>,
    back: Seq<char>,
)
    requires
        is_blank(front),
        is_blank(back),
    ensures
        id.len() > 0 && !is_white_space(id[0]) && !is_white_space(id.last()) ==> (head_read(
            branch,
            front + id + back,
        ) matches Ok(head) && head == id),
        id.len() == 0 ==> head_read(branch, front + id + back) is Err,
{
    let raw = front + id + back;
    law_only_white_space_is_trimmed(raw);
    let (i, j) = choose|i: int, j: int|
        0 <= i <= j <= raw.len() && trimmed(raw) == #[trigger] raw.subrange(i, j) && (forall|k: int|
            0 <= k < raw.len() && !(i <= k < j) ==> is_white_space(#[trigger] raw[k])) && (i < j
            ==> !is_white_space(raw[i]) && !is_white_space(raw[j - 1]));
    let n = front.len() as int;
    let m = n + id.len();
    if id.len() == 0 {
        assert forall|k: int| 0 <= k < raw.len() implies is_white_space(#[trigger] raw[k]) by {
            if k < n {
                assert(is_white_space(front[k]));
            } else {
                assert(is_white_space(back[k - n]));
            }
        }
        assert(is_blank(raw));
    } else if !is_white_space(id[0]) && !is_white_space(id.last()) {
        assert(raw[n] == id[0]);
        assert(raw[m - 1] == id.last());
        assert(i <= n < j);
        assert(i <= m - 1 < j);
        if i < n {
            assert(raw[i] == front[i]);
            assert(is_white_space(front[i]));
        }
        if m < j {
            assert(raw[j - 1] == back[j - 1 - m]);
            assert(is_white_space(back[j - 1 - m]));
        }
        assert(raw.subrange(n, m) =~= id);
    }
}

/// A file that is there stays where it holds the same text, and is an error of the store where it
/// holds another.
pub proof fn law_only_the_same_text_is_kept(id: Seq<char>, existing: Seq<char>, text: Seq<char>)
    ensures
        object_kept(id, existing, text) is Ok <==> existing == text,
        object_kept(id, existing, text) matches Err(error) ==> error is Store,
{
}

} // verus!
