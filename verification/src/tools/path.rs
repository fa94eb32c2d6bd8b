//! Host paths, written with `/` between their components.

use crate::text::{join, join_texts, same_text, glue2, contains_char};
use vstd::std_specs::iter::IteratorSpec;
use vstd::prelude::*;

verus! {

/// A path that begins at the root.
pub open spec fn is_absolute(path: Seq<char>) -> bool {
    path.len() > 0 && path[0] == '/'
}

/// Where the component that a path ends with begins.
pub open spec fn last_start(path: Seq<char>) -> int
    decreases path.len(),
{
    if path.len() == 0 {
        0
    } else if path.last() == '/' {
        path.len() as int
    } else {
        last_start(path.drop_last())
    }
}

/// The components with one more, unless it is empty or `.`.
pub open spec fn with_part(parts: Seq<Seq<char>>, part: Seq<char>) -> Seq<Seq<char>> {
    if part.len() == 0 || part == "."@ {
        parts
    } else {
        parts.push(part)
    }
}

/// The components of a path that a `/` ends.
pub open spec fn ended_parts(path: Seq<char>) -> Seq<Seq<char>>
    decreases path.len(),
{
    if path.len() == 0 {
        Seq::empty()
    } else if path.last() == '/' {
        path_parts_of(path.drop_last(), ended_parts(path.drop_last()))
    } else {
        ended_parts(path.drop_last())
    }
}

/// The ended components and the one that the path ends with.
pub open spec fn path_parts_of(path: Seq<char>, ended: Seq<Seq<char>>) -> Seq<Seq<char>> {
    with_part(ended, path.skip(last_start(path)))
}

/// The components of a path, without those that are empty or `.`.
pub open spec fn path_parts(path: Seq<char>) -> Seq<Seq<char>> {
    path_parts_of(path, ended_parts(path))
}

proof fn lemma_last_start(path: Seq<char>)
    ensures
        0 <= last_start(path) <= path.len(),
        forall|i: int| last_start(path) <= i < path.len() ==> path[i] != '/',
    decreases path.len(),
{
    if path.len() > 0 && path.last() != '/' {
        lemma_last_start(path.drop_last());
        assert forall|i: int| last_start(path) <= i < path.len() implies path[i] != '/' by {
            if i < path.len() - 1 {
                assert(path.drop_last()[i] == path[i]);
            }
        }
    }
}

fn push_part(parts: &mut Vec<String>, part: &str)
    ensures
        final(parts).deep_view() == with_part(old(parts).deep_view(), part@),
{
    let ghost before = parts.deep_view();
    if part.unicode_len() == 0 || same_text(part, ".") {
        return;
    }
    parts.push(part.to_owned());
    assert(parts.deep_view() =~= before.push(part@));
}

/// Splits a path into its components.
pub fn split_path(path: &str) -> (r: Vec<String>)
    ensures
        r.deep_view() == path_parts(path@),
{
    let mut parts: Vec<String> = Vec::new();
    let mut start: usize = 0;
    let total: usize = path.unicode_len();
    let ghost text = path@;
    assert(text.take(0) =~= Seq::<char>::empty());
    assert(parts.deep_view() =~= Seq::<Seq<char>>::empty());
    let mut i: usize = 0;
    for c in it: path.chars()
        invariant
            text == path@,
            it.seq() == text,
            total == text.len(),
            i == it.index(),
            start <= i <= total,
            start == last_start(text.take(i as int)),
            parts.deep_view() == ended_parts(text.take(i as int)),
    {
        assert(i < total);
        let ghost before = text.take(i as int);
        assert(text.take(i + 1).drop_last() =~= before);
        assert(text.take(i + 1).last() == c);
        if c == '/' {
            let part = path.substring_char(start, i);
            assert(part@ =~= before.skip(start as int));
            push_part(&mut parts, part);
            start = i + 1;
        }
        i = i + 1;
    }
    assert(text.take(total as int) =~= text);
    let part = path.substring_char(start, total);
    assert(part@ =~= text.skip(start as int));
    push_part(&mut parts, part);
    parts
}

/// The components that are left when each `..` takes away the one before it; none if there is no
/// component to take away.
pub open spec fn climbed(parts: Seq<Seq<char>>) -> Option<Seq<Seq<char>>>
    decreases parts.len(),
{
    if parts.len() == 0 {
        Some(Seq::empty())
    } else {
        match climbed(parts.drop_last()) {
            None => None,
            Some(done) => if parts.last() == ".."@ {
                if done.len() == 0 {
                    None
                } else {
                    Some(done.drop_last())
                }
            } else {
                Some(done.push(parts.last()))
            },
        }
    }
}

proof fn lemma_climbed_prefix(parts: Seq<Seq<char>>, n: int)
    requires
        0 <= n <= parts.len(),
        climbed(parts.take(n)) is None,
    ensures
        climbed(parts) is None,
    decreases parts.len() - n,
{
    if n < parts.len() {
        assert(parts.take(n + 1).drop_last() =~= parts.take(n));
        lemma_climbed_prefix(parts, n + 1);
    } else {
        assert(parts.take(n) =~= parts);
    }
}

/// Takes away what each `..` takes away.
pub fn climb(parts: &Vec<String>) -> (r: Option<Vec<String>>)
    ensures
        r.deep_view() == climbed(parts.deep_view()),
{
    let ghost views = parts.deep_view();
    let mut done: Vec<String> = Vec::new();
    assert(views.take(0) =~= Seq::<Seq<char>>::empty());
    assert(done.deep_view() =~= Seq::<Seq<char>>::empty());
    for i in 0..parts.len()
        invariant
            views == parts.deep_view(),
            climbed(views.take(i as int)) == Some(done.deep_view()),
    {
        assert(views.take(i + 1).drop_last() =~= views.take(i as int));
        assert(views.take(i + 1).last() == parts@[i as int]@);
        let ghost before = done.deep_view();
        if same_text(parts[i].as_str(), "..") {
            if done.len() == 0 {
                proof {
                    lemma_climbed_prefix(views, i + 1);
                }
                return None;
            }
            done.pop();
            assert(done.deep_view() =~= before.drop_last());
        } else {
            done.push(parts[i].clone());
            assert(done.deep_view() =~= before.push(views[i as int]));
        }
    }
    assert(views.take(parts.len() as int) =~= views);
    Some(done)
}

/// The path from the root through the components.
pub open spec fn absolute_path(parts: Seq<Seq<char>>) -> Seq<char> {
    "/"@ + join(parts, "/"@)
}

/// The path from the root through the components.
pub fn write_absolute_path(parts: &Vec<String>) -> (r: String)
    ensures
        r@ == absolute_path(parts.deep_view()),
{
    glue2("/", join_texts(parts, "/").as_str())
}

/// One path lies at or below another.
pub open spec fn starts_with(parts: Seq<Seq<char>>, base: Seq<Seq<char>>) -> bool {
    base.len() <= parts.len() && parts.take(base.len() as int) == base
}

/// Tells whether one path lies at or below another.
pub fn begins_with(parts: &Vec<String>, base: &Vec<String>) -> (r: bool)
    ensures
        r == starts_with(parts.deep_view(), base.deep_view()),
{
    let ghost a = parts.deep_view();
    let ghost b = base.deep_view();
    if base.len() > parts.len() {
        return false;
    }
    for i in 0..base.len()
        invariant
            base.len() <= parts.len(),
            a == parts.deep_view(),
            b == base.deep_view(),
            forall|j: int| 0 <= j < i ==> a[j] == #[trigger] b[j],
    {
        if !same_text(parts[i].as_str(), base[i].as_str()) {
            assert(a.take(b.len() as int)[i as int] != b[i as int]);
            return false;
        }
    }
    assert(a.take(b.len() as int) =~= b);
    true
}

/// Tells whether a path begins at the root.
pub fn absolute(path: &str) -> (r: bool)
    ensures
        r == is_absolute(path@),
{
    if path.unicode_len() == 0 {
        return false;
    }
    let first = path.substring_char(0, 1);
    assert(first@.len() == 1 && first@[0] == path@[0]);
    contains_char(first, '/')
}

/// A component as it stands between two `/`.
pub open spec fn is_part(part: Seq<char>) -> bool {
    part.len() > 0 && part != "."@ && !part.contains('/')
}

proof fn lemma_more_without_slash(path: Seq<char>, part: Seq<char>)
    requires
        !part.contains('/'),
    ensures
        last_start(path + part) == last_start(path),
        ended_parts(path + part) == ended_parts(path),
    decreases part.len(),
{
    if part.len() == 0 {
        assert(path + part =~= path);
    } else {
        assert(part.contains(part.last()));
        assert((path + part).drop_last() =~= path + part.drop_last());
        assert((path + part).last() == part.last());
        assert(!part.drop_last().contains('/')) by {
            if part.drop_last().contains('/') {
                let i = choose|i: int| 0 <= i < part.len() - 1 && part.drop_last()[i] == '/';
                assert(part[i] == '/');
            }
        }
        lemma_more_without_slash(path, part.drop_last());
    }
}

proof fn lemma_one_more_part(path: Seq<char>, part: Seq<char>)
    requires
        is_part(part),
    ensures
        path_parts(path + "/"@ + part) == path_parts(path).push(part),
{
    reveal_strlit("/");
    let slashed = path + "/"@;
    assert(slashed.last() == '/');
    assert(slashed.drop_last() =~= path);
    assert(last_start(slashed) == slashed.len());
    assert(ended_parts(slashed) == path_parts(path));
    lemma_more_without_slash(slashed, part);
    assert((slashed + part).skip(slashed.len() as int) =~= part);
}

/// A path that is written from components has those components.
pub proof fn lemma_parts_of_absolute_path(parts: Seq<Seq<char>>)
    requires
        forall|i: int| 0 <= i < parts.len() ==> is_part(#[trigger] parts[i]),
    ensures
        is_absolute(absolute_path(parts)),
        path_parts(absolute_path(parts)) == parts,
    decreases parts.len(),
{
    reveal_strlit("/");
    reveal_with_fuel(ended_parts, 2);
    reveal_with_fuel(last_start, 2);
    let root = Seq::<char>::empty();
    assert(absolute_path(parts)[0] == '/');
    if parts.len() == 0 {
        assert(absolute_path(parts) =~= "/"@);
        assert("/"@.drop_last() =~= root);
        assert("/"@.last() == '/');
        assert(root.skip(0) =~= root);
        assert("/"@.skip(1) =~= root);
        assert(path_parts(absolute_path(parts)) =~= parts);
    } else if parts.len() == 1 {
        assert(absolute_path(parts) =~= root + "/"@ + parts[0]);
        lemma_one_more_part(root, parts[0]);
        assert(root.skip(0) =~= root);
        assert(path_parts(root) =~= Seq::empty());
        assert(path_parts(root).push(parts[0]) =~= parts);
    } else {
        let init = parts.drop_last();
        lemma_parts_of_absolute_path(init);
        assert(absolute_path(parts) =~= absolute_path(init) + "/"@ + parts.last());
        lemma_one_more_part(absolute_path(init), parts.last());
        assert(init.push(parts.last()) =~= parts);
    }
}

proof fn lemma_ended_parts_are_parts(path: Seq<char>)
    ensures
        forall|i: int| 0 <= i < ended_parts(path).len() ==> is_part(#[trigger] ended_parts(path)[i]),
    decreases path.len(),
{
    if path.len() > 0 {
        let init = path.drop_last();
        lemma_ended_parts_are_parts(init);
        lemma_last_start(init);
        let part = init.skip(last_start(init));
        assert(!part.contains('/')) by {
            if part.contains('/') {
                let i = choose|i: int| 0 <= i < part.len() && part[i] == '/';
                assert(init[i + last_start(init)] == '/');
            }
        }
        assert forall|i: int| 0 <= i < ended_parts(path).len() implies is_part(
            #[trigger] ended_parts(path)[i],
        ) by {
            if i < ended_parts(init).len() {
                assert(is_part(ended_parts(init)[i]));
            }
        }
    }
}

/// The components of a path are neither empty nor `.`, and hold no `/`.
pub proof fn lemma_parts_are_parts(path: Seq<char>)
    ensures
        forall|i: int| 0 <= i < path_parts(path).len() ==> is_part(#[trigger] path_parts(path)[i]),
{
    let slashed = path.push('/');
    lemma_ended_parts_are_parts(slashed);
    assert(slashed.drop_last() =~= path);
    assert(slashed.last() == '/');
    assert(ended_parts(slashed) == path_parts(path));
    assert forall|i: int| 0 <= i < path_parts(path).len() implies is_part(
        #[trigger] path_parts(path)[i],
    ) by {
        assert(is_part(ended_parts(slashed)[i]));
    }
}

/// What is left after climbing are components of the path, none of them `..`.
pub proof fn lemma_climbed_parts(parts: Seq<Seq<char>>)
    requires
        forall|i: int| 0 <= i < parts.len() ==> is_part(#[trigger] parts[i]),
    ensures
        climbed(parts) matches Some(done) ==> forall|i: int|
            0 <= i < done.len() ==> is_part(#[trigger] done[i]) && done[i] != ".."@,
    decreases parts.len(),
{
    if parts.len() > 0 {
        lemma_climbed_parts(parts.drop_last());
    }
}

/// Components without `..` are left as they are.
pub proof fn lemma_climbed_again(parts: Seq<Seq<char>>)
    requires
        forall|i: int| 0 <= i < parts.len() ==> #[trigger] parts[i] != ".."@,
    ensures
        climbed(parts) == Some(parts),
    decreases parts.len(),
{
    if parts.len() > 0 {
        lemma_climbed_again(parts.drop_last());
        assert(parts.drop_last().push(parts.last()) =~= parts);
    }
}

} // verus!
