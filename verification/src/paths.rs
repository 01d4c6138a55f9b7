//! Paths as lists of segments.
//!
//! A path is held as the list of its names from the filesystem root down (or,
//! for a path relative to the served root, from that root down). Two paths are
//! compared name by name, never character by character, so `/srv/www2` is not
//! below `/srv/www`.

use vstd::prelude::*;
use vstd::string::*;

verus! {

/// The texts of a list of strings, in order.
pub open spec fn texts(names: Seq<String>) -> Seq<Seq<char>> {
    names.map_values(|s: String| s@)
}

/// The text of an optional piece of text.
pub open spec fn option_text(text: Option<&str>) -> Option<Seq<char>> {
    match text {
        Some(t) => Some(t@),
        None => None,
    }
}

/// A name is hidden when it begins with a dot.
pub open spec fn is_hidden_name(name: Seq<char>) -> bool {
    name.len() > 0 && name[0] == '.'
}

/// Some name of the list is hidden.
pub open spec fn has_hidden_name(names: Seq<Seq<char>>) -> bool {
    exists|i: int| 0 <= i < names.len() && is_hidden_name(#[trigger] names[i])
}

/// Every name is non-empty and holds no slash.
pub open spec fn well_formed(names: Seq<Seq<char>>) -> bool {
    forall|i: int|
        0 <= i < names.len() ==> (#[trigger] names[i]).len() > 0 && !names[i].contains('/')
}

/// The names joined by single slashes; the empty list gives the empty text.
pub open spec fn joined(names: Seq<Seq<char>>) -> Seq<char>
    decreases names.len(),
{
    if names.len() == 0 {
        Seq::empty()
    } else if names.len() == 1 {
        names[0]
    } else {
        joined(names.drop_last()) + seq!['/'] + names.last()
    }
}

/// Whether `path` lies at or below `prefix`, compared name by name.
pub fn starts_with(path: &Vec<String>, prefix: &Vec<String>) -> (r: bool)
    ensures
        r == texts(prefix@).is_prefix_of(texts(path@)),
{
    if prefix.len() > path.len() {
        return false;
    }
    let mut i: usize = 0;
    while i < prefix.len()
        invariant
            i <= prefix.len() <= path.len(),
            forall|k: int| 0 <= k < i ==> prefix@[k]@ == path@[k]@,
        decreases prefix.len() - i,
    {
        if prefix[i] != path[i] {
            proof {
                let sub = texts(path@).subrange(0, prefix.len() as int);
                assert(sub[i as int] == path@[i as int]@);
                assert(texts(prefix@)[i as int] == prefix@[i as int]@);
            }
            return false;
        }
        i += 1;
    }
    proof {
        assert(texts(prefix@) =~= texts(path@).subrange(0, prefix.len() as int));
    }
    true
}

/// The names of `path` that follow `prefix`.
pub fn strip_prefix(path: &Vec<String>, prefix: &Vec<String>) -> (rest: Vec<String>)
    requires
        texts(prefix@).is_prefix_of(texts(path@)),
    ensures
        texts(rest@) == texts(path@).skip(prefix@.len() as int),
{
    let mut rest: Vec<String> = Vec::new();
    let mut i: usize = prefix.len();
    while i < path.len()
        invariant
            prefix.len() <= i <= path.len(),
            rest@.len() == i - prefix.len(),
            forall|k: int| 0 <= k < rest@.len() ==> rest@[k]@ == path@[prefix.len() + k]@,
        decreases path.len() - i,
    {
        rest.push(path[i].clone());
        i += 1;
    }
    proof {
        assert(texts(rest@) =~= texts(path@).skip(prefix@.len() as int));
    }
    rest
}

/// Whether two texts are the same.
pub fn same_text(a: &str, b: &str) -> (r: bool)
    ensures
        r == (a@ == b@),
{
    String::from_str(a) == String::from_str(b)
}

/// Whether the name begins with a dot.
pub fn name_is_hidden(name: &str) -> (r: bool)
    ensures
        r == is_hidden_name(name@),
{
    name.unicode_len() > 0 && name.get_char(0) == '.'
}

/// Whether any name of the list begins with a dot.
pub fn any_hidden(names: &Vec<String>) -> (r: bool)
    ensures
        r == has_hidden_name(texts(names@)),
{
    let mut i: usize = 0;
    while i < names.len()
        invariant
            i <= names.len(),
            forall|k: int| 0 <= k < i ==> !is_hidden_name(#[trigger] texts(names@)[k]),
        decreases names.len() - i,
    {
        if name_is_hidden(names[i].as_str()) {
            assert(is_hidden_name(texts(names@)[i as int]));
            return true;
        }
        i += 1;
    }
    false
}

/// Joins the names with single slashes.
pub fn join(names: &Vec<String>) -> (text: String)
    ensures
        text@ == joined(texts(names@)),
{
    let mut text = String::new();
    let mut i: usize = 0;
    while i < names.len()
        invariant
            i <= names.len(),
            text@ == joined(texts(names@).take(i as int)),
        decreases names.len() - i,
    {
        proof {
            let before = texts(names@).take(i as int);
            let after = texts(names@).take(i + 1);
            assert(after.drop_last() =~= before);
            assert(after.last() == names@[i as int]@);
            if i == 0 {
                assert(Seq::<char>::empty() + names@[0]@ =~= names@[0]@);
            }
        }
        if i > 0 {
            text.append("/");
            proof {
                reveal_strlit("/");
                assert("/"@ =~= seq!['/']);
            }
        }
        text.append(names[i].as_str());
        i += 1;
    }
    proof {
        assert(texts(names@).take(names@.len() as int) =~= texts(names@));
    }
    text
}

/// Whether every name is non-empty and free of slashes.
pub fn is_well_formed(names: &Vec<String>) -> (r: bool)
    ensures
        r == well_formed(texts(names@)),
{
    let mut i: usize = 0;
    while i < names.len()
        invariant
            i <= names.len(),
            forall|k: int|
                0 <= k < i ==> (#[trigger] texts(names@)[k]).len() > 0 && !texts(
                    names@,
                )[k].contains('/'),
        decreases names.len() - i,
    {
        let name: &str = names[i].as_str();
        let len: usize = name.unicode_len();
        if len == 0 {
            assert(texts(names@)[i as int].len() == 0);
            return false;
        }
        let mut j: usize = 0;
        while j < len
            invariant
                j <= len,
                len == name@.len(),
                i < names.len(),
                name@ == texts(names@)[i as int],
                forall|k: int| 0 <= k < j ==> name@[k] != '/',
            decreases len - j,
        {
            if name.get_char(j) == '/' {
                assert(texts(names@)[i as int].contains('/'));
                return false;
            }
            j += 1;
        }
        assert(!texts(names@)[i as int].contains('/'));
        i += 1;
    }
    true
}

/// A well-formed list of names, joined, never begins with a slash.
pub proof fn lemma_joined_is_relative(names: Seq<Seq<char>>)
    requires
        well_formed(names),
    ensures
        joined(names).len() == 0 || joined(names)[0] != '/',
        names.len() > 0 ==> joined(names).len() > 0 && joined(names)[0] == names[0][0],
    decreases names.len(),
{
    if names.len() == 1 {
        assert(names[0].contains(names[0][0]));
    } else if names.len() > 1 {
        lemma_joined_is_relative(names.drop_last());
        assert(names.drop_last()[0] == names[0]);
        assert(names[0].contains(names[0][0]));
    }
}

/// What is left of a well-formed list of names after some of its first
/// names are taken away is well formed too.
pub proof fn lemma_rest_is_well_formed(names: Seq<Seq<char>>, from: int)
    requires
        well_formed(names),
        0 <= from <= names.len(),
    ensures
        well_formed(names.skip(from)),
{
    assert forall|k: int| 0 <= k < names.skip(from).len() implies (#[trigger] names.skip(
        from,
    )[k]).len() > 0 && !names.skip(from)[k].contains('/') by {
        assert(names.skip(from)[k] == names[from + k]);
    }
}

} // verus!
