//! File names and their extensions.
//!
//! A file name is the last component of a path. Its extension is what follows
//! its last dot, provided that dot is not the first character of the name.

use vstd::prelude::*;

verus! {

/// Index of the last `'.'` in `name`, or -1 when `name` holds none.
pub open spec fn last_dot(name: Seq<char>) -> int
    decreases name.len(),
{
    if name.len() == 0 {
        -1
    } else if name.last() == '.' {
        name.len() - 1
    } else {
        last_dot(name.drop_last())
    }
}

/// The extension of a file name: the characters after its last dot.
/// A name without a dot has none, and neither has a name whose only dot
/// is its first character.
pub open spec fn spec_extension(name: Seq<char>) -> Option<Seq<char>> {
    let dot = last_dot(name);
    if dot <= 0 {
        None
    } else {
        Some(name.skip(dot + 1))
    }
}

/// `name` with everything after its last dot replaced by `ext`.
pub open spec fn spec_replace_extension(name: Seq<char>, ext: Seq<char>) -> Seq<char> {
    name.take(last_dot(name) + 1) + ext
}

/// `last_dot` is in range, points at a dot when it is not -1, and no dot follows it.
pub proof fn lemma_last_dot(name: Seq<char>)
    ensures
        -1 <= last_dot(name) < name.len(),
        last_dot(name) >= 0 ==> name[last_dot(name)] == '.',
        forall|j: int| last_dot(name) < j < name.len() ==> name[j] != '.',
    decreases name.len(),
{
    if name.len() > 0 && name.last() != '.' {
        let front = name.drop_last();
        lemma_last_dot(front);
        assert forall|j: int| last_dot(name) < j < name.len() implies name[j] != '.' by {
            if j < front.len() {
                assert(front[j] == name[j]);
            }
        }
    }
}

/// An index that points at a dot which no dot follows is `last_dot`.
pub proof fn lemma_last_dot_unique(name: Seq<char>, i: int)
    requires
        0 <= i < name.len(),
        name[i] == '.',
        forall|j: int| i < j < name.len() ==> name[j] != '.',
    ensures
        last_dot(name) == i,
{
    lemma_last_dot(name);
}

/// Position of the last dot of `name`, counted in characters.
pub fn find_last_dot(name: &str) -> (r: Option<usize>)
    ensures
        match r {
            Some(i) => i == last_dot(name@) && i < name@.len() <= usize::MAX,
            None => last_dot(name@) == -1,
        },
{
    let len = name.unicode_len();
    let mut found: Option<usize> = None;
    let mut pos: usize = 0;
    for c in it: name.chars()
        invariant
            it.seq() == name@,
            name@.len() == len,
            pos == it.index(),
            match found {
                Some(i) => i == last_dot(name@.take(pos as int)),
                None => last_dot(name@.take(pos as int)) == -1,
            },
    {
        proof {
            assert(name@.take(pos + 1).drop_last() =~= name@.take(pos as int));
        }
        if c == '.' {
            found = Some(pos);
        }
        pos = pos + 1;
    }
    proof {
        assert(name@.take(pos as int) =~= name@);
        lemma_last_dot(name@);
    }
    found
}

/// The extension of the file name `name`, if it has one.
pub fn extension(name: &str) -> (r: Option<String>)
    ensures
        match r {
            Some(ext) => spec_extension(name@) == Some(ext@),
            None => spec_extension(name@) is None,
        },
{
    match find_last_dot(name) {
        Some(dot) if dot > 0 => {
            proof {
                lemma_last_dot(name@);
            }
            let len = name.unicode_len();
            let tail = name.substring_char(dot + 1, len);
            Some(String::from_str(tail))
        },
        _ => None,
    }
}

/// `name` with its extension replaced by `ext`; `None` when `name` has no extension.
pub fn replace_extension(name: &str, ext: &str) -> (r: Option<String>)
    ensures
        match r {
            Some(renamed) => spec_extension(name@) is Some && renamed@ == spec_replace_extension(
                name@,
                ext@,
            ),
            None => spec_extension(name@) is None,
        },
{
    match find_last_dot(name) {
        Some(dot) if dot > 0 => {
            proof {
                lemma_last_dot(name@);
            }
            let stem = name.substring_char(0, dot + 1);
            Some(String::from_str(stem).concat(ext))
        },
        _ => None,
    }
}

/// Replacing the extension keeps the stem and makes `ext` the new extension,
/// as long as `ext` itself holds no dot.
pub proof fn lemma_replace_extension(name: Seq<char>, ext: Seq<char>)
    requires
        spec_extension(name) is Some,
        !ext.contains('.'),
    ensures
        spec_extension(spec_replace_extension(name, ext)) == Some(ext),
        last_dot(spec_replace_extension(name, ext)) == last_dot(name),
        spec_replace_extension(name, ext).take(last_dot(name)) == name.take(last_dot(name)),
{
    lemma_last_dot(name);
    let dot = last_dot(name);
    let renamed = spec_replace_extension(name, ext);
    assert(renamed[dot] == '.');
    assert forall|j: int| dot < j < renamed.len() implies renamed[j] != '.' by {
        assert(renamed[j] == ext[j - dot - 1]);
        assert(ext.contains(ext[j - dot - 1]));
    }
    lemma_last_dot_unique(renamed, dot);
    assert(renamed.skip(dot + 1) =~= ext);
    assert(renamed.take(dot) =~= name.take(dot));
}

} // verus!
