//! Paths as sequences of component names.
//!
//! A path is held as the list of its components, outermost first, so that
//! taking a directory off the front of a path or a file name off its end is
//! plain sequence arithmetic and needs no separator.

use vstd::prelude::*;

verus! {

/// What a path is to the contracts: its component names, outermost first.
pub type PathView = Seq<Seq<char>>;

/// `path` relative to `base`: what is left of `path` once the components of
/// `base` are taken off its front. `None` when `path` does not start with `base`.
pub open spec fn spec_strip_prefix(path: PathView, base: PathView) -> Option<PathView> {
    if base.is_prefix_of(path) {
        Some(path.skip(base.len() as int))
    } else {
        None
    }
}

/// The directory that holds the last component of `path`; `None` for the empty path.
pub open spec fn spec_parent(path: PathView) -> Option<PathView> {
    if path.len() == 0 {
        None
    } else {
        Some(path.drop_last())
    }
}

/// The last component of `path`; `None` for the empty path.
pub open spec fn spec_file_name(path: PathView) -> Option<Seq<char>> {
    if path.len() == 0 {
        None
    } else {
        Some(path.last())
    }
}

/// A copy of the components `from..` of `path`.
fn copy_from(path: &Vec<String>, from: usize) -> (r: Vec<String>)
    requires
        from <= path.len(),
    ensures
        r@ == path@.skip(from as int),
        r.deep_view() == path.deep_view().skip(from as int),
{
    let mut out: Vec<String> = Vec::new();
    let mut i: usize = from;
    while i < path.len()
        invariant
            from <= i <= path.len(),
            out@ == path@.subrange(from as int, i as int),
        decreases path.len() - i,
    {
        out.push(path[i].clone());
        i = i + 1;
        proof {
            assert(out@ =~= path@.subrange(from as int, i as int));
        }
    }
    proof {
        assert(out@ =~= path@.skip(from as int));
        assert(out.deep_view() =~= path.deep_view().skip(from as int));
    }
    out
}

/// A copy of `path`.
pub fn copy_path(path: &Vec<String>) -> (r: Vec<String>)
    ensures
        r@ == path@,
        r.deep_view() == path.deep_view(),
{
    let out = copy_from(path, 0);
    proof {
        assert(path@.skip(0) =~= path@);
        assert(path.deep_view().skip(0) =~= path.deep_view());
    }
    out
}

/// `path` relative to `base`, or `None` when `path` does not lie under `base`.
pub fn strip_prefix(path: &Vec<String>, base: &Vec<String>) -> (r: Option<Vec<String>>)
    ensures
        match r {
            Some(rest) => spec_strip_prefix(path.deep_view(), base.deep_view()) == Some(
                rest.deep_view(),
            ),
            None => spec_strip_prefix(path.deep_view(), base.deep_view()) is None,
        },
{
    if base.len() > path.len() {
        return None;
    }
    let mut i: usize = 0;
    while i < base.len()
        invariant
            i <= base.len() <= path.len(),
            forall|k: int| 0 <= k < i ==> path@[k]@ == base@[k]@,
        decreases base.len() - i,
    {
        if path[i] != base[i] {
            proof {
                let p = path.deep_view();
                let b = base.deep_view();
                assert(p.subrange(0, b.len() as int)[i as int] == p[i as int]);
                assert(b[i as int] != p[i as int]);
            }
            return None;
        }
        i = i + 1;
    }
    proof {
        let p = path.deep_view();
        let b = base.deep_view();
        assert(b =~= p.subrange(0, b.len() as int));
    }
    Some(copy_from(path, base.len()))
}

/// The directory that holds the last component of `path`.
pub fn parent(path: &Vec<String>) -> (r: Option<Vec<String>>)
    ensures
        match r {
            Some(dir) => spec_parent(path.deep_view()) == Some(dir.deep_view()),
            None => spec_parent(path.deep_view()) is None,
        },
{
    if path.len() == 0 {
        return None;
    }
    let mut dir = copy_path(path);
    dir.pop();
    proof {
        assert(dir.deep_view() =~= path.deep_view().drop_last());
    }
    Some(dir)
}

/// `base` followed by the components of `rel`.
pub fn join(base: &Vec<String>, rel: &Vec<String>) -> (r: Vec<String>)
    ensures
        r.deep_view() == base.deep_view() + rel.deep_view(),
{
    let mut out = copy_path(base);
    let mut i: usize = 0;
    while i < rel.len()
        invariant
            i <= rel.len(),
            out@ == base@ + rel@.take(i as int),
        decreases rel.len() - i,
    {
        out.push(rel[i].clone());
        i = i + 1;
        proof {
            assert(out@ =~= base@ + rel@.take(i as int));
        }
    }
    proof {
        assert(rel@.take(i as int) =~= rel@);
        assert(out.deep_view() =~= base.deep_view() + rel.deep_view());
    }
    out
}

/// The path of the entry called `name` in the directory `dir`.
pub fn child(dir: &Vec<String>, name: String) -> (r: Vec<String>)
    ensures
        r.deep_view() == dir.deep_view().push(name@),
{
    let mut out = copy_path(dir);
    out.push(name);
    proof {
        assert(out.deep_view() =~= dir.deep_view().push(name@));
    }
    out
}

} // verus!
