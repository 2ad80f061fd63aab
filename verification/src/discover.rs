//! The discoverer: from the entries of a walk over the source tree to work items.

use vstd::prelude::*;
use crate::names::extension;
use crate::names::spec_extension;
use crate::paths::PathView;
use crate::paths::copy_path;
use crate::paths::join;
use crate::paths::parent;
use crate::paths::spec_file_name;
use crate::paths::spec_parent;
use crate::paths::spec_strip_prefix;
use crate::paths::strip_prefix;

verus! {

/// One entry that the walk over the source tree came across.
#[derive(Clone, Debug, PartialEq, Eq)]
pub struct Entry {
    /// The path of the entry, input root included.
    pub path: Vec<String>,
    /// Whether the entry is a regular file.
    pub is_file: bool,
}

/// What an `Entry` is to the contracts.
pub struct EntryView {
    pub path: PathView,
    pub is_file: bool,
}

impl View for Entry {
    type V = EntryView;

    open spec fn view(&self) -> EntryView {
        EntryView { path: self.path.deep_view(), is_file: self.is_file }
    }
}

/// One file to process, and the directory that its output belongs in.
#[derive(Clone, Debug, PartialEq, Eq)]
pub struct WorkItem {
    pub source_path: Vec<String>,
    pub dest_dir: Vec<String>,
}

/// What a `WorkItem` is to the contracts.
pub struct WorkItemView {
    pub source_path: PathView,
    pub dest_dir: PathView,
}

impl View for WorkItem {
    type V = WorkItemView;

    open spec fn view(&self) -> WorkItemView {
        WorkItemView {
            source_path: self.source_path.deep_view(),
            dest_dir: self.dest_dir.deep_view(),
        }
    }
}

impl WorkItemView {
    /// The directory structure is kept: the source lies in some directory
    /// below `in_folder`, and `dest_dir` is that same directory below `out_folder`.
    pub open spec fn mirrors(self, in_folder: PathView, out_folder: PathView) -> bool {
        &&& in_folder.is_prefix_of(self.source_path)
        &&& in_folder.len() < self.source_path.len()
        &&& self.dest_dir == out_folder + self.source_path.subrange(
            in_folder.len() as int,
            self.source_path.len() - 1,
        )
    }
}

/// Why an entry of the walk cannot become a work item.
#[derive(Clone, Copy, Debug, PartialEq, Eq, Structural)]
pub enum DiscoverError {
    /// A regular file does not lie under the input root.
    OutsideRoot,
    /// The input root itself is a regular file, so that it has no directory
    /// below the root to mirror.
    RootIsFile,
}

/// What the discoverer makes of one entry. An entry that is no regular file
/// is passed over. A regular file below `in_folder` becomes a work item whose
/// destination is the file's directory, taken relative to `in_folder`, below
/// `out_folder`.
pub open spec fn spec_producer(entry: EntryView, in_folder: PathView, out_folder: PathView)
    -> Result<Option<WorkItemView>, DiscoverError> {
    if !entry.is_file {
        Ok(None)
    } else {
        match spec_strip_prefix(entry.path, in_folder) {
            None => Err(DiscoverError::OutsideRoot),
            Some(relative) => match spec_parent(relative) {
                None => Err(DiscoverError::RootIsFile),
                Some(dir) => Ok(
                    Some(WorkItemView { source_path: entry.path, dest_dir: out_folder + dir }),
                ),
            },
        }
    }
}

/// The discoverer's step for one entry of the walk below `in_folder`: the
/// work item to dispatch, `None` for an entry that is no regular file, or the
/// reason why a regular file cannot be mirrored below `out_folder`.
pub fn producer(entry: &Entry, in_folder: &Vec<String>, out_folder: &Vec<String>) -> (r: Result<
    Option<WorkItem>,
    DiscoverError,
>)
    ensures
        match r {
            Ok(Some(item)) => spec_producer(entry@, in_folder.deep_view(), out_folder.deep_view())
                == Ok::<Option<WorkItemView>, DiscoverError>(Some(item@)) && item@.mirrors(
                in_folder.deep_view(),
                out_folder.deep_view(),
            ),
            Ok(None) => !entry.is_file,
            Err(DiscoverError::OutsideRoot) => entry.is_file && !in_folder.deep_view().is_prefix_of(
                entry.path.deep_view(),
            ),
            Err(DiscoverError::RootIsFile) => entry.is_file && entry.path.deep_view()
                == in_folder.deep_view(),
        },
{
    if !entry.is_file {
        return Ok(None);
    }
    let relative = match strip_prefix(&entry.path, in_folder) {
        Some(relative) => relative,
        None => {
            return Err(DiscoverError::OutsideRoot);
        },
    };
    let dir = match parent(&relative) {
        Some(dir) => dir,
        None => {
            proof {
                let p = entry.path.deep_view();
                let b = in_folder.deep_view();
                assert(p.skip(b.len() as int).len() == 0);
                assert(p =~= b);
            }
            return Err(DiscoverError::RootIsFile);
        },
    };
    let item = WorkItem { source_path: copy_path(&entry.path), dest_dir: join(out_folder, &dir) };
    proof {
        let p = entry.path.deep_view();
        let b = in_folder.deep_view();
        assert(p.skip(b.len() as int).drop_last() =~= p.subrange(b.len() as int, p.len() - 1));
    }
    Ok(Some(item))
}

/// The extension of the file at `path`, as the log of extensions records it:
/// that of its last component, `None` when it has none.
pub open spec fn spec_path_extension(path: PathView) -> Option<Seq<char>> {
    match spec_file_name(path) {
        None => None,
        Some(name) => spec_extension(name),
    }
}

/// What an optional extension is to the contracts.
pub open spec fn extension_view(ext: Option<String>) -> Option<Seq<char>> {
    match ext {
        None => None,
        Some(ext) => Some(ext@),
    }
}

/// The distinct file extensions that a walk has come across, each held once,
/// in the order in which they were first seen. It is kept for the operator
/// to read and decides nothing.
#[derive(Debug, PartialEq, Eq)]
pub struct ExtensionLog {
    seen: Vec<Option<String>>,
}

impl ExtensionLog {
    /// The extensions as the contracts see them, in the order of first sight.
    pub closed spec fn entries(&self) -> Seq<Option<Seq<char>>> {
        self.seen@.map_values(|ext: Option<String>| extension_view(ext))
    }

    #[verifier::type_invariant]
    spec fn inv(&self) -> bool {
        self.entries().no_duplicates()
    }

    /// A log that has seen nothing.
    pub fn new() -> (r: ExtensionLog)
        ensures
            r.entries() == Seq::<Option<Seq<char>>>::empty(),
    {
        let r = ExtensionLog { seen: Vec::new() };
        proof {
            assert(r.entries() =~= Seq::<Option<Seq<char>>>::empty());
        }
        r
    }

    /// Whether the log holds `ext`.
    fn has(&self, ext: &Option<String>) -> (r: bool)
        ensures
            r == self.entries().contains(extension_view(*ext)),
    {
        let mut i: usize = 0;
        while i < self.seen.len()
            invariant
                i <= self.seen.len(),
                forall|k: int| 0 <= k < i ==> self.entries()[k] != extension_view(*ext),
            decreases self.seen.len() - i,
        {
            let same = match (&self.seen[i], ext) {
                (None, None) => true,
                (Some(a), Some(b)) => *a == *b,
                _ => false,
            };
            if same {
                proof {
                    assert(self.entries()[i as int] == extension_view(*ext));
                }
                return true;
            }
            i = i + 1;
        }
        false
    }

    /// Records the extension of the file at `path`. The log grows by that
    /// extension when it is new, and stays as it is when it is not; the
    /// result says whether it was new.
    pub fn record(&mut self, path: &Vec<String>) -> (r: bool)
        ensures
            r == !old(self).entries().contains(spec_path_extension(path.deep_view())),
            final(self).entries() == if r {
                old(self).entries().push(spec_path_extension(path.deep_view()))
            } else {
                old(self).entries()
            },
            final(self).entries().no_duplicates(),
    {
        proof {
            use_type_invariant(&*self);
        }
        let ext = if path.len() == 0 {
            None
        } else {
            extension(path[path.len() - 1].as_str())
        };
        assert(extension_view(ext) == spec_path_extension(path.deep_view()));
        if self.has(&ext) {
            false
        } else {
            let ghost before = self.entries();
            let ghost added = extension_view(ext);
            let mut seen: Vec<Option<String>> = Vec::new();
            std::mem::swap(&mut self.seen, &mut seen);
            seen.push(ext);
            proof {
                let after = seen@.map_values(|ext: Option<String>| extension_view(ext));
                assert(after =~= before.push(added));
                assert forall|i: int, j: int|
                    0 <= i < after.len() && 0 <= j < after.len() && i != j implies after[i]
                    != after[j] by {
                    if i < before.len() && j < before.len() {
                        assert(before[i] != before[j]);
                    } else if i < before.len() {
                        assert(before.contains(before[i]));
                    } else {
                        assert(before.contains(before[j]));
                    }
                }
            }
            self.seen = seen;
            true
        }
    }

    /// The extensions seen so far, each once, in the order of first sight.
    pub fn extensions(&self) -> (r: &Vec<Option<String>>)
        ensures
            r@.map_values(|ext: Option<String>| extension_view(ext)) == self.entries(),
            self.entries().no_duplicates(),
    {
        proof {
            use_type_invariant(self);
        }
        &self.seen
    }
}

} // verus!
