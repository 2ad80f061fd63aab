//! What a run leaves in the destination tree.
//!
//! The destination tree is taken as the set of the file paths that are
//! present in it. A copy puts its destination there, and so does a codec
//! engine run that succeeds; nothing else changes the tree.

use vstd::prelude::*;
use vstd::multiset::Multiset;
use crate::command::CommandView;
use crate::config::ConfigView;
use crate::config::Disposition;
use crate::discover::EntryView;
use crate::discover::spec_producer;
use crate::encoding::Encoding;
use crate::names::last_dot;
use crate::names::lemma_replace_extension;
use crate::names::spec_extension;
use crate::names::spec_replace_extension;
use crate::paths::PathView;
use crate::paths::spec_file_name;
use crate::pipeline::spec_run;
use crate::resolver::ActionView;
use crate::resolver::spec_transcode_step;
use crate::worker::JobView;

verus! {

/// The place in the destination tree, relative to the output root, of the
/// source file at `relative`, taken relative to the input root: the same
/// path with the target's extension for audio that is converted, the same
/// path for a file that is copied, and none for a file that is left out.
pub open spec fn spec_mirrored(relative: PathView, encoding: Encoding, config: ConfigView)
    -> Option<PathView> {
    match spec_file_name(relative) {
        None => None,
        Some(name) => match spec_extension(name) {
            None => None,
            Some(ext) => match config.classify(ext, encoding) {
                Disposition::Transcode => Some(
                    relative.drop_last().push(spec_replace_extension(name, encoding.spec_ext())),
                ),
                Disposition::PassThrough => Some(relative),
                Disposition::Unrecognized => None,
            },
        },
    }
}

/// The destinations that the regular files among `entries` call for, each
/// relative to the output root, one for each file that is not left out.
pub open spec fn expected_destinations(
    entries: Seq<EntryView>,
    in_folder: PathView,
    encoding: Encoding,
    config: ConfigView,
) -> Multiset<PathView>
    decreases entries.len(),
{
    if entries.len() == 0 {
        Multiset::empty()
    } else {
        let before = expected_destinations(entries.drop_last(), in_folder, encoding, config);
        let entry = entries.last();
        if entry.is_file {
            match spec_mirrored(entry.path.skip(in_folder.len() as int), encoding, config) {
                Some(place) => before.insert(place),
                None => before,
            }
        } else {
            before
        }
    }
}

/// The destinations that `jobs` write to, each relative to `out_folder`.
pub open spec fn planned_destinations(jobs: Seq<JobView>, out_folder: PathView) -> Multiset<
    PathView,
>
    decreases jobs.len(),
{
    if jobs.len() == 0 {
        Multiset::empty()
    } else {
        let before = planned_destinations(jobs.drop_last(), out_folder);
        match jobs.last().action.dest_file() {
            Some(dest_file) => before.insert(dest_file.skip(out_folder.len() as int)),
            None => before,
        }
    }
}

/// Every regular file among `entries` lies in some directory below `in_folder`.
pub open spec fn all_below(entries: Seq<EntryView>, in_folder: PathView) -> bool {
    forall|i: int|
        0 <= i < entries.len() && entries[i].is_file ==> in_folder.is_prefix_of(
            #[trigger] entries[i].path,
        ) && in_folder.len() < entries[i].path.len()
}

/// A run over files that all lie below the input root does not fail, and the
/// destinations that its jobs write to, taken relative to the output root,
/// are the relative paths of the source files, with the target's extension
/// in place of the extension of each file that is converted, and without the
/// files that are left out. Both sides count a path as often as it occurs.
pub proof fn lemma_run_mirrors_sources(
    entries: Seq<EntryView>,
    in_folder: PathView,
    out_folder: PathView,
    encoding: Encoding,
    config: ConfigView,
)
    requires
        all_below(entries, in_folder),
    ensures
        spec_run(entries, in_folder, out_folder, encoding, config).1 is None,
        planned_destinations(
            spec_run(entries, in_folder, out_folder, encoding, config).0,
            out_folder,
        ) == expected_destinations(entries, in_folder, encoding, config),
    decreases entries.len(),
{
    if entries.len() > 0 {
        let front = entries.drop_last();
        assert(all_below(front, in_folder)) by {
            assert forall|i: int| 0 <= i < front.len() && front[i].is_file implies in_folder.is_prefix_of(
                #[trigger] front[i].path,
            ) && in_folder.len() < front[i].path.len() by {
                assert(front[i] == entries[i]);
            }
        }
        lemma_run_mirrors_sources(front, in_folder, out_folder, encoding, config);
        let entry = entries.last();
        let jobs_before = spec_run(front, in_folder, out_folder, encoding, config).0;
        if entry.is_file {
            assert(entry == entries[entries.len() - 1]);
            assert(in_folder.is_prefix_of(entry.path));
            let relative = entry.path.skip(in_folder.len() as int);
            let dir = relative.drop_last();
            let name = relative.last();
            let item = spec_producer(entry, in_folder, out_folder)->Ok_0->Some_0;
            assert(item.dest_dir == out_folder + dir);
            assert(item.source_path.last() == name);
            let jobs = spec_run(entries, in_folder, out_folder, encoding, config).0;
            assert(jobs.drop_last() =~= jobs_before);
            assert forall|file: Seq<char>|
                (#[trigger] (out_folder + dir).push(file)).skip(out_folder.len() as int)
                    == dir.push(file) by {
                assert((out_folder + dir).push(file).skip(out_folder.len() as int) =~= dir.push(
                    file,
                ));
            }
            assert(dir.push(name) =~= relative);
        }
    }
}

/// What one job does to the destination tree `tree`, and the codec engine
/// run that it makes. A copy puts its destination into the tree. A
/// conversion whose destination is in the tree is skipped; any other runs the
/// codec engine, which puts the destination there. A job that only reports
/// a file changes nothing.
pub open spec fn spec_perform(tree: Set<PathView>, job: JobView, encoding: Encoding) -> (
    Set<PathView>,
    Option<CommandView>,
) {
    match job.action {
        ActionView::Copy { dest_file, .. } => (tree.insert(dest_file), None),
        ActionView::Transcode { dest_file, .. } => match spec_transcode_step(
            job.item.source_path,
            dest_file,
            encoding,
            tree.contains(dest_file),
        ) {
            Some(command) => (tree.insert(dest_file), Some(command)),
            None => (tree, None),
        },
        _ => (tree, None),
    }
}

/// The destination tree after `jobs` were done in order, starting from
/// `tree`, and the codec engine runs that were made on the way.
pub open spec fn spec_perform_all(tree: Set<PathView>, jobs: Seq<JobView>, encoding: Encoding)
    -> (Set<PathView>, Seq<CommandView>)
    decreases jobs.len(),
{
    if jobs.len() == 0 {
        (tree, Seq::empty())
    } else {
        let (before, runs) = spec_perform_all(tree, jobs.drop_last(), encoding);
        match spec_perform(before, jobs.last(), encoding) {
            (after, Some(command)) => (after, runs.push(command)),
            (after, None) => (after, runs),
        }
    }
}

/// Whether `jobs` holds a job that writes to `path`.
pub open spec fn writes_to(jobs: Seq<JobView>, path: PathView) -> bool {
    exists|i: int| 0 <= i < jobs.len() && (#[trigger] jobs[i]).action.dest_file() == Some(path)
}

/// After a run the tree holds what it held before and the destinations of
/// the jobs, and nothing else.
pub proof fn lemma_run_adds_destinations(
    tree: Set<PathView>,
    jobs: Seq<JobView>,
    encoding: Encoding,
)
    ensures
        forall|path: PathView|
            spec_perform_all(tree, jobs, encoding).0.contains(path) <==> tree.contains(path)
                || writes_to(jobs, path),
    decreases jobs.len(),
{
    if jobs.len() > 0 {
        let front = jobs.drop_last();
        lemma_run_adds_destinations(tree, front, encoding);
        let before = spec_perform_all(tree, front, encoding).0;
        let after = spec_perform_all(tree, jobs, encoding).0;
        assert forall|path: PathView| after.contains(path) <==> tree.contains(path) || writes_to(
            jobs,
            path,
        ) by {
            if writes_to(front, path) {
                let i = choose|i: int|
                    0 <= i < front.len() && (#[trigger] front[i]).action.dest_file() == Some(path);
                assert(jobs[i] == front[i]);
            }
            if writes_to(jobs, path) {
                let i = choose|i: int|
                    0 <= i < jobs.len() && (#[trigger] jobs[i]).action.dest_file() == Some(path);
                if i < front.len() {
                    assert(front[i] == jobs[i]);
                }
            }
            if jobs.last().action.dest_file() == Some(path) {
                assert(jobs[jobs.len() - 1] == jobs.last());
            }
        }
    }
}

/// Jobs that find all their destinations in the tree change nothing and run
/// no codec engine.
pub proof fn lemma_run_over_finished_tree(
    tree: Set<PathView>,
    jobs: Seq<JobView>,
    encoding: Encoding,
)
    requires
        forall|path: PathView| writes_to(jobs, path) ==> tree.contains(path),
    ensures
        spec_perform_all(tree, jobs, encoding) == (tree, Seq::<CommandView>::empty()),
    decreases jobs.len(),
{
    if jobs.len() > 0 {
        let front = jobs.drop_last();
        assert forall|path: PathView| writes_to(front, path) implies tree.contains(path) by {
            let i = choose|i: int|
                0 <= i < front.len() && (#[trigger] front[i]).action.dest_file() == Some(path);
            assert(jobs[i] == front[i]);
        }
        lemma_run_over_finished_tree(tree, front, encoding);
        let last = jobs.last();
        match last.action.dest_file() {
            Some(path) => {
                assert(jobs[jobs.len() - 1] == last);
                assert(writes_to(jobs, path));
                assert(tree.insert(path) =~= tree);
            },
            None => {},
        }
    }
}

/// The jobs of a run depend on its inputs alone, so a second run with the
/// same inputs does the same jobs. Done on the destination tree that the
/// first run left, they leave the tree as they found it and run no codec
/// engine: every conversion finds its output in place and is skipped.
pub proof fn lemma_second_run_changes_nothing(
    tree: Set<PathView>,
    entries: Seq<EntryView>,
    in_folder: PathView,
    out_folder: PathView,
    encoding: Encoding,
    config: ConfigView,
)
    ensures
        ({
            let jobs = spec_run(entries, in_folder, out_folder, encoding, config).0;
            let mirrored = spec_perform_all(tree, jobs, encoding).0;
            spec_perform_all(mirrored, jobs, encoding) == (mirrored, Seq::<CommandView>::empty())
        }),
{
    let jobs = spec_run(entries, in_folder, out_folder, encoding, config).0;
    lemma_run_adds_destinations(tree, jobs, encoding);
    lemma_run_over_finished_tree(spec_perform_all(tree, jobs, encoding).0, jobs, encoding);
}

/// The name that a converted file gets keeps everything up to the last dot
/// of the source's name and has the target's extension.
pub proof fn lemma_converted_name(name: Seq<char>, encoding: Encoding)
    requires
        spec_extension(name) is Some,
    ensures
        spec_extension(spec_replace_extension(name, encoding.spec_ext())) == Some(
            encoding.spec_ext(),
        ),
        last_dot(spec_replace_extension(name, encoding.spec_ext())) == last_dot(name),
        spec_replace_extension(name, encoding.spec_ext()).take(last_dot(name)) == name.take(
            last_dot(name),
        ),
{
    encoding.lemma_ext_is_plain();
    lemma_replace_extension(name, encoding.spec_ext());
}

} // verus!
