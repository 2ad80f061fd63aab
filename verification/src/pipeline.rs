//! A whole run on one thread: every entry of a walk goes from the discoverer
//! through the dispatch channel to a single worker.

use vstd::prelude::*;
use crate::channel::DispatchChannel;
use crate::config::Config;
use crate::config::ConfigView;
use crate::discover::DiscoverError;
use crate::discover::Entry;
use crate::discover::EntryView;
use crate::discover::producer;
use crate::discover::spec_producer;
use crate::encoding::Encoding;
use crate::paths::PathView;
use crate::worker::Job;
use crate::worker::JobView;
use crate::worker::WorkerState;
use crate::worker::spec_job;
use crate::worker::worker;

verus! {

/// What a run came to: the jobs that the worker took on, in the order of the
/// walk, and the failure that ended the discovery early, if one did.
#[derive(Clone, Debug, PartialEq, Eq)]
pub struct RunReport {
    pub jobs: Vec<Job>,
    pub failure: Option<DiscoverError>,
}

/// The jobs of a run over `entries`, and the failure that ended it. The
/// entries are taken in order; each regular file becomes one job; the first
/// entry that the discoverer fails on ends the run, and the jobs before it stand.
pub open spec fn spec_run(
    entries: Seq<EntryView>,
    in_folder: PathView,
    out_folder: PathView,
    encoding: Encoding,
    config: ConfigView,
) -> (Seq<JobView>, Option<DiscoverError>)
    decreases entries.len(),
{
    if entries.len() == 0 {
        (Seq::empty(), None)
    } else {
        let (jobs, failure) = spec_run(entries.drop_last(), in_folder, out_folder, encoding, config);
        if failure is Some {
            (jobs, failure)
        } else {
            match spec_producer(entries.last(), in_folder, out_folder) {
                Err(e) => (jobs, Some(e)),
                Ok(None) => (jobs, None),
                Ok(Some(item)) => (jobs.push(spec_job(item, encoding, config)), None),
            }
        }
    }
}

/// A run that has failed on its first `n` entries is not changed by the entries after them.
pub proof fn lemma_failure_ends_run(
    entries: Seq<EntryView>,
    n: int,
    in_folder: PathView,
    out_folder: PathView,
    encoding: Encoding,
    config: ConfigView,
)
    requires
        0 <= n <= entries.len(),
        spec_run(entries.take(n), in_folder, out_folder, encoding, config).1 is Some,
    ensures
        spec_run(entries, in_folder, out_folder, encoding, config) == spec_run(
            entries.take(n),
            in_folder,
            out_folder,
            encoding,
            config,
        ),
    decreases entries.len(),
{
    if n == entries.len() {
        assert(entries.take(n) =~= entries);
    } else {
        assert(entries.drop_last().take(n) =~= entries.take(n));
        lemma_failure_ends_run(entries.drop_last(), n, in_folder, out_folder, encoding, config);
    }
}

/// What a list of entries is to the contracts.
pub open spec fn entries_view(entries: Seq<Entry>) -> Seq<EntryView> {
    entries.map_values(|entry: Entry| entry@)
}

/// What a list of jobs is to the contracts.
pub open spec fn jobs_view(jobs: Seq<Job>) -> Seq<JobView> {
    jobs.map_values(|job: Job| job@)
}

/// Runs the pipeline over `entries` on one thread, with one worker and a
/// channel that holds one item: each work item is sent as soon as it is
/// discovered and received before the walk goes on, so that the jobs come in
/// the order of the walk. Nothing is read or written: the report says what
/// is to be done.
pub fn run_pipeline(
    entries: &Vec<Entry>,
    in_folder: &Vec<String>,
    out_folder: &Vec<String>,
    encoding: Encoding,
    config: &Config,
) -> (r: RunReport)
    ensures
        (jobs_view(r.jobs@), r.failure) == spec_run(
            entries_view(entries@),
            in_folder.deep_view(),
            out_folder.deep_view(),
            encoding,
            config@,
        ),
{
    let ghost all = entries_view(entries@);
    let ghost inv = in_folder.deep_view();
    let ghost outv = out_folder.deep_view();
    let mut channel = DispatchChannel::new();
    let mut state = WorkerState::Idle;
    let mut jobs: Vec<Job> = Vec::new();
    let mut i: usize = 0;
    proof {
        assert(all.take(0) =~= Seq::<EntryView>::empty());
        assert(jobs_view(jobs@) =~= Seq::<JobView>::empty());
    }
    while i < entries.len()
        invariant
            i <= entries.len(),
            all == entries_view(entries@),
            inv == in_folder.deep_view(),
            outv == out_folder.deep_view(),
            channel@.wf(),
            channel@.capacity == 1,
            channel@.pending.len() == 0,
            !channel@.closed,
            channel@.delivered.len() == jobs.len(),
            state != WorkerState::Exited,
            (jobs_view(jobs@), None::<DiscoverError>) == spec_run(
                all.take(i as int),
                inv,
                outv,
                encoding,
                config@,
            ),
        decreases entries.len() - i,
    {
        proof {
            assert(all.take(i + 1).drop_last() =~= all.take(i as int));
            assert(all.take(i + 1).last() == entries@[i as int]@);
        }
        match producer(&entries[i], in_folder, out_folder) {
            Err(e) => {
                proof {
                    lemma_failure_ends_run(all, i + 1, inv, outv, encoding, config@);
                }
                channel.close();
                let (end, _) = worker(&mut channel, state, encoding, config);
                assert(end == WorkerState::Exited);
                return RunReport { jobs, failure: Some(e) };
            },
            Ok(None) => {},
            Ok(Some(item)) => {
                let ghost sent = item@;
                let sending = channel.send(item);
                assert(sending is Ok);
                let (next, job) = worker(&mut channel, state, encoding, config);
                state = next;
                match job {
                    Some(job) => {
                        let ghost before = jobs_view(jobs@);
                        jobs.push(job);
                        proof {
                            assert(job@ == spec_job(sent, encoding, config@));
                            assert(jobs_view(jobs@) =~= before.push(job@));
                        }
                    },
                    None => {
                        proof {
                            assert(false);
                        }
                    },
                }
            },
        }
        i = i + 1;
    }
    proof {
        assert(all.take(i as int) =~= all);
    }
    channel.close();
    let (end, _) = worker(&mut channel, state, encoding, config);
    assert(end == WorkerState::Exited);
    assert(channel@.delivered == channel@.sent);
    RunReport { jobs, failure: None }
}

} // verus!
