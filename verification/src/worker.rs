//! The worker: it takes work items off the dispatch channel, one at a time,
//! and decides what is done with each.

use vstd::prelude::*;
use crate::channel::ChannelView;
use crate::channel::DispatchChannel;
use crate::channel::Received;
use crate::config::Config;
use crate::config::ConfigView;
use crate::discover::WorkItem;
use crate::discover::WorkItemView;
use crate::encoding::Encoding;
use crate::resolver::ActionView;
use crate::resolver::FileAction;
use crate::resolver::process_file;
use crate::resolver::spec_process_file;

verus! {

/// What a worker is busy with while it processes a file.
#[derive(Clone, Copy, Debug, PartialEq, Eq, Structural)]
pub enum ProcessingKind {
    /// It converts the file, or finds the output in place and skips it.
    Transcode,
    /// It copies the file.
    Copy,
    /// It reports the file and leaves it out.
    Skip,
}

/// Where a worker stands.
#[derive(Clone, Copy, Debug, PartialEq, Eq, Structural)]
pub enum WorkerState {
    /// Between two items: it has not asked for the next one yet.
    Idle,
    /// It has asked an open, empty channel for an item and waits.
    Receiving,
    /// It holds an item and acts on it.
    Processing(ProcessingKind),
    /// The channel was closed and drained: the worker is done for good.
    Exited,
}

/// A work item together with the action that a worker decided for it.
#[derive(Clone, Debug, PartialEq, Eq)]
pub struct Job {
    pub item: WorkItem,
    pub action: FileAction,
}

/// What a `Job` is to the contracts.
pub struct JobView {
    pub item: WorkItemView,
    pub action: ActionView,
}

impl View for Job {
    type V = JobView;

    open spec fn view(&self) -> JobView {
        JobView { item: self.item@, action: self.action@ }
    }
}

/// The kind of work that an action is.
pub open spec fn spec_kind(action: ActionView) -> ProcessingKind {
    match action {
        ActionView::Transcode { .. } => ProcessingKind::Transcode,
        ActionView::Copy { .. } => ProcessingKind::Copy,
        _ => ProcessingKind::Skip,
    }
}

/// The job that a worker makes of `item`.
pub open spec fn spec_job(item: WorkItemView, encoding: Encoding, config: ConfigView) -> JobView {
    JobView {
        item,
        action: spec_process_file(item.source_path, item.dest_dir, encoding, config),
    }
}

/// One step of a worker that stands at `state` before the channel `channel`:
/// the channel and the state after it, and the job that the worker took on.
///
/// A worker that has exited stays so and leaves the channel alone. Any other
/// worker is done with what it had and asks the channel for an item. If the
/// channel holds one, the oldest leaves it and the worker processes it. If
/// not, the worker exits when the channel is closed, and waits when it is open.
pub open spec fn spec_worker(
    channel: ChannelView,
    state: WorkerState,
    encoding: Encoding,
    config: ConfigView,
) -> (ChannelView, WorkerState, Option<JobView>) {
    if state == WorkerState::Exited {
        (channel, WorkerState::Exited, None)
    } else if channel.pending.len() > 0 {
        let job = spec_job(channel.pending[0], encoding, config);
        (
            ChannelView {
                pending: channel.pending.drop_first(),
                delivered: channel.delivered.push(channel.pending[0]),
                ..channel
            },
            WorkerState::Processing(spec_kind(job.action)),
            Some(job),
        )
    } else if channel.closed {
        (channel, WorkerState::Exited, None)
    } else {
        (channel, WorkerState::Receiving, None)
    }
}

/// What an optional job is to the contracts.
pub open spec fn job_view(job: Option<Job>) -> Option<JobView> {
    match job {
        None => None,
        Some(job) => Some(job@),
    }
}

/// One turn of a worker's loop. The caller holds the worker's state between
/// the calls, starts it at `Idle`, acts on the job that a call returns before
/// it calls again, and stops calling once the state is `Exited`. On
/// `Receiving` it waits until the channel has changed.
pub fn worker(
    receiver: &mut DispatchChannel,
    state: WorkerState,
    encoding: Encoding,
    config: &Config,
) -> (r: (WorkerState, Option<Job>))
    ensures
        (final(receiver)@, r.0, job_view(r.1)) == spec_worker(
            old(receiver)@,
            state,
            encoding,
            config@,
        ),
        final(receiver)@.wf(),
        r.0 == WorkerState::Exited && state != WorkerState::Exited ==> old(receiver)@.drained()
            && old(receiver)@.delivered == old(receiver)@.sent,
{
    proof {
        use_type_invariant(&*receiver);
    }
    if let WorkerState::Exited = state {
        return (WorkerState::Exited, None);
    }
    match receiver.recv() {
        Received::Item(item) => {
            let action = process_file(&item.source_path, &item.dest_dir, encoding, config);
            let kind = match &action {
                FileAction::Transcode { .. } => ProcessingKind::Transcode,
                FileAction::Copy { .. } => ProcessingKind::Copy,
                _ => ProcessingKind::Skip,
            };
            (WorkerState::Processing(kind), Some(Job { item, action }))
        },
        Received::Empty => (WorkerState::Receiving, None),
        Received::Closed => (WorkerState::Exited, None),
    }
}

} // verus!
