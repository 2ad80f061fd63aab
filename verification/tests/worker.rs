use media_mirror::channel::DispatchChannel;
use media_mirror::config::Config;
use media_mirror::discover::WorkItem;
use media_mirror::encoding::Encoding;
use media_mirror::resolver::FileAction;
use media_mirror::worker::worker;
use media_mirror::worker::Job;
use media_mirror::worker::ProcessingKind;
use media_mirror::worker::WorkerState;

fn path(text: &str) -> Vec<String> {
    text.split('/').filter(|part| !part.is_empty()).map(|part| part.to_string()).collect()
}

fn item(source: &str, dest: &str) -> WorkItem {
    WorkItem { source_path: path(source), dest_dir: path(dest) }
}

#[test]
fn worker_waits_on_an_open_empty_channel() {
    let mut channel = DispatchChannel::new();
    let config = Config::default();
    let (state, job) = worker(&mut channel, WorkerState::Idle, Encoding::OPUS, &config);
    assert_eq!(state, WorkerState::Receiving);
    assert_eq!(job, None);
    let (state, job) = worker(&mut channel, state, Encoding::OPUS, &config);
    assert_eq!(state, WorkerState::Receiving);
    assert_eq!(job, None);
}

#[test]
fn worker_exits_on_a_closed_empty_channel() {
    let mut channel = DispatchChannel::new();
    channel.close();
    let config = Config::default();
    let (state, job) = worker(&mut channel, WorkerState::Idle, Encoding::OPUS, &config);
    assert_eq!(state, WorkerState::Exited);
    assert_eq!(job, None);
}

#[test]
fn waiting_worker_exits_once_the_channel_is_closed() {
    let mut channel = DispatchChannel::new();
    let config = Config::default();
    let (state, _) = worker(&mut channel, WorkerState::Idle, Encoding::MP3, &config);
    assert_eq!(state, WorkerState::Receiving);
    channel.close();
    let (state, job) = worker(&mut channel, state, Encoding::MP3, &config);
    assert_eq!(state, WorkerState::Exited);
    assert_eq!(job, None);
}

#[test]
fn worker_takes_a_transcode_job() {
    let mut channel = DispatchChannel::new();
    let config = Config::default();
    assert!(channel.send(item("in/a/song.flac", "out/a")).is_ok());
    let (state, job) = worker(&mut channel, WorkerState::Idle, Encoding::OPUS, &config);
    assert_eq!(state, WorkerState::Processing(ProcessingKind::Transcode));
    assert_eq!(
        job,
        Some(Job {
            item: item("in/a/song.flac", "out/a"),
            action: FileAction::Transcode {
                dest_dir: path("out/a"),
                dest_file: path("out/a/song.opus"),
            },
        })
    );
    assert_eq!(channel.len(), 0);
}

#[test]
fn worker_takes_a_copy_job() {
    let mut channel = DispatchChannel::new();
    let config = Config::default();
    assert!(channel.send(item("in/a/cover.png", "out/a")).is_ok());
    let (state, job) = worker(&mut channel, WorkerState::Receiving, Encoding::OPUS, &config);
    assert_eq!(state, WorkerState::Processing(ProcessingKind::Copy));
    assert_eq!(
        job.unwrap().action,
        FileAction::Copy { dest_dir: path("out/a"), dest_file: path("out/a/cover.png") }
    );
}

#[test]
fn worker_skips_what_it_does_not_know() {
    let mut channel = DispatchChannel::with_capacity(2).unwrap();
    let config = Config::default();
    assert!(channel.send(item("in/z/doc.txt", "out/z")).is_ok());
    assert!(channel.send(item("in/y/noext", "out/y")).is_ok());
    let (state, job) = worker(&mut channel, WorkerState::Idle, Encoding::OPUS, &config);
    assert_eq!(state, WorkerState::Processing(ProcessingKind::Skip));
    assert_eq!(job.unwrap().action, FileAction::Unexpected { ext: "txt".to_string() });
    let (state, job) = worker(&mut channel, state, Encoding::OPUS, &config);
    assert_eq!(state, WorkerState::Processing(ProcessingKind::Skip));
    assert_eq!(job.unwrap().action, FileAction::NoExtension);
}

#[test]
fn worker_drains_a_closed_channel_before_it_exits() {
    let mut channel = DispatchChannel::new();
    let config = Config::default();
    assert!(channel.send(item("in/a.mp3", "out")).is_ok());
    channel.close();
    let (state, job) = worker(&mut channel, WorkerState::Idle, Encoding::MP3, &config);
    assert_eq!(state, WorkerState::Processing(ProcessingKind::Copy));
    assert!(job.is_some());
    let (state, job) = worker(&mut channel, state, Encoding::MP3, &config);
    assert_eq!(state, WorkerState::Exited);
    assert_eq!(job, None);
}

#[test]
fn exited_worker_leaves_the_channel_alone() {
    let mut channel = DispatchChannel::new();
    let config = Config::default();
    assert!(channel.send(item("in/a.mp3", "out")).is_ok());
    let (state, job) = worker(&mut channel, WorkerState::Exited, Encoding::MP3, &config);
    assert_eq!(state, WorkerState::Exited);
    assert_eq!(job, None);
    assert_eq!(channel.len(), 1);
}

#[test]
fn two_workers_share_the_items() {
    let mut channel = DispatchChannel::with_capacity(3).unwrap();
    let config = Config::default();
    assert!(channel.send(item("in/1.flac", "out")).is_ok());
    assert!(channel.send(item("in/2.flac", "out")).is_ok());
    assert!(channel.send(item("in/3.flac", "out")).is_ok());
    channel.close();
    let (a, job_a1) = worker(&mut channel, WorkerState::Idle, Encoding::MP3, &config);
    let (b, job_b1) = worker(&mut channel, WorkerState::Idle, Encoding::MP3, &config);
    let (a, job_a2) = worker(&mut channel, a, Encoding::MP3, &config);
    let (b, job_b2) = worker(&mut channel, b, Encoding::MP3, &config);
    let (a, job_a3) = worker(&mut channel, a, Encoding::MP3, &config);
    assert_eq!(job_a1.unwrap().item, item("in/1.flac", "out"));
    assert_eq!(job_b1.unwrap().item, item("in/2.flac", "out"));
    assert_eq!(job_a2.unwrap().item, item("in/3.flac", "out"));
    assert_eq!(job_b2, None);
    assert_eq!(job_a3, None);
    assert_eq!(a, WorkerState::Exited);
    assert_eq!(b, WorkerState::Exited);
}
