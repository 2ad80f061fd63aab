use media_mirror::channel::DispatchChannel;
use media_mirror::channel::Received;
use media_mirror::channel::SendError;
use media_mirror::channel::CHANNEL_CAPACITY;
use media_mirror::discover::WorkItem;

fn item(n: usize) -> WorkItem {
    WorkItem {
        source_path: vec!["in".to_string(), format!("track{}.flac", n)],
        dest_dir: vec!["out".to_string()],
    }
}

#[test]
fn new_channel_is_open_and_empty() {
    let channel = DispatchChannel::new();
    assert_eq!(CHANNEL_CAPACITY, 1);
    assert_eq!(channel.capacity(), 1);
    assert_eq!(channel.len(), 0);
    assert!(channel.is_empty());
    assert!(!channel.is_full());
    assert!(!channel.is_closed());
}

#[test]
fn capacity_zero_is_refused() {
    assert!(DispatchChannel::with_capacity(0).is_none());
}

#[test]
fn with_capacity_keeps_the_capacity() {
    let channel = DispatchChannel::with_capacity(3).unwrap();
    assert_eq!(channel.capacity(), 3);
    assert_eq!(channel.len(), 0);
    assert!(!channel.is_closed());
}

#[test]
fn item_goes_through() {
    let mut channel = DispatchChannel::new();
    assert_eq!(channel.send(item(1)), Ok(()));
    assert_eq!(channel.len(), 1);
    assert!(channel.is_full());
    assert_eq!(channel.recv(), Received::Item(item(1)));
    assert_eq!(channel.len(), 0);
    assert!(channel.is_empty());
}

#[test]
fn full_channel_hands_the_item_back() {
    let mut channel = DispatchChannel::new();
    assert_eq!(channel.send(item(1)), Ok(()));
    assert_eq!(channel.send(item(2)), Err(SendError::Full(item(2))));
    assert_eq!(channel.len(), 1);
    assert_eq!(channel.recv(), Received::Item(item(1)));
    assert_eq!(channel.send(item(2)), Ok(()));
    assert_eq!(channel.recv(), Received::Item(item(2)));
}

#[test]
fn open_empty_channel_answers_empty() {
    let mut channel = DispatchChannel::new();
    assert_eq!(channel.recv(), Received::Empty);
    assert_eq!(channel.recv(), Received::Empty);
    assert!(!channel.is_closed());
}

#[test]
fn closed_channel_takes_nothing() {
    let mut channel = DispatchChannel::new();
    channel.close();
    assert!(channel.is_closed());
    assert_eq!(channel.send(item(1)), Err(SendError::Closed(item(1))));
    assert_eq!(channel.len(), 0);
}

#[test]
fn closed_is_reported_before_full() {
    let mut channel = DispatchChannel::new();
    assert_eq!(channel.send(item(1)), Ok(()));
    channel.close();
    assert_eq!(channel.send(item(2)), Err(SendError::Closed(item(2))));
}

#[test]
fn closed_channel_drains_before_it_reports_closed() {
    let mut channel = DispatchChannel::with_capacity(2).unwrap();
    assert_eq!(channel.send(item(1)), Ok(()));
    assert_eq!(channel.send(item(2)), Ok(()));
    channel.close();
    assert_eq!(channel.recv(), Received::Item(item(1)));
    assert_eq!(channel.recv(), Received::Item(item(2)));
    assert_eq!(channel.recv(), Received::Closed);
    assert_eq!(channel.recv(), Received::Closed);
}

#[test]
fn closing_twice_changes_nothing() {
    let mut channel = DispatchChannel::new();
    assert_eq!(channel.send(item(7)), Ok(()));
    channel.close();
    channel.close();
    assert!(channel.is_closed());
    assert_eq!(channel.len(), 1);
    assert_eq!(channel.recv(), Received::Item(item(7)));
    assert_eq!(channel.recv(), Received::Closed);
}

#[test]
fn items_come_out_in_the_order_they_went_in() {
    let mut channel = DispatchChannel::with_capacity(4).unwrap();
    for n in 0..4 {
        assert_eq!(channel.send(item(n)), Ok(()));
    }
    assert!(channel.is_full());
    assert_eq!(channel.send(item(4)), Err(SendError::Full(item(4))));
    for n in 0..4 {
        assert_eq!(channel.recv(), Received::Item(item(n)));
    }
    assert_eq!(channel.recv(), Received::Empty);
}

#[test]
fn producer_is_never_more_than_one_item_ahead() {
    let mut channel = DispatchChannel::new();
    let mut delivered = 0;
    for n in 0..5000 {
        assert_eq!(channel.send(item(n)), Ok(()));
        assert!(channel.len() <= 1);
        assert_eq!(channel.send(item(n + 1)), Err(SendError::Full(item(n + 1))));
        assert!(channel.len() <= 1);
        assert_eq!(channel.recv(), Received::Item(item(n)));
        delivered += 1;
        assert_eq!(channel.len(), 0);
    }
    channel.close();
    assert_eq!(channel.recv(), Received::Closed);
    assert_eq!(delivered, 5000);
}

#[test]
fn every_item_is_delivered_once_to_one_of_two_receivers() {
    let mut channel = DispatchChannel::with_capacity(2).unwrap();
    let mut first = Vec::new();
    let mut second = Vec::new();
    let mut next = 0;
    let total = 9;
    let mut turn = 0;
    loop {
        while next < total {
            match channel.send(item(next)) {
                Ok(()) => next += 1,
                Err(SendError::Full(back)) => {
                    assert_eq!(back, item(next));
                    break;
                }
                Err(SendError::Closed(_)) => panic!("closed too early"),
            }
        }
        if next == total {
            channel.close();
        }
        let got = channel.recv();
        match got {
            Received::Item(it) => {
                if turn % 3 == 0 {
                    first.push(it);
                } else {
                    second.push(it);
                }
            }
            Received::Closed => break,
            Received::Empty => panic!("nothing to receive"),
        }
        turn += 1;
    }
    let mut all = first.clone();
    all.extend(second.iter().cloned());
    assert_eq!(all.len(), total);
    for n in 0..total {
        assert_eq!(all.iter().filter(|it| **it == item(n)).count(), 1);
    }
}
