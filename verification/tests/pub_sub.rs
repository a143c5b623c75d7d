use atomr::pub_sub::{DistributedPubSub, Subscriber};
use std::sync::mpsc::{channel, Receiver, Sender};

fn inbox(path: &str) -> (Subscriber<Sender<u32>>, Receiver<u32>) {
    let (tx, rx) = channel();
    (Subscriber { path: path.to_string(), handle: tx }, rx)
}

fn tell(msg: u32) -> impl Fn(&Sender<u32>) -> bool {
    move |h: &Sender<u32>| h.send(msg).is_ok()
}

#[test]
fn subscribe_and_publish_returns_subscriber_list() {
    let mut bus: DistributedPubSub<Sender<u32>> = DistributedPubSub::new();
    let (s, _rx) = inbox("s");
    bus.subscribe("greetings".to_string(), s);
    let subs = bus.publish("greetings");
    assert_eq!(subs.len(), 1);
}

#[test]
fn typed_publish_delivers_to_each_subscriber() {
    let mut bus: DistributedPubSub<Sender<u32>> = DistributedPubSub::new();
    let (a, a_rx) = inbox("a");
    let (b, b_rx) = inbox("b");
    bus.subscribe("nums".to_string(), a);
    bus.subscribe("nums".to_string(), b);

    let n = bus.publish_msg("nums", &tell(7));
    assert_eq!(n, 2);

    assert_eq!(a_rx.recv_timeout(std::time::Duration::from_millis(50)).unwrap(), 7);
    assert_eq!(b_rx.recv_timeout(std::time::Duration::from_millis(50)).unwrap(), 7);
}

#[test]
fn publish_to_unknown_topic_delivers_zero() {
    let bus: DistributedPubSub<Sender<u32>> = DistributedPubSub::new();
    let n = bus.publish_msg("nope", &tell(1));
    assert_eq!(n, 0);
}

#[test]
fn group_send_round_robins_one_member() {
    let mut bus: DistributedPubSub<Sender<u32>> = DistributedPubSub::new();
    let (a, a_rx) = inbox("ga");
    let (b, b_rx) = inbox("gb");
    bus.subscribe_to_group("work".to_string(), "G1".to_string(), a);
    bus.subscribe_to_group("work".to_string(), "G1".to_string(), b);

    for i in 0..4u32 {
        assert!(bus.send_to_group("work", "G1", &tell(i)));
    }
    let mut a_count = 0;
    let mut b_count = 0;
    for _ in 0..2 {
        a_rx.recv_timeout(std::time::Duration::from_millis(20)).unwrap();
        a_count += 1;
        b_rx.recv_timeout(std::time::Duration::from_millis(20)).unwrap();
        b_count += 1;
    }
    assert_eq!(a_count, 2);
    assert_eq!(b_count, 2);
}

#[test]
fn group_count_tracks_distinct_buckets() {
    let mut bus: DistributedPubSub<u32> = DistributedPubSub::new();
    let sub = |p: &str| Subscriber { path: p.to_string(), handle: 0u32 };
    bus.subscribe_to_group("t1".to_string(), "G1".to_string(), sub("g"));
    bus.subscribe_to_group("t1".to_string(), "G2".to_string(), sub("g"));
    bus.subscribe_to_group("t2".to_string(), "G1".to_string(), sub("g"));
    assert_eq!(bus.group_count(), 3);
}

#[test]
fn round_robin_starts_at_first_member_and_wraps() {
    let mut bus: DistributedPubSub<u32> = DistributedPubSub::new();
    for (i, p) in ["m0", "m1", "m2"].iter().enumerate() {
        bus.subscribe_to_group("t".to_string(), "g".to_string(), Subscriber { path: p.to_string(), handle: i as u32 });
    }
    let picks: Vec<Option<usize>> = (0..5).map(|_| bus.next_group_member("t", "g")).collect();
    assert_eq!(picks, vec![Some(0), Some(1), Some(2), Some(0), Some(1)]);
    assert_eq!(bus.next_group_member("t", "other"), None);
    assert!(!bus.send_to_group("missing", "g", &|_: &u32| true));
}

#[test]
fn unsubscribe_drops_only_that_path() {
    let mut bus: DistributedPubSub<u32> = DistributedPubSub::new();
    bus.subscribe("t".to_string(), Subscriber { path: "a".to_string(), handle: 1 });
    bus.subscribe("t".to_string(), Subscriber { path: "b".to_string(), handle: 2 });
    bus.subscribe("t".to_string(), Subscriber { path: "a".to_string(), handle: 3 });
    bus.unsubscribe("t", "a");
    let left: Vec<u32> = bus.publish("t").iter().map(|s| s.handle).collect();
    assert_eq!(left, vec![2]);
    bus.unsubscribe("unknown", "b");
    assert_eq!(bus.topic_count(), 1);
}

#[test]
fn failed_deliveries_are_not_counted() {
    let mut bus: DistributedPubSub<u32> = DistributedPubSub::new();
    for h in [1u32, 2, 3, 4] {
        bus.subscribe("t".to_string(), Subscriber { path: format!("p{}", h), handle: h });
    }
    assert_eq!(bus.publish_msg("t", &|h: &u32| *h % 2 == 0), 2);
}
