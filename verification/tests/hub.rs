use bookmark_sync::data::bookmarks::Bookmark;
use bookmark_sync::hub::{
    deliver, tag_all, Delivery, Hub, Received, SyncMessage, HUB_CAPACITY, KEEP_ALIVE_SECS,
};

fn bookmark(id: &str) -> Bookmark {
    Bookmark {
        id: id.to_string(),
        title: "t".to_string(),
        url: "http://t".to_string(),
        created_at: 1,
        updated_at: 2,
        deleted_at: None,
    }
}

fn message(user: &str, id: &str) -> SyncMessage {
    SyncMessage { user_id: user.to_string(), bookmark: bookmark(id) }
}

#[test]
fn constants() {
    assert_eq!(HUB_CAPACITY, 100);
    assert_eq!(KEEP_ALIVE_SECS, 15);
}

#[test]
fn deliver_lets_own_messages_through() {
    assert_eq!(deliver("a", Received::Message(message("a", "1"))), Delivery::Event(bookmark("1")));
}

#[test]
fn deliver_skips_messages_of_others() {
    assert_eq!(deliver("a", Received::Message(message("b", "1"))), Delivery::Skipped);
    assert_eq!(deliver("a", Received::Message(message("", "1"))), Delivery::Skipped);
    assert_eq!(deliver("a", Received::Message(message("ab", "1"))), Delivery::Skipped);
}

#[test]
fn deliver_other_outcomes() {
    assert_eq!(deliver("a", Received::Empty), Delivery::Idle);
    assert_eq!(deliver("a", Received::Closed), Delivery::Closed);
    assert_eq!(deliver("a", Received::Lagged(3)), Delivery::Skipped);
}

#[test]
fn tag_all_keeps_order() {
    let batch = vec![bookmark("2"), bookmark("1"), bookmark("2")];
    assert_eq!(tag_all("u", &batch), vec![message("u", "2"), message("u", "1"), message("u", "2")]);
    assert_eq!(tag_all("u", &vec![]), vec![]);
}

#[test]
fn publish_without_subscribers_does_not_fail() {
    let mut hub = Hub::new();
    hub.publish(message("a", "1"));
    let mut late = hub.subscribe("a".to_string());
    assert_eq!(late.try_next(), Delivery::Idle);
}

#[test]
fn subscriber_sees_what_is_published_after_it_subscribed() {
    let mut hub = Hub::new();
    hub.publish(message("a", "0"));
    let mut subscriber = hub.subscribe("a".to_string());
    hub.publish(message("a", "1"));
    hub.publish(message("a", "2"));
    assert_eq!(subscriber.try_next(), Delivery::Event(bookmark("1")));
    assert_eq!(subscriber.try_next(), Delivery::Event(bookmark("2")));
    assert_eq!(subscriber.try_next(), Delivery::Idle);
}

#[test]
fn subscribers_are_isolated_by_user() {
    let mut hub = Hub::new();
    let mut alice = hub.subscribe("alice".to_string());
    let mut bob = hub.subscribe("bob".to_string());
    hub.publish(message("alice", "1"));
    hub.publish(message("bob", "2"));
    hub.publish(message("alice", "3"));
    let mut seen_by_alice = Vec::new();
    let mut seen_by_bob = Vec::new();
    loop {
        match alice.try_next() {
            Delivery::Event(b) => seen_by_alice.push(b.id),
            Delivery::Skipped => {}
            _ => break,
        }
    }
    loop {
        match bob.try_next() {
            Delivery::Event(b) => seen_by_bob.push(b.id),
            Delivery::Skipped => {}
            _ => break,
        }
    }
    assert_eq!(seen_by_alice, vec!["1", "3"]);
    assert_eq!(seen_by_bob, vec!["2"]);
}

#[test]
fn two_sessions_of_one_user_both_receive() {
    let mut hub = Hub::new();
    let mut phone = hub.subscribe("alice".to_string());
    let mut laptop = hub.subscribe("alice".to_string());
    hub.publish(message("alice", "1"));
    assert_eq!(phone.try_next(), Delivery::Event(bookmark("1")));
    assert_eq!(laptop.try_next(), Delivery::Event(bookmark("1")));
}

#[test]
fn handles_share_one_channel() {
    let hub = Hub::new();
    let mut writer = hub.handle();
    let mut subscriber = hub.subscribe("a".to_string());
    writer.publish(message("a", "1"));
    assert_eq!(subscriber.try_next(), Delivery::Event(bookmark("1")));
}

#[test]
fn publish_all_keeps_order() {
    let mut hub = Hub::new();
    let mut subscriber = hub.subscribe("a".to_string());
    hub.publish_all(vec![message("a", "1"), message("b", "2"), message("a", "3")]);
    assert_eq!(subscriber.try_next(), Delivery::Event(bookmark("1")));
    assert_eq!(subscriber.try_next(), Delivery::Skipped);
    assert_eq!(subscriber.try_next(), Delivery::Event(bookmark("3")));
    assert_eq!(subscriber.try_next(), Delivery::Idle);
}

#[test]
fn slow_subscriber_loses_the_oldest() {
    let mut hub = Hub::with_capacity(2);
    let mut slow = hub.subscribe("a".to_string());
    hub.publish(message("a", "1"));
    hub.publish(message("a", "2"));
    hub.publish(message("a", "3"));
    assert_eq!(slow.try_next(), Delivery::Skipped);
    assert_eq!(slow.try_next(), Delivery::Event(bookmark("2")));
    assert_eq!(slow.try_next(), Delivery::Event(bookmark("3")));
    assert_eq!(slow.try_next(), Delivery::Idle);
}

#[test]
fn stream_ends_when_every_handle_is_gone() {
    let mut hub = Hub::new();
    let mut subscriber = hub.subscribe("a".to_string());
    hub.publish(message("a", "1"));
    drop(hub);
    assert_eq!(subscriber.try_next(), Delivery::Event(bookmark("1")));
    assert_eq!(subscriber.try_next(), Delivery::Closed);
}

#[test]
fn publish_from_many_handles() {
    let hub = Hub::new();
    let mut subscriber = hub.subscribe("a".to_string());
    let mut handles: Vec<Hub> = (0..4).map(|_| hub.handle()).collect();
    for k in 0..10 {
        for (n, handle) in handles.iter_mut().enumerate() {
            handle.publish(message("a", &format!("{}-{}", n, k)));
        }
    }
    let mut seen = Vec::new();
    while let Delivery::Event(b) = subscriber.try_next() {
        seen.push(b.id);
    }
    assert_eq!(seen.len(), 40);
    for n in 0..4 {
        let own: Vec<_> = seen.iter().filter(|id| id.starts_with(&format!("{}-", n))).collect();
        let expected: Vec<_> = (0..10).map(|k| format!("{}-{}", n, k)).collect();
        assert_eq!(own, expected.iter().collect::<Vec<_>>());
    }
}

#[test]
fn capacity_is_rounded_up_to_a_power_of_two() {
    let mut hub = Hub::with_capacity(3);
    let mut slow = hub.subscribe("a".to_string());
    for n in 0..4 {
        hub.publish(message("a", &n.to_string()));
    }
    assert_eq!(slow.try_next(), Delivery::Event(bookmark("0")));
    let mut slower = hub.subscribe("a".to_string());
    for n in 4..9 {
        hub.publish(message("a", &n.to_string()));
    }
    assert_eq!(slower.try_next(), Delivery::Skipped);
    assert_eq!(slower.try_next(), Delivery::Event(bookmark("5")));
}

#[test]
fn server_hub_keeps_at_least_a_hundred() {
    let mut hub = Hub::new();
    let mut slow = hub.subscribe("a".to_string());
    for n in 0..HUB_CAPACITY {
        hub.publish(message("a", &n.to_string()));
    }
    for n in 0..HUB_CAPACITY {
        assert_eq!(slow.try_next(), Delivery::Event(bookmark(&n.to_string())));
    }
    assert_eq!(slow.try_next(), Delivery::Idle);
}

#[test]
fn server_hub_keeps_the_next_power_of_two() {
    let mut hub = Hub::new();
    let mut exact = hub.subscribe("a".to_string());
    for n in 0..128 {
        hub.publish(message("a", &n.to_string()));
    }
    assert_eq!(exact.try_next(), Delivery::Event(bookmark("0")));
    let mut late = hub.subscribe("a".to_string());
    for n in 0..129 {
        hub.publish(message("a", &n.to_string()));
    }
    assert_eq!(late.try_next(), Delivery::Skipped);
    assert_eq!(late.try_next(), Delivery::Event(bookmark("1")));
}
