//! Coordinator-side behaviour: the session store, the broadcast hub and
//! the per-connection operations.

use chaos_type::coord::Coordinator;
use chaos_type::hub::Hub;
use chaos_type::store::{Mode, SessionStore};
use chaos_type::{get_port, DEFAULT_PORT};

fn b(s: &str) -> Vec<u8> {
    s.as_bytes().to_vec()
}

#[test]
fn empty_session_starts_empty() {
    let store = SessionStore::new(Mode::Word);
    assert_eq!(store.current(), b(""));
}

#[test]
fn char_mode_appends_single_bytes() {
    let mut store = SessionStore::new(Mode::Char);
    assert_eq!(store.append(&b("h")), Some(b("h")));
    assert_eq!(store.append(&b("i")), Some(b("hi")));
    assert_eq!(store.current(), b("hi"));
}

#[test]
fn char_mode_rejects_long_and_whitespace() {
    let mut store = SessionStore::new(Mode::Char);
    assert_eq!(store.append(&b("hi")), None);
    assert_eq!(store.append(&b(" ")), None);
    assert_eq!(store.append(&b("")), None);
    assert_eq!(store.current(), b(""));
}

#[test]
fn word_mode_trims_and_separates() {
    let mut store = SessionStore::new(Mode::Word);
    assert_eq!(store.append(&b("  hello ")), Some(b("hello")));
    assert_eq!(store.append(&b("world")), Some(b("hello world")));
    assert_eq!(store.current(), b("hello world"));
}

#[test]
fn word_mode_rejects_blank_submissions() {
    let mut store = SessionStore::new(Mode::Word);
    assert_eq!(store.append(&b("hello")), Some(b("hello")));
    assert_eq!(store.append(&b("")), None);
    assert_eq!(store.append(&b("   \t\r\n")), None);
    assert_eq!(store.current(), b("hello"));
}

#[test]
fn snapshots_grow_monotonically() {
    let mut store = SessionStore::new(Mode::Word);
    let mut last: Vec<u8> = store.current();
    for sub in ["one", "  two ", "", "three", " "] {
        store.append(&b(sub));
        let snap = store.current();
        assert!(snap.len() >= last.len());
        assert_eq!(&snap[..last.len()], &last[..]);
        last = snap;
    }
    assert_eq!(last, b("one two three"));
}

#[test]
fn serialized_appends_keep_every_contribution_once() {
    let mut store = SessionStore::new(Mode::Char);
    let contributors = ["a", "b", "c", "d", "e"];
    for sub in contributors {
        assert!(store.append(&b(sub)).is_some());
    }
    assert_eq!(store.current(), b("abcde"));
}

#[test]
fn shared_text_scenario() {
    // The coordinator starts empty; B is already connected when A
    // contributes; C connects afterwards.
    let mut coord = Coordinator::new(Mode::Word, 16);
    let (b_id, b_initial) = coord.accept();
    assert_eq!(b_initial, b(""));

    assert!(coord.contribute(&b("hello")));

    let received = coord.deliver(b_id).expect("B should receive a snapshot");
    assert_eq!(received, b("hello"));

    let (_c_id, c_initial) = coord.accept();
    assert_eq!(c_initial, b("hello"));
}

#[test]
fn late_join_sees_all_prior_contributions() {
    let mut coord = Coordinator::new(Mode::Word, 16);
    for sub in ["alpha", "beta", "gamma"] {
        assert!(coord.contribute(&b(sub)));
    }
    let (_id, initial) = coord.accept();
    assert_eq!(initial, b("alpha beta gamma"));
    assert!(initial.len() >= b("alpha beta gamma").len());
}

#[test]
fn snapshot_then_subscribe_race_heals_itself() {
    // A handler reads the current snapshot and only then subscribes; a
    // contribution committed between the two steps is missing from both
    // the snapshot and the queue. Because every publish carries the full
    // text, the next delivered snapshot contains the missed contribution.
    let mut store = SessionStore::new(Mode::Word);
    store.append(&b("first"));
    let initial = store.current();
    let raced = store.append(&b("second"));
    assert!(raced.is_some(), "committed between snapshot and subscribe");
    let mut hub = Hub::new(8);
    let id = hub.subscribe(&initial);
    assert_eq!(hub.recv(id), None, "the raced contribution was missed");

    let full = store.append(&b("third")).expect("valid contribution");
    hub.publish(&full);
    let received = hub.recv(id).expect("a snapshot was published");
    assert_eq!(received, b("first second third"));
}

#[test]
fn rejected_submission_publishes_nothing() {
    let mut coord = Coordinator::new(Mode::Word, 16);
    let (id, _) = coord.accept();
    assert!(!coord.contribute(&b("   ")));
    assert_eq!(coord.deliver(id), None);
}

#[test]
fn lossy_queue_never_delivers_stale_snapshots() {
    // Queue bound 2: after four contributions the two oldest snapshots
    // are dropped; what is delivered still extends everything delivered
    // before.
    let mut coord = Coordinator::new(Mode::Char, 2);
    let (id, _) = coord.accept();
    for sub in ["a", "b", "c", "d"] {
        assert!(coord.contribute(&b(sub)));
    }
    let first = coord.deliver(id).expect("queue holds a snapshot");
    assert_eq!(first, b("abc"));
    let second = coord.deliver(id).expect("queue holds a snapshot");
    assert_eq!(second, b("abcd"));
    assert!(second.len() >= first.len());
    assert_eq!(&second[..first.len()], &first[..]);
    assert_eq!(coord.deliver(id), None);
}

#[test]
fn hub_fans_out_to_every_subscriber() {
    let mut hub = Hub::new(8);
    let empty = b("");
    let one = hub.subscribe(&empty);
    let two = hub.subscribe(&empty);
    hub.publish(&b("x"));
    assert_eq!(hub.recv(one), Some(b("x")));
    assert_eq!(hub.recv(two), Some(b("x")));
    assert_eq!(hub.recv(one), None);
}

#[test]
fn unsubscribed_connection_is_gone() {
    let mut coord = Coordinator::new(Mode::Char, 4);
    let (first, _) = coord.accept();
    let (second, _) = coord.accept();
    assert_eq!((first, second), (0, 1));
    coord.disconnect(first);
    assert!(coord.contribute(&b("z")));
    // The remaining subscription now holds handle 0.
    assert_eq!(coord.deliver(0), Some(b("z")));
}

#[test]
fn port_defaults_when_unset() {
    assert_eq!(get_port(None), DEFAULT_PORT);
    assert_eq!(get_port(None), 9001);
    assert_eq!(get_port(Some(8080)), 8080);
}
