use ingest::db::{insert_relay_if_absent, RelayRow};
use ingest::events::EventKind;
use ingest::process::{process_new_event_at, Claims, State};
use ingest::runtime::{post_relays, set_relay_post};

fn relay_rows() -> Vec<RelayRow> {
    let mut rows: Vec<RelayRow> = Vec::new();
    insert_relay_if_absent(&mut rows, "wss://one.example.com/".to_string());
    insert_relay_if_absent(&mut rows, "wss://two.example.com/".to_string());
    rows
}

#[test]
fn inserting_a_known_relay_changes_nothing() {
    let mut rows = relay_rows();
    insert_relay_if_absent(&mut rows, "wss://one.example.com/".to_string());
    assert_eq!(rows.len(), 2);
}

#[test]
fn marking_a_relay_for_posting_sets_the_dirty_flag() {
    let mut rows = relay_rows();
    set_relay_post(&mut rows, &"wss://two.example.com/".to_string(), true);
    assert!(!rows[0].post);
    assert!(!rows[0].dirty);
    assert!(rows[1].post);
    assert!(rows[1].dirty);
    // Unknown urls are left alone.
    set_relay_post(&mut rows, &"wss://nine.example.com/".to_string(), true);
    assert_eq!(rows.len(), 2);
}

#[test]
fn post_relays_lists_exactly_the_marked_ones() {
    let mut rows = relay_rows();
    set_relay_post(&mut rows, &"wss://one.example.com/".to_string(), true);
    let posting = post_relays(&rows);
    assert_eq!(posting.len(), 1);
    assert_eq!(posting[0].url, "wss://one.example.com/");
    set_relay_post(&mut rows, &"wss://one.example.com/".to_string(), false);
    assert_eq!(post_relays(&rows).len(), 0);
}

#[test]
fn hashtags_are_stored_once_per_pair() {
    let mut st = State::new();
    let a = ingest::events::Event {
        id: "aa01".to_string(),
        pubkey: "pk1".to_string(),
        created_at: 100,
        kind: EventKind::TextNote,
        content: "hello #nostr".to_string(),
        tags: Vec::new(),
        ots: None,
    };
    let claims = Claims {
        replies_to: None,
        ancestors: Vec::new(),
        reacts_to: None,
        deletes: None,
        hashtags: vec!["nostr".to_string(), "intro".to_string(), "nostr".to_string()],
    };
    process_new_event_at(&mut st, &a, &claims, true, None, 1000).unwrap();
    assert_eq!(st.db.hashtags.len(), 2);
    assert_eq!(st.db.hashtags[0].hashtag, "nostr");
    assert_eq!(st.db.hashtags[1].hashtag, "intro");
}
