use ingest::db::{upsert_last_fetched, upsert_last_suggested_bytag, PersonRelayRow};
use ingest::error::Error;
use ingest::events::{Event, EventKind, Relationship};
use ingest::process::{
    process_new_event, process_new_event_at, Claims, DeletionClaim, EventRef, ReactionClaim,
    State,
};
use ingest::runtime::{cache_contains, cache_get, claims_of, relationships_of};

fn ev(id: &str, pubkey: &str, created_at: u64, kind: EventKind, content: &str) -> Event {
    Event {
        id: id.to_string(),
        pubkey: pubkey.to_string(),
        created_at,
        kind,
        content: content.to_string(),
        tags: Vec::new(),
        ots: None,
    }
}

fn no_claims() -> Claims {
    Claims {
        replies_to: None,
        ancestors: Vec::new(),
        reacts_to: None,
        deletes: None,
        hashtags: Vec::new(),
    }
}

fn relay() -> Option<String> {
    Some("wss://relay.example.com/".to_string())
}

#[test]
fn ingest_text_note_goes_to_cache_and_store() {
    let mut st = State::new();
    let a = ev("aa01", "pk1", 100, EventKind::TextNote, "hello");
    let r = process_new_event_at(&mut st, &a, &no_claims(), true, relay(), 1000);
    assert!(r.is_ok());
    assert!(cache_contains(&st.runtime.events, &"aa01".to_string()));
    let cached = cache_get(&st.runtime.events, &"aa01".to_string()).unwrap();
    assert_eq!(cached.content, "hello");
    assert_eq!(st.db.events.len(), 1);
    assert_eq!(st.db.events[0].id, "aa01");
    assert_eq!(st.runtime.relationships.len(), 0);
    assert_eq!(st.db.relationships.len(), 0);
    assert_eq!(st.db.event_seen.len(), 1);
    assert_eq!(st.db.event_seen[0].when_seen, 1000);
    assert_eq!(st.runtime.event_is_new, vec!["aa01".to_string()]);
}

#[test]
fn reply_records_relationship_and_desires_missing_parent() {
    let mut st = State::new();
    let b = ev("bb02", "pk1", 101, EventKind::TextNote, "re: hello");
    let claims = Claims {
        replies_to: Some(EventRef { id: "aa01".to_string(), url: relay() }),
        ..no_claims()
    };
    process_new_event_at(&mut st, &b, &claims, true, relay(), 1001).unwrap();
    let rels = relationships_of(&st.runtime.relationships, &"aa01".to_string());
    assert_eq!(rels.len(), 1);
    assert_eq!(rels[0].referring, "bb02");
    assert!(matches!(rels[0].rel, Relationship::Reply));
    // A is absent from the cache, so it is desired, with the relay hint.
    assert_eq!(st.runtime.desired_events.len(), 1);
    assert_eq!(st.runtime.desired_events[0].id, "aa01");
    assert_eq!(st.runtime.desired_events[0].url, relay());
    // The durable row was written too.
    assert_eq!(st.db.relationships.len(), 1);
    assert_eq!(st.db.relationships[0].original, "aa01");
    assert_eq!(st.db.relationships[0].referring, "bb02");
}

#[test]
fn cached_parent_is_not_desired() {
    let mut st = State::new();
    let a = ev("aa01", "pk1", 100, EventKind::TextNote, "hello");
    process_new_event_at(&mut st, &a, &no_claims(), true, relay(), 1000).unwrap();
    let b = ev("bb02", "pk2", 101, EventKind::TextNote, "re: hello");
    let claims = Claims {
        replies_to: Some(EventRef { id: "aa01".to_string(), url: relay() }),
        ..no_claims()
    };
    process_new_event_at(&mut st, &b, &claims, true, relay(), 1001).unwrap();
    assert_eq!(st.runtime.desired_events.len(), 0);
}

#[test]
fn absent_ancestors_are_desired() {
    let mut st = State::new();
    let b = ev("bb02", "pk1", 101, EventKind::TextNote, "deep reply");
    let claims = Claims {
        ancestors: vec![
            EventRef { id: "rr00".to_string(), url: None },
            EventRef { id: "qq00".to_string(), url: relay() },
        ],
        ..no_claims()
    };
    process_new_event_at(&mut st, &b, &claims, true, relay(), 1001).unwrap();
    let ids: Vec<&str> = st.runtime.desired_events.iter().map(|d| d.id.as_str()).collect();
    assert_eq!(ids, vec!["rr00", "qq00"]);
    assert_eq!(st.runtime.desired_events[1].url, relay());
}

#[test]
fn reaction_records_relationship_and_content() {
    let mut st = State::new();
    let c = ev("cc03", "pk2", 102, EventKind::Reaction, "+");
    let claims = Claims {
        reacts_to: Some(ReactionClaim {
            id: "aa01".to_string(),
            content: "+".to_string(),
            url: None,
        }),
        ..no_claims()
    };
    process_new_event_at(&mut st, &c, &claims, true, relay(), 1002).unwrap();
    let rels = relationships_of(&st.runtime.relationships, &"aa01".to_string());
    assert_eq!(rels.len(), 1);
    match &rels[0].rel {
        Relationship::Reaction(s) => assert_eq!(s, "+"),
        _ => panic!("expected a reaction edge"),
    }
    // The reacted-to id is desired since it is absent.
    assert_eq!(st.runtime.desired_events.len(), 1);
    assert_eq!(st.runtime.desired_events[0].id, "aa01");
}

#[test]
fn deletion_is_recorded_but_never_desired() {
    let mut st = State::new();
    let a = ev("aa01", "pk1", 100, EventKind::TextNote, "hello");
    process_new_event_at(&mut st, &a, &no_claims(), true, relay(), 1000).unwrap();
    let c = ev("cc03", "pk1", 103, EventKind::EventDeletion, "spam");
    let claims = Claims {
        deletes: Some(DeletionClaim {
            ids: vec!["aa01".to_string(), "zz09".to_string()],
            reason: "spam".to_string(),
        }),
        ..no_claims()
    };
    process_new_event_at(&mut st, &c, &claims, true, relay(), 1003).unwrap();
    let rels = relationships_of(&st.runtime.relationships, &"aa01".to_string());
    assert_eq!(rels.len(), 1);
    match &rels[0].rel {
        Relationship::Deletion(reason) => assert_eq!(reason, "spam"),
        _ => panic!("expected a deletion edge"),
    }
    // The deleted event stays cached, and nothing is desired, not even the
    // absent deleted id.
    assert!(cache_contains(&st.runtime.events, &"aa01".to_string()));
    assert_eq!(st.runtime.desired_events.len(), 0);
    // The outbound claims of the deletion event are both edges.
    let outbound = claims_of(&st.runtime.relationships, &"cc03".to_string());
    assert_eq!(outbound.len(), 2);
}

#[test]
fn reprocessing_is_idempotent() {
    let mut st = State::new();
    let b = ev("bb02", "pk1", 101, EventKind::TextNote, "re: hello");
    let claims = Claims {
        replies_to: Some(EventRef { id: "aa01".to_string(), url: None }),
        ..no_claims()
    };
    process_new_event_at(&mut st, &b, &claims, true, relay(), 1001).unwrap();
    process_new_event_at(&mut st, &b, &claims, true, relay(), 1005).unwrap();
    // Exactly one event row, one seen row carrying the latest time, and one
    // relationship row.
    assert_eq!(st.db.events.iter().filter(|r| r.id == "bb02").count(), 1);
    let seen: Vec<_> = st.db.event_seen.iter().filter(|r| r.event == "bb02").collect();
    assert_eq!(seen.len(), 1);
    assert_eq!(seen[0].when_seen, 1005);
    assert_eq!(st.db.relationships.len(), 1);
}

#[test]
fn metadata_latest_wins_in_either_order() {
    let older = ev("dd04", "pk9", 500, EventKind::Metadata, "{\"name\":\"alice\"}");
    let newer = ev("ee05", "pk9", 600, EventKind::Metadata, "{\"name\":\"alice2\"}");

    for order in [[&older, &newer], [&newer, &older]] {
        let mut st = State::new();
        for e in order {
            process_new_event_at(&mut st, e, &no_claims(), true, relay(), 2000).unwrap();
        }
        let person: Vec<_> = st.db.people.iter().filter(|p| p.pubkey == "pk9").collect();
        assert_eq!(person.len(), 1);
        let md = person[0].metadata.as_ref().unwrap();
        assert_eq!(md.name.as_deref(), Some("alice2"));
        assert_eq!(person[0].metadata_at, 600);
    }
}

#[test]
fn malformed_metadata_aborts_with_error_but_keeps_earlier_steps() {
    let mut st = State::new();
    let bad = ev("ff06", "pk9", 700, EventKind::Metadata, "not json at all");
    let r = process_new_event_at(&mut st, &bad, &no_claims(), true, relay(), 2000);
    assert_eq!(r, Err(Error::MetadataParse));
    // Earlier steps remain committed; the event is not announced.
    assert_eq!(st.db.events.len(), 1);
    assert!(cache_contains(&st.runtime.events, &"ff06".to_string()));
    assert_eq!(st.runtime.event_is_new.len(), 0);
    assert!(st.db.people.is_empty() || st.db.people[0].metadata.is_none());
}

#[test]
fn tags_become_rows_and_valid_relay_urls_are_discovered() {
    let mut st = State::new();
    let mut a = ev("aa01", "pk1", 100, EventKind::TextNote, "hello");
    a.tags = vec![
        vec![
            "e".to_string(),
            "aa00".to_string(),
            "wss://relay.example.com".to_string(),
            "reply".to_string(),
        ],
        vec!["p".to_string(), "pk7".to_string(), "not a url".to_string()],
        vec!["t".to_string(), "nostr".to_string()],
    ];
    process_new_event_at(&mut st, &a, &no_claims(), true, relay(), 1000).unwrap();
    assert_eq!(st.db.event_tags.len(), 3);
    let row0 = &st.db.event_tags[0];
    assert_eq!(row0.seq, 0);
    assert_eq!(row0.label.as_deref(), Some("e"));
    assert_eq!(row0.field0.as_deref(), Some("aa00"));
    assert_eq!(row0.field1.as_deref(), Some("wss://relay.example.com"));
    assert_eq!(row0.field2.as_deref(), Some("reply"));
    assert_eq!(row0.field3, None);
    // Only the valid relay url was inserted, in canonical form.
    assert_eq!(st.db.relays.len(), 1);
    assert!(st.db.relays[0].url.starts_with("wss://relay.example.com"));
    assert_eq!(st.db.relays[0].success_count, 0);
    // The invalid url on the pubkey tag suggested nothing.
    assert!(st
        .db
        .person_relays
        .iter()
        .all(|r| !(r.person == "pk7" && r.last_suggested_bytag > 0)));
}

#[test]
fn pubkey_tag_with_valid_relay_bumps_last_suggested() {
    let mut st = State::new();
    let mut a = ev("aa01", "pk1", 100, EventKind::TextNote, "hello");
    a.tags = vec![vec![
        "p".to_string(),
        "pk7".to_string(),
        "wss://relay.example.com".to_string(),
    ]];
    process_new_event_at(&mut st, &a, &no_claims(), true, relay(), 4242).unwrap();
    let row: Vec<_> = st.db.person_relays.iter().filter(|r| r.person == "pk7").collect();
    assert_eq!(row.len(), 1);
    assert_eq!(row[0].last_suggested_bytag, 4242);
}

#[test]
fn local_events_touch_memory_but_not_the_store() {
    let mut st = State::new();
    let b = ev("bb02", "pk1", 101, EventKind::TextNote, "local note");
    let claims = Claims {
        replies_to: Some(EventRef { id: "aa01".to_string(), url: None }),
        ..no_claims()
    };
    process_new_event_at(&mut st, &b, &claims, false, None, 0).unwrap();
    assert!(cache_contains(&st.runtime.events, &"bb02".to_string()));
    assert_eq!(st.runtime.relationships.len(), 1);
    assert_eq!(st.db.events.len(), 0);
    assert_eq!(st.db.relationships.len(), 0);
    assert_eq!(st.db.event_seen.len(), 0);
}

#[test]
fn seen_timestamps_never_regress() {
    let mut rows: Vec<PersonRelayRow> = Vec::new();
    let person = "pk1".to_string();
    let url = "wss://relay.example.com/".to_string();
    upsert_last_fetched(&mut rows, &person, &url, 10);
    upsert_last_fetched(&mut rows, &person, &url, 5);
    assert_eq!(rows[0].last_fetched, 10);
    upsert_last_fetched(&mut rows, &person, &url, 20);
    assert_eq!(rows[0].last_fetched, 20);
    upsert_last_suggested_bytag(&mut rows, &person, &url, 7);
    upsert_last_suggested_bytag(&mut rows, &person, &url, 3);
    assert_eq!(rows[0].last_suggested_bytag, 7);
    assert_eq!(rows[0].last_fetched, 20);
    assert_eq!(rows.len(), 1);
}

#[test]
fn clock_reading_entry_point_works() {
    let mut st = State::new();
    let a = ev("aa01", "pk1", 100, EventKind::TextNote, "hello");
    let r = process_new_event(&mut st, &a, &no_claims(), true, relay());
    assert!(r.is_ok());
    assert_eq!(st.db.event_seen.len(), 1);
    assert!(st.db.event_seen[0].when_seen > 0);
}
