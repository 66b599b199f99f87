use vstd::prelude::*;

use crate::events::{rel_eq, rel_view_eq, string_eq, EventKind, Metadata, Relationship};

verus! {

/// A durable event record, deduplicated on its id.
pub struct EventRow {
    pub id: String,
    pub pubkey: String,
    pub created_at: u64,
    pub kind: EventKind,
    pub content: String,
    pub ots: Option<String>,
}

/// The most recent observation of an event on a relay, keyed by
/// (event, relay); each write replaces any prior row for that key.
pub struct SeenRow {
    pub event: String,
    pub relay: String,
    pub when_seen: u64,
}

/// One row per (event, tag position), holding the first five positional
/// string fields of the tag; overflow fields are dropped.
pub struct TagRow {
    pub event: String,
    pub seq: u64,
    pub label: Option<String>,
    pub field0: Option<String>,
    pub field1: Option<String>,
    pub field2: Option<String>,
    pub field3: Option<String>,
}

/// A durable relationship edge `referring -> original`, deduplicated on the
/// whole claim.
pub struct RelationshipRow {
    pub original: String,
    pub referring: String,
    pub rel: Relationship,
}

/// One row per (event, hashtag), deduplicated at write time.
pub struct HashtagRow {
    pub event: String,
    pub hashtag: String,
}

/// A known relay, keyed by url. `post` marks relays that locally authored
/// events are published to; `dirty` marks unsaved local edits.
pub struct RelayRow {
    pub url: String,
    pub success_count: u64,
    pub failure_count: u64,
    pub post: bool,
    pub dirty: bool,
}

/// Per (person, relay) bookkeeping; both timestamps only ever grow, with 0
/// standing for "never".
pub struct PersonRelayRow {
    pub person: String,
    pub relay: String,
    pub last_fetched: u64,
    pub last_suggested_bytag: u64,
}

/// A person record; the metadata carries the timestamp of the event it came
/// from, with 0 standing for "none yet".
pub struct PersonRow {
    pub pubkey: String,
    pub metadata: Option<Metadata>,
    pub metadata_at: u64,
}

/// The larger of two timestamps.
pub open spec fn max64(a: u64, b: u64) -> u64 {
    if a >= b {
        a
    } else {
        b
    }
}

pub open spec fn has_event_row(rows: Seq<EventRow>, id: Seq<char>) -> bool {
    exists|i: int| 0 <= i < rows.len() && (#[trigger] rows[i]).id@ == id
}

pub open spec fn event_rows_unique(rows: Seq<EventRow>) -> bool {
    forall|i: int, j: int|
        0 <= i < j < rows.len() ==> (#[trigger] rows[i]).id@ != (#[trigger] rows[j]).id@
}

pub open spec fn has_seen_row(rows: Seq<SeenRow>, event: Seq<char>, relay: Seq<char>) -> bool {
    exists|i: int|
        0 <= i < rows.len() && (#[trigger] rows[i]).event@ == event && rows[i].relay@ == relay
}

pub open spec fn seen_rows_unique(rows: Seq<SeenRow>) -> bool {
    forall|i: int, j: int|
        0 <= i < j < rows.len() ==> !((#[trigger] rows[i]).event@ == (#[trigger] rows[j]).event@
            && rows[i].relay@ == rows[j].relay@)
}

pub open spec fn has_tag_row(rows: Seq<TagRow>, event: Seq<char>, seq: u64) -> bool {
    exists|i: int|
        0 <= i < rows.len() && (#[trigger] rows[i]).event@ == event && rows[i].seq == seq
}

pub open spec fn tag_rows_unique(rows: Seq<TagRow>) -> bool {
    forall|i: int, j: int|
        0 <= i < j < rows.len() ==> !((#[trigger] rows[i]).event@ == (#[trigger] rows[j]).event@
            && rows[i].seq == rows[j].seq)
}

/// Whether two relationship rows make the same claim.
pub open spec fn rel_row_same(a: RelationshipRow, b: RelationshipRow) -> bool {
    a.original@ == b.original@ && a.referring@ == b.referring@ && rel_view_eq(a.rel, b.rel)
}

pub open spec fn has_rel_row(rows: Seq<RelationshipRow>, row: RelationshipRow) -> bool {
    exists|i: int| 0 <= i < rows.len() && rel_row_same(#[trigger] rows[i], row)
}

pub open spec fn rel_rows_unique(rows: Seq<RelationshipRow>) -> bool {
    forall|i: int, j: int|
        0 <= i < j < rows.len() ==> !rel_row_same(#[trigger] rows[i], #[trigger] rows[j])
}

pub open spec fn has_hashtag_row(rows: Seq<HashtagRow>, event: Seq<char>, tag: Seq<char>) -> bool {
    exists|i: int|
        0 <= i < rows.len() && (#[trigger] rows[i]).event@ == event && rows[i].hashtag@ == tag
}

pub open spec fn hashtag_rows_unique(rows: Seq<HashtagRow>) -> bool {
    forall|i: int, j: int|
        0 <= i < j < rows.len() ==> !((#[trigger] rows[i]).event@ == (#[trigger] rows[j]).event@
            && rows[i].hashtag@ == rows[j].hashtag@)
}

pub open spec fn has_relay_row(rows: Seq<RelayRow>, url: Seq<char>) -> bool {
    exists|i: int| 0 <= i < rows.len() && (#[trigger] rows[i]).url@ == url
}

pub open spec fn relay_rows_unique(rows: Seq<RelayRow>) -> bool {
    forall|i: int, j: int|
        0 <= i < j < rows.len() ==> (#[trigger] rows[i]).url@ != (#[trigger] rows[j]).url@
}

pub open spec fn has_pr_row(
    rows: Seq<PersonRelayRow>,
    person: Seq<char>,
    relay: Seq<char>,
) -> bool {
    exists|i: int|
        0 <= i < rows.len() && (#[trigger] rows[i]).person@ == person && rows[i].relay@ == relay
}

/// Some row for (person, relay) has `last_fetched` at least `v`.
pub open spec fn pr_lf_at_least(
    rows: Seq<PersonRelayRow>,
    person: Seq<char>,
    relay: Seq<char>,
    v: u64,
) -> bool {
    exists|i: int|
        0 <= i < rows.len() && (#[trigger] rows[i]).person@ == person && rows[i].relay@ == relay
            && rows[i].last_fetched >= v
}

/// Some row for (person, relay) has `last_suggested_bytag` at least `v`.
pub open spec fn pr_lsb_at_least(
    rows: Seq<PersonRelayRow>,
    person: Seq<char>,
    relay: Seq<char>,
    v: u64,
) -> bool {
    exists|i: int|
        0 <= i < rows.len() && (#[trigger] rows[i]).person@ == person && rows[i].relay@ == relay
            && rows[i].last_suggested_bytag >= v
}

pub open spec fn pr_rows_unique(rows: Seq<PersonRelayRow>) -> bool {
    forall|i: int, j: int|
        0 <= i < j < rows.len() ==> !((#[trigger] rows[i]).person@ == (#[trigger] rows[j]).person@
            && rows[i].relay@ == rows[j].relay@)
}

pub open spec fn has_person_row(rows: Seq<PersonRow>, pubkey: Seq<char>) -> bool {
    exists|i: int| 0 <= i < rows.len() && (#[trigger] rows[i]).pubkey@ == pubkey
}

pub open spec fn person_rows_unique(rows: Seq<PersonRow>) -> bool {
    forall|i: int, j: int|
        0 <= i < j < rows.len() ==> (#[trigger] rows[i]).pubkey@ != (#[trigger] rows[j]).pubkey@
}

/// The durable store: every table the pipeline writes, modeled as the
/// sequence of its rows. Each table's primary key is unique (`wf`), which
/// the insert/upsert/replace operations below preserve.
pub struct Db {
    pub events: Vec<EventRow>,
    pub event_seen: Vec<SeenRow>,
    pub event_tags: Vec<TagRow>,
    pub relationships: Vec<RelationshipRow>,
    pub hashtags: Vec<HashtagRow>,
    pub relays: Vec<RelayRow>,
    pub person_relays: Vec<PersonRelayRow>,
    pub people: Vec<PersonRow>,
}

impl Db {
    /// Every table is keyed uniquely.
    pub open spec fn wf(self) -> bool {
        &&& event_rows_unique(self.events@)
        &&& seen_rows_unique(self.event_seen@)
        &&& tag_rows_unique(self.event_tags@)
        &&& rel_rows_unique(self.relationships@)
        &&& hashtag_rows_unique(self.hashtags@)
        &&& relay_rows_unique(self.relays@)
        &&& pr_rows_unique(self.person_relays@)
        &&& person_rows_unique(self.people@)
    }

    /// An empty store.
    pub fn new() -> (r: Db)
        ensures
            r.wf(),
            r.events@.len() == 0,
            r.event_seen@.len() == 0,
            r.event_tags@.len() == 0,
            r.relationships@.len() == 0,
            r.hashtags@.len() == 0,
            r.relays@.len() == 0,
            r.person_relays@.len() == 0,
            r.people@.len() == 0,
    {
        Db {
            events: Vec::new(),
            event_seen: Vec::new(),
            event_tags: Vec::new(),
            relationships: Vec::new(),
            hashtags: Vec::new(),
            relays: Vec::new(),
            person_relays: Vec::new(),
            people: Vec::new(),
        }
    }
}

/// Insert an event record; a no-op if the id already has a row.
pub fn insert_event_row(rows: &mut Vec<EventRow>, row: EventRow)
    ensures
        has_event_row(old(rows)@, row.id@) ==> final(rows)@ == old(rows)@,
        !has_event_row(old(rows)@, row.id@) ==> final(rows)@ == old(rows)@.push(row),
        event_rows_unique(old(rows)@) ==> event_rows_unique(final(rows)@),
        has_event_row(final(rows)@, row.id@),
        forall|x: Seq<char>| has_event_row(old(rows)@, x) ==> #[trigger] has_event_row(
            final(rows)@,
            x,
        ),
{
    let mut i: usize = 0;
    while i < rows.len()
        invariant
            i <= rows.len(),
            rows@ == old(rows)@,
            forall|j: int| 0 <= j < i ==> (#[trigger] rows@[j]).id@ != row.id@,
        decreases rows.len() - i,
    {
        if string_eq(&rows[i].id, &row.id) {
            return ;
        }
        i += 1;
    }
    rows.push(row);
    proof {
        assert(final(rows)@[final(rows)@.len() - 1].id@ == row.id@);
        assert forall|x: Seq<char>| has_event_row(old(rows)@, x) implies has_event_row(
            final(rows)@,
            x,
        ) by {
            let w = choose|w: int|
                0 <= w < old(rows)@.len() && (#[trigger] old(rows)@[w]).id@ == x;
            assert(final(rows)@[w].id@ == x);
        }
    }
}

/// Replace the (event, relay) seen row with `row`, or append it.
pub fn replace_seen_row(rows: &mut Vec<SeenRow>, row: SeenRow)
    ensures
        (exists|i: int|
            0 <= i < old(rows)@.len() && (#[trigger] old(rows)@[i]).event@ == row.event@
                && old(rows)@[i].relay@ == row.relay@ && final(rows)@ == old(rows)@.update(i, row))
            || (!has_seen_row(old(rows)@, row.event@, row.relay@) && final(rows)@ == old(rows)@.push(row)),
        seen_rows_unique(old(rows)@) ==> seen_rows_unique(final(rows)@),
        has_seen_row(final(rows)@, row.event@, row.relay@),
        forall|e: Seq<char>, u: Seq<char>| has_seen_row(old(rows)@, e, u) ==> #[trigger] has_seen_row(
            final(rows)@,
            e,
            u,
        ),
{
    let mut i: usize = 0;
    while i < rows.len()
        invariant
            i <= rows.len(),
            rows@ == old(rows)@,
            forall|j: int|
                0 <= j < i ==> !((#[trigger] rows@[j]).event@ == row.event@ && rows@[j].relay@
                    == row.relay@),
        decreases rows.len() - i,
    {
        if string_eq(&rows[i].event, &row.event) && string_eq(&rows[i].relay, &row.relay) {
            let ghost idx = i as int;
            rows[i] = row;
            proof {
                assert forall|e: Seq<char>, u: Seq<char>| has_seen_row(old(rows)@, e, u)
                    implies has_seen_row(final(rows)@, e, u) by {
                    let w = choose|w: int|
                        0 <= w < old(rows)@.len() && (#[trigger] old(rows)@[w]).event@ == e && old(rows)@[w].relay@ == u;
                    if w == idx {
                        assert(final(rows)@[idx].event@ == e && final(rows)@[idx].relay@ == u);
                    } else {
                        assert(final(rows)@[w].event@ == e && final(rows)@[w].relay@ == u);
                    }
                }
            }
            return ;
        }
        i += 1;
    }
    rows.push(row);
    proof {
        assert(final(rows)@[final(rows)@.len() - 1].event@ == row.event@);
        assert forall|e: Seq<char>, u: Seq<char>| has_seen_row(old(rows)@, e, u) implies has_seen_row(
            final(rows)@,
            e, u,
        ) by {
            let w = choose|w: int|
                0 <= w < old(rows)@.len() && (#[trigger] old(rows)@[w]).event@ == e && old(rows)@[w].relay@ == u;
            assert(final(rows)@[w].event@ == e && final(rows)@[w].relay@ == u);
        }
    }
}

/// Insert a tag row; a no-op if the (event, seq) key already has one.
pub fn insert_tag_row(rows: &mut Vec<TagRow>, row: TagRow)
    ensures
        has_tag_row(old(rows)@, row.event@, row.seq) ==> final(rows)@ == old(rows)@,
        !has_tag_row(old(rows)@, row.event@, row.seq) ==> final(rows)@ == old(rows)@.push(row),
        tag_rows_unique(old(rows)@) ==> tag_rows_unique(final(rows)@),
        has_tag_row(final(rows)@, row.event@, row.seq),
        forall|e: Seq<char>, q: u64| has_tag_row(old(rows)@, e, q) ==> #[trigger] has_tag_row(
            final(rows)@,
            e,
            q,
        ),
        forall|r2: TagRow| old(rows)@.contains(r2) ==> #[trigger] final(rows)@.contains(r2),
{
    let mut i: usize = 0;
    while i < rows.len()
        invariant
            i <= rows.len(),
            rows@ == old(rows)@,
            forall|j: int|
                0 <= j < i ==> !((#[trigger] rows@[j]).event@ == row.event@ && rows@[j].seq
                    == row.seq),
        decreases rows.len() - i,
    {
        if string_eq(&rows[i].event, &row.event) && rows[i].seq == row.seq {
            return ;
        }
        i += 1;
    }
    rows.push(row);
    proof {
        assert(final(rows)@[final(rows)@.len() - 1].event@ == row.event@);
        assert forall|e: Seq<char>, q: u64| has_tag_row(old(rows)@, e, q) implies has_tag_row(
            final(rows)@,
            e, q,
        ) by {
            let w = choose|w: int|
                0 <= w < old(rows)@.len() && (#[trigger] old(rows)@[w]).event@ == e && old(rows)@[w].seq == q;
            assert(final(rows)@[w].event@ == e && final(rows)@[w].seq == q);
        }
        assert forall|r2: TagRow| old(rows)@.contains(r2) implies final(rows)@.contains(r2) by {
            let w = choose|w: int| 0 <= w < old(rows)@.len() && old(rows)@[w] == r2;
            assert(final(rows)@[w] == r2);
        }
    }
}

/// Insert a relationship row; a no-op if the same claim is already recorded.
pub fn insert_rel_row(rows: &mut Vec<RelationshipRow>, row: RelationshipRow)
    ensures
        has_rel_row(old(rows)@, row) ==> final(rows)@ == old(rows)@,
        !has_rel_row(old(rows)@, row) ==> final(rows)@ == old(rows)@.push(row),
        rel_rows_unique(old(rows)@) ==> rel_rows_unique(final(rows)@),
        has_rel_row(final(rows)@, row),
        forall|r2: RelationshipRow| has_rel_row(old(rows)@, r2) ==> #[trigger] has_rel_row(
            final(rows)@,
            r2,
        ),
{
    let mut i: usize = 0;
    while i < rows.len()
        invariant
            i <= rows.len(),
            rows@ == old(rows)@,
            forall|j: int| 0 <= j < i ==> !rel_row_same(#[trigger] rows@[j], row),
        decreases rows.len() - i,
    {
        if string_eq(&rows[i].original, &row.original) && string_eq(
            &rows[i].referring,
            &row.referring,
        ) && rel_eq(&rows[i].rel, &row.rel) {
            return ;
        }
        i += 1;
    }
    rows.push(row);
    proof {
        assert(rel_row_same(final(rows)@[final(rows)@.len() - 1], row));
        assert forall|r2: RelationshipRow| has_rel_row(old(rows)@, r2) implies has_rel_row(
            final(rows)@,
            r2,
        ) by {
            let w = choose|w: int|
                0 <= w < old(rows)@.len() && rel_row_same(#[trigger] old(rows)@[w], r2);
            assert(rel_row_same(final(rows)@[w], r2));
        }
    }
}

/// Insert a hashtag row; a no-op if the (event, hashtag) pair is recorded.
pub fn insert_hashtag_row(rows: &mut Vec<HashtagRow>, row: HashtagRow)
    ensures
        has_hashtag_row(old(rows)@, row.event@, row.hashtag@) ==> final(rows)@ == old(rows)@,
        !has_hashtag_row(old(rows)@, row.event@, row.hashtag@) ==> final(rows)@ == old(rows)@.push(row),
        hashtag_rows_unique(old(rows)@) ==> hashtag_rows_unique(final(rows)@),
        has_hashtag_row(final(rows)@, row.event@, row.hashtag@),
        forall|e: Seq<char>, t: Seq<char>| has_hashtag_row(old(rows)@, e, t)
            ==> #[trigger] has_hashtag_row(final(rows)@, e, t),
        forall|r2: HashtagRow| old(rows)@.contains(r2) ==> #[trigger] final(rows)@.contains(r2),
{
    let mut i: usize = 0;
    while i < rows.len()
        invariant
            i <= rows.len(),
            rows@ == old(rows)@,
            forall|j: int|
                0 <= j < i ==> !((#[trigger] rows@[j]).event@ == row.event@ && rows@[j].hashtag@
                    == row.hashtag@),
        decreases rows.len() - i,
    {
        if string_eq(&rows[i].event, &row.event) && string_eq(&rows[i].hashtag, &row.hashtag) {
            return ;
        }
        i += 1;
    }
    rows.push(row);
    proof {
        assert(final(rows)@[final(rows)@.len() - 1].event@ == row.event@);
        assert forall|e: Seq<char>, t: Seq<char>| has_hashtag_row(old(rows)@, e, t) implies has_hashtag_row(
            final(rows)@,
            e, t,
        ) by {
            let w = choose|w: int|
                0 <= w < old(rows)@.len() && (#[trigger] old(rows)@[w]).event@ == e && old(rows)@[w].hashtag@ == t;
            assert(final(rows)@[w].event@ == e && final(rows)@[w].hashtag@ == t);
        }
        assert forall|r2: HashtagRow| old(rows)@.contains(r2) implies final(rows)@.contains(
            r2,
        ) by {
            let w = choose|w: int| 0 <= w < old(rows)@.len() && old(rows)@[w] == r2;
            assert(final(rows)@[w] == r2);
        }
    }
}

/// Insert a relay record for `url` with zeroed counters, unless one exists.
pub fn insert_relay_if_absent(rows: &mut Vec<RelayRow>, url: String)
    ensures
        has_relay_row(old(rows)@, url@) ==> final(rows)@ == old(rows)@,
        !has_relay_row(old(rows)@, url@) ==> final(rows)@ == old(rows)@.push(
            (RelayRow {
                url: url,
                success_count: 0,
                failure_count: 0,
                post: false,
                dirty: false,
            }),
        ),
        relay_rows_unique(old(rows)@) ==> relay_rows_unique(final(rows)@),
        has_relay_row(final(rows)@, url@),
        forall|x: Seq<char>| has_relay_row(old(rows)@, x) ==> #[trigger] has_relay_row(
            final(rows)@,
            x,
        ),
{
    let mut i: usize = 0;
    while i < rows.len()
        invariant
            i <= rows.len(),
            rows@ == old(rows)@,
            forall|j: int| 0 <= j < i ==> (#[trigger] rows@[j]).url@ != url@,
        decreases rows.len() - i,
    {
        if string_eq(&rows[i].url, &url) {
            return ;
        }
        i += 1;
    }
    rows.push(RelayRow { url, success_count: 0, failure_count: 0, post: false, dirty: false });
    proof {
        assert(final(rows)@[final(rows)@.len() - 1].url@ == url@);
        assert forall|x: Seq<char>| has_relay_row(old(rows)@, x) implies has_relay_row(
            final(rows)@,
            x,
        ) by {
            let w = choose|w: int|
                0 <= w < old(rows)@.len() && (#[trigger] old(rows)@[w]).url@ == x;
            assert(final(rows)@[w].url@ == x);
        }
    }
}

/// Create a person record if none exists for `pubkey`; never overwrites.
pub fn create_person_if_missing(rows: &mut Vec<PersonRow>, pubkey: &String)
    ensures
        has_person_row(old(rows)@, pubkey@) ==> final(rows)@ == old(rows)@,
        !has_person_row(old(rows)@, pubkey@) ==> final(rows)@ == old(rows)@.push(
            (PersonRow { pubkey: *pubkey, metadata: None, metadata_at: 0 }),
        ),
        person_rows_unique(old(rows)@) ==> person_rows_unique(final(rows)@),
        has_person_row(final(rows)@, pubkey@),
        forall|x: Seq<char>| has_person_row(old(rows)@, x) ==> #[trigger] has_person_row(
            final(rows)@,
            x,
        ),
{
    let mut i: usize = 0;
    while i < rows.len()
        invariant
            i <= rows.len(),
            rows@ == old(rows)@,
            forall|j: int| 0 <= j < i ==> (#[trigger] rows@[j]).pubkey@ != pubkey@,
        decreases rows.len() - i,
    {
        if string_eq(&rows[i].pubkey, pubkey) {
            return ;
        }
        i += 1;
    }
    rows.push(PersonRow { pubkey: pubkey.clone(), metadata: None, metadata_at: 0 });
    proof {
        assert(final(rows)@[final(rows)@.len() - 1].pubkey@ == pubkey@);
        assert forall|x: Seq<char>| has_person_row(old(rows)@, x) implies has_person_row(
            final(rows)@,
            x,
        ) by {
            let w = choose|w: int|
                0 <= w < old(rows)@.len() && (#[trigger] old(rows)@[w]).pubkey@ == x;
            assert(final(rows)@[w].pubkey@ == x);
        }
    }
}

/// The row as it stands after an upsert of `last_fetched` to at least `when`.
pub open spec fn bumped_last_fetched(r: PersonRelayRow, when: u64) -> PersonRelayRow {
    PersonRelayRow {
        person: r.person,
        relay: r.relay,
        last_fetched: max64(r.last_fetched, when),
        last_suggested_bytag: r.last_suggested_bytag,
    }
}

/// The row as it stands after an upsert of `last_suggested_bytag`.
pub open spec fn bumped_last_suggested(r: PersonRelayRow, when: u64) -> PersonRelayRow {
    PersonRelayRow {
        person: r.person,
        relay: r.relay,
        last_fetched: r.last_fetched,
        last_suggested_bytag: max64(r.last_suggested_bytag, when),
    }
}

/// Neither timestamp of any row ever decreases, and keys stay in place.
pub open spec fn pr_rows_monotone(pre: Seq<PersonRelayRow>, post: Seq<PersonRelayRow>) -> bool {
    &&& post.len() >= pre.len()
    &&& forall|i: int|
        0 <= i < pre.len() ==> (#[trigger] post[i]).person@ == pre[i].person@ && post[i].relay@
            == pre[i].relay@ && post[i].last_fetched >= pre[i].last_fetched
            && post[i].last_suggested_bytag >= pre[i].last_suggested_bytag
}

/// Raise `last_fetched` for (person, relay) to at least `when`, keeping the
/// maximum of the existing and new timestamp; creates the row if missing.
pub fn upsert_last_fetched(rows: &mut Vec<PersonRelayRow>, person: &String, relay: &String, when: u64)
    ensures
        (exists|i: int|
            0 <= i < old(rows)@.len() && (#[trigger] old(rows)@[i]).person@ == person@ && old(rows)@[i].relay@ == relay@ && final(rows)@ == old(rows)@.update(
                i,
                bumped_last_fetched(old(rows)@[i], when),
            )) || (!has_pr_row(old(rows)@, person@, relay@) && final(rows)@ == old(rows)@.push(
            (PersonRelayRow {
                person: *person,
                relay: *relay,
                last_fetched: when,
                last_suggested_bytag: 0,
            }),
        )),
        pr_rows_monotone(old(rows)@, final(rows)@),
        pr_rows_unique(old(rows)@) ==> pr_rows_unique(final(rows)@),
        has_pr_row(final(rows)@, person@, relay@),
        forall|p2: Seq<char>, r2: Seq<char>| has_pr_row(old(rows)@, p2, r2)
            ==> #[trigger] has_pr_row(final(rows)@, p2, r2),
        pr_lf_at_least(final(rows)@, person@, relay@, when),
        forall|p2: Seq<char>, r2: Seq<char>, v: u64|
            pr_lf_at_least(old(rows)@, p2, r2, v) ==> #[trigger] pr_lf_at_least(
                final(rows)@,
                p2,
                r2,
                v,
            ),
        forall|p2: Seq<char>, r2: Seq<char>, v: u64|
            pr_lsb_at_least(old(rows)@, p2, r2, v) ==> #[trigger] pr_lsb_at_least(
                final(rows)@,
                p2,
                r2,
                v,
            ),
{
    let mut i: usize = 0;
    while i < rows.len()
        invariant
            i <= rows.len(),
            rows@ == old(rows)@,
            forall|j: int|
                0 <= j < i ==> !((#[trigger] rows@[j]).person@ == person@ && rows@[j].relay@
                    == relay@),
        decreases rows.len() - i,
    {
        if string_eq(&rows[i].person, person) && string_eq(&rows[i].relay, relay) {
            let ghost idx = i as int;
            let lf = rows[i].last_fetched;
            if when > lf {
                rows[i].last_fetched = when;
            }
            proof {
                assert(final(rows)@ =~= old(rows)@.update(
                    idx,
                    bumped_last_fetched(old(rows)@[idx], when),
                ));
        assert forall|p2: Seq<char>, r2: Seq<char>| has_pr_row(old(rows)@, p2, r2)
            implies has_pr_row(final(rows)@, p2, r2) by {
            let w = choose|w: int|
                0 <= w < old(rows)@.len() && (#[trigger] old(rows)@[w]).person@ == p2 && old(rows)@[w].relay@ == r2;
            assert(final(rows)@[w].person@ == p2 && final(rows)@[w].relay@ == r2);
        }
        assert forall|p2: Seq<char>, r2: Seq<char>, v: u64|
            pr_lf_at_least(old(rows)@, p2, r2, v) implies pr_lf_at_least(
            final(rows)@,
            p2,
            r2,
            v,
        ) by {
            let w = choose|w: int|
                0 <= w < old(rows)@.len() && (#[trigger] old(rows)@[w]).person@ == p2 && old(rows)@[w].relay@ == r2 && old(rows)@[w].last_fetched >= v;
            assert(final(rows)@[w].person@ == p2 && final(rows)@[w].relay@ == r2 && final(rows)@[w].last_fetched >= v);
        }
        assert forall|p2: Seq<char>, r2: Seq<char>, v: u64|
            pr_lsb_at_least(old(rows)@, p2, r2, v) implies pr_lsb_at_least(
            final(rows)@,
            p2,
            r2,
            v,
        ) by {
            let w = choose|w: int|
                0 <= w < old(rows)@.len() && (#[trigger] old(rows)@[w]).person@ == p2 && old(rows)@[w].relay@ == r2 && old(rows)@[w].last_suggested_bytag >= v;
            assert(final(rows)@[w].person@ == p2 && final(rows)@[w].relay@ == r2 && final(rows)@[w].last_suggested_bytag >= v);
        }
            }
            return ;
        }
        i += 1;
    }
    rows.push(
        PersonRelayRow {
            person: person.clone(),
            relay: relay.clone(),
            last_fetched: when,
            last_suggested_bytag: 0,
        },
    );
    proof {
        assert(final(rows)@[final(rows)@.len() - 1].person@ == person@);
        assert forall|p2: Seq<char>, r2: Seq<char>| has_pr_row(old(rows)@, p2, r2)
            implies has_pr_row(final(rows)@, p2, r2) by {
            let w = choose|w: int|
                0 <= w < old(rows)@.len() && (#[trigger] old(rows)@[w]).person@ == p2 && old(rows)@[w].relay@ == r2;
            assert(final(rows)@[w].person@ == p2 && final(rows)@[w].relay@ == r2);
        }
        assert forall|p2: Seq<char>, r2: Seq<char>, v: u64|
            pr_lf_at_least(old(rows)@, p2, r2, v) implies pr_lf_at_least(
            final(rows)@,
            p2,
            r2,
            v,
        ) by {
            let w = choose|w: int|
                0 <= w < old(rows)@.len() && (#[trigger] old(rows)@[w]).person@ == p2 && old(rows)@[w].relay@ == r2 && old(rows)@[w].last_fetched >= v;
            assert(final(rows)@[w].person@ == p2 && final(rows)@[w].relay@ == r2 && final(rows)@[w].last_fetched >= v);
        }
        assert forall|p2: Seq<char>, r2: Seq<char>, v: u64|
            pr_lsb_at_least(old(rows)@, p2, r2, v) implies pr_lsb_at_least(
            final(rows)@,
            p2,
            r2,
            v,
        ) by {
            let w = choose|w: int|
                0 <= w < old(rows)@.len() && (#[trigger] old(rows)@[w]).person@ == p2 && old(rows)@[w].relay@ == r2 && old(rows)@[w].last_suggested_bytag >= v;
            assert(final(rows)@[w].person@ == p2 && final(rows)@[w].relay@ == r2 && final(rows)@[w].last_suggested_bytag >= v);
        }
    }
}

/// Raise `last_suggested_bytag` for (person, relay) to at least `when`,
/// keeping the maximum; creates the row if missing.
pub fn upsert_last_suggested_bytag(
    rows: &mut Vec<PersonRelayRow>,
    person: &String,
    relay: &String,
    when: u64,
)
    ensures
        (exists|i: int|
            0 <= i < old(rows)@.len() && (#[trigger] old(rows)@[i]).person@ == person@ && old(rows)@[i].relay@ == relay@ && final(rows)@ == old(rows)@.update(
                i,
                bumped_last_suggested(old(rows)@[i], when),
            )) || (!has_pr_row(old(rows)@, person@, relay@) && final(rows)@ == old(rows)@.push(
            (PersonRelayRow {
                person: *person,
                relay: *relay,
                last_fetched: 0,
                last_suggested_bytag: when,
            }),
        )),
        pr_rows_monotone(old(rows)@, final(rows)@),
        pr_rows_unique(old(rows)@) ==> pr_rows_unique(final(rows)@),
        has_pr_row(final(rows)@, person@, relay@),
        forall|p2: Seq<char>, r2: Seq<char>| has_pr_row(old(rows)@, p2, r2)
            ==> #[trigger] has_pr_row(final(rows)@, p2, r2),
        pr_lsb_at_least(final(rows)@, person@, relay@, when),
        forall|p2: Seq<char>, r2: Seq<char>, v: u64|
            pr_lf_at_least(old(rows)@, p2, r2, v) ==> #[trigger] pr_lf_at_least(
                final(rows)@,
                p2,
                r2,
                v,
            ),
        forall|p2: Seq<char>, r2: Seq<char>, v: u64|
            pr_lsb_at_least(old(rows)@, p2, r2, v) ==> #[trigger] pr_lsb_at_least(
                final(rows)@,
                p2,
                r2,
                v,
            ),
{
    let mut i: usize = 0;
    while i < rows.len()
        invariant
            i <= rows.len(),
            rows@ == old(rows)@,
            forall|j: int|
                0 <= j < i ==> !((#[trigger] rows@[j]).person@ == person@ && rows@[j].relay@
                    == relay@),
        decreases rows.len() - i,
    {
        if string_eq(&rows[i].person, person) && string_eq(&rows[i].relay, relay) {
            let ghost idx = i as int;
            let ls = rows[i].last_suggested_bytag;
            if when > ls {
                rows[i].last_suggested_bytag = when;
            }
            proof {
                assert(final(rows)@ =~= old(rows)@.update(
                    idx,
                    bumped_last_suggested(old(rows)@[idx], when),
                ));
        assert forall|p2: Seq<char>, r2: Seq<char>| has_pr_row(old(rows)@, p2, r2)
            implies has_pr_row(final(rows)@, p2, r2) by {
            let w = choose|w: int|
                0 <= w < old(rows)@.len() && (#[trigger] old(rows)@[w]).person@ == p2 && old(rows)@[w].relay@ == r2;
            assert(final(rows)@[w].person@ == p2 && final(rows)@[w].relay@ == r2);
        }
        assert forall|p2: Seq<char>, r2: Seq<char>, v: u64|
            pr_lf_at_least(old(rows)@, p2, r2, v) implies pr_lf_at_least(
            final(rows)@,
            p2,
            r2,
            v,
        ) by {
            let w = choose|w: int|
                0 <= w < old(rows)@.len() && (#[trigger] old(rows)@[w]).person@ == p2 && old(rows)@[w].relay@ == r2 && old(rows)@[w].last_fetched >= v;
            assert(final(rows)@[w].person@ == p2 && final(rows)@[w].relay@ == r2 && final(rows)@[w].last_fetched >= v);
        }
        assert forall|p2: Seq<char>, r2: Seq<char>, v: u64|
            pr_lsb_at_least(old(rows)@, p2, r2, v) implies pr_lsb_at_least(
            final(rows)@,
            p2,
            r2,
            v,
        ) by {
            let w = choose|w: int|
                0 <= w < old(rows)@.len() && (#[trigger] old(rows)@[w]).person@ == p2 && old(rows)@[w].relay@ == r2 && old(rows)@[w].last_suggested_bytag >= v;
            assert(final(rows)@[w].person@ == p2 && final(rows)@[w].relay@ == r2 && final(rows)@[w].last_suggested_bytag >= v);
        }
            }
            return ;
        }
        i += 1;
    }
    rows.push(
        PersonRelayRow {
            person: person.clone(),
            relay: relay.clone(),
            last_fetched: 0,
            last_suggested_bytag: when,
        },
    );
    proof {
        assert(final(rows)@[final(rows)@.len() - 1].person@ == person@);
        assert forall|p2: Seq<char>, r2: Seq<char>| has_pr_row(old(rows)@, p2, r2)
            implies has_pr_row(final(rows)@, p2, r2) by {
            let w = choose|w: int|
                0 <= w < old(rows)@.len() && (#[trigger] old(rows)@[w]).person@ == p2 && old(rows)@[w].relay@ == r2;
            assert(final(rows)@[w].person@ == p2 && final(rows)@[w].relay@ == r2);
        }
        assert forall|p2: Seq<char>, r2: Seq<char>, v: u64|
            pr_lf_at_least(old(rows)@, p2, r2, v) implies pr_lf_at_least(
            final(rows)@,
            p2,
            r2,
            v,
        ) by {
            let w = choose|w: int|
                0 <= w < old(rows)@.len() && (#[trigger] old(rows)@[w]).person@ == p2 && old(rows)@[w].relay@ == r2 && old(rows)@[w].last_fetched >= v;
            assert(final(rows)@[w].person@ == p2 && final(rows)@[w].relay@ == r2 && final(rows)@[w].last_fetched >= v);
        }
        assert forall|p2: Seq<char>, r2: Seq<char>, v: u64|
            pr_lsb_at_least(old(rows)@, p2, r2, v) implies pr_lsb_at_least(
            final(rows)@,
            p2,
            r2,
            v,
        ) by {
            let w = choose|w: int|
                0 <= w < old(rows)@.len() && (#[trigger] old(rows)@[w]).person@ == p2 && old(rows)@[w].relay@ == r2 && old(rows)@[w].last_suggested_bytag >= v;
            assert(final(rows)@[w].person@ == p2 && final(rows)@[w].relay@ == r2 && final(rows)@[w].last_suggested_bytag >= v);
        }
    }
}

/// The person row as it stands after merging metadata stamped `at`: the
/// merge happens only if `at` is strictly newer than what is stored.
pub open spec fn merged_metadata(p: PersonRow, md: Metadata, at: u64) -> PersonRow {
    if at > p.metadata_at {
        PersonRow { pubkey: p.pubkey, metadata: Some(md), metadata_at: at }
    } else {
        p
    }
}

/// Merge profile metadata into the person record, newest timestamp wins;
/// creates the record if missing.
pub fn update_person_metadata(rows: &mut Vec<PersonRow>, pubkey: &String, md: Metadata, at: u64)
    ensures
        (exists|i: int|
            0 <= i < old(rows)@.len() && (#[trigger] old(rows)@[i]).pubkey@ == pubkey@ && final(rows)@ == old(rows)@.update(i, merged_metadata(old(rows)@[i], md, at))) || (!has_person_row(
            old(rows)@,
            pubkey@,
        ) && final(rows)@ == old(rows)@.push(
            merged_metadata((PersonRow { pubkey: *pubkey, metadata: None, metadata_at: 0 }), md, at),
        )),
        person_rows_unique(old(rows)@) ==> person_rows_unique(final(rows)@),
        has_person_row(final(rows)@, pubkey@),
        forall|x: Seq<char>| has_person_row(old(rows)@, x) ==> #[trigger] has_person_row(
            final(rows)@,
            x,
        ),
{
    let mut i: usize = 0;
    while i < rows.len()
        invariant
            i <= rows.len(),
            rows@ == old(rows)@,
            forall|j: int| 0 <= j < i ==> (#[trigger] rows@[j]).pubkey@ != pubkey@,
        decreases rows.len() - i,
    {
        if string_eq(&rows[i].pubkey, pubkey) {
            let ghost idx = i as int;
            let at_old = rows[i].metadata_at;
            if at > at_old {
                rows[i].metadata = Some(md);
                rows[i].metadata_at = at;
            }
            proof {
                assert(final(rows)@ =~= old(rows)@.update(
                    idx,
                    merged_metadata(old(rows)@[idx], md, at),
                ));
                assert forall|x: Seq<char>| has_person_row(old(rows)@, x) implies has_person_row(
                    final(rows)@,
                    x,
                ) by {
                    let w = choose|w: int|
                        0 <= w < old(rows)@.len() && (#[trigger] old(rows)@[w]).pubkey@ == x;
                    assert(final(rows)@[w].pubkey@ == x);
                }
            }
            return ;
        }
        i += 1;
    }
    let fresh = if at > 0 {
        PersonRow { pubkey: pubkey.clone(), metadata: Some(md), metadata_at: at }
    } else {
        PersonRow { pubkey: pubkey.clone(), metadata: None, metadata_at: 0 }
    };
    rows.push(fresh);
    proof {
        assert(final(rows)@[final(rows)@.len() - 1].pubkey@ == pubkey@);
        assert forall|x: Seq<char>| has_person_row(old(rows)@, x) implies has_person_row(
            final(rows)@,
            x,
        ) by {
            let w = choose|w: int|
                0 <= w < old(rows)@.len() && (#[trigger] old(rows)@[w]).pubkey@ == x;
            assert(final(rows)@[w].pubkey@ == x);
        }
    }
}

} // verus!
