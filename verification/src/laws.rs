use vstd::prelude::*;

use crate::db::{
    bumped_last_fetched, bumped_last_suggested, event_rows_unique, max64, merged_metadata,
    has_person_row, person_rows_unique, rel_row_same, rel_rows_unique, seen_rows_unique,
    EventRow, PersonRelayRow, PersonRow, RelationshipRow, SeenRow,
};
use crate::events::Metadata;
use crate::process::{fetch_target, people_merged, Claims};
use crate::runtime::DesiredEvent;

verus! {

/// A uniquely keyed event table holds at most one row per id; with
/// `process_new_event_at` ensuring the id has a row and preserving
/// uniqueness, reprocessing an event leaves exactly one row for it.
pub proof fn lemma_event_rows_at_most_one(rows: Seq<EventRow>, id: Seq<char>)
    requires
        event_rows_unique(rows),
    ensures
        forall|i: int, j: int|
            0 <= i < rows.len() && 0 <= j < rows.len() && (#[trigger] rows[i]).id@ == id && (
            #[trigger] rows[j]).id@ == id ==> i == j,
{
}

/// A uniquely keyed seen table holds at most one row per (event, relay), so
/// reprocessing keeps one row carrying the latest observation time.
pub proof fn lemma_seen_rows_at_most_one(rows: Seq<SeenRow>, event: Seq<char>, relay: Seq<char>)
    requires
        seen_rows_unique(rows),
    ensures
        forall|i: int, j: int|
            0 <= i < rows.len() && 0 <= j < rows.len() && (#[trigger] rows[i]).event@ == event
                && rows[i].relay@ == relay && (#[trigger] rows[j]).event@ == event
                && rows[j].relay@ == relay ==> i == j,
{
}

/// A uniquely keyed relationship table holds at most one row per claim, so
/// reprocessing an event does not duplicate its relationship rows.
pub proof fn lemma_rel_rows_at_most_one(rows: Seq<RelationshipRow>, row: RelationshipRow)
    requires
        rel_rows_unique(rows),
    ensures
        forall|i: int, j: int|
            0 <= i < rows.len() && 0 <= j < rows.len() && rel_row_same(#[trigger] rows[i], row)
                && rel_row_same(#[trigger] rows[j], row) ==> i == j,
{
    assert forall|i: int, j: int|
        0 <= i < rows.len() && 0 <= j < rows.len() && rel_row_same(#[trigger] rows[i], row)
            && rel_row_same(#[trigger] rows[j], row) implies i == j by {
        if i < j {
            assert(rel_row_same(rows[i], rows[j]));
        }
        if j < i {
            assert(rel_row_same(rows[j], rows[i]));
        }
    }
}

/// Keep-the-maximum timestamp upserts reach the same row in any order of
/// application, and never below what was stored: `last_fetched` and
/// `last_suggested_bytag` never decrease, for all orderings of calls.
pub proof fn lemma_upsert_order_independent(r: PersonRelayRow, a: u64, b: u64)
    ensures
        bumped_last_fetched(bumped_last_fetched(r, a), b) == bumped_last_fetched(
            bumped_last_fetched(r, b),
            a,
        ),
        bumped_last_suggested(bumped_last_suggested(r, a), b) == bumped_last_suggested(
            bumped_last_suggested(r, b),
            a,
        ),
        bumped_last_fetched(r, a).last_fetched >= r.last_fetched,
        bumped_last_suggested(r, a).last_suggested_bytag >= r.last_suggested_bytag,
        max64(max64(r.last_fetched, a), b) == max64(max64(r.last_fetched, b), a),
{
}

/// Metadata merging is newest-wins in either arrival order: two metadata
/// events stamped `t1 < t2`, merged in whichever order they arrive, leave
/// the person record reflecting the `t2` metadata.
pub proof fn lemma_metadata_latest_wins(p: PersonRow, md1: Metadata, t1: u64, md2: Metadata, t2: u64)
    requires
        t1 < t2,
    ensures
        merged_metadata(merged_metadata(p, md1, t1), md2, t2) == merged_metadata(
            merged_metadata(p, md2, t2),
            md1,
            t1,
        ),
        p.metadata_at < t2 ==> merged_metadata(merged_metadata(p, md1, t1), md2, t2) == (PersonRow {
            pubkey: p.pubkey,
            metadata: Some(md2),
            metadata_at: t2,
        }),
        p.metadata_at < t2 ==> merged_metadata(merged_metadata(p, md2, t2), md1, t1) == (PersonRow {
            pubkey: p.pubkey,
            metadata: Some(md2),
            metadata_at: t2,
        }),
{
}

/// Two metadata merges for one author, arriving in either order at a table
/// that does not know the author yet, leave the table extended by exactly
/// one record: the author carrying the metadata of the later-stamped event.
/// `first` and `second` are the arrival order; the conclusion goes by the
/// stamps alone, so swapping the arrival order gives the same final table.
pub proof fn lemma_fresh_author_latest_wins(
    rows: Seq<PersonRow>,
    mid: Seq<PersonRow>,
    post: Seq<PersonRow>,
    pubkey: String,
    first_md: Metadata,
    first_at: u64,
    second_md: Metadata,
    second_at: u64,
)
    requires
        0 < first_at,
        0 < second_at,
        first_at != second_at,
        person_rows_unique(rows),
        !has_person_row(rows, pubkey@),
        people_merged(rows, mid, pubkey, first_md, first_at),
        people_merged(mid, post, pubkey, second_md, second_at),
    ensures
        first_at < second_at ==> post == rows.push(
            (PersonRow { pubkey: pubkey, metadata: Some(second_md), metadata_at: second_at }),
        ),
        second_at < first_at ==> post == rows.push(
            (PersonRow { pubkey: pubkey, metadata: Some(first_md), metadata_at: first_at }),
        ),
{
    let fresh = PersonRow { pubkey: pubkey, metadata: None, metadata_at: 0 };
    let r1 = merged_metadata(fresh, first_md, first_at);
    // The author is unknown, so the first merge appended a record.
    assert forall|i: int| 0 <= i < rows.len() implies (#[trigger] rows[i]).pubkey@ != pubkey@ by {
        if rows[i].pubkey@ == pubkey@ {
            assert(has_person_row(rows, pubkey@));
        }
    }
    assert(mid == rows.push(r1));
    let n = rows.len() as int;
    assert(mid[n] == r1 && r1.pubkey@ == pubkey@);
    // The second merge found exactly that record.
    assert(has_person_row(mid, pubkey@));
    let w = choose|i: int|
        0 <= i < mid.len() && (#[trigger] mid[i]).pubkey@ == pubkey@ && post == mid.update(
            i,
            merged_metadata(mid[i], second_md, second_at),
        );
    assert(w == n);
    if second_at > first_at {
        assert(post =~= rows.push(
            (PersonRow { pubkey: pubkey, metadata: Some(second_md), metadata_at: second_at }),
        ));
    } else {
        assert(post =~= rows.push(r1));
    }
}

/// An event whose only claims are deletions makes nothing a fetch target:
/// a deletion never enqueues the deleted id as desired, however absent it
/// is from the cache.
pub proof fn lemma_deletion_never_fetch_target(claims: Claims, d: DesiredEvent)
    requires
        claims.replies_to is None,
        claims.reacts_to is None,
        claims.ancestors@.len() == 0,
    ensures
        !fetch_target(claims, d),
{
}

} // verus!
