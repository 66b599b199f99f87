use vstd::prelude::*;

use crate::db::{relay_rows_unique, RelayRow};
use crate::events::{string_eq, Event, Relationship};

verus! {

/// An in-memory relationship edge: the `referring` event claims a
/// relationship toward the `original` event.
pub struct Edge {
    pub original: String,
    pub referring: String,
    pub rel: Relationship,
}

/// An event id referenced by known data but not yet retrieved, with an
/// optional relay hint for where to fetch it.
pub struct DesiredEvent {
    pub id: String,
    pub url: Option<String>,
}

/// Whether the cache holds an event whose id reads `id`.
pub open spec fn cache_has(events: Seq<Event>, id: Seq<char>) -> bool {
    exists|i: int| 0 <= i < events.len() && (#[trigger] events[i]).id@ == id
}

pub open spec fn cache_unique(events: Seq<Event>) -> bool {
    forall|i: int, j: int|
        0 <= i < j < events.len() ==> (#[trigger] events[i]).id@ != (#[trigger] events[j]).id@
}

/// The process-wide shared containers: the event cache keyed by event id,
/// the relationship multimap (held flat, keyed by `original` on query), the
/// desired-event queue, the newly-processed notification list, and the
/// in-memory relay table. Concurrency control around this structure is the
/// caller's: one writer at a time.
pub struct Runtime {
    pub events: Vec<Event>,
    pub relationships: Vec<Edge>,
    pub desired_events: Vec<DesiredEvent>,
    pub event_is_new: Vec<String>,
    pub relays: Vec<RelayRow>,
}

impl Runtime {
    /// The cache holds one entry per id, and the relay table one per url.
    pub open spec fn wf(self) -> bool {
        &&& cache_unique(self.events@)
        &&& relay_rows_unique(self.relays@)
    }

    /// Empty shared state.
    pub fn new() -> (r: Runtime)
        ensures
            r.wf(),
            r.events@.len() == 0,
            r.relationships@.len() == 0,
            r.desired_events@.len() == 0,
            r.event_is_new@.len() == 0,
            r.relays@.len() == 0,
    {
        Runtime {
            events: Vec::new(),
            relationships: Vec::new(),
            desired_events: Vec::new(),
            event_is_new: Vec::new(),
            relays: Vec::new(),
        }
    }
}

/// Insert `ev` into the cache, overwriting any entry with the same id, so
/// the cache always reflects the newest in-memory copy.
pub fn cache_insert(events: &mut Vec<Event>, ev: Event)
    ensures
        (exists|i: int|
            0 <= i < old(events)@.len() && (#[trigger] old(events)@[i]).id@ == ev.id@ && final(events)@ == old(events)@.update(i, ev)) || (!cache_has(old(events)@, ev.id@) && final(events)@ == old(events)@.push(ev)),
        cache_unique(old(events)@) ==> cache_unique(final(events)@),
        cache_has(final(events)@, ev.id@),
        exists|i: int| 0 <= i < final(events)@.len() && (#[trigger] final(events)@[i]) == ev,
        forall|x: Seq<char>|
            #[trigger] cache_has(final(events)@, x) == (cache_has(old(events)@, x) || x == ev.id@),
{
    let mut i: usize = 0;
    while i < events.len()
        invariant
            i <= events.len(),
            events@ == old(events)@,
            forall|j: int| 0 <= j < i ==> (#[trigger] events@[j]).id@ != ev.id@,
        decreases events.len() - i,
    {
        if string_eq(&events[i].id, &ev.id) {
            let ghost idx = i as int;
            let ghost evg = ev;
            events[i] = ev;
            proof {
                assert(final(events)@ =~= old(events)@.update(idx, evg));
                assert(final(events)@[idx] == evg);
                assert forall|x: Seq<char>| #[trigger]
                    cache_has(final(events)@, x) == (cache_has(old(events)@, x) || x
                        == evg.id@) by {
                    if cache_has(old(events)@, x) {
                        let w = choose|k: int|
                            0 <= k < old(events)@.len() && (#[trigger] old(events)@[k]).id@ == x;
                        if w == idx {
                            assert(final(events)@[idx].id@ == evg.id@);
                        } else {
                            assert(final(events)@[w].id@ == x);
                        }
                    }
                    if cache_has(final(events)@, x) {
                        let w = choose|k: int|
                            0 <= k < final(events)@.len() && (#[trigger] final(events)@[k]).id@
                                == x;
                        if w != idx {
                            assert(old(events)@[w].id@ == x);
                        }
                    }
                }
            }
            return ;
        }
        i += 1;
    }
    let ghost evg = ev;
    events.push(ev);
    proof {
        assert(final(events)@[final(events)@.len() - 1] == evg);
        assert(final(events)@[final(events)@.len() - 1].id@ == evg.id@);
        assert forall|x: Seq<char>| #[trigger]
            cache_has(final(events)@, x) == (cache_has(old(events)@, x) || x == evg.id@) by {
            if cache_has(old(events)@, x) {
                let w = choose|k: int|
                    0 <= k < old(events)@.len() && (#[trigger] old(events)@[k]).id@ == x;
                assert(final(events)@[w].id@ == x);
            }
            if cache_has(final(events)@, x) {
                let w = choose|k: int|
                    0 <= k < final(events)@.len() && (#[trigger] final(events)@[k]).id@ == x;
                if w < old(events)@.len() {
                    assert(old(events)@[w].id@ == x);
                }
            }
        }
    }
}

/// Whether the cache holds an event with this id.
pub fn cache_contains(events: &Vec<Event>, id: &String) -> (r: bool)
    ensures
        r == cache_has(events@, id@),
{
    let mut i: usize = 0;
    while i < events.len()
        invariant
            i <= events.len(),
            forall|j: int| 0 <= j < i ==> (#[trigger] events@[j]).id@ != id@,
        decreases events.len() - i,
    {
        if string_eq(&events[i].id, id) {
            return true;
        }
        i += 1;
    }
    false
}

/// The cached event with this id, if any.
pub fn cache_get<'a>(events: &'a Vec<Event>, id: &String) -> (r: Option<&'a Event>)
    ensures
        match r {
            Some(e) => e.id@ == id@ && (exists|i: int|
                0 <= i < events@.len() && (#[trigger] events@[i]) == *e),
            None => !cache_has(events@, id@),
        },
{
    let mut i: usize = 0;
    while i < events.len()
        invariant
            i <= events.len(),
            forall|j: int| 0 <= j < i ==> (#[trigger] events@[j]).id@ != id@,
        decreases events.len() - i,
    {
        if string_eq(&events[i].id, id) {
            return Some(&events[i]);
        }
        i += 1;
    }
    None
}

/// The predicate "this edge's original id reads `id`".
pub open spec fn edge_original_is(id: Seq<char>) -> spec_fn(Edge) -> bool {
    |e: Edge| e.original@ == id
}

/// The predicate "this edge's referring id reads `id`".
pub open spec fn edge_referring_is(id: Seq<char>) -> spec_fn(Edge) -> bool {
    |e: Edge| e.referring@ == id
}

/// The predicate "this relay row is marked for posting".
pub open spec fn relay_is_post() -> spec_fn(RelayRow) -> bool {
    |x: RelayRow| x.post
}

/// A copy of an edge with the same contents.
pub fn edge_clone(e: &Edge) -> (r: Edge)
    ensures
        r == *e,
{
    let rel = match &e.rel {
        Relationship::Reply => Relationship::Reply,
        Relationship::Reaction(s) => Relationship::Reaction(s.clone()),
        Relationship::Deletion(s) => Relationship::Deletion(s.clone()),
    };
    Edge { original: e.original.clone(), referring: e.referring.clone(), rel }
}

/// All relationships where the given event is the `original`: its replies,
/// reactions and deletion claims, in insertion order.
pub fn relationships_of(rels: &Vec<Edge>, id: &String) -> (r: Vec<Edge>)
    ensures
        r@ == rels@.filter(edge_original_is(id@)),
{
    let mut r: Vec<Edge> = Vec::new();
    let mut i: usize = 0;
    while i < rels.len()
        invariant
            i <= rels.len(),
            r@ == rels@.take(i as int).filter(edge_original_is(id@)),
        decreases rels.len() - i,
    {
        let ghost pred = edge_original_is(id@);
        if string_eq(&rels[i].original, id) {
            r.push(edge_clone(&rels[i]));
        }
        proof {
            broadcast use Seq::lemma_filter_push;

            assert(rels@.take(i + 1) =~= rels@.take(i as int).push(rels@[i as int]));
        }
        i += 1;
    }
    proof {
        assert(rels@.take(rels@.len() as int) =~= rels@);
    }
    r
}

/// All outbound claims of the given event: the edges where it is the
/// `referring` side, in insertion order.
pub fn claims_of(rels: &Vec<Edge>, id: &String) -> (r: Vec<Edge>)
    ensures
        r@ == rels@.filter(edge_referring_is(id@)),
{
    let mut r: Vec<Edge> = Vec::new();
    let mut i: usize = 0;
    while i < rels.len()
        invariant
            i <= rels.len(),
            r@ == rels@.take(i as int).filter(edge_referring_is(id@)),
        decreases rels.len() - i,
    {
        let ghost pred = edge_referring_is(id@);
        if string_eq(&rels[i].referring, id) {
            r.push(edge_clone(&rels[i]));
        }
        proof {
            broadcast use Seq::lemma_filter_push;

            assert(rels@.take(i + 1) =~= rels@.take(i as int).push(rels@[i as int]));
        }
        i += 1;
    }
    proof {
        assert(rels@.take(rels@.len() as int) =~= rels@);
    }
    r
}

/// Mark or unmark a known relay as one to post to; the edit is local and
/// unsaved, so the row is marked dirty. Unknown urls are left alone.
pub fn set_relay_post(relays: &mut Vec<RelayRow>, url: &String, post: bool)
    ensures
        (exists|i: int|
            0 <= i < old(relays)@.len() && (#[trigger] old(relays)@[i]).url@ == url@ && final(relays)@ == old(relays)@.update(
                i,
                (RelayRow {
                    url: old(relays)@[i].url,
                    success_count: old(relays)@[i].success_count,
                    failure_count: old(relays)@[i].failure_count,
                    post: post,
                    dirty: true,
                }),
            )) || (!has_relay_url(old(relays)@, url@) && final(relays)@ == old(relays)@),
        relay_rows_unique(old(relays)@) ==> relay_rows_unique(final(relays)@),
{
    let mut i: usize = 0;
    while i < relays.len()
        invariant
            i <= relays.len(),
            relays@ == old(relays)@,
            forall|j: int| 0 <= j < i ==> (#[trigger] relays@[j]).url@ != url@,
        decreases relays.len() - i,
    {
        if string_eq(&relays[i].url, url) {
            let ghost idx = i as int;
            relays[i].post = post;
            relays[i].dirty = true;
            proof {
                assert(final(relays)@ =~= old(relays)@.update(
                    idx,
                    (RelayRow {
                        url: old(relays)@[idx].url,
                        success_count: old(relays)@[idx].success_count,
                        failure_count: old(relays)@[idx].failure_count,
                        post: post,
                        dirty: true,
                    }),
                ));
            }
            return ;
        }
        i += 1;
    }
}

/// Whether the relay table has a row for this url.
pub open spec fn has_relay_url(relays: Seq<RelayRow>, url: Seq<char>) -> bool {
    exists|i: int| 0 <= i < relays.len() && (#[trigger] relays[i]).url@ == url
}

/// A copy of a relay row with the same contents.
pub fn relay_row_clone(r: &RelayRow) -> (c: RelayRow)
    ensures
        c == *r,
{
    RelayRow {
        url: r.url.clone(),
        success_count: r.success_count,
        failure_count: r.failure_count,
        post: r.post,
        dirty: r.dirty,
    }
}

/// The relays marked for posting, in table order.
pub fn post_relays(relays: &Vec<RelayRow>) -> (r: Vec<RelayRow>)
    ensures
        r@ == relays@.filter(relay_is_post()),
{
    let mut r: Vec<RelayRow> = Vec::new();
    let mut i: usize = 0;
    while i < relays.len()
        invariant
            i <= relays.len(),
            r@ == relays@.take(i as int).filter(relay_is_post()),
        decreases relays.len() - i,
    {
        let ghost pred = relay_is_post();
        if relays[i].post {
            r.push(relay_row_clone(&relays[i]));
        }
        proof {
            broadcast use Seq::lemma_filter_push;

            assert(relays@.take(i + 1) =~= relays@.take(i as int).push(relays@[i as int]));
        }
        i += 1;
    }
    proof {
        assert(relays@.take(relays@.len() as int) =~= relays@);
    }
    r
}

} // verus!
