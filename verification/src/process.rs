use vstd::prelude::*;

use crate::db::{
    create_person_if_missing, has_event_row, has_hashtag_row, has_person_row, has_rel_row,
    has_relay_row, has_seen_row, has_tag_row, hashtag_rows_unique, insert_event_row,
    insert_hashtag_row, insert_rel_row, insert_relay_if_absent, insert_tag_row, merged_metadata,
    pr_lf_at_least, pr_lsb_at_least, pr_rows_monotone, pr_rows_unique, rel_rows_unique, relay_rows_unique, replace_seen_row,
    tag_rows_unique, update_person_metadata, upsert_last_fetched, upsert_last_suggested_bytag,
    Db, EventRow, HashtagRow, PersonRelayRow, PersonRow, RelationshipRow, RelayRow, SeenRow,
    TagRow,
};
use crate::error::Error;
use crate::events::{clone_opt_string, string_is, Event, EventKind, Metadata, Relationship};
use crate::outside::{
    check_relay_url, metadata_of, metadata_parses, parse_metadata, relay_url_canon, unixtime_now,
};
use crate::runtime::{cache_contains, cache_has, cache_insert, DesiredEvent, Edge, Runtime};

verus! {

/// A reference to another event, as the protocol-semantics resolver yields
/// it: the referenced id and an optional relay hint.
pub struct EventRef {
    pub id: String,
    pub url: Option<String>,
}

/// A reaction claim: the reacted-to id, the reaction content, and an
/// optional relay hint.
pub struct ReactionClaim {
    pub id: String,
    pub content: String,
    pub url: Option<String>,
}

/// A deletion claim: the deleted ids and the stated reason.
pub struct DeletionClaim {
    pub ids: Vec<String>,
    pub reason: String,
}

/// What the protocol-semantics resolver derived from one event's tags and
/// content: its relationship claims and its hashtags. The resolver is
/// deterministic per event; this pipeline consumes its output as given.
pub struct Claims {
    pub replies_to: Option<EventRef>,
    pub ancestors: Vec<EventRef>,
    pub reacts_to: Option<ReactionClaim>,
    pub deletes: Option<DeletionClaim>,
    pub hashtags: Vec<String>,
}

/// `post` begins with every element of `pre`, in place.
pub open spec fn extends<T>(post: Seq<T>, pre: Seq<T>) -> bool {
    pre.len() <= post.len() && (forall|k: int| 0 <= k < pre.len() ==> post[k] == pre[k])
}

/// The reply edge an event's claims add, if any.
pub open spec fn reply_edges(event_id: String, claims: Claims) -> Seq<Edge> {
    match claims.replies_to {
        Some(rc) => seq![
            (Edge { original: rc.id, referring: event_id, rel: Relationship::Reply }),
        ],
        None => Seq::<Edge>::empty(),
    }
}

/// The reaction edge an event's claims add, if any.
pub open spec fn react_edges(event_id: String, claims: Claims) -> Seq<Edge> {
    match claims.reacts_to {
        Some(rc) => seq![
            (Edge {
                original: rc.id,
                referring: event_id,
                rel: Relationship::Reaction(rc.content),
            }),
        ],
        None => Seq::<Edge>::empty(),
    }
}

/// The deletion edge for one deleted id.
pub open spec fn deletion_edge(event_id: String, reason: String) -> spec_fn(String) -> Edge {
    |del: String| (Edge {
        original: del,
        referring: event_id,
        rel: Relationship::Deletion(reason),
    })
}

/// The deletion edges an event's claims add, one per deleted id.
pub open spec fn delete_edges(event_id: String, claims: Claims) -> Seq<Edge> {
    match claims.deletes {
        Some(dc) => dc.ids@.map_values(deletion_edge(event_id, dc.reason)),
        None => Seq::<Edge>::empty(),
    }
}

/// The in-memory edges that one event's claims add, in processing order:
/// the reply, then the reaction, then one edge per deleted id.
pub open spec fn claim_edges(event_id: String, claims: Claims) -> Seq<Edge> {
    reply_edges(event_id, claims) + react_edges(event_id, claims) + delete_edges(event_id, claims)
}

/// Whether `row` is one of the durable relationship rows that this event's
/// claims give rise to.
pub open spec fn claim_rel_row(event_id: String, claims: Claims, row: RelationshipRow) -> bool {
    ||| (claims.replies_to matches Some(rc) && row == (RelationshipRow {
        original: rc.id,
        referring: event_id,
        rel: Relationship::Reply,
    }))
    ||| (claims.reacts_to matches Some(rc) && row == (RelationshipRow {
        original: rc.id,
        referring: event_id,
        rel: Relationship::Reaction(rc.content),
    }))
    ||| (claims.deletes matches Some(dc) && exists|i: int|
        0 <= i < dc.ids@.len() && row == (RelationshipRow {
            original: dc.ids@[i],
            referring: event_id,
            rel: Relationship::Deletion(dc.reason),
        }))
}

/// Whether `d` is a desired-event entry that this event's claims may
/// enqueue: the reply target, an ancestor, or the reaction target, each
/// with its own relay hint. Deleted ids are deliberately not here: a
/// deletion never makes its target desired.
pub open spec fn fetch_target(claims: Claims, d: DesiredEvent) -> bool {
    ||| (claims.replies_to matches Some(rc) && d == (DesiredEvent { id: rc.id, url: rc.url }))
    ||| (exists|i: int|
        0 <= i < claims.ancestors@.len() && d == (DesiredEvent {
            id: (#[trigger] claims.ancestors@[i]).id,
            url: claims.ancestors@[i].url,
        }))
    ||| (claims.reacts_to matches Some(rc) && d == (DesiredEvent { id: rc.id, url: rc.url }))
}

/// The tag row that position `s` of an event's tag sequence gives: the
/// label and up to four argument fields; overflow fields are dropped.
pub open spec fn tag_row_of(id: String, s: u64, tag: Vec<String>) -> TagRow {
    TagRow {
        event: id,
        seq: s,
        label: if tag@.len() > 0 {
            Some(tag@[0])
        } else {
            None
        },
        field0: if tag@.len() > 1 {
            Some(tag@[1])
        } else {
            None
        },
        field1: if tag@.len() > 2 {
            Some(tag@[2])
        } else {
            None
        },
        field2: if tag@.len() > 3 {
            Some(tag@[3])
        } else {
            None
        },
        field3: if tag@.len() > 4 {
            Some(tag@[4])
        } else {
            None
        },
    }
}

/// Whether a tag carries a relay recommendation: an event reference or a
/// pubkey mention whose third field is a valid relay url.
pub open spec fn tag_suggests_relay(tag: Vec<String>) -> bool {
    tag@.len() > 2 && (tag@[0]@ == seq!['e'] || tag@[0]@ == seq!['p']) && (relay_url_canon(
        tag@[2]@,
    ) is Some)
}

/// Whether a tag is a pubkey mention with a valid recommended relay, which
/// raises that person's `last_suggested_bytag`.
pub open spec fn tag_suggests_person_relay(tag: Vec<String>) -> bool {
    tag@.len() > 2 && tag@[0]@ == seq!['p'] && (relay_url_canon(tag@[2]@) is Some)
}

/// Persist one event's tags and act on the relay recommendations in them:
/// one row per tag position; a relay record per valid recommended url; and
/// for pubkey mentions with a valid url, the person's
/// `last_suggested_bytag` raised to at least `now`.
#[verifier::loop_isolation(false)]
pub fn process_tags(
    tag_rows: &mut Vec<TagRow>,
    relays: &mut Vec<RelayRow>,
    person_relays: &mut Vec<PersonRelayRow>,
    event: &Event,
    now: u64,
)
    ensures
        tag_rows_unique(old(tag_rows)@) ==> tag_rows_unique(final(tag_rows)@),
        extends(final(tag_rows)@, old(tag_rows)@),
        forall|s: u64|
            (s as int) < event.tags@.len() ==> #[trigger] has_tag_row(
                final(tag_rows)@,
                event.id@,
                s,
            ),
        forall|s: int|
            0 <= s < event.tags@.len() && !has_tag_row(old(tag_rows)@, event.id@, s as u64)
                ==> final(tag_rows)@.contains(tag_row_of(event.id, s as u64, event.tags@[s])),
        forall|k: int|
            old(tag_rows)@.len() <= k < final(tag_rows)@.len() ==> exists|s: int|
                0 <= s < event.tags@.len() && (#[trigger] final(tag_rows)@[k]) == tag_row_of(
                    event.id,
                    s as u64,
                    event.tags@[s],
                ),
        relay_rows_unique(old(relays)@) ==> relay_rows_unique(final(relays)@),
        extends(final(relays)@, old(relays)@),
        forall|t: int|
            0 <= t < event.tags@.len() && tag_suggests_relay(#[trigger] event.tags@[t]) ==> (
            relay_url_canon(event.tags@[t]@[2]@) matches Some(c) && has_relay_row(
                final(relays)@,
                c,
            )),
        forall|k: int|
            old(relays)@.len() <= k < final(relays)@.len() ==> (#[trigger] final(relays)@[k]).success_count == 0 && final(relays)@[k].failure_count == 0 && !final(relays)@[k].post && !final(relays)@[k].dirty && (exists|t: int|
                0 <= t < event.tags@.len() && tag_suggests_relay(#[trigger] event.tags@[t]) && Some(
                    final(relays)@[k].url@,
                ) == relay_url_canon(event.tags@[t]@[2]@)),
        pr_rows_monotone(old(person_relays)@, final(person_relays)@),
        pr_rows_unique(old(person_relays)@) ==> pr_rows_unique(final(person_relays)@),
        forall|i: int|
            0 <= i < old(person_relays)@.len() ==> (#[trigger] final(person_relays)@[i]).last_fetched == old(person_relays)@[i].last_fetched,
        forall|p2: Seq<char>, r2: Seq<char>, v: u64|
            pr_lf_at_least(old(person_relays)@, p2, r2, v) ==> #[trigger] pr_lf_at_least(
                final(person_relays)@,
                p2,
                r2,
                v,
            ),
        forall|t: int|
            0 <= t < event.tags@.len() && tag_suggests_person_relay(#[trigger] event.tags@[t])
                ==> (relay_url_canon(event.tags@[t]@[2]@) matches Some(c) && pr_lsb_at_least(
                final(person_relays)@,
                event.tags@[t]@[1]@,
                c,
                now,
            )),
{
    proof {
        reveal_strlit("e");
        reveal_strlit("p");
        assert("e"@ =~= seq!['e']);
        assert("p"@ =~= seq!['p']);
    }
    let ghost pre_tag_rows = tag_rows@;
    let ghost pre_relays = relays@;
    let ghost pre_prs = person_relays@;
    let mut s: usize = 0;
    while s < event.tags.len()
        invariant
            s <= event.tags.len(),
            tag_rows_unique(pre_tag_rows) ==> tag_rows_unique(tag_rows@),
            extends(tag_rows@, pre_tag_rows),
            forall|t: u64| (t as int) < s ==> #[trigger] has_tag_row(tag_rows@, event.id@, t),
            forall|t: int|
                0 <= t < s && !has_tag_row(pre_tag_rows, event.id@, t as u64)
                    ==> tag_rows@.contains(tag_row_of(event.id, t as u64, event.tags@[t])),
            forall|k: int|
                pre_tag_rows.len() <= k < tag_rows@.len() ==> exists|t: int|
                    0 <= t < s && (#[trigger] tag_rows@[k]) == tag_row_of(
                        event.id,
                        t as u64,
                        event.tags@[t],
                    ),
            relay_rows_unique(pre_relays) ==> relay_rows_unique(relays@),
            extends(relays@, pre_relays),
            forall|t: int|
                0 <= t < s && tag_suggests_relay(#[trigger] event.tags@[t]) ==> (relay_url_canon(
                    event.tags@[t]@[2]@,
                ) matches Some(c) && has_relay_row(relays@, c)),
            forall|k: int|
                pre_relays.len() <= k < relays@.len() ==> (#[trigger] relays@[k]).success_count
                    == 0 && relays@[k].failure_count == 0 && !relays@[k].post && !relays@[k].dirty
                    && (exists|t: int|
                    0 <= t < event.tags@.len() && tag_suggests_relay(#[trigger] event.tags@[t])
                        && Some(relays@[k].url@) == relay_url_canon(event.tags@[t]@[2]@)),
            pr_rows_monotone(pre_prs, person_relays@),
            pr_rows_unique(pre_prs) ==> pr_rows_unique(person_relays@),
            forall|i: int|
                0 <= i < pre_prs.len() ==> (#[trigger] person_relays@[i]).last_fetched
                    == pre_prs[i].last_fetched,
            forall|p2: Seq<char>, r2: Seq<char>, v: u64|
                pr_lf_at_least(pre_prs, p2, r2, v) ==> #[trigger] pr_lf_at_least(
                    person_relays@,
                    p2,
                    r2,
                    v,
                ),
            forall|t: int|
                0 <= t < s && tag_suggests_person_relay(#[trigger] event.tags@[t]) ==> (
                relay_url_canon(event.tags@[t]@[2]@) matches Some(c) && pr_lsb_at_least(
                    person_relays@,
                    event.tags@[t]@[1]@,
                    c,
                    now,
                )),
        decreases event.tags.len() - s,
    {
        let tag = &event.tags[s];
        let row = TagRow {
            event: event.id.clone(),
            seq: s as u64,
            label: if tag.len() > 0 {
                Some(tag[0].clone())
            } else {
                None
            },
            field0: if tag.len() > 1 {
                Some(tag[1].clone())
            } else {
                None
            },
            field1: if tag.len() > 2 {
                Some(tag[2].clone())
            } else {
                None
            },
            field2: if tag.len() > 3 {
                Some(tag[3].clone())
            } else {
                None
            },
            field3: if tag.len() > 4 {
                Some(tag[4].clone())
            } else {
                None
            },
        };
        proof {
            assert(row == tag_row_of(event.id, s as u64, event.tags@[s as int]));
        }
        insert_tag_row(tag_rows, row);
        if tag.len() > 2 {
            let is_e = string_is(&tag[0], "e");
            let is_p = string_is(&tag[0], "p");
            if is_e || is_p {
                match check_relay_url(tag[2].as_str()) {
                    Some(canon) => {
                        insert_relay_if_absent(relays, canon.clone());
                        if is_p {
                            upsert_last_suggested_bytag(person_relays, &tag[1], &canon, now);
                        }
                    },
                    None => {},
                }
            }
        }
        s += 1;
    }
}

/// Record one event's relationship claims: durable rows when the event came
/// from a relay, in-memory edges always, and desired-event entries for
/// reply, ancestor and reaction targets that the cache does not hold.
/// `cache` is the event cache as it stands after the event itself was
/// inserted, so an event never enqueues itself.
#[verifier::loop_isolation(false)]
pub fn process_claims(
    rel_rows: &mut Vec<RelationshipRow>,
    edges: &mut Vec<Edge>,
    desired: &mut Vec<DesiredEvent>,
    cache: &Vec<Event>,
    event_id: &String,
    claims: &Claims,
    from_relay: bool,
)
    ensures
        final(edges)@ == old(edges)@ + claim_edges(*event_id, *claims),
        rel_rows_unique(old(rel_rows)@) ==> rel_rows_unique(final(rel_rows)@),
        extends(final(rel_rows)@, old(rel_rows)@),
        !from_relay ==> final(rel_rows)@ == old(rel_rows)@,
        from_relay ==> (claims.replies_to matches Some(rc) ==> has_rel_row(
            final(rel_rows)@,
            (RelationshipRow { original: rc.id, referring: *event_id, rel: Relationship::Reply }),
        )),
        from_relay ==> (claims.reacts_to matches Some(rc) ==> has_rel_row(
            final(rel_rows)@,
            (RelationshipRow {
                original: rc.id,
                referring: *event_id,
                rel: Relationship::Reaction(rc.content),
            }),
        )),
        from_relay ==> (claims.deletes matches Some(dc) ==> forall|i: int|
            0 <= i < dc.ids@.len() ==> has_rel_row(
                final(rel_rows)@,
                (RelationshipRow {
                    original: dc.ids@[i],
                    referring: *event_id,
                    rel: Relationship::Deletion(dc.reason),
                }),
            )),
        forall|k: int|
            old(rel_rows)@.len() <= k < final(rel_rows)@.len() ==> claim_rel_row(
                *event_id,
                *claims,
                #[trigger] final(rel_rows)@[k],
            ),
        extends(final(desired)@, old(desired)@),
        forall|k: int|
            old(desired)@.len() <= k < final(desired)@.len() ==> fetch_target(
                *claims,
                #[trigger] final(desired)@[k],
            ) && !cache_has(cache@, final(desired)@[k].id@),
        claims.replies_to matches Some(rc) ==> (!cache_has(cache@, rc.id@) ==> final(desired)@.contains((DesiredEvent { id: rc.id, url: rc.url }))),
        forall|i: int|
            0 <= i < claims.ancestors@.len() && !cache_has(
                cache@,
                (#[trigger] claims.ancestors@[i]).id@,
            ) ==> final(desired)@.contains(
                (DesiredEvent { id: claims.ancestors@[i].id, url: claims.ancestors@[i].url }),
            ),
        claims.reacts_to matches Some(rc) ==> (!cache_has(cache@, rc.id@) ==> final(desired)@.contains((DesiredEvent { id: rc.id, url: rc.url }))),
{
    broadcast use vstd::seq_lib::group_seq_properties;

    let ghost pre_edges = edges@;
    let ghost pre_rels = rel_rows@;
    let ghost pre_desired = desired@;
    let ghost reply_part = reply_edges(*event_id, *claims);
    let ghost react_part = react_edges(*event_id, *claims);
    let ghost delete_part = delete_edges(*event_id, *claims);

    // Replies.
    if let Some(rc) = &claims.replies_to {
        if from_relay {
            let ghost reply_row = (RelationshipRow {
                original: rc.id,
                referring: *event_id,
                rel: Relationship::Reply,
            });
            insert_rel_row(
                rel_rows,
                RelationshipRow {
                    original: rc.id.clone(),
                    referring: event_id.clone(),
                    rel: Relationship::Reply,
                },
            );
            proof {
                assert(claim_rel_row(*event_id, *claims, reply_row));
                assert(rel_rows@ == pre_rels || rel_rows@ == pre_rels.push(reply_row));
                assert forall|k: int|
                    pre_rels.len() <= k < rel_rows@.len() implies claim_rel_row(
                    *event_id,
                    *claims,
                    #[trigger] rel_rows@[k],
                ) by {
                    assert(rel_rows@[k] == reply_row);
                }
            }
        }
        edges.push(
            Edge {
                original: rc.id.clone(),
                referring: event_id.clone(),
                rel: Relationship::Reply,
            },
        );
        if !cache_contains(cache, &rc.id) {
            desired.push(DesiredEvent { id: rc.id.clone(), url: clone_opt_string(&rc.url) });
        }
    }
    proof {
        assert(edges@ =~= pre_edges + reply_part);
    }

    // Every absent ancestor of the reply chain is desired.
    let mut i: usize = 0;
    while i < claims.ancestors.len()
        invariant
            i <= claims.ancestors.len(),
            extends(desired@, pre_desired),
            forall|k: int|
                pre_desired.len() <= k < desired@.len() ==> fetch_target(
                    *claims,
                    #[trigger] desired@[k],
                ) && !cache_has(cache@, desired@[k].id@),
            claims.replies_to matches Some(rc) ==> (!cache_has(cache@, rc.id@) ==> desired@.contains(
                (DesiredEvent { id: rc.id, url: rc.url }),
            )),
            forall|j: int|
                0 <= j < i && !cache_has(cache@, (#[trigger] claims.ancestors@[j]).id@)
                    ==> desired@.contains(
                    (DesiredEvent { id: claims.ancestors@[j].id, url: claims.ancestors@[j].url }),
                ),
        decreases claims.ancestors.len() - i,
    {
        if !cache_contains(cache, &claims.ancestors[i].id) {
            desired.push(
                DesiredEvent {
                    id: claims.ancestors[i].id.clone(),
                    url: clone_opt_string(&claims.ancestors[i].url),
                },
            );
        }
        i += 1;
    }

    // Reactions.
    if let Some(rc) = &claims.reacts_to {
        if from_relay {
            let ghost mid_rels = rel_rows@;
            let ghost react_row = (RelationshipRow {
                original: rc.id,
                referring: *event_id,
                rel: Relationship::Reaction(rc.content),
            });
            insert_rel_row(
                rel_rows,
                RelationshipRow {
                    original: rc.id.clone(),
                    referring: event_id.clone(),
                    rel: Relationship::Reaction(rc.content.clone()),
                },
            );
            proof {
                assert(claim_rel_row(*event_id, *claims, react_row));
                assert(rel_rows@ == mid_rels || rel_rows@ == mid_rels.push(react_row));
                assert forall|k: int|
                    pre_rels.len() <= k < rel_rows@.len() implies claim_rel_row(
                    *event_id,
                    *claims,
                    #[trigger] rel_rows@[k],
                ) by {
                    if k < mid_rels.len() {
                        assert(claim_rel_row(*event_id, *claims, mid_rels[k]));
                        assert(rel_rows@[k] == mid_rels[k]);
                    } else {
                        assert(rel_rows@[k] == react_row);
                    }
                }
            }
        }
        if !cache_contains(cache, &rc.id) {
            desired.push(DesiredEvent { id: rc.id.clone(), url: clone_opt_string(&rc.url) });
        }
        edges.push(
            Edge {
                original: rc.id.clone(),
                referring: event_id.clone(),
                rel: Relationship::Reaction(rc.content.clone()),
            },
        );
    }
    proof {
        assert(edges@ =~= pre_edges + reply_part + react_part);
    }

    // Deletions: recorded, but never desired.
    if let Some(dc) = &claims.deletes {
        let mut j: usize = 0;
        while j < dc.ids.len()
            invariant
                j <= dc.ids.len(),
                edges@ == pre_edges + reply_part + react_part + dc.ids@.take(j as int).map_values(
                    deletion_edge(*event_id, dc.reason),
                ),
                extends(rel_rows@, pre_rels),
                rel_rows_unique(pre_rels) ==> rel_rows_unique(rel_rows@),
                !from_relay ==> rel_rows@ == pre_rels,
                forall|k: int|
                    pre_rels.len() <= k < rel_rows@.len() ==> claim_rel_row(
                        *event_id,
                        *claims,
                        #[trigger] rel_rows@[k],
                    ),
                from_relay ==> (claims.replies_to matches Some(rc) ==> has_rel_row(
                    rel_rows@,
                    (RelationshipRow {
                        original: rc.id,
                        referring: *event_id,
                        rel: Relationship::Reply,
                    }),
                )),
                from_relay ==> (claims.reacts_to matches Some(rc) ==> has_rel_row(
                    rel_rows@,
                    (RelationshipRow {
                        original: rc.id,
                        referring: *event_id,
                        rel: Relationship::Reaction(rc.content),
                    }),
                )),
                from_relay ==> forall|k: int|
                    0 <= k < j ==> has_rel_row(
                        rel_rows@,
                        (RelationshipRow {
                            original: dc.ids@[k],
                            referring: *event_id,
                            rel: Relationship::Deletion(dc.reason),
                        }),
                    ),
            decreases dc.ids.len() - j,
        {
            if from_relay {
                insert_rel_row(
                    rel_rows,
                    RelationshipRow {
                        original: dc.ids[j].clone(),
                        referring: event_id.clone(),
                        rel: Relationship::Deletion(dc.reason.clone()),
                    },
                );
            }
            edges.push(
                Edge {
                    original: dc.ids[j].clone(),
                    referring: event_id.clone(),
                    rel: Relationship::Deletion(dc.reason.clone()),
                },
            );
            proof {
                assert(dc.ids@.take(j + 1) =~= dc.ids@.take(j as int).push(dc.ids@[j as int]));
                assert(dc.ids@.take(j + 1).map_values(deletion_edge(*event_id, dc.reason))
                    =~= dc.ids@.take(j as int).map_values(
                    deletion_edge(*event_id, dc.reason),
                ).push(deletion_edge(*event_id, dc.reason)(dc.ids@[j as int])));
            }
            j += 1;
        }
        proof {
            assert(dc.ids@.take(dc.ids@.len() as int) =~= dc.ids@);
        }
    }
    proof {
        assert(edges@ =~= pre_edges + (reply_part + react_part + delete_part));
        assert(claim_edges(*event_id, *claims) =~= reply_part + react_part + delete_part);
    }
}

/// Whether `row` is a hashtag row that this event's hashtags give rise to.
pub open spec fn claim_hashtag_row(event_id: String, hashtags: Seq<String>, row: HashtagRow) -> bool {
    exists|x: int|
        0 <= x < hashtags.len() && row == (HashtagRow { event: event_id, hashtag: hashtags[x] })
}

/// Persist one hashtag row per extracted hashtag, deduplicated.
#[verifier::loop_isolation(false)]
pub fn process_hashtags(rows: &mut Vec<HashtagRow>, event_id: &String, hashtags: &Vec<String>)
    ensures
        hashtag_rows_unique(old(rows)@) ==> hashtag_rows_unique(final(rows)@),
        extends(final(rows)@, old(rows)@),
        forall|x: int|
            0 <= x < hashtags@.len() ==> has_hashtag_row(
                final(rows)@,
                event_id@,
                (#[trigger] hashtags@[x])@,
            ),
        forall|k: int|
            old(rows)@.len() <= k < final(rows)@.len() ==> claim_hashtag_row(
                *event_id,
                hashtags@,
                #[trigger] final(rows)@[k],
            ),
{
    let ghost pre = rows@;
    let mut h: usize = 0;
    while h < hashtags.len()
        invariant
            h <= hashtags.len(),
            hashtag_rows_unique(pre) ==> hashtag_rows_unique(rows@),
            extends(rows@, pre),
            forall|x: int|
                0 <= x < h ==> has_hashtag_row(rows@, event_id@, (#[trigger] hashtags@[x])@),
            forall|k: int|
                pre.len() <= k < rows@.len() ==> claim_hashtag_row(
                    *event_id,
                    hashtags@,
                    #[trigger] rows@[k],
                ),
        decreases hashtags.len() - h,
    {
        let ghost rows0 = rows@;
        let ghost hrow = (HashtagRow { event: *event_id, hashtag: hashtags@[h as int] });
        insert_hashtag_row(
            rows,
            HashtagRow { event: event_id.clone(), hashtag: hashtags[h].clone() },
        );
        proof {
            assert(rows@ == rows0 || rows@ == rows0.push(hrow));
            assert forall|k: int| pre.len() <= k < rows@.len() implies claim_hashtag_row(
                *event_id,
                hashtags@,
                rows@[k],
            ) by {
                if k < rows0.len() {
                    assert(claim_hashtag_row(*event_id, hashtags@, rows0[k]));
                    assert(rows@[k] == rows0[k]);
                } else {
                    assert(rows@[k] == hrow);
                    assert(claim_hashtag_row(*event_id, hashtags@, hrow));
                }
            }
        }
        h += 1;
    }
}

/// The whole state this pipeline maintains: the durable store and the
/// shared runtime containers. In a concurrent setting the caller guards it
/// with its own readers-writer discipline; every operation here is one
/// self-contained mutation.
pub struct State {
    pub db: Db,
    pub runtime: Runtime,
}

impl State {
    pub open spec fn wf(self) -> bool {
        self.db.wf() && self.runtime.wf()
    }

    /// Fresh, empty state.
    pub fn new() -> (r: State)
        ensures
            r.wf(),
            r.db.events@.len() == 0,
            r.db.people@.len() == 0,
            r.runtime.events@.len() == 0,
            r.runtime.relationships@.len() == 0,
            r.runtime.desired_events@.len() == 0,
            r.runtime.event_is_new@.len() == 0,
    {
        State { db: Db::new(), runtime: Runtime::new() }
    }
}

/// The durable event record written for an event.
pub open spec fn event_row_of(event: Event) -> EventRow {
    EventRow {
        id: event.id,
        pubkey: event.pubkey,
        created_at: event.created_at,
        kind: event.kind,
        content: event.content,
        ots: event.ots,
    }
}

/// Replace semantics on the seen table: the row for `row`'s key is `row`,
/// everything else stands.
pub open spec fn seen_replaced(pre: Seq<SeenRow>, post: Seq<SeenRow>, row: SeenRow) -> bool {
    ||| (exists|i: int|
        0 <= i < pre.len() && (#[trigger] pre[i]).event@ == row.event@ && pre[i].relay@
            == row.relay@ && post == pre.update(i, row))
    ||| (!has_seen_row(pre, row.event@, row.relay@) && post == pre.push(row))
}

/// The people table after create-if-missing for `pubkey`.
pub open spec fn person_created(rows: Seq<PersonRow>, pubkey: String) -> Seq<PersonRow> {
    if has_person_row(rows, pubkey@) {
        rows
    } else {
        rows.push(PersonRow { pubkey: pubkey, metadata: None, metadata_at: 0 })
    }
}

/// Merge semantics on the people table: `pubkey`'s record holds the merge
/// of `md` stamped `at` into what it held, newest timestamp winning;
/// everything else stands.
pub open spec fn people_merged(
    mid: Seq<PersonRow>,
    post: Seq<PersonRow>,
    pubkey: String,
    md: Metadata,
    at: u64,
) -> bool {
    ||| (exists|i: int|
        0 <= i < mid.len() && (#[trigger] mid[i]).pubkey@ == pubkey@ && post == mid.update(
            i,
            merged_metadata(mid[i], md, at),
        ))
    ||| (!has_person_row(mid, pubkey@) && post == mid.push(
        merged_metadata((PersonRow { pubkey: pubkey, metadata: None, metadata_at: 0 }), md, at),
    ))
}

/// The outcome `process_new_event_at` promises: the one failing step is a
/// malformed metadata payload.
pub open spec fn post_result(event: Event, r: Result<(), Error>) -> bool {
    // Outcome: the one failing step is a malformed metadata payload.
    &&& (r is Ok <==> (event.kind == EventKind::Metadata ==> metadata_parses(event.content@)))
    &&& (r matches Err(e) ==> e == Error::MetadataParse)
}

/// What `process_new_event_at` leaves in the event, seen, people and
/// person-relay tables.
pub open spec fn post_store(
    pre: State,
    post: State,
    event: Event,
    from_relay: bool,
    seen_on: Option<String>,
    now: u64,
) -> bool {
    // Durable event record: insert, idempotent on the id.
    &&& (from_relay && has_event_row(pre.db.events@, event.id@) ==> post.db.events@
        == pre.db.events@)
    &&& (from_relay && !has_event_row(pre.db.events@, event.id@) ==> post.db.events@
        == pre.db.events@.push(event_row_of(event)))
    &&& (from_relay ==> has_event_row(post.db.events@, event.id@))
    &&& (!from_relay ==> post.db.events@ == pre.db.events@)
    // Seen bookkeeping: latest observation, replace semantics.
    &&& (from_relay ==> (seen_on matches Some(u) ==> seen_replaced(
        pre.db.event_seen@,
        post.db.event_seen@,
        (SeenRow { event: event.id, relay: u, when_seen: now }),
    )))
    &&& (!(from_relay && seen_on is Some) ==> post.db.event_seen@ == pre.db.event_seen@)
    // People: created if seen on a relay; metadata merged, newest wins.
    &&& {
        let mid = if from_relay && seen_on is Some {
            person_created(pre.db.people@, event.pubkey)
        } else {
            pre.db.people@
        };
        &&& (event.kind == EventKind::Metadata && metadata_parses(event.content@)
            ==> people_merged(
            mid,
            post.db.people@,
            event.pubkey,
            metadata_of(event.content@),
            event.created_at,
        ))
        &&& (!(event.kind == EventKind::Metadata && metadata_parses(event.content@))
            ==> post.db.people@ == mid)
        &&& (from_relay && seen_on is Some ==> has_person_row(post.db.people@, event.pubkey@))
    }
    // Person-relay bookkeeping: timestamps never regress.
    &&& pr_rows_monotone(pre.db.person_relays@, post.db.person_relays@)
    &&& (from_relay ==> (seen_on matches Some(u) ==> pr_lf_at_least(
        post.db.person_relays@,
        event.pubkey@,
        u@,
        now,
    )))
    &&& (from_relay ==> (forall|t: int|
        0 <= t < event.tags@.len() && tag_suggests_person_relay(#[trigger] event.tags@[t]) ==> (
        relay_url_canon(event.tags@[t]@[2]@) matches Some(c) && pr_lsb_at_least(
            post.db.person_relays@,
            event.tags@[t]@[1]@,
            c,
            now,
        ))))
    &&& (!from_relay ==> post.db.person_relays@ == pre.db.person_relays@)
}

/// What `process_new_event_at` leaves in the tag, relay, and relationship
/// tables.
pub open spec fn post_tags_rels(
    pre: State,
    post: State,
    event: Event,
    claims: Claims,
    from_relay: bool,
    now: u64,
) -> bool {
    // Tag rows: one per position, with the first five fields.
    &&& (from_relay ==> extends(post.db.event_tags@, pre.db.event_tags@))
    &&& (from_relay ==> (forall|s: u64|
        (s as int) < event.tags@.len() ==> #[trigger] has_tag_row(
            post.db.event_tags@,
            event.id@,
            s,
        )))
    &&& (from_relay ==> (forall|s: int|
        0 <= s < event.tags@.len() && !has_tag_row(pre.db.event_tags@, event.id@, s as u64)
            ==> post.db.event_tags@.contains(tag_row_of(event.id, s as u64, event.tags@[s]))))
    &&& (from_relay ==> (forall|k: int|
        pre.db.event_tags@.len() <= k < post.db.event_tags@.len() ==> exists|s: int|
            0 <= s < event.tags@.len() && (#[trigger] post.db.event_tags@[k]) == tag_row_of(
                event.id,
                s as u64,
                event.tags@[s],
            )))
    &&& (!from_relay ==> post.db.event_tags@ == pre.db.event_tags@)
    // Relay discovery from tags.
    &&& (from_relay ==> extends(post.db.relays@, pre.db.relays@))
    &&& (from_relay ==> (forall|t: int|
        0 <= t < event.tags@.len() && tag_suggests_relay(#[trigger] event.tags@[t]) ==> (
        relay_url_canon(event.tags@[t]@[2]@) matches Some(c) && has_relay_row(
            post.db.relays@,
            c,
        ))))
    &&& (from_relay ==> (forall|k: int|
        pre.db.relays@.len() <= k < post.db.relays@.len() ==> (#[trigger] post.db.relays@[k]).success_count
            == 0 && post.db.relays@[k].failure_count == 0 && !post.db.relays@[k].post
            && !post.db.relays@[k].dirty))
    &&& (!from_relay ==> post.db.relays@ == pre.db.relays@)
    // Durable relationship rows: one per claim, deduplicated.
    &&& extends(post.db.relationships@, pre.db.relationships@)
    &&& (from_relay ==> (claims.replies_to matches Some(rc) ==> has_rel_row(
        post.db.relationships@,
        (RelationshipRow { original: rc.id, referring: event.id, rel: Relationship::Reply }),
    )))
    &&& (from_relay ==> (claims.reacts_to matches Some(rc) ==> has_rel_row(
        post.db.relationships@,
        (RelationshipRow {
            original: rc.id,
            referring: event.id,
            rel: Relationship::Reaction(rc.content),
        }),
    )))
    &&& (from_relay ==> (claims.deletes matches Some(dc) ==> forall|i: int|
        0 <= i < dc.ids@.len() ==> has_rel_row(
            post.db.relationships@,
            (RelationshipRow {
                original: dc.ids@[i],
                referring: event.id,
                rel: Relationship::Deletion(dc.reason),
            }),
        )))
    &&& (forall|k: int|
        pre.db.relationships@.len() <= k < post.db.relationships@.len() ==> claim_rel_row(
            event.id,
            claims,
            #[trigger] post.db.relationships@[k],
        ))
    &&& (!from_relay ==> post.db.relationships@ == pre.db.relationships@)
}

/// What `process_new_event_at` leaves in the event cache, the in-memory
/// relationship graph, and the desired-event queue.
pub open spec fn post_graph(pre: State, post: State, event: Event, claims: Claims) -> bool {
    // Event cache: always holds the newest copy of this event.
    &&& cache_has(post.runtime.events@, event.id@)
    &&& (exists|i: int|
        0 <= i < post.runtime.events@.len() && (#[trigger] post.runtime.events@[i])@ == event@)
    &&& (forall|x: Seq<char>| #[trigger]
        cache_has(post.runtime.events@, x) == (cache_has(pre.runtime.events@, x) || x
            == event.id@))
    // In-memory relationship graph: exactly the claimed edges, appended.
    &&& post.runtime.relationships@ == pre.runtime.relationships@ + claim_edges(event.id, claims)
    // Desired events: absent reply, ancestor and reaction targets, with
    // their hints; never a cached id, and never a deleted id as such.
    &&& extends(post.runtime.desired_events@, pre.runtime.desired_events@)
    &&& (forall|k: int|
        pre.runtime.desired_events@.len() <= k < post.runtime.desired_events@.len()
            ==> fetch_target(claims, #[trigger] post.runtime.desired_events@[k]) && !cache_has(
            post.runtime.events@,
            post.runtime.desired_events@[k].id@,
        ))
    &&& (claims.replies_to matches Some(rc) ==> (!cache_has(post.runtime.events@, rc.id@)
        ==> post.runtime.desired_events@.contains((DesiredEvent { id: rc.id, url: rc.url }))))
    &&& (forall|i: int|
        0 <= i < claims.ancestors@.len() && !cache_has(
            post.runtime.events@,
            (#[trigger] claims.ancestors@[i]).id@,
        ) ==> post.runtime.desired_events@.contains(
            (DesiredEvent { id: claims.ancestors@[i].id, url: claims.ancestors@[i].url }),
        ))
    &&& (claims.reacts_to matches Some(rc) ==> (!cache_has(post.runtime.events@, rc.id@)
        ==> post.runtime.desired_events@.contains((DesiredEvent { id: rc.id, url: rc.url }))))
}

/// What `process_new_event_at` leaves in the hashtag table and the
/// notification list; the runtime relay table is untouched and
/// well-formedness is preserved.
pub open spec fn post_announce(
    pre: State,
    post: State,
    event: Event,
    claims: Claims,
    from_relay: bool,
    r: Result<(), Error>,
) -> bool {
    // Hashtag rows.
    &&& (from_relay ==> extends(post.db.hashtags@, pre.db.hashtags@))
    &&& (from_relay ==> (forall|h: int|
        0 <= h < claims.hashtags@.len() ==> has_hashtag_row(
            post.db.hashtags@,
            event.id@,
            (#[trigger] claims.hashtags@[h])@,
        )))
    &&& (from_relay ==> (forall|k: int|
        pre.db.hashtags@.len() <= k < post.db.hashtags@.len() ==> claim_hashtag_row(
            event.id,
            claims.hashtags@,
            #[trigger] post.db.hashtags@[k],
        )))
    &&& (!from_relay ==> post.db.hashtags@ == pre.db.hashtags@)
    // Notification list: the id is announced exactly when processing
    // succeeded.
    &&& (r is Ok ==> post.runtime.event_is_new@ == pre.runtime.event_is_new@.push(event.id))
    &&& (r is Err ==> post.runtime.event_is_new@ == pre.runtime.event_is_new@)
    // The pipeline does not touch the runtime relay table.
    &&& post.runtime.relays@ == pre.runtime.relays@
    // Well-formedness is preserved.
    &&& (pre.wf() ==> post.wf())
}

/// Everything `process_new_event_at` promises of the state it leaves
/// behind, given the state it found. Each conjunct speaks of one table or
/// container; none depends on the order the clauses are read in.
pub open spec fn process_post(
    pre: State,
    post: State,
    event: Event,
    claims: Claims,
    from_relay: bool,
    seen_on: Option<String>,
    now: u64,
    r: Result<(), Error>,
) -> bool {
    &&& post_result(event, r)
    &&& post_store(pre, post, event, from_relay, seen_on, now)
    &&& post_tags_rels(pre, post, event, claims, from_relay, now)
    &&& post_graph(pre, post, event, claims)
    &&& post_announce(pre, post, event, claims, from_relay, r)
}

/// Process one incoming event at clock reading `now`: persist it and its
/// tags, seen and person-relay bookkeeping and hashtags when it came from a
/// relay; cache it; record its relationship claims; enqueue missing
/// referenced events; merge profile metadata; and announce it. Every step
/// is independently idempotent; a malformed metadata payload aborts the
/// remaining steps and is returned.
#[verifier::rlimit(100)]
#[verifier::spinoff_prover]
pub fn process_new_event_at(
    state: &mut State,
    event: &Event,
    claims: &Claims,
    from_relay: bool,
    seen_on: Option<String>,
    now: u64,
) -> (r: Result<(), Error>)
    ensures
        process_post(*old(state), *final(state), *event, *claims, from_relay, seen_on, now, r),
{
    // Save the event into the durable store.
    if from_relay {
        insert_event_row(
            &mut state.db.events,
            EventRow {
                id: event.id.clone(),
                pubkey: event.pubkey.clone(),
                created_at: event.created_at,
                kind: event.kind,
                content: event.content.clone(),
                ots: clone_opt_string(&event.ots),
            },
        );
    }
    // Seen bookkeeping and person creation for relay-sourced events.
    if from_relay {
        if let Some(url) = &seen_on {
            replace_seen_row(
                &mut state.db.event_seen,
                SeenRow { event: event.id.clone(), relay: url.clone(), when_seen: now },
            );
            create_person_if_missing(&mut state.db.people, &event.pubkey);
            upsert_last_fetched(&mut state.db.person_relays, &event.pubkey, url, now);
        }
    }
    // The cache always reflects the newest in-memory copy.
    cache_insert(&mut state.runtime.events, event.duplicate());
    // Tag rows and relay discovery.
    if from_relay {
        process_tags(
            &mut state.db.event_tags,
            &mut state.db.relays,
            &mut state.db.person_relays,
            event,
            now,
        );
    }
    // Relationship claims, the in-memory graph, and desired events.
    process_claims(
        &mut state.db.relationships,
        &mut state.runtime.relationships,
        &mut state.runtime.desired_events,
        &state.runtime.events,
        &event.id,
        claims,
        from_relay,
    );
    // Hashtag rows.
    if from_relay {
        process_hashtags(&mut state.db.hashtags, &event.id, &claims.hashtags);
    }
    // Profile metadata: parse failure aborts this event's processing.
    let r: Result<(), Error> = if event.kind == EventKind::Metadata {
        match parse_metadata(event.content.as_str()) {
            Some(md) => {
                update_person_metadata(&mut state.db.people, &event.pubkey, md, event.created_at);
                Ok(())
            },
            None => Err(Error::MetadataParse),
        }
    } else {
        Ok(())
    };
    // Announce the newly processed event.
    if let Ok(_) = r {
        state.runtime.event_is_new.push(event.id.clone());
    }
    proof {
        assert(post_result(*event, r));
        assert(post_store(*old(state), *state, *event, from_relay, seen_on, now));
        assert(post_tags_rels(*old(state), *state, *event, *claims, from_relay, now));
        assert(post_graph(*old(state), *state, *event, *claims));
        assert(post_announce(*old(state), *state, *event, *claims, from_relay, r));
    }
    r
}

/// `process_new_event_at` with the clock read here: the entry point for
/// callers that do not carry a clock reading of their own. A clock failure
/// can only arise for relay-sourced events, and leaves the state untouched;
/// locally originated events consult no clock and always get the full
/// treatment, at a reading of 0 that nothing relay-gated reads.
pub fn process_new_event(
    state: &mut State,
    event: &Event,
    claims: &Claims,
    from_relay: bool,
    seen_on: Option<String>,
) -> (r: Result<(), Error>)
    ensures
        !from_relay ==> process_post(
            *old(state),
            *final(state),
            *event,
            *claims,
            false,
            seen_on,
            0,
            r,
        ),
        r matches Err(e) && e == Error::Clock ==> from_relay && *final(state) == *old(state),
        (match r {
            Err(e) => e != Error::Clock,
            Ok(_) => true,
        }) ==> (exists|now: u64|
            process_post(
                *old(state),
                *final(state),
                *event,
                *claims,
                from_relay,
                seen_on,
                now,
                r,
            )),
{
    let now: u64 = if from_relay {
        match unixtime_now() {
            Some(n) => n,
            None => {
                return Err(Error::Clock);
            },
        }
    } else {
        0
    };
    let r = process_new_event_at(state, event, claims, from_relay, seen_on, now);
    proof {
        assert(process_post(
            *old(state),
            *final(state),
            *event,
            *claims,
            from_relay,
            seen_on,
            now,
            r,
        ));
    }
    r
}

} // verus!
