use vstd::prelude::*;

verus! {

/// The protocol event kinds that this pipeline distinguishes. Every kind it
/// does not act on specially is `Other`.
#[derive(Clone, Copy, Debug, PartialEq, Eq, Structural)]
pub enum EventKind {
    /// A profile-metadata update; its content is a JSON metadata document.
    Metadata,
    /// An ordinary text note.
    TextNote,
    /// A relay recommendation.
    RecommendedRelay,
    /// A contact list.
    ContactList,
    /// An advisory deletion of earlier events.
    EventDeletion,
    /// A reaction to another event.
    Reaction,
    /// Any other kind.
    Other,
}

/// An immutable, identity-addressed protocol event, as handed to the
/// pipeline after signature verification. Ids and author keys are their
/// hex-string forms; a tag is the positional array of strings it is on
/// the wire.
pub struct Event {
    /// Content-derived identity, as a hex string.
    pub id: String,
    /// The author's public key, as a hex string.
    pub pubkey: String,
    /// Creation timestamp, seconds since the epoch.
    pub created_at: u64,
    /// The protocol kind.
    pub kind: EventKind,
    /// The content string.
    pub content: String,
    /// The ordered tag sequence; each tag is its positional string array.
    pub tags: Vec<Vec<String>>,
    /// Optional proof-of-work stamp.
    pub ots: Option<String>,
}

/// The mathematical value of an `Event`: every string as its character
/// sequence.
pub struct EventV {
    pub id: Seq<char>,
    pub pubkey: Seq<char>,
    pub created_at: u64,
    pub kind: EventKind,
    pub content: Seq<char>,
    pub tags: Seq<Seq<Seq<char>>>,
    pub ots: Option<Seq<char>>,
}

impl View for Event {
    type V = EventV;

    open spec fn view(&self) -> EventV {
        EventV {
            id: self.id@,
            pubkey: self.pubkey@,
            created_at: self.created_at,
            kind: self.kind,
            content: self.content@,
            tags: self.tags.deep_view(),
            ots: self.ots.deep_view(),
        }
    }
}

/// Profile metadata as this pipeline stores it: the named fields of the
/// protocol's metadata document.
pub struct Metadata {
    pub name: Option<String>,
    pub about: Option<String>,
    pub picture: Option<String>,
    pub nip05: Option<String>,
}

/// The kind of a directed relationship edge `referring -> original`.
pub enum Relationship {
    /// The referring event replies to the original.
    Reply,
    /// The referring event reacts to the original, with the reaction content.
    Reaction(String),
    /// The referring event claims deletion of the original, with a reason.
    Deletion(String),
}

/// Whether two relationship kinds are the same kind with the same payload,
/// comparing payloads by their character sequences.
pub open spec fn rel_view_eq(a: Relationship, b: Relationship) -> bool {
    match (a, b) {
        (Relationship::Reply, Relationship::Reply) => true,
        (Relationship::Reaction(x), Relationship::Reaction(y)) => x@ == y@,
        (Relationship::Deletion(x), Relationship::Deletion(y)) => x@ == y@,
        _ => false,
    }
}

/// Whether two relationship kinds are the same kind with the same payload.
pub fn rel_eq(a: &Relationship, b: &Relationship) -> (r: bool)
    ensures
        r == rel_view_eq(*a, *b),
{
    match (a, b) {
        (Relationship::Reply, Relationship::Reply) => true,
        (Relationship::Reaction(x), Relationship::Reaction(y)) => string_eq(x, y),
        (Relationship::Deletion(x), Relationship::Deletion(y)) => string_eq(x, y),
        _ => false,
    }
}

/// String equality by contents.
pub fn string_eq(a: &String, b: &String) -> (r: bool)
    ensures
        r == (a@ == b@),
{
    a.eq(b)
}

/// Whether `s` holds exactly the text of `lit`.
pub fn string_is(s: &String, lit: &str) -> (r: bool)
    ensures
        r == (s@ == lit@),
{
    s.eq(&lit.to_owned())
}

/// A copy of an optional string, equal to the original.
pub fn clone_opt_string(o: &Option<String>) -> (r: Option<String>)
    ensures
        r == *o,
{
    match o {
        Some(s) => Some(s.clone()),
        None => None,
    }
}

/// A copy of a string vector with the same contents.
pub fn clone_string_vec(v: &Vec<String>) -> (r: Vec<String>)
    ensures
        r@ == v@,
{
    let mut r: Vec<String> = Vec::new();
    let mut i: usize = 0;
    while i < v.len()
        invariant
            i <= v.len(),
            r@ == v@.take(i as int),
        decreases v.len() - i,
    {
        r.push(v[i].clone());
        proof {
            assert(v@.take(i + 1) =~= v@.take(i as int).push(v@[i as int]));
        }
        i += 1;
    }
    proof {
        assert(v@.take(v.len() as int) =~= v@);
    }
    r
}

impl Event {
    /// A copy of this event with the same mathematical value.
    pub fn duplicate(&self) -> (r: Event)
        ensures
            r@ == self@,
    {
        let mut tags: Vec<Vec<String>> = Vec::new();
        let mut i: usize = 0;
        while i < self.tags.len()
            invariant
                i <= self.tags.len(),
                tags@.len() == i,
                forall|k: int|
                    0 <= k < i ==> (#[trigger] tags@[k]).deep_view()
                        == self.tags@[k].deep_view(),
            decreases self.tags.len() - i,
        {
            let t = clone_string_vec(&self.tags[i]);
            proof {
                assert(t.deep_view() =~= self.tags@[i as int].deep_view());
            }
            tags.push(t);
            i += 1;
        }
        proof {
            assert(tags.deep_view() =~= self.tags.deep_view());
        }
        let r = Event {
            id: self.id.clone(),
            pubkey: self.pubkey.clone(),
            created_at: self.created_at,
            kind: self.kind,
            content: self.content.clone(),
            tags,
            ots: clone_opt_string(&self.ots),
        };
        proof {
            assert(r.ots.deep_view() =~= self.ots.deep_view());
        }
        r
    }
}

} // verus!
