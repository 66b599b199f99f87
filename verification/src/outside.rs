use vstd::prelude::*;

use crate::events::Metadata;

verus! {

/// Whether a string parses as a profile-metadata JSON document.
pub uninterp spec fn metadata_parses(s: Seq<char>) -> bool;

/// The metadata document parsed from a string; meaningful only where
/// `metadata_parses` holds of it.
pub uninterp spec fn metadata_of(s: Seq<char>) -> Metadata;

/// The canonical relay-url form of a string, or `None` where the string is
/// not a valid relay url.
pub uninterp spec fn relay_url_canon(s: Seq<char>) -> Option<Seq<char>>;

/// Relies on serde_json::from_str::<nostr_types::Metadata>: parsing either
/// yields a metadata document or fails, and the outcome depends on the
/// content alone. The document's named fields are kept; its free-form extra
/// fields are dropped.
#[verifier::external_body]
pub fn parse_metadata(content: &str) -> (r: Option<Metadata>)
    ensures
        (r is Some) == metadata_parses(content@),
        r matches Some(m) ==> m == metadata_of(content@),
{
    match serde_json::from_str::<nostr_types::Metadata>(content) {
        Ok(m) => Some(
            Metadata { name: m.name, about: m.about, picture: m.picture, nip05: m.nip05 },
        ),
        Err(_) => None,
    }
}

/// Relies on nostr_types::RelayUrl::try_from_str: whether a string is a
/// valid relay url, and its canonical form when it is, depend on the string
/// alone.
#[verifier::external_body]
pub fn check_relay_url(s: &str) -> (r: Option<String>)
    ensures
        (r is Some) == (relay_url_canon(s@) is Some),
        r matches Some(u) ==> Some(u@) == relay_url_canon(s@),
{
    match nostr_types::RelayUrl::try_from_str(s) {
        Ok(u) => Some(u.0),
        Err(_) => None,
    }
}

/// Relies on nostr_types::Unixtime::now: a clock reading, truncated to an
/// unsigned count of seconds since the epoch, or `None` when the clock
/// cannot be read. Nothing is promised of the value.
#[verifier::external_body]
pub fn unixtime_now() -> (r: Option<u64>) {
    match nostr_types::Unixtime::now() {
        Ok(t) => Some(t.0 as u64),
        Err(_) => None,
    }
}

} // verus!
