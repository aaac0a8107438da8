//! Client-side logic for a CTF platform's REST API: decoding the platform's
//! success/failure response envelope, matching challenges by title or body
//! text, planning a precise wait before a release instant, and retrying the
//! challenge listing with linear backoff.
use vstd::prelude::*;

pub mod ctfd;
pub mod download;
pub mod json;
pub mod snipe;

verus! {

/// Data about a challenge, as the download path consumes it: the challenge's
/// identity, its name (used to derive a folder name), and its download paths.
#[derive(Debug)]
pub struct Task<ID> {
    /// a unique id for this challenge
    pub _id: ID,
    /// name of the challenge
    pub name: String,
    /// related downloads
    pub downloads: Vec<String>,
}

/// A base address must end in a trailing slash, so that joining a relative
/// endpoint path keeps the address's own path segments.
pub open spec fn spec_normalized_url(url: Seq<char>) -> Seq<char> {
    if url.len() > 0 && url.last() == '/' {
        url
    } else {
        url + seq!['/']
    }
}

/// Appends a trailing slash to a base address unless it already ends in one.
pub fn normalize_base_url(url: &str) -> (r: String)
    ensures
        r@ == spec_normalized_url(url@),
{
    let n = url.unicode_len();
    if n > 0 && url.get_char(n - 1) == '/' {
        url.to_owned()
    } else {
        let r = url.to_owned().concat("/");
        proof {
            reveal_strlit("/");
            assert(r@ =~= spec_normalized_url(url@));
        }
        r
    }
}

} // verus!
