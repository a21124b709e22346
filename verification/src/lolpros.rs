//! The optional name-resolution side call: building its query and reading
//! its answer.
//!
//! The lookup decorates identity records with a profile slug; it is
//! best-effort and never required for event correctness.  The query URL is
//! built here, the HTTP leg lives outside, and the decision over the
//! returned profiles comes back here.

use vstd::prelude::*;
use vstd::string::StringExecFns;

verus! {

/// What `urlencoding::encode` returns for a string: the percent-encoding
/// of its UTF-8 bytes.  The byte-level definition is long, but the result
/// depends on the input alone, so it only gets a name.
pub uninterp spec fn url_encoded(s: Seq<char>) -> Seq<char>;

/// Relies on `urlencoding::encode`: percent-encodes every byte except
/// ASCII alphanumerics and `-`, `.`, `_`, `~`, from the input alone; an
/// empty input stays empty.
#[verifier::external_body]
fn encode_component(s: &str) -> (r: String)
    ensures
        r@ == url_encoded(s@),
        s@.len() == 0 ==> r@.len() == 0,
{
    urlencoding::encode(s).into_owned()
}

/// The URL the name-resolution collaborator is asked: the display name
/// and tag joined by `#`, percent-encoded behind the fixed search prefix.
pub fn lolpros_query_url(game_name: &String, tag_line: &String) -> (r: String)
    ensures
        r@ == "https://api.lolpros.gg/es/search?query="@ + url_encoded(
            game_name@ + "#"@ + tag_line@,
        ),
{
    let mut q = game_name.clone();
    q.append("#");
    q.append(tag_line.as_str());
    let encoded = encode_component(q.as_str());
    let mut url = String::from_str("https://api.lolpros.gg/es/search?query=");
    url.append(encoded.as_str());
    url
}

/// The slug a lookup yields: the first returned profile's slug, or none
/// when the search returned no profile.
pub fn first_slug(slugs: &Vec<String>) -> (r: Option<String>)
    ensures
        match r {
            Some(s) => slugs@.len() > 0 && s@ == slugs.deep_view()[0],
            None => slugs@.len() == 0,
        },
{
    if slugs.len() == 0 {
        None
    } else {
        Some(slugs[0].clone())
    }
}

} // verus!
