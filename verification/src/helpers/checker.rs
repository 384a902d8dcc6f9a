//! Whether a page exists on the site, as far as the answer to a request
//! for it tells. Making the request is left to the caller.

use vstd::prelude::*;
use vstd::string::StringExecFns;

verus! {

/// The address at which a page of the site is asked for.
pub fn page_full_uri(site_base_url: &str, page_url: &str) -> (full_uri: String)
    ensures
        full_uri@ == site_base_url@ + page_url@,
{
    let mut full_uri = String::from_str(site_base_url);
    full_uri.append(page_url);
    full_uri
}

/// Whether a page exists, from the status of the answer to a request for
/// it, or from nothing where no answer came: it exists where the status
/// says success.
pub fn page_url_exists(status: Option<u16>) -> (exists: bool)
    ensures
        exists == (status is Some && 200 <= status->0 < 300),
{
    match status {
        Some(status) => 200 <= status && status < 300,
        None => false,
    }
}

} // verus!
