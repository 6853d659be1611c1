use vstd::prelude::*;

verus! {

#[verifier::external_type_specification]
#[verifier::external_body]
pub struct ExReqwestError(reqwest::Error);

/// Relies on reqwest's blocking `get` and `Response::text`: retrieves the
/// content at `url` as text. Nothing is promised of the outcome, which
/// depends on the network; two calls on the same source may differ. Must not
/// be called from within an asynchronous runtime, where reqwest's blocking
/// client aborts.
#[verifier::external_body]
pub(crate) fn fetch_url(url: &str) -> Result<String, reqwest::Error> {
    reqwest::blocking::get(url)?.text()
}

} // verus!
