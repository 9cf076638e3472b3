//! The query endpoint's decision: what to answer for the current cache
//! contents. The HTTP wiring around it only copies these fields into a
//! response.

use vstd::prelude::*;
use vstd::string::StringSliceAdditionalSpecFns;
use crate::snapshot::push_lit;

verus! {

/// A fully decided HTTP answer for the data endpoint.
pub struct ApiReply {
    pub status: u16,
    pub content_type: &'static str,
    pub body: Vec<u8>,
}

/// Decide the answer: a populated cache is served as JSON with status
/// 200; an empty cache — only possible between process start and the
/// first successful cycle — is an explicit 500 with a plain-text body.
pub fn api_reply(cached: Option<Vec<u8>>) -> (r: ApiReply)
    ensures
        cached matches Some(d) ==> r.status == 200 && r.content_type@ == "application/json"@
            && r.body == d,
        cached is None ==> r.status == 500 && r.content_type@ == "text/plain; charset=utf-8"@
            && r.body@ == "No data found.".spec_bytes(),
{
    match cached {
        Some(d) => ApiReply { status: 200, content_type: "application/json", body: d },
        None => {
            let mut b: Vec<u8> = Vec::new();
            push_lit(&mut b, "No data found.");
            ApiReply { status: 500, content_type: "text/plain; charset=utf-8", body: b }
        },
    }
}

} // verus!
