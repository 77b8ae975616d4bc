//! The remote-analysis request message.
//!
//! Requesting analysis is a fire-and-forget dispatch to a remote
//! identity; the component neither awaits nor validates a response.
//! What it does own is the request payload: a small structured message
//! carrying the content identifier and the filename, the latter
//! standing in as a placeholder when absent.  The dispatch itself is
//! the host environment's business and stays outside this library.

use vstd::prelude::*;
use vstd::string::StringExecFns;

verus! {

/// The placeholder used when no filename was supplied.
pub open spec fn unknown_filename() -> Seq<char> {
    "unknown"@
}

/// The request message for a content identifier and an optional
/// filename.
pub open spec fn request_payload_model(file_hash: Seq<char>, filename: Option<Seq<char>>) -> Seq<
    char,
> {
    "{\"file_hash\": \""@ + file_hash + "\", \"filename\": \""@ + (match filename {
        Option::Some(f) => f,
        Option::None => unknown_filename(),
    }) + "\"}"@
}

/// Builds the dispatch payload for one analysis request.
pub fn request_detection_payload(file_hash: &String, filename: &Option<String>) -> (r: String)
    ensures
        r@ == request_payload_model(
            file_hash@,
            match *filename {
                Option::Some(f) => Option::Some(f@),
                Option::None => Option::None,
            },
        ),
{
    let mut payload = String::from_str("{\"file_hash\": \"");
    payload.append(file_hash.as_str());
    payload.append("\", \"filename\": \"");
    match filename {
        Option::Some(f) => payload.append(f.as_str()),
        Option::None => payload.append("unknown"),
    }
    payload.append("\"}");
    proof {
        assert(payload@ =~= request_payload_model(
            file_hash@,
            match *filename {
                Option::Some(f) => Option::Some(f@),
                Option::None => Option::None,
            },
        ));
    }
    payload
}

} // verus!
