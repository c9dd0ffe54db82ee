//! The addresses of the speech service.

use vstd::prelude::*;
use vstd::string::StringExecFns;

verus! {

/// The address that is used where none is given and none can be derived.
pub const DEFAULT_ENDPOINT: &'static str =
    "wss://eastus.api.speech.microsoft.com/cognitiveservices/websocket/v1";

/// The address of the streaming service in `region`.
pub open spec fn websocket_endpoint(region: Seq<char>) -> Seq<char> {
    "wss://"@ + region + ".tts.speech.microsoft.com/cognitiveservices/websocket/v1"@
}

/// The address of the request and response service in `region`.
pub open spec fn rest_endpoint(region: Seq<char>) -> Seq<char> {
    "https://"@ + region + ".tts.speech.microsoft.com/cognitiveservices/v1"@
}

/// Get the official websocket endpoint by its region (e.g. `eastus`)
pub fn get_websocket_endpoint_by_region(region: &str) -> (r: String)
    ensures
        r@ == websocket_endpoint(region@),
{
    let mut endpoint = String::from_str("wss://");
    endpoint.append(region);
    endpoint.append(".tts.speech.microsoft.com/cognitiveservices/websocket/v1");
    endpoint
}

/// Get the official REST endpoint by its region (e.g. `eastus`)
pub fn get_rest_endpoint_by_region(region: &str) -> (r: String)
    ensures
        r@ == rest_endpoint(region@),
{
    let mut endpoint = String::from_str("https://");
    endpoint.append(region);
    endpoint.append(".tts.speech.microsoft.com/cognitiveservices/v1");
    endpoint
}

} // verus!
