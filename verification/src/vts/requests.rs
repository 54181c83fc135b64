//! Payloads that the bridge sends.
//!
//! Numbers that the bridge only passes on (a parameter's bounds, an evaluated
//! value) are not held here: a request names the rule they belong to, and the
//! caller fills them in when it writes the message out.

use vstd::prelude::*;

verus! {

/// The name under which the plugin presents itself, and its request id.
pub const REQUEST_ID: &'static str = "SandoitchiBridge";

/// The author under which the plugin presents itself.
pub const PLUGIN_DEVELOPER: &'static str = "An1by";

/// The name of the avatar application's API.
pub const API_NAME: &'static str = "VTubeStudioPublicAPI";

/// The version of the API that the plugin speaks.
pub const VTS_API_VERSION: &'static str = "1.0";

/// The kind of message that carries a parameter injection.
pub const INJECT_MESSAGE_TYPE: &'static str = "InjectParameterDataRequest";

/// The avatar application takes parameter values from minus this bound to
/// plus this bound; an evaluated value beyond is cut back to it.
pub const PARAMETER_LIMIT: i32 = 1_000_000;

/// The weight with which an injected value replaces the tracked one.
pub const FULL_WEIGHT: i32 = 1;

/// What every request says of itself, whatever it carries.
#[derive(Clone, Debug, PartialEq, Eq)]
pub struct VTSApiRequest<'a> {
    pub api_name: &'a str,
    pub api_version: &'a str,
    pub request_id: &'a str,
    pub message_type: &'a str,
}

/// The envelope of a request of the given kind.
pub fn envelope<'a>(message_type: &'a str) -> (request: VTSApiRequest<'a>)
    ensures
        request.api_name@ == API_NAME@,
        request.api_version@ == VTS_API_VERSION@,
        request.request_id@ == REQUEST_ID@,
        request.message_type@ == message_type@,
{
    VTSApiRequest {
        api_name: API_NAME,
        api_version: VTS_API_VERSION,
        request_id: REQUEST_ID,
        message_type,
    }
}

/// Request for a new credential.
#[derive(Clone, Debug, PartialEq, Eq)]
pub struct AuthToken<'a> {
    pub plugin_name: &'a str,
    pub plugin_developer: &'a str,
    pub plugin_icon: Option<&'a str>,
}

/// Request to authenticate with a credential granted earlier.
#[derive(Clone, Debug, PartialEq, Eq)]
pub struct Auth<'a> {
    pub plugin_name: &'a str,
    pub plugin_developer: &'a str,
    pub authentication_token: &'a str,
}

/// Registration of a parameter that the avatar application does not know.
/// Its minimum, maximum and default are those of the rule at index `rule`
/// of the configuration that produced the request.
#[derive(Clone, Debug, PartialEq, Eq)]
pub struct ParameterCreation {
    pub parameter_name: String,
    pub explanation: String,
    pub rule: usize,
}

/// One parameter of an injection: the value is what the rule at index `rule`
/// evaluates to, and `id` is that rule's name.
#[derive(Clone, Debug, PartialEq, Eq)]
pub struct TrackingParam<'a> {
    pub id: &'a str,
    pub rule: usize,
}

/// A parameter injection.
#[derive(Clone, Debug, PartialEq, Eq)]
pub struct InjectParams<'a> {
    pub face_found: bool,
    pub mode: &'a str,
    pub parameter_values: Vec<TrackingParam<'a>>,
}

} // verus!
