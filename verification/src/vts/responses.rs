//! Payloads that the avatar application sends.

use vstd::prelude::*;

verus! {

/// Advertisement that a running instance broadcasts on the local network.
#[derive(Clone, Debug, PartialEq, Eq)]
pub struct Discovery {
    pub active: bool,
    pub port: u16,
    pub instance_id: String,
    pub window_title: String,
}

/// Answer to a status query.
#[derive(Clone, Debug, PartialEq, Eq)]
pub struct APIStateResponse {
    pub active: bool,
    pub v_tube_studio_version: String,
    pub current_session_authenticated: bool,
}

/// A freshly granted credential.
#[derive(Clone, Debug, PartialEq, Eq)]
pub struct AuthenticationToken {
    pub authentication_token: String,
}

/// Verdict on an authentication request.
#[derive(Clone, Debug, PartialEq, Eq)]
pub struct AuthenticationResponse {
    pub authenticated: bool,
    pub reason: String,
}

/// An error envelope with its numeric code.
#[derive(Clone, Debug, PartialEq, Eq)]
pub struct APIError {
    pub error_id: u16,
    pub message: String,
}

} // verus!
