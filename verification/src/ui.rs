//! What an interactive front end remembers between runs.

use crate::tracking::client::TrackingClientType;
use vstd::prelude::*;

verus! {

/// The choices made the last time the bridge was started by hand.
#[derive(Clone, Debug, PartialEq, Eq)]
pub struct UIConfig {
    pub transform_path: Option<String>,
    pub ip: Option<String>,
    pub tracking_client_type: Option<TrackingClientType>,
    pub face_search_timeout: Option<i64>,
}

} // verus!
