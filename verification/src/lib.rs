//! Core of a bridge that carries face-tracking data from a phone-side tracker
//! to a desktop avatar application: the wire framing and parsing of the two
//! tracking sources, the control-message state machine of the avatar
//! application's API, and the planning of each parameter injection.
//!
//! Everything here works on plain values. Sockets, files, clocks that block
//! and number crunching on floating point belong to the caller.

pub mod decimal;
pub mod text;
pub mod tracking;
pub mod ui;
pub mod utils;
pub mod vts;
