//! The two tracking sources and the frame they both produce.

pub mod client;
pub mod framing;
pub mod ifacialmocap;
pub mod response;
pub mod vtubestudio;
