//! A verified core for low-latency screen streaming over WebRTC: host
//! candidate discovery, WHIP/WHEP signaling with redirect handling, the
//! single-session driver around a sans-I/O transport engine, and outbound
//! media planning. Sockets, HTTP, capture, and rendering live with the
//! caller; every decision the session makes is specified and proved here.

pub mod addr;
pub mod candidates;
pub mod client;
pub mod engine;
pub mod events;
pub mod media;
pub mod sdp;
pub mod signal;
