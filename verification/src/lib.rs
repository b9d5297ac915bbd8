//! The servers of a comparison of real-time web transports. Each streams 2500
//! coordinates to a browser, or echoes what the browser sends, by WebSocket,
//! by server-sent events or by a WebRTC data channel.
//!
//! This library decides what the servers do and proves it; sockets, threads
//! and time are left to the program around it.
//!
//! - [`coordinates`] makes the messages that are streamed.
//! - [`platform`] and [`backpressure`] set how fast messages are written.
//! - [`channel`] writes messages to a data channel as far as its buffer allows.
//! - [`connection`] handles the outputs of a peer connection, [`datagram`] reads
//!   its datagrams, and [`worker`] does all the work on it, turn by turn.
//! - [`negotiation`] answers offers and takes the peer's candidates, which
//!   [`sdp`] reads, and [`interfaces`] picks the address to bind to.
//! - [`signaling`] and [`http`] are the way for a browser to make an offer.
//! - [`echo`] and [`peer`] are the servers that need no more than that.
//! - [`net`], [`numbers`] and [`text`] hold what the others read and write.
pub mod backpressure;
pub mod channel;
pub mod connection;
pub mod coordinates;
pub mod datagram;
pub mod echo;
pub mod http;
pub mod interfaces;
pub mod negotiation;
pub mod net;
pub mod numbers;
pub mod peer;
pub mod platform;
pub mod sdp;
pub mod signaling;
pub mod text;
pub mod worker;
