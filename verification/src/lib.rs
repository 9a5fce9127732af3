//! The core of a voice relay: peers connect over a datagram transport,
//! authenticate, join a room and send compressed audio frames; the relay
//! puts each sender's frames on a continuous timeline and hands the PCM to
//! the other members of the room.
//!
//! Everything here is pure with respect to time and the network: whoever
//! drives the library reads the clock, the transport and the decoder and
//! reports what happened. Every function states in its contract what it
//! returns and changes, and the contracts are proved.
//!
//! Server side:
//! - [`packet`], [`codec`]: media packets and decoded frames
//! - [`ring`], [`timeline`], [`replay`]: sequence numbers that wrap, the
//!   per-source timeline, and what holds of whole runs of packets and ticks
//! - [`group_voice_session`], [`registry`]: rooms and their members
//! - [`auth`], [`session`], [`lifecycle`]: the opening exchange and the life
//!   of one session
//! - [`membership`], [`relay`]: how sessions and rooms hang together
//! - [`admission`], [`supervisor`], [`server`], [`app_config`]: who gets
//!   in, shutdown, and configuration
//!
//! Client side: [`client_config`], [`audio_manager`], [`audio_source`],
//! [`tui`].

pub mod admission;
pub mod app_config;
pub mod audio_manager;
pub mod audio_source;
pub mod auth;
pub mod client_config;
pub mod codec;
pub mod group_voice_session;
pub mod keyed;
pub mod lifecycle;
pub mod membership;
pub mod packet;
pub mod registry;
pub mod relay;
pub mod replay;
pub mod ring;
pub mod server;
pub mod session;
pub mod supervisor;
pub mod timeline;
pub mod tui;
