//! Decision logic of a multi-tenant gateway for the Model Context Protocol.
//!
//! The crate holds the parts of the gateway that compute, each function
//! with its contract:
//!
//! - [`config`]: the description of the upstream servers;
//! - [`read`] and [`write`]: the JSON form of that description, read and
//!   written, and the proof that the two agree;
//! - [`json`]: generic JSON documents, read from text by `serde_json`;
//! - [`gate`]: the state machine of the proxy of one inbound session;
//! - [`registry`]: the configuration together with the routers built from
//!   it, and what a reload does to them;
//! - [`reload`]: when a change of the configuration file leads to a reload;
//! - [`router`] and [`surface`]: what a service's router is made of, where it
//!   is mounted, and the view of the configuration that is handed out;
//! - [`list`]: the collection of paged lists;
//! - [`error`]: the faults and their words;
//! - [`assoc`], [`orphan`] and [`unexpected`]: the tables and the small types
//!   that the rest is built on.
//!
//! Nothing here talks to a network, a file or a process. The program around
//! the crate does, and asks the crate what to do.

pub mod assoc;
pub mod config;
pub mod error;
pub mod gate;
pub mod json;
pub mod list;
pub mod orphan;
pub mod read;
pub mod registry;
pub mod reload;
pub mod router;
pub mod surface;
pub mod unexpected;
pub mod write;

pub use orphan::{into, Local};
