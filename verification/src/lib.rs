//! OrbitBuild: a build farm of machines that find each other.
//!
//! The nodes of a *Constellation* share a document. *Stations* keep the document alive,
//! *Satellites* run buildkitd and register in the document, and *Mission Control* finds the
//! Satellites there and opens local sockets that lead to them, for `docker buildx` to use. A
//! *Beacon* is the ticket that admits a node.
//!
//! This crate holds what the nodes decide and compute; talking to the network, to the file
//! system and to docker is left to the program around it, which reports what happened and is
//! told what to do next.
//!
//! - [`cli`], [`lifecycle`]: commands, and the stages of the nodes that they start;
//! - [`beacon`], [`keys`], [`router`], [`station`]: tickets, identities, protocols;
//! - [`satellite`], [`membership`], [`build_proxy`]: what Satellites register, whom they let in,
//!   and how they serve;
//! - [`sync`], [`mission_control`], [`bridge`], [`docker`]: finding Satellites, and leading
//!   builds to them;
//! - [`status`], [`link`], [`fleet`]: the commands that look at all this from outside;
//! - [`text`], [`encoding`], [`path`], [`console`]: what the others are made of.

pub mod beacon;
pub mod bridge;
pub mod build_proxy;
pub mod cli;
pub mod console;
pub mod docker;
pub mod encoding;
pub mod fleet;
pub mod keys;
pub mod lifecycle;
pub mod link;
pub mod membership;
pub mod mission_control;
pub mod path;
pub mod router;
pub mod satellite;
pub mod station;
pub mod status;
pub mod sync;
pub mod text;
