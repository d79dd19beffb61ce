//! Core logic of a layer-7 load balancer: liveness tracking of upstream
//! servers (active probing plus passive connect-failure detection), failover
//! selection of a live upstream, per-client admission control, and the
//! per-connection request/response protocol, all stated and verified here.
//! Socket I/O, the HTTP byte codec, and task scheduling live outside this
//! crate and drive these functions.

pub mod checker;
pub mod config;
pub mod handler;
pub mod health;
pub mod message;
pub mod rate;
pub mod select;
