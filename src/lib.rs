//! Resource-provisioning engine for game-hosting backends: allocation
//! discovery over paged listings, server creation payloads, backend
//! configuration, and the authorization capsule that gates operations.

pub mod allocation;
pub mod auth;
pub mod backend;
pub mod menu;
pub mod pages;
pub mod server;
