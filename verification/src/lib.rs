//! Coordination service core: receives tagged event envelopes from a
//! publish/subscribe bus, dispatches them by origin and tag, drives the
//! server-activation and member-authorization flows against a VPN membership
//! directory, and persists the identifier of the member that currently
//! represents the active server.

pub mod admine_message;
pub mod api_models;
pub mod codec;
pub mod config;
pub mod errors;
pub mod persistence;
pub mod pub_sub;
pub mod queue_handler;
pub mod vpn;
pub mod zerotier;
