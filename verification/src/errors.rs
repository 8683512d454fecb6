//! Error taxonomy of the reconciliation core: transport, codec, VPN-directory
//! and storage failures, mirrored on the result topic only by silence.

use vstd::prelude::*;

verus! {

/// Failure of the publish/subscribe transport.
#[derive(Debug)]
pub enum PubSubError {
    /// A message could not be received or its payload read.
    MessageError(String),
    /// The connection to the transport could not be established.
    ConnectionError(String),
    /// The transport client could not be created.
    CreationError(String),
}

/// Failure reported by the VPN membership directory.
#[derive(Debug)]
pub enum VpnError {
    /// The member identifier is unknown to the provider.
    MemberNotFoundError(String),
    /// The member could not be removed from the network.
    DeletionError(String),
    /// The member's authorization update was rejected.
    MemberUpdateError(String),
    /// A transport or credential failure while talking to the provider.
    InternalError(String),
}

/// Failure of the durable key-value store.
#[derive(Debug)]
pub enum StorageError {
    /// A write could not be persisted.
    SetError(String),
}

/// Failure to decode an event envelope from its wire form.
#[derive(Debug)]
pub enum CodecError {
    /// The payload does not follow the envelope wire format.
    Malformed,
}

impl PubSubError {
    /// A human-readable description of the error.
    pub fn message(&self) -> (r: String)
        ensures
            match self {
                PubSubError::MessageError(d) => r@ == "Failed to get message payload: "@ + d@,
                PubSubError::ConnectionError(d) => r@ == "Connection error: "@ + d@,
                PubSubError::CreationError(d) => r@ == "Creation error: "@ + d@,
            },
    {
        match self {
            PubSubError::MessageError(d) => String::from_str("Failed to get message payload: ").concat(d.as_str()),
            PubSubError::ConnectionError(d) => String::from_str("Connection error: ").concat(d.as_str()),
            PubSubError::CreationError(d) => String::from_str("Creation error: ").concat(d.as_str()),
        }
    }
}

impl VpnError {
    /// A human-readable description of the error.
    pub fn message(&self) -> (r: String)
        ensures
            match self {
                VpnError::MemberNotFoundError(d) => r@ == "Member not found: "@ + d@,
                VpnError::DeletionError(d) => r@ == "Deletion error: "@ + d@,
                VpnError::MemberUpdateError(d) => r@ == "Authorization error: "@ + d@,
                VpnError::InternalError(d) => r@ == "Internal VPN error: "@ + d@,
            },
    {
        match self {
            VpnError::MemberNotFoundError(d) => String::from_str("Member not found: ").concat(d.as_str()),
            VpnError::DeletionError(d) => String::from_str("Deletion error: ").concat(d.as_str()),
            VpnError::MemberUpdateError(d) => String::from_str("Authorization error: ").concat(d.as_str()),
            VpnError::InternalError(d) => String::from_str("Internal VPN error: ").concat(d.as_str()),
        }
    }
}

impl StorageError {
    /// A human-readable description of the error.
    pub fn message(&self) -> (r: String)
        ensures
            match self {
                StorageError::SetError(d) => r@ == "Storage write error: "@ + d@,
            },
    {
        match self {
            StorageError::SetError(d) => String::from_str("Storage write error: ").concat(d.as_str()),
        }
    }
}

impl CodecError {
    /// A human-readable description of the error.
    pub fn message(&self) -> (r: String)
        ensures
            r@ == "Malformed envelope"@,
    {
        String::from_str("Malformed envelope")
    }
}

} // verus!
