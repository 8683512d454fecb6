//! The request and response bodies of the service's query endpoints, in the
//! shape the collaborating HTTP layer exchanges them.

use vstd::prelude::*;

verus! {

/// A manual authorization request: the member to authorize.
pub struct AuthMemberRequest {
    pub member_id: String,
}

/// The answer to a network-identifier query.
pub struct VpnIdResponse {
    pub vpn_id: String,
}

/// The body of an error answer.
pub struct ErrorResponse {
    pub message: String,
}

} // verus!
