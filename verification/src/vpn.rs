//! The VPN membership directory: the capability contract the core needs from
//! it, the kinds of directory a deployment can pick, and the rules that turn
//! a provider's HTTP answers into the core's error taxonomy.
//!
//! The contract keeps a history of the calls made on the directory, so that
//! the flows' contracts can say which members a flow authorized, listed or
//! removed — whatever the directory answered.

use vstd::prelude::*;
use vstd::string::StringExecFns;

use crate::errors::VpnError;

verus! {

/// One authorization call on the VPN directory: the member it named and
/// whether the directory reported success.
pub struct AuthEvent {
    pub member: Seq<char>,
    pub ok: bool,
}

/// One address listing call on the VPN directory: the member it named and
/// the addresses that came back, or nothing on an error.
pub struct ListEvent {
    pub member: Seq<char>,
    pub ips: Option<Seq<Seq<char>>>,
}

/// The VPN membership directory: authorize a member, remove a member, list
/// the addresses bound to a member.
pub trait TVpnClient {
    /// All authorization calls made so far, oldest first.  An implementation
    /// outside the verifier leaves the default model; verified callers rely
    /// only on the contracts below.
    open spec fn auth_events(&self) -> Seq<AuthEvent> {
        Seq::empty()
    }

    /// All removal calls made so far, oldest first, each the member it named.
    open spec fn delete_events(&self) -> Seq<Seq<char>> {
        Seq::empty()
    }

    /// All address listing calls made so far, oldest first.
    open spec fn list_events(&self) -> Seq<ListEvent> {
        Seq::empty()
    }

    /// Authorizes the member; a no-op success if it already is authorized.
    fn auth_member(&mut self, member_id: String, member_token: Option<String>) -> (r: Result<(), VpnError>)
        ensures
            final(self).auth_events() == old(self).auth_events().push(AuthEvent { member: member_id@, ok: r is Ok }),
            final(self).delete_events() == old(self).delete_events(),
            final(self).list_events() == old(self).list_events(),
    ;

    /// Removes the member from the network.
    fn delete_member(&mut self, member_id: String) -> (r: Result<(), VpnError>)
        ensures
            final(self).delete_events() == old(self).delete_events().push(member_id@),
            final(self).auth_events() == old(self).auth_events(),
            final(self).list_events() == old(self).list_events(),
    ;

    /// The addresses currently bound to the member; an empty list (not an
    /// error) when the member exists but has no assignment yet.
    fn get_member_ips_in_vpn(&mut self, member_id: String) -> (r: Result<Vec<String>, VpnError>)
        ensures
            final(self).list_events() == old(self).list_events().push(ListEvent {
                member: member_id@,
                ips: match r { Ok(ips) => Some(ips.deep_view()), Err(_) => None },
            }),
            final(self).auth_events() == old(self).auth_events(),
            final(self).delete_events() == old(self).delete_events(),
    ;
}

/// The kinds of VPN directory a deployment can pick: a real provider, or a
/// stub that answers with the host's public address.
#[derive(Clone, Debug, PartialEq, Eq, Structural)]
pub enum VpnType {
    Zerotier,
    PublicIp,
}

impl core::str::FromStr for VpnType {
    type Err = ();

    fn from_str(input: &str) -> Result<VpnType, ()> {
        if input == "Zerotier" {
            Ok(VpnType::Zerotier)
        } else if input == "PublicIp" {
            Ok(VpnType::PublicIp)
        } else {
            Err(())
        }
    }
}

/// Marker for the directory stub that answers every lookup with the host's
/// public address and treats authorization and removal as no-ops.
pub struct PublicIp {}

impl PublicIp {
    /// Builds the marker.
    pub fn new() -> Self {
        Self {}
    }
}

/// The message used for a rejected credential, whatever the operation.
pub open spec fn auth_failed_text() -> Seq<char> {
    "API authentication failed"@
}

/// The prefix put before a provider answer that fits no known status.
pub open spec fn network_error_prefix() -> Seq<char> {
    "Network error: "@
}

/// Turns a failed member lookup into the core's error taxonomy: an unknown
/// member, a rejected credential, or an internal provider failure.
pub fn map_get_member_error(status: u16, content: String) -> (r: VpnError)
    ensures
        status == 404 ==> (r matches VpnError::MemberNotFoundError(c) && c@ == content@),
        (status == 401 || status == 403) ==> (r matches VpnError::InternalError(c) && c@ == auth_failed_text()),
        (status != 404 && status != 401 && status != 403)
            ==> (r matches VpnError::InternalError(c) && c@ == network_error_prefix() + content@),
{
    if status == 404 {
        VpnError::MemberNotFoundError(content)
    } else if status == 401 || status == 403 {
        VpnError::InternalError(String::from_str("API authentication failed"))
    } else {
        VpnError::InternalError(String::from_str("Network error: ").concat(content.as_str()))
    }
}

/// Turns a failed member removal into the core's error taxonomy: a rejected
/// credential, or a deletion failure carrying the provider's answer.
pub fn map_delete_member_error(status: u16, content: String) -> (r: VpnError)
    ensures
        (status == 401 || status == 403) ==> (r matches VpnError::InternalError(c) && c@ == auth_failed_text()),
        (status != 401 && status != 403) ==> (r matches VpnError::DeletionError(c) && c@ == content@),
{
    if status == 401 || status == 403 {
        VpnError::InternalError(String::from_str("API authentication failed"))
    } else {
        VpnError::DeletionError(content)
    }
}

/// Turns a failed member update into the core's error taxonomy: a rejected
/// credential, or an update failure carrying the provider's answer.
pub fn map_update_member_error(status: u16, content: String) -> (r: VpnError)
    ensures
        (status == 401 || status == 403) ==> (r matches VpnError::InternalError(c) && c@ == auth_failed_text()),
        (status != 401 && status != 403) ==> (r matches VpnError::MemberUpdateError(c) && c@ == content@),
{
    if status == 401 || status == 403 {
        VpnError::InternalError(String::from_str("API authentication failed"))
    } else {
        VpnError::MemberUpdateError(content)
    }
}

} // verus!
