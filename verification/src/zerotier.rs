//! The provider-side picture of a VPN member, as the directory's API returns
//! it, and the decisions the core takes on it: reading the assigned
//! addresses, testing authorization, and marking a member authorized before
//! an update is sent back.

use vstd::prelude::*;

verus! {

/// One element of a member tag pair: an integer or a boolean value.
#[derive(Clone, Debug, PartialEq)]
pub enum MemberConfigTagsInnerInner {
    Variant0(i64),
    Variant1(bool),
}

/// The member's configuration inside the directory.  A missing outer option
/// means the field was absent; a missing inner option means it was null.
#[derive(Clone, Default, Debug, PartialEq)]
pub struct MemberConfig {
    pub active_bridge: Option<Option<bool>>,
    pub authorized: Option<Option<bool>>,
    pub capabilities: Option<Option<Vec<i32>>>,
    pub creation_time: Option<Option<i64>>,
    pub id: Option<Option<String>>,
    pub identity: Option<Option<String>>,
    pub ip_assignments: Option<Option<Vec<String>>>,
    pub last_authorized_time: Option<Option<i64>>,
    pub last_deauthorized_time: Option<Option<i64>>,
    pub no_auto_assign_ips: Option<Option<bool>>,
    pub revision: Option<Option<i32>>,
    pub sso_exempt: Option<Option<bool>>,
    pub tags: Option<Option<Vec<Vec<MemberConfigTagsInnerInner>>>>,
    pub v_major: Option<Option<i32>>,
    pub v_minor: Option<Option<i32>>,
    pub v_rev: Option<Option<i32>>,
    pub v_proto: Option<Option<i32>>,
}

/// A member record as the directory returns it.
#[derive(Clone, Default, Debug, PartialEq)]
pub struct Member {
    pub id: Option<Option<String>>,
    pub clock: Option<Option<i64>>,
    pub network_id: Option<Option<String>>,
    pub node_id: Option<Option<String>>,
    pub controller_id: Option<Option<String>>,
    pub hidden: Option<Option<bool>>,
    pub name: Option<Option<String>>,
    pub description: Option<Option<String>>,
    pub config: Option<Box<MemberConfig>>,
    pub last_online: Option<Option<i64>>,
    pub last_seen: Option<Option<i64>>,
    pub physical_address: Option<Option<String>>,
    pub client_version: Option<Option<String>>,
    pub protocol_version: Option<Option<i32>>,
    pub supports_rules_engine: Option<Option<bool>>,
}

/// The single-sign-on configuration of a network, as the directory returns it.
#[derive(Clone, Default, Debug, PartialEq)]
pub struct NetworkSsoConfig {
    pub enabled: Option<bool>,
    pub mode: Option<String>,
    pub client_id: Option<String>,
    pub issuer: Option<String>,
    pub provider: Option<String>,
    pub authorization_endpoint: Option<String>,
    pub allow_list: Option<Option<Vec<String>>>,
}

impl NetworkSsoConfig {
    /// An empty configuration: every field absent.
    pub fn new() -> (r: NetworkSsoConfig)
        ensures
            r.enabled is None,
            r.mode is None,
            r.client_id is None,
            r.issuer is None,
            r.provider is None,
            r.authorization_endpoint is None,
            r.allow_list is None,
    {
        NetworkSsoConfig {
            enabled: None,
            mode: None,
            client_id: None,
            issuer: None,
            provider: None,
            authorization_endpoint: None,
            allow_list: None,
        }
    }
}

/// An API credential: the token itself and an optional scheme prefix.
#[derive(Clone, Debug)]
pub struct ApiKey {
    pub prefix: Option<String>,
    pub key: String,
}

impl ApiKey {
    /// A credential without a scheme prefix.
    pub fn new(api_key: String) -> (r: ApiKey)
        ensures
            r.prefix is None,
            r.key == api_key,
    {
        ApiKey { prefix: None, key: api_key }
    }
}

/// The addresses assigned to a member, or nothing where the record carries
/// none.
pub open spec fn spec_member_ips(m: Member) -> Seq<Seq<char>> {
    match m.config {
        Some(c) => match c.ip_assignments {
            Some(Some(ips)) => ips.deep_view(),
            _ => Seq::empty(),
        },
        None => Seq::empty(),
    }
}

/// Whether the record says the member is authorized on the network.
pub open spec fn spec_member_authorized(m: Member) -> bool {
    match m.config {
        Some(c) => c.authorized == Some(Some(true)),
        None => false,
    }
}

/// Whether two member records agree on everything but their configuration.
pub open spec fn same_member_but_config(a: Member, b: Member) -> bool {
    &&& a.id == b.id
    &&& a.clock == b.clock
    &&& a.network_id == b.network_id
    &&& a.node_id == b.node_id
    &&& a.controller_id == b.controller_id
    &&& a.hidden == b.hidden
    &&& a.name == b.name
    &&& a.description == b.description
    &&& a.last_online == b.last_online
    &&& a.last_seen == b.last_seen
    &&& a.physical_address == b.physical_address
    &&& a.client_version == b.client_version
    &&& a.protocol_version == b.protocol_version
    &&& a.supports_rules_engine == b.supports_rules_engine
}

/// Whether two configurations agree on everything but the authorization flag.
pub open spec fn same_config_but_authorized(a: MemberConfig, b: MemberConfig) -> bool {
    &&& a.active_bridge == b.active_bridge
    &&& a.capabilities == b.capabilities
    &&& a.creation_time == b.creation_time
    &&& a.id == b.id
    &&& a.identity == b.identity
    &&& a.ip_assignments == b.ip_assignments
    &&& a.last_authorized_time == b.last_authorized_time
    &&& a.last_deauthorized_time == b.last_deauthorized_time
    &&& a.no_auto_assign_ips == b.no_auto_assign_ips
    &&& a.revision == b.revision
    &&& a.sso_exempt == b.sso_exempt
    &&& a.tags == b.tags
    &&& a.v_major == b.v_major
    &&& a.v_minor == b.v_minor
    &&& a.v_rev == b.v_rev
    &&& a.v_proto == b.v_proto
}

/// Copies one vector of strings.
fn clone_string_vec(v: &Vec<String>) -> (r: Vec<String>)
    ensures
        r.deep_view() == v.deep_view(),
{
    let mut r: Vec<String> = Vec::new();
    let n = v.len();
    let mut i: usize = 0;
    while i < n
        invariant
            n == v.len(),
            i <= n,
            r@.len() == i,
            forall|j: int| 0 <= j < i ==> #[trigger] r@[j]@ == v@[j]@,
        decreases n - i,
    {
        r.push(v[i].clone());
        i = i + 1;
    }
    proof {
        assert(r.deep_view() =~= v.deep_view());
    }
    r
}

impl Member {
    /// The addresses assigned to this member; empty where the record carries
    /// none.
    pub fn get_member_ips(&self) -> (r: Vec<String>)
        ensures
            r.deep_view() == spec_member_ips(*self),
    {
        match &self.config {
            Some(config) => match &config.ip_assignments {
                Some(Some(ips)) => clone_string_vec(ips),
                _ => Vec::new(),
            },
            None => Vec::new(),
        }
    }

    /// Whether the record says this member is authorized on the network.
    pub fn is_authorized(&self) -> (r: bool)
        ensures
            r == spec_member_authorized(*self),
    {
        match &self.config {
            Some(config) => match &config.authorized {
                Some(Some(b)) => *b,
                _ => false,
            },
            None => false,
        }
    }

    /// This member's node identifier, where the record carries one.
    pub fn get_node_id(&self) -> (r: Option<&String>)
        ensures
            match r {
                Some(v) => self.node_id == Some(Some(*v)),
                None => self.node_id is None || self.node_id == Some(None::<String>),
            },
    {
        match &self.node_id {
            Some(Some(v)) => Some(v),
            _ => None,
        }
    }

    /// The same record with the authorization flag set, ready to be sent back
    /// to the directory; a record without configuration comes back unchanged.
    pub fn with_authorization(self) -> (r: Member)
        ensures
            same_member_but_config(self, r),
            self.config is None ==> r == self,
            self.config is Some ==> r.config is Some && {
                let c0 = self.config->Some_0;
                let c1 = r.config->Some_0;
                &&& c1.authorized == Some(Some(true))
                &&& same_config_but_authorized(*c0, *c1)
            },
    {
        let mut m = self;
        m.config = match m.config {
            Some(config) => {
                let mut c = *config;
                c.authorized = Some(Some(true));
                Some(Box::new(c))
            },
            None => None,
        };
        m
    }
}

} // verus!
