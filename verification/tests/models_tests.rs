//! Exercises the envelope accessors, the configuration types, the error
//! taxonomy and the member-record helpers.

use core::str::FromStr;

use vpn_handler::admine_message::AdmineMessage;
use vpn_handler::config::{
    AdmineChannelsMap, ApiConfig, Config, DbConfig, PubSubConfig, RetryConfig, VpnConfig,
};
use vpn_handler::errors::{CodecError, PubSubError, StorageError, VpnError};
use vpn_handler::persistence::{KeyValueStore, StorageManager, StoreType};
use vpn_handler::pub_sub::PubSubType;
use vpn_handler::queue_handler::Handle;
use vpn_handler::vpn::{
    map_delete_member_error, map_get_member_error, map_update_member_error, PublicIp, VpnType,
};
use vpn_handler::zerotier::{ApiKey, Member, MemberConfig, NetworkSsoConfig};

// A small in-memory store, enough to exercise the storage manager.
struct MemoryStore {
    pairs: Vec<(String, String)>,
}

impl KeyValueStore for MemoryStore {
    fn set(&mut self, key: String, value: String) -> Result<(), StorageError> {
        self.pairs.retain(|(k, _)| k != &key);
        self.pairs.push((key, value));
        Ok(())
    }

    fn get(&self, key: &str) -> Option<String> {
        self.pairs.iter().find(|(k, _)| k == key).map(|(_, v)| v.clone())
    }
}

#[test]
fn envelope_accessors_and_has_tag() {
    let mut m = AdmineMessage::new(
        vec!["server_on".to_string(), "extra".to_string()],
        "member-9".to_string(),
    );
    assert_eq!(m.origin(), "");
    m.set_origin("server".to_string());
    assert_eq!(m.origin(), "server");
    assert_eq!(m.message(), "member-9");
    assert_eq!(m.tags().len(), 2);
    assert!(m.has_tag("server_on"));
    assert!(m.has_tag("extra"));
    assert!(!m.has_tag("server_up"));
    assert!(!m.has_tag(""));
    m.set_tags(vec![]);
    assert!(!m.has_tag("server_on"));
    m.set_message("other".to_string());
    assert_eq!(m.message(), "other");
}

#[test]
fn config_constructors_keep_their_parts() {
    let api = ApiConfig::new("localhost".to_string(), 8080);
    assert_eq!(api.host, "localhost");
    assert_eq!(api.port, 8080);

    let pub_sub = PubSubConfig::new("redis://localhost:6379".to_string(), PubSubType::Redis);
    assert_eq!(pub_sub.url, "redis://localhost:6379");
    assert_eq!(pub_sub.pub_sub_type, PubSubType::Redis);

    let vpn = VpnConfig::new(
        "https://api.example.net".to_string(),
        "k".to_string(),
        "net-1".to_string(),
        VpnType::Zerotier,
    );
    assert_eq!(vpn.network_id, "net-1");
    assert_eq!(vpn.vpn_type, VpnType::Zerotier);

    let db = DbConfig::new("./data".to_string(), StoreType::Sled);
    assert_eq!(db.path, "./data");
    assert_eq!(db.store_type, StoreType::Sled);

    let channels = AdmineChannelsMap::new(
        "server_channel".to_string(),
        "command_channel".to_string(),
        "vpn_channel".to_string(),
    );
    assert_eq!(channels.vpn_channel, "vpn_channel");

    let retry = RetryConfig::new(3, 100);
    assert_eq!(retry.attempts, 3);
    assert_eq!(retry.delay_ms, 100);

    let config = Config::new_with_params(
        "self".to_string(),
        api,
        pub_sub,
        vpn,
        db,
        channels,
        retry,
    );
    assert_eq!(config.self_origin_name, "self");
    assert_eq!(config.retry_config.attempts, 3);
}

#[test]
fn test_config_defaults() {
    let config = Config::new_test_config();
    assert_eq!(config.self_origin_name, "test_vpn_handler");
    assert_eq!(config.retry_config.attempts, 3);
    assert_eq!(config.retry_config.delay_ms, 100);
    assert_eq!(config.admine_channels_map.server_channel, "server_channel");
    assert_eq!(config.admine_channels_map.command_channel, "command_channel");
    assert_eq!(config.admine_channels_map.vpn_channel, "vpn_channel");
    assert_eq!(config.api_config.host, "localhost");
    assert_eq!(config.db_config.store_type, StoreType::Sled);
    assert_eq!(config.pub_sub_config.pub_sub_type, PubSubType::Redis);
}

#[test]
fn backend_names_parse_to_their_kinds() {
    assert_eq!(StoreType::from_str("Sled"), Ok(StoreType::Sled));
    assert!(StoreType::from_str("sled").is_err());
    assert_eq!(PubSubType::from_str("Redis"), Ok(PubSubType::Redis));
    assert!(PubSubType::from_str("Rabbit").is_err());
    assert_eq!(VpnType::from_str("Zerotier"), Ok(VpnType::Zerotier));
    assert_eq!(VpnType::from_str("PublicIp"), Ok(VpnType::PublicIp));
    assert!(VpnType::from_str("Other").is_err());
}

#[test]
fn error_messages_carry_their_detail() {
    assert_eq!(
        PubSubError::MessageError("lost".to_string()).message(),
        "Failed to get message payload: lost"
    );
    assert_eq!(
        PubSubError::ConnectionError("down".to_string()).message(),
        "Connection error: down"
    );
    assert_eq!(
        PubSubError::CreationError("bad url".to_string()).message(),
        "Creation error: bad url"
    );
    assert_eq!(
        VpnError::MemberNotFoundError("m-1".to_string()).message(),
        "Member not found: m-1"
    );
    assert_eq!(VpnError::DeletionError("no".to_string()).message(), "Deletion error: no");
    assert_eq!(
        VpnError::MemberUpdateError("no".to_string()).message(),
        "Authorization error: no"
    );
    assert_eq!(
        VpnError::InternalError("boom".to_string()).message(),
        "Internal VPN error: boom"
    );
    assert_eq!(
        StorageError::SetError("disk".to_string()).message(),
        "Storage write error: disk"
    );
    assert_eq!(CodecError::Malformed.message(), "Malformed envelope");
}

#[test]
fn provider_status_codes_map_to_the_taxonomy() {
    assert!(matches!(
        map_get_member_error(404, "gone".to_string()),
        VpnError::MemberNotFoundError(c) if c == "gone"
    ));
    assert!(matches!(
        map_get_member_error(401, "x".to_string()),
        VpnError::InternalError(c) if c == "API authentication failed"
    ));
    assert!(matches!(
        map_get_member_error(403, "x".to_string()),
        VpnError::InternalError(c) if c == "API authentication failed"
    ));
    assert!(matches!(
        map_get_member_error(500, "oops".to_string()),
        VpnError::InternalError(c) if c == "Network error: oops"
    ));
    assert!(matches!(
        map_delete_member_error(403, "x".to_string()),
        VpnError::InternalError(c) if c == "API authentication failed"
    ));
    assert!(matches!(
        map_delete_member_error(500, "denied".to_string()),
        VpnError::DeletionError(c) if c == "denied"
    ));
    assert!(matches!(
        map_update_member_error(401, "x".to_string()),
        VpnError::InternalError(c) if c == "API authentication failed"
    ));
    assert!(matches!(
        map_update_member_error(422, "invalid".to_string()),
        VpnError::MemberUpdateError(c) if c == "invalid"
    ));
}

#[test]
fn member_record_helpers() {
    let mut member = Member::default();
    assert_eq!(member.get_member_ips(), Vec::<String>::new());
    assert!(!member.is_authorized());
    assert_eq!(member.get_node_id(), None);

    let mut config = MemberConfig::default();
    config.ip_assignments = Some(Some(vec!["10.0.0.1".to_string(), "10.0.0.2".to_string()]));
    member.config = Some(Box::new(config));
    member.node_id = Some(Some("node-7".to_string()));

    assert_eq!(
        member.get_member_ips(),
        vec!["10.0.0.1".to_string(), "10.0.0.2".to_string()]
    );
    assert!(!member.is_authorized());
    assert_eq!(member.get_node_id(), Some(&"node-7".to_string()));

    let authorized = member.with_authorization();
    assert!(authorized.is_authorized());
    assert_eq!(
        authorized.get_member_ips(),
        vec!["10.0.0.1".to_string(), "10.0.0.2".to_string()]
    );
    assert_eq!(authorized.get_node_id(), Some(&"node-7".to_string()));

    let bare = Member::default();
    let still_bare = bare.with_authorization();
    assert!(!still_bare.is_authorized());
    assert_eq!(still_bare.config, None);
}

#[test]
fn network_sso_config_starts_empty() {
    let sso = NetworkSsoConfig::new();
    assert_eq!(sso.enabled, None);
    assert_eq!(sso.mode, None);
    assert_eq!(sso.client_id, None);
    assert_eq!(sso.issuer, None);
    assert_eq!(sso.provider, None);
    assert_eq!(sso.authorization_endpoint, None);
    assert_eq!(sso.allow_list, None);
}

#[test]
fn api_key_has_no_prefix_by_default() {
    let key = ApiKey::new("token-123".to_string());
    assert_eq!(key.prefix, None);
    assert_eq!(key.key, "token-123");
}

#[test]
fn public_ip_marker_builds() {
    let _stub = PublicIp::new();
}

#[test]
fn storage_manager_hands_out_its_store() {
    let store = MemoryStore { pairs: Vec::new() };
    let mut manager = StorageManager::new(store);
    let r = Handle::update_server_id("m-1", manager.get_store());
    assert!(r.is_ok());
    let current = manager.get_store().get("server_member_id");
    assert_eq!(current, Some("m-1".to_string()));
}
