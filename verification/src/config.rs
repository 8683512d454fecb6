//! Configuration of the service: where the collaborators live, which backend
//! stands behind each capability, the channel names, and the retry policy
//! shared by the flows.

use vstd::prelude::*;
use vstd::string::StringExecFns;

use crate::persistence::StoreType;
use crate::pub_sub::PubSubType;
use crate::vpn::VpnType;

verus! {

/// Where the query endpoints listen.
#[derive(Debug, Clone)]
pub struct ApiConfig {
    pub host: String,
    pub port: u16,
}

/// Which transport to use and where to reach it.
#[derive(Debug, Clone)]
pub struct PubSubConfig {
    pub url: String,
    pub pub_sub_type: PubSubType,
}

/// Which VPN directory to use and the credentials for it.
#[derive(Debug, Clone)]
pub struct VpnConfig {
    pub api_url: String,
    pub api_key: String,
    pub network_id: String,
    pub vpn_type: VpnType,
}

/// Which key-value store to use and where it lives.
#[derive(Debug, Clone)]
pub struct DbConfig {
    pub path: String,
    pub store_type: StoreType,
}

/// The channel names the core listens on and publishes to.
#[derive(Debug, Clone)]
pub struct AdmineChannelsMap {
    pub server_channel: String,
    pub command_channel: String,
    pub vpn_channel: String,
}

/// The retry policy of the activation flow: how often to try again and how
/// long to wait between cycles.  A budget of zero means a single attempt.
#[derive(Debug, Clone)]
pub struct RetryConfig {
    pub attempts: usize,
    pub delay_ms: u64,
}

/// The whole configuration, loaded once at startup.
#[derive(Debug, Clone)]
pub struct Config {
    pub self_origin_name: String,
    pub api_config: ApiConfig,
    pub pub_sub_config: PubSubConfig,
    pub vpn_config: VpnConfig,
    pub db_config: DbConfig,
    pub admine_channels_map: AdmineChannelsMap,
    pub retry_config: RetryConfig,
}

impl ApiConfig {
    /// Builds an endpoint configuration from its parts.
    pub fn new(host: String, port: u16) -> (r: Self)
        ensures
            r.host == host,
            r.port == port,
    {
        Self { host, port }
    }
}

impl PubSubConfig {
    /// Builds a transport configuration from its parts.
    pub fn new(url: String, pub_sub_type: PubSubType) -> (r: Self)
        ensures
            r.url == url,
            r.pub_sub_type == pub_sub_type,
    {
        Self { url, pub_sub_type }
    }
}

impl VpnConfig {
    /// Builds a directory configuration from its parts.
    pub fn new(api_url: String, api_key: String, network_id: String, vpn_type: VpnType) -> (r: Self)
        ensures
            r.api_url == api_url,
            r.api_key == api_key,
            r.network_id == network_id,
            r.vpn_type == vpn_type,
    {
        Self { api_url, api_key, network_id, vpn_type }
    }
}

impl DbConfig {
    /// Builds a store configuration from its parts.
    pub fn new(path: String, store_type: StoreType) -> (r: Self)
        ensures
            r.path == path,
            r.store_type == store_type,
    {
        Self { path, store_type }
    }
}

impl AdmineChannelsMap {
    /// Builds the channel map from its parts.
    pub fn new(server_channel: String, command_channel: String, vpn_channel: String) -> (r: Self)
        ensures
            r.server_channel == server_channel,
            r.command_channel == command_channel,
            r.vpn_channel == vpn_channel,
    {
        Self { server_channel, command_channel, vpn_channel }
    }
}

impl RetryConfig {
    /// Builds a retry policy: `attempts` further tries after the first, with
    /// `delay_ms` milliseconds between cycles.
    pub fn new(attempts: usize, delay_ms: u64) -> (r: Self)
        ensures
            r.attempts == attempts,
            r.delay_ms == delay_ms,
    {
        Self { attempts, delay_ms }
    }
}

impl Config {
    /// Builds a configuration from parts already in hand.
    pub fn new_with_params(
        self_origin_name: String,
        api_config: ApiConfig,
        pub_sub_config: PubSubConfig,
        vpn_config: VpnConfig,
        db_config: DbConfig,
        admine_channels_map: AdmineChannelsMap,
        retry_config: RetryConfig,
    ) -> (r: Self)
        ensures
            r.self_origin_name == self_origin_name,
            r.api_config == api_config,
            r.pub_sub_config == pub_sub_config,
            r.vpn_config == vpn_config,
            r.db_config == db_config,
            r.admine_channels_map == admine_channels_map,
            r.retry_config == retry_config,
    {
        Self {
            self_origin_name,
            api_config,
            pub_sub_config,
            vpn_config,
            db_config,
            admine_channels_map,
            retry_config,
        }
    }

    /// A fixed configuration with placeholder endpoints, for exercising the
    /// core without loading a file.
    pub fn new_test_config() -> (r: Self)
        ensures
            r.retry_config.attempts == 3,
            r.retry_config.delay_ms == 100,
            r.admine_channels_map.server_channel@ == "server_channel"@,
            r.admine_channels_map.command_channel@ == "command_channel"@,
            r.admine_channels_map.vpn_channel@ == "vpn_channel"@,
            r.self_origin_name@ == "test_vpn_handler"@,
    {
        let api_config = ApiConfig::new(String::from_str("localhost"), 8080);
        let pub_sub_config = PubSubConfig::new(
            String::from_str("redis://localhost:6379"),
            PubSubType::Redis,
        );
        let vpn_config = VpnConfig::new(
            String::from_str("https://api.zerotier.com"),
            String::from_str("test_api_key"),
            String::from_str("test_network_id"),
            VpnType::Zerotier,
        );
        let db_config = DbConfig::new(String::from_str("./test_data"), StoreType::Sled);
        let admine_channels_map = AdmineChannelsMap::new(
            String::from_str("server_channel"),
            String::from_str("command_channel"),
            String::from_str("vpn_channel"),
        );
        let retry_config = RetryConfig::new(3, 100);
        Self::new_with_params(
            String::from_str("test_vpn_handler"),
            api_config,
            pub_sub_config,
            vpn_config,
            db_config,
            admine_channels_map,
            retry_config,
        )
    }
}

} // verus!
