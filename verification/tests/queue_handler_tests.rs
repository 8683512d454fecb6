//! Exercises the reconciliation flows against in-memory collaborators that
//! record every call made on them.

use std::collections::HashMap;

use vpn_handler::admine_message::AdmineMessage;
use vpn_handler::config::RetryConfig;
use vpn_handler::errors::{PubSubError, StorageError, VpnError};
use vpn_handler::persistence::KeyValueStore;
use vpn_handler::pub_sub::TPublisher;
use vpn_handler::queue_handler::{Handle, Sleeper};
use vpn_handler::vpn::TVpnClient;

struct MockVpn {
    auth_results: Vec<Result<(), VpnError>>,
    list_results: Vec<Result<Vec<String>, VpnError>>,
    delete_results: Vec<Result<(), VpnError>>,
    auth_calls: Vec<String>,
    list_calls: Vec<String>,
    delete_calls: Vec<String>,
}

impl MockVpn {
    fn new() -> MockVpn {
        MockVpn {
            auth_results: Vec::new(),
            list_results: Vec::new(),
            delete_results: Vec::new(),
            auth_calls: Vec::new(),
            list_calls: Vec::new(),
            delete_calls: Vec::new(),
        }
    }
}

impl TVpnClient for MockVpn {
    fn auth_member(&mut self, member_id: String, _member_token: Option<String>) -> Result<(), VpnError> {
        self.auth_calls.push(member_id);
        if self.auth_results.is_empty() {
            Ok(())
        } else {
            self.auth_results.remove(0)
        }
    }

    fn delete_member(&mut self, member_id: String) -> Result<(), VpnError> {
        self.delete_calls.push(member_id);
        if self.delete_results.is_empty() {
            Ok(())
        } else {
            self.delete_results.remove(0)
        }
    }

    fn get_member_ips_in_vpn(&mut self, member_id: String) -> Result<Vec<String>, VpnError> {
        self.list_calls.push(member_id);
        if self.list_results.is_empty() {
            Ok(Vec::new())
        } else {
            self.list_results.remove(0)
        }
    }
}

struct MockStorage {
    map: HashMap<String, String>,
    set_results: Vec<Result<(), StorageError>>,
    set_calls: Vec<(String, String)>,
}

impl MockStorage {
    fn new() -> MockStorage {
        MockStorage {
            map: HashMap::new(),
            set_results: Vec::new(),
            set_calls: Vec::new(),
        }
    }
}

impl KeyValueStore for MockStorage {
    fn set(&mut self, key: String, value: String) -> Result<(), StorageError> {
        self.set_calls.push((key.clone(), value.clone()));
        let r = if self.set_results.is_empty() {
            Ok(())
        } else {
            self.set_results.remove(0)
        };
        if r.is_ok() {
            self.map.insert(key, value);
        }
        r
    }

    fn get(&self, key: &str) -> Option<String> {
        self.map.get(key).cloned()
    }
}

struct MockPubSub {
    published: Vec<(String, String)>,
    publish_results: Vec<Result<(), PubSubError>>,
}

impl MockPubSub {
    fn new() -> MockPubSub {
        MockPubSub { published: Vec::new(), publish_results: Vec::new() }
    }
}

impl TPublisher for MockPubSub {
    fn publish(&mut self, topic: String, message: String) -> Result<(), PubSubError> {
        self.published.push((topic, message));
        if self.publish_results.is_empty() {
            Ok(())
        } else {
            self.publish_results.remove(0)
        }
    }
}

struct MockSleeper {
    sleeps: Vec<u64>,
}

impl MockSleeper {
    fn new() -> MockSleeper {
        MockSleeper { sleeps: Vec::new() }
    }
}

impl Sleeper for MockSleeper {
    fn sleep_ms(&mut self, millis: u64) {
        self.sleeps.push(millis);
    }
}

fn create_test_retry_config() -> RetryConfig {
    RetryConfig::new(3, 10)
}

fn expected_payload(origin: &str, tag: &str, message: &str) -> String {
    let mut envelope = AdmineMessage::new(vec![tag.to_string()], message.to_string());
    envelope.set_origin(origin.to_string());
    envelope.to_json_string()
}

#[test]
fn test_update_server_id_success() {
    let mut storage = MockStorage::new();

    let result = Handle::update_server_id("test_member_123", &mut storage);

    assert!(result.is_ok());
    assert_eq!(
        storage.set_calls,
        vec![("server_member_id".to_string(), "test_member_123".to_string())]
    );
    assert_eq!(storage.map.get("server_member_id"), Some(&"test_member_123".to_string()));
}

#[test]
fn test_update_server_id_failure() {
    let mut storage = MockStorage::new();
    storage.set_results.push(Err(StorageError::SetError("Database error".to_string())));

    let result = Handle::update_server_id("test_member_123", &mut storage);

    assert!(result.is_err());
    assert_eq!(
        storage.set_calls,
        vec![("server_member_id".to_string(), "test_member_123".to_string())]
    );
    assert_eq!(storage.map.get("server_member_id"), None);
}

#[test]
fn test_process_auth_member_success() {
    let mut vpn = MockVpn::new();
    let mut pubsub = MockPubSub::new();

    Handle::process_auth_member(
        "test_member_123".to_string(),
        &mut vpn,
        &mut pubsub,
        "vpn_channel",
        "test",
    );

    assert_eq!(vpn.auth_calls, vec!["test_member_123".to_string()]);
    assert_eq!(pubsub.published.len(), 1);
    assert_eq!(pubsub.published[0].0, "vpn_channel");
}

#[test]
fn test_process_auth_member_auth_failure() {
    let mut vpn = MockVpn::new();
    let mut pubsub = MockPubSub::new();
    vpn.auth_results.push(Err(VpnError::InternalError("Auth failed".to_string())));

    Handle::process_auth_member(
        "test_member_123".to_string(),
        &mut vpn,
        &mut pubsub,
        "vpn_channel",
        "test",
    );

    assert_eq!(vpn.auth_calls, vec!["test_member_123".to_string()]);
    // No publication when the authorization fails.
    assert_eq!(pubsub.published.len(), 0);
}

#[test]
fn test_process_server_up_success() {
    let mut vpn = MockVpn::new();
    let mut storage = MockStorage::new();
    let mut pubsub = MockPubSub::new();
    let mut sleeper = MockSleeper::new();
    let retry_config = create_test_retry_config();

    vpn.list_results.push(Ok(vec!["192.168.1.100".to_string(), "10.0.0.50".to_string()]));

    Handle::process_server_up(
        "test_member_123".to_string(),
        &mut vpn,
        &mut storage,
        &mut pubsub,
        &retry_config,
        "vpn_channel",
        "test",
        &mut sleeper,
    );

    assert_eq!(vpn.auth_calls, vec!["test_member_123".to_string()]);
    assert_eq!(vpn.list_calls.len(), 1);
    assert_eq!(vpn.delete_calls.len(), 0);
    assert_eq!(pubsub.published.len(), 1);
    assert_eq!(pubsub.published[0].0, "vpn_channel");
    assert_eq!(
        pubsub.published[0].1,
        expected_payload("test", "new_server_up", "192.168.1.100,10.0.0.50")
    );
    assert_eq!(
        storage.set_calls,
        vec![("server_member_id".to_string(), "test_member_123".to_string())]
    );
}

#[test]
fn test_process_server_up_with_old_member_cleanup() {
    let mut vpn = MockVpn::new();
    let mut storage = MockStorage::new();
    let mut pubsub = MockPubSub::new();
    let mut sleeper = MockSleeper::new();
    let retry_config = create_test_retry_config();

    storage.map.insert("server_member_id".to_string(), "old_member_456".to_string());
    vpn.list_results.push(Ok(vec!["192.168.1.100".to_string()]));

    Handle::process_server_up(
        "test_member_123".to_string(),
        &mut vpn,
        &mut storage,
        &mut pubsub,
        &retry_config,
        "vpn_channel",
        "test",
        &mut sleeper,
    );

    assert_eq!(vpn.delete_calls, vec!["old_member_456".to_string()]);
    assert_eq!(pubsub.published.len(), 1);
    assert_eq!(storage.map.get("server_member_id"), Some(&"test_member_123".to_string()));
}

#[test]
fn test_process_server_up_retry_on_no_ips() {
    let mut vpn = MockVpn::new();
    let mut storage = MockStorage::new();
    let mut pubsub = MockPubSub::new();
    let mut sleeper = MockSleeper::new();
    let retry_config = create_test_retry_config();

    // First call returns no addresses, the second returns one.
    vpn.list_results.push(Ok(Vec::new()));
    vpn.list_results.push(Ok(vec!["192.168.1.100".to_string()]));

    Handle::process_server_up(
        "test_member_123".to_string(),
        &mut vpn,
        &mut storage,
        &mut pubsub,
        &retry_config,
        "vpn_channel",
        "test",
        &mut sleeper,
    );

    assert_eq!(vpn.list_calls.len(), 2);
    assert_eq!(pubsub.published.len(), 1);
    assert_eq!(sleeper.sleeps, vec![10]);
}

#[test]
fn test_process_message_with_deps_server_on() {
    let mut vpn = MockVpn::new();
    let mut storage = MockStorage::new();
    let mut pubsub = MockPubSub::new();
    let mut sleeper = MockSleeper::new();
    let retry_config = create_test_retry_config();

    vpn.list_results.push(Ok(vec!["192.168.1.100".to_string()]));

    let mut message =
        AdmineMessage::new(vec!["server_on".to_string()], "test_member_123".to_string());
    message.set_origin("server".to_string());

    Handle::process_message_with_deps(
        message,
        &mut vpn,
        &mut storage,
        &mut pubsub,
        &retry_config,
        "vpn_channel",
        "test",
        &mut sleeper,
    );

    assert_eq!(vpn.auth_calls, vec!["test_member_123".to_string()]);
    assert_eq!(pubsub.published.len(), 1);
    assert_eq!(storage.map.get("server_member_id"), Some(&"test_member_123".to_string()));
}

#[test]
fn test_process_message_with_deps_auth_member() {
    let mut vpn = MockVpn::new();
    let mut storage = MockStorage::new();
    let mut pubsub = MockPubSub::new();
    let mut sleeper = MockSleeper::new();
    let retry_config = create_test_retry_config();

    let mut message = AdmineMessage::new(
        vec!["auth_member".to_string()],
        "test_member_123".to_string(),
    );
    message.set_origin("bot".to_string());

    Handle::process_message_with_deps(
        message,
        &mut vpn,
        &mut storage,
        &mut pubsub,
        &retry_config,
        "vpn_channel",
        "test",
        &mut sleeper,
    );

    assert_eq!(vpn.auth_calls, vec!["test_member_123".to_string()]);
    assert_eq!(vpn.list_calls.len(), 0);
    assert_eq!(pubsub.published.len(), 1);
    assert_eq!(storage.set_calls.len(), 0);
}

#[test]
fn test_process_message_with_deps_unsupported_channel() {
    let mut vpn = MockVpn::new();
    let mut storage = MockStorage::new();
    let mut pubsub = MockPubSub::new();
    let mut sleeper = MockSleeper::new();
    let retry_config = create_test_retry_config();

    let mut message =
        AdmineMessage::new(vec!["some_tag".to_string()], "test_message".to_string());
    message.set_origin("unknown_channel".to_string());

    Handle::process_message_with_deps(
        message,
        &mut vpn,
        &mut storage,
        &mut pubsub,
        &retry_config,
        "vpn_channel",
        "test",
        &mut sleeper,
    );

    assert_eq!(vpn.auth_calls.len(), 0);
    assert_eq!(vpn.list_calls.len(), 0);
    assert_eq!(vpn.delete_calls.len(), 0);
    assert_eq!(pubsub.published.len(), 0);
    assert_eq!(storage.set_calls.len(), 0);
}

#[test]
fn test_process_message_with_deps_empty_message() {
    let mut vpn = MockVpn::new();
    let mut storage = MockStorage::new();
    let mut pubsub = MockPubSub::new();
    let mut sleeper = MockSleeper::new();
    let retry_config = create_test_retry_config();

    let mut message = AdmineMessage::new(vec!["server_on".to_string()], "".to_string());
    message.set_origin("server".to_string());

    Handle::process_message_with_deps(
        message,
        &mut vpn,
        &mut storage,
        &mut pubsub,
        &retry_config,
        "vpn_channel",
        "test",
        &mut sleeper,
    );

    // An empty payload is never actionable: nothing is touched.
    assert_eq!(vpn.auth_calls.len(), 0);
    assert_eq!(vpn.list_calls.len(), 0);
    assert_eq!(vpn.delete_calls.len(), 0);
    assert_eq!(pubsub.published.len(), 0);
    assert_eq!(storage.set_calls.len(), 0);
}

#[test]
fn empty_message_is_ignored_for_every_origin() {
    for origin in ["server", "bot", "somewhere"] {
        let mut vpn = MockVpn::new();
        let mut storage = MockStorage::new();
        let mut pubsub = MockPubSub::new();
        let mut sleeper = MockSleeper::new();
        let retry_config = create_test_retry_config();

        let mut message = AdmineMessage::new(
            vec!["server_on".to_string(), "auth_member".to_string()],
            "".to_string(),
        );
        message.set_origin(origin.to_string());

        Handle::process_message_with_deps(
            message,
            &mut vpn,
            &mut storage,
            &mut pubsub,
            &retry_config,
            "vpn_channel",
            "test",
            &mut sleeper,
        );

        assert_eq!(vpn.auth_calls.len(), 0);
        assert_eq!(vpn.list_calls.len(), 0);
        assert_eq!(vpn.delete_calls.len(), 0);
        assert_eq!(pubsub.published.len(), 0);
        assert_eq!(storage.set_calls.len(), 0);
    }
}

#[test]
fn activation_exhausts_budget_and_changes_nothing() {
    let mut vpn = MockVpn::new();
    let mut storage = MockStorage::new();
    let mut pubsub = MockPubSub::new();
    let mut sleeper = MockSleeper::new();
    let retry_config = create_test_retry_config();

    storage.map.insert("server_member_id".to_string(), "old-1".to_string());
    // Every listing comes back empty: the budget of 3 retries after the first
    // attempt gives 4 cycles in all, then the flow aborts.
    Handle::process_server_up(
        "new-1".to_string(),
        &mut vpn,
        &mut storage,
        &mut pubsub,
        &retry_config,
        "vpn_channel",
        "test",
        &mut sleeper,
    );

    assert_eq!(vpn.auth_calls.len(), 4);
    assert_eq!(vpn.list_calls.len(), 4);
    assert_eq!(vpn.delete_calls.len(), 0);
    assert_eq!(pubsub.published.len(), 0);
    assert_eq!(storage.set_calls.len(), 0);
    assert_eq!(storage.map.get("server_member_id"), Some(&"old-1".to_string()));
    assert_eq!(sleeper.sleeps, vec![10, 10, 10]);
}

#[test]
fn activation_swaps_old_holder_for_new() {
    let mut vpn = MockVpn::new();
    let mut storage = MockStorage::new();
    let mut pubsub = MockPubSub::new();
    let mut sleeper = MockSleeper::new();
    let retry_config = create_test_retry_config();

    storage.map.insert("server_member_id".to_string(), "old-1".to_string());
    vpn.list_results.push(Ok(vec!["10.1.2.3".to_string()]));

    Handle::process_server_up(
        "new-1".to_string(),
        &mut vpn,
        &mut storage,
        &mut pubsub,
        &retry_config,
        "vpn_channel",
        "test",
        &mut sleeper,
    );

    assert_eq!(vpn.delete_calls, vec!["old-1".to_string()]);
    assert_eq!(storage.map.get("server_member_id"), Some(&"new-1".to_string()));
}

#[test]
fn activation_for_same_member_never_deletes() {
    let mut vpn = MockVpn::new();
    let mut storage = MockStorage::new();
    let mut pubsub = MockPubSub::new();
    let mut sleeper = MockSleeper::new();
    let retry_config = create_test_retry_config();

    storage.map.insert("server_member_id".to_string(), "new-1".to_string());
    vpn.list_results.push(Ok(vec!["10.1.2.3".to_string()]));

    Handle::process_server_up(
        "new-1".to_string(),
        &mut vpn,
        &mut storage,
        &mut pubsub,
        &retry_config,
        "vpn_channel",
        "test",
        &mut sleeper,
    );

    assert_eq!(vpn.delete_calls.len(), 0);
    assert_eq!(storage.map.get("server_member_id"), Some(&"new-1".to_string()));
}

#[test]
fn auth_member_publishes_exact_envelope() {
    let mut vpn = MockVpn::new();
    let mut pubsub = MockPubSub::new();

    Handle::process_auth_member(
        "m-42".to_string(),
        &mut vpn,
        &mut pubsub,
        "vpn_channel",
        "handler",
    );

    assert_eq!(pubsub.published.len(), 1);
    assert_eq!(pubsub.published[0].0, "vpn_channel");
    assert_eq!(
        pubsub.published[0].1,
        expected_payload("handler", "auth_member_success", "m-42")
    );
}

#[test]
fn auth_member_twice_publishes_twice() {
    let mut vpn = MockVpn::new();
    let mut pubsub = MockPubSub::new();

    // The directory reports success both times: authorizing an already
    // authorized member is a no-op success.
    Handle::process_auth_member("m-42".to_string(), &mut vpn, &mut pubsub, "vpn_channel", "h");
    Handle::process_auth_member("m-42".to_string(), &mut vpn, &mut pubsub, "vpn_channel", "h");

    assert_eq!(vpn.auth_calls.len(), 2);
    assert_eq!(pubsub.published.len(), 2);
    assert_eq!(pubsub.published[0], pubsub.published[1]);
    assert_eq!(pubsub.published[0].1, expected_payload("h", "auth_member_success", "m-42"));
}

#[test]
fn activation_scenario_with_one_retry() {
    let mut vpn = MockVpn::new();
    let mut storage = MockStorage::new();
    let mut pubsub = MockPubSub::new();
    let mut sleeper = MockSleeper::new();
    let retry_config = RetryConfig::new(3, 10);

    vpn.list_results.push(Ok(Vec::new()));
    vpn.list_results.push(Ok(vec!["192.168.1.100".to_string()]));

    Handle::process_server_up(
        "a41a6f919c".to_string(),
        &mut vpn,
        &mut storage,
        &mut pubsub,
        &retry_config,
        "vpn_channel",
        "test",
        &mut sleeper,
    );

    assert_eq!(vpn.list_calls.len(), 2);
    assert_eq!(sleeper.sleeps, vec![10]);
    assert_eq!(pubsub.published.len(), 1);
    assert_eq!(
        pubsub.published[0].1,
        expected_payload("test", "new_server_up", "192.168.1.100")
    );
    assert_eq!(storage.map.get("server_member_id"), Some(&"a41a6f919c".to_string()));
    assert_eq!(vpn.delete_calls.len(), 0);
}

#[test]
fn activation_retries_after_auth_error() {
    let mut vpn = MockVpn::new();
    let mut storage = MockStorage::new();
    let mut pubsub = MockPubSub::new();
    let mut sleeper = MockSleeper::new();
    let retry_config = create_test_retry_config();

    vpn.auth_results.push(Err(VpnError::MemberNotFoundError("not yet".to_string())));
    vpn.list_results.push(Ok(vec!["10.0.0.1".to_string()]));

    Handle::process_server_up(
        "m-1".to_string(),
        &mut vpn,
        &mut storage,
        &mut pubsub,
        &retry_config,
        "vpn_channel",
        "test",
        &mut sleeper,
    );

    // The failed authorization consumed one cycle; the second cycle found the
    // address without another listing in between.
    assert_eq!(vpn.auth_calls.len(), 2);
    assert_eq!(vpn.list_calls.len(), 1);
    assert_eq!(pubsub.published.len(), 1);
}

#[test]
fn raw_payload_routes_end_to_end() {
    let mut vpn = MockVpn::new();
    let mut storage = MockStorage::new();
    let mut pubsub = MockPubSub::new();
    let mut sleeper = MockSleeper::new();
    let retry_config = create_test_retry_config();

    let mut message = AdmineMessage::new(vec!["auth_member".to_string()], "m-7".to_string());
    message.set_origin("bot".to_string());
    let payload = message.to_json_string();

    Handle::process_raw_message(
        &payload,
        &mut vpn,
        &mut storage,
        &mut pubsub,
        &retry_config,
        "vpn_channel",
        "test",
        &mut sleeper,
    );

    assert_eq!(vpn.auth_calls, vec!["m-7".to_string()]);
    assert_eq!(pubsub.published.len(), 1);
}

#[test]
fn malformed_payload_is_dropped() {
    let mut vpn = MockVpn::new();
    let mut storage = MockStorage::new();
    let mut pubsub = MockPubSub::new();
    let mut sleeper = MockSleeper::new();
    let retry_config = create_test_retry_config();

    Handle::process_raw_message(
        "not an envelope",
        &mut vpn,
        &mut storage,
        &mut pubsub,
        &retry_config,
        "vpn_channel",
        "test",
        &mut sleeper,
    );

    assert_eq!(vpn.auth_calls.len(), 0);
    assert_eq!(vpn.list_calls.len(), 0);
    assert_eq!(vpn.delete_calls.len(), 0);
    assert_eq!(pubsub.published.len(), 0);
    assert_eq!(storage.set_calls.len(), 0);
}

#[test]
fn zero_attempts_means_single_attempt() {
    let mut vpn = MockVpn::new();
    let mut storage = MockStorage::new();
    let mut pubsub = MockPubSub::new();
    let mut sleeper = MockSleeper::new();
    let retry_config = RetryConfig::new(0, 10);

    Handle::process_server_up(
        "m-1".to_string(),
        &mut vpn,
        &mut storage,
        &mut pubsub,
        &retry_config,
        "vpn_channel",
        "test",
        &mut sleeper,
    );

    assert_eq!(vpn.auth_calls.len(), 1);
    assert_eq!(vpn.list_calls.len(), 1);
    assert_eq!(pubsub.published.len(), 0);
    assert_eq!(sleeper.sleeps.len(), 0);
}
