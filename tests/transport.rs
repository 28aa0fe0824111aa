use solana_monitor::client::SolanaClient;
use solana_monitor::transport::{plan_endpoints, RpcUrl, TransportError};

fn url(type_: &str, url: &str, weight: u32) -> RpcUrl {
    RpcUrl { type_: type_.to_string(), url: url.to_string(), weight }
}

#[test]
fn test_client_with_empty_rpc_urls() {
    let result = plan_endpoints(&vec![]);
    assert!(result.is_err(), "Client creation should fail with no RPC URLs");
    assert_eq!(result.unwrap_err(), TransportError::NoValidRpcUrls);
}

#[test]
fn test_client_with_zero_weight_urls() {
    let result = plan_endpoints(&vec![url("rpc", "http://127.0.0.1:1234", 0)]);
    assert!(result.is_err(), "Client creation should fail with zero weight URLs");
}

#[test]
fn test_client_with_non_rpc_urls() {
    let result = plan_endpoints(&vec![url("ws", "http://127.0.0.1:1234", 100)]);
    assert!(result.is_err(), "Client creation should fail with non-RPC URLs");
}

#[test]
fn test_client_with_multiple_endpoints() {
    let result = plan_endpoints(&vec![url("rpc", "http://one", 100), url("rpc", "http://two", 100)]);
    assert!(result.is_ok(), "Client creation should succeed with multiple endpoints");
    let plan = result.unwrap();
    assert_eq!(plan.active, "http://one");
    assert_eq!(plan.fallbacks, vec!["http://two".to_string()]);
}

#[test]
fn endpoints_are_ranked_by_weight_keeping_ties_in_order() {
    let plan = plan_endpoints(&vec![
        url("rpc", "a", 10),
        url("ws", "skip", 500),
        url("rpc", "b", 50),
        url("rpc", "c", 10),
        url("rpc", "zero", 0),
        url("rpc", "d", 50),
    ])
    .unwrap();
    assert_eq!(plan.active, "b");
    assert_eq!(plan.fallbacks, vec!["d".to_string(), "a".to_string(), "c".to_string()]);
}

#[test]
fn client_keeps_its_transport() {
    let client = SolanaClient::new_with_transport(42u32);
    assert_eq!(*client.http_client(), 42);
}
