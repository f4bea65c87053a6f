use gt_qd_orderbook::models::{InstanceServer, KCServers, ServerRoot};
use gt_qd_orderbook::server::{
    give_up_message, retry_message, Bootstrap, RetryStep, ServerConfig, MAX_ATTEMPTS,
    RETRY_DELAY_MILLIS,
};

fn server(endpoint: &str, ping_interval: u64) -> InstanceServer {
    InstanceServer {
        endpoint: endpoint.to_string(),
        encrypt: true,
        protocol: "websocket".to_string(),
        ping_interval,
        ping_timeout: 10000,
    }
}

#[test]
fn config_comes_from_the_first_server() {
    let response = ServerRoot {
        code: "200000".to_string(),
        data: KCServers {
            token: "tok".to_string(),
            instance_servers: vec![server("wss://a.example/endpoint", 18000), server("wss://b.example", 5)],
        },
    };
    let cfg = ServerConfig::from_response(&response).unwrap();
    assert_eq!(cfg.token, "tok");
    assert_eq!(cfg.endpoint, "wss://a.example/endpoint");
    assert_eq!(cfg.ping_interval, 18000);
}

#[test]
fn response_without_servers_gives_no_config() {
    let response = ServerRoot {
        code: "200000".to_string(),
        data: KCServers { token: "tok".to_string(), instance_servers: vec![] },
    };
    assert!(ServerConfig::from_response(&response).is_none());
    assert!(ServerConfig::from_response(&ServerRoot::default()).is_none());
}

#[test]
fn four_retries_then_give_up() {
    assert_eq!(MAX_ATTEMPTS, 5);
    assert_eq!(RETRY_DELAY_MILLIS, 1000);
    let mut bootstrap = Bootstrap::new();
    for failures in 1..=4u32 {
        assert_eq!(
            bootstrap.attempt_failed(),
            RetryStep::Retry { failures, delay_millis: 1000 }
        );
    }
    assert_eq!(bootstrap.attempt_failed(), RetryStep::GiveUp { failures: 5 });
    assert_eq!(bootstrap.attempt_failed(), RetryStep::GiveUp { failures: 5 });
}

#[test]
fn retry_and_give_up_lines() {
    assert_eq!(retry_message(1), "Failed to get Kucoin server endpoint, retrying (1/5)");
    assert_eq!(retry_message(4), "Failed to get Kucoin server endpoint, retrying (4/5)");
    assert_eq!(
        give_up_message(5, "connection refused"),
        "Failed to get server info after 5 attempts: connection refused"
    );
    assert_eq!(give_up_message(12, ""), "Failed to get server info after 12 attempts: ");
}
