use pi_sentinel::config::Account;
use pi_sentinel::config::Config;
use pi_sentinel::config::Genesis;

#[test]
fn default_configuration_values() {
    let c = Config::new();
    assert_eq!(c.node.id, "pi-sentinel-node");
    assert_eq!(c.node.address, "127.0.0.1");
    assert_eq!(c.node.port, 8080);
    assert_eq!(c.consensus.algorithm, "ai-consensus");
    assert_eq!(c.consensus.block_time, 10);
    assert_eq!(c.consensus.block_size, 1024);
    assert_eq!(c.storage.type_, "local");
    assert_eq!(c.storage.path, "./storage");
    assert_eq!(c.network.protocol, "tcp");
    assert_eq!(c.network.peers, vec!["node1.pi.network", "node2.pi.network"]);
    assert!(c.analytics.enabled);
    assert_eq!(c.analytics.prometheus.url, "http://localhost:9090");
    assert_eq!(c.analytics.prometheus.username, "pi-sentinel");
    assert_eq!(c.analytics.prometheus.password, "password");
}

#[test]
fn default_genesis_values() {
    let g = Genesis::new();
    assert_eq!(g.timestamp, 1643723400);
    assert_eq!(g.block_number, 0);
    assert_eq!(g.difficulty, 1000);
    assert_eq!(g.gas_limit, 100000);
    assert_eq!(g.gas_price, 20);
    assert!(g.alloc.is_empty());
}

#[test]
fn add_account_grants_at_nonce_zero() {
    let mut g = Genesis::new();
    g.add_account("alice", 500);
    g.add_account("bob", 120);
    assert_eq!(g.alloc.len(), 2);
    assert_eq!(g.account_of("alice"), Some(Account { balance: 500, nonce: 0 }));
    assert_eq!(g.account_of("bob"), Some(Account { balance: 120, nonce: 0 }));
    assert_eq!(g.account_of("carol"), None);
}

#[test]
fn add_account_overwrites_an_earlier_grant() {
    let mut g = Genesis::new();
    g.add_account("alice", 500);
    g.add_account("alice", 900);
    assert_eq!(g.alloc.len(), 1);
    assert_eq!(g.account_of("alice"), Some(Account { balance: 900, nonce: 0 }));
}
