//! Node configuration and the genesis description.
//!
//! Configuration is read once at startup and immutable within this core;
//! loading it from disk and writing it back are the application shell's
//! concern, which hands the values in as they stand here.

use vstd::prelude::*;

verus! {

/// The node's own identity and listening address.
pub struct NodeConfig {
    pub id: String,
    pub address: String,
    pub port: u16,
}

/// Which agreement algorithm runs, and its cadence parameters.
pub struct ConsensusConfig {
    pub algorithm: String,
    pub block_time: u64,
    pub block_size: u64,
}

/// Where chain state is kept.
pub struct StorageConfig {
    pub type_: String,
    pub path: String,
}

/// How the node reaches its peers.
pub struct NetworkConfig {
    pub protocol: String,
    pub peers: Vec<String>,
}

/// Where metrics are reported.
pub struct PrometheusConfig {
    pub url: String,
    pub username: String,
    pub password: String,
}

/// Whether and where analytics are reported.
pub struct AnalyticsConfig {
    pub enabled: bool,
    pub prometheus: PrometheusConfig,
}

/// The node's full configuration.
pub struct Config {
    pub node: NodeConfig,
    pub consensus: ConsensusConfig,
    pub storage: StorageConfig,
    pub network: NetworkConfig,
    pub analytics: AnalyticsConfig,
}

impl Config {
    /// The default configuration: a local node with in-tree defaults for
    /// every collaborator.
    pub fn new() -> (c: Config)
        ensures
            c.node.id@ == "pi-sentinel-node"@,
            c.node.address@ == "127.0.0.1"@,
            c.node.port == 8080,
            c.consensus.algorithm@ == "ai-consensus"@,
            c.consensus.block_time == 10,
            c.consensus.block_size == 1024,
            c.storage.type_@ == "local"@,
            c.storage.path@ == "./storage"@,
            c.network.protocol@ == "tcp"@,
            c.network.peers@.len() == 2,
            c.network.peers@[0]@ == "node1.pi.network"@,
            c.network.peers@[1]@ == "node2.pi.network"@,
            c.analytics.enabled == true,
            c.analytics.prometheus.url@ == "http://localhost:9090"@,
            c.analytics.prometheus.username@ == "pi-sentinel"@,
            c.analytics.prometheus.password@ == "password"@,
    {
        let mut peers: Vec<String> = Vec::new();
        peers.push("node1.pi.network".to_owned());
        peers.push("node2.pi.network".to_owned());
        Config {
            node: NodeConfig {
                id: "pi-sentinel-node".to_owned(),
                address: "127.0.0.1".to_owned(),
                port: 8080,
            },
            consensus: ConsensusConfig {
                algorithm: "ai-consensus".to_owned(),
                block_time: 10,
                block_size: 1024,
            },
            storage: StorageConfig {
                type_: "local".to_owned(),
                path: "./storage".to_owned(),
            },
            network: NetworkConfig { protocol: "tcp".to_owned(), peers },
            analytics: AnalyticsConfig {
                enabled: true,
                prometheus: PrometheusConfig {
                    url: "http://localhost:9090".to_owned(),
                    username: "pi-sentinel".to_owned(),
                    password: "password".to_owned(),
                },
            },
        }
    }
}

/// One account of the genesis allocation.
#[derive(Clone, Copy, Debug, PartialEq, Eq, Structural)]
pub struct Account {
    pub balance: u64,
    pub nonce: u64,
}

/// Whether the allocation grants something to `addr`.
pub open spec fn alloc_has(entries: Seq<(String, Account)>, addr: Seq<char>) -> bool {
    exists|i: int| 0 <= i < entries.len() && (#[trigger] entries[i]).0@ == addr
}

/// A well-formed allocation: no address is granted to twice.
pub open spec fn alloc_wf(entries: Seq<(String, Account)>) -> bool {
    forall|p: int, q: int|
        0 <= p < q < entries.len() ==> (#[trigger] entries[p]).0@ != (#[trigger] entries[q]).0@
}

/// The chain's starting state: the parameters of block 0 and the initial
/// account allocation, keyed by address.
pub struct Genesis {
    pub timestamp: u64,
    pub block_number: u64,
    pub difficulty: u64,
    pub gas_limit: u64,
    pub gas_price: u64,
    pub alloc: Vec<(String, Account)>,
}

impl Genesis {
    /// The default genesis description, with an empty allocation.
    pub fn new() -> (g: Genesis)
        ensures
            g.timestamp == 1643723400,
            g.block_number == 0,
            g.difficulty == 1000,
            g.gas_limit == 100000,
            g.gas_price == 20,
            g.alloc@ == Seq::<(String, Account)>::empty(),
            alloc_wf(g.alloc@),
    {
        let g = Genesis {
            timestamp: 1643723400,
            block_number: 0,
            difficulty: 1000,
            gas_limit: 100000,
            gas_price: 20,
            alloc: Vec::new(),
        };
        proof {
            assert(g.alloc@ =~= Seq::<(String, Account)>::empty());
        }
        g
    }

    /// The position of `address` in the allocation, if granted to.
    fn find_addr(&self, address: &str) -> (r: Option<usize>)
        ensures
            match r {
                Some(i) => i < self.alloc@.len() && self.alloc@[i as int].0@ == address@,
                None => forall|i: int|
                    0 <= i < self.alloc@.len() ==> (#[trigger] self.alloc@[i]).0@ != address@,
            },
    {
        let k: String = address.to_owned();
        for i in 0..self.alloc.len()
            invariant
                k@ == address@,
                forall|j: int| 0 <= j < i ==> (#[trigger] self.alloc@[j]).0@ != address@,
        {
            if self.alloc[i].0 == k {
                return Some(i);
            }
        }
        None
    }

    /// Grants `balance` to `address` at nonce 0, overwriting any earlier
    /// grant for the same address.
    pub fn add_account(&mut self, address: &str, balance: u64)
        requires
            alloc_wf(old(self).alloc@),
        ensures
            final(self).timestamp == old(self).timestamp,
            final(self).block_number == old(self).block_number,
            final(self).difficulty == old(self).difficulty,
            final(self).gas_limit == old(self).gas_limit,
            final(self).gas_price == old(self).gas_price,
            alloc_wf(final(self).alloc@),
            !alloc_has(old(self).alloc@, address@) ==> final(self).alloc@.len() == old(
                self,
            ).alloc@.len() + 1 && (forall|k: int|
                0 <= k < old(self).alloc@.len() ==> final(self).alloc@[k] == old(self).alloc@[k])
                && final(self).alloc@.last().0@ == address@ && final(self).alloc@.last().1 == (
            Account { balance, nonce: 0 }),
            alloc_has(old(self).alloc@, address@) ==> final(self).alloc@.len() == old(
                self,
            ).alloc@.len() && (forall|k: int|
                0 <= k < old(self).alloc@.len() && (#[trigger] old(self).alloc@[k]).0@ != address@
                    ==> final(self).alloc@[k] == old(self).alloc@[k]) && (forall|k: int|
                0 <= k < old(self).alloc@.len() && (#[trigger] old(self).alloc@[k]).0@ == address@
                    ==> final(self).alloc@[k].0@ == address@ && final(self).alloc@[k].1 == (
                Account { balance, nonce: 0 })),
    {
        let ghost alloc0 = self.alloc@;
        let entry = Account { balance, nonce: 0 };
        let k: String = address.to_owned();
        let found = self.find_addr(address);
        match found {
            Some(i) => {
                self.alloc.set(i, (k, entry));
                proof {
                    assert forall|p: int, q: int|
                        0 <= p < q < self.alloc@.len() implies (#[trigger] self.alloc@[p]).0@ != (
                    #[trigger] self.alloc@[q]).0@ by {
                        assert(alloc0[p].0@ == self.alloc@[p].0@ && alloc0[q].0@
                            == self.alloc@[q].0@);
                    };
                }
            },
            None => {
                self.alloc.push((k, entry));
                proof {
                    assert(self.alloc@.drop_last() =~= alloc0);
                    assert forall|p: int, q: int|
                        0 <= p < q < self.alloc@.len() implies (#[trigger] self.alloc@[p]).0@ != (
                    #[trigger] self.alloc@[q]).0@ by {
                        if q == self.alloc@.len() - 1 {
                            assert(self.alloc@[p] == alloc0[p]);
                        } else {
                            assert(self.alloc@[p] == alloc0[p] && self.alloc@[q] == alloc0[q]);
                        }
                    };
                }
            },
        }
    }

    /// The balance and nonce granted to `address`, if any.
    pub fn account_of(&self, address: &str) -> (r: Option<Account>)
        ensures
            match r {
                Some(a) => exists|i: int|
                    0 <= i < self.alloc@.len() && (#[trigger] self.alloc@[i]).0@ == address@
                        && self.alloc@[i].1 == a,
                None => !alloc_has(self.alloc@, address@),
            },
    {
        match self.find_addr(address) {
            Some(i) => Some(self.alloc[i].1),
            None => None,
        }
    }
}

} // verus!
