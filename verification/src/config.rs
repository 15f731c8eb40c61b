//! Node configuration and the peer list.

use vstd::prelude::*;
use vstd::string::*;
use crate::strutil::str_eq;

verus! {

/// The node's configuration, as persisted in its configuration file.
#[derive(Debug, PartialEq, Eq)]
pub struct Config {
    pub node_address: String,
    pub daemon_port: u16,
    pub web_port: u16,
    pub wallet_path: String,
    pub mining_threads: usize,
    pub peers: Vec<String>,
    pub auto_update: bool,
    pub sync_on_startup: bool,
    pub target_block_time: i64,
    pub mining_intensity: u8,
    pub pool: bool,
}

#[verifier::ext_equal]
pub ghost struct ConfigModel {
    pub node_address: Seq<char>,
    pub daemon_port: u16,
    pub web_port: u16,
    pub wallet_path: Seq<char>,
    pub mining_threads: usize,
    pub peers: Seq<Seq<char>>,
    pub auto_update: bool,
    pub sync_on_startup: bool,
    pub target_block_time: i64,
    pub mining_intensity: u8,
    pub pool: bool,
}

impl View for Config {
    type V = ConfigModel;

    open spec fn view(&self) -> ConfigModel {
        ConfigModel {
            node_address: self.node_address@,
            daemon_port: self.daemon_port,
            web_port: self.web_port,
            wallet_path: self.wallet_path@,
            mining_threads: self.mining_threads,
            peers: Seq::new(self.peers@.len(), |i: int| self.peers@[i]@),
            auto_update: self.auto_update,
            sync_on_startup: self.sync_on_startup,
            target_block_time: self.target_block_time,
            mining_intensity: self.mining_intensity,
            pool: self.pool,
        }
    }
}

/// The constraints a configuration must meet: distinct daemon and web
/// ports, at least one mining thread, intensity within a hundred.
pub open spec fn config_ok(daemon_port: u16, web_port: u16, threads: usize, intensity: u8) -> bool {
    daemon_port != web_port && threads > 0 && intensity <= 100
}

impl Config {
    /// Check the configuration constraints, reporting the first violation.
    /// Whether the wallet path's directory exists is checked where the file
    /// is read, not here.
    pub fn validate(&self) -> (r: Result<(), String>)
        ensures
            r is Ok <==> config_ok(
                self.daemon_port,
                self.web_port,
                self.mining_threads,
                self.mining_intensity,
            ),
            self.daemon_port == self.web_port ==> r is Err && r->Err_0@
                == "daemon_port and web_port must be different"@,
            self.daemon_port != self.web_port && self.mining_threads == 0 ==> r is Err && r->Err_0@
                == "mining_threads must be at least 1"@,
            self.daemon_port != self.web_port && self.mining_threads > 0
                && self.mining_intensity > 100 ==> r is Err && r->Err_0@
                == "mining_intensity must be <= 100"@,
    {
        if self.daemon_port == self.web_port {
            return Err("daemon_port and web_port must be different".to_owned());
        }
        if self.mining_threads == 0 {
            return Err("mining_threads must be at least 1".to_owned());
        }
        if self.mining_intensity > 100 {
            return Err("mining_intensity must be <= 100".to_owned());
        }
        Ok(())
    }

    /// The default configuration, around the given wallet file path.
    pub fn default_with_wallet_path(wallet_path: String) -> (r: Config)
        ensures
            r.node_address@ == "owonero.yabai.buzz:6969"@,
            r.daemon_port == 6969,
            r.web_port == 6767,
            r.wallet_path@ == wallet_path@,
            r.mining_threads == 1,
            r.peers@.len() == 0,
            r.auto_update == true,
            r.sync_on_startup == true,
            r.target_block_time == 30,
            r.mining_intensity == 100,
            r.pool == false,
    {
        Config {
            node_address: "owonero.yabai.buzz:6969".to_owned(),
            daemon_port: 6969,
            web_port: 6767,
            wallet_path,
            mining_threads: 1,
            peers: Vec::new(),
            auto_update: true,
            sync_on_startup: true,
            target_block_time: 30,
            mining_intensity: 100,
            pool: false,
        }
    }
}

/// The configuration file path under the platform configuration directory:
/// an `Owonero` folder holding `config.json`.
pub fn get_config_path(base_dir: &str) -> (r: String)
    ensures
        r@ == base_dir@ + "/Owonero/config.json"@,
{
    let mut p = base_dir.to_owned();
    p.append("/Owonero/config.json");
    p
}

/// The known peers, each held once, in the order first seen.
#[derive(Debug, PartialEq, Eq)]
pub struct PeerManager {
    pub peers: Vec<String>,
}

/// Whether an address already stands in the list.
pub open spec fn peer_listed(ps: Seq<String>, addr: Seq<char>) -> bool {
    exists|i: int| 0 <= i < ps.len() && (#[trigger] ps[i])@ == addr
}

impl PeerManager {
    /// An empty peer list.
    pub fn new() -> (r: Self)
        ensures
            r.peers@.len() == 0,
    {
        PeerManager { peers: Vec::new() }
    }

    /// Add a peer unless it is already listed.
    pub fn add_peer(&mut self, addr: String)
        ensures
            peer_listed(old(self).peers@, addr@) ==> final(self).peers@ == old(self).peers@,
            !peer_listed(old(self).peers@, addr@) ==> final(self).peers@ == old(
                self,
            ).peers@.push(addr),
    {
        let mut i: usize = 0;
        while i < self.peers.len()
            invariant
                i <= self.peers@.len(),
                forall|j: int| 0 <= j < i ==> (#[trigger] self.peers@[j])@ != addr@,
            decreases self.peers@.len() - i,
        {
            if str_eq(self.peers[i].as_str(), addr.as_str()) {
                proof {
                    assert(self.peers@[i as int]@ == addr@);
                }
                return ;
            }
            i = i + 1;
        }
        self.peers.push(addr);
    }

    /// The peer list as a fresh vector.
    pub fn get_peers(&self) -> (r: Vec<String>)
        ensures
            r@.len() == self.peers@.len(),
            forall|i: int| 0 <= i < r@.len() ==> (#[trigger] r@[i])@ == self.peers@[i]@,
    {
        let mut out: Vec<String> = Vec::new();
        let mut i: usize = 0;
        while i < self.peers.len()
            invariant
                i <= self.peers@.len(),
                out@.len() == i,
                forall|j: int| 0 <= j < i ==> (#[trigger] out@[j])@ == self.peers@[j]@,
            decreases self.peers@.len() - i,
        {
            out.push(self.peers[i].clone());
            i = i + 1;
        }
        out
    }
}

} // verus!
