//! Configuration of NetWatch: ports, monitored agents, per-machine quotas
//! and alert thresholds.
//!
//! Rates are held as whole bytes per second; the rate threshold that the
//! configuration file writes in MB/s is converted on the way in.

use vstd::prelude::*;

verus! {

/// A monitored agent machine: its name and its IP address on the network.
#[derive(Debug, Clone)]
pub struct AgentConfig {
    pub nom: String,
    pub ip: String,
}

/// The data quota of a machine, in MB.
#[derive(Debug, Clone)]
pub struct QuotaConfig {
    pub machine: String,
    pub limite_mb: u64,
}

/// The thresholds that raise alerts.
#[derive(Debug, Clone)]
pub struct ReglesAlerte {
    /// A process above this rate (bytes per second) raises an alert.
    pub debit_max_octets_s: u64,
    /// Percentage of a quota from which a warning is raised.
    pub avertissement_quota_pct: u64,
}

/// Everything the user can set.
#[derive(Debug, Clone)]
pub struct Config {
    pub port_web: u16,
    pub port_agent: u16,
    pub agents: Vec<AgentConfig>,
    pub quotas: Vec<QuotaConfig>,
    pub alertes: ReglesAlerte,
}

/// Port of the web dashboard when the file does not set one.
pub fn port_web_defaut() -> (p: u16)
    ensures
        p == 3000,
{
    3000
}

/// Port the agents listen on when the file does not set one.
pub fn port_agent_defaut() -> (p: u16)
    ensures
        p == 7878,
{
    7878
}

/// Rate threshold when the file does not set one: 5 MB/s, in bytes per second.
pub fn debit_max_defaut() -> (d: u64)
    ensures
        d == 5_000_000,
{
    5_000_000
}

/// Quota warning percentage when the file does not set one.
pub fn avertissement_quota_defaut() -> (p: u64)
    ensures
        p == 80,
{
    80
}

impl Default for ReglesAlerte {
    fn default() -> (r: Self)
        ensures
            r.debit_max_octets_s == 5_000_000,
            r.avertissement_quota_pct == 80,
    {
        ReglesAlerte {
            debit_max_octets_s: debit_max_defaut(),
            avertissement_quota_pct: avertissement_quota_defaut(),
        }
    }
}

impl Default for Config {
    fn default() -> (c: Self)
        ensures
            c.port_web == 3000,
            c.port_agent == 7878,
            c.agents@.len() == 0,
            c.quotas@.len() == 0,
            c.alertes.debit_max_octets_s == 5_000_000,
            c.alertes.avertissement_quota_pct == 80,
    {
        Config {
            port_web: port_web_defaut(),
            port_agent: port_agent_defaut(),
            agents: Vec::new(),
            quotas: Vec::new(),
            alertes: ReglesAlerte::default(),
        }
    }
}

} // verus!
