//! Well-known addresses and ports of the deployment.

use vstd::prelude::*;

verus! {

pub struct ServerIp;

impl ServerIp {
    /// The loopback address: same effect as "localhost" without a DNS
    /// lookup; works even without a network card.
    pub fn localhost_loopback_with_ip() -> (r: &'static str)
        ensures
            r@ == "127.0.0.1"@,
    {
        "127.0.0.1"
    }

    /// All IPv4 addresses of the local machine; usable only for listening,
    /// never as a target.
    pub fn localhost_meta_all_private_ip_with_ip() -> (r: &'static str)
        ensures
            r@ == "0.0.0.0"@,
    {
        "0.0.0.0"
    }

    /// The public address clients use to reach the core server.
    pub fn sq_core_server_public_ip_for_clients() -> (r: &'static str)
        ensures
            r@ == "34.251.1.119"@,
    {
        "34.251.1.119"
    }

    /// The health monitor's public address.
    pub fn health_monitor_public_ip() -> (r: &'static str)
        ensures
            r@ == "23.20.243.199"@,
    {
        "23.20.243.199"
    }

    /// The health monitor's address in IPv4-mapped IPv6 form.
    pub fn health_monitor_public_ipv6() -> (r: String)
        ensures
            r@ == "::ffff:"@ + "23.20.243.199"@,
    {
        String::from_str("::ffff:").concat(Self::health_monitor_public_ip())
    }

    pub const DEFAULT_HEALTH_MONITOR_SERVER_PORT: u16 = 52100;

    /// Broker gateway ports; login from other machines is blocked by
    /// source-address firewalls.
    pub const IB_SERVER_PORT_GYANTAL: u16 = 7301;

    pub const IB_SERVER_PORT_DCMAIN: u16 = 7303;
}

} // verus!
