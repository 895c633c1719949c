//! Request records handed to the firewall driver, and the driver's error type.
//!
//! Addresses and subnets are carried as plain text (an address in its usual
//! notation, a subnet in CIDR notation) together with the address family they
//! were derived from; parsing happens upstream of this library.
use vstd::prelude::*;

verus! {

/// A subnet in CIDR notation, tagged with its address family.
pub struct Subnet {
    /// CIDR text, e.g. `10.89.0.0/24` or `fd00::/64`.
    pub cidr: String,
    /// True when the subnet is an IPv6 subnet.
    pub ipv6: bool,
}

/// Mathematical image of a [`Subnet`].
pub struct SubnetModel {
    pub cidr: Seq<char>,
    pub ipv6: bool,
}

impl View for Subnet {
    type V = SubnetModel;

    open spec fn view(&self) -> SubnetModel {
        SubnetModel { cidr: self.cidr@, ipv6: self.ipv6 }
    }
}

/// A network definition: the subnets it spans, if any were assigned.
pub struct Network {
    pub subnets: Option<Vec<Subnet>>,
}

/// Mathematical image of a [`Network`].
pub struct NetworkModel {
    pub subnets: Option<Seq<SubnetModel>>,
}

pub open spec fn view_subnets(v: Seq<Subnet>) -> Seq<SubnetModel> {
    v.map_values(|s: Subnet| s@)
}

impl View for Network {
    type V = NetworkModel;

    open spec fn view(&self) -> NetworkModel {
        NetworkModel {
            subnets: match self.subnets {
                Some(v) => Some(view_subnets(v@)),
                None => None,
            },
        }
    }
}

/// Request to install the rules for one network.
pub struct SetupNetwork {
    /// The network definition.
    pub net: Network,
    /// Hash of the network name; chain names are derived from it.
    pub network_hash_name: String,
}

/// Mathematical image of a [`SetupNetwork`].
pub struct SetupNetworkModel {
    pub net: NetworkModel,
    pub network_hash_name: Seq<char>,
}

impl View for SetupNetwork {
    type V = SetupNetworkModel;

    open spec fn view(&self) -> SetupNetworkModel {
        SetupNetworkModel { net: self.net@, network_hash_name: self.network_hash_name@ }
    }
}

/// Request to remove the rules for one network.
pub struct TearDownNetwork {
    /// The same record that set the network up.
    pub config: SetupNetwork,
    /// True when the whole network is being removed, so chains owned by it
    /// may be deleted.
    pub complete_teardown: bool,
}

impl View for TearDownNetwork {
    type V = TearDownNetworkModel;

    open spec fn view(&self) -> TearDownNetworkModel {
        TearDownNetworkModel { config: self.config@, complete_teardown: self.complete_teardown }
    }
}

/// Mathematical image of a [`TearDownNetwork`].
pub struct TearDownNetworkModel {
    pub config: SetupNetworkModel,
    pub complete_teardown: bool,
}

/// One forwarded port: traffic to `host_port` on the host is redirected to
/// `container_port` of the container.
pub struct PortMapping {
    /// Transport protocol, e.g. `tcp` or `udp`.
    pub protocol: String,
    pub host_port: u16,
    pub container_port: u16,
}

/// Mathematical image of a [`PortMapping`].
pub struct PortMappingModel {
    pub protocol: Seq<char>,
    pub host_port: u16,
    pub container_port: u16,
}

impl View for PortMapping {
    type V = PortMappingModel;

    open spec fn view(&self) -> PortMappingModel {
        PortMappingModel {
            protocol: self.protocol@,
            host_port: self.host_port,
            container_port: self.container_port,
        }
    }
}

pub open spec fn view_port_mappings(v: Seq<PortMapping>) -> Seq<PortMappingModel> {
    v.map_values(|m: PortMapping| m@)
}

/// Request to forward ports to one container.  Each address family is
/// optional and independent, but an address requires its matching subnet.
pub struct PortForwardConfig {
    /// Hash of the network name; chain names are derived from it.
    pub network_hash_name: String,
    /// Container IPv4 address, if the container has one.
    pub container_ip_v4: Option<String>,
    /// IPv4 subnet of the network; required when `container_ip_v4` is set.
    pub subnet_v4: Option<Subnet>,
    /// Container IPv6 address, if the container has one.
    pub container_ip_v6: Option<String>,
    /// IPv6 subnet of the network; required when `container_ip_v6` is set.
    pub subnet_v6: Option<Subnet>,
    /// The ports to forward.
    pub port_mappings: Vec<PortMapping>,
}

/// Mathematical image of a [`PortForwardConfig`].
pub struct PortForwardConfigModel {
    pub network_hash_name: Seq<char>,
    pub container_ip_v4: Option<Seq<char>>,
    pub subnet_v4: Option<SubnetModel>,
    pub container_ip_v6: Option<Seq<char>>,
    pub subnet_v6: Option<SubnetModel>,
    pub port_mappings: Seq<PortMappingModel>,
}

impl View for PortForwardConfig {
    type V = PortForwardConfigModel;

    open spec fn view(&self) -> PortForwardConfigModel {
        PortForwardConfigModel {
            network_hash_name: self.network_hash_name@,
            container_ip_v4: match self.container_ip_v4 {
                Some(ip) => Some(ip@),
                None => None,
            },
            subnet_v4: match self.subnet_v4 {
                Some(s) => Some(s@),
                None => None,
            },
            container_ip_v6: match self.container_ip_v6 {
                Some(ip) => Some(ip@),
                None => None,
            },
            subnet_v6: match self.subnet_v6 {
                Some(s) => Some(s@),
                None => None,
            },
            port_mappings: view_port_mappings(self.port_mappings@),
        }
    }
}

/// Request to remove the forwarding rules of one container.
pub struct TeardownPortForward {
    /// The same record that set the forwarding up.
    pub config: PortForwardConfig,
    /// True when all forwarding infrastructure for the container's network is
    /// being removed, not just this container's own rules.
    pub complete_teardown: bool,
}

/// Mathematical image of a [`TeardownPortForward`].
pub struct TeardownPortForwardModel {
    pub config: PortForwardConfigModel,
    pub complete_teardown: bool,
}

impl View for TeardownPortForward {
    type V = TeardownPortForwardModel;

    open spec fn view(&self) -> TeardownPortForwardModel {
        TeardownPortForwardModel { config: self.config@, complete_teardown: self.complete_teardown }
    }
}

/// Why a driver call failed.
pub enum FirewallError {
    /// An IPv4 address was given without an IPv4 subnet.
    ConfigIpv4SubnetMissing,
    /// An IPv6 address was given without an IPv6 subnet.
    ConfigIpv6SubnetMissing,
    /// A rule-table mutation failed; the text is the underlying diagnostic.
    Table(String),
}

impl FirewallError {
    /// Human-readable description of the error.
    pub fn message(&self) -> (r: String)
        ensures
            self is ConfigIpv4SubnetMissing ==> r@ == "ipv4 address provided but no v4 subnet provided"@,
            self is ConfigIpv6SubnetMissing ==> r@ == "ipv6 address provided but no v6 subnet provided"@,
            self is Table ==> r@ == self->Table_0@,
    {
        match self {
            FirewallError::ConfigIpv4SubnetMissing => String::from_str(
                "ipv4 address provided but no v4 subnet provided",
            ),
            FirewallError::ConfigIpv6SubnetMissing => String::from_str(
                "ipv6 address provided but no v6 subnet provided",
            ),
            FirewallError::Table(msg) => String::from_str(msg.as_str()),
        }
    }
}

} // verus!
