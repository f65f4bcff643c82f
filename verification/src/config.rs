//! The node agent's configuration: its fields and defaults, the choice of the
//! host address, and the process-wide configuration slot.

use crate::text::{decimal, push_decimal, push_str, string_of};
use vstd::prelude::*;

verus! {

/// Metrics collection settings.
#[derive(Clone, Debug, PartialEq)]
pub struct MetricsConfig {
    /// Seconds between two collections.
    pub collection_interval: u64,
    /// Samples per batch.
    pub batch_size: u32,
}

/// Description of the node's system.
#[derive(Clone, Debug, PartialEq)]
pub struct SystemConfig {
    pub hostname: String,
    pub platform: String,
    pub architecture: String,
}

/// Settings of the node agent.
#[derive(Clone, Debug, PartialEq)]
pub struct NodeAgentConfig {
    pub node_name: String,
    pub node_type: String,
    pub node_role: String,
    pub master_ip: String,
    pub node_ip: String,
    pub grpc_port: u16,
    pub log_level: String,
    pub metrics: MetricsConfig,
    pub system: SystemConfig,
    pub yaml_storage: String,
}

/// The configuration file of the node agent.
#[derive(Clone, Debug, PartialEq)]
pub struct Config {
    pub nodeagent: NodeAgentConfig,
}

/// Whether every text field of `c` is empty and every number zero: the
/// value a configuration has when nothing was loaded.
pub open spec fn is_default_config(c: Config) -> bool {
    let n = c.nodeagent;
    &&& n.node_name@.len() == 0
    &&& n.node_type@.len() == 0
    &&& n.node_role@.len() == 0
    &&& n.master_ip@.len() == 0
    &&& n.node_ip@.len() == 0
    &&& n.grpc_port == 0
    &&& n.log_level@.len() == 0
    &&& n.metrics.collection_interval == 0
    &&& n.metrics.batch_size == 0
    &&& n.system.hostname@.len() == 0
    &&& n.system.platform@.len() == 0
    &&& n.system.architecture@.len() == 0
    &&& n.yaml_storage@.len() == 0
}

impl Default for MetricsConfig {
    fn default() -> (m: Self)
        ensures
            m.collection_interval == 0,
            m.batch_size == 0,
    {
        MetricsConfig { collection_interval: 0, batch_size: 0 }
    }
}

impl Default for SystemConfig {
    fn default() -> (s: Self)
        ensures
            s.hostname@.len() == 0,
            s.platform@.len() == 0,
            s.architecture@.len() == 0,
    {
        SystemConfig { hostname: String::new(), platform: String::new(), architecture: String::new() }
    }
}

impl Default for NodeAgentConfig {
    fn default() -> (n: Self)
        ensures
            is_default_config(Config { nodeagent: n }),
    {
        NodeAgentConfig {
            node_name: String::new(),
            node_type: String::new(),
            node_role: String::new(),
            master_ip: String::new(),
            node_ip: String::new(),
            grpc_port: 0,
            log_level: String::new(),
            metrics: MetricsConfig::default(),
            system: SystemConfig::default(),
            yaml_storage: String::new(),
        }
    }
}

impl Default for Config {
    fn default() -> (c: Self)
        ensures
            is_default_config(c),
    {
        Config { nodeagent: NodeAgentConfig::default() }
    }
}

/// The node type a configuration file without one gets.
pub fn default_node_type() -> (s: String)
    ensures
        s@ == "cloud"@,
{
    string_of("cloud")
}

/// The node role a configuration file without one gets.
pub fn default_node_role() -> (s: String)
    ensures
        s@ == "nodeagent"@,
{
    string_of("nodeagent")
}

/// The directory for stored YAML that a configuration file without one gets.
pub fn default_yaml_storage() -> (s: String)
    ensures
        s@ == "/etc/piccolo/yaml"@,
{
    string_of("/etc/piccolo/yaml")
}

/// The node name given the system host name, if it could be read.
pub fn node_name_or_unknown(hostname: Option<String>) -> (s: String)
    ensures
        hostname matches Some(h) ==> s@ == h@,
        hostname is None ==> s@ == "unknown"@,
{
    match hostname {
        Some(h) => h,
        None => string_of("unknown"),
    }
}

/// Calls `hostname::get`, which reads the system host name, converting it to
/// text lossily. Claimed: a name it gives holds no NUL character (on Unix the
/// crate cuts the `gethostname` buffer at its first zero byte, and the lossy
/// conversion makes no NUL of other bytes). Which name comes back, and
/// whether one does, is the machine's state and left unsaid.
#[verifier::external_body]
fn system_hostname() -> (name: Option<String>)
    ensures
        name matches Some(h) ==> !h@.contains('\0'),
{
    hostname::get().ok().map(|h| h.to_string_lossy().to_string())
}

/// The node name a configuration file without one gets: the system host
/// name, or `unknown` where it cannot be read. Either way it holds no NUL
/// character.
pub fn default_node_name() -> (name: String)
    ensures
        !name@.contains('\0'),
{
    let host = system_hostname();
    proof {
        reveal_strlit("unknown");
        assert("unknown"@[0] != '\0');
        assert(!"unknown"@.contains('\0')) by {
            if "unknown"@.contains('\0') {
                let i = choose|i: int| 0 <= i < "unknown"@.len() && "unknown"@[i] == '\0';
                assert("unknown"@[i] != '\0');
            }
        }
    }
    node_name_or_unknown(host)
}

/// An address of a network interface of this host.
#[derive(Clone, Copy, Debug, PartialEq, Eq)]
pub enum HostAddr {
    /// An IPv4 address, as its four octets.
    V4(u8, u8, u8, u8),
    /// An IPv6 address.
    V6,
}

/// Whether an IPv4 address is a loopback address (127.0.0.0/8).
pub open spec fn is_loopback_v4(a: u8) -> bool {
    a == 127
}

/// The first IPv4 address of `addrs` that is not a loopback address.
pub open spec fn first_external_v4(addrs: Seq<HostAddr>) -> Option<(u8, u8, u8, u8)>
    decreases addrs.len(),
{
    if addrs.len() == 0 {
        None
    } else {
        match addrs[0] {
            HostAddr::V4(a, b, c, d) => if !is_loopback_v4(a) {
                Some((a, b, c, d))
            } else {
                first_external_v4(addrs.drop_first())
            },
            HostAddr::V6 => first_external_v4(addrs.drop_first()),
        }
    }
}

/// The dotted-decimal text of an IPv4 address.
pub open spec fn dotted(a: u8, b: u8, c: u8, d: u8) -> Seq<char> {
    decimal(a as nat) + "."@ + decimal(b as nat) + "."@ + decimal(c as nat) + "."@ + decimal(
        d as nat,
    )
}

/// The host address of a node: the configured node address where one is
/// set; otherwise the first non-loopback IPv4 address of its interfaces;
/// otherwise the master's address.
pub open spec fn chosen_host_ip(
    node_ip: Seq<char>,
    interfaces: Option<Seq<HostAddr>>,
    master_ip: Seq<char>,
) -> Seq<char> {
    if node_ip.len() > 0 {
        node_ip
    } else {
        match interfaces {
            Some(addrs) => match first_external_v4(addrs) {
                Some((a, b, c, d)) => dotted(a, b, c, d),
                None => master_ip,
            },
            None => master_ip,
        }
    }
}

/// The addresses of an interface listing, if there is one.
pub open spec fn listed(interfaces: Option<Vec<HostAddr>>) -> Option<Seq<HostAddr>> {
    match interfaces {
        Some(v) => Some(v@),
        None => None,
    }
}

/// The dotted-decimal text of an IPv4 address.
pub fn dotted_ip(a: u8, b: u8, c: u8, d: u8) -> (s: String)
    ensures
        s@ == dotted(a, b, c, d),
{
    let mut s = String::new();
    push_decimal(&mut s, a as u64);
    push_str(&mut s, ".");
    push_decimal(&mut s, b as u64);
    push_str(&mut s, ".");
    push_decimal(&mut s, c as u64);
    push_str(&mut s, ".");
    push_decimal(&mut s, d as u64);
    s
}

/// Chooses the host address from the configured node address, the addresses
/// of the host's interfaces (`None` where they could not be listed), and the
/// master's address.
pub fn select_host_ip(node_ip: &String, interfaces: Option<Vec<HostAddr>>, master_ip: &String) -> (ip:
    String)
    ensures
        ip@ == chosen_host_ip(node_ip@, listed(interfaces), master_ip@),
{
    if !node_ip.as_str().is_empty() {
        return node_ip.clone();
    }
    let ghost listing = listed(interfaces);
    match interfaces {
        None => master_ip.clone(),
        Some(addrs) => {
            let mut i: usize = 0;
            assert(addrs@.skip(0) =~= addrs@);
            while i < addrs.len()
                invariant
                    0 <= i <= addrs@.len(),
                    listing == Some(addrs@),
                    listing == listed(interfaces),
                    node_ip@.len() == 0,
                    first_external_v4(addrs@) == first_external_v4(addrs@.skip(i as int)),
                decreases addrs@.len() - i,
            {
                assert(addrs@.skip(i as int).drop_first() =~= addrs@.skip(i + 1));
                assert(addrs@.skip(i as int)[0] == addrs@[i as int]);
                match addrs[i] {
                    HostAddr::V4(a, b, c, d) => {
                        if a != 127 {
                            assert(first_external_v4(addrs@.skip(i as int)) == Some((a, b, c, d)));
                            return dotted_ip(a, b, c, d);
                        }
                    },
                    HostAddr::V6 => {},
                }
                i = i + 1;
            }
            master_ip.clone()
        },
    }
}

/// Calls `if_addrs::get_if_addrs`, which lists the addresses of the host's
/// network interfaces, keeping of each the IPv4 octets or the fact that it is
/// IPv6, in the order listed; `None` where the listing failed. Nothing is
/// claimed of the result: it is the machine's state.
#[verifier::external_body]
fn get_network_interfaces() -> Option<Vec<HostAddr>> {
    match if_addrs::get_if_addrs() {
        Ok(ifaces) => Some(
            ifaces.iter().map(|iface| match &iface.addr {
                if_addrs::IfAddr::V4(v4) => {
                    let o = v4.ip.octets();
                    HostAddr::V4(o[0], o[1], o[2], o[3])
                },
                if_addrs::IfAddr::V6(_) => HostAddr::V6,
            }).collect(),
        ),
        Err(_) => None,
    }
}

impl Config {
    /// The address other nodes reach this node at: the configured node
    /// address where one is set; otherwise the first non-loopback IPv4
    /// address of the host's interfaces; otherwise the master's address.
    pub fn get_host_ip(&self) -> (ip: String)
        ensures
            self.nodeagent.node_ip@.len() > 0 ==> ip@ == self.nodeagent.node_ip@,
            self.nodeagent.node_ip@.len() == 0 ==> ip@ == self.nodeagent.master_ip@ || exists|
                a: u8,
                b: u8,
                c: u8,
                d: u8,
            | a != 127 && ip@ == dotted(a, b, c, d),
    {
        let interfaces = get_network_interfaces();
        let ghost listing = listed(interfaces);
        let ip = select_host_ip(&self.nodeagent.node_ip, interfaces, &self.nodeagent.master_ip);
        proof {
            if self.nodeagent.node_ip@.len() == 0 {
                if let Some(v) = listing {
                    lemma_first_external_is_external(v);
                }
            }
        }
        ip
    }

    /// The configured host name of the system.
    pub fn get_hostname(&self) -> (s: String)
        ensures
            s@ == self.nodeagent.system.hostname@,
    {
        self.nodeagent.system.hostname.clone()
    }

    /// The configured node name.
    pub fn get_node_name(&self) -> (s: String)
        ensures
            s@ == self.nodeagent.node_name@,
    {
        self.nodeagent.node_name.clone()
    }

    /// The configured directory for stored YAML.
    pub fn get_yaml_storage(&self) -> (s: String)
        ensures
            s@ == self.nodeagent.yaml_storage@,
    {
        self.nodeagent.yaml_storage.clone()
    }
}

impl Config {
    /// A copy of this configuration, equal to it field for field.
    pub fn duplicate(&self) -> (c: Config)
        ensures
            c == *self,
    {
        let n = &self.nodeagent;
        Config {
            nodeagent: NodeAgentConfig {
                node_name: n.node_name.clone(),
                node_type: n.node_type.clone(),
                node_role: n.node_role.clone(),
                master_ip: n.master_ip.clone(),
                node_ip: n.node_ip.clone(),
                grpc_port: n.grpc_port,
                log_level: n.log_level.clone(),
                metrics: MetricsConfig {
                    collection_interval: n.metrics.collection_interval,
                    batch_size: n.metrics.batch_size,
                },
                system: SystemConfig {
                    hostname: n.system.hostname.clone(),
                    platform: n.system.platform.clone(),
                    architecture: n.system.architecture.clone(),
                },
                yaml_storage: n.yaml_storage.clone(),
            },
        }
    }

    /// The process-wide configuration: the one stored in `slot`, or, where
    /// none was stored yet, the default configuration, which is stored from
    /// then on.
    pub fn get(slot: &mut ConfigSlot) -> (c: Config)
        ensures
            old(slot).stored() matches Some(s) ==> c == s && final(slot).stored() == Some(s),
            old(slot).stored() is None ==> is_default_config(c) && final(slot).stored() == Some(
                c,
            ),
    {
        match &slot.config {
            Some(c) => c.duplicate(),
            None => {
                let c = Config::default();
                let d = c.duplicate();
                slot.config = Some(c);
                d
            },
        }
    }

    /// Stores `config` as the process-wide configuration unless one is
    /// stored already, in which case `config` is dropped.
    pub fn set_global(slot: &mut ConfigSlot, config: Config)
        ensures
            final(slot).stored() == set_once(old(slot).stored(), config),
    {
        if slot.config.is_none() {
            slot.config = Some(config);
        }
    }
}

/// A slot that holds the process-wide configuration once it is set: the
/// first configuration stored stays.
pub struct ConfigSlot {
    config: Option<Config>,
}

impl ConfigSlot {
    /// The stored configuration, if any.
    pub closed spec fn stored(&self) -> Option<Config> {
        self.config
    }

    /// An empty slot.
    pub fn new() -> (s: ConfigSlot)
        ensures
            s.stored() is None,
    {
        ConfigSlot { config: None }
    }
}

/// The slot after storing `config` into a slot holding `stored`: the first
/// configuration stored stays.
pub open spec fn set_once(stored: Option<Config>, config: Config) -> Option<Config> {
    if stored is None {
        Some(config)
    } else {
        stored
    }
}

/// After `set_global(a)` on an empty slot, `get` returns `a`; a later
/// `set_global(b)` changes nothing, so `get` still returns `a`.
pub proof fn lemma_first_set_wins(a: Config, b: Config)
    ensures
        set_once(None, a) == Some(a),
        set_once(set_once(None, a), b) == Some(a),
{
}

/// The address `first_external_v4` picks is not a loopback address.
pub proof fn lemma_first_external_is_external(addrs: Seq<HostAddr>)
    ensures
        first_external_v4(addrs) matches Some((a, b, c, d)) ==> a != 127,
    decreases addrs.len(),
{
    if addrs.len() > 0 {
        lemma_first_external_is_external(addrs.drop_first());
    }
}

/// Whether an interface address is a non-loopback IPv4 address.
pub open spec fn is_external_v4(h: HostAddr) -> bool {
    h matches HostAddr::V4(a, _, _, _) && !is_loopback_v4(a)
}

/// With no node address configured, the host address is the first
/// non-loopback IPv4 address of the listing whenever it has one, whatever
/// the master's address; the master's address is chosen only when the
/// listing has none or could not be made.
pub proof fn lemma_host_ip_prefers_interfaces(
    node_ip: Seq<char>,
    addrs: Seq<HostAddr>,
    master_ip: Seq<char>,
    i: int,
)
    requires
        node_ip.len() == 0,
        0 <= i < addrs.len(),
        is_external_v4(addrs[i]),
        forall|j: int| 0 <= j < i ==> !is_external_v4(#[trigger] addrs[j]),
    ensures
        addrs[i] matches HostAddr::V4(a, b, c, d) && chosen_host_ip(node_ip, Some(addrs), master_ip)
            == dotted(a, b, c, d),
    decreases i,
{
    if i > 0 {
        let t = addrs.drop_first();
        assert(!is_external_v4(addrs[0]));
        assert forall|j: int| 0 <= j < i - 1 implies !is_external_v4(#[trigger] t[j]) by {
            assert(t[j] == addrs[j + 1]);
        }
        lemma_host_ip_prefers_interfaces(node_ip, t, master_ip, i - 1);
        assert(t[i - 1] == addrs[i]);
    }
}

/// The master's address is the host address only where no node address is
/// configured and no listed address is a non-loopback IPv4 address.
pub proof fn lemma_master_only_without_external(
    node_ip: Seq<char>,
    addrs: Seq<HostAddr>,
    master_ip: Seq<char>,
)
    requires
        node_ip.len() == 0,
        forall|j: int| 0 <= j < addrs.len() ==> !is_external_v4(#[trigger] addrs[j]),
    ensures
        chosen_host_ip(node_ip, Some(addrs), master_ip) == master_ip,
    decreases addrs.len(),
{
    if addrs.len() > 0 {
        let t = addrs.drop_first();
        assert(!is_external_v4(addrs[0]));
        assert forall|j: int| 0 <= j < t.len() implies !is_external_v4(#[trigger] t[j]) by {
            assert(t[j] == addrs[j + 1]);
        }
        lemma_master_only_without_external(node_ip, t, master_ip);
    }
}

} // verus!
