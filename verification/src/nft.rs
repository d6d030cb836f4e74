//! Forwarding by nftables: the rules for a list of tunnels, and the script that installs them.
use vstd::prelude::*;
use vstd::string::StringExecFns;

use crate::addr::{parse_socket_addr, Ipv4Addr, SocketAddr, SocketAddrView, SYNTAX_FAULT};
use crate::config::{Protocol, TunnelConfig, TunnelView};
use crate::number::to_decimal;

verus! {

/// The names of the table, chains and set that one manager uses.
#[derive(Debug)]
pub struct NftNames {
    pub table: String,
    pub prerouting_chain: String,
    pub output_chain: String,
    pub postrouting_chain: String,
    pub target_set: String,
}

/// What an `NftNames` holds.
pub struct NamesView {
    pub table: Seq<char>,
    pub prerouting_chain: Seq<char>,
    pub output_chain: Seq<char>,
    pub postrouting_chain: Seq<char>,
    pub target_set: Seq<char>,
}

impl View for NftNames {
    type V = NamesView;

    open spec fn view(&self) -> NamesView {
        NamesView {
            table: self.table@,
            prerouting_chain: self.prerouting_chain@,
            output_chain: self.output_chain@,
            postrouting_chain: self.postrouting_chain@,
            target_set: self.target_set@,
        }
    }
}

/// The ending that the process `pid` gives to its names at the moment `unique`.
pub open spec fn suffix(pid: nat, unique: nat) -> Seq<char> {
    crate::number::decimal(pid) + "_"@ + crate::number::decimal(unique)
}

/// The names that the process `pid` makes at the moment `unique`.
pub open spec fn names_for(pid: nat, unique: nat) -> NamesView {
    NamesView {
        table: "vorto_nat_"@ + suffix(pid, unique),
        prerouting_chain: "vorto_pre_"@ + suffix(pid, unique),
        output_chain: "vorto_out_"@ + suffix(pid, unique),
        postrouting_chain: "vorto_post_"@ + suffix(pid, unique),
        target_set: "vorto_targets_"@ + suffix(pid, unique),
    }
}

/// Different processes, and one process at different moments, have different endings.
pub proof fn suffix_injective(p: nat, u: nat, q: nat, v: nat)
    ensures
        suffix(p, u) == suffix(q, v) ==> p == q && u == v,
{
    reveal_strlit("_");
    let s = suffix(p, u);
    let dp = crate::number::decimal(p);
    let dq = crate::number::decimal(q);
    crate::number::decimal_reads_back(p);
    crate::number::decimal_reads_back(q);
    if s == suffix(q, v) {
        crate::text::lemma_find_is(s, '_', dp.len() as int);
        crate::text::lemma_find_is(suffix(q, v), '_', dq.len() as int);
        assert(s.take(dp.len() as int) =~= dp);
        assert(s.take(dq.len() as int) =~= dq);
        crate::number::decimal_injective(p, q);
        assert(s.skip(dp.len() as int + 1) =~= crate::number::decimal(u));
        assert(suffix(q, v).skip(dq.len() as int + 1) =~= crate::number::decimal(v));
        crate::number::decimal_injective(u, v);
    }
}

/// Managers of different processes or moments share no name: none touches the table of another.
pub proof fn names_are_unique(p: nat, u: nat, q: nat, v: nat)
    requires
        p != q || u != v,
    ensures
        names_for(p, u).table != names_for(q, v).table,
        names_for(p, u).prerouting_chain != names_for(q, v).prerouting_chain,
        names_for(p, u).output_chain != names_for(q, v).output_chain,
        names_for(p, u).postrouting_chain != names_for(q, v).postrouting_chain,
        names_for(p, u).target_set != names_for(q, v).target_set,
{
    suffix_injective(p, u, q, v);
    lemma_same_start("vorto_nat_"@, suffix(p, u), suffix(q, v));
    lemma_same_start("vorto_pre_"@, suffix(p, u), suffix(q, v));
    lemma_same_start("vorto_out_"@, suffix(p, u), suffix(q, v));
    lemma_same_start("vorto_post_"@, suffix(p, u), suffix(q, v));
    lemma_same_start("vorto_targets_"@, suffix(p, u), suffix(q, v));
}

proof fn lemma_same_start(start: Seq<char>, a: Seq<char>, b: Seq<char>)
    ensures
        start + a == start + b ==> a == b,
{
    if start + a == start + b {
        assert((start + a).skip(start.len() as int) =~= a);
        assert((start + b).skip(start.len() as int) =~= b);
    }
}

/// The chains of one table have different names.
pub proof fn chain_names_differ(pid: nat, unique: nat)
    ensures
        names_for(pid, unique).prerouting_chain != names_for(pid, unique).output_chain,
        names_for(pid, unique).prerouting_chain != names_for(pid, unique).postrouting_chain,
        names_for(pid, unique).output_chain != names_for(pid, unique).postrouting_chain,
{
    reveal_strlit("vorto_pre_");
    reveal_strlit("vorto_out_");
    reveal_strlit("vorto_post_");
    let n = names_for(pid, unique);
    assert(n.prerouting_chain[6] == 'p' && n.prerouting_chain[7] == 'r');
    assert(n.output_chain[6] == 'o');
    assert(n.postrouting_chain[6] == 'p' && n.postrouting_chain[7] == 'o');
}

impl NftNames {
    /// The names for the process `pid` at the moment `unique`.
    pub fn new(pid: u32, unique: u128) -> (r: NftNames)
        ensures
            r@ == names_for(pid as nat, unique as nat),
    {
        let ending = to_decimal(pid as u128).concat("_").concat(to_decimal(unique).as_str());
        NftNames {
            table: "vorto_nat_".to_owned().concat(ending.as_str()),
            prerouting_chain: "vorto_pre_".to_owned().concat(ending.as_str()),
            output_chain: "vorto_out_".to_owned().concat(ending.as_str()),
            postrouting_chain: "vorto_post_".to_owned().concat(ending.as_str()),
            target_set: "vorto_targets_".to_owned().concat(ending.as_str()),
        }
    }
}

impl Clone for NftNames {
    fn clone(&self) -> (r: NftNames)
        ensures
            r@ == self@,
    {
        NftNames {
            table: self.table.clone(),
            prerouting_chain: self.prerouting_chain.clone(),
            output_chain: self.output_chain.clone(),
            postrouting_chain: self.postrouting_chain.clone(),
            target_set: self.target_set.clone(),
        }
    }
}

/// One destination rewrite.
#[derive(Debug, Clone, Copy, PartialEq, Eq, Structural)]
pub enum NftRule {
    Tcp { listen_ip: Ipv4Addr, listen_port: u16, target_ip: Ipv4Addr, target_port: u16 },
    Udp { listen_ip: Ipv4Addr, listen_port: u16, target_ip: Ipv4Addr, target_port: u16 },
}

/// The command that adds a rewrite of one transport to `chain` of `table`.
pub open spec fn dnat_line(
    table: Seq<char>,
    chain: Seq<char>,
    transport: Seq<char>,
    listen_ip: Ipv4Addr,
    listen_port: u16,
    target_ip: Ipv4Addr,
    target_port: u16,
) -> Seq<char> {
    "add rule ip "@ + table + " "@ + chain + " ip daddr "@ + listen_ip.text() + transport
        + crate::number::decimal(listen_port as nat) + " dnat to "@ + target_ip.text() + ":"@
        + crate::number::decimal(target_port as nat)
}

/// The command that adds `rule` to `chain` of `table`.
pub open spec fn rule_line(rule: NftRule, table: Seq<char>, chain: Seq<char>) -> Seq<char> {
    match rule {
        NftRule::Tcp { listen_ip, listen_port, target_ip, target_port } => dnat_line(
            table,
            chain,
            " tcp dport "@,
            listen_ip,
            listen_port,
            target_ip,
            target_port,
        ),
        NftRule::Udp { listen_ip, listen_port, target_ip, target_port } => dnat_line(
            table,
            chain,
            " udp dport "@,
            listen_ip,
            listen_port,
            target_ip,
            target_port,
        ),
    }
}

fn render_dnat(
    table: &str,
    chain: &str,
    transport: &str,
    listen_ip: Ipv4Addr,
    listen_port: u16,
    target_ip: Ipv4Addr,
    target_port: u16,
) -> (r: String)
    ensures
        r@ == dnat_line(
            table@,
            chain@,
            transport@,
            listen_ip,
            listen_port,
            target_ip,
            target_port,
        ),
{
    "add rule ip ".to_owned().concat(table).concat(" ").concat(chain).concat(" ip daddr ").concat(
        listen_ip.to_text().as_str(),
    ).concat(transport).concat(to_decimal(listen_port as u128).as_str()).concat(
        " dnat to ",
    ).concat(target_ip.to_text().as_str()).concat(":").concat(
        to_decimal(target_port as u128).as_str(),
    )
}

impl NftRule {
    /// The commands that add the rule to `chain` of `table`: one.
    pub fn render(&self, table: &str, chain: &str) -> (r: Vec<String>)
        ensures
            r@.len() == 1,
            r@[0]@ == rule_line(*self, table@, chain@),
    {
        let line = match *self {
            NftRule::Tcp { listen_ip, listen_port, target_ip, target_port } => render_dnat(
                table,
                chain,
                " tcp dport ",
                listen_ip,
                listen_port,
                target_ip,
                target_port,
            ),
            NftRule::Udp { listen_ip, listen_port, target_ip, target_port } => render_dnat(
                table,
                chain,
                " udp dport ",
                listen_ip,
                listen_port,
                target_ip,
                target_port,
            ),
        };
        let mut r: Vec<String> = Vec::new();
        r.push(line);
        r
    }
}

/// Why a tunnel has no nftables rule.
#[derive(Debug)]
pub enum NftError {
    /// An address is no socket address.
    Address,
    /// The listen address is not IPv4.
    ListenNotV4 { address: String },
    /// The target address is not IPv4.
    TargetNotV4 { address: String },
    /// The listen address names no single address.
    ListenUnspecified { address: String },
}

/// What an `NftError` holds.
pub enum NftFault {
    Address,
    ListenNotV4 { address: Seq<char> },
    TargetNotV4 { address: Seq<char> },
    ListenUnspecified { address: Seq<char> },
}

impl View for NftError {
    type V = NftFault;

    open spec fn view(&self) -> NftFault {
        match self {
            NftError::Address => NftFault::Address,
            NftError::ListenNotV4 { address } => NftFault::ListenNotV4 { address: address@ },
            NftError::TargetNotV4 { address } => NftFault::TargetNotV4 { address: address@ },
            NftError::ListenUnspecified { address } => NftFault::ListenUnspecified {
                address: address@,
            },
        }
    }
}

impl NftFault {
    /// The sentence that describes the fault.
    pub open spec fn text(self) -> Seq<char> {
        match self {
            NftFault::Address => SYNTAX_FAULT@,
            NftFault::ListenNotV4 { address } => "nft mode only supports IPv4 listen addresses: "@
                + address,
            NftFault::TargetNotV4 { address } => "nft mode only supports IPv4 target addresses: "@
                + address,
            NftFault::ListenUnspecified { address } =>
                "nft mode requires a specific IPv4 listen address, not "@ + address,
        }
    }
}

impl NftError {
    /// The sentence that describes the error.
    pub fn message(&self) -> (r: String)
        ensures
            r@ == self@.text(),
    {
        match self {
            NftError::Address => SYNTAX_FAULT.to_owned(),
            NftError::ListenNotV4 { address } =>
                "nft mode only supports IPv4 listen addresses: ".to_owned().concat(
                address.as_str(),
            ),
            NftError::TargetNotV4 { address } =>
                "nft mode only supports IPv4 target addresses: ".to_owned().concat(
                address.as_str(),
            ),
            NftError::ListenUnspecified { address } =>
                "nft mode requires a specific IPv4 listen address, not ".to_owned().concat(
                address.as_str(),
            ),
        }
    }
}

/// Where a tunnel listens and where it leads.
pub struct Route {
    pub listen_ip: Ipv4Addr,
    pub listen_port: u16,
    pub target_ip: Ipv4Addr,
    pub target_port: u16,
}

/// The route of a tunnel, or the first reason why it has none: both addresses must be socket
/// addresses of IPv4, and the listen address must not be `0.0.0.0`.
pub open spec fn route(t: TunnelView) -> Result<Route, NftFault> {
    match (crate::addr::socket_addr(t.listen), crate::addr::socket_addr(t.target)) {
        (Some(listen), Some(target)) => match listen {
            SocketAddrView::V6 { .. } => Err(NftFault::ListenNotV4 { address: t.listen }),
            SocketAddrView::V4 { ip: listen_ip, port: listen_port } => match target {
                SocketAddrView::V6 { .. } => Err(NftFault::TargetNotV4 { address: t.target }),
                SocketAddrView::V4 { ip: target_ip, port: target_port } => if listen_ip.unspecified() {
                    Err(NftFault::ListenUnspecified { address: t.listen })
                } else {
                    Ok(Route { listen_ip, listen_port, target_ip, target_port })
                },
            },
        },
        _ => Err(NftFault::Address),
    }
}

/// The rules of a tunnel with the route `r`: one for each transport that it forwards.
pub open spec fn rules_on(r: Route, protocol: Protocol) -> Seq<NftRule> {
    let tcp = NftRule::Tcp {
        listen_ip: r.listen_ip,
        listen_port: r.listen_port,
        target_ip: r.target_ip,
        target_port: r.target_port,
    };
    let udp = NftRule::Udp {
        listen_ip: r.listen_ip,
        listen_port: r.listen_port,
        target_ip: r.target_ip,
        target_port: r.target_port,
    };
    match protocol {
        Protocol::Tcp => seq![tcp],
        Protocol::Udp => seq![udp],
        Protocol::Both => seq![tcp, udp],
    }
}

/// The reason why the first tunnel without a route has none.
pub open spec fn routes_fault(tunnels: Seq<TunnelView>) -> Option<NftFault>
    decreases tunnels.len(),
{
    if tunnels.len() == 0 {
        None
    } else if routes_fault(tunnels.drop_last()) is Some {
        routes_fault(tunnels.drop_last())
    } else {
        match route(tunnels.last()) {
            Ok(_) => None,
            Err(fault) => Some(fault),
        }
    }
}

/// The rules of the tunnels, in order.
pub open spec fn all_rules(tunnels: Seq<TunnelView>) -> Seq<NftRule>
    decreases tunnels.len(),
{
    if tunnels.len() == 0 {
        seq![]
    } else {
        all_rules(tunnels.drop_last()) + rules_on(
            route(tunnels.last())->Ok_0,
            tunnels.last().protocol,
        )
    }
}

/// The target addresses of the tunnels that are outside this host.
pub open spec fn outside_targets(tunnels: Seq<TunnelView>) -> Set<Ipv4Addr>
    decreases tunnels.len(),
{
    if tunnels.len() == 0 {
        Set::empty()
    } else {
        let ip = (route(tunnels.last())->Ok_0).target_ip;
        if ip.loopback() {
            outside_targets(tunnels.drop_last())
        } else {
            outside_targets(tunnels.drop_last()).insert(ip)
        }
    }
}

/// Whether the addresses stand in ascending order, each once.
pub open spec fn ascending(s: Seq<Ipv4Addr>) -> bool {
    forall|i: int, j: int|
        0 <= i < j < s.len() ==> (#[trigger] s[i]).bits() < (#[trigger] s[j]).bits()
}

/// All tunnels have a route exactly where each has an IPv4 target and an IPv4 listen address other
/// than `0.0.0.0`.
pub proof fn routes_iff_specific_ipv4(tunnels: Seq<TunnelView>)
    ensures
        routes_fault(tunnels) is None <==> forall|i: int|
            0 <= i < tunnels.len() ==> {
                &&& crate::addr::socket_addr((#[trigger] tunnels[i]).listen) matches Some(
                    SocketAddrView::V4 { ip, .. },
                ) && !ip.unspecified()
                &&& crate::addr::socket_addr(tunnels[i].target) matches Some(
                    SocketAddrView::V4 { .. },
                )
            },
    decreases tunnels.len(),
{
    if tunnels.len() > 0 {
        let before = tunnels.drop_last();
        routes_iff_specific_ipv4(before);
        assert(forall|i: int| 0 <= i < before.len() ==> before[i] == tunnels[i]);
        assert(tunnels.last() == tunnels[tunnels.len() - 1]);
        if routes_fault(tunnels) is None {
            assert forall|i: int| 0 <= i < tunnels.len() implies {
                &&& crate::addr::socket_addr((#[trigger] tunnels[i]).listen) matches Some(
                    SocketAddrView::V4 { ip, .. },
                ) && !ip.unspecified()
                &&& crate::addr::socket_addr(tunnels[i].target) matches Some(
                    SocketAddrView::V4 { .. },
                )
            } by {
                if i < before.len() {
                    assert(before[i] == tunnels[i]);
                }
            }
        }
    }
}

/// There is a rule as soon as there is a tunnel.
pub proof fn rules_empty_iff_no_tunnels(tunnels: Seq<TunnelView>)
    ensures
        all_rules(tunnels).len() == 0 <==> tunnels.len() == 0,
{
}

/// The order of the addresses to masquerade is fixed by which they are.
pub proof fn ascending_is_unique(a: Seq<Ipv4Addr>, b: Seq<Ipv4Addr>)
    requires
        ascending(a),
        ascending(b),
        a.to_set() == b.to_set(),
    ensures
        a == b,
    decreases a.len(),
{
    if a.len() == 0 {
        if b.len() > 0 {
            assert(b.to_set().contains(b[0]));
            assert(a.contains(b[0]));
        }
    } else if b.len() == 0 {
        assert(a.to_set().contains(a[0]));
        assert(b.contains(a[0]));
    } else {
        let x = a.last();
        let y = b.last();
        assert(a.to_set().contains(x));
        assert(b.contains(x));
        let j = choose|j: int| 0 <= j < b.len() && b[j] == x;
        assert(b.to_set().contains(y));
        assert(a.contains(y));
        let i = choose|i: int| 0 <= i < a.len() && a[i] == y;
        assert(i < a.len() - 1 ==> a[i].bits() < a[a.len() - 1].bits());
        assert(j < b.len() - 1 ==> b[j].bits() < b[b.len() - 1].bits());
        assert(x == y);
        let a2 = a.drop_last();
        let b2 = b.drop_last();
        assert forall|z: Ipv4Addr| a2.to_set().contains(z) <==> b2.to_set().contains(z) by {
            if a2.contains(z) {
                let k = choose|k: int| 0 <= k < a2.len() && a2[k] == z;
                assert(a[k] == z && a[k].bits() < a[a.len() - 1].bits());
                assert(a.to_set().contains(z));
                assert(b.contains(z));
                let m = choose|m: int| 0 <= m < b.len() && b[m] == z;
                assert(b2[m] == z);
            }
            if b2.contains(z) {
                let k = choose|k: int| 0 <= k < b2.len() && b2[k] == z;
                assert(b[k] == z && b[k].bits() < b[b.len() - 1].bits());
                assert(b.to_set().contains(z));
                assert(a.contains(z));
                let m = choose|m: int| 0 <= m < a.len() && a[m] == z;
                assert(a2[m] == z);
            }
        }
        assert(a2.to_set() =~= b2.to_set());
        ascending_is_unique(a2, b2);
        assert(a =~= a2.push(x));
        assert(b =~= b2.push(y));
    }
}

/// A table of rules, ready to be installed.
#[derive(Debug)]
pub struct NftRuleset {
    pub names: NftNames,
    pub rules: Vec<NftRule>,
    pub masquerade_targets: Vec<Ipv4Addr>,
}

fn insert_target(targets: &mut Vec<Ipv4Addr>, ip: Ipv4Addr)
    requires
        ascending(old(targets)@),
    ensures
        ascending(final(targets)@),
        final(targets)@.to_set() == old(targets)@.to_set().insert(ip),
{
    let ghost before = targets@;
    let key: u32 = ip.to_bits();
    let mut i: usize = 0;
    while i < targets.len() && targets[i].to_bits() < key
        invariant
            i <= targets.len(),
            targets@ == before,
            key == ip.bits(),
            forall|j: int| 0 <= j < i ==> (#[trigger] before[j]).bits() < key,
        decreases targets.len() - i,
    {
        i = i + 1;
    }
    if i < targets.len() && targets[i].to_bits() == key {
        proof {
            crate::addr::ipv4_bits_injective(before[i as int], ip);
            assert(before.contains(ip));
            assert(before.to_set().insert(ip) =~= before.to_set());
        }
        return;
    }
    targets.insert(i, ip);
    proof {
        let after = targets@;
        assert(after =~= before.insert(i as int, ip));
        assert forall|a: int, b: int| 0 <= a < b < after.len() implies (#[trigger] after[a]).bits()
            < (#[trigger] after[b]).bits() by {
            let pa = if a < i { a } else { a - 1 };
            let pb = if b < i { b } else { b - 1 };
            if a != i {
                assert(after[a] == before[pa]);
            }
            if b != i {
                assert(after[b] == before[pb]);
            }
            if a != i && b != i {
                assert(before[pa].bits() < before[pb].bits());
            } else if a == i {
                assert(before[i as int].bits() > key);
                if pb > i {
                    assert(before[i as int].bits() < before[pb].bits());
                }
            }
        }
        assert forall|z: Ipv4Addr| after.to_set().contains(z) <==> before.to_set().insert(
            ip,
        ).contains(z) by {
            if after.contains(z) {
                let k = choose|k: int| 0 <= k < after.len() && after[k] == z;
                if k < i {
                    assert(before[k] == z);
                } else if k > i {
                    assert(before[k - 1] == z);
                }
            }
            if before.contains(z) {
                let k = choose|k: int| 0 <= k < before.len() && before[k] == z;
                if k < i {
                    assert(after[k] == z);
                } else {
                    assert(after[k + 1] == z);
                }
            }
            assert(after[i as int] == ip);
        }
        assert(after.to_set() =~= before.to_set().insert(ip));
    }
}

fn route_of(tunnel: &TunnelConfig) -> (r: Result<(Ipv4Addr, u16, Ipv4Addr, u16), NftError>)
    ensures
        match r {
            Ok((listen_ip, listen_port, target_ip, target_port)) => route(tunnel@) == Ok::<
                Route,
                NftFault,
            >(Route { listen_ip, listen_port, target_ip, target_port }),
            Err(e) => route(tunnel@) == Err::<Route, NftFault>(e@),
        },
{
    let listen = match parse_socket_addr(tunnel.listen.as_str()) {
        Some(addr) => addr,
        None => {
            return Err(NftError::Address);
        },
    };
    let target = match parse_socket_addr(tunnel.target.as_str()) {
        Some(addr) => addr,
        None => {
            return Err(NftError::Address);
        },
    };
    match listen {
        SocketAddr::V6 { .. } => Err(NftError::ListenNotV4 { address: tunnel.listen.clone() }),
        SocketAddr::V4 { ip: listen_ip, port: listen_port } => match target {
            SocketAddr::V6 { .. } => Err(NftError::TargetNotV4 { address: tunnel.target.clone() }),
            SocketAddr::V4 { ip: target_ip, port: target_port } => if listen_ip.is_unspecified() {
                Err(NftError::ListenUnspecified { address: tunnel.listen.clone() })
            } else {
                Ok((listen_ip, listen_port, target_ip, target_port))
            },
        },
    }
}

proof fn lemma_routes_fault_stays(tunnels: Seq<TunnelView>, k: int)
    requires
        0 <= k <= tunnels.len(),
        routes_fault(tunnels.take(k)) is Some,
    ensures
        routes_fault(tunnels) == routes_fault(tunnels.take(k)),
    decreases tunnels.len() - k,
{
    if k < tunnels.len() {
        assert(tunnels.take(k + 1).drop_last() =~= tunnels.take(k));
        lemma_routes_fault_stays(tunnels, k + 1);
    } else {
        assert(tunnels.take(k) =~= tunnels);
    }
}

/// The command that adds a chain of the kind `hook` to `table`.
pub open spec fn chain_line(table: Seq<char>, chain: Seq<char>, hook: Seq<char>) -> Seq<char> {
    "add chain ip "@ + table + " "@ + chain + hook
}

/// The commands that add the table and its three chains.
pub open spec fn header_text(n: NamesView) -> Seq<char> {
    "add table ip "@ + n.table + "\n"@ + chain_line(
        n.table,
        n.prerouting_chain,
        " { type nat hook prerouting priority -100; }\n"@,
    ) + chain_line(
        n.table,
        n.output_chain,
        " { type nat hook output priority -100; }\n"@,
    ) + chain_line(
        n.table,
        n.postrouting_chain,
        " { type nat hook postrouting priority 100; }\n"@,
    )
}

/// The command that adds `ip` to the set of targets.
pub open spec fn element_line(n: NamesView, ip: Ipv4Addr) -> Seq<char> {
    "add element ip "@ + n.table + " "@ + n.target_set + " { "@ + ip.text() + " }\n"@
}

/// The commands that add each of `targets` to the set of targets.
pub open spec fn elements_text(n: NamesView, targets: Seq<Ipv4Addr>) -> Seq<char>
    decreases targets.len(),
{
    if targets.len() == 0 {
        seq![]
    } else {
        elements_text(n, targets.drop_last()) + element_line(n, targets.last())
    }
}

/// The commands that masquerade traffic to `targets`; none where there is no target.
pub open spec fn masquerade_text(n: NamesView, targets: Seq<Ipv4Addr>) -> Seq<char> {
    if targets.len() == 0 {
        seq![]
    } else {
        "add set ip "@ + n.table + " "@ + n.target_set
            + " { type ipv4_addr; flags interval; }\n"@ + elements_text(n, targets)
            + "add rule ip "@ + n.table + " "@ + n.postrouting_chain + " ip daddr @"@ + n.target_set
            + " masquerade\n"@
    }
}

/// The commands that add each of `rules` for traffic from outside and for traffic of this host.
pub open spec fn rules_text(n: NamesView, rules: Seq<NftRule>) -> Seq<char>
    decreases rules.len(),
{
    if rules.len() == 0 {
        seq![]
    } else {
        rules_text(n, rules.drop_last()) + rule_line(rules.last(), n.table, n.prerouting_chain)
            + "\n"@ + rule_line(rules.last(), n.table, n.output_chain) + "\n"@
    }
}

/// The script that installs `rules` and masquerades traffic to `targets`.
pub open spec fn script_text(n: NamesView, rules: Seq<NftRule>, targets: Seq<Ipv4Addr>) -> Seq<
    char,
> {
    header_text(n) + masquerade_text(n, targets) + rules_text(n, rules)
}

/// Every tunnel has all its rules among the rules of the list.
pub proof fn every_tunnel_has_its_rules(tunnels: Seq<TunnelView>, i: int, k: int)
    requires
        0 <= i < tunnels.len(),
        0 <= k < rules_on(route(tunnels[i])->Ok_0, tunnels[i].protocol).len(),
    ensures
        all_rules(tunnels).contains(rules_on(route(tunnels[i])->Ok_0, tunnels[i].protocol)[k]),
    decreases tunnels.len(),
{
    let before = tunnels.drop_last();
    let earlier = all_rules(before);
    let rule = rules_on(route(tunnels[i])->Ok_0, tunnels[i].protocol)[k];
    let all = all_rules(tunnels);
    if i < before.len() {
        assert(before[i] == tunnels[i]);
        every_tunnel_has_its_rules(before, i, k);
        let j = choose|j: int| 0 <= j < earlier.len() && earlier[j] == rule;
        assert(all[j] == rule);
    } else {
        assert(all[earlier.len() + k] == rule);
    }
}

/// The script holds the command for every rule, once for traffic from outside and once for traffic
/// of this host.
pub proof fn every_rule_is_installed(
    n: NamesView,
    rules: Seq<NftRule>,
    targets: Seq<Ipv4Addr>,
    i: int,
)
    requires
        0 <= i < rules.len(),
    ensures
        crate::text::has_piece(
            script_text(n, rules, targets),
            rule_line(rules[i], n.table, n.prerouting_chain) + "\n"@,
        ),
        crate::text::has_piece(
            script_text(n, rules, targets),
            rule_line(rules[i], n.table, n.output_chain) + "\n"@,
        ),
{
    let start = header_text(n) + masquerade_text(n, targets);
    lemma_rule_in_text(n, rules, i);
    lemma_piece_behind(
        start,
        rules_text(n, rules),
        rule_line(rules[i], n.table, n.prerouting_chain) + "\n"@,
    );
    lemma_piece_behind(
        start,
        rules_text(n, rules),
        rule_line(rules[i], n.table, n.output_chain) + "\n"@,
    );
}

/// The script holds the command that adds every target to the set of those that are masqueraded.
pub proof fn every_target_is_masqueraded(
    n: NamesView,
    rules: Seq<NftRule>,
    targets: Seq<Ipv4Addr>,
    i: int,
)
    requires
        0 <= i < targets.len(),
    ensures
        crate::text::has_piece(script_text(n, rules, targets), element_line(n, targets[i])),
{
    let line = element_line(n, targets[i]);
    let head = "add set ip "@ + n.table + " "@ + n.target_set
        + " { type ipv4_addr; flags interval; }\n"@;
    let tail = "add rule ip "@ + n.table + " "@ + n.postrouting_chain + " ip daddr @"@
        + n.target_set + " masquerade\n"@;
    let elements = elements_text(n, targets);
    lemma_element_in_text(n, targets, i);
    lemma_piece_behind(head, elements, line);
    lemma_piece_before(head + elements, tail, line);
    assert(masquerade_text(n, targets) =~= head + elements + tail);
    lemma_piece_behind(header_text(n), masquerade_text(n, targets), line);
    lemma_piece_before(
        header_text(n) + masquerade_text(n, targets),
        rules_text(n, rules),
        line,
    );
}

proof fn lemma_piece_behind(start: Seq<char>, text: Seq<char>, piece: Seq<char>)
    requires
        crate::text::has_piece(text, piece),
    ensures
        crate::text::has_piece(start + text, piece),
{
    let i = choose|i: int| #[trigger] crate::text::stands_at(text, piece, i);
    let at = start.len() + i;
    assert((start + text).subrange(at, at + piece.len()) =~= text.subrange(i, i + piece.len()));
    assert(crate::text::stands_at(start + text, piece, at));
}

proof fn lemma_piece_before(text: Seq<char>, end: Seq<char>, piece: Seq<char>)
    requires
        crate::text::has_piece(text, piece),
    ensures
        crate::text::has_piece(text + end, piece),
{
    let i = choose|i: int| #[trigger] crate::text::stands_at(text, piece, i);
    assert((text + end).subrange(i, i + piece.len()) =~= text.subrange(i, i + piece.len()));
    assert(crate::text::stands_at(text + end, piece, i));
}

proof fn lemma_rule_in_text(n: NamesView, rules: Seq<NftRule>, i: int)
    requires
        0 <= i < rules.len(),
    ensures
        crate::text::has_piece(
            rules_text(n, rules),
            rule_line(rules[i], n.table, n.prerouting_chain) + "\n"@,
        ),
        crate::text::has_piece(
            rules_text(n, rules),
            rule_line(rules[i], n.table, n.output_chain) + "\n"@,
        ),
    decreases rules.len(),
{
    let before = rules.drop_last();
    let earlier = rules_text(n, before);
    let incoming = rule_line(rules.last(), n.table, n.prerouting_chain) + "\n"@;
    let outgoing = rule_line(rules.last(), n.table, n.output_chain) + "\n"@;
    assert(rules_text(n, rules) =~= earlier + incoming + outgoing);
    if i < before.len() {
        assert(before[i] == rules[i]);
        lemma_rule_in_text(n, before, i);
        let a = rule_line(rules[i], n.table, n.prerouting_chain) + "\n"@;
        let b = rule_line(rules[i], n.table, n.output_chain) + "\n"@;
        lemma_piece_before(earlier, incoming, a);
        lemma_piece_before(earlier + incoming, outgoing, a);
        lemma_piece_before(earlier, incoming, b);
        lemma_piece_before(earlier + incoming, outgoing, b);
    } else {
        lemma_own_piece(incoming);
        lemma_own_piece(outgoing);
        lemma_piece_behind(earlier, incoming, incoming);
        lemma_piece_before(earlier + incoming, outgoing, incoming);
        lemma_piece_behind(earlier + incoming, outgoing, outgoing);
    }
}

proof fn lemma_element_in_text(n: NamesView, targets: Seq<Ipv4Addr>, i: int)
    requires
        0 <= i < targets.len(),
    ensures
        crate::text::has_piece(elements_text(n, targets), element_line(n, targets[i])),
    decreases targets.len(),
{
    let before = targets.drop_last();
    let earlier = elements_text(n, before);
    let own = element_line(n, targets.last());
    if i < before.len() {
        assert(before[i] == targets[i]);
        lemma_element_in_text(n, before, i);
        lemma_piece_before(earlier, own, element_line(n, targets[i]));
    } else {
        lemma_own_piece(own);
        lemma_piece_behind(earlier, own, own);
    }
}

proof fn lemma_own_piece(s: Seq<char>)
    ensures
        crate::text::has_piece(s, s),
{
    assert(s.subrange(0, s.len() as int) =~= s);
    assert(crate::text::stands_at(s, s, 0));
}

fn render_chain(table: &str, chain: &str, hook: &str) -> (r: String)
    ensures
        r@ == chain_line(table@, chain@, hook@),
{
    "add chain ip ".to_owned().concat(table).concat(" ").concat(chain).concat(hook)
}

impl NftRuleset {
    /// The rules for `tunnels`, and the addresses outside this host to masquerade, ascending.
    pub fn from_tunnels(tunnels: &Vec<TunnelConfig>, names: &NftNames) -> (r: Result<
        NftRuleset,
        NftError,
    >)
        ensures
            match r {
                Ok(ruleset) => {
                    &&& routes_fault(TunnelConfig::views(tunnels@)) is None
                    &&& ruleset.names@ == names@
                    &&& ruleset.rules@ == all_rules(TunnelConfig::views(tunnels@))
                    &&& ascending(ruleset.masquerade_targets@)
                    &&& ruleset.masquerade_targets@.to_set() == outside_targets(
                        TunnelConfig::views(tunnels@),
                    )
                },
                Err(e) => routes_fault(TunnelConfig::views(tunnels@)) == Some(e@),
            },
    {
        let ghost all = TunnelConfig::views(tunnels@);
        let mut rules: Vec<NftRule> = Vec::new();
        let mut targets: Vec<Ipv4Addr> = Vec::new();
        let mut i: usize = 0;
        assert(all.take(0) =~= seq![]);
        assert(targets@.to_set() =~= Set::empty());
        while i < tunnels.len()
            invariant
                i <= tunnels.len(),
                all == TunnelConfig::views(tunnels@),
                routes_fault(all.take(i as int)) is None,
                rules@ == all_rules(all.take(i as int)),
                ascending(targets@),
                targets@.to_set() == outside_targets(all.take(i as int)),
            decreases tunnels.len() - i,
        {
            let ghost next = all.take(i + 1);
            assert(next.drop_last() =~= all.take(i as int));
            assert(next.last() == tunnels@[i as int]@);
            match route_of(&tunnels[i]) {
                Err(e) => {
                    proof {
                        lemma_routes_fault_stays(all, i + 1);
                    }
                    return Err(e);
                },
                Ok((listen_ip, listen_port, target_ip, target_port)) => {
                    let ghost before = rules@;
                    let ghost r = Route { listen_ip, listen_port, target_ip, target_port };
                    if tunnels[i].protocol.supports_tcp() {
                        rules.push(
                            NftRule::Tcp { listen_ip, listen_port, target_ip, target_port },
                        );
                    }
                    if tunnels[i].protocol.supports_udp() {
                        rules.push(
                            NftRule::Udp { listen_ip, listen_port, target_ip, target_port },
                        );
                    }
                    assert(rules@ =~= before + rules_on(r, tunnels@[i as int]@.protocol));
                    if !target_ip.is_loopback() {
                        insert_target(&mut targets, target_ip);
                    }
                },
            }
            i = i + 1;
        }
        assert(all.take(i as int) =~= all);
        Ok(NftRuleset { names: names.clone(), rules, masquerade_targets: targets })
    }

    /// Whether there is no rule.
    pub fn is_empty(&self) -> (r: bool)
        ensures
            r == (self.rules@.len() == 0),
    {
        self.rules.len() == 0
    }

    /// The script that installs the rules.
    pub fn render_script(&self) -> (r: String)
        ensures
            r@ == script_text(self.names@, self.rules@, self.masquerade_targets@),
    {
        let ghost n = self.names@;
        let table = self.names.table.as_str();
        let mut script = "add table ip ".to_owned().concat(table).concat("\n").concat(
            render_chain(
                table,
                self.names.prerouting_chain.as_str(),
                " { type nat hook prerouting priority -100; }\n",
            ).as_str(),
        ).concat(
            render_chain(
                table,
                self.names.output_chain.as_str(),
                " { type nat hook output priority -100; }\n",
            ).as_str(),
        ).concat(
            render_chain(
                table,
                self.names.postrouting_chain.as_str(),
                " { type nat hook postrouting priority 100; }\n",
            ).as_str(),
        );
        script.append(self.render_masquerade().as_str());
        let ghost start = script@;
        let mut i: usize = 0;
        assert(self.rules@.take(0) =~= seq![]);
        assert(start + seq![] =~= start);
        while i < self.rules.len()
            invariant
                i <= self.rules.len(),
                n == self.names@,
                table@ == n.table,
                script@ == start + rules_text(n, self.rules@.take(i as int)),
            decreases self.rules.len() - i,
        {
            let ghost before = script@;
            let ghost next = self.rules@.take(i + 1);
            let incoming = self.rules[i].render(table, self.names.prerouting_chain.as_str());
            let outgoing = self.rules[i].render(table, self.names.output_chain.as_str());
            script.append(incoming[0].as_str());
            script.append("\n");
            script.append(outgoing[0].as_str());
            script.append("\n");
            assert(next.drop_last() =~= self.rules@.take(i as int));
            assert(next.last() == self.rules@[i as int]);
            assert(script@ =~= start + rules_text(n, next));
            i = i + 1;
        }
        assert(self.rules@.take(i as int) =~= self.rules@);
        script
    }

    fn render_masquerade(&self) -> (r: String)
        ensures
            r@ == masquerade_text(self.names@, self.masquerade_targets@),
    {
        if self.masquerade_targets.len() == 0 {
            let r = String::new();
            assert(r@ =~= seq![]);
            return r;
        }
        let ghost n = self.names@;
        let table = self.names.table.as_str();
        let set = self.names.target_set.as_str();
        let mut text = "add set ip ".to_owned().concat(table).concat(" ").concat(set).concat(
            " { type ipv4_addr; flags interval; }\n",
        );
        let ghost start = text@;
        let mut i: usize = 0;
        assert(self.masquerade_targets@.take(0) =~= seq![]);
        assert(start + seq![] =~= start);
        while i < self.masquerade_targets.len()
            invariant
                i <= self.masquerade_targets.len(),
                n == self.names@,
                table@ == n.table,
                set@ == n.target_set,
                text@ == start + elements_text(n, self.masquerade_targets@.take(i as int)),
            decreases self.masquerade_targets.len() - i,
        {
            let ghost next = self.masquerade_targets@.take(i + 1);
            let line = "add element ip ".to_owned().concat(table).concat(" ").concat(set).concat(
                " { ",
            ).concat(self.masquerade_targets[i].to_text().as_str()).concat(" }\n");
            text.append(line.as_str());
            assert(next.drop_last() =~= self.masquerade_targets@.take(i as int));
            assert(next.last() == self.masquerade_targets@[i as int]);
            assert(text@ =~= start + elements_text(n, next));
            i = i + 1;
        }
        assert(self.masquerade_targets@.take(i as int) =~= self.masquerade_targets@);
        text.concat("add rule ip ").concat(table).concat(" ").concat(
            self.names.postrouting_chain.as_str(),
        ).concat(" ip daddr @").concat(set).concat(" masquerade\n")
    }
}

/// Whether the tunnel `t` listens at the one address and leads to the other.
pub open spec fn leads(
    t: TunnelView,
    listen_ip: Ipv4Addr,
    listen_port: u16,
    target_ip: Ipv4Addr,
    target_port: u16,
) -> bool {
    &&& crate::addr::socket_addr(t.listen) == Some(
        SocketAddrView::V4 { ip: listen_ip, port: listen_port },
    )
    &&& crate::addr::socket_addr(t.target) == Some(
        SocketAddrView::V4 { ip: target_ip, port: target_port },
    )
}

/// Whether one of `tunnels` leads from the one address to the other and has the protocol
/// `transport`, or both.
pub open spec fn some_leads(
    tunnels: Seq<TunnelView>,
    transport: Protocol,
    listen_ip: Ipv4Addr,
    listen_port: u16,
    target_ip: Ipv4Addr,
    target_port: u16,
) -> bool {
    exists|i: int|
        0 <= i < tunnels.len() && leads(
            #[trigger] tunnels[i],
            listen_ip,
            listen_port,
            target_ip,
            target_port,
        ) && (tunnels[i].protocol == transport || tunnels[i].protocol == Protocol::Both)
}

/// A list has a rule of a transport between two addresses exactly where one of its tunnels leads
/// from the one to the other and forwards that transport: TCP where its protocol is TCP or both,
/// UDP where it is UDP or both.
pub proof fn rules_follow_the_protocols(
    tunnels: Seq<TunnelView>,
    listen_ip: Ipv4Addr,
    listen_port: u16,
    target_ip: Ipv4Addr,
    target_port: u16,
)
    requires
        routes_fault(tunnels) is None,
    ensures
        all_rules(tunnels).contains(
            NftRule::Tcp { listen_ip, listen_port, target_ip, target_port },
        ) <==> some_leads(
            tunnels,
            Protocol::Tcp,
            listen_ip,
            listen_port,
            target_ip,
            target_port,
        ),
        all_rules(tunnels).contains(
            NftRule::Udp { listen_ip, listen_port, target_ip, target_port },
        ) <==> some_leads(
            tunnels,
            Protocol::Udp,
            listen_ip,
            listen_port,
            target_ip,
            target_port,
        ),
    decreases tunnels.len(),
{
    let all = all_rules(tunnels);
    let tcp = NftRule::Tcp { listen_ip, listen_port, target_ip, target_port };
    let udp = NftRule::Udp { listen_ip, listen_port, target_ip, target_port };
    if tunnels.len() == 0 {
        assert(all =~= seq![]);
    } else {
        let before = tunnels.drop_last();
        let last = tunnels.last();
        let earlier = all_rules(before);
        let own = rules_on(route(last)->Ok_0, last.protocol);
        rules_follow_the_protocols(before, listen_ip, listen_port, target_ip, target_port);
        lemma_contains_concat(earlier, own, tcp);
        lemma_contains_concat(earlier, own, udp);
        lemma_some_leads(tunnels, Protocol::Tcp, listen_ip, listen_port, target_ip, target_port);
        lemma_some_leads(tunnels, Protocol::Udp, listen_ip, listen_port, target_ip, target_port);
        match last.protocol {
            Protocol::Tcp => {
                assert(own.len() == 1);
                assert(own[0] is Tcp);
                assert(own.contains(tcp) <==> own[0] == tcp);
                assert(!own.contains(udp));
            },
            Protocol::Udp => {
                assert(own.len() == 1);
                assert(own[0] is Udp);
                assert(own.contains(udp) <==> own[0] == udp);
                assert(!own.contains(tcp));
            },
            Protocol::Both => {
                assert(own.len() == 2);
                assert(own[0] is Tcp && own[1] is Udp);
                assert(own.contains(tcp) <==> own[0] == tcp);
                assert(own.contains(udp) <==> own[1] == udp);
            },
        }
    }
}

proof fn lemma_some_leads(
    tunnels: Seq<TunnelView>,
    transport: Protocol,
    listen_ip: Ipv4Addr,
    listen_port: u16,
    target_ip: Ipv4Addr,
    target_port: u16,
)
    requires
        tunnels.len() > 0,
    ensures
        some_leads(tunnels, transport, listen_ip, listen_port, target_ip, target_port) <==> {
            ||| some_leads(
                tunnels.drop_last(),
                transport,
                listen_ip,
                listen_port,
                target_ip,
                target_port,
            )
            ||| leads(tunnels.last(), listen_ip, listen_port, target_ip, target_port) && (
            tunnels.last().protocol == transport || tunnels.last().protocol == Protocol::Both)
        },
{
    let before = tunnels.drop_last();
    if some_leads(before, transport, listen_ip, listen_port, target_ip, target_port) {
        let i = choose|i: int|
            0 <= i < before.len() && leads(
                #[trigger] before[i],
                listen_ip,
                listen_port,
                target_ip,
                target_port,
            ) && (before[i].protocol == transport || before[i].protocol == Protocol::Both);
        assert(tunnels[i] == before[i]);
    }
    if some_leads(tunnels, transport, listen_ip, listen_port, target_ip, target_port) {
        let i = choose|i: int|
            0 <= i < tunnels.len() && leads(
                #[trigger] tunnels[i],
                listen_ip,
                listen_port,
                target_ip,
                target_port,
            ) && (tunnels[i].protocol == transport || tunnels[i].protocol == Protocol::Both);
        if i < before.len() {
            assert(before[i] == tunnels[i]);
        }
    }
    assert(tunnels[tunnels.len() - 1] == tunnels.last());
}

proof fn lemma_contains_concat<T>(a: Seq<T>, b: Seq<T>, x: T)
    ensures
        (a + b).contains(x) <==> a.contains(x) || b.contains(x),
{
    if a.contains(x) {
        let i = choose|i: int| 0 <= i < a.len() && a[i] == x;
        assert((a + b)[i] == x);
    }
    if b.contains(x) {
        let i = choose|i: int| 0 <= i < b.len() && b[i] == x;
        assert((a + b)[a.len() + i] == x);
    }
    if (a + b).contains(x) {
        let i = choose|i: int| 0 <= i < (a + b).len() && (a + b)[i] == x;
        if i < a.len() {
            assert(a[i] == x);
        } else {
            assert(b[i - a.len()] == x);
        }
    }
}

/// The rules of two lists are the rules of the one, then those of the other. A tunnel has one rule
/// for each transport that it forwards, TCP first, and no other.
pub proof fn rules_come_tunnel_by_tunnel(a: Seq<TunnelView>, b: Seq<TunnelView>, t: TunnelView)
    ensures
        all_rules(a + b) == all_rules(a) + all_rules(b),
        all_rules(seq![t]).len() == (if t.protocol == Protocol::Both {
            2nat
        } else {
            1nat
        }),
        t.protocol != Protocol::Udp ==> all_rules(seq![t])[0] is Tcp,
        t.protocol != Protocol::Tcp ==> all_rules(seq![t]).last() is Udp,
    decreases b.len(),
{
    let one = seq![t];
    assert(one.drop_last() =~= seq![]);
    assert(all_rules(one.drop_last()) =~= seq![]);
    assert(one.last() == t);
    let own = rules_on(route(t)->Ok_0, t.protocol);
    assert(all_rules(one) =~= own);
    if b.len() == 0 {
        assert(a + b =~= a);
        assert(all_rules(b) =~= seq![]);
        assert(all_rules(a) + all_rules(b) =~= all_rules(a));
    } else {
        rules_come_tunnel_by_tunnel(a, b.drop_last(), t);
        assert((a + b).drop_last() =~= a + b.drop_last());
        assert((a + b).last() == b.last());
        let last = rules_on(route(b.last())->Ok_0, b.last().protocol);
        assert(all_rules(a) + all_rules(b.drop_last()) + last =~= all_rules(a) + (all_rules(
            b.drop_last(),
        ) + last));
    }
}

/// A list is refused for its first tunnel that is: for an address that does not parse, for a listen
/// address of IPv6, for a target address of IPv6, or for the listen address `0.0.0.0`, in this
/// order. Where no tunnel is, it is not refused.
pub proof fn refusal_names_the_first_tunnel_without_route(tunnels: Seq<TunnelView>, k: int)
    requires
        0 <= k < tunnels.len(),
        routes_fault(tunnels.take(k)) is None,
    ensures
        ({
            let t = tunnels[k];
            let listen = crate::addr::socket_addr(t.listen);
            let target = crate::addr::socket_addr(t.target);
            let any = Ipv4Addr { a: 0, b: 0, c: 0, d: 0 };
            match (listen, target) {
                (Some(SocketAddrView::V6 { .. }), Some(_)) => routes_fault(tunnels) == Some(
                    NftFault::ListenNotV4 { address: t.listen },
                ),
                (
                    Some(SocketAddrView::V4 { .. }),
                    Some(SocketAddrView::V6 { .. }),
                ) => routes_fault(tunnels) == Some(NftFault::TargetNotV4 { address: t.target }),
                (Some(SocketAddrView::V4 { ip, .. }), Some(SocketAddrView::V4 { .. })) => if ip
                    == any {
                    routes_fault(tunnels) == Some(NftFault::ListenUnspecified { address: t.listen })
                } else {
                    routes_fault(tunnels.take(k + 1)) is None
                },
                _ => routes_fault(tunnels) == Some(NftFault::Address),
            }
        }),
        routes_fault(Seq::<TunnelView>::empty()) is None,
{
    let next = tunnels.take(k + 1);
    assert(next.drop_last() =~= tunnels.take(k));
    assert(next.last() == tunnels[k]);
    if routes_fault(next) is Some {
        lemma_routes_fault_stays(tunnels, k + 1);
    }
}

/// Whether the tunnel `t` leads to the address `ip`, at whichever port.
pub open spec fn targets_ip(t: TunnelView, ip: Ipv4Addr) -> bool {
    crate::addr::socket_addr(t.target) matches Some(SocketAddrView::V4 { ip: target, .. })
        && target == ip
}

/// The addresses to masquerade are the targets of the tunnels outside `127.0.0.0/8`, and no other.
pub proof fn outside_targets_are_masqueraded(tunnels: Seq<TunnelView>, ip: Ipv4Addr)
    requires
        routes_fault(tunnels) is None,
    ensures
        outside_targets(tunnels).contains(ip) <==> ip.a != 127 && exists|i: int|
            0 <= i < tunnels.len() && targets_ip(#[trigger] tunnels[i], ip),
    decreases tunnels.len(),
{
    if tunnels.len() > 0 {
        let before = tunnels.drop_last();
        outside_targets_are_masqueraded(before, ip);
        assert(tunnels.last() == tunnels[tunnels.len() - 1]);
        if outside_targets(before).contains(ip) {
            let i = choose|i: int|
                #![trigger before[i]]
                0 <= i < before.len() && targets_ip(before[i], ip);
            assert(tunnels[i] == before[i]);
        }
        if exists|i: int| 0 <= i < tunnels.len() && targets_ip(#[trigger] tunnels[i], ip) {
            let i = choose|i: int|
                0 <= i < tunnels.len() && targets_ip(#[trigger] tunnels[i], ip);
            if i < before.len() {
                assert(before[i] == tunnels[i]);
            }
        }
    }
}

/// Addresses ascend where each comes before all that follow it, octet by octet. None comes twice.
pub proof fn targets_ascend_octet_by_octet(s: Seq<Ipv4Addr>)
    ensures
        ascending(s) <==> forall|i: int, j: int|
            0 <= i < j < s.len() ==> {
                let x = #[trigger] s[i];
                let y = #[trigger] s[j];
                ||| x.a < y.a
                ||| x.a == y.a && x.b < y.b
                ||| x.a == y.a && x.b == y.b && x.c < y.c
                ||| x.a == y.a && x.b == y.b && x.c == y.c && x.d < y.d
            },
        ascending(s) ==> s.no_duplicates(),
{
    assert forall|i: int, j: int| 0 <= i < j < s.len() implies ((#[trigger] s[i]).bits() < (
    #[trigger] s[j]).bits() <==> {
        ||| s[i].a < s[j].a
        ||| s[i].a == s[j].a && s[i].b < s[j].b
        ||| s[i].a == s[j].a && s[i].b == s[j].b && s[i].c < s[j].c
        ||| s[i].a == s[j].a && s[i].b == s[j].b && s[i].c == s[j].c && s[i].d < s[j].d
    }) by {
        crate::addr::addresses_are_ordered_octet_by_octet(s[i], s[j]);
    }
    if ascending(s) {
        assert forall|i: int, j: int| 0 <= i < s.len() && 0 <= j < s.len() && i != j implies s[i]
            != s[j] by {
            if i < j {
                assert(s[i].bits() < s[j].bits());
            } else {
                assert(s[j].bits() < s[i].bits());
            }
        }
    }
}

/// The command for a rule names the transport of the rule, and holds its addresses so that they
/// read back: where traffic arrives, and where it goes.
pub proof fn rule_command_reads_back(
    listen_ip: Ipv4Addr,
    listen_port: u16,
    target_ip: Ipv4Addr,
    target_port: u16,
    table: Seq<char>,
    chain: Seq<char>,
)
    ensures
        ({
            let a = listen_ip.text();
            let b = crate::number::decimal(listen_port as nat);
            let c = target_ip.text() + ":"@ + crate::number::decimal(target_port as nat);
            let head = "add rule ip "@ + table + " "@ + chain + " ip daddr "@ + a;
            let tail = b + " dnat to "@ + c;
            &&& rule_line(
                NftRule::Tcp { listen_ip, listen_port, target_ip, target_port },
                table,
                chain,
            ) == head + " tcp dport "@ + tail
            &&& rule_line(
                NftRule::Udp { listen_ip, listen_port, target_ip, target_port },
                table,
                chain,
            ) == head + " udp dport "@ + tail
            &&& crate::addr::socket_addr(a + ":"@ + b) == Some(
                SocketAddrView::V4 { ip: listen_ip, port: listen_port },
            )
            &&& crate::addr::socket_addr(c) == Some(
                SocketAddrView::V4 { ip: target_ip, port: target_port },
            )
        }),
{
    crate::addr::socket_v4_reads_back(listen_ip, listen_port);
    crate::addr::socket_v4_reads_back(target_ip, target_port);
    let a = listen_ip.text();
    let b = crate::number::decimal(listen_port as nat);
    let c = target_ip.text() + ":"@ + crate::number::decimal(target_port as nat);
    let head = "add rule ip "@ + table + " "@ + chain + " ip daddr "@ + a;
    let tail = b + " dnat to "@ + c;
    assert(rule_line(
        NftRule::Tcp { listen_ip, listen_port, target_ip, target_port },
        table,
        chain,
    ) =~= head + " tcp dport "@ + tail);
    assert(rule_line(
        NftRule::Udp { listen_ip, listen_port, target_ip, target_port },
        table,
        chain,
    ) =~= head + " udp dport "@ + tail);
}

/// One more rule makes the script longer by its command for the chain before routing and its
/// command for the chain of this host's traffic, and by nothing else.
pub proof fn script_grows_rule_by_rule(
    n: NamesView,
    rules: Seq<NftRule>,
    rule: NftRule,
    targets: Seq<Ipv4Addr>,
)
    ensures
        script_text(n, rules.push(rule), targets) == script_text(n, rules, targets) + rule_line(
            rule,
            n.table,
            n.prerouting_chain,
        ) + "\n"@ + rule_line(rule, n.table, n.output_chain) + "\n"@,
{
    assert(rules.push(rule).drop_last() =~= rules);
    assert(script_text(n, rules.push(rule), targets) =~= script_text(n, rules, targets) + rule_line(
        rule,
        n.table,
        n.prerouting_chain,
    ) + "\n"@ + rule_line(rule, n.table, n.output_chain) + "\n"@);
}

/// Without rules, the script makes the table and its three chains. With addresses to masquerade, it
/// then makes the set of them and the rule for that set; each address is added in between.
pub proof fn script_without_rules(n: NamesView, targets: Seq<Ipv4Addr>)
    ensures
        ({
            let chains = "add table ip "@ + n.table + "\n"@ + ("add chain ip "@ + n.table + " "@
                + n.prerouting_chain + " { type nat hook prerouting priority -100; }\n"@) + (
            "add chain ip "@ + n.table + " "@ + n.output_chain
                + " { type nat hook output priority -100; }\n"@) + ("add chain ip "@ + n.table
                + " "@ + n.postrouting_chain + " { type nat hook postrouting priority 100; }\n"@);
            let set = "add set ip "@ + n.table + " "@ + n.target_set
                + " { type ipv4_addr; flags interval; }\n"@;
            let rule = "add rule ip "@ + n.table + " "@ + n.postrouting_chain + " ip daddr @"@
                + n.target_set + " masquerade\n"@;
            &&& script_text(n, seq![], seq![]) == chains
            &&& targets.len() > 0 ==> script_text(n, seq![], targets) == chains + set
                + elements_text(n, targets) + rule
        }),
        elements_text(n, seq![]) == Seq::<char>::empty(),
        forall|ip: Ipv4Addr| #[trigger]
            elements_text(n, targets.push(ip)) == elements_text(n, targets) + ("add element ip "@
                + n.table + " "@ + n.target_set + " { "@ + ip.text() + " }\n"@),
{
    let chains = "add table ip "@ + n.table + "\n"@ + ("add chain ip "@ + n.table + " "@
        + n.prerouting_chain + " { type nat hook prerouting priority -100; }\n"@) + (
    "add chain ip "@ + n.table + " "@ + n.output_chain
        + " { type nat hook output priority -100; }\n"@) + ("add chain ip "@ + n.table + " "@
        + n.postrouting_chain + " { type nat hook postrouting priority 100; }\n"@);
    let set = "add set ip "@ + n.table + " "@ + n.target_set
        + " { type ipv4_addr; flags interval; }\n"@;
    let rule = "add rule ip "@ + n.table + " "@ + n.postrouting_chain + " ip daddr @"@
        + n.target_set + " masquerade\n"@;
    assert(script_text(n, seq![], seq![]) =~= chains);
    if targets.len() > 0 {
        assert(script_text(n, seq![], targets) =~= chains + set + elements_text(n, targets) + rule);
    }
    assert forall|ip: Ipv4Addr| #[trigger]
        elements_text(n, targets.push(ip)) == elements_text(n, targets) + ("add element ip "@
            + n.table + " "@ + n.target_set + " { "@ + ip.text() + " }\n"@) by {
        assert(targets.push(ip).drop_last() =~= targets);
    }
}

/// The names end in the process id and the moment, in decimal, and say what they name.
pub proof fn names_tell_process_and_moment(pid: nat, unique: nat)
    ensures
        ({
            let ending = crate::number::decimal(pid) + "_"@ + crate::number::decimal(unique);
            let n = names_for(pid, unique);
            &&& n.table == "vorto_nat_"@ + ending
            &&& n.prerouting_chain == "vorto_pre_"@ + ending
            &&& n.output_chain == "vorto_out_"@ + ending
            &&& n.postrouting_chain == "vorto_post_"@ + ending
            &&& n.target_set == "vorto_targets_"@ + ending
        }),
{
}

/// Each refusal has its sentence, which ends in the address that is refused.
pub proof fn refusals_have_their_sentences(address: Seq<char>)
    ensures
        NftFault::Address.text() == "invalid socket address syntax"@,
        (NftFault::ListenNotV4 { address }).text()
            == "nft mode only supports IPv4 listen addresses: "@ + address,
        (NftFault::TargetNotV4 { address }).text()
            == "nft mode only supports IPv4 target addresses: "@ + address,
        (NftFault::ListenUnspecified { address }).text()
            == "nft mode requires a specific IPv4 listen address, not "@ + address,
{
}

} // verus!
