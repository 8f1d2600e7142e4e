//! The shell commands that set up and tear down the firewall rules and host
//! entries for a set of proxied services.

use vstd::prelude::*;
use crate::text::{push_str, string_push, u64_to_string, nat_decimal};

verus! {

/// The iptables flag that adds (`A`) or deletes (`D`) a rule.
pub open spec fn add_or_delete(delete: bool) -> Seq<char> {
    if delete { seq!['D'] } else { seq!['A'] }
}

/// The iptables flag that inserts (`I`) or deletes (`D`) a rule.
pub open spec fn insert_or_delete(delete: bool) -> Seq<char> {
    if delete { seq!['D'] } else { seq!['I'] }
}

/// The rule that lets traffic through to one proxy port.
pub open spec fn forward_rule1_spec(delete: bool, port: u16) -> Seq<char> {
    "iptables -"@ + add_or_delete(delete) + " FORWARD -p tcp -d localhost --dport "@ + nat_decimal(port as nat)
        + " -j ACCEPT\n"@
}

/// The rule that lets traffic through to several proxy ports.
pub open spec fn forward_rule_spec(delete: bool, ports: Seq<char>) -> Seq<char> {
    "iptables -"@ + add_or_delete(delete) + " FORWARD -p tcp -d localhost --match multiport --dports "@ + ports
        + " -j ACCEPT\n"@
}

/// The rules that send a network's traffic to a proxy port; setting up also
/// lets the network route to the loopback address.
pub open spec fn prerouting_rule_spec(delete: bool, network_name: Seq<char>, port: u16) -> Seq<char> {
    let s = "iptables -t nat -"@ + insert_or_delete(delete) + " PREROUTING -i "@ + network_name
        + " -p tcp -j DNAT --to-destination 127.0.0.1:"@ + nat_decimal(port as nat) + seq!['\n'];
    if delete {
        s
    } else {
        s + "sysctl -w net.ipv4.conf."@ + network_name + ".route_localnet=1\n"@
    }
}

/// An IPv4 address in dotted decimal.
pub open spec fn ipv4_text(ip: [u8; 4]) -> Seq<char> {
    nat_decimal(ip[0] as nat) + seq!['.'] + nat_decimal(ip[1] as nat) + seq!['.'] + nat_decimal(ip[2] as nat)
        + seq!['.'] + nat_decimal(ip[3] as nat)
}

/// The command that adds a host entry, or removes it.
pub open spec fn etc_hosts_rule_spec(delete: bool, ip: [u8; 4], hostname: Seq<char>) -> Seq<char> {
    if delete {
        "sed -i.bak '/"@ + ipv4_text(ip) + seq![' '] + hostname + "/d' /etc/hosts\n"@
    } else {
        "echo '"@ + ipv4_text(ip) + seq![' '] + hostname + "' >> /etc/hosts\n"@
    }
}

/// Decimal text of a port.
fn port_text(port: u16) -> (s: String)
    ensures
        s@ == nat_decimal(port as nat),
{
    u64_to_string(port as u64)
}

/// The rule that lets traffic through to one proxy port.
pub fn forward_rule1(delete: bool, port: u16) -> (s: String)
    ensures
        s@ == forward_rule1_spec(delete, port),
{
    let mut s = "iptables -".to_owned();
    string_push(&mut s, if delete { 'D' } else { 'A' });
    push_str(&mut s, " FORWARD -p tcp -d localhost --dport ");
    let p = port_text(port);
    push_str(&mut s, p.as_str());
    push_str(&mut s, " -j ACCEPT\n");
    s
}

/// The rule that lets traffic through to several proxy ports (`ports` is
/// their comma-separated list).
pub fn forward_rule(delete: bool, ports: &str) -> (s: String)
    ensures
        s@ == forward_rule_spec(delete, ports@),
{
    let mut s = "iptables -".to_owned();
    string_push(&mut s, if delete { 'D' } else { 'A' });
    push_str(&mut s, " FORWARD -p tcp -d localhost --match multiport --dports ");
    push_str(&mut s, ports);
    push_str(&mut s, " -j ACCEPT\n");
    s
}

/// The rules that send a network's traffic to a proxy port.
pub fn prerouting_rule(delete: bool, network_name: &str, port: u16) -> (s: String)
    ensures
        s@ == prerouting_rule_spec(delete, network_name@, port),
{
    let mut s = "iptables -t nat -".to_owned();
    string_push(&mut s, if delete { 'D' } else { 'I' });
    push_str(&mut s, " PREROUTING -i ");
    push_str(&mut s, network_name);
    push_str(&mut s, " -p tcp -j DNAT --to-destination 127.0.0.1:");
    let p = port_text(port);
    push_str(&mut s, p.as_str());
    string_push(&mut s, '\n');
    if !delete {
        push_str(&mut s, "sysctl -w net.ipv4.conf.");
        push_str(&mut s, network_name);
        push_str(&mut s, ".route_localnet=1\n");
    }
    s
}

/// An IPv4 address in dotted decimal.
pub fn ipv4_to_string(ip: [u8; 4]) -> (s: String)
    ensures
        s@ == ipv4_text(ip),
{
    let mut s = u64_to_string(ip[0] as u64);
    string_push(&mut s, '.');
    let b = u64_to_string(ip[1] as u64);
    push_str(&mut s, b.as_str());
    string_push(&mut s, '.');
    let c = u64_to_string(ip[2] as u64);
    push_str(&mut s, c.as_str());
    string_push(&mut s, '.');
    let d = u64_to_string(ip[3] as u64);
    push_str(&mut s, d.as_str());
    s
}

/// The command that adds a host entry (`ip hostname`), or removes it.
pub fn etc_hosts_rule(delete: bool, ip: [u8; 4], hostname: &str) -> (s: String)
    ensures
        s@ == etc_hosts_rule_spec(delete, ip, hostname@),
{
    let addr = ipv4_to_string(ip);
    if delete {
        let mut s = "sed -i.bak '/".to_owned();
        push_str(&mut s, addr.as_str());
        string_push(&mut s, ' ');
        push_str(&mut s, hostname);
        push_str(&mut s, "/d' /etc/hosts\n");
        s
    } else {
        let mut s = "echo '".to_owned();
        push_str(&mut s, addr.as_str());
        string_push(&mut s, ' ');
        push_str(&mut s, hostname);
        push_str(&mut s, "' >> /etc/hosts\n");
        s
    }
}

/// Ports joined by commas.
pub open spec fn port_list_text(ports: Seq<u16>) -> Seq<char>
    decreases ports.len(),
{
    if ports.len() == 0 {
        Seq::empty()
    } else if ports.len() == 1 {
        nat_decimal(ports[0] as nat)
    } else {
        port_list_text(ports.drop_last()) + seq![','] + nat_decimal(ports.last() as nat)
    }
}

/// Ports joined by commas.
pub fn port_list(ports: &[u16]) -> (s: String)
    ensures
        s@ == port_list_text(ports@),
{
    let mut s = String::new();
    let mut i: usize = 0;
    while i < ports.len()
        invariant
            i <= ports@.len(),
            s@ == port_list_text(ports@.take(i as int)),
        decreases ports.len() - i,
    {
        if i > 0 {
            string_push(&mut s, ',');
        }
        let p = port_text(ports[i]);
        push_str(&mut s, p.as_str());
        assert(ports@.take(i + 1).drop_last() == ports@.take(i as int));
        i = i + 1;
    }
    assert(ports@.take(ports@.len() as int) == ports@);
    s
}

/// The forwarding rules for the proxies' ports, to set up or to tear down:
/// one rule for a single port, a multiport rule for several, none for none.
pub open spec fn forward_rules_spec(delete: bool, ports: Seq<u16>) -> Seq<char> {
    if ports.len() == 1 {
        forward_rule1_spec(delete, ports[0])
    } else if ports.len() > 0 {
        forward_rule_spec(delete, port_list_text(ports))
    } else {
        Seq::empty()
    }
}

/// The forwarding rules for the proxies' ports (see `forward_rules_spec`).
pub fn forward_rules(delete: bool, ports: &[u16]) -> (s: String)
    ensures
        s@ == forward_rules_spec(delete, ports@),
{
    if ports.len() == 1 {
        forward_rule1(delete, ports[0])
    } else if ports.len() > 0 {
        let l = port_list(ports);
        forward_rule(delete, l.as_str())
    } else {
        String::new()
    }
}

} // verus!
