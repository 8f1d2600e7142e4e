use armour_lang::graph::{ConnectionEdge, Info};
use armour_lang::launch::{
    etc_hosts_rule, forward_rule, forward_rule1, forward_rules, ipv4_to_string, port_list,
    prerouting_rule,
};
use armour_lang::pretty::{key, KeyClass};
use armour_lang::web::page;

#[test]
fn forward_rule_texts() {
    assert_eq!(
        forward_rule1(false, 8443),
        "iptables -A FORWARD -p tcp -d localhost --dport 8443 -j ACCEPT\n"
    );
    assert_eq!(
        forward_rule1(true, 0),
        "iptables -D FORWARD -p tcp -d localhost --dport 0 -j ACCEPT\n"
    );
    assert_eq!(
        forward_rule(false, "80,443"),
        "iptables -A FORWARD -p tcp -d localhost --match multiport --dports 80,443 -j ACCEPT\n"
    );
}

#[test]
fn prerouting_texts() {
    assert_eq!(
        prerouting_rule(false, "arm-net", 6002),
        "iptables -t nat -I PREROUTING -i arm-net -p tcp -j DNAT --to-destination 127.0.0.1:6002\n\
         sysctl -w net.ipv4.conf.arm-net.route_localnet=1\n"
    );
    assert_eq!(
        prerouting_rule(true, "arm-net", 6002),
        "iptables -t nat -D PREROUTING -i arm-net -p tcp -j DNAT --to-destination 127.0.0.1:6002\n"
    );
}

#[test]
fn hosts_texts() {
    assert_eq!(ipv4_to_string([10, 0, 255, 1]), "10.0.255.1");
    assert_eq!(
        etc_hosts_rule(false, [172, 18, 0, 2], "server"),
        "echo '172.18.0.2 server' >> /etc/hosts\n"
    );
    assert_eq!(
        etc_hosts_rule(true, [172, 18, 0, 2], "server"),
        "sed -i.bak '/172.18.0.2 server/d' /etc/hosts\n"
    );
}

#[test]
fn port_lists() {
    assert_eq!(port_list(&[]), "");
    assert_eq!(port_list(&[80]), "80");
    assert_eq!(port_list(&[80, 443, 65535]), "80,443,65535");
    assert_eq!(
        forward_rules(true, &[1, 2]),
        "iptables -D FORWARD -p tcp -d localhost --match multiport --dports 1,2 -j ACCEPT\n"
    );
}

#[test]
fn page_text() {
    assert_eq!(
        page("T", "<p>x</p>"),
        "\n<!DOCTYPE html>\n<html>\n<head>\n<title>T</title>\n</head>\n<body>\n<p>x</p>\n</body>\n</html>"
    );
}

#[test]
fn key_classes() {
    assert_eq!(key("let"), KeyClass::Keyword);
    assert_eq!(key("true"), KeyClass::Keyword);
    assert_eq!(key("if"), KeyClass::Control);
    assert_eq!(key("return"), KeyClass::Control);
    assert_eq!(key("foo"), KeyClass::Other);
    assert_eq!(key(""), KeyClass::Other);
}

#[test]
fn edge_labels() {
    let info = Info { label: "GET".to_string(), sent: 10 };
    let mut e = ConnectionEdge::from_info(&info);
    assert_eq!(e.label(), "GET (1); 10 bytes");
    e.update_with_info(&Info { label: "GET".to_string(), sent: 5 });
    e.update_with_info(&Info { label: "DELETE".to_string(), sent: 0 });
    assert_eq!(e.label(), "DELETE (1), GET (2); 15 bytes");
    e.update_with_received(5);
    assert_eq!(e.label(), "DELETE (1), GET (2); 20 bytes");
    let r = ConnectionEdge::from_received(7);
    assert_eq!(r.label(), "7 bytes");
    let z = ConnectionEdge::from_received(0);
    assert_eq!(z.label(), "");
    assert_eq!(info.label(), "GET");
    assert_eq!(info.sent(), 10);
}
