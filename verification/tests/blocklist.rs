use proxy_scanner::address::{IpAddress, Network};
use proxy_scanner::blocklist::{
    abuse_list, is_ip_in_cidr_list, load_abuse_ips, load_firehol_cidrs, network_list,
};

fn strings(lines: &[&str]) -> Vec<String> {
    lines.iter().map(|line| line.to_string()).collect()
}

fn v4(a: u8, b: u8, c: u8, d: u8) -> IpAddress {
    IpAddress::V4(u32::from_be_bytes([a, b, c, d]))
}

#[test]
fn abuse_list_reads_the_first_field() {
    let list = load_abuse_ips(&strings(&[
        "1.2.3.4,US,100",
        " 5.6.7.8 ,CN,90",
        "2001:db8::1",
        "",
        "not an address,US,1",
        "1.2.3.4.5,US,1",
        "01.2.3.5,US,1",
        "US,9.9.9.9,1",
    ]));
    assert_eq!(list.len(), 3);
    assert!(list.contains(v4(1, 2, 3, 4)));
    assert!(list.contains(v4(5, 6, 7, 8)));
    assert!(list.contains(IpAddress::V6(0x2001_0db8_0000_0000_0000_0000_0000_0001)));
    assert!(!list.contains(v4(9, 9, 9, 9)));
    assert!(!list.contains(v4(4, 3, 2, 1)));
}

#[test]
fn abuse_list_holds_an_address_once() {
    let once = load_abuse_ips(&strings(&["1.2.3.4", "2001:db8::1"]));
    let often = load_abuse_ips(&strings(&[
        "2001:0db8:0:0::1,US,3",
        "1.2.3.4,US,1",
        "1.2.3.4,CN,2",
    ]));
    assert_eq!(once.len(), 2);
    assert_eq!(often.len(), 2);
    for ip in [v4(1, 2, 3, 4), IpAddress::V6(0x2001_0db8 << 96 | 1)] {
        assert!(once.contains(ip));
        assert!(often.contains(ip));
    }
}

#[test]
fn abuse_list_tells_the_families_apart() {
    let list = abuse_list(&vec![Some(IpAddress::V4(7)), None]);
    assert_eq!(list.len(), 1);
    assert!(list.contains(IpAddress::V4(7)));
    assert!(!list.contains(IpAddress::V6(7)));
}

#[test]
fn abuse_lists_unite() {
    let first = strings(&["1.1.1.1", "x"]);
    let second = strings(&["2.2.2.2", "1.1.1.1"]);
    let mut both = first.clone();
    both.extend(second.clone());
    let list = load_abuse_ips(&both);
    assert_eq!(list.len(), 2);
    for ip in [v4(1, 1, 1, 1), v4(2, 2, 2, 2), v4(3, 3, 3, 3)] {
        assert_eq!(
            list.contains(ip),
            load_abuse_ips(&first).contains(ip) || load_abuse_ips(&second).contains(ip)
        );
    }
    assert_eq!(load_abuse_ips(&vec![]).len(), 0);
}

#[test]
fn cidr_list_reads_networks_in_order() {
    let networks = load_firehol_cidrs(&strings(&[
        "# comment",
        " 10.0.0.0/8 ",
        "",
        "192.168.1.7/24",
        "8.8.8.8",
        "10.0.0.0/33",
        "2001:db8::/32",
    ]));
    assert_eq!(
        networks,
        [
            Network {
                address: v4(10, 0, 0, 0),
                prefix: 8
            },
            Network {
                address: v4(192, 168, 1, 7),
                prefix: 24
            },
            Network {
                address: v4(8, 8, 8, 8),
                prefix: 32
            },
            Network {
                address: IpAddress::V6(0x2001_0db8 << 96),
                prefix: 32
            },
        ]
    );
}

#[test]
fn cidr_lists_follow_each_other() {
    let a = Network {
        address: v4(10, 0, 0, 0),
        prefix: 8,
    };
    let b = Network {
        address: v4(11, 0, 0, 0),
        prefix: 8,
    };
    assert_eq!(network_list(&vec![None, Some(b), Some(a), None]), [b, a]);
    let first = strings(&["11.0.0.0/8"]);
    let second = strings(&["?", "10.0.0.0/8"]);
    let mut both = first.clone();
    both.extend(second.clone());
    let mut expected = load_firehol_cidrs(&first);
    expected.extend(load_firehol_cidrs(&second));
    assert_eq!(load_firehol_cidrs(&both), expected);
    assert_eq!(expected, [b, a]);
}

#[test]
fn networks_hold_the_addresses_with_their_prefix() {
    let inner = [Network {
        address: v4(192, 168, 1, 7),
        prefix: 24,
    }];
    assert!(is_ip_in_cidr_list(v4(192, 168, 1, 0), &inner));
    assert!(is_ip_in_cidr_list(v4(192, 168, 1, 255), &inner));
    assert!(!is_ip_in_cidr_list(v4(192, 168, 2, 0), &inner));
    assert!(!is_ip_in_cidr_list(v4(192, 168, 0, 255), &inner));
    let outer = [Network {
        address: v4(192, 168, 0, 0),
        prefix: 16,
    }];
    assert!(is_ip_in_cidr_list(v4(192, 168, 1, 255), &outer));
    assert!(is_ip_in_cidr_list(v4(192, 168, 2, 0), &outer));
}

#[test]
fn networks_of_long_addresses() {
    let wide = [Network {
        address: IpAddress::V6(0x2001_0db8 << 96),
        prefix: 33,
    }];
    assert!(is_ip_in_cidr_list(
        IpAddress::V6(0x2001_0db8_7fff << 80),
        &wide
    ));
    assert!(!is_ip_in_cidr_list(
        IpAddress::V6(0x2001_0db8_8000 << 80),
        &wide
    ));
    assert!(!is_ip_in_cidr_list(v4(32, 1, 13, 184), &wide));
}

#[test]
fn an_empty_prefix_holds_the_family_and_a_full_one_an_address() {
    let all_v4 = [Network {
        address: v4(1, 2, 3, 4),
        prefix: 0,
    }];
    assert!(is_ip_in_cidr_list(v4(255, 255, 255, 255), &all_v4));
    assert!(is_ip_in_cidr_list(v4(0, 0, 0, 0), &all_v4));
    assert!(!is_ip_in_cidr_list(IpAddress::V6(0), &all_v4));
    let all_v6 = [Network {
        address: IpAddress::V6(5),
        prefix: 0,
    }];
    assert!(is_ip_in_cidr_list(IpAddress::V6(u128::MAX), &all_v6));
    let one = [Network {
        address: v4(1, 2, 3, 4),
        prefix: 32,
    }];
    assert!(is_ip_in_cidr_list(v4(1, 2, 3, 4), &one));
    assert!(!is_ip_in_cidr_list(v4(1, 2, 3, 5), &one));
    let one_v6 = [Network {
        address: IpAddress::V6(6),
        prefix: 128,
    }];
    assert!(is_ip_in_cidr_list(IpAddress::V6(6), &one_v6));
    assert!(!is_ip_in_cidr_list(IpAddress::V6(7), &one_v6));
}

#[test]
fn a_network_with_too_long_a_prefix_holds_nothing() {
    let none = [Network {
        address: v4(1, 2, 3, 4),
        prefix: 33,
    }];
    assert!(!is_ip_in_cidr_list(v4(1, 2, 3, 4), &none));
    assert!(!is_ip_in_cidr_list(v4(1, 2, 3, 4), &[]));
}
