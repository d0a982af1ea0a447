use sslgame::interfaces::{
    contains_index, is_listed, plan_refresh, plan_sockets, InterfaceStatus, JoinRequest,
    NetworkInterface, NetworkInterfaceFlagExtension, RefreshPlan, SocketPlan,
};
use sslgame::net::IpAddress;

fn interface(index: u32, addr: Vec<IpAddress>, status: InterfaceStatus) -> NetworkInterface {
    NetworkInterface { index, name: format!("if{index}"), addr, status }
}

const IFF_UP: i16 = 0x1;
const IFF_MULTICAST: i16 = 0x1000;

fn unix(flags: i16) -> InterfaceStatus {
    InterfaceStatus::Unix { flags, up_mask: IFF_UP, multicast_mask: IFF_MULTICAST }
}

fn windows(adapter_flags: u32, oper_status: i32) -> InterfaceStatus {
    InterfaceStatus::Windows { adapter_flags, no_multicast_mask: 0x10, oper_status, up_status: 1 }
}

fn up_and_multicast() -> InterfaceStatus {
    unix(IFF_UP | IFF_MULTICAST | 0x40)
}

#[test]
fn masks_are_those_of_the_platform() {
    let elsewhere = |flags: i16| InterfaceStatus::Unix {
        flags,
        up_mask: 0x1,
        multicast_mask: 0x8000u16 as i16,
    };
    let high_bit = interface(1, vec![], elsewhere(0x8000u16 as i16 | 0x1));
    assert!(high_bit.is_up());
    assert!(high_bit.is_multicast());
    let low_bit = interface(1, vec![], elsewhere(0x1000 | 0x1));
    assert!(low_bit.is_up());
    assert!(!low_bit.is_multicast());
    let same_flags_here = interface(1, vec![], unix(0x8000u16 as i16 | 0x1));
    assert!(!same_flags_here.is_multicast());
    let other_status = interface(
        1,
        vec![],
        InterfaceStatus::Windows { adapter_flags: 0x20, no_multicast_mask: 0x20, oper_status: 7, up_status: 7 },
    );
    assert!(other_status.is_up());
    assert!(!other_status.is_multicast());
}

#[test]
fn unix_flags_are_read_bit_by_bit() {
    let both = interface(1, vec![], unix(0x1043));
    assert!(both.is_up());
    assert!(both.is_multicast());
    let down = interface(1, vec![], unix(0x1042));
    assert!(!down.is_up());
    assert!(down.is_multicast());
    let unicast = interface(1, vec![], unix(0x0043));
    assert!(unicast.is_up());
    assert!(!unicast.is_multicast());
    let negative = interface(1, vec![], unix(-1));
    assert!(negative.is_up());
    assert!(negative.is_multicast());
}

#[test]
fn windows_state_is_read_from_flags_and_status() {
    let fine = interface(1, vec![], windows(0x1c5, 1));
    assert!(fine.is_up());
    assert!(fine.is_multicast());
    let no_multicast =
        interface(1, vec![], windows(0x10, 1));
    assert!(no_multicast.is_up());
    assert!(!no_multicast.is_multicast());
    let down = interface(1, vec![], windows(0, 2));
    assert!(!down.is_up());
    assert!(down.is_multicast());
}

#[test]
fn failed_query_counts_as_down_and_unfit() {
    let unknown = interface(1, vec![], InterfaceStatus::Unknown);
    assert!(!unknown.is_up());
    assert!(!unknown.is_multicast());
}

#[test]
fn addresses_are_found_by_family() {
    let mixed = interface(
        1,
        vec![IpAddress::V6(7), IpAddress::V4(0x0a00_0001), IpAddress::V4(0x0a00_0002)],
        up_and_multicast(),
    );
    assert!(mixed.has_ipv6_address());
    assert_eq!(mixed.first_ipv4_address(), Some(0x0a00_0001));
    let old = interface(1, vec![IpAddress::V4(5)], up_and_multicast());
    assert!(!old.has_ipv6_address());
    let bare = interface(1, vec![], up_and_multicast());
    assert!(!bare.has_ipv6_address());
    assert_eq!(bare.first_ipv4_address(), None);
    assert!(IpAddress::V4(1).is_ipv4());
    assert!(!IpAddress::V4(1).is_ipv6());
    assert!(IpAddress::V6(1).is_ipv6());
    assert!(IpAddress::V4(1).same(&IpAddress::V4(1)));
    assert!(!IpAddress::V4(1).same(&IpAddress::V6(1)));
    assert!(!IpAddress::V6(1).same(&IpAddress::V6(2)));
}

#[test]
fn indices_are_looked_up() {
    assert!(contains_index(&vec![3, 1, 2], 2));
    assert!(!contains_index(&vec![3, 1, 2], 4));
    assert!(!contains_index(&vec![], 0));
    let listed = vec![interface(4, vec![], InterfaceStatus::Unknown), interface(6, vec![], InterfaceStatus::Unknown)];
    assert!(is_listed(&listed, 6));
    assert!(!is_listed(&listed, 5));
}

#[test]
fn memberships_are_asked_for_on_new_viable_interfaces() {
    let listed = vec![
        interface(1, vec![IpAddress::V6(1), IpAddress::V4(0x7f00_0001)], up_and_multicast()),
        interface(2, vec![IpAddress::V6(2)], up_and_multicast()),
        interface(3, vec![IpAddress::V4(3)], unix(IFF_UP)),
        interface(4, vec![IpAddress::V4(4)], InterfaceStatus::Unknown),
        interface(5, vec![IpAddress::V4(5)], up_and_multicast()),
        interface(6, vec![], up_and_multicast()),
        interface(7, vec![IpAddress::V6(7)], unix(IFF_MULTICAST)),
    ];
    assert_eq!(
        plan_refresh(&vec![5, 9], &listed),
        RefreshPlan {
            joins: vec![
                JoinRequest::V4 { interface_addr: 0x7f00_0001 },
                JoinRequest::V6 { interface_index: 2 },
            ],
            active: vec![1, 2, 5, 6],
        }
    );
    assert_eq!(plan_refresh(&vec![], &vec![]), RefreshPlan { joins: vec![], active: vec![] });
}

#[test]
fn sockets_follow_the_interfaces() {
    let listed = vec![
        interface(1, vec![IpAddress::V6(1)], up_and_multicast()),
        interface(2, vec![IpAddress::V6(2)], up_and_multicast()),
        interface(3, vec![IpAddress::V4(3)], up_and_multicast()),
        interface(4, vec![IpAddress::V6(4)], InterfaceStatus::Unknown),
        interface(5, vec![IpAddress::V6(5)], unix(IFF_UP)),
    ];
    assert_eq!(
        plan_sockets(&vec![8, 2, 4, 9], &listed),
        SocketPlan { keep: vec![2, 4], open: vec![1] }
    );
    assert_eq!(plan_sockets(&vec![], &listed), SocketPlan { keep: vec![], open: vec![1, 2] });
    assert_eq!(plan_sockets(&vec![1, 2], &vec![]), SocketPlan { keep: vec![], open: vec![] });
}
