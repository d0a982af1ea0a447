use sslgame::net::{
    ssm_group_for_port, IpAddress, SocketAddress, BEACON_GROUP_V4, BEACON_GROUP_V6, BEACON_PORT,
    DATA_PORT, SSM_GROUP_BASE, VIS_AD_PORT,
};
use sslgame::transport::{
    adapter_matches, after_adapter_query, domain_for, request_name_len, socket_call_failed,
    AdapterQuery, BindAttempts, BindError, Domain,
};

#[test]
fn channels_have_their_well_known_places() {
    assert_eq!(BEACON_PORT, 11000);
    assert_eq!(DATA_PORT, 11001);
    assert_eq!(VIS_AD_PORT, 11002);
    assert_eq!(BEACON_GROUP_V4, u32::from_be_bytes([239, 1, 1, 1]));
    assert_eq!(BEACON_GROUP_V6 >> 112, 0xFF15);
    assert_eq!(BEACON_GROUP_V6 & 0xFFFF, 1);
    assert_eq!((BEACON_GROUP_V6 >> 16).to_be_bytes()[9..], *b"ERForce");
}

#[test]
fn data_group_is_derived_from_the_port() {
    assert_eq!(ssm_group_for_port(0), SSM_GROUP_BASE);
    assert_eq!(ssm_group_for_port(0), 0xFF35_0000_0000_0000_0000_0000_8000_0000);
    assert_eq!(ssm_group_for_port(8080), 0xFF35_0000_0000_0000_0000_0000_8000_1F90);
    assert_eq!(ssm_group_for_port(u16::MAX), 0xFF35_0000_0000_0000_0000_0000_8000_FFFF);
}

#[test]
fn socket_calls_fail_with_minus_one() {
    assert!(socket_call_failed(-1, -1));
    assert!(!socket_call_failed(0, -1));
    assert!(!socket_call_failed(3, -1));
    assert!(!socket_call_failed(-2, -1));
    assert!(socket_call_failed(-2, -2));
    assert!(!socket_call_failed(-1, -2));
}

#[test]
fn interface_names_leave_room_for_the_terminator() {
    assert_eq!(request_name_len(0, 16), 0);
    assert_eq!(request_name_len(4, 16), 4);
    assert_eq!(request_name_len(15, 16), 15);
    assert_eq!(request_name_len(16, 16), 15);
    assert_eq!(request_name_len(usize::MAX, 16), 15);
    assert_eq!(request_name_len(4, 4), 3);
    assert_eq!(request_name_len(4, 1), 0);
    assert_eq!(request_name_len(4, 0), 0);
    assert_eq!(request_name_len(usize::MAX, usize::MAX), usize::MAX - 1);
}

#[test]
fn adapter_queries_are_retried_on_overflow() {
    assert_eq!(after_adapter_query(0, 0, 111), AdapterQuery::Done);
    assert_eq!(after_adapter_query(111, 0, 111), AdapterQuery::Retry);
    assert_eq!(after_adapter_query(5, 0, 111), AdapterQuery::Failed(5));
    assert_eq!(after_adapter_query(0, 1, 2), AdapterQuery::Failed(0));
    assert_eq!(after_adapter_query(2, 1, 2), AdapterQuery::Retry);
    assert_eq!(after_adapter_query(7, 7, 7), AdapterQuery::Done);
    assert!(adapter_matches(3, 9, 3));
    assert!(adapter_matches(9, 3, 3));
    assert!(!adapter_matches(9, 9, 3));
}

#[test]
fn socket_family_follows_the_address() {
    let v4 = SocketAddress { ip: IpAddress::V4(0), port: 1, flowinfo: 0, scope_id: 0 };
    let v6 = SocketAddress { ip: IpAddress::V6(0), port: 1, flowinfo: 0, scope_id: 0 };
    assert_eq!(domain_for(&v4), Domain::Ipv4);
    assert_eq!(domain_for(&v6), Domain::Ipv6);
    assert!(v4.same(&v4.clone()));
    assert!(!v4.same(&v6));
    assert!(!v6.same(&SocketAddress { port: 2, ..v6 }));
    assert!(!v6.same(&SocketAddress { flowinfo: 2, ..v6 }));
    assert!(!v6.same(&SocketAddress { scope_id: 2, ..v6 }));
}

#[test]
fn first_candidate_that_binds_ends_the_search() {
    let mut attempts: BindAttempts<i32> = BindAttempts::new();
    assert!(!attempts.record(Err(13)));
    assert!(!attempts.record(Err(98)));
    assert!(attempts.record(Ok(())));
    assert!(attempts.record(Err(1)));
    assert!(attempts.record(Ok(())));
}

#[test]
fn search_without_success_reports_the_last_error() {
    let mut attempts: BindAttempts<i32> = BindAttempts::new();
    assert!(!attempts.record(Err(13)));
    assert!(!attempts.record(Err(98)));
    assert_eq!(attempts.give_up(), BindError::NoViableAddress { last: Some(98) });
}

#[test]
fn search_without_candidates_reports_none() {
    let attempts: BindAttempts<i32> = BindAttempts::new();
    assert_eq!(attempts.give_up(), BindError::NoViableAddress { last: None });
}
