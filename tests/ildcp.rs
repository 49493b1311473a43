use ilp_node::address::{Address, Username};
use ilp_node::packet::{ErrorCode, IldcpResponse, Prepare, peer_protocol_condition, ILDCP_DESTINATION};
use ilp_node::service::{IncomingRequest, IncomingService, RoutingRelation};
use ilp_node::test_helpers::{test_service, TestAccount};

fn username_acc() -> TestAccount {
    TestAccount::new(0, "ausername", None, RoutingRelation::Child)
}

fn ilpaddr_acc() -> TestAccount {
    TestAccount::new(0, "anotherusername", Some("example.account"), RoutingRelation::Peer)
}

fn ildcp_prepare() -> Prepare {
    Prepare {
        destination: Address::parse(ILDCP_DESTINATION).unwrap(),
        amount: 100,
        execution_condition: peer_protocol_condition(),
        expires_at: 0,
        data: vec![],
    }
}

fn expected_data(address: &str) -> Vec<u8> {
    IldcpResponse {
        client_address: Address::parse(address).unwrap(),
        asset_scale: 9,
        asset_code: "XYZ".to_string(),
    }
    .to_bytes()
}

#[test]
fn appends_username() {
    let mut service = test_service();
    let result = service.handle_request(IncomingRequest {
        from: username_acc(),
        prepare: ildcp_prepare(),
    });
    let fulfill = result.unwrap();
    let response = IldcpResponse::from_bytes(&fulfill.data).unwrap();
    assert_eq!(
        Address::parse("example.connector.ausername").unwrap(),
        response.client_address
    );
}

#[test]
fn overrides_with_ilp_address() {
    let mut service = test_service();
    let result = service.handle_request(IncomingRequest {
        from: ilpaddr_acc(),
        prepare: ildcp_prepare(),
    });
    let fulfill = result.unwrap();
    let response = IldcpResponse::from_bytes(&fulfill.data).unwrap();
    assert_eq!(Address::parse("example.account").unwrap(), response.client_address);
}

#[test]
fn child_address_ignores_stored_address() {
    let mut account = username_acc();
    account.ilp_address = Address::parse("example.elsewhere").unwrap();
    let mut service = test_service();
    let fulfill = service
        .handle_request(IncomingRequest { from: account, prepare: ildcp_prepare() })
        .unwrap();
    assert_eq!(expected_data("example.connector.ausername"), fulfill.data);
    assert_eq!(fulfill.fulfillment, [0u8; 32]);
}

#[test]
fn response_bytes_are_exact() {
    let data = expected_data("example.account");
    let mut expected = vec![15u8];
    expected.extend_from_slice(b"example.account");
    expected.push(9);
    expected.push(3);
    expected.extend_from_slice(b"XYZ");
    assert_eq!(data, expected);
}

#[test]
fn long_fields_take_long_length_prefix() {
    let code = "C".repeat(200);
    let data = IldcpResponse {
        client_address: Address::parse("g.a").unwrap(),
        asset_scale: 2,
        asset_code: code.clone(),
    }
    .to_bytes();
    let mut expected = vec![3u8, b'g', b'.', b'a', 2, 0x81, 200];
    expected.extend_from_slice(code.as_bytes());
    assert_eq!(data, expected);
}

#[test]
fn other_requests_are_forwarded() {
    let mut service = test_service();
    let mut prepare = ildcp_prepare();
    prepare.destination = Address::parse("example.somebody").unwrap();
    let reject = service
        .handle_request(IncomingRequest { from: ilpaddr_acc(), prepare })
        .unwrap_err();
    assert_eq!(reject.code, ErrorCode::F02Unreachable);
    assert_eq!(reject.message, "No other incoming handler!");
    assert_eq!(reject.triggered_by.unwrap().as_str(), "example.connector");
}

#[test]
fn wrong_condition_is_forwarded() {
    let mut service = test_service();
    let mut prepare = ildcp_prepare();
    prepare.execution_condition[0] = 0;
    let reject = service
        .handle_request(IncomingRequest { from: username_acc(), prepare })
        .unwrap_err();
    assert_eq!(reject.code, ErrorCode::F02Unreachable);
}

#[test]
fn invalid_child_address_is_rejected() {
    let account = TestAccount {
        id: 7,
        username: Username::parse(&"u".repeat(1010)).unwrap(),
        ilp_address: Address::parse("example.x").unwrap(),
        routing_relation: RoutingRelation::Child,
    };
    let mut service = test_service();
    let reject = service
        .handle_request(IncomingRequest { from: account, prepare: ildcp_prepare() })
        .unwrap_err();
    assert_eq!(reject.code, ErrorCode::T00InternalError);
    assert_eq!(reject.triggered_by.unwrap().as_str(), "example.connector");
}

#[test]
fn provisioning_twice_gives_same_bytes() {
    let mut service = test_service();
    let first = service
        .handle_request(IncomingRequest { from: username_acc(), prepare: ildcp_prepare() })
        .unwrap();
    let second = service
        .handle_request(IncomingRequest { from: username_acc(), prepare: ildcp_prepare() })
        .unwrap();
    assert_eq!(first.data, second.data);
    assert_eq!(first.fulfillment, second.fulfillment);
}

#[test]
fn decodes_what_it_encodes() {
    let data = IldcpResponse {
        client_address: Address::parse("g.node.child").unwrap(),
        asset_scale: 6,
        asset_code: "€".repeat(50),
    }
    .to_bytes();
    let response = IldcpResponse::from_bytes(&data).unwrap();
    assert_eq!(response.client_address.as_str(), "g.node.child");
    assert_eq!(response.asset_scale, 6);
    assert_eq!(response.asset_code, "€".repeat(50));
}

#[test]
fn refuses_malformed_responses() {
    assert!(IldcpResponse::from_bytes(&[]).is_none());
    // length runs past the end
    assert!(IldcpResponse::from_bytes(&[5, b'g', b'.', b'a', 2, 0]).is_none());
    // trailing byte
    assert!(IldcpResponse::from_bytes(&[3, b'g', b'.', b'a', 2, 0, 7]).is_none());
    // non-shortest length prefix
    assert!(IldcpResponse::from_bytes(&[0x81, 3, b'g', b'.', b'a', 2, 0]).is_none());
    // address that is not valid
    assert!(IldcpResponse::from_bytes(&[3, b'g', b'.', b'.', 2, 0]).is_none());
    assert!(IldcpResponse::from_bytes(&[3, b'g', b'.', b'a', 2, 0]).is_some());
}
