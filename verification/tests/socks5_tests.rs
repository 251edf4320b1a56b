use rust_socksd::auth::{outcome_granted, AuthError};
use rust_socksd::config::{Config, UserCredentials};
use rust_socksd::socks5::{
    decode_address, decode_response, encode_response, first_resolved, parse_request_header,
    port_from_be, select_auth_method, Address, AddressType, AuthMethod, Command, Socks5Action,
    Socks5Handler, Socks5Request, Socks5Response, Socks5State,
};

fn no_auth_config() -> Config {
    Config::default()
}

fn auth_config() -> Config {
    let mut config = Config::default();
    config.auth.enabled = true;
    config.auth.users.push(UserCredentials {
        username: "alice".to_string(),
        password: "secret".to_string(),
    });
    config
}

#[test]
fn connect_no_auth_success_flow() {
    // Greeting 05 01 00, request 05 01 00 01 7F 00 00 01 00 50.
    let mut handler = Socks5Handler::new(no_auth_config());
    let action = handler.handle_greeting(0x05, 1, &vec![0x00]);
    match action {
        Socks5Action::Send(reply) => assert_eq!(reply, vec![0x05, 0x00]),
        _ => panic!("expected a selection reply"),
    }
    assert_eq!(handler.state, Socks5State::AwaitRequest);

    let (command, atype) = parse_request_header(0x05, 0x01, 0x01).unwrap();
    assert_eq!(command, Command::Connect);
    assert_eq!(atype, AddressType::IPv4);
    let address = decode_address(atype, vec![0x7f, 0x00, 0x00, 0x01]).unwrap();
    let port = port_from_be(0x00, 0x50);
    assert_eq!(port, 80);

    let action = handler.handle_request_frame(Socks5Request { command, address, port });
    match action {
        Socks5Action::Resolve(addr, p) => {
            assert_eq!(addr, Address::IPv4(vec![127, 0, 0, 1]));
            assert_eq!(p, 80);
        }
        _ => panic!("expected resolution"),
    }

    let action = handler.handle_resolved(Some((Address::IPv4(vec![127, 0, 0, 1]), 80)));
    match action {
        Socks5Action::Connect(addr, p) => {
            assert_eq!(addr, Address::IPv4(vec![127, 0, 0, 1]));
            assert_eq!(p, 80);
        }
        _ => panic!("expected outbound connect"),
    }

    let action = handler.handle_connected(Some((Address::IPv4(vec![10, 0, 0, 9]), 4242)));
    match action {
        Socks5Action::Send(reply) => {
            // 05 00 00 01 <local ip> <local port>
            assert_eq!(reply, vec![0x05, 0x00, 0x00, 0x01, 10, 0, 0, 9, 0x10, 0x92]);
        }
        _ => panic!("expected success reply"),
    }
    assert_eq!(handler.state, Socks5State::Relay);
}

#[test]
fn greeting_userpass_only_with_auth_disabled_is_refused() {
    // Client sends 05 01 02; server answers 05 FF and closes.
    let mut handler = Socks5Handler::new(no_auth_config());
    let action = handler.handle_greeting(0x05, 1, &vec![0x02]);
    match action {
        Socks5Action::SendAndClose(reply) => assert_eq!(reply, vec![0x05, 0xff]),
        _ => panic!("expected refusal"),
    }
    assert_eq!(handler.state, Socks5State::Closed);
}

#[test]
fn bind_request_gets_command_not_supported() {
    let mut handler = Socks5Handler::new(no_auth_config());
    handler.handle_greeting(0x05, 1, &vec![0x00]);
    let (command, atype) = parse_request_header(0x05, 0x02, 0x01).unwrap();
    assert_eq!(command, Command::Bind);
    let address = decode_address(atype, vec![0x7f, 0x00, 0x00, 0x01]).unwrap();
    let action = handler.handle_request_frame(Socks5Request { command, address, port: 80 });
    match action {
        Socks5Action::SendAndClose(reply) => {
            assert_eq!(reply, vec![0x05, 0x07, 0x00, 0x01, 0, 0, 0, 0, 0, 0]);
        }
        _ => panic!("expected command-not-supported reply"),
    }
    assert_eq!(handler.state, Socks5State::Closed);
}

#[test]
fn userpass_negotiation_reaches_request_state() {
    let mut handler = Socks5Handler::new(auth_config());
    let action = handler.handle_greeting(0x05, 2, &vec![0x00, 0x02]);
    match action {
        Socks5Action::Send(reply) => assert_eq!(reply, vec![0x05, 0x02]),
        _ => panic!("expected user/pass selection"),
    }
    assert_eq!(handler.state, Socks5State::AwaitSubAuth);

    let action = handler.handle_userpass(0x01, b"alice".to_vec(), b"secret".to_vec());
    let (username, password) = match action {
        Socks5Action::Authenticate(u, p) => (u, p),
        _ => panic!("expected an authentication request"),
    };
    let user = String::from_utf8(username).unwrap();
    let pass = String::from_utf8(password).unwrap();
    assert!(handler.validate_credentials(&user, &pass));

    let action = handler.handle_auth_result(true);
    match action {
        Socks5Action::Send(reply) => assert_eq!(reply, vec![0x01, 0x00]),
        _ => panic!("expected auth success status"),
    }
    assert_eq!(handler.state, Socks5State::AwaitRequest);
}

#[test]
fn denied_credentials_close_with_failure_status() {
    let mut handler = Socks5Handler::new(auth_config());
    handler.handle_greeting(0x05, 1, &vec![0x02]);
    handler.handle_userpass(0x01, b"alice".to_vec(), b"wrong".to_vec());
    assert!(!handler.validate_credentials("alice", "wrong"));
    let action = handler.handle_auth_result(false);
    match action {
        Socks5Action::SendAndClose(reply) => assert_eq!(reply, vec![0x01, 0x01]),
        _ => panic!("expected auth failure status"),
    }
    assert_eq!(handler.state, Socks5State::Closed);
}

#[test]
fn denied_and_infrastructure_failure_replies_are_identical() {
    let denied: Result<bool, AuthError> = Ok(false);
    let infra: Result<bool, AuthError> = Err(AuthError::BindFailed);
    assert_eq!(outcome_granted(&denied), outcome_granted(&infra));

    let mut h1 = Socks5Handler::new(auth_config());
    h1.handle_greeting(0x05, 1, &vec![0x02]);
    let r1 = h1.handle_auth_result(outcome_granted(&denied));
    let mut h2 = Socks5Handler::new(auth_config());
    h2.handle_greeting(0x05, 1, &vec![0x02]);
    let r2 = h2.handle_auth_result(outcome_granted(&infra));
    assert_eq!(r1, r2);
}

#[test]
fn wrong_version_or_empty_methods_close_silently() {
    let mut handler = Socks5Handler::new(no_auth_config());
    let action = handler.handle_greeting(0x04, 1, &vec![0x00]);
    assert_eq!(action, Socks5Action::Close);
    assert_eq!(handler.state, Socks5State::Closed);

    let mut handler = Socks5Handler::new(no_auth_config());
    let action = handler.handle_greeting(0x05, 0, &vec![]);
    assert_eq!(action, Socks5Action::Close);
}

#[test]
fn wrong_subauth_version_closes() {
    let mut handler = Socks5Handler::new(auth_config());
    handler.handle_greeting(0x05, 1, &vec![0x02]);
    let action = handler.handle_userpass(0x02, b"a".to_vec(), b"b".to_vec());
    assert_eq!(action, Socks5Action::Close);
    assert_eq!(handler.state, Socks5State::Closed);
}

#[test]
fn resolution_and_connect_failures_use_their_reply_codes() {
    let mut handler = Socks5Handler::new(no_auth_config());
    handler.handle_greeting(0x05, 1, &vec![0x00]);
    let (command, atype) = parse_request_header(0x05, 0x01, 0x03).unwrap();
    let address = decode_address(atype, b"nosuch.example".to_vec()).unwrap();
    handler.handle_request_frame(Socks5Request { command, address, port: 80 });
    let action = handler.handle_resolved(None);
    match action {
        Socks5Action::SendAndClose(reply) => {
            assert_eq!(reply, vec![0x05, 0x04, 0x00, 0x01, 0, 0, 0, 0, 0, 0]);
        }
        _ => panic!("expected host-unreachable reply"),
    }

    let mut handler = Socks5Handler::new(no_auth_config());
    handler.handle_greeting(0x05, 1, &vec![0x00]);
    let (command, atype) = parse_request_header(0x05, 0x01, 0x01).unwrap();
    let address = decode_address(atype, vec![127, 0, 0, 1]).unwrap();
    handler.handle_request_frame(Socks5Request { command, address, port: 81 });
    handler.handle_resolved(Some((Address::IPv4(vec![127, 0, 0, 1]), 81)));
    let action = handler.handle_connected(None);
    match action {
        Socks5Action::SendAndClose(reply) => {
            assert_eq!(reply, vec![0x05, 0x05, 0x00, 0x01, 0, 0, 0, 0, 0, 0]);
        }
        _ => panic!("expected connection-refused reply"),
    }
}

#[test]
fn response_round_trip_ipv4() {
    let resp = Socks5Response::new_success(Address::IPv4(vec![192, 168, 1, 2]), 8080);
    let bytes = encode_response(&resp);
    assert_eq!(bytes, vec![0x05, 0x00, 0x00, 0x01, 192, 168, 1, 2, 0x1f, 0x90]);
    let decoded = decode_response(&bytes).unwrap();
    assert_eq!(decoded, resp);
}

#[test]
fn response_round_trip_ipv6() {
    let octets: Vec<u8> = vec![0x20, 0x01, 0x0d, 0xb8, 0, 0, 0, 0, 0, 0, 0, 0, 0, 0, 0, 1];
    let resp = Socks5Response::new_success(Address::IPv6(octets.clone()), 443);
    let bytes = encode_response(&resp);
    assert_eq!(bytes.len(), 22);
    assert_eq!(bytes[3], 0x04);
    let decoded = decode_response(&bytes).unwrap();
    assert_eq!(decoded, resp);
}

#[test]
fn response_round_trip_domain() {
    let resp = Socks5Response {
        reply: 0x00,
        address: Address::DomainName(b"example.com".to_vec()),
        port: 65535,
    };
    let bytes = encode_response(&resp);
    assert_eq!(bytes[3], 0x03);
    assert_eq!(bytes[4], 11);
    assert_eq!(&bytes[5..16], b"example.com");
    assert_eq!(&bytes[16..], &[0xff, 0xff]);
    let decoded = decode_response(&bytes).unwrap();
    assert_eq!(decoded, resp);
}

#[test]
fn truncated_or_mangled_responses_do_not_decode() {
    assert!(decode_response(&vec![0x05, 0x00, 0x00]).is_none());
    assert!(decode_response(&vec![0x04, 0x00, 0x00, 0x01, 1, 2, 3, 4, 0, 80]).is_none());
    assert!(decode_response(&vec![0x05, 0x00, 0x01, 0x01, 1, 2, 3, 4, 0, 80]).is_none());
    assert!(decode_response(&vec![0x05, 0x00, 0x00, 0x01, 1, 2, 3, 4, 0]).is_none());
    assert!(decode_response(&vec![0x05, 0x00, 0x00, 0x02, 1, 2, 3, 4, 0, 80]).is_none());
}

#[test]
fn domain_address_must_be_utf8() {
    assert!(decode_address(AddressType::DomainName, vec![0xff, 0xfe]).is_none());
    let ok = decode_address(AddressType::DomainName, b"example.com".to_vec()).unwrap();
    assert_eq!(ok, Address::DomainName(b"example.com".to_vec()));
    assert!(decode_address(AddressType::IPv4, vec![1, 2, 3]).is_none());
    assert!(decode_address(AddressType::IPv6, vec![1, 2, 3, 4]).is_none());
}

#[test]
fn method_selection_follows_policy() {
    assert_eq!(select_auth_method(&vec![0x00, 0x02], true), AuthMethod::UserPass);
    assert_eq!(select_auth_method(&vec![0x00], true), AuthMethod::NoAcceptable);
    assert_eq!(select_auth_method(&vec![0x00, 0x02], false), AuthMethod::NoAuth);
    assert_eq!(select_auth_method(&vec![0x02], false), AuthMethod::NoAcceptable);
}

#[test]
fn wire_byte_conversions_match_the_rfc_tables() {
    assert_eq!(AuthMethod::from(0x00), AuthMethod::NoAuth);
    assert_eq!(AuthMethod::from(0x02), AuthMethod::UserPass);
    assert_eq!(AuthMethod::from(0x7f), AuthMethod::NoAcceptable);
    assert_eq!(Command::from(0x01), Command::Connect);
    assert_eq!(Command::from(0x02), Command::Bind);
    assert_eq!(Command::from(0x03), Command::UdpAssociate);
    assert_eq!(Command::from(0x09), Command::Connect);
    assert_eq!(AddressType::from(0x01), AddressType::IPv4);
    assert_eq!(AddressType::from(0x03), AddressType::DomainName);
    assert_eq!(AddressType::from(0x04), AddressType::IPv6);
    assert_eq!(AddressType::from(0x02), AddressType::DomainName);
    assert!(parse_request_header(0x04, 0x01, 0x01).is_none());
}

#[test]
fn unknown_command_and_address_type_bytes_are_rejected() {
    // Only CONNECT, BIND and UDP-ASSOCIATE exist; anything else is a
    // protocol violation, never tunnelled as a connect.
    assert!(parse_request_header(0x05, 0x00, 0x01).is_none());
    assert!(parse_request_header(0x05, 0x04, 0x01).is_none());
    assert!(parse_request_header(0x05, 0x09, 0x01).is_none());
    // Likewise only the three address-type bytes are framed.
    assert!(parse_request_header(0x05, 0x01, 0x00).is_none());
    assert!(parse_request_header(0x05, 0x01, 0x02).is_none());
    assert!(parse_request_header(0x05, 0x01, 0x05).is_none());
    assert!(parse_request_header(0x05, 0x02, 0x04).is_some());
}

#[test]
fn resolver_takes_the_first_address() {
    let ips = vec![Address::IPv4(vec![1, 2, 3, 4]), Address::IPv4(vec![5, 6, 7, 8])];
    assert_eq!(first_resolved(ips, 80), Some((Address::IPv4(vec![1, 2, 3, 4]), 80)));
    assert_eq!(first_resolved(Vec::new(), 80), None);
}
