use std::time::{Duration, Instant};

use wstp::{sys, Address, Environment, IpAddress, Link, LinkServer, Protocol};

const PORT: u16 = 11235;

#[test]
fn answer_of_the_transport_for_the_interface_is_read() {
    let answer = wstp::link_server::interface_from_answer;

    assert_eq!(answer(Some(b"127.0.0.1"), sys::WSEOK, None), Ok(IpAddress::V4(127, 0, 0, 1)));
    assert_eq!(answer(Some(b"::1"), sys::WSEOK, None), Ok(IpAddress::V6(0, 0, 0, 0, 0, 0, 0, 1)));

    // No text, or a code: the error carries the code.
    assert_eq!(answer(None, sys::WSEOK, None).unwrap_err().code(), Some(sys::WSEOK));
    assert_eq!(answer(None, 9, None).unwrap_err().to_string(), "WSTP error (code 9): WSTP error code 9 occurred.");
    assert_eq!(
        answer(Some(b"127.0.0.1"), 9, Some(String::from("failed"))).unwrap_err().to_string(),
        "WSTP error (code 9): failed"
    );

    // Bytes that are no text, and text that is no address: no code.
    let err = answer(Some(&[0x31, 0xff]), sys::WSEOK, None).unwrap_err();
    assert_eq!(err.code(), None);
    assert_eq!(
        err.to_string(),
        "WSTP error: LinkServer interface could not be converted to UTF-8 string \
         (error: invalid utf-8 sequence of 1 bytes from index 1, lossy: '1\u{fffd}')"
    );
    let err = answer(Some(&[0x31, 0x32, 0xe2, 0x82]), sys::WSEOK, None).unwrap_err();
    assert_eq!(
        err.to_string(),
        "WSTP error: LinkServer interface could not be converted to UTF-8 string \
         (error: incomplete utf-8 byte sequence from index 2, lossy: '12\u{fffd}')"
    );
    assert_eq!(
        wstp::link_server::interface_encoding_failure("why", "what").to_string(),
        "WSTP error: LinkServer interface could not be converted to UTF-8 string \
         (error: why, lossy: 'what')"
    );
    let err = answer(Some(b"localhost"), sys::WSEOK, None).unwrap_err();
    assert_eq!(
        err.to_string(),
        "WSTP error: unable to parse LinkServer interface (localhost) as IpAddr: invalid IP address syntax"
    );
}

#[test]
fn answer_of_the_transport_for_the_port_is_read() {
    let answer = wstp::link_server::port_from_answer;

    assert_eq!(answer(8080, sys::WSEOK, None), Ok(8080));
    assert_eq!(answer(8080, 1, None).unwrap_err().code(), Some(1));
}

/// Carries what `from` has written over to `to`, as the transport between
/// the two ends of a connection does.
fn carry(from: &mut Link, to: &mut Link) {
    while let Some(atom) = from.take_outgoing() {
        to.deliver(atom);
    }
}

#[test]
fn test_link_server_using_accept() {
    let mut env = Environment::new();

    let mut server = LinkServer::new(&mut env, PORT).unwrap();

    assert_eq!(server.try_port(), Ok(PORT));
    assert!(server.try_interface().is_ok());

    // Create a connection to the LinkServer, and exchange some data.
    let mut link = Link::connect_with_options(
        &mut env,
        Protocol::TCPIP,
        &PORT.to_string(),
        &["MLUseUUIDTCPIPConnection"],
    )
    .unwrap();
    server.attach(&link).unwrap();

    let mut conn: Link = server
        .accept()
        .expect("failed to wait for link server connection");

    conn.put_i64(0).unwrap();
    conn.flush().unwrap();
    carry(&mut conn, &mut link);

    assert_eq!(link.get_i64(), Ok(0));
    link.put_str("Done.").unwrap();
    link.flush().unwrap();
    carry(&mut link, &mut conn);

    assert_eq!(conn.get_string(), Ok("Done.".to_owned()));

    let before = Instant::now();
    server.close(&mut env);
    let after = Instant::now();

    assert!(after.duration_since(before) < Duration::from_millis(220));
}

#[test]
fn test_link_server_bind_and_accept() {
    let mut env = Environment::new();

    let addrs = [Address { host: String::from("127.0.0.1"), port: PORT }];

    let mut server = LinkServer::bind(&mut env, &addrs).unwrap();

    assert_eq!(server.try_port(), Ok(PORT));
    assert!(server.try_interface().is_ok());
    assert_eq!(server.try_interface(), Ok(IpAddress::V4(127, 0, 0, 1)));

    // Create a connection to the LinkServer, and exchange some data.
    let mut link = Link::connect_to_link_server(&mut env, &addrs).unwrap();
    server.attach(&link).unwrap();

    let mut conn: Link = server
        .accept()
        .expect("failed to wait for link server connection");

    assert_eq!(link.activate(), Ok(()));

    conn.put_i64(0).unwrap();
    conn.flush().unwrap();
    carry(&mut conn, &mut link);

    assert_eq!(link.get_i64(), Ok(0));
    link.put_str("Done.").unwrap();
    link.flush().unwrap();
    carry(&mut link, &mut conn);

    assert_eq!(conn.get_string(), Ok("Done.".to_owned()));

    let before = Instant::now();
    server.close(&mut env);
    let after = Instant::now();

    assert!(after.duration_since(before) < Duration::from_millis(220));
}

#[test]
fn test_link_server_bind_and_incoming() {
    let mut env = Environment::new();

    let addrs = [Address { host: String::from("127.0.0.1"), port: PORT }];

    let mut server = LinkServer::bind(&mut env, &addrs).unwrap();

    assert_eq!(server.try_port(), Ok(PORT));
    assert!(server.try_interface().is_ok());

    let mut link = Link::connect_to_link_server(&mut env, &addrs).unwrap();
    server.attach(&link).unwrap();

    let mut incoming = server.incoming();
    while let Some(conn) = incoming.next() {
        let mut conn = conn.unwrap();

        conn.put_i64(0).unwrap();
        conn.flush().unwrap();
        carry(&mut conn, &mut link);

        assert_eq!(link.get_i64(), Ok(0));
        link.put_str("Done.").unwrap();
        link.flush().unwrap();
        carry(&mut link, &mut conn);

        assert_eq!(conn.get_string(), Ok("Done.".to_owned()));

        // Only handle one connection.
        break;
    }
}

// Two servers on one port: the second is refused.
#[test]
fn link_server_port_is_taken_once() {
    let mut env = Environment::new();

    let a = LinkServer::new(&mut env, PORT).unwrap();
    let b = LinkServer::new(&mut env, PORT)
        .expect_err("multiple link servers bound to same port??");

    assert_eq!(b.code(), Some(sys::MLENAMETAKEN));
    assert_eq!(b.to_string(), "WSTP error (code 40): WSTP error code 40 occurred.");

    // Once the first server is closed, the port is free again.
    a.close(&mut env);
    assert!(LinkServer::new(&mut env, PORT).is_ok());
}

#[test]
fn link_server_bind_tries_each_address() {
    let mut env = Environment::new();

    let _first = LinkServer::new(&mut env, 4000).unwrap();

    let addrs = [
        Address { host: String::from("127.0.0.1"), port: 4000 },
        Address { host: String::from("::1"), port: 4001 },
        Address { host: String::from("127.0.0.1"), port: 4002 },
    ];
    let server = LinkServer::bind(&mut env, &addrs).unwrap();
    assert_eq!(server.port(), 4001);
    assert_eq!(server.interface(), IpAddress::V6(0, 0, 0, 0, 0, 0, 0, 1));

    // Every address is taken: the error of the last attempt comes back.
    let taken = [
        Address { host: String::from("127.0.0.1"), port: 4000 },
        Address { host: String::from("127.0.0.1"), port: 4001 },
    ];
    assert_eq!(
        LinkServer::bind(&mut env, &taken).unwrap_err().code(),
        Some(sys::WSENAMETAKEN)
    );

    // No address at all.
    let err = LinkServer::bind(&mut env, &[]).unwrap_err();
    assert_eq!(err.code(), None);
    assert_eq!(err.to_string(), "WSTP error: socket address list is empty");
}

#[test]
fn link_server_accepts_in_order_and_refuses_plain_links() {
    let mut env = Environment::new();
    let mut server = LinkServer::new(&mut env, 0).unwrap();

    // Nothing has arrived.
    assert!(!server.has_pending());
    assert_eq!(server.accept().unwrap_err().code(), Some(sys::WSEACCEPT));

    // A link that does not carry the marker of connections to servers.
    let plain = Link::connect(&mut env, Protocol::TCPIP, "1@localhost").unwrap();
    assert_eq!(server.attach(&plain).unwrap_err().code(), Some(sys::WSECONNECT));

    let addr_a = [Address { host: String::from("10.0.0.1"), port: 1 }];
    let addr_b = [Address { host: String::from("10.0.0.2"), port: 2 }];
    let a = Link::connect_to_link_server(&mut env, &addr_a).unwrap();
    let b = Link::connect_to_link_server(&mut env, &addr_b).unwrap();
    assert!(a.is_activated());
    server.attach(&a).unwrap();
    server.attach(&b).unwrap();
    assert!(server.has_pending());

    assert_eq!(server.accept().unwrap().link_name(), "1@10.0.0.1");

    // The callback of a server is handed the oldest connection.
    let mut seen = Vec::new();
    assert!(server.dispatch(|link: Link| seen.push(link.link_name())));
    assert_eq!(seen, vec![String::from("2@10.0.0.2")]);
    assert!(!server.dispatch(|_| panic!("no connection is left")));
}

#[test]
fn link_server_interface_must_be_an_ip_address() {
    let mut env = Environment::new();
    let addrs = [Address { host: String::from("localhost"), port: 9 }];
    let server = LinkServer::bind(&mut env, &addrs).unwrap();
    let err = server.try_interface().unwrap_err();
    assert_eq!(err.code(), None);
    assert_eq!(
        err.to_string(),
        "WSTP error: unable to parse LinkServer interface (localhost) as IpAddr: invalid IP address syntax"
    );
}

#[test]
fn connection_that_the_transport_accepted_waits_on_the_server() {
    let mut env = Environment::new();
    let mut server = LinkServer::new(&mut env, 0).unwrap();

    server.arrived("7@10.0.0.7");
    assert!(server.has_pending());

    let conn = server.accept().unwrap();
    assert_eq!(conn.link_name(), "7@10.0.0.7");
    assert_eq!(conn.protocol(), Some(Protocol::TCPIP));
    assert!(conn.is_activated());
    assert!(!server.has_pending());
}
