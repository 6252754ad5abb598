use std::ops::ControlFlow;

use rand::{distributions::Alphanumeric, Rng};

use wstp::{sys, Address, Environment, Error, Link, Protocol, WaitStep};

fn random_link_name() -> String {
    rand::thread_rng()
        .sample_iter(&Alphanumeric)
        .take(7)
        .map(char::from)
        .collect()
}

/// Carries what `from` has written over to `to`, as the transport between
/// the two ends of a connection does.
fn pump(from: &mut Link, to: &mut Link) {
    while let Some(atom) = from.take_outgoing() {
        to.deliver(atom);
    }
}

/// Runs a wait with a callback to its end.
fn wait_with_callback<F>(link: &mut Link, mut callback: F) -> Result<bool, Error>
where
    F: FnMut(&mut Link) -> ControlFlow<()>,
{
    if link.is_waiting() {
        panic!("wait_with_callback: link is already being waited on with a callback");
    }
    link.wait_with_callback();
    let mut signal = None;
    loop {
        match link.wait_step(signal) {
            WaitStep::Finished(outcome) => return outcome,
            WaitStep::Call => signal = Some(callback(link)),
        }
    }
}

// Helper method to check that data can successfully be sent from `link_a` to `link_b`.
//
// This tests reading and writing from both ends of the link.
fn check_send_data_across_link(mut link_a: Link, mut link_b: Link) {
    link_a.activate().expect("failed to activate Listener side");
    link_b
        .activate()
        .expect("failed to activate Connector side");

    // Write an integer.
    link_a.put_i64(5).unwrap();
    link_a.flush().unwrap();
    pump(&mut link_a, &mut link_b);

    let got = link_b.get_i64().unwrap();
    assert_eq!(got, 5);

    link_b.put_f64_bits(f64::to_bits(3.1415)).unwrap();
    link_b.flush().unwrap();
    pump(&mut link_b, &mut link_a);

    // Read a f64 written by the other side.
    let got = f64::from_bits(link_a.get_f64_bits().unwrap());
    assert_eq!(got, 3.1415);

    {
        link_a.put_raw_type(i32::from(sys::WSTKFUNC)).unwrap();
        link_a.put_arg_count(2).unwrap();
        link_a.put_symbol("Sin").unwrap();
        link_a.put_f64_bits(f64::to_bits(1.0)).unwrap();

        link_a.flush().unwrap();
        pump(&mut link_a, &mut link_b);
    }

    {
        assert_eq!(link_b.get_raw_type(), Ok(i32::from(sys::WSTKFUNC)));
        assert_eq!(link_b.get_arg_count(), Ok(2));
        assert!(link_b.get_symbol_ref().unwrap().to_str() == "Sin");
        assert_eq!(link_b.get_f64_bits().map(f64::from_bits), Ok(1.0))
    }
}

//======================================
// IntraProcess
//======================================

#[test]
fn test_intra_process_links() {
    let mut env = Environment::new();

    let listener = Link::listen(&mut env, Protocol::IntraProcess, "").unwrap();

    let name = listener.link_name();

    let connector = Link::connect(&mut env, Protocol::IntraProcess, &name).unwrap();

    check_send_data_across_link(listener, connector);
}

/// A listening link within the process ignores the name that it is given,
/// and gets a name of its own. So the listener is created first, and then
/// asked for its name.
#[test]
fn test_bug_intra_process_device_ignored_linkname() {
    let mut env = Environment::new();

    let name: String = random_link_name();
    let listener = Link::listen(&mut env, Protocol::IntraProcess, &name).unwrap();
    assert!(name != listener.link_name())
}

//======================================
// SharedMemory
//======================================

/// Test the error code returned when a link already listens under a
/// particular name.
#[test]
fn test_shared_memory_name_taken_error() {
    const NAME: &str = "should-be-taken-2";

    let mut env = Environment::new();

    let _a = Link::listen(&mut env, Protocol::SharedMemory, NAME.into()).unwrap();
    let b = Link::listen(&mut env, Protocol::SharedMemory, NAME.into());

    assert_eq!(b.unwrap_err().code().unwrap(), sys::MLENAMETAKEN);
}

//======================================
// TCPIP
//======================================

#[test]
fn test_tcpip_links() {
    let mut env = Environment::new();

    let listener = Link::listen(&mut env, Protocol::TCPIP, "8080").unwrap();
    let connector = Link::connect(&mut env, Protocol::TCPIP, "8080").unwrap();

    check_send_data_across_link(listener, connector);
}

/// Test using the '@' character in the link name, which is parsed specially by the TCPIP
/// protocol.
#[test]
fn test_tcpip_links_host_syntax() {
    let mut env = Environment::new();

    {
        let listener = Link::listen(&mut env, Protocol::TCPIP, "8080@localhost").unwrap();
        let connector = Link::connect(&mut env, Protocol::TCPIP, "8080@localhost").unwrap();

        check_send_data_across_link(listener, connector);
    }

    // IPv4 localhost address
    {
        let listener = Link::listen(&mut env, Protocol::TCPIP, "8080@127.0.0.1").unwrap();
        let connector = Link::connect(&mut env, Protocol::TCPIP, "8080@127.0.0.1").unwrap();

        check_send_data_across_link(listener, connector);
    }

    // IPv6 localhost address
    {
        let listener = Link::listen(&mut env, Protocol::TCPIP, "8080@::1").unwrap();
        let connector = Link::connect(&mut env, Protocol::TCPIP, "8080@::1").unwrap();

        check_send_data_across_link(listener, connector);
    }
}

#[test]
fn test_tcpip_specific_link_creation_methods() {
    let mut env = Environment::new();

    // What "localhost:8080" resolves to.
    let addrs = [
        Address { host: String::from("::1"), port: 8080 },
        Address { host: String::from("127.0.0.1"), port: 8080 },
    ];

    let listener = Link::tcpip_listen(&mut env, &addrs).unwrap();
    let connector = Link::tcpip_connect(&mut env, &addrs).unwrap();

    assert_eq!(listener.link_name(), "8080@::1");
    assert_eq!(connector.link_name(), "8080@::1");

    check_send_data_across_link(listener, connector);
}

#[test]
fn test_bug_tcpip_listen_returns_unknown() {
    let mut env = Environment::new();

    assert_eq!(
        Link::listen(&mut env, Protocol::TCPIP, "8080@badhost")
            .unwrap_err()
            .code(),
        Some(sys::WSEUNKNOWN)
    );
}

//======================================
// Misc.
//======================================

//-------------------------------------
// Test wait() and wait_with_callback()
//-------------------------------------

#[test]
fn test_link_wait_with_callback() {
    let mut env = Environment::new();
    let mut listener = Link::listen(&mut env, Protocol::IntraProcess, "").unwrap();

    let mut counter = 0;

    wait_with_callback(&mut listener, |_: &mut Link| {
        counter += 1;

        if counter < 5 {
            std::ops::ControlFlow::Continue(())
        } else {
            std::ops::ControlFlow::Break(())
        }
    })
    .unwrap();

    assert_eq!(counter, 5);
}

//-----------------------------
// Test transfering expressions
//-----------------------------

#[test]
fn test_loopback_transfer_expression() {
    let mut env = Environment::new();
    let mut a = Link::new_loopback(&mut env).unwrap();
    let mut b = Link::new_loopback(&mut env).unwrap();

    a.put_i64(5).unwrap();

    a.transfer_expr_to(&mut b).unwrap();

    assert_eq!(b.get_i64().unwrap(), 5);
}

#[test]
fn test_get_expr_missing_symbol_context_error() {
    let mut env = Environment::new();
    let mut link = Link::new_loopback(&mut env).unwrap();

    link.put_symbol("List").unwrap();

    let err: wstp::Error = link.get_expr().unwrap_err();

    assert!(err.code().is_none());
    assert_eq!(
        err.to_string(),
        "WSTP error: symbol name 'List' has no context"
    );
}

//--------------------------------
// Test getting and putting arrays
//--------------------------------

#[test]
fn test_roundtrip_i64_array() {
    let mut env = Environment::new();
    let mut link = Link::new_loopback(&mut env).unwrap();

    assert!(wstp::dimensions_match(4, &[2, 2]));
    link.put_i64_array(&[1, 2, 3, 4], &[2, 2]).unwrap();

    let out = link.get_i64_array().unwrap();

    assert_eq!(out.data().len(), 4);
    assert_eq!(out.dimensions(), &[2, 2]);
}
