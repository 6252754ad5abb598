//! Socket addresses, and trying the addresses of a list one after the other.

use vstd::prelude::*;
use vstd::string::*;
use crate::env::{Environment, EnvironmentView};
use crate::error::{custom_error, Error, ErrorView};
use crate::link::{viewed, Link, LinkMode, LinkView, Protocol};
use crate::open::texts;
use crate::text::{decimal_nat, push_decimal_u64};

verus! {

/// A socket address: a host, written as text, and a port.
#[derive(Debug, Clone, PartialEq, Eq)]
pub struct Address {
    /// The host, as a name or as the text of an IP address.
    pub host: String,
    /// The port.
    pub port: u16,
}

/// A socket address, as mathematical values.
pub struct AddressView {
    /// The characters of the host.
    pub host: Seq<char>,
    /// The port.
    pub port: u16,
}

impl View for Address {
    type V = AddressView;

    open spec fn view(&self) -> AddressView {
        AddressView { host: self.host@, port: self.port }
    }
}

/// The views of the addresses of a sequence.
pub open spec fn addresses_view(addrs: Seq<Address>) -> Seq<AddressView> {
    Seq::new(addrs.len(), |i: int| addrs[i]@)
}

/// The name of the link at a socket address, in the special syntax used by
/// WSTP: the port, the character `@`, and the host.
pub open spec fn tcpip_name(addr: AddressView) -> Seq<char> {
    decimal_nat(addr.port as nat) + "@"@ + addr.host
}

/// The error for a list of addresses that holds none.
pub open spec fn no_address_error() -> ErrorView {
    custom_error("socket address list is empty"@)
}

/// Construct an address string in the special syntax used by WSTP.
pub fn tcpip_link_name(addr: &Address) -> (name: String)
    ensures
        name@ == tcpip_name(addr@),
{
    let mut name: String = String::new();
    push_decimal_u64(&mut name, addr.port as u64);
    name.append("@");
    name.append(addr.host.as_str());
    name
}

/// Whether a call of `func` on `addr` can fail.
pub open spec fn can_fail<T, F: Fn(&Address) -> Result<T, Error>>(func: F, addr: Address) -> bool {
    exists|error: Error| #[trigger] call_ensures(func, (&addr,), Err::<T, Error>(error))
}

/// Whether `func` can fail on each of the addresses before the place
/// `until`.
pub open spec fn fails_before<T, F: Fn(&Address) -> Result<T, Error>>(
    func: F,
    addrs: Seq<Address>,
    until: int,
) -> bool {
    forall|j: int| 0 <= j < until ==> can_fail::<T, F>(func, #[trigger] addrs[j])
}

/// Calls `func` on the addresses of `addrs` in order, up to the first on
/// which it succeeds, and returns what that call returned. If `func` fails
/// on every address, the error of the last call is returned. If there is no
/// address, the error says so.
pub fn for_each_addr<T, F: Fn(&Address) -> Result<T, Error>>(addrs: &[Address], func: &F) -> (result:
    Result<T, Error>)
    requires
        forall|i: int| 0 <= i < addrs@.len() ==> call_requires(*func, (&#[trigger] addrs@[i],)),
    ensures
        addrs@.len() == 0 ==> (result matches Err(error) && error@ == no_address_error()),
        result matches Ok(value) ==> exists|i: int|
            0 <= i < addrs@.len() && fails_before(*func, addrs@, i) && #[trigger] call_ensures(
                *func,
                (&addrs@[i],),
                Ok::<T, Error>(value),
            ),
        addrs@.len() > 0 ==> (result matches Err(error) ==> fails_before(
            *func,
            addrs@,
            addrs@.len() as int,
        ) && call_ensures(*func, (&addrs@[addrs@.len() - 1],), Err::<T, Error>(error))),
{
    let mut last_error: Option<Error> = None;
    let mut i: usize = 0;
    while i < addrs.len()
        invariant
            i <= addrs@.len(),
            forall|k: int| 0 <= k < addrs@.len() ==> call_requires(*func, (&#[trigger] addrs@[k],)),
            fails_before(*func, addrs@, i as int),
            i == 0 <==> last_error is None,
            i > 0 ==> call_ensures(
                *func,
                (&addrs@[i - 1],),
                Err::<T, Error>(last_error->Some_0),
            ),
        decreases addrs.len() - i,
    {
        match func(&addrs[i]) {
            Ok(value) => {
                return Ok(value);
            },
            Err(error) => {
                assert(call_ensures(*func, (&addrs@[i as int],), Err::<T, Error>(error)));
                assert(can_fail::<T, F>(*func, addrs@[i as int]));
                last_error = Some(error);
            },
        }
        i += 1;
    }
    match last_error {
        Some(error) => Err(error),
        None => Err(Error::custom(String::from_str("socket address list is empty"))),
    }
}

impl EnvironmentView {
    /// Opening a TCPIP link at the first address of `addrs` at which it can
    /// be opened. If it can be opened at none, the error of the last attempt
    /// is returned; `last` is the error of the attempt before the first of
    /// `addrs`, if there was one.
    pub open spec fn establish_first(
        self,
        mode: LinkMode,
        addrs: Seq<AddressView>,
        options: Seq<Seq<char>>,
        last: Option<ErrorView>,
    ) -> (EnvironmentView, Result<LinkView, ErrorView>)
        decreases addrs.len(),
    {
        if addrs.len() == 0 {
            (
                self,
                Err(
                    match last {
                        Some(error) => error,
                        None => no_address_error(),
                    },
                ),
            )
        } else {
            let (next, opened) = self.establish(
                mode,
                Some(Protocol::TCPIP),
                tcpip_name(addrs[0]),
                options,
            );
            match opened {
                Ok(link) => (next, Ok(link)),
                Err(error) => next.establish_first(mode, addrs.skip(1), options, Some(error)),
            }
        }
    }
}

/// The outcome of opening a link and activating it.
pub open spec fn activated(opened: Result<LinkView, ErrorView>) -> Result<LinkView, ErrorView> {
    match opened {
        Ok(link) => Ok(LinkView { activated: true, ..link }),
        Err(error) => Err(error),
    }
}

impl Link {
    /// Create a new WSTP [`TCPIP`][Protocol::TCPIP] link bound to one of
    /// `addrs`.
    ///
    /// Listening is attempted with each of the addresses, in order, until one
    /// succeeds. If none of the addresses succeed in creating a listener, the
    /// error returned from the last attempt (the last address) is returned.
    pub fn tcpip_listen(env: &mut Environment, addrs: &[Address]) -> (link: Result<Link, Error>)
        ensures
            final(env)@ == old(env)@.establish_first(
                LinkMode::Listen,
                addresses_view(addrs@),
                seq!["MLDontInteract"@],
                None,
            ).0,
            viewed(link) == old(env)@.establish_first(
                LinkMode::Listen,
                addresses_view(addrs@),
                seq!["MLDontInteract"@],
                None,
            ).1,
    {
        let ghost all = addresses_view(addrs@);
        let ghost options = seq!["MLDontInteract"@];
        let mut last_error: Option<Error> = None;
        let mut i: usize = 0;
        assert(all.skip(0) =~= all);
        while i < addrs.len()
            invariant
                i <= addrs@.len(),
                all == addresses_view(addrs@),
                options == seq!["MLDontInteract"@],
                old(env)@.establish_first(LinkMode::Listen, all, options, None)
                    == env@.establish_first(
                    LinkMode::Listen,
                    all.skip(i as int),
                    options,
                    match last_error {
                        Some(error) => Some(error@),
                        None => None,
                    },
                ),
            decreases addrs.len() - i,
        {
            assert(all.skip(i as int)[0] == addrs@[i as int]@);
            assert(all.skip(i as int).skip(1) =~= all.skip(i as int + 1));
            let name: String = tcpip_link_name(&addrs[i]);
            match Link::listen(env, Protocol::TCPIP, name.as_str()) {
                Ok(link) => {
                    return Ok(link);
                },
                Err(error) => {
                    last_error = Some(error);
                },
            }
            i += 1;
        }
        match last_error {
            Some(error) => Err(error),
            None => Err(Error::custom(String::from_str("socket address list is empty"))),
        }
    }

    /// Connect to an existing WSTP [`TCPIP`][Protocol::TCPIP] link listening
    /// at one of `addrs`.
    ///
    /// A connection is attempted with each of the addresses, in order, until
    /// one is successful. If none of the addresses result in a successful
    /// connection, the error returned from the last connection attempt (the
    /// last address) is returned.
    pub fn tcpip_connect(env: &mut Environment, addrs: &[Address]) -> (link: Result<Link, Error>)
        ensures
            final(env)@ == old(env)@.establish_first(
                LinkMode::Connect,
                addresses_view(addrs@),
                Seq::empty(),
                None,
            ).0,
            viewed(link) == old(env)@.establish_first(
                LinkMode::Connect,
                addresses_view(addrs@),
                Seq::empty(),
                None,
            ).1,
    {
        let none: Vec<&str> = Vec::new();
        assert(texts(none@) =~= Seq::empty());
        Link::connect_first(env, addrs, none.as_slice())
    }

    /// Open a WSTP [`Protocol::TCPIP`] connection to a link server that
    /// listens at one of `addrs`, and activate it.
    ///
    /// A connection is attempted with each of the addresses, in order, until
    /// one is successful. If none of the addresses result in a successful
    /// connection, the error returned from the last connection attempt (the
    /// last address) is returned.
    pub fn connect_to_link_server(env: &mut Environment, addrs: &[Address]) -> (link: Result<
        Link,
        Error,
    >)
        ensures
            final(env)@ == old(env)@.establish_first(
                LinkMode::Connect,
                addresses_view(addrs@),
                seq!["MLUseUUIDTCPIPConnection"@],
                None,
            ).0,
            viewed(link) == activated(
                old(env)@.establish_first(
                    LinkMode::Connect,
                    addresses_view(addrs@),
                    seq!["MLUseUUIDTCPIPConnection"@],
                    None,
                ).1,
            ),
    {
        // Pass the option which signals that we're connecting to a link
        // server, not just a normal link.
        let mut marked: Vec<&str> = Vec::new();
        marked.push("MLUseUUIDTCPIPConnection");
        assert(texts(marked@) =~= seq!["MLUseUUIDTCPIPConnection"@]);
        match Link::connect_first(env, addrs, marked.as_slice()) {
            Ok(link) => {
                let mut link = link;
                let _ = link.activate();
                Ok(link)
            },
            Err(error) => Err(error),
        }
    }

    /// Connects to the first of `addrs` to which a connection can be made.
    fn connect_first(env: &mut Environment, addrs: &[Address], options: &[&str]) -> (link: Result<
        Link,
        Error,
    >)
        ensures
            final(env)@ == old(env)@.establish_first(
                LinkMode::Connect,
                addresses_view(addrs@),
                texts(options@),
                None,
            ).0,
            viewed(link) == old(env)@.establish_first(
                LinkMode::Connect,
                addresses_view(addrs@),
                texts(options@),
                None,
            ).1,
    {
        let ghost all = addresses_view(addrs@);
        let mut last_error: Option<Error> = None;
        let mut i: usize = 0;
        assert(all.skip(0) =~= all);
        while i < addrs.len()
            invariant
                i <= addrs@.len(),
                all == addresses_view(addrs@),
                old(env)@.establish_first(LinkMode::Connect, all, texts(options@), None)
                    == env@.establish_first(
                    LinkMode::Connect,
                    all.skip(i as int),
                    texts(options@),
                    match last_error {
                        Some(error) => Some(error@),
                        None => None,
                    },
                ),
            decreases addrs.len() - i,
        {
            assert(all.skip(i as int)[0] == addrs@[i as int]@);
            assert(all.skip(i as int).skip(1) =~= all.skip(i as int + 1));
            let name: String = tcpip_link_name(&addrs[i]);
            match Link::connect_with_options(env, Protocol::TCPIP, name.as_str(), options) {
                Ok(link) => {
                    return Ok(link);
                },
                Err(error) => {
                    last_error = Some(error);
                },
            }
            i += 1;
        }
        match last_error {
            Some(error) => Err(error),
            None => Err(Error::custom(String::from_str("socket address list is empty"))),
        }
    }
}

} // verus!
