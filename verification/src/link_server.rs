//! The link server: a listener that accepts connections and yields links.

use vstd::prelude::*;
use vstd::string::*;
use std::collections::VecDeque;
use crate::addr::{addresses_view, no_address_error, Address, AddressView};
use crate::env::{Environment, EnvironmentView};
use vstd::utf8::{decode_utf8, valid_utf8};
use crate::error::{coded_error, custom_error, Error, ErrorView};
use crate::strx::{lossy_text, utf8_error_text, Utf8Str};
use crate::ip::{parse_ip, IpAddress};
use crate::link::{
    fresh_link, link_error, plain, strings_view, viewed, Link, LinkMode, LinkView, Protocol,
};
use crate::sys::{WSEACCEPT, WSECONNECT, WSEOK};

verus! {

/// The state of a link server, as mathematical values.
pub struct LinkServerView {
    /// The port on which the server listens.
    pub port: u16,
    /// The interface on which the server listens, as text.
    pub interface: Seq<char>,
    /// The connections that have arrived and have not been accepted yet,
    /// oldest first.
    pub pending: Seq<LinkView>,
}

/// The interface of a server that listens on every interface of the machine.
pub open spec fn every_interface() -> Seq<char> {
    "0.0.0.0"@
}

/// The error for an interface whose text is no IP address.
pub open spec fn interface_error(interface: Seq<char>) -> ErrorView {
    custom_error(
        "unable to parse LinkServer interface ("@ + interface
            + ") as IpAddr: invalid IP address syntax"@,
    )
}

/// The IP address that the text of an interface stands for.
pub open spec fn interface_of(interface: Seq<char>) -> Result<IpAddress, ErrorView> {
    match parse_ip(vstd::utf8::encode_utf8(interface)) {
        Some(address) => Ok(address),
        None => Err(interface_error(interface)),
    }
}

impl EnvironmentView {
    /// Starting a link server on `port` and `interface`: the environment is
    /// made ready and the port is taken.
    pub open spec fn serve(self, port: u16, interface: Seq<char>) -> (
        EnvironmentView,
        Result<LinkServerView, ErrorView>,
    ) {
        let (ready, acquired) = self.acquire();
        match acquired {
            Err(error) => (ready, Err(error)),
            Ok(_) => {
                let (bound, taken) = ready.bind_port(port);
                match taken {
                    Err(error) => (bound, Err(error)),
                    Ok(_) => (bound, Ok(LinkServerView { port, interface, pending: Seq::empty() })),
                }
            },
        }
    }

    /// Starting a link server at the first address of `addrs` at which it
    /// can be started. If it can be started at none, the error of the last
    /// attempt is returned; `last` is the error of the attempt before the
    /// first of `addrs`, if there was one.
    pub open spec fn serve_first(self, addrs: Seq<AddressView>, last: Option<ErrorView>) -> (
        EnvironmentView,
        Result<LinkServerView, ErrorView>,
    )
        decreases addrs.len(),
    {
        if addrs.len() == 0 {
            (
                self,
                Err(
                    match last {
                        Some(error) => error,
                        None => no_address_error(),
                    },
                ),
            )
        } else {
            let (next, started) = self.serve(addrs[0].port, addrs[0].host);
            match started {
                Ok(server) => (next, Ok(server)),
                Err(error) => next.serve_first(addrs.skip(1), Some(error)),
            }
        }
    }
}

/// The option that marks a link as a connection to a link server.
pub open spec fn server_marker() -> Seq<char> {
    "MLUseUUIDTCPIPConnection"@
}

/// Whether a link can connect to a link server: it is a connecting TCPIP
/// link that carries the marker of such connections.
pub open spec fn connects_to_server(client: LinkView) -> bool {
    client.mode is Connect && client.protocol == Some(Protocol::TCPIP) && client.options.contains(
        server_marker(),
    )
}

/// The end of a connection that a link server holds for a client of the
/// name `name`: an active TCPIP link under that name.
pub open spec fn server_end_named(name: Seq<char>) -> LinkView {
    LinkView {
        activated: true,
        ..fresh_link(LinkMode::Listen, Some(Protocol::TCPIP), name, Seq::empty())
    }
}

/// The end of a connection that a link server holds for the client
/// `client`.
pub open spec fn server_end(client: LinkView) -> LinkView {
    server_end_named(client.name)
}

impl LinkServerView {
    /// Attaching the client `client`: where it can connect to a link server,
    /// the server's end of the connection waits to be accepted.
    pub open spec fn attach(self, client: LinkView) -> (LinkServerView, Result<(), ErrorView>) {
        if connects_to_server(client) {
            (LinkServerView { pending: self.pending.push(server_end(client)), ..self }, Ok(()))
        } else {
            (self, Err(link_error(WSECONNECT)))
        }
    }
}

/// A server that listens for connections and yields a [`Link`] for each.
///
/// The server holds the connections that have arrived until they are
/// accepted. The program that owns the transport hands each of them to
/// [`LinkServer::offer`].
#[derive(Debug)]
pub struct LinkServer {
    port: u16,
    interface: String,
    pending: VecDeque<Link>,
}

/// The states of the links of a sequence.
pub open spec fn links_view(links: Seq<Link>) -> Seq<LinkView> {
    Seq::new(links.len(), |i: int| links[i]@)
}

impl View for LinkServer {
    type V = LinkServerView;

    closed spec fn view(&self) -> LinkServerView {
        LinkServerView {
            port: self.port,
            interface: self.interface@,
            pending: links_view(self.pending@),
        }
    }
}

/// An iterator that infinitely [`accept`]s connections on a [`LinkServer`].
///
/// This `struct` is created by the [`LinkServer::incoming`] method.
///
/// [`accept`]: LinkServer::accept
#[derive(Debug)]
pub struct Incoming<'a> {
    /// The server whose connections are accepted.
    pub server: &'a mut LinkServer,
}

/// The IP address that the text of an interface stands for. Text that is no
/// IP address is an error that shows the text.
pub fn parse_interface(interface: &str) -> (address: Result<IpAddress, Error>)
    ensures
        plain(address) == interface_of(interface@),
{
    match IpAddress::parse(interface) {
        Some(address) => Ok(address),
        None => {
            let mut message: String = String::from_str("unable to parse LinkServer interface (");
            message.append(interface);
            message.append(") as IpAddr: invalid IP address syntax");
            Err(Error::custom(message))
        },
    }
}

/// The error for an interface whose bytes are no text: it shows why they
/// are none, as `reason`, and what text can be made of them, as `lossy`.
pub open spec fn interface_encoding_error(reason: Seq<char>, lossy: Seq<char>) -> ErrorView {
    custom_error(
        "LinkServer interface could not be converted to UTF-8 string (error: "@ + reason
            + ", lossy: '"@ + lossy + "')"@,
    )
}

/// The error for an interface whose bytes are no text, where `reason` says
/// why they are none and `lossy` is the text that can be made of them.
pub fn interface_encoding_failure(reason: &str, lossy: &str) -> (error: Error)
    ensures
        error@ == interface_encoding_error(reason@, lossy@),
{
    let mut message: String = String::from_str(
        "LinkServer interface could not be converted to UTF-8 string (error: ",
    );
    message.append(reason);
    message.append(", lossy: '");
    message.append(lossy);
    message.append("')");
    Error::custom(message)
}

/// What the transport's answer to the question for the interface of a link
/// server means. `text` is the bytes of the text that the transport handed
/// out, if it handed one out; `code` is the code that it set; `looked_up` is
/// its description of the code, where it has one.
///
/// * No text, or a code other than [`WSEOK`], is an error with that code.
/// * Bytes that are not UTF-8 are an error without a code, which shows why
///   they are none and the text that can be made of them.
/// * Any other text is read as an IP address, as [`parse_interface`] reads
///   it.
pub fn interface_from_answer(text: Option<&[u8]>, code: i32, looked_up: Option<String>) -> (address:
    Result<IpAddress, Error>)
    ensures
        (text is None || code != WSEOK) ==> plain(address) == Err::<IpAddress, ErrorView>(
            coded_error(
                code,
                match looked_up {
                    Some(message) => Some(message@),
                    None => None,
                },
            ),
        ),
        text is Some && code == WSEOK && !valid_utf8(text->Some_0@) ==> plain(address) == Err::<
            IpAddress,
            ErrorView,
        >(interface_encoding_error(utf8_error_text(text->Some_0@), lossy_text(text->Some_0@))),
        text is Some && code == WSEOK && valid_utf8(text->Some_0@) ==> plain(address)
            == interface_of(decode_utf8(text->Some_0@)),
{
    let bytes: &[u8] = match text {
        Some(bytes) => bytes,
        None => {
            return Err(Error::from_code(code, looked_up));
        },
    };
    if code != WSEOK {
        return Err(Error::from_code(code, looked_up));
    }
    match Utf8Str::decode(bytes) {
        Ok(interface) => parse_interface(interface.as_str()),
        Err(reason) => {
            let lossy = Utf8Str::from_utf8_lossy(bytes);
            Err(interface_encoding_failure(reason.as_str(), lossy.as_str()))
        },
    }
}

/// What the transport's answer to the question for the port of a link
/// server means: a code other than [`WSEOK`] is an error with that code, and
/// the port is the answer otherwise.
pub fn port_from_answer(port: u16, code: i32, looked_up: Option<String>) -> (answer: Result<
    u16,
    Error,
>)
    ensures
        code == WSEOK ==> answer == Ok::<u16, Error>(port),
        code != WSEOK ==> plain(answer) == Err::<u16, ErrorView>(
            coded_error(
                code,
                match looked_up {
                    Some(message) => Some(message@),
                    None => None,
                },
            ),
        ),
{
    if code != WSEOK {
        Err(Error::from_code(code, looked_up))
    } else {
        Ok(port)
    }
}

impl LinkServer {
    /// Starts a server on `port` and `interface`.
    fn serve(env: &mut Environment, port: u16, interface: &str) -> (server: Result<LinkServer, Error>)
        ensures
            final(env)@ == old(env)@.serve(port, interface@).0,
            viewed(server) == old(env)@.serve(port, interface@).1,
    {
        match env.acquire() {
            Ok(()) => {},
            Err(error) => {
                return Err(error);
            },
        }
        match env.bind_port(port) {
            Ok(()) => {},
            Err(error) => {
                return Err(error);
            },
        }
        let server = LinkServer {
            port,
            interface: String::from_str(interface),
            pending: VecDeque::new(),
        };
        assert(server@.pending =~= Seq::empty());
        Ok(server)
    }

    /// Create a new `LinkServer` bound to one of the specified addresses.
    ///
    /// Binding is attempted with each of the addresses, in order, until one
    /// succeeds. If none succeeds, the error of the last attempt is
    /// returned.
    ///
    /// Use [`Link::connect_to_link_server`] to connect to a `LinkServer`.
    pub fn bind(env: &mut Environment, addrs: &[Address]) -> (server: Result<LinkServer, Error>)
        ensures
            final(env)@ == old(env)@.serve_first(addresses_view(addrs@), None).0,
            viewed(server) == old(env)@.serve_first(addresses_view(addrs@), None).1,
    {
        let ghost all = addresses_view(addrs@);
        let mut last_error: Option<Error> = None;
        let mut i: usize = 0;
        assert(all.skip(0) =~= all);
        while i < addrs.len()
            invariant
                i <= addrs@.len(),
                all == addresses_view(addrs@),
                old(env)@.serve_first(all, None) == env@.serve_first(
                    all.skip(i as int),
                    match last_error {
                        Some(error) => Some(error@),
                        None => None,
                    },
                ),
            decreases addrs.len() - i,
        {
            assert(all.skip(i as int)[0] == addrs@[i as int]@);
            assert(all.skip(i as int).skip(1) =~= all.skip(i as int + 1));
            match LinkServer::serve(env, addrs[i].port, addrs[i].host.as_str()) {
                Ok(server) => {
                    return Ok(server);
                },
                Err(error) => {
                    last_error = Some(error);
                },
            }
            i += 1;
        }
        match last_error {
            Some(error) => Err(error),
            None => Err(Error::custom(String::from_str("socket address list is empty"))),
        }
    }

    /// Create a new link server on `port`, which listens on every interface
    /// of the machine.
    ///
    /// Use [`LinkServer::accept()`] to accept new connections to the link
    /// server.
    pub fn new(env: &mut Environment, port: u16) -> (server: Result<LinkServer, Error>)
        ensures
            final(env)@ == old(env)@.serve(port, every_interface()).0,
            viewed(server) == old(env)@.serve(port, every_interface()).1,
    {
        LinkServer::serve(env, port, "0.0.0.0")
    }

    /// Returns the TCPIP port number used by this link server.
    pub fn port(&self) -> (port: u16)
        ensures
            port == self@.port,
    {
        self.port
    }

    /// Fallible variant of [LinkServer::port()].
    pub fn try_port(&self) -> (port: Result<u16, Error>)
        ensures
            port == Ok::<u16, Error>(self@.port),
    {
        Ok(self.port)
    }

    /// Returns the IP address of the interface used by this link server,
    /// whose text must be an IP address.
    pub fn interface(&self) -> (address: IpAddress)
        requires
            interface_of(self@.interface) is Ok,
        ensures
            Ok::<IpAddress, ErrorView>(address) == interface_of(self@.interface),
    {
        match IpAddress::parse(self.interface.as_str()) {
            Some(address) => address,
            None => IpAddress::V4(0, 0, 0, 0),
        }
    }

    /// Fallible variant of [LinkServer::interface()].
    pub fn try_interface(&self) -> (address: Result<IpAddress, Error>)
        ensures
            plain(address) == interface_of(self@.interface),
    {
        parse_interface(self.interface.as_str())
    }

    /// Close this link server.
    ///
    /// This link server will stop accepting new connections, and unbind from
    /// the network port it is attached to.
    pub fn close(self, env: &mut Environment)
        ensures
            final(env)@ == old(env)@.release_port(self@.port),
    {
        env.release_port(self.port);
    }

    /// Attaches the client `client` to this server. A client that was opened by
    /// [`Link::connect_to_link_server`] is attached: the server's end of the
    /// connection waits to be accepted. Any other link is refused.
    pub fn attach(&mut self, client: &Link) -> (done: Result<(), Error>)
        ensures
            final(self)@ == old(self)@.attach(client@).0,
            plain(done) == old(self)@.attach(client@).1,
    {
        let connecting: bool = matches!(client.mode(), LinkMode::Connect);
        let networked: bool = match client.protocol() {
            Some(Protocol::TCPIP) => true,
            _ => false,
        };
        if connecting && networked && client.has_option("MLUseUUIDTCPIPConnection") {
            let name: String = client.link_name();
            self.arrived(name.as_str());
            Ok(())
        } else {
            Err(Error::from_code(WSECONNECT, None))
        }
    }

    /// Tells this server that the transport has accepted a connection of a
    /// client of the name `name`: the server's end of the connection waits
    /// to be accepted.
    pub fn arrived(&mut self, name: &str)
        ensures
            final(self)@ == (LinkServerView {
                pending: old(self)@.pending.push(server_end_named(name@)),
                ..old(self)@
            }),
    {
        let options: Vec<String> = Vec::new();
        assert(strings_view(options@) =~= Seq::empty());
        let mut end = Link::opened(
            LinkMode::Listen,
            Some(Protocol::TCPIP),
            String::from_str(name),
            options,
        );
        let _ = end.activate();
        self.offer(end);
    }

    /// Hands this server a connection that has arrived. It waits behind
    /// those that arrived before, until it is accepted.
    pub fn offer(&mut self, link: Link)
        ensures
            final(self)@ == (LinkServerView {
                pending: old(self)@.pending.push(link@),
                ..old(self)@
            }),
    {
        self.pending.push_back(link);
        assert(self@.pending =~= old(self)@.pending.push(link@));
    }

    /// Whether a connection has arrived that has not been accepted yet. A
    /// caller that is to wait for a connection asks this before it accepts:
    /// that none has arrived yet is no failure.
    pub fn has_pending(&self) -> (pending: bool)
        ensures
            pending == (self@.pending.len() > 0),
    {
        self.pending.len() > 0
    }

    /// Accept a new incoming connection to this link server: the oldest
    /// that has arrived. Where none has arrived, an error is returned; see
    /// [`LinkServer::has_pending`].
    pub fn accept(&mut self) -> (link: Result<Link, Error>)
        ensures
            old(self)@.pending.len() > 0 ==> viewed(link) == Ok::<LinkView, ErrorView>(
                old(self)@.pending[0],
            ) && final(self)@ == (LinkServerView {
                pending: old(self)@.pending.skip(1),
                ..old(self)@
            }),
            old(self)@.pending.len() == 0 ==> viewed(link) == Err::<LinkView, ErrorView>(
                link_error(WSEACCEPT),
            ) && final(self)@ == old(self)@,
    {
        match self.pending.pop_front() {
            Some(link) => {
                assert(self@.pending =~= old(self)@.pending.skip(1));
                Ok(link)
            },
            None => Err(Error::from_code(WSEACCEPT, None)),
        }
    }

    /// Hands the oldest connection that has arrived to `callback`, and says
    /// whether there was one. This is what a server with a callback does for
    /// every connection.
    pub fn dispatch<F: FnOnce(Link)>(&mut self, callback: F) -> (called: bool)
        requires
            forall|link: Link| call_requires(callback, (link,)),
        ensures
            called == (old(self)@.pending.len() > 0),
            called ==> final(self)@ == (LinkServerView {
                pending: old(self)@.pending.skip(1),
                ..old(self)@
            }) && exists|link: Link|
                link@ == old(self)@.pending[0] && #[trigger] call_ensures(callback, (link,), ()),
            !called ==> final(self)@ == old(self)@,
    {
        match self.pending.pop_front() {
            Some(link) => {
                assert(self@.pending =~= old(self)@.pending.skip(1));
                let ghost handed = link;
                callback(link);
                assert(call_ensures(callback, (handed,), ()));
                true
            },
            None => false,
        }
    }

    /// Returns an iterator over the connections being received on this
    /// server.
    ///
    /// The returned iterator will never return None. Iterating over it is
    /// equivalent to calling [`LinkServer::accept`] in a loop.
    pub fn incoming(&mut self) -> (incoming: Incoming<'_>)
        ensures
            *incoming.server == *old(self),
            *final(self) == *final(incoming.server),
    {
        Incoming { server: self }
    }
}

impl<'a> Incoming<'a> {
    /// The state of the server.
    pub open spec fn server_view(&self) -> LinkServerView {
        self.server@
    }

    /// The next connection: what [`LinkServer::accept`] gives. There is
    /// always a next one.
    pub fn next(&mut self) -> (link: Option<Result<Link, Error>>)
        ensures
            link is Some,
            old(self).server_view().pending.len() > 0 ==> viewed(link->0) == Ok::<
                LinkView,
                ErrorView,
            >(old(self).server_view().pending[0]) && final(self).server_view() == (LinkServerView {
                pending: old(self).server_view().pending.skip(1),
                ..old(self).server_view()
            }),
            old(self).server_view().pending.len() == 0 ==> viewed(link->0) == Err::<
                LinkView,
                ErrorView,
            >(link_error(WSEACCEPT)) && final(self).server_view() == old(self).server_view(),
    {
        Some(self.server.accept())
    }
}

} // verus!
