//! The environment that all links of a process share.
//!
//! The environment is created empty, comes to life with the first link that
//! is opened in it, and is shut down at most once. It knows the names under
//! which links listen and the ports on which link servers listen, so that no
//! name and no port is taken twice; and it knows the hosts at which network
//! links can be opened.

use vstd::prelude::*;
use vstd::string::*;
use crate::error::{custom_error, Error, ErrorView};
use vstd::utf8::encode_utf8;
use crate::ip::{parse_ip, IpAddress};
use crate::link::{link_error, plain, Protocol};
use crate::sys::WSENAMETAKEN;
use crate::text::{decimal_nat, push_decimal_u64};

verus! {

/// Where an environment stands in its life.
#[derive(Debug, Clone, Copy, PartialEq, Eq, Structural)]
pub enum Lifecycle {
    /// No link has been opened yet.
    Uninitialized,
    /// A link has been opened, and links can be opened.
    Initialized,
    /// The environment was shut down. No link can be opened any more.
    Shutdown,
}

/// The state of an environment, as mathematical values.
pub struct EnvironmentView {
    /// Where the environment stands in its life.
    pub state: Lifecycle,
    /// The names under which links listen, each with its protocol.
    pub names: Set<(Protocol, Seq<char>)>,
    /// The ports on which link servers listen.
    pub ports: Set<u16>,
    /// The hosts that were made known to the environment, each by the bytes
    /// of its name.
    pub hosts: Set<Seq<u8>>,
    /// The count of the names that the environment has given to links of
    /// its own accord.
    pub issued: u64,
}

/// The name of the host that every environment knows: this machine.
pub open spec fn local_host() -> Seq<u8> {
    encode_utf8("localhost"@)
}

/// The place of the first character `@` of a name from the place `from` on,
/// if there is one.
pub open spec fn at_sign(name: Seq<u8>, from: int) -> Option<int>
    decreases name.len() - from,
{
    if from < 0 || from >= name.len() {
        None
    } else if name[from] == 64 {
        Some(from)
    } else {
        at_sign(name, from + 1)
    }
}

/// The host that a network link name of the form `<port>@<host>` names:
/// what stands behind the first `@`. A name without `@` names no host.
pub open spec fn host_of_name(name: Seq<u8>) -> Option<Seq<u8>> {
    match at_sign(name, 0) {
        Some(at) => Some(name.skip(at + 1)),
        None => None,
    }
}

/// The name that the environment gives of its own accord with the number
/// `number`.
pub open spec fn own_name(number: u64) -> Seq<char> {
    "IntraProcess-"@ + decimal_nat(number as nat)
}

/// The name that a listening link within the process gets, where `given` is
/// the name that was asked for: the name asked for is ignored, and the link
/// gets a name of the environment's own, which is never the name asked for.
pub open spec fn assigned_name(number: u64, given: Seq<char>) -> Seq<char> {
    if own_name(number) == given {
        own_name(number) + "'"@
    } else {
        own_name(number)
    }
}

/// The error for opening a link in an environment that was shut down.
pub open spec fn shutdown_error() -> ErrorView {
    custom_error("wstp-rs: STDENV has been shutdown. No more links can be created."@)
}

impl EnvironmentView {
    /// Whether the environment knows the host `host`: it is this machine,
    /// or it is written as an IP address, or it was made known.
    pub open spec fn knows_host(self, host: Seq<u8>) -> bool {
        host == local_host() || parse_ip(host) is Some || self.hosts.contains(host)
    }

    /// Whether a link of protocol `protocol` can be opened under the name
    /// `name`: a network link that names a host must name one that the
    /// environment knows.
    pub open spec fn reaches(self, protocol: Option<Protocol>, name: Seq<char>) -> bool {
        protocol == Some(Protocol::TCPIP) ==> match host_of_name(encode_utf8(name)) {
            Some(host) => self.knows_host(host),
            None => true,
        }
    }

    /// Giving out a name of the environment's own.
    pub open spec fn issue_name(self) -> EnvironmentView {
        EnvironmentView {
            issued: if self.issued < u64::MAX {
                (self.issued + 1) as u64
            } else {
                self.issued
            },
            ..self
        }
    }

    /// Making the host `host` known to the environment.
    pub open spec fn add_host(self, host: Seq<u8>) -> EnvironmentView {
        EnvironmentView { hosts: self.hosts.insert(host), ..self }
    }

    /// Preparing to open a link: an environment that was shut down refuses,
    /// any other is initialized from then on.
    pub open spec fn acquire(self) -> (EnvironmentView, Result<(), ErrorView>) {
        if self.state is Shutdown {
            (self, Err(shutdown_error()))
        } else {
            (EnvironmentView { state: Lifecycle::Initialized, ..self }, Ok(()))
        }
    }

    /// Taking the name `name` for a listening link of protocol `protocol`.
    /// The empty name stands for no name and is never taken; any other name
    /// can be taken once.
    pub open spec fn bind_name(self, protocol: Protocol, name: Seq<char>) -> (
        EnvironmentView,
        Result<(), ErrorView>,
    ) {
        if name.len() == 0 {
            (self, Ok(()))
        } else if self.names.contains((protocol, name)) {
            (self, Err(link_error(WSENAMETAKEN)))
        } else {
            (EnvironmentView { names: self.names.insert((protocol, name)), ..self }, Ok(()))
        }
    }

    /// Giving the name `name` of protocol `protocol` back.
    pub open spec fn release_name(self, protocol: Protocol, name: Seq<char>) -> EnvironmentView {
        EnvironmentView { names: self.names.remove((protocol, name)), ..self }
    }

    /// Taking the port `port` for a link server. The port 0 stands for any
    /// free port and is never taken; any other port can be taken once.
    pub open spec fn bind_port(self, port: u16) -> (EnvironmentView, Result<(), ErrorView>) {
        if port == 0 {
            (self, Ok(()))
        } else if self.ports.contains(port) {
            (self, Err(link_error(WSENAMETAKEN)))
        } else {
            (EnvironmentView { ports: self.ports.insert(port), ..self }, Ok(()))
        }
    }

    /// Giving the port `port` back.
    pub open spec fn release_port(self, port: u16) -> EnvironmentView {
        EnvironmentView { ports: self.ports.remove(port), ..self }
    }

    /// Shutting the environment down: it is shut down from then on, and the
    /// answer says whether it had been initialized.
    pub open spec fn shutdown(self) -> (EnvironmentView, bool) {
        (EnvironmentView { state: Lifecycle::Shutdown, ..self }, self.state is Initialized)
    }
}

/// A name under which a link listens.
#[derive(Debug)]
struct Binding {
    protocol: Protocol,
    name: String,
}

/// Whether `name` of protocol `protocol` is among `names`.
spec fn listed(names: Seq<Binding>, protocol: Protocol, name: Seq<char>) -> bool {
    exists|i: int|
        0 <= i < names.len() && names[i].protocol == protocol && #[trigger] names[i].name@ == name
}

/// Whether `host` is among `hosts`.
spec fn known(hosts: Seq<Vec<u8>>, host: Seq<u8>) -> bool {
    exists|i: int| 0 <= i < hosts.len() && #[trigger] hosts[i]@ == host
}

/// The environment that the links of a process share.
#[derive(Debug)]
pub struct Environment {
    state: Lifecycle,
    names: Vec<Binding>,
    ports: Vec<u16>,
    hosts: Vec<Vec<u8>>,
    issued: u64,
}

/// Whether two sequences of bytes are the same.
fn same_bytes(a: &[u8], b: &[u8]) -> (same: bool)
    ensures
        same == (a@ == b@),
{
    if a.len() != b.len() {
        return false;
    }
    let mut i: usize = 0;
    while i < a.len()
        invariant
            i <= a@.len(),
            a@.len() == b@.len(),
            forall|k: int| 0 <= k < i ==> a@[k] == b@[k],
        decreases a.len() - i,
    {
        if a[i] != b[i] {
            return false;
        }
        i += 1;
    }
    assert(a@ =~= b@);
    true
}

/// The host that the network link name `name` names.
fn host_named(name: &[u8]) -> (host: Option<&[u8]>)
    ensures
        match host_of_name(name@) {
            Some(named) => host matches Some(h) && h@ == named,
            None => host is None,
        },
{
    let mut i: usize = 0;
    while i < name.len()
        invariant
            i <= name@.len(),
            at_sign(name@, 0) == at_sign(name@, i as int),
        decreases name.len() - i,
    {
        if name[i] == 64 {
            return Some(vstd::slice::slice_subrange(name, i + 1, name.len()));
        }
        i += 1;
    }
    None
}

impl View for Environment {
    type V = EnvironmentView;

    closed spec fn view(&self) -> EnvironmentView {
        EnvironmentView {
            state: self.state,
            names: Set::new(|pair: (Protocol, Seq<char>)| listed(self.names@, pair.0, pair.1)),
            ports: Set::new(|port: u16| self.ports@.contains(port)),
            hosts: Set::new(|host: Seq<u8>| known(self.hosts@, host)),
            issued: self.issued,
        }
    }
}

impl Environment {
    /// An environment in which no link has been opened yet.
    pub fn new() -> (env: Environment)
        ensures
            env@ == (EnvironmentView {
                state: Lifecycle::Uninitialized,
                names: Set::empty(),
                ports: Set::empty(),
                hosts: Set::empty(),
                issued: 0,
            }),
    {
        let env = Environment {
            state: Lifecycle::Uninitialized,
            names: Vec::new(),
            ports: Vec::new(),
            hosts: Vec::new(),
            issued: 0,
        };
        assert(env@.names =~= Set::empty());
        assert(env@.ports =~= Set::empty());
        assert(env@.hosts =~= Set::empty());
        env
    }

    /// Makes the host `host` known to this environment: network links can
    /// be opened at it from then on. The program that resolves the names of
    /// hosts tells the environment of each host that it has found.
    pub fn add_host(&mut self, host: &str)
        ensures
            final(self)@ == old(self)@.add_host(host.spec_bytes()),
    {
        self.hosts.push(vstd::slice::slice_to_vec(host.as_bytes()));
        assert(self@.hosts =~= old(self)@.hosts.insert(host.spec_bytes())) by {
            let before = old(self).hosts@;
            let after = self.hosts@;
            assert(after[before.len() as int]@ == host.spec_bytes());
            assert forall|h: Seq<u8>| known(before, h) implies known(after, h) by {
                let i = choose|i: int| 0 <= i < before.len() && #[trigger] before[i]@ == h;
                assert(after[i]@ == h);
            }
            assert forall|h: Seq<u8>| known(after, h) && h != host.spec_bytes() implies known(
                before,
                h,
            ) by {
                let i = choose|i: int| 0 <= i < after.len() && #[trigger] after[i]@ == h;
                assert(before[i]@ == h);
            }
        }
        assert(self@.names =~= old(self)@.names);
    }

    /// Whether this environment knows the host `host`: it is `localhost`,
    /// or it is written as an IP address, or it was made known.
    pub fn knows_host(&self, host: &str) -> (known: bool)
        ensures
            known == self@.knows_host(host.spec_bytes()),
    {
        self.knows(host.as_bytes())
    }

    /// Whether this environment knows the host with the name `host`.
    fn knows(&self, host: &[u8]) -> (found: bool)
        ensures
            found == self@.knows_host(host@),
    {
        if same_bytes(host, "localhost".as_bytes()) {
            return true;
        }
        if IpAddress::parse_bytes(host).is_some() {
            return true;
        }
        let mut i: usize = 0;
        while i < self.hosts.len()
            invariant
                i <= self.hosts@.len(),
                forall|k: int| 0 <= k < i ==> self.hosts@[k]@ != host@,
            decreases self.hosts.len() - i,
        {
            if same_bytes(self.hosts[i].as_slice(), host) {
                assert(known(self.hosts@, host@));
                return true;
            }
            i += 1;
        }
        false
    }

    /// Gives out the name that a listening link within the process gets
    /// where `given` was asked for.
    pub(crate) fn issue_name(&mut self, given: &str) -> (name: String)
        ensures
            name@ == assigned_name(old(self)@.issued, given@),
            final(self)@ == old(self)@.issue_name(),
    {
        let mut name: String = String::from_str("IntraProcess-");
        push_decimal_u64(&mut name, self.issued);
        if name == String::from_str(given) {
            name.append("'");
        }
        if self.issued < u64::MAX {
            self.issued = self.issued + 1;
        }
        assert(self@.names =~= old(self)@.names);
        name
    }

    /// Whether a link of protocol `protocol` can be opened under `name`.
    pub(crate) fn reaches(&self, protocol: Option<Protocol>, name: &str) -> (reached: bool)
        ensures
            reached == self@.reaches(protocol, name@),
    {
        match protocol {
            Some(Protocol::TCPIP) => match host_named(name.as_bytes()) {
                Some(host) => self.knows(host),
                None => true,
            },
            _ => true,
        }
    }

    /// Where this environment stands in its life.
    pub fn state(&self) -> (state: Lifecycle)
        ensures
            state == self@.state,
    {
        self.state
    }

    /// Prepares this environment for opening a link: the first time, the
    /// environment is initialized; once it was shut down, it refuses.
    pub fn acquire(&mut self) -> (ready: Result<(), Error>)
        ensures
            final(self)@ == old(self)@.acquire().0,
            plain(ready) == old(self)@.acquire().1,
    {
        match self.state {
            Lifecycle::Shutdown => Err(
                Error::custom(
                    String::from_str(
                        "wstp-rs: STDENV has been shutdown. No more links can be created.",
                    ),
                ),
            ),
            _ => {
                self.state = Lifecycle::Initialized;
                assert(self@.names =~= old(self)@.names);
                Ok(())
            },
        }
    }

    /// Shuts this environment down, and says whether it had been
    /// initialized. No link can be opened in it afterwards.
    ///
    /// Every link and every link server of the environment should have been
    /// closed before.
    pub fn shutdown(&mut self) -> (was_initialized: bool)
        ensures
            final(self)@ == old(self)@.shutdown().0,
            was_initialized == old(self)@.shutdown().1,
    {
        let was_initialized: bool = matches!(self.state, Lifecycle::Initialized);
        self.state = Lifecycle::Shutdown;
        assert(self@.names =~= old(self)@.names);
        was_initialized
    }

    /// The place of the name in the list of names, if it is there.
    fn find_name(&self, protocol: Protocol, name: &String) -> (place: Option<usize>)
        ensures
            place is Some <==> self@.names.contains((protocol, name@)),
            place matches Some(i) ==> i < self.names@.len() && self.names@[i as int].protocol
                == protocol && self.names@[i as int].name@ == name@,
    {
        let mut i: usize = 0;
        while i < self.names.len()
            invariant
                i <= self.names@.len(),
                forall|k: int|
                    0 <= k < i ==> !(self.names@[k].protocol == protocol
                        && #[trigger] self.names@[k].name@ == name@),
            decreases self.names.len() - i,
        {
            if self.names[i].protocol == protocol && self.names[i].name == *name {
                return Some(i);
            }
            i += 1;
        }
        None
    }

    /// Takes `name` for a listening link of protocol `protocol`.
    pub(crate) fn bind_name(&mut self, protocol: Protocol, name: &str) -> (bound: Result<(), Error>)
        ensures
            final(self)@ == old(self)@.bind_name(protocol, name@).0,
            plain(bound) == old(self)@.bind_name(protocol, name@).1,
    {
        if name.as_bytes().len() == 0 {
            proof {
                lemma_empty_text(name@);
            }
            return Ok(());
        }
        proof {
            lemma_empty_text(name@);
        }
        let owned: String = String::from_str(name);
        match self.find_name(protocol, &owned) {
            Some(_) => Err(Error::from_code(WSENAMETAKEN, None)),
            None => {
                self.names.push(Binding { protocol, name: owned });
                assert(self@.names =~= old(self)@.names.insert((protocol, name@))) by {
                    let before = old(self).names@;
                    let after = self.names@;
                    let added = before.len() as int;
                    assert(after[added].name@ == name@);
                    assert forall|pair: (Protocol, Seq<char>)|
                        listed(before, pair.0, pair.1) implies listed(after, pair.0, pair.1) by {
                        let i = choose|i: int|
                            0 <= i < before.len() && before[i].protocol == pair.0
                                && #[trigger] before[i].name@ == pair.1;
                        assert(after[i].name@ == pair.1);
                    }
                    assert forall|pair: (Protocol, Seq<char>)|
                        listed(after, pair.0, pair.1) && pair != (protocol, name@) implies listed(
                        before,
                        pair.0,
                        pair.1,
                    ) by {
                        let i = choose|i: int|
                            0 <= i < after.len() && after[i].protocol == pair.0
                                && #[trigger] after[i].name@ == pair.1;
                        assert(before[i].name@ == pair.1);
                    }
                }
                Ok(())
            },
        }
    }

    /// Gives `name` of protocol `protocol` back.
    pub(crate) fn release_name(&mut self, protocol: Protocol, name: &str)
        ensures
            final(self)@ == old(self)@.release_name(protocol, name@),
    {
        let owned: String = String::from_str(name);
        let mut kept: Vec<Binding> = Vec::new();
        let ghost all = self.names@;
        while self.names.len() > 0
            invariant
                self.state == old(self).state,
                self.ports == old(self).ports,
                self.hosts == old(self).hosts,
                self.issued == old(self).issued,
                self.names@.len() <= all.len(),
                self.names@ =~= all.take(self.names@.len() as int),
                owned@ == name@,
                forall|k: int|
                    0 <= k < kept@.len() ==> !((#[trigger] kept@[k]).protocol == protocol
                        && kept@[k].name@ == name@) && listed(
                        all,
                        kept@[k].protocol,
                        kept@[k].name@,
                    ),
                forall|i: int|
                    self.names@.len() <= i < all.len() && !((#[trigger] all[i]).protocol
                        == protocol && all[i].name@ == name@) ==> listed(
                        kept@,
                        all[i].protocol,
                        all[i].name@,
                    ),
            decreases self.names.len(),
        {
            let ghost rest = self.names@.len() as int;
            let ghost had = kept@;
            let last = self.names.pop().unwrap();
            assert(last == all[rest - 1]);
            if !(last.protocol == protocol && last.name == owned) {
                kept.push(last);
                assert(kept@[had.len() as int].name@ == all[rest - 1].name@);
                assert(all[rest - 1].name@ == last.name@);
            }
            assert forall|i: int|
                self.names@.len() <= i < all.len() && !((#[trigger] all[i]).protocol == protocol
                    && all[i].name@ == name@) implies listed(
                kept@,
                all[i].protocol,
                all[i].name@,
            ) by {
                if i >= rest {
                    let k = choose|k: int|
                        0 <= k < had.len() && had[k].protocol == all[i].protocol
                            && #[trigger] had[k].name@ == all[i].name@;
                    assert(kept@[k].name@ == all[i].name@);
                } else {
                    assert(kept@[had.len() as int].name@ == all[i].name@);
                }
            }
        }
        self.names = kept;
        assert(self@.names =~= old(self)@.names.remove((protocol, name@))) by {
            assert forall|pair: (Protocol, Seq<char>)|
                listed(all, pair.0, pair.1) && pair != (protocol, name@) implies listed(
                kept@,
                pair.0,
                pair.1,
            ) by {
                let i = choose|i: int|
                    0 <= i < all.len() && all[i].protocol == pair.0 && #[trigger] all[i].name@
                        == pair.1;
                assert(listed(kept@, all[i].protocol, all[i].name@));
            }
            assert forall|pair: (Protocol, Seq<char>)| listed(kept@, pair.0, pair.1) implies listed(
                all,
                pair.0,
                pair.1,
            ) && pair != (protocol, name@) by {
                let k = choose|k: int|
                    0 <= k < kept@.len() && kept@[k].protocol == pair.0
                        && #[trigger] kept@[k].name@ == pair.1;
                assert(listed(all, kept@[k].protocol, kept@[k].name@));
            }
        }
    }

    /// Takes `port` for a link server.
    pub(crate) fn bind_port(&mut self, port: u16) -> (bound: Result<(), Error>)
        ensures
            final(self)@ == old(self)@.bind_port(port).0,
            plain(bound) == old(self)@.bind_port(port).1,
    {
        if port == 0 {
            return Ok(());
        }
        let mut i: usize = 0;
        while i < self.ports.len()
            invariant
                *self == *old(self),
                port != 0,
                i <= self.ports@.len(),
                forall|k: int| 0 <= k < i ==> self.ports@[k] != port,
            decreases self.ports.len() - i,
        {
            if self.ports[i] == port {
                assert(self.ports@.contains(port));
                return Err(Error::from_code(WSENAMETAKEN, None));
            }
            i += 1;
        }
        self.ports.push(port);
        assert(self@.ports =~= old(self)@.ports.insert(port)) by {
            let before = old(self).ports@;
            let after = self.ports@;
            assert(after[before.len() as int] == port);
            assert forall|p: u16| before.contains(p) implies after.contains(p) by {
                let k = choose|k: int| 0 <= k < before.len() && before[k] == p;
                assert(after[k] == p);
            }
            assert forall|p: u16| after.contains(p) implies before.contains(p) || p == port by {
                let k = choose|k: int| 0 <= k < after.len() && after[k] == p;
                if k < before.len() {
                    assert(before[k] == p);
                }
            }
        }
        assert(self@.names =~= old(self)@.names);
        Ok(())
    }

    /// Gives `port` back.
    pub(crate) fn release_port(&mut self, port: u16)
        ensures
            final(self)@ == old(self)@.release_port(port),
    {
        let mut kept: Vec<u16> = Vec::new();
        let ghost all = self.ports@;
        while self.ports.len() > 0
            invariant
                self.state == old(self).state,
                self.names == old(self).names,
                self.hosts == old(self).hosts,
                self.issued == old(self).issued,
                self.ports@.len() <= all.len(),
                self.ports@ =~= all.take(self.ports@.len() as int),
                forall|k: int|
                    0 <= k < kept@.len() ==> #[trigger] kept@[k] != port && all.contains(kept@[k]),
                forall|i: int|
                    self.ports@.len() <= i < all.len() && #[trigger] all[i] != port
                        ==> kept@.contains(all[i]),
            decreases self.ports.len(),
        {
            let ghost rest = self.ports@.len() as int;
            let ghost had = kept@;
            let last: u16 = self.ports.pop().unwrap();
            assert(last == all[rest - 1]);
            if last != port {
                kept.push(last);
                assert(kept@[had.len() as int] == all[rest - 1]);
            }
            assert forall|i: int|
                self.ports@.len() <= i < all.len() && #[trigger] all[i] != port implies kept@.contains(
                all[i],
            ) by {
                if i >= rest {
                    let k = choose|k: int| 0 <= k < had.len() && had[k] == all[i];
                    assert(kept@[k] == all[i]);
                } else {
                    assert(kept@[had.len() as int] == all[i]);
                }
            }
        }
        self.ports = kept;
        assert(self@.ports =~= old(self)@.ports.remove(port)) by {
            assert forall|p: u16| all.contains(p) && p != port implies kept@.contains(p) by {
                let i = choose|i: int| 0 <= i < all.len() && all[i] == p;
                assert(kept@.contains(all[i]));
            }
            assert forall|p: u16| kept@.contains(p) implies all.contains(p) && p != port by {
                let k = choose|k: int| 0 <= k < kept@.len() && kept@[k] == p;
                assert(all.contains(kept@[k]));
            }
        }
        assert(self@.names =~= old(self)@.names);
    }
}

/// A text without bytes is a text without characters.
proof fn lemma_empty_text(text: Seq<char>)
    ensures
        vstd::utf8::encode_utf8(text).len() == 0 <==> text.len() == 0,
{
    if text.len() > 0 {
        vstd::utf8::encode_utf8_first_scalar(text);
    }
}

/// Deinitialize the environment `env`, and say whether it had been
/// initialized. Once this was done, every attempt to open a link in the
/// environment fails with an error.
///
/// Only call this function after ensuring that all links opened in the
/// environment have been closed.
pub fn shutdown(env: &mut Environment) -> (was_initialized: Result<bool, Error>)
    ensures
        final(env)@ == old(env)@.shutdown().0,
        was_initialized == Ok::<bool, Error>(old(env)@.shutdown().1),
{
    Ok(env.shutdown())
}

} // verus!
