//! Opening and closing links.
//!
//! A link is opened from a list of arguments, as the programs of the Wolfram
//! System are: `-linkmode` with `listen`, `connect` or `loopback`,
//! `-linkprotocol` with the name of a protocol, `-linkname` with a name, and
//! `-linkoptions` with every argument behind it. The constructors for the
//! usual kinds of links write these lists.

use vstd::prelude::*;
use vstd::string::*;
use crate::env::{assigned_name, Environment, EnvironmentView};
use crate::error::{coded_error, Error, ErrorView};
use crate::link::{
    fresh_link, link_error, protocol_name, strings_view, viewed, Link, LinkMode, LinkView,
    Protocol,
};
use crate::sys::{WSEARGV, WSEMODE, WSEOK, WSEPROTOCOL, WSEUNKNOWN};

verus! {

/// The characters of each text of a sequence.
pub open spec fn texts(args: Seq<&str>) -> Seq<Seq<char>> {
    Seq::new(args.len(), |i: int| args[i]@)
}

/// What has been understood of the arguments that open a link.
pub struct Opening {
    /// The mode, once it was named.
    pub mode: Option<LinkMode>,
    /// The protocol, once it was named.
    pub protocol: Option<Protocol>,
    /// The name; empty until one was given.
    pub name: Seq<char>,
    /// The options; none until some were given.
    pub options: Seq<Seq<char>>,
}

/// Nothing understood yet.
pub open spec fn blank_opening() -> Opening {
    Opening { mode: None, protocol: None, name: Seq::empty(), options: Seq::empty() }
}

/// The mode that a word names.
pub open spec fn mode_of_word(word: Seq<char>) -> Option<LinkMode> {
    if word == "listen"@ {
        Some(LinkMode::Listen)
    } else if word == "connect"@ {
        Some(LinkMode::Connect)
    } else if word == "loopback"@ {
        Some(LinkMode::Loopback)
    } else {
        None
    }
}

/// The protocol that a word names.
pub open spec fn protocol_of_word(word: Seq<char>) -> Option<Protocol> {
    if word == "IntraProcess"@ {
        Some(Protocol::IntraProcess)
    } else if word == "SharedMemory"@ {
        Some(Protocol::SharedMemory)
    } else if word == "TCPIP"@ {
        Some(Protocol::TCPIP)
    } else {
        None
    }
}

/// Reading the arguments from the place `from` on, with `opening` understood
/// so far. `-wstp` says nothing. `-linkoptions` makes every argument behind
/// it an option. `-linkmode`, `-linkprotocol` and `-linkname` each take the
/// argument behind them. Anything else is not understood.
pub open spec fn read_args(args: Seq<Seq<char>>, from: int, opening: Opening) -> Result<
    Opening,
    ErrorView,
>
    decreases args.len() - from,
{
    if from < 0 || from >= args.len() {
        Ok(opening)
    } else if args[from] == "-wstp"@ {
        read_args(args, from + 1, opening)
    } else if args[from] == "-linkoptions"@ {
        Ok(Opening { options: args.skip(from + 1), ..opening })
    } else if from + 1 >= args.len() {
        Err(link_error(WSEARGV))
    } else if args[from] == "-linkmode"@ {
        match mode_of_word(args[from + 1]) {
            Some(mode) => read_args(args, from + 2, Opening { mode: Some(mode), ..opening }),
            None => Err(link_error(WSEMODE)),
        }
    } else if args[from] == "-linkprotocol"@ {
        match protocol_of_word(args[from + 1]) {
            Some(protocol) => read_args(
                args,
                from + 2,
                Opening { protocol: Some(protocol), ..opening },
            ),
            None => Err(link_error(WSEPROTOCOL)),
        }
    } else if args[from] == "-linkname"@ {
        read_args(args, from + 2, Opening { name: args[from + 1], ..opening })
    } else {
        Err(link_error(WSEARGV))
    }
}

/// What the arguments ask for. A mode must be named. A loopback link has no
/// protocol; for any other link a protocol must be named.
pub open spec fn opening_of(args: Seq<Seq<char>>) -> Result<Opening, ErrorView> {
    match read_args(args, 0, blank_opening()) {
        Err(error) => Err(error),
        Ok(opening) => match opening.mode {
            None => Err(link_error(WSEMODE)),
            Some(LinkMode::Loopback) => Ok(Opening { protocol: None, ..opening }),
            Some(_) => if opening.protocol is None {
                Err(link_error(WSEPROTOCOL))
            } else {
                Ok(opening)
            },
        },
    }
}

/// The arguments that open a listening link.
pub open spec fn listen_args(protocol: Protocol, name: Seq<char>) -> Seq<Seq<char>> {
    seq![
        "-wstp"@,
        "-linkmode"@,
        "listen"@,
        "-linkprotocol"@,
        protocol_name(protocol),
        "-linkname"@,
        name,
        "-linkoptions"@,
        "MLDontInteract"@,
    ]
}

/// The arguments that open a connecting link.
pub open spec fn connect_args(
    protocol: Protocol,
    name: Seq<char>,
    options: Seq<Seq<char>>,
) -> Seq<Seq<char>> {
    let fixed = seq![
        "-wstp"@,
        "-linkmode"@,
        "connect"@,
        "-linkprotocol"@,
        protocol_name(protocol),
        "-linkname"@,
        name,
    ];
    if options.len() == 0 {
        fixed
    } else {
        fixed + seq!["-linkoptions"@] + options
    }
}

impl EnvironmentView {
    /// Opening a link in an environment that is ready for it. A network
    /// link that names a host which the environment does not know fails. A
    /// listening link takes its name, and fails where the name is taken. A
    /// listening link within the process gets a name of the environment's
    /// own in place of the name asked for.
    pub open spec fn open(
        self,
        mode: LinkMode,
        protocol: Option<Protocol>,
        name: Seq<char>,
        options: Seq<Seq<char>>,
    ) -> (EnvironmentView, Result<LinkView, ErrorView>) {
        if !self.reaches(protocol, name) {
            (self, Err(link_error(WSEUNKNOWN)))
        } else {
            match (mode, protocol) {
                (LinkMode::Listen, Some(Protocol::IntraProcess)) => {
                    let own = assigned_name(self.issued, name);
                    let (bound, taken) = self.issue_name().bind_name(Protocol::IntraProcess, own);
                    match taken {
                        Err(error) => (bound, Err(error)),
                        Ok(_) => (bound, Ok(fresh_link(mode, protocol, own, options))),
                    }
                },
                (LinkMode::Listen, Some(listening)) => {
                    let (bound, taken) = self.bind_name(listening, name);
                    match taken {
                        Err(error) => (bound, Err(error)),
                        Ok(_) => (bound, Ok(fresh_link(mode, protocol, name, options))),
                    }
                },
                _ => (self, Ok(fresh_link(mode, protocol, name, options))),
            }
        }
    }

    /// Making the environment ready, then opening a link in it.
    pub open spec fn establish(
        self,
        mode: LinkMode,
        protocol: Option<Protocol>,
        name: Seq<char>,
        options: Seq<Seq<char>>,
    ) -> (EnvironmentView, Result<LinkView, ErrorView>) {
        let (ready, acquired) = self.acquire();
        match acquired {
            Err(error) => (ready, Err(error)),
            Ok(_) => ready.open(mode, protocol, name, options),
        }
    }

    /// Opening a link from arguments: the environment is made ready, the
    /// arguments are read, and the link that they ask for is opened.
    pub open spec fn open_with_args(self, args: Seq<Seq<char>>) -> (
        EnvironmentView,
        Result<LinkView, ErrorView>,
    ) {
        let (ready, acquired) = self.acquire();
        match acquired {
            Err(error) => (ready, Err(error)),
            Ok(_) => match opening_of(args) {
                Err(error) => (ready, Err(error)),
                Ok(opening) => ready.open(
                    opening.mode->0,
                    opening.protocol,
                    opening.name,
                    opening.options,
                ),
            },
        }
    }

    /// Closing a link: the name under which it listened is free again.
    pub open spec fn close(self, link: LinkView) -> EnvironmentView {
        match (link.mode, link.protocol) {
            (LinkMode::Listen, Some(protocol)) => self.release_name(protocol, link.name),
            _ => self,
        }
    }
}

/// Whether two texts are the same.
fn same_text(a: &str, b: &str) -> (same: bool)
    ensures
        same == (a@ == b@),
{
    String::from_str(a) == String::from_str(b)
}

/// The mode that `word` names.
fn mode_named(word: &str) -> (mode: Option<LinkMode>)
    ensures
        mode == mode_of_word(word@),
{
    if same_text(word, "listen") {
        Some(LinkMode::Listen)
    } else if same_text(word, "connect") {
        Some(LinkMode::Connect)
    } else if same_text(word, "loopback") {
        Some(LinkMode::Loopback)
    } else {
        None
    }
}

/// The protocol that `word` names.
fn protocol_named(word: &str) -> (protocol: Option<Protocol>)
    ensures
        protocol == protocol_of_word(word@),
{
    if same_text(word, "IntraProcess") {
        Some(Protocol::IntraProcess)
    } else if same_text(word, "SharedMemory") {
        Some(Protocol::SharedMemory)
    } else if same_text(word, "TCPIP") {
        Some(Protocol::TCPIP)
    } else {
        None
    }
}

/// Copies of the texts of `args` from the place `from` on.
fn owned_from(args: &[&str], from: usize) -> (copies: Vec<String>)
    requires
        from <= args@.len(),
    ensures
        strings_view(copies@) == texts(args@).skip(from as int),
{
    let mut copies: Vec<String> = Vec::new();
    let mut i: usize = from;
    while i < args.len()
        invariant
            from <= i <= args@.len(),
            copies@.len() == i - from,
            forall|k: int| 0 <= k < copies@.len() ==> copies@[k]@ == args@[from + k]@,
        decreases args.len() - i,
    {
        copies.push(String::from_str(args[i]));
        i += 1;
    }
    assert(strings_view(copies@) =~= texts(args@).skip(from as int));
    copies
}

/// The words that keys of the arguments are compared with are all
/// different.
proof fn lemma_keys_differ()
    ensures
        "-wstp"@ != "-linkoptions"@,
        "-wstp"@ != "-linkmode"@,
        "-wstp"@ != "-linkprotocol"@,
        "-wstp"@ != "-linkname"@,
        "-linkoptions"@ != "-linkmode"@,
        "-linkoptions"@ != "-linkprotocol"@,
        "-linkoptions"@ != "-linkname"@,
        "-linkmode"@ != "-linkprotocol"@,
        "-linkmode"@ != "-linkname"@,
        "-linkprotocol"@ != "-linkname"@,
        mode_of_word("listen"@) == Some(LinkMode::Listen),
        mode_of_word("connect"@) == Some(LinkMode::Connect),
        mode_of_word("loopback"@) == Some(LinkMode::Loopback),
        forall|protocol: Protocol| #[trigger]
            protocol_of_word(protocol_name(protocol)) == Some(protocol),
{
    reveal_strlit("-wstp");
    reveal_strlit("-linkoptions");
    reveal_strlit("-linkmode");
    reveal_strlit("-linkprotocol");
    reveal_strlit("-linkname");
    reveal_strlit("listen");
    reveal_strlit("connect");
    reveal_strlit("loopback");
    reveal_strlit("IntraProcess");
    reveal_strlit("SharedMemory");
    reveal_strlit("TCPIP");
    assert("-linkmode"@[5] == 'm');
    assert("-linkname"@[5] == 'n');
    assert("IntraProcess"@[0] == 'I');
    assert("SharedMemory"@[0] == 'S');
    assert("listen"@.len() == 6);
    assert("connect"@.len() == 7);
    assert("loopback"@.len() == 8);
    assert("TCPIP"@.len() == 5);
    assert("-wstp"@.len() == 5);
    assert("-linkoptions"@.len() == 12);
    assert("-linkprotocol"@.len() == 13);
    assert("-linkmode"@.len() == 9);
    assert("-linkname"@.len() == 9);
}

/// The arguments of [`listen_args`] ask for a listening link of that
/// protocol and name, which does not announce itself.
pub proof fn lemma_listen_args(protocol: Protocol, name: Seq<char>)
    ensures
        opening_of(listen_args(protocol, name)) == Ok::<Opening, ErrorView>(
            Opening {
                mode: Some(LinkMode::Listen),
                protocol: Some(protocol),
                name,
                options: seq!["MLDontInteract"@],
            },
        ),
{
    lemma_keys_differ();
    let args = listen_args(protocol, name);
    reveal_with_fuel(read_args, 6);
    assert(args.skip(8) =~= seq!["MLDontInteract"@]);
    assert(protocol_of_word(args[4]) == Some(protocol));
}

/// The arguments of [`connect_args`] ask for a connecting link of that
/// protocol and name, with those options.
pub proof fn lemma_connect_args(protocol: Protocol, name: Seq<char>, options: Seq<Seq<char>>)
    ensures
        opening_of(connect_args(protocol, name, options)) == Ok::<Opening, ErrorView>(
            Opening { mode: Some(LinkMode::Connect), protocol: Some(protocol), name, options },
        ),
{
    lemma_keys_differ();
    let args = connect_args(protocol, name, options);
    reveal_with_fuel(read_args, 6);
    assert(protocol_of_word(args[4]) == Some(protocol));
    if options.len() == 0 {
        assert(options =~= Seq::empty());
    } else {
        assert(args.skip(8) =~= options);
    }
}

/// The arguments that open a listening link of protocol `protocol` under the
/// name `name`, as they are handed to the transport.
pub fn listen_arguments(protocol: Protocol, name: &str) -> (args: Vec<String>)
    ensures
        strings_view(args@) == listen_args(protocol, name@),
{
    let mut args: Vec<String> = Vec::new();
    args.push(String::from_str("-wstp"));
    args.push(String::from_str("-linkmode"));
    args.push(String::from_str("listen"));
    args.push(String::from_str("-linkprotocol"));
    args.push(String::from_str(protocol.name()));
    args.push(String::from_str("-linkname"));
    args.push(String::from_str(name));
    // Prevent "Link created on: .." message from being printed.
    args.push(String::from_str("-linkoptions"));
    args.push(String::from_str("MLDontInteract"));
    assert(strings_view(args@) =~= listen_args(protocol, name@));
    args
}

/// The arguments that open a connecting link of protocol `protocol` to the
/// name `name`, as they are handed to the transport: the options follow
/// `-linkoptions`, which is left out where there are none.
pub fn connect_arguments(protocol: Protocol, name: &str, options: &[&str]) -> (args: Vec<String>)
    ensures
        strings_view(args@) == connect_args(protocol, name@, texts(options@)),
{
    let mut args: Vec<String> = Vec::new();
    args.push(String::from_str("-wstp"));
    args.push(String::from_str("-linkmode"));
    args.push(String::from_str("connect"));
    args.push(String::from_str("-linkprotocol"));
    args.push(String::from_str(protocol.name()));
    args.push(String::from_str("-linkname"));
    args.push(String::from_str(name));
    assert(strings_view(args@) =~= connect_args(protocol, name@, Seq::empty()));
    if options.len() > 0 {
        args.push(String::from_str("-linkoptions"));
        let ghost fixed = args@;
        let mut i: usize = 0;
        while i < options.len()
            invariant
                i <= options@.len(),
                args@.len() == 8 + i,
                fixed.len() == 8,
                strings_view(fixed) == connect_args(protocol, name@, Seq::empty()) + seq![
                    "-linkoptions"@,
                ],
                forall|k: int| 0 <= k < 8 ==> args@[k] == fixed[k],
                forall|k: int| 0 <= k < i ==> args@[8 + k]@ == options@[k]@,
            decreases options.len() - i,
        {
            args.push(String::from_str(options[i]));
            i += 1;
        }
        assert(strings_view(args@) =~= connect_args(protocol, name@, texts(options@))) by {
            let built = strings_view(args@);
            let wanted = connect_args(protocol, name@, texts(options@));
            assert(built.len() == wanted.len());
            assert forall|k: int| 0 <= k < built.len() implies built[k] == wanted[k] by {
                if k < 8 {
                    assert(strings_view(fixed)[k] == fixed[k]@);
                }
            }
        }
    } else {
        assert(texts(options@) =~= Seq::empty());
    }
    args
}

/// The texts of `args`, borrowed.
fn borrowed(args: &Vec<String>) -> (texts_of: Vec<&str>)
    ensures
        texts(texts_of@) == strings_view(args@),
{
    let mut texts_of: Vec<&str> = Vec::new();
    let mut i: usize = 0;
    while i < args.len()
        invariant
            i <= args@.len(),
            texts_of@.len() == i,
            forall|k: int| 0 <= k < i ==> texts_of@[k]@ == args@[k]@,
        decreases args.len() - i,
    {
        texts_of.push(args[i].as_str());
        i += 1;
    }
    assert(texts(texts_of@) =~= strings_view(args@));
    texts_of
}

/// What the transport's answer to an attempt to open a link, a link server
/// or a connection means: the attempt failed exactly where the transport
/// handed out no handle or set a code other than [`WSEOK`], and the error
/// then carries that code. `looked_up` is the transport's description of the
/// code, where it has one.
pub fn open_result(handle_is_null: bool, code: i32, looked_up: Option<String>) -> (opened: Result<
    (),
    Error,
>)
    ensures
        opened is Err <==> handle_is_null || code != WSEOK,
        opened matches Err(e) ==> e@ == coded_error(
            code,
            match looked_up {
                Some(message) => Some(message@),
                None => None,
            },
        ),
{
    if handle_is_null || code != WSEOK {
        Err(Error::from_code(code, looked_up))
    } else {
        Ok(())
    }
}

impl Link {
    /// Create a new Loopback type link.
    pub fn new_loopback(env: &mut Environment) -> (link: Result<Link, Error>)
        ensures
            final(env)@ == old(env)@.establish(
                LinkMode::Loopback,
                None,
                Seq::empty(),
                Seq::empty(),
            ).0,
            viewed(link) == old(env)@.establish(
                LinkMode::Loopback,
                None,
                Seq::empty(),
                Seq::empty(),
            ).1,
    {
        match env.acquire() {
            Ok(()) => {},
            Err(error) => {
                return Err(error);
            },
        }
        let options: Vec<String> = Vec::new();
        assert(strings_view(options@) =~= Seq::empty());
        Ok(Link::opened(LinkMode::Loopback, None, String::new(), options))
    }

    /// Create a new named WSTP link using `protocol`.
    ///
    /// The link takes its name in the environment: while it is open, no other
    /// link of the protocol can listen under the name.
    pub fn listen(env: &mut Environment, protocol: Protocol, name: &str) -> (link: Result<
        Link,
        Error,
    >)
        ensures
            final(env)@ == old(env)@.establish(
                LinkMode::Listen,
                Some(protocol),
                name@,
                seq!["MLDontInteract"@],
            ).0,
            viewed(link) == old(env)@.establish(
                LinkMode::Listen,
                Some(protocol),
                name@,
                seq!["MLDontInteract"@],
            ).1,
    {
        let args: Vec<String> = listen_arguments(protocol, name);
        let strings: Vec<&str> = borrowed(&args);
        proof {
            lemma_listen_args(protocol, name@);
        }
        Link::open_with_args(env, strings.as_slice())
    }

    /// Connect to an existing named WSTP link.
    pub fn connect(env: &mut Environment, protocol: Protocol, name: &str) -> (link: Result<
        Link,
        Error,
    >)
        ensures
            final(env)@ == old(env)@.establish(
                LinkMode::Connect,
                Some(protocol),
                name@,
                Seq::empty(),
            ).0,
            viewed(link) == old(env)@.establish(
                LinkMode::Connect,
                Some(protocol),
                name@,
                Seq::empty(),
            ).1,
    {
        let none: Vec<&str> = Vec::new();
        assert(texts(none@) =~= Seq::empty());
        Link::connect_with_options(env, protocol, name, none.as_slice())
    }

    /// Connect to an existing named WSTP link, with the given options.
    pub fn connect_with_options(
        env: &mut Environment,
        protocol: Protocol,
        name: &str,
        options: &[&str],
    ) -> (link: Result<Link, Error>)
        ensures
            final(env)@ == old(env)@.establish(
                LinkMode::Connect,
                Some(protocol),
                name@,
                texts(options@),
            ).0,
            viewed(link) == old(env)@.establish(
                LinkMode::Connect,
                Some(protocol),
                name@,
                texts(options@),
            ).1,
    {
        let args: Vec<String> = connect_arguments(protocol, name, options);
        let strings: Vec<&str> = borrowed(&args);
        proof {
            lemma_connect_args(protocol, name@, texts(options@));
        }
        Link::open_with_args(env, strings.as_slice())
    }

    /// Open a link from the arguments that describe it.
    ///
    /// This function can be used to create a [`Link`] of any protocol and
    /// mode. Prefer to use one of the constructor methods listed below when
    /// you know the type of link to be created.
    ///
    /// * [`Link::listen()`]
    /// * [`Link::connect()`]
    /// * [`Link::tcpip_listen()`]
    /// * [`Link::tcpip_connect()`]
    /// * [`Link::connect_to_link_server()`]
    pub fn open_with_args(env: &mut Environment, args: &[&str]) -> (link: Result<Link, Error>)
        ensures
            final(env)@ == old(env)@.open_with_args(texts(args@)).0,
            viewed(link) == old(env)@.open_with_args(texts(args@)).1,
    {
        match env.acquire() {
            Ok(()) => {},
            Err(error) => {
                return Err(error);
            },
        }
        let ghost words = texts(args@);
        let mut mode: Option<LinkMode> = None;
        let mut protocol: Option<Protocol> = None;
        let mut name: String = String::new();
        let mut options: Vec<String> = Vec::new();
        assert(strings_view(options@) =~= Seq::empty());
        let mut i: usize = 0;
        while i < args.len()
            invariant
                i <= args@.len(),
                words == texts(args@),
                env@ == old(env)@.acquire().0,
                old(env)@.acquire().1 is Ok,
                read_args(words, 0, blank_opening()) == read_args(
                    words,
                    i as int,
                    Opening { mode, protocol, name: name@, options: strings_view(options@) },
                ),
            decreases args.len() - i,
        {
            let key: &str = args[i];
            assert(words[i as int] == key@);
            if same_text(key, "-wstp") {
                i += 1;
            } else if same_text(key, "-linkoptions") {
                options = owned_from(args, i + 1);
                i = args.len();
            } else if i + 1 >= args.len() {
                return Err(Error::from_code(WSEARGV, None));
            } else {
                let value: &str = args[i + 1];
                assert(words[i + 1] == value@);
                if same_text(key, "-linkmode") {
                    match mode_named(value) {
                        Some(named) => {
                            mode = Some(named);
                        },
                        None => {
                            return Err(Error::from_code(WSEMODE, None));
                        },
                    }
                } else if same_text(key, "-linkprotocol") {
                    match protocol_named(value) {
                        Some(named) => {
                            protocol = Some(named);
                        },
                        None => {
                            return Err(Error::from_code(WSEPROTOCOL, None));
                        },
                    }
                } else if same_text(key, "-linkname") {
                    name = String::from_str(value);
                } else {
                    return Err(Error::from_code(WSEARGV, None));
                }
                i += 2;
            }
        }
        let mode: LinkMode = match mode {
            Some(mode) => mode,
            None => {
                return Err(Error::from_code(WSEMODE, None));
            },
        };
        let protocol: Option<Protocol> = match mode {
            LinkMode::Loopback => None,
            _ => protocol,
        };
        match (mode, protocol) {
            (LinkMode::Loopback, _) => {},
            (_, None) => {
                return Err(Error::from_code(WSEPROTOCOL, None));
            },
            _ => {},
        }
        if !env.reaches(protocol, name.as_str()) {
            return Err(Error::from_code(WSEUNKNOWN, None));
        }
        match (mode, protocol) {
            (LinkMode::Listen, Some(Protocol::IntraProcess)) => {
                let own: String = env.issue_name(name.as_str());
                match env.bind_name(Protocol::IntraProcess, own.as_str()) {
                    Err(error) => Err(error),
                    Ok(()) => Ok(Link::opened(mode, protocol, own, options)),
                }
            },
            (LinkMode::Listen, Some(listening)) => match env.bind_name(listening, name.as_str()) {
                Err(error) => Err(error),
                Ok(()) => Ok(Link::opened(mode, protocol, name, options)),
            },
            _ => Ok(Link::opened(mode, protocol, name, options)),
        }
    }

    /// Close this end of the link. The name under which the link listened is
    /// free again.
    pub fn close(self, env: &mut Environment)
        ensures
            final(env)@ == old(env)@.close(self@),
    {
        match (self.mode(), self.protocol()) {
            (LinkMode::Listen, Some(protocol)) => {
                let name: String = self.link_name();
                env.release_name(protocol, name.as_str());
            },
            _ => {},
        }
    }
}

} // verus!
