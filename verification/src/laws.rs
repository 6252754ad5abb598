//! What holds of the link and of the expression codec, for all inputs.

use vstd::prelude::*;
use vstd::utf8::encode_utf8;
use crate::codec::{
    encode, everywhere, lemma_get_expr_reads_encoding, lemma_put_expr_writes_encoding, nan_error,
    no_context_error, resolve_nothing, well_formed, writable,
};
use vstd::string::*;
use crate::env::{assigned_name, own_name, shutdown_error, EnvironmentView};
use crate::error::ErrorView;
use crate::link_server::LinkServerView;
use crate::expr::{is_nan_bits, ExprView};
use crate::link::{link_error, Cursor, LinkMode, LinkView, Protocol};
use crate::symbol::absolute_symbol;
use crate::sys::{WSEGSEQ, WSENAMETAKEN};
use crate::token::TokenView;
use crate::transfer::lemma_encoding_is_one_expression;

verus! {

/// An expression written to a loopback link that holds nothing
/// and owes nothing is read back from it as the same expression, and the
/// link holds nothing again.
///
/// The expression is one that this library builds (see [`well_formed`]) and
/// whose sizes can be written (see [`writable`]).
pub proof fn law_round_trip(
    link: LinkView,
    expr: ExprView,
    resolve: spec_fn(Seq<char>) -> Option<Seq<char>>,
)
    requires
        link.mode is Loopback,
        link.owed is None,
        link.unread.len() == 0,
        well_formed(expr),
        writable(expr),
    ensures
        link.put_expr(expr).1 is Ok,
        link.put_expr(expr).0.get_expr(resolve) == (
            LinkView { cursor: Cursor::Fresh, ..link },
            Ok::<ExprView, ErrorView>(expr),
        ),
{
    lemma_put_expr_writes_encoding(link, expr);
    let written = link.put_expr(expr).0;
    assert(written.unread =~= encode(expr) + Seq::<TokenView>::empty());
    lemma_get_expr_reads_encoding(written, expr, Seq::empty(), everywhere(resolve));
    assert(link.unread =~= Seq::<TokenView>::empty());
}

/// The state of a link after its argument count has been asked for `times`
/// times in a row.
pub open spec fn asked_for_count(link: LinkView, times: nat) -> LinkView
    decreases times,
{
    if times == 0 {
        link
    } else {
        asked_for_count(link.get_arg_count().0, (times - 1) as nat)
    }
}

/// An expression that was written to a loopback link can be transferred
/// whole to another loopback link that holds nothing, and is read from there
/// as the same expression; the first link holds nothing afterwards.
pub proof fn law_transfer_keeps_expression(
    link: LinkView,
    dest: LinkView,
    expr: ExprView,
    resolve: spec_fn(Seq<char>) -> Option<Seq<char>>,
)
    requires
        link.mode is Loopback,
        link.owed is None,
        link.unread.len() == 0,
        dest.mode is Loopback,
        dest.unread.len() == 0,
        well_formed(expr),
        writable(expr),
    ensures
        link.put_expr(expr).0.holds_expression(),
        link.put_expr(expr).0.transfer_expr_to(dest).2 is Ok,
        link.put_expr(expr).0.transfer_expr_to(dest).0.unread.len() == 0,
        link.put_expr(expr).0.transfer_expr_to(dest).1.get_expr(resolve) == (
            LinkView { cursor: Cursor::Fresh, ..dest },
            Ok::<ExprView, ErrorView>(expr),
        ),
{
    lemma_put_expr_writes_encoding(link, expr);
    let written = link.put_expr(expr).0;
    let tokens = encode(expr);
    assert(written.unread =~= tokens);
    assert(tokens.subrange(0, tokens.len() as int) =~= tokens);
    lemma_encoding_is_one_expression(expr, tokens, 0, 0);
    assert(tokens.take(tokens.len() as int) =~= tokens);
    assert(tokens.skip(tokens.len() as int) =~= Seq::empty());
    let moved = written.transfer_expr_to(dest).1;
    assert(moved.unread =~= tokens + Seq::<TokenView>::empty());
    lemma_get_expr_reads_encoding(moved, expr, Seq::empty(), everywhere(resolve));
    assert(dest.unread =~= Seq::<TokenView>::empty());
}

/// Once the argument count of a function has been
/// asked for, asking again gives the same count and leaves the link as it
/// is, however often it is done.
pub proof fn law_count_query_is_idempotent(link: LinkView, times: nat)
    requires
        link.get_arg_count().1 is Ok,
    ensures
        asked_for_count(link.get_arg_count().0, times) == link.get_arg_count().0,
        asked_for_count(link.get_arg_count().0, times).get_arg_count() == (
            link.get_arg_count().0,
            link.get_arg_count().1,
        ),
    decreases times,
{
    if times > 0 {
        law_count_query_is_idempotent(link, (times - 1) as nat);
        let once = link.get_arg_count().0;
        assert(once.get_arg_count().0 == once);
        law_count_query_is_idempotent(once, (times - 1) as nat);
    }
}

/// While a function token is the first unread token, its head
/// cannot be read: each read fails with the sequencing error and takes
/// nothing off the link. Once the argument count has been asked for, the
/// token that follows the function token is the one that is read.
pub proof fn law_count_comes_before_head(link: LinkView)
    requires
        link.unread.len() > 0,
        link.unread[0] is Function,
        !(link.cursor is Counted),
    ensures
        link.get_string().1 == Err::<Seq<char>, ErrorView>(link_error(WSEGSEQ)),
        link.get_symbol().1 == Err::<Seq<char>, ErrorView>(link_error(WSEGSEQ)),
        link.get_i64().1 == Err::<i64, ErrorView>(link_error(WSEGSEQ)),
        link.get_real().1 == Err::<u64, ErrorView>(link_error(WSEGSEQ)),
        link.get_string().0.unread == link.unread,
        link.get_symbol().0.unread == link.unread,
        link.get_i64().0.unread == link.unread,
        link.get_real().0.unread == link.unread,
        link.get_arg_count().1 == Ok::<usize, ErrorView>(link.unread[0]->Function_0),
        link.get_arg_count().0.unread == link.unread.skip(1),
        link.unread.len() > 1 && !(link.unread[1] is IntegerArray)
            ==> link.get_arg_count().0.get_token().1 == Ok::<TokenView, ErrorView>(
            link.unread[1],
        ),
{
}

/// A real number that is a NaN can be written to a link, and
/// reading it back as an expression fails with the error that says so.
pub proof fn law_nan_is_rejected(
    link: LinkView,
    bits: u64,
    resolve: spec_fn(Seq<char>) -> Option<Seq<char>>,
)
    requires
        link.mode is Loopback,
        link.owed is None,
        link.unread.len() == 0,
        is_nan_bits(bits),
    ensures
        link.put(TokenView::Real(bits)).1 is Ok,
        link.put(TokenView::Real(bits)).0.get_expr(resolve).1 == Err::<ExprView, ErrorView>(
            nan_error(),
        ),
{
}

/// A symbol name without a context can be written
/// to a link, and reading it back as an expression without a resolver fails
/// with the error that names the symbol.
pub proof fn law_symbol_needs_context(link: LinkView, name: Seq<char>)
    requires
        link.mode is Loopback,
        link.owed is None,
        link.unread.len() == 0,
        !absolute_symbol(name),
        encode_utf8(name).len() <= i32::MAX,
    ensures
        link.put_text("put_symbol"@, name, TokenView::Symbol(name)).1 is Ok,
        link.put_text("put_symbol"@, name, TokenView::Symbol(name)).0.get_expr(
            resolve_nothing(),
        ).1 == Err::<ExprView, ErrorView>(no_context_error(name)),
{
}

/// While a link listens under a name, no second link of the
/// same protocol can listen under it, unless the links are within the
/// process and are named by the environment: the attempt fails with the error that
/// says that the name is taken. Once the first link is closed, the name is
/// free again.
pub proof fn law_name_is_taken_once(
    env: EnvironmentView,
    protocol: Protocol,
    name: Seq<char>,
    first: Seq<Seq<char>>,
    second: Seq<Seq<char>>,
)
    requires
        name.len() > 0,
        !(protocol is IntraProcess),
        env.establish(LinkMode::Listen, Some(protocol), name, first).1 is Ok,
    ensures
        env.establish(LinkMode::Listen, Some(protocol), name, first).0.establish(
            LinkMode::Listen,
            Some(protocol),
            name,
            second,
        ).1 == Err::<LinkView, ErrorView>(link_error(WSENAMETAKEN)),
        env.establish(LinkMode::Listen, Some(protocol), name, first).0.close(
            env.establish(LinkMode::Listen, Some(protocol), name, first).1->Ok_0,
        ).establish(LinkMode::Listen, Some(protocol), name, second).1 is Ok,
{
}

/// A listening link within the process never has the name that was asked
/// for: the environment names it.
pub proof fn law_name_within_process_is_assigned(
    env: EnvironmentView,
    name: Seq<char>,
    options: Seq<Seq<char>>,
)
    ensures
        env.establish(LinkMode::Listen, Some(Protocol::IntraProcess), name, options).1 matches Ok(
            link,
        ) ==> link.name != name && link.name == assigned_name(env.acquire().0.issued, name),
{
    reveal_strlit("'");
    let own = own_name(env.acquire().0.issued);
    assert((own + "'"@).len() == own.len() + 1);
}

/// While a link server listens on a port, no second server
/// can listen on it: the attempt fails with the error that says that the
/// name is taken. Once the first server is closed, the port is free again.
pub proof fn law_port_is_taken_once(
    env: EnvironmentView,
    port: u16,
    first: Seq<char>,
    second: Seq<char>,
)
    requires
        port != 0,
        env.serve(port, first).1 is Ok,
    ensures
        env.serve(port, first).0.serve(port, second).1 == Err::<LinkServerView, ErrorView>(
            link_error(WSENAMETAKEN),
        ),
        env.serve(port, first).0.release_port(port).serve(port, second).1 is Ok,
{
}

/// Once an environment was shut down, nothing can be opened in it: every
/// attempt fails with the error that says so, and the environment stays shut
/// down.
pub proof fn law_shutdown_is_final(
    env: EnvironmentView,
    mode: LinkMode,
    protocol: Option<Protocol>,
    name: Seq<char>,
    options: Seq<Seq<char>>,
    args: Seq<Seq<char>>,
    port: u16,
    interface: Seq<char>,
)
    ensures
        env.shutdown().0.establish(mode, protocol, name, options) == (
            env.shutdown().0,
            Err::<LinkView, ErrorView>(shutdown_error()),
        ),
        env.shutdown().0.open_with_args(args) == (
            env.shutdown().0,
            Err::<LinkView, ErrorView>(shutdown_error()),
        ),
        env.shutdown().0.serve(port, interface) == (
            env.shutdown().0,
            Err::<LinkServerView, ErrorView>(shutdown_error()),
        ),
        env.shutdown().0.shutdown() == (env.shutdown().0, false),
{
}

} // verus!
