//! The expression codec: how an expression is written to a link as tokens,
//! and how tokens are read back as an expression.

use vstd::prelude::*;
use vstd::string::*;
use vstd::utf8::encode_utf8;
use crate::error::{custom_error, Error, ErrorView};
use crate::expr::{is_nan_bits, Expr, ExprView, Real};
use crate::link::{link_error, plain, viewed, Cursor, Link, LinkView};
use crate::symbol::{absolute_symbol, Symbol};
use crate::sys::{WSEABORT, WSEGSEQ};
use crate::token::{Atom, TokenView};

verus! {

/// The tokens that stand for an expression: an atom is one token; a normal
/// expression is a function token with the count of its arguments, then its
/// head, then its arguments in order.
pub open spec fn encode(expr: ExprView) -> Seq<TokenView>
    decreases expr,
{
    match expr {
        ExprView::Integer(value) => seq![TokenView::Integer(value)],
        ExprView::Real(bits) => seq![TokenView::Real(bits)],
        ExprView::String(value) => seq![TokenView::String(value)],
        ExprView::Symbol(name) => seq![TokenView::Symbol(name)],
        ExprView::Normal(head, args) => seq![TokenView::Function(args.len() as usize)] + encode(
            *head,
        ) + encode_all(args),
    }
}

/// The tokens that stand for a sequence of expressions, one after the other.
pub open spec fn encode_all(exprs: Seq<ExprView>) -> Seq<TokenView>
    decreases exprs,
{
    if exprs.len() == 0 {
        Seq::empty()
    } else {
        encode(exprs[0]) + encode_all(exprs.skip(1))
    }
}

/// Whether every size in an expression can be written: each text is at most
/// `i32::MAX` bytes long in UTF-8, and no normal expression has more than
/// `i32::MAX` arguments.
pub open spec fn writable(expr: ExprView) -> bool
    decreases expr,
{
    match expr {
        ExprView::Integer(_) => true,
        ExprView::Real(_) => true,
        ExprView::String(value) => encode_utf8(value).len() <= i32::MAX,
        ExprView::Symbol(name) => encode_utf8(name).len() <= i32::MAX,
        ExprView::Normal(head, args) => {
            &&& args.len() <= i32::MAX
            &&& writable(*head)
            &&& forall|i: int| 0 <= i < args.len() ==> writable(#[trigger] args[i])
        },
    }
}

/// Whether an expression is one that this library builds: no real number in
/// it is a NaN, and every symbol in it is named with its context.
pub open spec fn well_formed(expr: ExprView) -> bool
    decreases expr,
{
    match expr {
        ExprView::Integer(_) => true,
        ExprView::Real(bits) => !is_nan_bits(bits),
        ExprView::String(_) => true,
        ExprView::Symbol(name) => absolute_symbol(name),
        ExprView::Normal(head, args) => {
            &&& well_formed(*head)
            &&& forall|i: int| 0 <= i < args.len() ==> well_formed(#[trigger] args[i])
        },
    }
}

/// The error for a real number that is a NaN.
pub open spec fn nan_error() -> ErrorView {
    custom_error("NaN value passed on WSLINK cannot be used to construct an Expr"@)
}

/// The error for a symbol that has no context and that nothing resolved.
pub open spec fn no_context_error(name: Seq<char>) -> ErrorView {
    custom_error("symbol name '"@ + name + "' has no context"@)
}

/// The symbol that a name read from a link stands for. A name with its
/// context stands for itself. For any other name the resolver was asked, and
/// `resolved` is its answer.
pub open spec fn symbol_of(name: Seq<char>, resolved: Option<Seq<char>>) -> Result<
    Seq<char>,
    ErrorView,
> {
    if absolute_symbol(name) {
        Ok(name)
    } else {
        match resolved {
            Some(symbol) => Ok(symbol),
            None => Err(no_context_error(name)),
        }
    }
}

impl LinkView {
    /// Writing an expression, token by token. Writing stops at the first
    /// token that is refused.
    pub open spec fn put_expr(self, expr: ExprView) -> (LinkView, Result<(), ErrorView>)
        decreases expr,
    {
        match expr {
            ExprView::Integer(value) => self.put(TokenView::Integer(value)),
            ExprView::Real(bits) => self.put(TokenView::Real(bits)),
            ExprView::String(value) => self.put_text(
                "put_str"@,
                value,
                TokenView::String(value),
            ),
            ExprView::Symbol(name) => self.put_text("put_symbol"@, name, TokenView::Symbol(name)),
            ExprView::Normal(head, args) => {
                let (started, start) = self.put_function(None, args.len() as usize);
                if start is Err {
                    (started, start)
                } else {
                    let (headed, top) = started.put_expr(*head);
                    if top is Err {
                        (headed, top)
                    } else {
                        headed.put_exprs(args)
                    }
                }
            },
        }
    }

    /// Writing expressions one after the other, up to the first that fails.
    pub open spec fn put_exprs(self, exprs: Seq<ExprView>) -> (LinkView, Result<(), ErrorView>)
        decreases exprs,
    {
        if exprs.len() == 0 {
            (self, Ok(()))
        } else {
            let (next, first) = self.put_expr(exprs[0]);
            if first is Err {
                (next, first)
            } else {
                next.put_exprs(exprs.skip(1))
            }
        }
    }

    /// This state once `tokens` have been written, one after the other.
    pub open spec fn written_all(self, tokens: Seq<TokenView>) -> LinkView {
        LinkView { owed: None, ..self.appended(tokens) }
    }

    /// Reading an expression, where `answers` stands for the resolver of
    /// symbols without a context: `answers(place, name)` is what the resolver
    /// answers for the name `name` of the symbol behind which `place` tokens
    /// are left to read. `fuel` bounds the depth of the reading; the count of
    /// unread tokens is always enough.
    pub open spec fn get_expr_within(
        self,
        answers: spec_fn(nat, Seq<char>) -> Option<Seq<char>>,
        fuel: nat,
    ) -> (LinkView, Result<ExprView, ErrorView>)
        decreases fuel, 0nat,
    {
        let (read, token) = self.get_token();
        match token {
            Err(error) => (read, Err(error)),
            Ok(TokenView::Integer(value)) => (read, Ok(ExprView::Integer(value))),
            Ok(TokenView::Real(bits)) => if is_nan_bits(bits) {
                (read, Err(nan_error()))
            } else {
                (read, Ok(ExprView::Real(bits)))
            },
            Ok(TokenView::String(value)) => (read, Ok(ExprView::String(value))),
            Ok(TokenView::Symbol(name)) => match symbol_of(
                name,
                answers(read.unread.len(), name),
            ) {
                Ok(symbol) => (read, Ok(ExprView::Symbol(symbol))),
                Err(error) => (read, Err(error)),
            },
            Ok(TokenView::IntegerArray(_, _)) => (read, Err(link_error(WSEGSEQ))),
            Ok(TokenView::Function(count)) => if fuel == 0 {
                (read, Err(link_error(WSEABORT)))
            } else {
                let (headed, head) = read.get_expr_within(answers, (fuel - 1) as nat);
                match head {
                    Err(error) => (headed, Err(error)),
                    Ok(head) => normal_outcome(
                        head,
                        headed.get_exprs_within(
                            answers,
                            (fuel - 1) as nat,
                            count as nat,
                            Seq::empty(),
                        ),
                    ),
                }
            },
        }
    }

    /// Reading `count` expressions one after the other, behind those of
    /// `before`, up to the first that fails.
    pub open spec fn get_exprs_within(
        self,
        answers: spec_fn(nat, Seq<char>) -> Option<Seq<char>>,
        fuel: nat,
        count: nat,
        before: Seq<ExprView>,
    ) -> (LinkView, Result<Seq<ExprView>, ErrorView>)
        decreases fuel, 1nat + count,
    {
        if count == 0 {
            (self, Ok(before))
        } else {
            let (next, first) = self.get_expr_within(answers, fuel);
            match first {
                Err(error) => (next, Err(error)),
                Ok(first) => if fuel == 0 {
                    (next, Err(link_error(WSEABORT)))
                } else {
                    next.get_exprs_within(
                        answers,
                        (fuel - 1) as nat,
                        (count - 1) as nat,
                        before.push(first),
                    )
                },
            }
        }
    }

    /// Reading an expression, where `answers` stands for the resolver of
    /// symbols without a context, place by place: an integer, a real number
    /// that is no NaN, a string or a symbol is one token; a function token
    /// of `n` arguments is followed by the head and then by `n` expressions.
    /// Reading stops at the first token that cannot be read.
    pub open spec fn get_expr_answered(
        self,
        answers: spec_fn(nat, Seq<char>) -> Option<Seq<char>>,
    ) -> (LinkView, Result<ExprView, ErrorView>) {
        self.get_expr_within(answers, self.unread.len())
    }

    /// Reading `count` expressions one after the other, behind those of
    /// `before`, up to the first that fails.
    pub open spec fn get_exprs_answered(
        self,
        answers: spec_fn(nat, Seq<char>) -> Option<Seq<char>>,
        count: nat,
        before: Seq<ExprView>,
    ) -> (LinkView, Result<Seq<ExprView>, ErrorView>) {
        self.get_exprs_within(answers, self.unread.len(), count, before)
    }

    /// Reading an expression, where `resolve` stands for a resolver that
    /// gives one answer for one name, wherever the name stands.
    pub open spec fn get_expr(self, resolve: spec_fn(Seq<char>) -> Option<Seq<char>>) -> (
        LinkView,
        Result<ExprView, ErrorView>,
    ) {
        self.get_expr_answered(everywhere(resolve))
    }
}

/// The answers of a resolver that gives one answer for one name, wherever
/// the name stands.
pub open spec fn everywhere(resolve: spec_fn(Seq<char>) -> Option<Seq<char>>) -> spec_fn(
    nat,
    Seq<char>,
) -> Option<Seq<char>> {
    |place: nat, name: Seq<char>| resolve(name)
}

/// The last `count` tokens of `unread`.
pub open spec fn left_of(unread: Seq<TokenView>, count: nat) -> Seq<TokenView> {
    unread.skip(unread.len() - count)
}

/// The token of `unread` behind which `place` tokens stand.
pub open spec fn token_at(unread: Seq<TokenView>, place: nat) -> TokenView {
    unread[unread.len() - 1 - place]
}

/// Whether reading the token of `unread` behind which `place` tokens stand
/// asks the resolver about `name`: the token is a symbol of that name, and
/// the name has no context.
pub open spec fn consults(unread: Seq<TokenView>, place: nat, name: Seq<char>) -> bool {
    place < unread.len() && token_at(unread, place) == TokenView::Symbol(name) && !absolute_symbol(
        name,
    )
}

/// Whether two resolvers give the same answers wherever reading `unread`
/// asks them, as long as at least `low` tokens are left.
pub open spec fn agree(
    first: spec_fn(nat, Seq<char>) -> Option<Seq<char>>,
    second: spec_fn(nat, Seq<char>) -> Option<Seq<char>>,
    unread: Seq<TokenView>,
    low: nat,
) -> bool {
    forall|place: nat, name: Seq<char>|
        low <= place && #[trigger] consults(unread, place, name) ==> first(place, name) == second(
            place,
            name,
        )
}

/// Whether an error is one that reading an expression can end with: an
/// error of the link, with its code, or the error for a NaN, or the error for
/// a symbol without context.
pub open spec fn reading_error(error: ErrorView) -> bool {
    error.code is Some || error == nan_error() || exists|name: Seq<char>|
        error == #[trigger] no_context_error(name)
}

/// The outcome of reading a normal expression, from its head and the outcome
/// of reading its arguments.
pub open spec fn normal_outcome(
    head: ExprView,
    rest: (LinkView, Result<Seq<ExprView>, ErrorView>),
) -> (LinkView, Result<ExprView, ErrorView>) {
    match rest.1 {
        Err(error) => (rest.0, Err(error)),
        Ok(args) => (rest.0, Ok(ExprView::Normal(Box::new(head), args))),
    }
}

/// The resolver that resolves nothing.
pub open spec fn resolve_nothing() -> spec_fn(Seq<char>) -> Option<Seq<char>> {
    |name: Seq<char>| None::<Seq<char>>
}

/// The name of the symbol that a resolver gave, if it gave one.
pub open spec fn option_name(symbol: Option<Symbol>) -> Option<Seq<char>> {
    match symbol {
        Some(symbol) => Some(symbol@),
        None => None,
    }
}

/// Whether a resolver gives one answer for one name.
pub open spec fn single_valued<F: Fn(&str) -> Option<Symbol>>(resolver: F) -> bool {
    forall|a: &str, b: &str, x: Option<Symbol>, y: Option<Symbol>|
        a@ == b@ && #[trigger] call_ensures(resolver, (a,), x) && #[trigger] call_ensures(
            resolver,
            (b,),
            y,
        ) ==> option_name(x) == option_name(y)
}

/// Whether `answer` is something that a resolver can answer for the name
/// `name`.
pub open spec fn answers<F: Fn(&str) -> Option<Symbol>>(
    resolver: F,
    name: Seq<char>,
    answer: Option<Seq<char>>,
) -> bool {
    exists|asked: &str, given: Option<Symbol>|
        asked@ == name && #[trigger] call_ensures(resolver, (asked,), given) && option_name(given)
            == answer
}

/// What a resolver answers for the name `name`.
pub open spec fn resolver_answer<F: Fn(&str) -> Option<Symbol>>(
    resolver: F,
    name: Seq<char>,
) -> Option<Seq<char>> {
    if exists|answer: Option<Seq<char>>| answers(resolver, name, answer) {
        choose|answer: Option<Seq<char>>| answers(resolver, name, answer)
    } else {
        None
    }
}

/// A resolver as a function from names to answers.
pub open spec fn resolver_model<F: Fn(&str) -> Option<Symbol>>(resolver: F) -> spec_fn(
    Seq<char>,
) -> Option<Seq<char>> {
    |name: Seq<char>| resolver_answer(resolver, name)
}

/// The symbol that a name read from a link stands for, where `parsed` is
/// what parsing the name as a symbol with its context gave and `resolved` is
/// what the resolver gave: the parsed symbol where there is one, else the
/// resolved symbol where there is one, else the error that shows the name.
pub fn symbol_or_error(name: &str, parsed: Option<Symbol>, resolved: Option<Symbol>) -> (symbol:
    Result<Symbol, Error>)
    ensures
        viewed(symbol) == (match (parsed, resolved) {
            (Some(symbol), _) => Ok::<Seq<char>, ErrorView>(symbol@),
            (None, Some(symbol)) => Ok(symbol@),
            (None, None) => Err(no_context_error(name@)),
        }),
{
    match parsed {
        Some(symbol) => Ok(symbol),
        None => match resolved {
            Some(symbol) => Ok(symbol),
            None => {
                let mut message: String = String::from_str("symbol name '");
                message.append(name);
                message.append("' has no context");
                Err(Error::custom(message))
            },
        },
    }
}

/// The symbol that a name read from a link stands for: the name itself where
/// it is written with its context, else what the resolver gave for it, if
/// anything.
pub fn resolve_symbol(name: &str, resolved: Option<Symbol>) -> (symbol: Result<Symbol, Error>)
    ensures
        viewed(symbol) == symbol_of(name@, option_name(resolved)),
{
    symbol_or_error(name, Symbol::try_new(name), resolved)
}

/// The real number that bits read from a link stand for, unless they are a
/// NaN.
pub fn real_of_bits(bits: u64) -> (number: Result<Real, Error>)
    ensures
        match number {
            Ok(number) => !is_nan_bits(bits) && number@ == bits,
            Err(error) => is_nan_bits(bits) && error@ == nan_error(),
        },
{
    match Real::from_bits(bits) {
        Some(number) => Ok(number),
        None => Err(
            Error::custom(
                String::from_str("NaN value passed on WSLINK cannot be used to construct an Expr"),
            ),
        ),
    }
}

/// Reading does not depend on the fuel, as long as there is at least as much
/// of it as there are unread tokens; it takes tokens off the front of the
/// unread tokens and adds none, and takes at least one where it succeeds.
pub proof fn lemma_get_expr_fuel(
    link: LinkView,
    answers: spec_fn(nat, Seq<char>) -> Option<Seq<char>>,
    fuel: nat,
)
    requires
        fuel >= link.unread.len(),
    ensures
        link.get_expr_within(answers, fuel) == link.get_expr_answered(answers),
        link.get_expr_answered(answers).0.unread.len() <= link.unread.len(),
        link.get_expr_answered(answers).1 is Ok ==> link.get_expr_answered(answers).0.unread.len()
            < link.unread.len(),
        link.get_expr_answered(answers).0.unread == left_of(
            link.unread,
            link.get_expr_answered(answers).0.unread.len(),
        ),
    decreases fuel, 0nat,
{
    let (read, token) = link.get_token();
    let own: nat = link.unread.len();
    match token {
        Ok(TokenView::Function(count)) => {
            lemma_get_expr_fuel(read, answers, (fuel - 1) as nat);
            lemma_get_expr_fuel(read, answers, (own - 1) as nat);
            let (headed, head) = read.get_expr_answered(answers);
            assert(headed.unread =~= left_of(link.unread, headed.unread.len()));
            if head is Ok {
                lemma_get_exprs_fuel(
                    headed,
                    answers,
                    (fuel - 1) as nat,
                    count as nat,
                    Seq::empty(),
                );
                lemma_get_exprs_fuel(
                    headed,
                    answers,
                    (own - 1) as nat,
                    count as nat,
                    Seq::empty(),
                );
                let last = headed.get_exprs_answered(answers, count as nat, Seq::empty()).0;
                assert(last.unread =~= left_of(link.unread, last.unread.len()));
            }
        },
        Err(_) => {
            assert(read.unread =~= left_of(link.unread, read.unread.len()));
        },
        _ => {
            assert(read.unread =~= left_of(link.unread, read.unread.len()));
        },
    }
}

/// [`lemma_get_expr_fuel`], for expressions read one after the other.
pub proof fn lemma_get_exprs_fuel(
    link: LinkView,
    answers: spec_fn(nat, Seq<char>) -> Option<Seq<char>>,
    fuel: nat,
    count: nat,
    before: Seq<ExprView>,
)
    requires
        fuel >= link.unread.len(),
    ensures
        link.get_exprs_within(answers, fuel, count, before) == link.get_exprs_answered(
            answers,
            count,
            before,
        ),
        link.get_exprs_answered(answers, count, before).0.unread.len() <= link.unread.len(),
        link.get_exprs_answered(answers, count, before).0.unread == left_of(
            link.unread,
            link.get_exprs_answered(answers, count, before).0.unread.len(),
        ),
    decreases fuel, 1nat + count,
{
    if count > 0 {
        let own: nat = link.unread.len();
        lemma_get_expr_fuel(link, answers, fuel);
        let (next, first) = link.get_expr_answered(answers);
        match first {
            Ok(first) => {
                lemma_get_exprs_fuel(
                    next,
                    answers,
                    (fuel - 1) as nat,
                    (count - 1) as nat,
                    before.push(first),
                );
                lemma_get_exprs_fuel(
                    next,
                    answers,
                    (own - 1) as nat,
                    (count - 1) as nat,
                    before.push(first),
                );
                let last = next.get_exprs_answered(answers, (count - 1) as nat, before.push(first)).0;
                assert(last.unread =~= left_of(link.unread, last.unread.len()));
            },
            Err(_) => {},
        }
    } else {
        assert(link.unread =~= left_of(link.unread, link.unread.len()));
    }
}

/// Reading a normal expression is reading its head and then its arguments.
pub proof fn lemma_normal_step(
    link: LinkView,
    answers: spec_fn(nat, Seq<char>) -> Option<Seq<char>>,
)
    requires
        link.get_token().1 is Ok,
        link.get_token().1->Ok_0 is Function,
    ensures
        link.get_expr_answered(answers) == ({
            let read = link.get_token().0;
            let count = link.get_token().1->Ok_0->Function_0;
            let (headed, head) = read.get_expr_answered(answers);
            match head {
                Err(error) => (headed, Err::<ExprView, ErrorView>(error)),
                Ok(head) => normal_outcome(
                    head,
                    headed.get_exprs_answered(answers, count as nat, Seq::empty()),
                ),
            }
        }),
{
    let read = link.get_token().0;
    let count = link.get_token().1->Ok_0->Function_0;
    let fuel: nat = link.unread.len();
    lemma_get_expr_fuel(read, answers, (fuel - 1) as nat);
    let (headed, head) = read.get_expr_answered(answers);
    if head is Ok {
        lemma_get_exprs_fuel(headed, answers, (fuel - 1) as nat, count as nat, Seq::empty());
    }
}

/// Reading expressions one after the other is reading the first and then
/// the others.
pub proof fn lemma_exprs_step(
    link: LinkView,
    answers: spec_fn(nat, Seq<char>) -> Option<Seq<char>>,
    count: nat,
    before: Seq<ExprView>,
)
    requires
        count > 0,
    ensures
        link.get_exprs_answered(answers, count, before) == ({
            let (next, first) = link.get_expr_answered(answers);
            match first {
                Err(error) => (next, Err::<Seq<ExprView>, ErrorView>(error)),
                Ok(first) => next.get_exprs_answered(
                    answers,
                    (count - 1) as nat,
                    before.push(first),
                ),
            }
        }),
{
    let fuel: nat = link.unread.len();
    lemma_get_expr_fuel(link, answers, fuel);
    let (next, first) = link.get_expr_answered(answers);
    match first {
        Ok(first) => {
            lemma_get_exprs_fuel(
                next,
                answers,
                (fuel - 1) as nat,
                (count - 1) as nat,
                before.push(first),
            );
        },
        Err(_) => {},
    }
}

/// Once the first of some expressions have been read, reading all of them
/// goes on with the others from where the first have left the link.
pub proof fn lemma_exprs_go_on(
    link: LinkView,
    answers: spec_fn(nat, Seq<char>) -> Option<Seq<char>>,
    first: nat,
    count: nat,
    before: Seq<ExprView>,
)
    requires
        first <= count,
        link.get_exprs_answered(answers, first, before).1 is Ok,
    ensures
        link.get_exprs_answered(answers, count, before) == link.get_exprs_answered(
            answers,
            first,
            before,
        ).0.get_exprs_answered(
            answers,
            (count - first) as nat,
            link.get_exprs_answered(answers, first, before).1->Ok_0,
        ),
    decreases first,
{
    if first > 0 {
        lemma_exprs_step(link, answers, first, before);
        lemma_exprs_step(link, answers, count, before);
        let (next, one) = link.get_expr_answered(answers);
        lemma_exprs_go_on(
            next,
            answers,
            (first - 1) as nat,
            (count - 1) as nat,
            before.push(one->Ok_0),
        );
    }
}

/// Reading asks the resolver at the places of the tokens that it takes, and
/// nowhere else: two resolvers that agree at those places give the same
/// outcome.
pub proof fn lemma_agreeing_answers(
    link: LinkView,
    first: spec_fn(nat, Seq<char>) -> Option<Seq<char>>,
    second: spec_fn(nat, Seq<char>) -> Option<Seq<char>>,
    low: nat,
)
    requires
        agree(first, second, link.unread, low),
        low <= link.get_expr_answered(first).0.unread.len(),
    ensures
        link.get_expr_answered(first) == link.get_expr_answered(second),
    decreases link.unread.len(), 0nat,
{
    let (read, token) = link.get_token();
    match token {
        Ok(TokenView::Symbol(name)) => {
            let place: nat = read.unread.len();
            assert(token_at(link.unread, place) == link.unread[0]);
            if !absolute_symbol(name) {
                assert(consults(link.unread, place, name));
            }
        },
        Ok(TokenView::Function(count)) => {
            lemma_normal_step(link, first);
            lemma_normal_step(link, second);
            lemma_get_expr_fuel(read, first, read.unread.len());
            let (headed, head) = read.get_expr_answered(first);
            if head is Ok {
                lemma_get_exprs_fuel(headed, first, headed.unread.len(), count as nat, Seq::empty());
            }
            lemma_agree_on_left(first, second, link.unread, read.unread.len(), low);
            lemma_agreeing_answers(read, first, second, low);
            if head is Ok {
                lemma_agree_on_left(first, second, read.unread, headed.unread.len(), low);
                lemma_agreeing_answers_all(headed, first, second, low, count as nat, Seq::empty());
            }
        },
        _ => {},
    }
}

/// [`lemma_agreeing_answers`], for expressions read one after the other.
pub proof fn lemma_agreeing_answers_all(
    link: LinkView,
    first: spec_fn(nat, Seq<char>) -> Option<Seq<char>>,
    second: spec_fn(nat, Seq<char>) -> Option<Seq<char>>,
    low: nat,
    count: nat,
    before: Seq<ExprView>,
)
    requires
        agree(first, second, link.unread, low),
        low <= link.get_exprs_answered(first, count, before).0.unread.len(),
    ensures
        link.get_exprs_answered(first, count, before) == link.get_exprs_answered(
            second,
            count,
            before,
        ),
    decreases link.unread.len(), 1nat + count,
{
    if count > 0 {
        lemma_exprs_step(link, first, count, before);
        lemma_exprs_step(link, second, count, before);
        lemma_get_expr_fuel(link, first, link.unread.len());
        let (next, one) = link.get_expr_answered(first);
        match one {
            Ok(one) => {
                lemma_get_exprs_fuel(
                    next,
                    first,
                    next.unread.len(),
                    (count - 1) as nat,
                    before.push(one),
                );
                lemma_agreeing_answers(link, first, second, low);
                lemma_agree_on_left(first, second, link.unread, next.unread.len(), low);
                lemma_agreeing_answers_all(
                    next,
                    first,
                    second,
                    low,
                    (count - 1) as nat,
                    before.push(one),
                );
            },
            Err(_) => {
                lemma_agreeing_answers(link, first, second, low);
            },
        }
    }
}

/// The tokens that are left are the last of the tokens: what stands behind
/// how many tokens is the same among both.
pub proof fn lemma_consults_left(unread: Seq<TokenView>, count: nat, place: nat, name: Seq<char>)
    requires
        count <= unread.len(),
    ensures
        consults(left_of(unread, count), place, name) <==> place < count && consults(
            unread,
            place,
            name,
        ),
{
    if place < count {
        assert(token_at(left_of(unread, count), place) == token_at(unread, place));
    }
}

/// Resolvers that agree on tokens agree on the last of them.
pub proof fn lemma_agree_on_left(
    first: spec_fn(nat, Seq<char>) -> Option<Seq<char>>,
    second: spec_fn(nat, Seq<char>) -> Option<Seq<char>>,
    unread: Seq<TokenView>,
    count: nat,
    low: nat,
)
    requires
        count <= unread.len(),
        agree(first, second, unread, low),
    ensures
        agree(first, second, left_of(unread, count), low),
{
    assert forall|place: nat, name: Seq<char>|
        low <= place && #[trigger] consults(left_of(unread, count), place, name) implies first(
        place,
        name,
    ) == second(place, name) by {
        lemma_consults_left(unread, count, place, name);
    }
}

/// Reading an expression ends with an expression or with one of the errors
/// of [`reading_error`].
pub proof fn lemma_reading_errors(
    link: LinkView,
    answers: spec_fn(nat, Seq<char>) -> Option<Seq<char>>,
)
    ensures
        link.get_expr_answered(answers).1 matches Err(error) ==> reading_error(error),
    decreases link.unread.len(), 0nat,
{
    let (read, token) = link.get_token();
    match token {
        Ok(TokenView::Function(count)) => {
            lemma_normal_step(link, answers);
            lemma_get_expr_fuel(read, answers, read.unread.len());
            lemma_reading_errors(read, answers);
            let (headed, head) = read.get_expr_answered(answers);
            if head is Ok {
                lemma_reading_errors_all(headed, answers, count as nat, Seq::empty());
            }
        },
        Ok(TokenView::Symbol(name)) => {
            if symbol_of(name, answers(read.unread.len(), name)) is Err {
                assert(reading_error(no_context_error(name)));
            }
        },
        _ => {},
    }
}

/// [`lemma_reading_errors`], for expressions read one after the other.
pub proof fn lemma_reading_errors_all(
    link: LinkView,
    answers: spec_fn(nat, Seq<char>) -> Option<Seq<char>>,
    count: nat,
    before: Seq<ExprView>,
)
    ensures
        link.get_exprs_answered(answers, count, before).1 matches Err(error) ==> reading_error(
            error,
        ),
    decreases link.unread.len(), 1nat + count,
{
    if count > 0 {
        lemma_exprs_step(link, answers, count, before);
        lemma_get_expr_fuel(link, answers, link.unread.len());
        lemma_reading_errors(link, answers);
        let (next, one) = link.get_expr_answered(answers);
        match one {
            Ok(one) => {
                lemma_reading_errors_all(next, answers, (count - 1) as nat, before.push(one));
            },
            Err(_) => {},
        }
    }
}

/// Reading takes the encoding of a well-formed expression off the front of
/// the unread tokens and gives the expression back, whatever follows the
/// encoding and whatever the resolver would answer.
pub proof fn lemma_get_expr_reads_encoding(
    link: LinkView,
    expr: ExprView,
    rest: Seq<TokenView>,
    answers: spec_fn(nat, Seq<char>) -> Option<Seq<char>>,
)
    requires
        link.unread == encode(expr) + rest,
        well_formed(expr),
        writable(expr),
    ensures
        link.get_expr_answered(answers) == (
            LinkView { unread: rest, cursor: Cursor::Fresh, ..link },
            Ok::<ExprView, ErrorView>(expr),
        ),
    decreases expr,
{
    let tokens = encode(expr);
    assert(tokens.len() > 0);
    assert(link.unread[0] == tokens[0]);
    let (read, token) = link.get_token();
    match expr {
        ExprView::Normal(head, args) => {
            let count = args.len() as usize;
            assert(count == args.len());
            assert(token == Ok::<TokenView, ErrorView>(TokenView::Function(count)));
            assert(read.unread =~= encode(*head) + (encode_all(args) + rest));
            lemma_normal_step(link, answers);
            lemma_get_expr_reads_encoding(read, *head, encode_all(args) + rest, answers);
            let headed = LinkView { unread: encode_all(args) + rest, cursor: Cursor::Fresh, ..read };
            lemma_get_exprs_reads_encoding(headed, args, rest, answers, Seq::empty());
            assert(Seq::<ExprView>::empty() + args =~= args);
        },
        _ => {
            assert(tokens =~= seq![tokens[0]]);
            assert(read.unread =~= rest);
        },
    }
}

/// [`lemma_get_expr_reads_encoding`], for expressions read one after the
/// other behind those of `before`.
pub proof fn lemma_get_exprs_reads_encoding(
    link: LinkView,
    exprs: Seq<ExprView>,
    rest: Seq<TokenView>,
    answers: spec_fn(nat, Seq<char>) -> Option<Seq<char>>,
    before: Seq<ExprView>,
)
    requires
        link.unread == encode_all(exprs) + rest,
        link.cursor is Fresh,
        forall|i: int| 0 <= i < exprs.len() ==> well_formed(#[trigger] exprs[i]),
        forall|i: int| 0 <= i < exprs.len() ==> writable(#[trigger] exprs[i]),
    ensures
        link.get_exprs_answered(answers, exprs.len(), before) == (
            LinkView { unread: rest, ..link },
            Ok::<Seq<ExprView>, ErrorView>(before + exprs),
        ),
    decreases exprs,
{
    if exprs.len() == 0 {
        assert(link.unread =~= rest);
        assert(before + exprs =~= before);
    } else {
        let tail = exprs.skip(1);
        assert(link.unread =~= encode(exprs[0]) + (encode_all(tail) + rest));
        lemma_get_expr_reads_encoding(link, exprs[0], encode_all(tail) + rest, answers);
        let next = LinkView { unread: encode_all(tail) + rest, cursor: Cursor::Fresh, ..link };
        assert forall|i: int| 0 <= i < tail.len() implies well_formed(#[trigger] tail[i]) by {
            assert(tail[i] == exprs[i + 1]);
        }
        assert forall|i: int| 0 <= i < tail.len() implies writable(#[trigger] tail[i]) by {
            assert(tail[i] == exprs[i + 1]);
        }
        lemma_get_exprs_reads_encoding(next, tail, rest, answers, before.push(exprs[0]));
        lemma_exprs_step(link, answers, exprs.len(), before);
        assert(before.push(exprs[0]) + tail =~= before + exprs);
    }
}

/// Whether every answer of `answers` that reading `unread` asks for, while
/// at least `low` tokens are left, is an answer that `resolver` can give for
/// the name at its place.
pub open spec fn admitted<F: Fn(&str) -> Option<Symbol>>(
    resolver: F,
    given: spec_fn(nat, Seq<char>) -> Option<Seq<char>>,
    unread: Seq<TokenView>,
    low: nat,
) -> bool {
    forall|place: nat, name: Seq<char>|
        low <= place && #[trigger] consults(unread, place, name) ==> answers(
            resolver,
            name,
            given(place, name),
        )
}

/// The answers of a resolver that gives one answer for one name are those
/// of its model, wherever reading asks for one.
pub proof fn lemma_single_valued_answers<F: Fn(&str) -> Option<Symbol>>(
    resolver: F,
    given: spec_fn(nat, Seq<char>) -> Option<Seq<char>>,
    unread: Seq<TokenView>,
    low: nat,
)
    requires
        single_valued(resolver),
        admitted(resolver, given, unread, low),
    ensures
        agree(given, everywhere(resolver_model(resolver)), unread, low),
{
    assert forall|place: nat, name: Seq<char>|
        low <= place && #[trigger] consults(unread, place, name) implies given(place, name)
        == everywhere(resolver_model(resolver))(place, name) by {
        let answer = given(place, name);
        assert(answers(resolver, name, answer));
        let chosen = resolver_answer(resolver, name);
        assert(answers(resolver, name, chosen));
        let (asked, out): (&str, Option<Symbol>) = choose|asked: &str, out: Option<Symbol>|
            asked@ == name && #[trigger] call_ensures(resolver, (asked,), out) && option_name(out)
                == answer;
        let (other, second): (&str, Option<Symbol>) = choose|other: &str, second: Option<Symbol>|
            other@ == name && #[trigger] call_ensures(resolver, (other,), second) && option_name(
                second,
            ) == chosen;
        assert(option_name(out) == option_name(second));
    }
}

impl Link {
    /// Read an expression off of this link.
    ///
    /// A symbol that is written without its context is an error.
    ///
    /// Where the tokens that wait to be read begin with the encoding of a
    /// well-formed expression, that expression is read and the tokens behind
    /// its encoding stay.
    pub fn get_expr(&mut self) -> (expr: Result<Expr, Error>)
        ensures
            final(self)@ == old(self)@.get_expr(resolve_nothing()).0,
            viewed(expr) == old(self)@.get_expr(resolve_nothing()).1,
            forall|written: ExprView, rest: Seq<TokenView>|
                old(self)@.unread == #[trigger] (encode(written) + rest) && well_formed(written)
                    && writable(written) ==> viewed(expr) == Ok::<ExprView, ErrorView>(written)
                    && final(self)@.unread == rest,
            expr matches Err(e) ==> e@.code is Some || e@ == nan_error() || exists|
                name: Seq<char>,
            | e@ == no_context_error(name),
    {
        let resolver = |name: &str| -> (symbol: Option<Symbol>)
            ensures
                symbol is None,
            { None };
        assert(single_valued(resolver));
        assert(resolver_model(resolver) =~= resolve_nothing()) by {
            assert forall|name: Seq<char>| resolver_answer(resolver, name) is None by {
                let answer = resolver_answer(resolver, name);
                if answers(resolver, name, answer) {
                    let (asked, given): (&str, Option<Symbol>) = choose|
                        asked: &str,
                        given: Option<Symbol>,
                    |
                        asked@ == name && #[trigger] call_ensures(resolver, (asked,), given)
                            && option_name(given) == answer;
                }
            }
        }
        self.get_expr_with_resolver(&resolver)
    }

    /// Read an expression off of this link, asking `resolver` for the symbol
    /// that a name without a context stands for.
    ///
    /// The resolver is asked about such names only, and may be any function
    /// that answers every name.
    ///
    /// * The outcome is that of [`LinkView::get_expr_answered`] with answers
    ///   that the resolver gives, each for the name at its place.
    /// * Where the resolver gives one answer for one name, the outcome is
    ///   that of [`LinkView::get_expr`] with the resolver's answers.
    /// * Where the tokens that wait to be read begin with the encoding of a
    ///   well-formed expression, that expression is read and the tokens
    ///   behind its encoding stay, whatever the resolver is.
    /// * An error is an error of the link, with its code, or says that a
    ///   real number is a NaN, or names a symbol that has no context.
    pub fn get_expr_with_resolver<F: Fn(&str) -> Option<Symbol>>(&mut self, resolver: &F) -> (expr:
        Result<Expr, Error>)
        requires
            forall|name: &str| call_requires(*resolver, (name,)),
        ensures
            exists|given: spec_fn(nat, Seq<char>) -> Option<Seq<char>>|
                admitted(*resolver, given, old(self)@.unread, final(self)@.unread.len())
                    && final(self)@ == (#[trigger] old(self)@.get_expr_answered(given)).0
                    && viewed(expr) == old(self)@.get_expr_answered(given).1,
            single_valued(*resolver) ==> final(self)@ == old(self)@.get_expr(
                resolver_model(*resolver),
            ).0 && viewed(expr) == old(self)@.get_expr(resolver_model(*resolver)).1,
            forall|written: ExprView, rest: Seq<TokenView>|
                old(self)@.unread == #[trigger] (encode(written) + rest) && well_formed(written)
                    && writable(written) ==> viewed(expr) == Ok::<ExprView, ErrorView>(written)
                    && final(self)@.unread == rest,
            expr matches Err(e) ==> e@.code is Some || e@ == nan_error() || exists|
                name: Seq<char>,
            | e@ == no_context_error(name),
            final(self)@.unread.len() <= old(self)@.unread.len(),
            expr is Ok ==> final(self)@.unread.len() < old(self)@.unread.len(),
    {
        let (expr, Ghost(given)) = self.read_expr(resolver);
        proof {
            let start = old(self)@;
            lemma_get_expr_fuel(start, given, start.unread.len());
            lemma_reading_errors(start, given);
            if single_valued(*resolver) {
                lemma_single_valued_answers(*resolver, given, start.unread, self@.unread.len());
                lemma_agreeing_answers(
                    start,
                    given,
                    everywhere(resolver_model(*resolver)),
                    self@.unread.len(),
                );
            }
            assert forall|written: ExprView, rest: Seq<TokenView>|
                start.unread == #[trigger] (encode(written) + rest) && well_formed(written)
                    && writable(written) implies viewed(expr) == Ok::<ExprView, ErrorView>(
                written,
            ) && self@.unread == rest by {
                lemma_get_expr_reads_encoding(start, written, rest, given);
            }
        }
        expr
    }

    /// Reads an expression, and tells what the resolver answered at each
    /// place at which it was asked.
    fn read_expr<F: Fn(&str) -> Option<Symbol>>(&mut self, resolver: &F) -> (out: (
        Result<Expr, Error>,
        Ghost<spec_fn(nat, Seq<char>) -> Option<Seq<char>>>,
    ))
        requires
            forall|name: &str| call_requires(*resolver, (name,)),
        ensures
            final(self)@ == old(self)@.get_expr_answered(out.1@).0,
            viewed(out.0) == old(self)@.get_expr_answered(out.1@).1,
            admitted(*resolver, out.1@, old(self)@.unread, final(self)@.unread.len()),
        decreases old(self)@.unread.len(),
    {
        let ghost start = old(self)@;
        let ghost nothing: spec_fn(nat, Seq<char>) -> Option<Seq<char>> = |
            place: nat,
            name: Seq<char>,
        | None::<Seq<char>>;
        let atom = match self.get_token() {
            Ok(token) => token.to_atom(),
            Err(error) => {
                return (Err(error), Ghost(nothing));
            },
        };
        let ghost read = self@;
        assert(read.unread.len() + 1 == start.unread.len());
        assert(token_at(start.unread, read.unread.len() as nat) == start.unread[0]);
        match atom {
            Atom::Integer(value) => (Ok(Expr::Integer(value)), Ghost(nothing)),
            Atom::Real(bits) => match real_of_bits(bits) {
                Ok(number) => (Ok(Expr::Real(number)), Ghost(nothing)),
                Err(error) => (Err(error), Ghost(nothing)),
            },
            Atom::String(value) => (Ok(Expr::String(value)), Ghost(nothing)),
            Atom::Symbol(name) => {
                let asked: &str = name.as_str();
                match Symbol::try_new(asked) {
                    Some(symbol) => (Ok(Expr::Symbol(symbol)), Ghost(nothing)),
                    None => {
                        let given = resolver(asked);
                        let ghost answer = option_name(given);
                        let ghost said: spec_fn(nat, Seq<char>) -> Option<Seq<char>> = |
                            place: nat,
                            other: Seq<char>,
                        | answer;
                        assert(answers(*resolver, name@, answer)) by {
                            assert(call_ensures(*resolver, (asked,), given));
                        }
                        match symbol_or_error(asked, None, given) {
                            Ok(symbol) => (Ok(Expr::Symbol(symbol)), Ghost(said)),
                            Err(error) => (Err(error), Ghost(said)),
                        }
                    },
                }
            },
            Atom::IntegerArray(_) => (Err(Error::from_code(WSEGSEQ, None)), Ghost(nothing)),
            Atom::Function(count) => {
                let (head, Ghost(first)) = self.read_expr(resolver);
                let ghost headed = self@;
                proof {
                    lemma_get_expr_fuel(read, first, read.unread.len());
                    lemma_normal_step(start, first);
                    assert(read.unread =~= left_of(start.unread, read.unread.len()));
                    assert forall|place: nat, name: Seq<char>|
                        headed.unread.len() <= place && #[trigger] consults(
                            start.unread,
                            place,
                            name,
                        ) implies answers(*resolver, name, first(place, name)) by {
                        lemma_consults_left(start.unread, read.unread.len(), place, name);
                    }
                }
                let head = match head {
                    Ok(head) => head,
                    Err(error) => {
                        return (Err(error), Ghost(first));
                    },
                };
                let mut args: Vec<Expr> = Vec::new();
                let ghost mut done: Seq<ExprView> = Seq::empty();
                let ghost mut given = first;
                let mut i: usize = 0;
                while i < count
                    invariant
                        i <= count,
                        forall|name: &str| call_requires(*resolver, (name,)),
                        start == old(self)@,
                        start.get_token() == (read, Ok::<TokenView, ErrorView>(
                            TokenView::Function(count),
                        )),
                        read.unread == left_of(start.unread, read.unread.len()),
                        read.unread.len() + 1 == start.unread.len(),
                        read.get_expr_answered(given) == (headed, Ok::<ExprView, ErrorView>(
                            head@,
                        )),
                        headed.unread == left_of(start.unread, headed.unread.len()),
                        headed.unread.len() <= read.unread.len(),
                        headed.get_exprs_answered(given, i as nat, Seq::empty()) == (
                            self@,
                            Ok::<Seq<ExprView>, ErrorView>(done),
                        ),
                        self@.unread == left_of(start.unread, self@.unread.len()),
                        self@.unread.len() <= headed.unread.len(),
                        admitted(*resolver, given, start.unread, self@.unread.len()),
                        done.len() == args@.len(),
                        forall|k: int| 0 <= k < args@.len() ==> done[k] == args@[k]@,
                    decreases count - i,
                {
                    let ghost before = self@;
                    let ghost known = given;
                    let (arg, Ghost(next)) = self.read_expr(resolver);
                    proof {
                        let merged: spec_fn(nat, Seq<char>) -> Option<Seq<char>> = |
                            place: nat,
                            name: Seq<char>,
                        |
                            if place < before.unread.len() {
                                next(place, name)
                            } else {
                                known(place, name)
                            };
                        lemma_get_expr_fuel(before, next, before.unread.len());
                        assert(self@.unread =~= left_of(start.unread, self@.unread.len()));
                        // What has just been read is read the same with the
                        // answers put together.
                        assert(agree(next, merged, before.unread, 0));
                        lemma_agreeing_answers(before, next, merged, 0);
                        // So is what was read before.
                        assert(agree(known, merged, read.unread, before.unread.len() as nat));
                        lemma_agreeing_answers(read, known, merged, before.unread.len() as nat);
                        assert(agree(known, merged, headed.unread, before.unread.len() as nat));
                        lemma_agreeing_answers_all(
                            headed,
                            known,
                            merged,
                            before.unread.len() as nat,
                            i as nat,
                            Seq::empty(),
                        );
                        assert forall|place: nat, name: Seq<char>|
                            self@.unread.len() <= place && #[trigger] consults(
                                start.unread,
                                place,
                                name,
                            ) implies answers(*resolver, name, merged(place, name)) by {
                            lemma_consults_left(start.unread, before.unread.len(), place, name);
                        }
                        lemma_exprs_go_on(headed, merged, i as nat, count as nat, Seq::empty());
                        lemma_exprs_go_on(headed, merged, i as nat, (i + 1) as nat, Seq::empty());
                        lemma_exprs_step(before, merged, (count - i) as nat, done);
                        lemma_exprs_step(before, merged, 1, done);
                        lemma_normal_step(start, merged);
                        given = merged;
                    }
                    let arg = match arg {
                        Ok(arg) => arg,
                        Err(error) => {
                            return (Err(error), Ghost(given));
                        },
                    };
                    proof {
                        done = done.push(arg@);
                    }
                    args.push(arg);
                    i += 1;
                }
                proof {
                    lemma_normal_step(start, given);
                }
                let expr = Expr::Normal { head: Box::new(head), args };
                assert(expr@->Normal_1 =~= done);
                (Ok(expr), Ghost(given))
            },
        }
    }
}

impl Link {
    /// Write an expression to this link.
    ///
    /// The expression is written token by token, and writing stops at the
    /// first token that the link refuses. On a link that owes no announced
    /// token, an expression whose sizes can be written (see [`writable`]) is
    /// written whole: see [`lemma_put_expr_writes_encoding`].
    pub fn put_expr(&mut self, expr: &Expr) -> (done: Result<(), Error>)
        ensures
            final(self)@ == old(self)@.put_expr(expr@).0,
            plain(done) == old(self)@.put_expr(expr@).1,
            done is Ok ==> well_formed(expr@),
            old(self)@.owed is None ==> (done is Ok <==> writable(expr@)),
            old(self)@.owed is None && done is Ok ==> final(self)@ == old(self)@.written_all(
                encode(expr@),
            ),
        decreases expr,
    {
        proof {
            if old(self)@.owed is None && writable(expr@) {
                lemma_put_expr_writes_encoding(old(self)@, expr@);
            }
        }
        match expr {
            Expr::Integer(value) => self.put_i64(*value),
            Expr::Real(value) => self.put_f64_bits(value.to_bits()),
            Expr::String(value) => self.put_str(value.as_str()),
            Expr::Symbol(value) => self.put_symbol(value.as_str()),
            Expr::Normal { head, args } => {
                let ghost elements = expr@->Normal_1;
                assert(elements.len() == args@.len());
                match self.put_function(None, args.len()) {
                    Ok(()) => {},
                    Err(error) => {
                        return Err(error);
                    },
                }
                match self.put_expr(head) {
                    Ok(()) => {},
                    Err(error) => {
                        return Err(error);
                    },
                }
                assert(elements.skip(0) =~= elements);
                let mut i: usize = 0;
                while i < args.len()
                    invariant
                        i <= args.len(),
                        elements.len() == args@.len(),
                        old(self)@.owed is None ==> self@.owed is None && args@.len() <= i32::MAX
                            && writable(*expr@->Normal_0) && forall|k: int|
                            0 <= k < i ==> writable(#[trigger] elements[k]),
                        expr matches Expr::Normal { head: _, args: all } && all == args,
                        forall|k: int| 0 <= k < args@.len() ==> elements[k] == args@[k]@,
                        old(self)@.put_expr(expr@) == self@.put_exprs(elements.skip(i as int)),
                        old(self)@.owed is None && writable(expr@) ==> old(self)@.put_expr(expr@)
                            == (
                            old(self)@.written_all(encode(expr@)),
                            Ok::<(), ErrorView>(()),
                        ),
                        forall|k: int| 0 <= k < i ==> well_formed(#[trigger] elements[k]),
                    decreases args.len() - i,
                {
                    assert(elements.skip(i as int)[0] == elements[i as int]);
                    assert(elements.skip(i as int).skip(1) =~= elements.skip(i as int + 1));
                    assert(decreases_to!(expr => args));
                    assert(decreases_to!(args => args@));
                    assert(decreases_to!(args@ => args@[i as int]));
                    match self.put_expr(&args[i]) {
                        Ok(()) => {},
                        Err(error) => {
                            return Err(error);
                        },
                    }
                    i += 1;
                }
                Ok(())
            },
        }
    }
}

/// A link that owes no announced token takes an expression whose sizes can
/// be written as a whole: the tokens of its encoding are written, in order,
/// and nothing else about the link changes.
pub proof fn lemma_put_expr_writes_encoding(link: LinkView, expr: ExprView)
    requires
        link.owed is None,
        writable(expr),
    ensures
        link.put_expr(expr) == (link.written_all(encode(expr)), Ok::<(), ErrorView>(())),
    decreases expr,
{
    match expr {
        ExprView::Normal(head, args) => {
            let started = link.put_function(None, args.len() as usize).0;
            assert(started == link.written_all(seq![TokenView::Function(args.len() as usize)]))
                by {
                assert(link.unread.push(TokenView::Function(args.len() as usize)) =~= link.unread
                    + seq![TokenView::Function(args.len() as usize)]);
                assert(link.outgoing.push(TokenView::Function(args.len() as usize))
                    =~= link.outgoing + seq![TokenView::Function(args.len() as usize)]);
            }
            lemma_put_expr_writes_encoding(started, *head);
            let headed = started.written_all(encode(*head));
            lemma_put_exprs_writes_encoding(headed, args);
            let done = headed.written_all(encode_all(args));
            assert(done == link.written_all(encode(expr))) by {
                assert((link.unread + seq![TokenView::Function(args.len() as usize)]) + encode(
                    *head,
                ) + encode_all(args) =~= link.unread + encode(expr));
                assert((link.outgoing + seq![TokenView::Function(args.len() as usize)]) + encode(
                    *head,
                ) + encode_all(args) =~= link.outgoing + encode(expr));
            }
        },
        _ => {
            let token = encode(expr)[0];
            assert(encode(expr) =~= seq![token]);
            assert(link.unread.push(token) =~= link.unread + encode(expr));
            assert(link.outgoing.push(token) =~= link.outgoing + encode(expr));
        },
    }
}

/// [`lemma_put_expr_writes_encoding`], for expressions written one after the
/// other.
pub proof fn lemma_put_exprs_writes_encoding(link: LinkView, exprs: Seq<ExprView>)
    requires
        link.owed is None,
        forall|i: int| 0 <= i < exprs.len() ==> writable(#[trigger] exprs[i]),
    ensures
        link.put_exprs(exprs) == (link.written_all(encode_all(exprs)), Ok::<(), ErrorView>(())),
    decreases exprs,
{
    if exprs.len() == 0 {
        assert(link.unread + encode_all(exprs) =~= link.unread);
        assert(link.outgoing + encode_all(exprs) =~= link.outgoing);
    } else {
        lemma_put_expr_writes_encoding(link, exprs[0]);
        let next = link.written_all(encode(exprs[0]));
        assert forall|i: int| 0 <= i < exprs.skip(1).len() implies writable(
            #[trigger] exprs.skip(1)[i],
        ) by {
            assert(exprs.skip(1)[i] == exprs[i + 1]);
        }
        lemma_put_exprs_writes_encoding(next, exprs.skip(1));
        assert((link.unread + encode(exprs[0])) + encode_all(exprs.skip(1)) =~= link.unread
            + encode_all(exprs));
        assert((link.outgoing + encode(exprs[0])) + encode_all(exprs.skip(1)) =~= link.outgoing
            + encode_all(exprs));
    }
}

} // verus!
