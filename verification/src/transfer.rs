//! Moving expressions from one link to another, token by token.

use vstd::prelude::*;
use crate::codec::{encode, encode_all, writable};
use crate::error::{Error, ErrorView};
use crate::expr::ExprView;
use crate::link::{link_error, plain, Cursor, Link, LinkView};
use crate::sys::WSEABORT;
use crate::token::{Atom, TokenView};

verus! {

/// The place behind the expressions that are still owed, `owed` of them,
/// when the tokens are read from the place `from` on; `None` where the tokens
/// end before that.
pub open spec fn end_of_expressions(tokens: Seq<TokenView>, from: int, owed: nat) -> Option<int>
    decreases tokens.len() - from,
{
    if owed == 0 {
        Some(from)
    } else if from < 0 || from >= tokens.len() {
        None
    } else {
        match tokens[from] {
            TokenView::Function(count) => end_of_expressions(
                tokens,
                from + 1,
                (owed + count) as nat,
            ),
            _ => end_of_expressions(tokens, from + 1, (owed - 1) as nat),
        }
    }
}

/// The count of the tokens that make up the first expression of `tokens`;
/// `None` where the tokens hold no whole expression.
pub open spec fn first_expression(tokens: Seq<TokenView>) -> Option<int> {
    end_of_expressions(tokens, 0, 1)
}

/// More expressions than tokens cannot be had.
proof fn lemma_too_many_owed(tokens: Seq<TokenView>, from: int, owed: nat)
    requires
        0 <= from <= tokens.len(),
        owed > tokens.len() - from,
    ensures
        end_of_expressions(tokens, from, owed) is None,
    decreases tokens.len() - from,
{
    if from < tokens.len() {
        match tokens[from] {
            TokenView::Function(count) => {
                lemma_too_many_owed(tokens, from + 1, (owed + count) as nat);
            },
            _ => {
                lemma_too_many_owed(tokens, from + 1, (owed - 1) as nat);
            },
        }
    }
}

/// The tokens of an encoded expression make up exactly one expression: where
/// they stand among other tokens, reading one expression more ends right
/// behind them.
pub proof fn lemma_encoding_is_one_expression(
    expr: ExprView,
    tokens: Seq<TokenView>,
    from: int,
    owed: nat,
)
    requires
        writable(expr),
        0 <= from,
        from + encode(expr).len() <= tokens.len(),
        tokens.subrange(from, from + encode(expr).len()) == encode(expr),
    ensures
        end_of_expressions(tokens, from, owed + 1) == end_of_expressions(
            tokens,
            from + encode(expr).len(),
            owed,
        ),
    decreases expr,
{
    let own = encode(expr);
    assert(own.len() > 0);
    assert(tokens[from] == tokens.subrange(from, from + own.len())[0]);
    match expr {
        ExprView::Normal(head, args) => {
            let count = args.len() as usize;
            assert(own[0] == TokenView::Function(count));
            let top = encode(*head);
            let rest = encode_all(args);
            assert(own =~= seq![TokenView::Function(count)] + top + rest);
            assert(tokens.subrange(from + 1, from + 1 + top.len()) =~= top) by {
                assert forall|i: int| 0 <= i < top.len() implies tokens.subrange(
                    from + 1,
                    from + 1 + top.len(),
                )[i] == top[i] by {
                    assert(tokens.subrange(from, from + own.len())[1 + i] == own[1 + i]);
                }
            }
            lemma_encoding_is_one_expression(*head, tokens, from + 1, (owed + count) as nat);
            assert(tokens.subrange(from + 1 + top.len(), from + 1 + top.len() + rest.len())
                =~= rest) by {
                assert forall|i: int| 0 <= i < rest.len() implies tokens.subrange(
                    from + 1 + top.len(),
                    from + 1 + top.len() + rest.len(),
                )[i] == rest[i] by {
                    assert(tokens.subrange(from, from + own.len())[1 + top.len() + i] == own[1
                        + top.len() + i]);
                }
            }
            lemma_encodings_are_expressions(args, tokens, from + 1 + top.len(), owed);
        },
        _ => {
            assert(own.len() == 1);
        },
    }
}

/// [`lemma_encoding_is_one_expression`], for expressions one after the
/// other.
pub proof fn lemma_encodings_are_expressions(
    exprs: Seq<ExprView>,
    tokens: Seq<TokenView>,
    from: int,
    owed: nat,
)
    requires
        forall|i: int| 0 <= i < exprs.len() ==> writable(#[trigger] exprs[i]),
        0 <= from,
        from + encode_all(exprs).len() <= tokens.len(),
        tokens.subrange(from, from + encode_all(exprs).len()) == encode_all(exprs),
    ensures
        end_of_expressions(tokens, from, owed + exprs.len()) == end_of_expressions(
            tokens,
            from + encode_all(exprs).len(),
            owed,
        ),
    decreases exprs,
{
    if exprs.len() > 0 {
        let first = encode(exprs[0]);
        let tail = exprs.skip(1);
        let rest = encode_all(tail);
        let all = encode_all(exprs);
        assert(all =~= first + rest);
        assert(tokens.subrange(from, from + first.len()) =~= first) by {
            assert forall|i: int| 0 <= i < first.len() implies tokens.subrange(
                from,
                from + first.len(),
            )[i] == first[i] by {
                assert(tokens.subrange(from, from + all.len())[i] == all[i]);
            }
        }
        lemma_encoding_is_one_expression(exprs[0], tokens, from, (owed + tail.len()) as nat);
        assert(tokens.subrange(from + first.len(), from + first.len() + rest.len()) =~= rest) by {
            assert forall|i: int| 0 <= i < rest.len() implies tokens.subrange(
                from + first.len(),
                from + first.len() + rest.len(),
            )[i] == rest[i] by {
                assert(tokens.subrange(from, from + all.len())[first.len() + i] == all[first.len()
                    + i]);
            }
        }
        assert forall|i: int| 0 <= i < tail.len() implies writable(#[trigger] tail[i]) by {
            assert(tail[i] == exprs[i + 1]);
        }
        lemma_encodings_are_expressions(tail, tokens, from + first.len(), owed);
    }
}

impl LinkView {
    /// Whether a whole expression waits to be read.
    pub open spec fn holds_expression(self) -> bool {
        first_expression(self.unread) is Some
    }

    /// Moving the first expression that waits to be read to `dest`. Where
    /// no whole expression waits, nothing is moved and the move fails.
    pub open spec fn transfer_expr_to(self, dest: LinkView) -> (
        LinkView,
        LinkView,
        Result<(), ErrorView>,
    ) {
        match first_expression(self.unread) {
            None => (self.failed(WSEABORT), dest, Err(link_error(WSEABORT))),
            Some(end) => (
                LinkView { unread: self.unread.skip(end), cursor: Cursor::Fresh, ..self },
                dest.appended(self.unread.take(end)),
                Ok(()),
            ),
        }
    }

    /// Moving everything that waits to be read to `dest`.
    pub open spec fn transfer_all_to(self, dest: LinkView) -> (LinkView, LinkView) {
        (
            LinkView { unread: Seq::empty(), cursor: Cursor::Fresh, ..self },
            dest.appended(self.unread),
        )
    }
}

impl Link {
    /// The count of the tokens that make up the first expression that waits
    /// to be read, if a whole expression waits.
    fn first_expression_len(&self) -> (end: Option<usize>)
        ensures
            match end {
                Some(end) => first_expression(self@.unread) == Some(end as int) && 0 < end
                    <= self@.unread.len(),
                None => first_expression(self@.unread) is None,
            },
    {
        let ghost tokens = self@.unread;
        let count: usize = self.unread_len();
        let mut owed: usize = 1;
        let mut i: usize = 0;
        while owed > 0 && i < count
            invariant
                i <= count,
                count == tokens.len(),
                tokens == self@.unread,
                first_expression(tokens) == end_of_expressions(tokens, i as int, owed as nat),
                i == 0 ==> owed == 1,
                i > 0 || owed > 0,
            decreases count - i,
        {
            match self.peek_at(i) {
                Atom::Function(more) => {
                    match owed.checked_add(*more) {
                        Some(sum) => {
                            owed = sum;
                        },
                        None => {
                            proof {
                                lemma_too_many_owed(tokens, i as int + 1, (owed + *more) as nat);
                            }
                            return None;
                        },
                    }
                },
                _ => {
                    owed = owed - 1;
                },
            }
            i += 1;
        }
        if owed == 0 {
            Some(i)
        } else {
            None
        }
    }

    /// Whether a whole expression waits to be read on this link: whether the
    /// tokens that have arrived hold a function with its head and all of its
    /// arguments, or an atom.
    pub fn holds_expression(&self) -> (whole: bool)
        ensures
            whole == self@.holds_expression(),
    {
        self.first_expression_len().is_some()
    }

    /// Transfer an expression from this link to another.
    ///
    /// The tokens of the first expression that waits to be read on this link
    /// are added to what has been written to `dest`. Where no whole
    /// expression waits, nothing is moved and an error is returned.
    pub fn transfer_expr_to(&mut self, dest: &mut Link) -> (done: Result<(), Error>)
        ensures
            final(self)@ == old(self)@.transfer_expr_to(old(dest)@).0,
            final(dest)@ == old(self)@.transfer_expr_to(old(dest)@).1,
            plain(done) == old(self)@.transfer_expr_to(old(dest)@).2,
    {
        let end: usize = match self.first_expression_len() {
            Some(end) => end,
            None => {
                return self.fail(WSEABORT);
            },
        };
        let ghost tokens = self@.unread;
        let mut i: usize = 0;
        while i < end
            invariant
                i <= end <= tokens.len(),
                tokens == old(self)@.unread,
                i == 0 ==> self@ == old(self)@,
                i > 0 ==> self@ == (LinkView {
                    unread: tokens.skip(i as int),
                    cursor: Cursor::Fresh,
                    ..old(self)@
                }),
                self@.unread == tokens.skip(i as int),
                dest@ == old(dest)@.appended(tokens.take(i as int)),
            decreases end - i,
        {
            assert(tokens.skip(0) =~= tokens);
            let ghost before = dest@;
            let atom = self.take();
            assert(self@.unread =~= tokens.skip(i as int + 1));
            dest.append(atom);
            assert(old(dest)@.unread + tokens.take(i as int) + seq![atom@] =~= old(dest)@.unread
                + tokens.take(i as int + 1));
            assert(old(dest)@.outgoing + tokens.take(i as int) + seq![atom@]
                =~= old(dest)@.outgoing + tokens.take(i as int + 1));
            i += 1;
        }
        Ok(())
    }

    /// Transfer the full contents of this loopback link to `dest`: every
    /// token that waits to be read on this link is added to what has been
    /// written to `dest`.
    pub fn transfer_to_end_of_loopback_link(&mut self, dest: &mut Link) -> (done: Result<(), Error>)
        requires
            old(self)@.mode is Loopback,
        ensures
            final(self)@ == old(self)@.transfer_all_to(old(dest)@).0,
            final(dest)@ == old(self)@.transfer_all_to(old(dest)@).1,
            done is Ok,
    {
        let ghost tokens = self@.unread;
        let end: usize = self.unread_len();
        let mut i: usize = 0;
        assert(tokens.skip(0) =~= tokens);
        assert(old(dest)@.unread + tokens.take(0) =~= old(dest)@.unread);
        assert(old(dest)@.outgoing + tokens.take(0) =~= old(dest)@.outgoing);
        while i < end
            invariant
                i <= end == tokens.len(),
                tokens == old(self)@.unread,
                i == 0 ==> self@ == old(self)@,
                i > 0 ==> self@ == (LinkView {
                    unread: tokens.skip(i as int),
                    cursor: Cursor::Fresh,
                    ..old(self)@
                }),
                self@.unread == tokens.skip(i as int),
                dest@ == old(dest)@.appended(tokens.take(i as int)),
            decreases end - i,
        {
            let atom = self.take();
            assert(self@.unread =~= tokens.skip(i as int + 1));
            dest.append(atom);
            assert(old(dest)@.unread + tokens.take(i as int) + seq![atom@] =~= old(dest)@.unread
                + tokens.take(i as int + 1));
            assert(old(dest)@.outgoing + tokens.take(i as int) + seq![atom@]
                =~= old(dest)@.outgoing + tokens.take(i as int + 1));
            i += 1;
        }
        assert(tokens.take(end as int) =~= tokens);
        assert(tokens.skip(end as int) =~= Seq::empty());
        if end == 0 {
            self.set_cursor(Cursor::Fresh);
            assert(self@.unread =~= Seq::empty());
        }
        Ok(())
    }
}

} // verus!
