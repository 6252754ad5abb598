//! Wolfram Language expressions.

use vstd::prelude::*;
use vstd::string::*;
use crate::symbol::Symbol;

verus! {

/// Whether the 64 bits `bits`, read as an IEEE 754 binary64 number, are a
/// NaN: the exponent is all ones and the fraction is not zero.
pub open spec fn is_nan_bits(bits: u64) -> bool {
    (bits & 0x7fff_ffff_ffff_ffff) > 0x7ff0_0000_0000_0000
}

/// A real number that is not a NaN, held as the bits of an IEEE 754 binary64
/// number.
#[derive(Clone, Copy, Debug, PartialEq, Eq)]
pub struct Real {
    bits: u64,
}

impl View for Real {
    type V = u64;

    closed spec fn view(&self) -> u64 {
        self.bits
    }
}

impl Real {
    #[verifier::type_invariant]
    spec fn not_nan(&self) -> bool {
        !is_nan_bits(self.bits)
    }

    /// The real number with the given bits, unless they are a NaN.
    pub fn from_bits(bits: u64) -> (number: Option<Real>)
        ensures
            number is Some <==> !is_nan_bits(bits),
            number matches Some(r) ==> r@ == bits,
    {
        if (bits & 0x7fff_ffff_ffff_ffff) > 0x7ff0_0000_0000_0000 {
            None
        } else {
            Some(Real { bits })
        }
    }

    /// The bits of this number.
    pub fn to_bits(&self) -> (bits: u64)
        ensures
            bits == self@,
            !is_nan_bits(bits),
    {
        proof {
            use_type_invariant(self);
        }
        self.bits
    }
}

/// A Wolfram Language expression.
#[derive(Debug, PartialEq)]
pub enum Expr {
    /// A machine integer.
    Integer(i64),
    /// A machine real number.
    Real(Real),
    /// A string.
    String(String),
    /// A symbol.
    Symbol(Symbol),
    /// A normal expression: a head applied to arguments, `head[args...]`.
    Normal {
        /// The head of the expression.
        head: Box<Expr>,
        /// The arguments, in order.
        args: Vec<Expr>,
    },
}

/// An expression as a mathematical value.
pub enum ExprView {
    /// A machine integer.
    Integer(i64),
    /// A machine real number, by its bits.
    Real(u64),
    /// A string, by its characters.
    String(Seq<char>),
    /// A symbol, by the characters of its name.
    Symbol(Seq<char>),
    /// A normal expression.
    Normal(Box<ExprView>, Seq<ExprView>),
}

impl Expr {
    /// Construct a new normal expression from the head and elements.
    pub fn normal(head: Expr, args: Vec<Expr>) -> (expr: Expr)
        ensures
            expr == (Expr::Normal { head: Box::new(head), args }),
    {
        Expr::Normal { head: Box::new(head), args }
    }

    /// Construct a new expression from a symbol.
    pub fn symbol(symbol: Symbol) -> (expr: Expr)
        ensures
            expr == Expr::Symbol(symbol),
    {
        Expr::Symbol(symbol)
    }

    /// Construct a new expression from a string.
    pub fn string(text: &str) -> (expr: Expr)
        ensures
            expr@ == ExprView::String(text@),
    {
        Expr::String(String::from_str(text))
    }

    /// This expression as a mathematical value.
    pub open spec fn model(&self) -> ExprView
        decreases self,
    {
        match self {
            Expr::Integer(value) => ExprView::Integer(*value),
            Expr::Real(value) => ExprView::Real(value@),
            Expr::String(value) => ExprView::String(value@),
            Expr::Symbol(value) => ExprView::Symbol(value@),
            Expr::Normal { head, args } => ExprView::Normal(
                Box::new(head.model()),
                Seq::new(
                    args@.len(),
                    |i: int|
                        if 0 <= i < args@.len() {
                            args@[i].model()
                        } else {
                            ExprView::Integer(0)
                        },
                ),
            ),
        }
    }
}

impl Clone for Expr {
    fn clone(&self) -> (copy: Expr)
        ensures
            copy@ == self@,
        decreases self,
    {
        match self {
            Expr::Integer(value) => Expr::Integer(*value),
            Expr::Real(value) => Expr::Real(*value),
            Expr::String(value) => Expr::String(value.clone()),
            Expr::Symbol(value) => Expr::Symbol(value.clone()),
            Expr::Normal { head, args } => {
                let head_copy: Expr = (**head).clone();
                let mut copies: Vec<Expr> = Vec::new();
                let mut i: usize = 0;
                while i < args.len()
                    invariant
                        i <= args@.len(),
                        copies@.len() == i,
                        self matches Expr::Normal { head: _, args: all } && all == args,
                        forall|k: int| 0 <= k < i ==> copies@[k]@ == args@[k]@,
                    decreases args.len() - i,
                {
                    assert(decreases_to!(self => args));
                    assert(decreases_to!(args => args@));
                    assert(decreases_to!(args@ => args@[i as int]));
                    copies.push(args[i].clone());
                    i += 1;
                }
                let copy = Expr::Normal { head: Box::new(head_copy), args: copies };
                assert(copy@->Normal_1 =~= self@->Normal_1);
                copy
            },
        }
    }
}

impl View for Expr {
    type V = ExprView;

    open spec fn view(&self) -> ExprView {
        self.model()
    }
}

} // verus!
