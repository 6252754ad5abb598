//! Symbols of the Wolfram Language, named with their context.

use vstd::prelude::*;
use vstd::string::*;

verus! {

/// Whether `name` is written as an absolute symbol: a symbol name preceded by
/// its context, as in ``System`Plus``. This is the answer of
/// `wolfram_expr::Symbol::try_new`, which depends on the name alone.
pub uninterp spec fn absolute_symbol(name: Seq<char>) -> bool;

/// Asks `wolfram_expr::Symbol::try_new` whether `name` parses as an absolute
/// symbol. The contract gives that answer its name, [`absolute_symbol`], and
/// claims nothing more.
#[verifier::external_body]
fn parses_as_absolute_symbol(name: &str) -> (ok: bool)
    ensures
        ok == absolute_symbol(name@),
{
    wolfram_expr::Symbol::try_new(name).is_some()
}

/// A Wolfram Language symbol with its context, such as ``Global`x``.
#[derive(Debug, PartialEq, Eq)]
pub struct Symbol {
    name: String,
}

impl View for Symbol {
    type V = Seq<char>;

    closed spec fn view(&self) -> Seq<char> {
        self.name@
    }
}

impl Clone for Symbol {
    fn clone(&self) -> (copy: Symbol)
        ensures
            copy@ == self@,
    {
        proof {
            use_type_invariant(self);
        }
        Symbol { name: self.name.clone() }
    }
}

impl Symbol {
    #[verifier::type_invariant]
    spec fn named_with_context(&self) -> bool {
        absolute_symbol(self.name@)
    }

    /// Attempt to parse `input` as an absolute symbol.
    ///
    /// An absolute symbol is a symbol with an explicit context path.
    /// ``"System`Plus"`` is an absolute symbol, ``"Plus"`` is not.
    pub fn try_new(input: &str) -> (symbol: Option<Symbol>)
        ensures
            symbol is Some <==> absolute_symbol(input@),
            symbol matches Some(s) ==> s@ == input@,
    {
        if parses_as_absolute_symbol(input) {
            Some(Symbol { name: String::from_str(input) })
        } else {
            None
        }
    }

    /// The name of this symbol, with its context.
    pub fn as_str(&self) -> (name: &str)
        ensures
            name@ == self@,
            absolute_symbol(name@),
    {
        proof {
            use_type_invariant(self);
        }
        self.name.as_str()
    }
}

} // verus!
