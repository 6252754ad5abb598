//! The tokens of a link's stream.

use vstd::prelude::*;
use vstd::string::*;
use crate::error::{custom_error, Error, ErrorView};
use crate::sys::{WSTKFUNC, WSTKINT, WSTKREAL, WSTKSTR, WSTKSYM};
use crate::text::{decimal, push_decimal_i64};

verus! {

/// The type of a token available to read from a link.
///
/// See also [`Token`].
#[derive(Debug, Copy, Clone, PartialEq, Eq, Hash, Structural)]
pub enum TokenType {
    /// [`WSTKINT`]
    Integer,
    /// [`WSTKREAL`]
    Real,
    /// [`WSTKSYM`]
    Symbol,
    /// [`WSTKSTR`]
    String,
    /// [`WSTKFUNC`]
    Function,
}

/// The token type that a raw type tag stands for, if it stands for one.
pub open spec fn token_type_of_raw(raw: int) -> Option<TokenType> {
    if raw == WSTKINT {
        Some(TokenType::Integer)
    } else if raw == WSTKREAL {
        Some(TokenType::Real)
    } else if raw == WSTKSTR {
        Some(TokenType::String)
    } else if raw == WSTKSYM {
        Some(TokenType::Symbol)
    } else if raw == WSTKFUNC {
        Some(TokenType::Function)
    } else {
        None
    }
}

/// The raw type tag of a token type.
pub open spec fn raw_of_token_type(token_type: TokenType) -> i32 {
    match token_type {
        TokenType::Integer => WSTKINT as i32,
        TokenType::Real => WSTKREAL as i32,
        TokenType::String => WSTKSTR as i32,
        TokenType::Symbol => WSTKSYM as i32,
        TokenType::Function => WSTKFUNC as i32,
    }
}

/// The error for a raw type tag that stands for no token type.
pub open spec fn unknown_type_error(raw: int) -> ErrorView {
    custom_error("unknown WSLINK type: "@ + decimal(raw))
}

impl TokenType {
    /// The token type that the raw type tag `raw` stands for. A tag outside
    /// the known set is an error.
    pub fn from_raw(raw: i32) -> (token_type: Result<TokenType, Error>)
        ensures
            match token_type_of_raw(raw as int) {
                Some(known) => token_type == Ok::<TokenType, Error>(known),
                None => token_type matches Err(e) && e@ == unknown_type_error(raw as int),
            },
    {
        if raw == WSTKINT as i32 {
            Ok(TokenType::Integer)
        } else if raw == WSTKREAL as i32 {
            Ok(TokenType::Real)
        } else if raw == WSTKSTR as i32 {
            Ok(TokenType::String)
        } else if raw == WSTKSYM as i32 {
            Ok(TokenType::Symbol)
        } else if raw == WSTKFUNC as i32 {
            Ok(TokenType::Function)
        } else {
            let mut message: String = String::from_str("unknown WSLINK type: ");
            push_decimal_i64(&mut message, raw as i64);
            Err(Error::custom(message))
        }
    }

    /// The raw type tag of this token type.
    pub fn raw(self) -> (raw: i32)
        ensures
            raw == raw_of_token_type(self),
            token_type_of_raw(raw as int) == Some(self),
    {
        match self {
            TokenType::Integer => WSTKINT as i32,
            TokenType::Real => WSTKREAL as i32,
            TokenType::String => WSTKSTR as i32,
            TokenType::Symbol => WSTKSYM as i32,
            TokenType::Function => WSTKFUNC as i32,
        }
    }
}

/// A token as a mathematical value.
pub enum TokenView {
    /// An integer.
    Integer(i64),
    /// A real number, by its bits.
    Real(u64),
    /// A string, by its characters.
    String(Seq<char>),
    /// A symbol, by the characters of its name.
    Symbol(Seq<char>),
    /// The start of a function with that many arguments: its head follows,
    /// then the arguments.
    Function(usize),
    /// A rectangular array of integers: the size of each of its dimensions,
    /// and its elements, those of the last dimension next to each other.
    IntegerArray(Seq<usize>, Seq<i64>),
}

impl TokenView {
    /// The type of this token.
    pub open spec fn token_type(self) -> TokenType {
        match self {
            TokenView::Integer(_) => TokenType::Integer,
            TokenView::Real(_) => TokenType::Real,
            TokenView::String(_) => TokenType::String,
            TokenView::Symbol(_) => TokenType::Symbol,
            TokenView::Function(_) => TokenType::Function,
            TokenView::IntegerArray(_, _) => TokenType::Function,
        }
    }
}

/// The count of the elements of a rectangular array with the given sizes of
/// its dimensions: their product.
pub open spec fn element_count(dimensions: Seq<usize>) -> nat
    decreases dimensions.len(),
{
    if dimensions.len() == 0 {
        1
    } else {
        element_count(dimensions.drop_last()) * (dimensions.last() as nat)
    }
}

/// A rectangular array of integers with any number of dimensions. It has as
/// many elements as its dimensions say.
#[derive(Debug, PartialEq, Eq)]
pub struct IntegerArray {
    dimensions: Vec<usize>,
    data: Vec<i64>,
}

/// The count of elements in `dimensions`, if it fits the machine.
pub fn count_elements(dimensions: &[usize]) -> (count: Option<usize>)
    ensures
        match count {
            Some(count) => count == element_count(dimensions@),
            None => element_count(dimensions@) > usize::MAX,
        },
{
    let mut i: usize = 0;
    while i < dimensions.len()
        invariant
            i <= dimensions@.len(),
            forall|k: int| 0 <= k < i ==> dimensions@[k] != 0,
        decreases dimensions.len() - i,
    {
        if dimensions[i] == 0 {
            proof {
                lemma_zero_dimension(dimensions@, i as int);
            }
            return Some(0);
        }
        i += 1;
    }
    let mut count: usize = 1;
    let mut j: usize = 0;
    assert(dimensions@.take(0) =~= Seq::empty());
    while j < dimensions.len()
        invariant
            j <= dimensions@.len(),
            forall|k: int| 0 <= k < dimensions@.len() ==> dimensions@[k] != 0,
            count == element_count(dimensions@.take(j as int)),
            count >= 1,
        decreases dimensions.len() - j,
    {
        let ghost before = dimensions@.take(j as int);
        let ghost after = dimensions@.take(j as int + 1);
        assert(after.drop_last() =~= before);
        assert(after.last() == dimensions@[j as int]);
        match count.checked_mul(dimensions[j]) {
            Some(more) => {
                assert(more >= 1) by (nonlinear_arith)
                    requires
                        more == count * dimensions@[j as int],
                        count >= 1,
                        dimensions@[j as int] >= 1,
                {
                }
                count = more;
            },
            None => {
                proof {
                    lemma_count_grows(dimensions@, j as int + 1);
                }
                return None;
            },
        }
        j += 1;
    }
    assert(dimensions@.take(dimensions@.len() as int) =~= dimensions@);
    Some(count)
}

/// An array with a dimension of size 0 has no elements.
proof fn lemma_zero_dimension(dimensions: Seq<usize>, at: int)
    requires
        0 <= at < dimensions.len(),
        dimensions[at] == 0,
    ensures
        element_count(dimensions) == 0,
    decreases dimensions.len(),
{
    if at == dimensions.len() - 1 {
        assert(element_count(dimensions.drop_last()) * 0 == 0) by (nonlinear_arith);
    } else {
        lemma_zero_dimension(dimensions.drop_last(), at);
        assert(0 * (dimensions.last() as nat) == 0) by (nonlinear_arith);
    }
}

/// Where no dimension has the size 0, the array has at least as many
/// elements as its first dimensions alone would give it.
proof fn lemma_count_grows(dimensions: Seq<usize>, first: int)
    requires
        0 <= first <= dimensions.len(),
        forall|k: int| 0 <= k < dimensions.len() ==> dimensions[k] != 0,
    ensures
        element_count(dimensions) >= element_count(dimensions.take(first)),
    decreases dimensions.len(),
{
    if first == dimensions.len() {
        assert(dimensions.take(first) =~= dimensions);
    } else {
        let shorter = dimensions.drop_last();
        lemma_count_grows(shorter, first);
        assert(shorter.take(first) =~= dimensions.take(first));
        assert(element_count(shorter) * (dimensions.last() as nat) >= element_count(shorter))
            by (nonlinear_arith)
            requires
                dimensions.last() >= 1,
        {
        }
    }
}

impl IntegerArray {
    #[verifier::type_invariant]
    spec fn rectangular(&self) -> bool {
        element_count(self.dimensions@) == self.data@.len()
    }

    /// The size of each dimension.
    pub closed spec fn shape(&self) -> Seq<usize> {
        self.dimensions@
    }

    /// The elements, those of the last dimension next to each other.
    pub closed spec fn elements(&self) -> Seq<i64> {
        self.data@
    }

    /// The array with the given elements and sizes of its dimensions, if
    /// there are as many elements as the dimensions say.
    pub fn new(data: Vec<i64>, dimensions: Vec<usize>) -> (array: Option<IntegerArray>)
        ensures
            array is Some <==> element_count(dimensions@) == data@.len(),
            array matches Some(a) ==> a.shape() == dimensions@ && a.elements() == data@,
    {
        let length: usize = data.len();
        match count_elements(dimensions.as_slice()) {
            Some(count) => {
                if count == length {
                    Some(IntegerArray { dimensions, data })
                } else {
                    None
                }
            },
            None => None,
        }
    }

    /// The elements and the sizes of the dimensions of this array.
    pub fn into_parts(self) -> (parts: (Vec<i64>, Vec<usize>))
        ensures
            parts.0@ == self.elements(),
            parts.1@ == self.shape(),
            element_count(self.shape()) == self.elements().len(),
    {
        proof {
            use_type_invariant(&self);
        }
        (self.data, self.dimensions)
    }

    /// The size of each dimension.
    pub fn dimensions(&self) -> (dimensions: &[usize])
        ensures
            dimensions@ == self.shape(),
            element_count(self.shape()) == self.elements().len(),
    {
        proof {
            use_type_invariant(self);
        }
        self.dimensions.as_slice()
    }

    /// The elements, as a flat buffer.
    pub fn data(&self) -> (data: &[i64])
        ensures
            data@ == self.elements(),
            element_count(self.shape()) == self.elements().len(),
    {
        proof {
            use_type_invariant(self);
        }
        self.data.as_slice()
    }
}

/// One unit of a link's stream, owning its data.
#[derive(Debug, PartialEq, Eq)]
pub enum Atom {
    /// An integer.
    Integer(i64),
    /// A real number, by the bits of its IEEE 754 binary64 form.
    Real(u64),
    /// A string.
    String(String),
    /// A symbol, by its name.
    Symbol(String),
    /// The start of a function with that many arguments.
    Function(usize),
    /// A rectangular array of integers, which travels as one unit and shows
    /// the type of a function.
    IntegerArray(IntegerArray),
}

impl View for Atom {
    type V = TokenView;

    open spec fn view(&self) -> TokenView {
        match self {
            Atom::Integer(value) => TokenView::Integer(*value),
            Atom::Real(bits) => TokenView::Real(*bits),
            Atom::String(value) => TokenView::String(value@),
            Atom::Symbol(name) => TokenView::Symbol(name@),
            Atom::Function(length) => TokenView::Function(*length),
            Atom::IntegerArray(array) => TokenView::IntegerArray(array.shape(), array.elements()),
        }
    }
}

/// The tokens that a sequence of atoms stands for.
pub open spec fn atoms_view(atoms: Seq<Atom>) -> Seq<TokenView> {
    Seq::new(atoms.len(), |i: int| atoms[i]@)
}

} // verus!
