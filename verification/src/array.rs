//! Rectangular arrays of integers on a link.

use vstd::prelude::*;
use vstd::slice::slice_to_vec;
use vstd::string::*;
use crate::error::{custom_error, Error, ErrorView};
use crate::link::{link_error, plain, Link, LinkView};
use crate::sys::{WSEABORT, WSEGSEQ, WSEOVFL};
use crate::text::{decimal_nat, push_decimal_u64};
use crate::token::{count_elements, element_count, Atom, IntegerArray, TokenView};

verus! {

/// The numbers of a list, separated by a comma and a space.
pub open spec fn joined(items: Seq<usize>) -> Seq<char>
    decreases items.len(),
{
    if items.len() == 0 {
        Seq::empty()
    } else if items.len() == 1 {
        decimal_nat(items[0] as nat)
    } else {
        joined(items.drop_last()) + ", "@ + decimal_nat(items.last() as nat)
    }
}

/// The text of a list of numbers, in square brackets.
pub open spec fn list_text(items: Seq<usize>) -> Seq<char> {
    "["@ + joined(items) + "]"@
}

/// The place of the first dimension from `from` on whose size does not fit
/// in 32 bits, if there is one.
pub open spec fn first_oversize(dimensions: Seq<usize>, from: int) -> Option<int>
    decreases dimensions.len() - from,
{
    if from < 0 || from >= dimensions.len() {
        None
    } else if dimensions[from] > i32::MAX {
        Some(from)
    } else {
        first_oversize(dimensions, from + 1)
    }
}

/// The error for the dimension at the place `index`, whose size does not fit
/// in 32 bits.
pub open spec fn dimension_error(dimensions: Seq<usize>, index: int) -> ErrorView {
    custom_error(
        "in dimensions list "@ + list_text(dimensions) + ", the dimension at index "@
            + decimal_nat(index as nat) + " (value: "@ + decimal_nat(dimensions[index] as nat)
            + ") overflows i32: out of range integral type conversion attempted; during WSTP array operation."@,
    )
}

/// The text of the list `items`.
fn list_string(items: &[usize]) -> (text: String)
    ensures
        text@ == list_text(items@),
{
    let mut text: String = String::from_str("[");
    let mut i: usize = 0;
    assert(items@.take(0) =~= Seq::empty());
    while i < items.len()
        invariant
            i <= items@.len(),
            text@ == "["@ + joined(items@.take(i as int)),
        decreases items.len() - i,
    {
        let ghost before = items@.take(i as int);
        let ghost after = items@.take(i as int + 1);
        assert(after.drop_last() =~= before);
        assert(after.last() == items@[i as int]);
        if i > 0 {
            text.append(", ");
        }
        push_decimal_u64(&mut text, items[i] as u64);
        assert(text@ =~= "["@ + joined(after));
        i += 1;
    }
    assert(items@.take(items@.len() as int) =~= items@);
    text.append("]");
    text
}

/// Convert `dimensions` to sizes of 32 bits, as the transport takes them.
/// The first size that does not fit is an error that names it.
pub fn abi_array_dimensions(dimensions: &[usize]) -> (converted: Result<Vec<i32>, Error>)
    ensures
        match first_oversize(dimensions@, 0) {
            Some(index) => converted matches Err(error) && error@ == dimension_error(
                dimensions@,
                index,
            ),
            None => converted matches Ok(sizes) && sizes@.len() == dimensions@.len() && forall|
                i: int,
            | 0 <= i < sizes@.len() ==> sizes@[i] == dimensions@[i],
        },
{
    let mut sizes: Vec<i32> = Vec::new();
    let mut index: usize = 0;
    while index < dimensions.len()
        invariant
            index <= dimensions@.len(),
            first_oversize(dimensions@, 0) == first_oversize(dimensions@, index as int),
            sizes@.len() == index,
            forall|i: int| 0 <= i < index ==> sizes@[i] == dimensions@[i],
        decreases dimensions.len() - index,
    {
        let dim: usize = dimensions[index];
        if dim > i32::MAX as usize {
            let mut message: String = String::from_str("in dimensions list ");
            let list: String = list_string(dimensions);
            message.append(list.as_str());
            message.append(", the dimension at index ");
            push_decimal_u64(&mut message, index as u64);
            message.append(" (value: ");
            push_decimal_u64(&mut message, dim as u64);
            message.append(
                ") overflows i32: out of range integral type conversion attempted; during WSTP array operation.",
            );
            return Err(Error::custom(message));
        }
        sizes.push(dim as i32);
        index += 1;
    }
    Ok(sizes)
}

/// Whether an array with the given sizes of its dimensions has `length`
/// elements.
pub fn dimensions_match(length: usize, dimensions: &[usize]) -> (matching: bool)
    ensures
        matching == (element_count(dimensions@) == length),
{
    match count_elements(dimensions) {
        Some(count) => count == length,
        None => false,
    }
}

/// Reference to a multidimensional rectangular array read from a [`Link`].
///
/// [`Array`] is returned from:
///
/// * [`Link::get_i64_array()`]
/// * [`Link::get_i32_array()`]
/// * [`Link::get_i16_array()`]
/// * [`Link::get_u8_array()`]
///
/// The array has left the stream of the link, and the `Array` holds the link
/// borrowed for as long as it lives. Its storage is given back exactly once,
/// when it goes.
#[derive(Debug)]
pub struct Array<'link, T> {
    link: &'link Link,
    data: Vec<T>,
    dimensions: Vec<usize>,
}

impl<'link, T> Array<'link, T> {
    #[verifier::type_invariant]
    spec fn rectangular(&self) -> bool {
        element_count(self.dimensions@) == self.data@.len()
    }

    /// The size of each dimension.
    pub closed spec fn shape(&self) -> Seq<usize> {
        self.dimensions@
    }

    /// The elements, those of the last dimension next to each other.
    pub closed spec fn elements(&self) -> Seq<T> {
        self.data@
    }

    /// The state of the link from which the array was read, after the read.
    pub closed spec fn source(&self) -> LinkView {
        self.link@
    }

    /// Access the elements stored in this [`Array`] as a flat buffer. There
    /// are as many as the product of the dimensions.
    pub fn data<'s>(&'s self) -> (data: &'s [T])
        ensures
            data@ == self.elements(),
            data@.len() == element_count(self.shape()),
    {
        proof {
            use_type_invariant(self);
        }
        self.data.as_slice()
    }

    /// Get the number of dimensions in this array.
    pub fn rank(&self) -> (rank: usize)
        ensures
            rank == self.shape().len(),
    {
        self.dimensions.len()
    }

    /// Get the dimensions of this array.
    pub fn dimensions(&self) -> (dimensions: &[usize])
        ensures
            dimensions@ == self.shape(),
    {
        self.dimensions.as_slice()
    }

    /// Length of the first dimension of this array, which must have one.
    pub fn length(&self) -> (length: usize)
        requires
            self.shape().len() > 0,
        ensures
            length == self.shape()[0],
    {
        self.dimensions[0]
    }
}

impl LinkView {
    /// Writing an array of integers with the given sizes of its dimensions.
    /// A size that does not fit in 32 bits is refused before anything is
    /// written.
    pub open spec fn put_integer_array(self, dimensions: Seq<usize>, data: Seq<i64>) -> (
        LinkView,
        Result<(), ErrorView>,
    ) {
        match first_oversize(dimensions, 0) {
            Some(index) => (self, Err(dimension_error(dimensions, index))),
            None => self.put(TokenView::IntegerArray(dimensions, data)),
        }
    }

    /// Reading an array of integers that must all lie between `low` and
    /// `high`: one with an element that does not is left on the stream.
    pub open spec fn get_integer_array(self, low: int, high: int) -> (
        LinkView,
        Result<(Seq<usize>, Seq<i64>), ErrorView>,
    ) {
        if self.unread.len() == 0 {
            (self.failed(WSEABORT), Err(link_error(WSEABORT)))
        } else {
            match self.unread[0] {
                TokenView::IntegerArray(dimensions, data) => if forall|i: int|
                    0 <= i < data.len() ==> low <= #[trigger] data[i] <= high {
                    (self.advanced(), Ok((dimensions, data)))
                } else {
                    (self.failed(WSEOVFL), Err(link_error(WSEOVFL)))
                },
                _ => (self.failed(WSEGSEQ), Err(link_error(WSEGSEQ))),
            }
        }
    }
}

/// Whether all of `data` lie between `low` and `high`.
fn all_within(data: &[i64], low: i64, high: i64) -> (within: bool)
    ensures
        within == (forall|i: int| 0 <= i < data@.len() ==> low <= #[trigger] data@[i] <= high),
{
    let mut i: usize = 0;
    while i < data.len()
        invariant
            i <= data@.len(),
            forall|k: int| 0 <= k < i ==> low <= #[trigger] data@[k] <= high,
        decreases data.len() - i,
    {
        if data[i] < low || data[i] > high {
            return false;
        }
        i += 1;
    }
    true
}

impl Link {
    /// Writes an array of integers.
    fn put_integer_array(&mut self, data: Vec<i64>, dimensions: &[usize]) -> (done: Result<
        (),
        Error,
    >)
        requires
            element_count(dimensions@) == data@.len(),
        ensures
            final(self)@ == old(self)@.put_integer_array(dimensions@, data@).0,
            plain(done) == old(self)@.put_integer_array(dimensions@, data@).1,
    {
        match abi_array_dimensions(dimensions) {
            Ok(_) => {},
            Err(error) => {
                return Err(error);
            },
        }
        let array = IntegerArray::new(data, slice_to_vec(dimensions)).unwrap();
        self.put_atom(Atom::IntegerArray(array))
    }

    /// Reads an array of integers that all lie between `low` and `high`.
    fn take_integer_array(&mut self, low: i64, high: i64) -> (array: Result<IntegerArray, Error>)
        ensures
            final(self)@ == old(self)@.get_integer_array(low as int, high as int).0,
            match old(self)@.get_integer_array(low as int, high as int).1 {
                Ok((dimensions, data)) => array matches Ok(a) && a.shape() == dimensions
                    && a.elements() == data && forall|i: int|
                    0 <= i < data.len() ==> low <= #[trigger] data[i] <= high,
                Err(error) => array matches Err(e) && e@ == error,
            },
    {
        let found: Option<Option<bool>> = match self.peek() {
            None => None,
            Some(atom) => Some(
                match atom {
                    Atom::IntegerArray(array) => Some(all_within(array.data(), low, high)),
                    _ => None,
                },
            ),
        };
        match found {
            None => self.fail(WSEABORT),
            Some(None) => self.fail(WSEGSEQ),
            Some(Some(false)) => self.fail(WSEOVFL),
            Some(Some(true)) => {
                match self.take() {
                    Atom::IntegerArray(array) => Ok(array),
                    _ => self.fail(WSEGSEQ),
                }
            },
        }
    }

    /// Put a multidimensional array of [`i64`]. The product of `dimensions`
    /// must be equal to `data.len()`; [`dimensions_match`] tells.
    pub fn put_i64_array(&mut self, data: &[i64], dimensions: &[usize]) -> (done: Result<(), Error>)
        requires
            element_count(dimensions@) == data@.len(),
        ensures
            final(self)@ == old(self)@.put_integer_array(dimensions@, data@).0,
            plain(done) == old(self)@.put_integer_array(dimensions@, data@).1,
    {
        self.put_integer_array(slice_to_vec(data), dimensions)
    }

    /// Put a multidimensional array of [`i32`]. The product of `dimensions`
    /// must be equal to `data.len()`; [`dimensions_match`] tells.
    pub fn put_i32_array(&mut self, data: &[i32], dimensions: &[usize]) -> (done: Result<(), Error>)
        requires
            element_count(dimensions@) == data@.len(),
        ensures
            final(self)@ == old(self)@.put_integer_array(
                dimensions@,
                Seq::new(data@.len(), |i: int| data@[i] as i64),
            ).0,
            plain(done) == old(self)@.put_integer_array(
                dimensions@,
                Seq::new(data@.len(), |i: int| data@[i] as i64),
            ).1,
    {
        let mut wide: Vec<i64> = Vec::new();
        let mut i: usize = 0;
        while i < data.len()
            invariant
                i <= data@.len(),
                wide@.len() == i,
                forall|k: int| 0 <= k < i ==> wide@[k] == data@[k] as i64,
            decreases data.len() - i,
        {
            wide.push(data[i] as i64);
            i += 1;
        }
        assert(wide@ =~= Seq::new(data@.len(), |i: int| data@[i] as i64));
        self.put_integer_array(wide, dimensions)
    }

    /// Put a multidimensional array of [`i16`]. The product of `dimensions`
    /// must be equal to `data.len()`; [`dimensions_match`] tells.
    pub fn put_i16_array(&mut self, data: &[i16], dimensions: &[usize]) -> (done: Result<(), Error>)
        requires
            element_count(dimensions@) == data@.len(),
        ensures
            final(self)@ == old(self)@.put_integer_array(
                dimensions@,
                Seq::new(data@.len(), |i: int| data@[i] as i64),
            ).0,
            plain(done) == old(self)@.put_integer_array(
                dimensions@,
                Seq::new(data@.len(), |i: int| data@[i] as i64),
            ).1,
    {
        let mut wide: Vec<i64> = Vec::new();
        let mut i: usize = 0;
        while i < data.len()
            invariant
                i <= data@.len(),
                wide@.len() == i,
                forall|k: int| 0 <= k < i ==> wide@[k] == data@[k] as i64,
            decreases data.len() - i,
        {
            wide.push(data[i] as i64);
            i += 1;
        }
        assert(wide@ =~= Seq::new(data@.len(), |i: int| data@[i] as i64));
        self.put_integer_array(wide, dimensions)
    }

    /// Put a multidimensional array of [`u8`]. The product of `dimensions`
    /// must be equal to `data.len()`; [`dimensions_match`] tells.
    pub fn put_u8_array(&mut self, data: &[u8], dimensions: &[usize]) -> (done: Result<(), Error>)
        requires
            element_count(dimensions@) == data@.len(),
        ensures
            final(self)@ == old(self)@.put_integer_array(
                dimensions@,
                Seq::new(data@.len(), |i: int| data@[i] as i64),
            ).0,
            plain(done) == old(self)@.put_integer_array(
                dimensions@,
                Seq::new(data@.len(), |i: int| data@[i] as i64),
            ).1,
    {
        let mut wide: Vec<i64> = Vec::new();
        let mut i: usize = 0;
        while i < data.len()
            invariant
                i <= data@.len(),
                wide@.len() == i,
                forall|k: int| 0 <= k < i ==> wide@[k] == data@[k] as i64,
            decreases data.len() - i,
        {
            wide.push(data[i] as i64);
            i += 1;
        }
        assert(wide@ =~= Seq::new(data@.len(), |i: int| data@[i] as i64));
        self.put_integer_array(wide, dimensions)
    }

    /// Get a multidimensional array of [`i64`].
    pub fn get_i64_array<'link>(&'link mut self) -> (array: Result<Array<'link, i64>, Error>)
        ensures
            final(self)@ == old(self)@.get_integer_array(i64::MIN as int, i64::MAX as int).0,
            match old(self)@.get_integer_array(i64::MIN as int, i64::MAX as int).1 {
                Ok((dimensions, data)) => array matches Ok(a) && a.shape() == dimensions
                    && a.elements() == data && a.source() == final(self)@,
                Err(error) => array matches Err(e) && e@ == error,
            },
    {
        match self.take_integer_array(i64::MIN, i64::MAX) {
            Ok(array) => {
                let (data, dimensions) = array.into_parts();
                Ok(Array { link: self, data, dimensions })
            },
            Err(error) => Err(error),
        }
    }

    /// Get a multidimensional array of [`i32`]. An array with an element
    /// that does not fit stays on the link.
    pub fn get_i32_array<'link>(&'link mut self) -> (array: Result<Array<'link, i32>, Error>)
        ensures
            final(self)@ == old(self)@.get_integer_array(i32::MIN as int, i32::MAX as int).0,
            match old(self)@.get_integer_array(i32::MIN as int, i32::MAX as int).1 {
                Ok((dimensions, data)) => array matches Ok(a) && a.shape() == dimensions
                    && a.elements().len() == data.len() && a.source() == final(self)@ && forall|
                    i: int,
                | 0 <= i < data.len() ==> #[trigger] a.elements()[i] == data[i],
                Err(error) => array matches Err(e) && e@ == error,
            },
    {
        match self.take_integer_array(i32::MIN as i64, i32::MAX as i64) {
            Ok(array) => {
                let (wide, dimensions) = array.into_parts();
                let mut data: Vec<i32> = Vec::new();
                let mut i: usize = 0;
                while i < wide.len()
                    invariant
                        i <= wide@.len(),
                        data@.len() == i,
                        forall|k: int|
                            0 <= k < wide@.len() ==> i32::MIN <= #[trigger] wide@[k] <= i32::MAX,
                        forall|k: int| 0 <= k < i ==> data@[k] == wide@[k],
                    decreases wide.len() - i,
                {
                    data.push(wide[i] as i32);
                    i += 1;
                }
                Ok(Array { link: self, data, dimensions })
            },
            Err(error) => Err(error),
        }
    }

    /// Get a multidimensional array of [`i16`]. An array with an element
    /// that does not fit stays on the link.
    pub fn get_i16_array<'link>(&'link mut self) -> (array: Result<Array<'link, i16>, Error>)
        ensures
            final(self)@ == old(self)@.get_integer_array(i16::MIN as int, i16::MAX as int).0,
            match old(self)@.get_integer_array(i16::MIN as int, i16::MAX as int).1 {
                Ok((dimensions, data)) => array matches Ok(a) && a.shape() == dimensions
                    && a.elements().len() == data.len() && a.source() == final(self)@ && forall|
                    i: int,
                | 0 <= i < data.len() ==> #[trigger] a.elements()[i] == data[i],
                Err(error) => array matches Err(e) && e@ == error,
            },
    {
        match self.take_integer_array(i16::MIN as i64, i16::MAX as i64) {
            Ok(array) => {
                let (wide, dimensions) = array.into_parts();
                let mut data: Vec<i16> = Vec::new();
                let mut i: usize = 0;
                while i < wide.len()
                    invariant
                        i <= wide@.len(),
                        data@.len() == i,
                        forall|k: int|
                            0 <= k < wide@.len() ==> i16::MIN <= #[trigger] wide@[k] <= i16::MAX,
                        forall|k: int| 0 <= k < i ==> data@[k] == wide@[k],
                    decreases wide.len() - i,
                {
                    data.push(wide[i] as i16);
                    i += 1;
                }
                Ok(Array { link: self, data, dimensions })
            },
            Err(error) => Err(error),
        }
    }

    /// Get a multidimensional array of [`u8`]. An array with an element that
    /// does not fit stays on the link.
    pub fn get_u8_array<'link>(&'link mut self) -> (array: Result<Array<'link, u8>, Error>)
        ensures
            final(self)@ == old(self)@.get_integer_array(0, u8::MAX as int).0,
            match old(self)@.get_integer_array(0, u8::MAX as int).1 {
                Ok((dimensions, data)) => array matches Ok(a) && a.shape() == dimensions
                    && a.elements().len() == data.len() && a.source() == final(self)@ && forall|
                    i: int,
                | 0 <= i < data.len() ==> #[trigger] a.elements()[i] == data[i],
                Err(error) => array matches Err(e) && e@ == error,
            },
    {
        match self.take_integer_array(0, u8::MAX as i64) {
            Ok(array) => {
                let (wide, dimensions) = array.into_parts();
                let mut data: Vec<u8> = Vec::new();
                let mut i: usize = 0;
                while i < wide.len()
                    invariant
                        i <= wide@.len(),
                        data@.len() == i,
                        forall|k: int| 0 <= k < wide@.len() ==> 0 <= #[trigger] wide@[k] <= u8::MAX,
                        forall|k: int| 0 <= k < i ==> data@[k] == wide@[k],
                    decreases wide.len() - i,
                {
                    data.push(wide[i] as u8);
                    i += 1;
                }
                Ok(Array { link: self, data, dimensions })
            },
            Err(error) => Err(error),
        }
    }
}

} // verus!
