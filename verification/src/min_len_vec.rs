//! A vector with a minimum length.
use vstd::prelude::*;
use vstd::std_specs::convert::{FromSpecImpl, TryFromSpecImpl};
use vstd::string::StringExecFns;

use crate::text::{decimal, push_decimal};

verus! {

/// A vector that always holds at least `N` elements.
///
/// It wraps a `Vec<T>` and keeps its length from falling below `N`, so that
/// code that needs a first or a last element does not have to test for one.
#[derive(Debug)]
pub struct MinLenVec<T, const N: usize>(Vec<T>);

/// Error type for `MinLenVec`.
#[derive(Debug, PartialEq, Eq, Structural)]
pub enum MinLenVecError {
    /// Not enough elements in the vector.
    ///
    /// Returned by [`MinLenVec::new`] for a vector of fewer than `N` elements,
    /// and by [`MinLenVec::pop`] when the vector holds exactly `N` elements.
    NotEnoughElements {
        /// Minimum number of elements
        min: usize,
        /// Actual number of elements
        actual: usize,
    },
}

impl MinLenVecError {
    /// The text that describes the error.
    pub open spec fn message(self) -> Seq<char> {
        match self {
            MinLenVecError::NotEnoughElements { min, actual } => {
                "Not enough elements, expected at least "@ + decimal(min as nat) + ", got "@
                    + decimal(actual as nat)
            },
        }
    }

    /// Describes the error.
    pub fn to_string(&self) -> (text: String)
        ensures
            text@ == self.message(),
    {
        match self {
            MinLenVecError::NotEnoughElements { min, actual } => {
                let mut text = String::from_str("Not enough elements, expected at least ");
                push_decimal(&mut text, *min as u64);
                text.append(", got ");
                push_decimal(&mut text, *actual as u64);
                text
            },
        }
    }
}

/// A `MinLenVec` with a minimum length of 1.
pub type OneOrMore<T> = MinLenVec<T, 1>;

/// A `MinLenVec` with a minimum length of 2.
pub type TwoOrMore<T> = MinLenVec<T, 2>;

impl<T, const N: usize> View for MinLenVec<T, N> {
    type V = Seq<T>;

    closed spec fn view(&self) -> Seq<T> {
        self.0@
    }
}

impl<T, const N: usize> MinLenVec<T, N> {
    /// Whether the vector holds at least `N` elements. Every value that this
    /// module hands out does.
    pub open spec fn wf(&self) -> bool {
        self@.len() >= N
    }

    /// Creates a `MinLenVec` from a vector, or fails if the vector has fewer
    /// than `N` elements.
    pub fn new(data: Vec<T>) -> (made: Result<Self, MinLenVecError>)
        ensures
            data@.len() >= N ==> made.is_ok() && made.unwrap()@ == data@ && made.unwrap().wf(),
            data@.len() < N ==> made == Err::<Self, MinLenVecError>(
                MinLenVecError::NotEnoughElements { min: N, actual: data@.len() as usize },
            ),
    {
        if data.len() < N {
            return Err(MinLenVecError::NotEnoughElements { min: N, actual: data.len() });
        }
        Ok(Self(data))
    }

    /// Consumes the `MinLenVec` and returns the inner vector.
    pub fn into_inner(self) -> (inner: Vec<T>)
        ensures
            inner@ == self@,
    {
        self.0
    }

    /// The number of elements. This is the length of the inner vector, not
    /// the minimum length.
    pub fn len(&self) -> (len: usize)
        ensures
            len == self@.len(),
    {
        self.0.len()
    }

    /// The elements as a slice.
    pub fn as_slice(&self) -> (slice: &[T])
        ensures
            slice@ == self@,
    {
        self.0.as_slice()
    }

    /// The elements as a mutable slice. What is written through it stays in
    /// the vector.
    pub fn as_mut_slice(&mut self) -> (slice: &mut [T])
        ensures
            slice@ == old(self)@,
            final(self)@ == final(slice)@,
    {
        self.0.as_mut_slice()
    }

    /// An iterator over references to the elements, first to last.
    pub fn iter(&self) -> (iter: core::slice::Iter<'_, T>)
        ensures
            vstd::std_specs::iter::IteratorSpec::remaining(&iter) == self@.as_ref(),
            vstd::std_specs::iter::IteratorSpec::decrease(&iter) is Some,
            vstd::std_specs::iter::IteratorSpec::initial_value_relation(&iter, &iter),
    {
        broadcast use vstd::std_specs::slice::axiom_spec_slice_iter;

        self.0.as_slice().iter()
    }

    /// Appends an element.
    pub fn push(&mut self, value: T)
        ensures
            final(self)@ == old(self)@.push(value),
            old(self).wf() ==> final(self).wf(),
    {
        self.0.push(value);
    }

    /// Removes the last element and returns it, or fails without a change if
    /// that would leave fewer than `N` elements.
    pub fn pop(&mut self) -> (popped: Result<T, MinLenVecError>)
        ensures
            old(self)@.len() > N ==> popped == Ok::<T, MinLenVecError>(old(self)@.last())
                && final(self)@ == old(self)@.drop_last(),
            old(self)@.len() <= N ==> popped == Err::<T, MinLenVecError>(
                MinLenVecError::NotEnoughElements { min: N, actual: old(self)@.len() as usize },
            ) && final(self)@ == old(self)@,
            old(self).wf() ==> final(self).wf(),
    {
        if self.0.len() <= N {
            return Err(MinLenVecError::NotEnoughElements { min: N, actual: self.0.len() });
        }
        match self.0.pop() {
            Some(value) => Ok(value),
            None => Err(MinLenVecError::NotEnoughElements { min: N, actual: 0 }),
        }
    }

    /// The first element.
    pub fn first(&self) -> (first: &T)
        requires
            self@.len() > 0,
        ensures
            *first == self@[0],
    {
        &self.0[0]
    }

    /// The last element.
    pub fn last(&self) -> (last: &T)
        requires
            self@.len() > 0,
        ensures
            *last == self@.last(),
    {
        &self.0[self.0.len() - 1]
    }
}

impl<T, const N: usize> vstd::std_specs::core::IndexSpecImpl<usize> for MinLenVec<T, N> {
    open spec fn index_req(&self, index: &usize) -> bool {
        *index < self@.len()
    }
}

impl<T, const N: usize> core::ops::Index<usize> for MinLenVec<T, N> {
    type Output = T;

    fn index(&self, index: usize) -> (element: &T)
        ensures
            *element == self@[index as int],
    {
        &self.0[index]
    }
}

impl<T, const N: usize> TryFromSpecImpl<Vec<T>> for MinLenVec<T, N> {
    open spec fn obeys_try_from_spec() -> bool {
        true
    }

    closed spec fn try_from_spec(value: Vec<T>) -> Result<Self, MinLenVecError> {
        if value@.len() < N {
            Err(MinLenVecError::NotEnoughElements { min: N, actual: value@.len() as usize })
        } else {
            Ok(MinLenVec(value))
        }
    }
}

impl<T, const N: usize> TryFrom<Vec<T>> for MinLenVec<T, N> {
    type Error = MinLenVecError;

    fn try_from(value: Vec<T>) -> (made: Result<Self, MinLenVecError>)
        ensures
            value@.len() >= N ==> made.is_ok() && made.unwrap()@ == value@ && made.unwrap().wf(),
            value@.len() < N ==> made == Err::<Self, MinLenVecError>(
                MinLenVecError::NotEnoughElements { min: N, actual: value@.len() as usize },
            ),
    {
        if value.len() < N {
            return Err(MinLenVecError::NotEnoughElements { min: N, actual: value.len() });
        }
        Ok(Self(value))
    }
}

impl<T, const N: usize> FromSpecImpl<MinLenVec<T, N>> for Vec<T> {
    open spec fn obeys_from_spec() -> bool {
        true
    }

    closed spec fn from_spec(value: MinLenVec<T, N>) -> Vec<T> {
        value.0
    }
}

impl<T, const N: usize> From<MinLenVec<T, N>> for Vec<T> {
    fn from(value: MinLenVec<T, N>) -> (inner: Vec<T>)
        ensures
            inner@ == value@,
    {
        value.0
    }
}

impl<T: Clone, const N: usize> FromSpecImpl<[T; N]> for MinLenVec<T, N> {
    open spec fn obeys_from_spec() -> bool {
        false
    }

    closed spec fn from_spec(value: [T; N]) -> Self {
        arbitrary()
    }
}

impl<T: Clone, const N: usize> From<[T; N]> for MinLenVec<T, N> {
    fn from(value: [T; N]) -> (made: Self)
        ensures
            made.wf(),
            made@.len() == N,
            forall|i: int| 0 <= i < N ==> cloned::<T>(#[trigger] value@[i], made@[i]),
    {
        let mut data: Vec<T> = Vec::new();
        let mut next: usize = 0;
        while next < N
            invariant
                next <= N,
                data@.len() == next,
                forall|i: int| 0 <= i < next ==> cloned::<T>(#[trigger] value@[i], data@[i]),
            decreases N - next,
        {
            data.push(value[next].clone());
            next += 1;
        }
        Self(data)
    }
}

impl<T, const N: usize> core::iter::IntoIterator for MinLenVec<T, N> {
    type IntoIter = std::vec::IntoIter<T>;

    type Item = T;

    fn into_iter(self) -> (iter: std::vec::IntoIter<T>)
        ensures
            vstd::std_specs::iter::IteratorSpec::remaining(&iter) == self@,
    {
        broadcast use vstd::std_specs::vec::axiom_spec_into_iter;

        self.0.into_iter()
    }
}

impl<T: Clone, const N: usize> Clone for MinLenVec<T, N> {
    fn clone(&self) -> (copy: Self)
        ensures
            copy@.len() == self@.len(),
            forall|i: int| 0 <= i < self@.len() ==> cloned::<T>(#[trigger] self@[i], copy@[i]),
    {
        Self(self.0.clone())
    }
}

} // verus!
