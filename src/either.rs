//! An Either type for representing something that can be A or B. Similar ergonomics
//! to a [`std::result::Result`], and if need be you can convert easily to one.
//!
//! Includes transformers to get values out as an [`Option`], as well as
//! conditional implementations like [`Clone`] and [`Debug`].
use vstd::prelude::*;
use vstd::std_specs::convert::IntoSpec;

verus! {

/// Enum which can represent one of two values.
///
/// The same as an `(Option<A>, Option<B>)` where one [`Option`] must always be
/// [`Option::Some`] and the other must be [`Option::None`].
#[derive(Clone, Debug)]
pub enum Either<L, R> {
    /// The first variant of [`Either`].
    Left(L),
    /// The second variant of [`Either`].
    Right(R),
}

impl<L, R> Either<L, R> {
    /// Constructor for [`Either::Left`] which uses [`Into::into`].
    pub fn l<A: Into<L>>(a: A) -> (r: Self)
        ensures
            r is Left,
            A::obeys_into_spec() ==> r == Either::<L, R>::Left(a.into_spec()),
    {
        Either::Left(a.into())
    }

    /// Constructor for [`Either::Right`] which uses [`Into::into`].
    pub fn r<B: Into<R>>(b: B) -> (r: Self)
        ensures
            r is Right,
            B::obeys_into_spec() ==> r == Either::<L, R>::Right(b.into_spec()),
    {
        Either::Right(b.into())
    }

    /// Whether this is the [`Either::Left`] variant.
    pub fn is_left(&self) -> (r: bool)
        ensures
            r == (self is Left),
    {
        matches!(self, Either::Left(_))
    }

    /// Whether this is the [`Either::Right`] variant.
    pub fn is_right(&self) -> (r: bool)
        ensures
            r == (self is Right),
    {
        matches!(self, Either::Right(_))
    }

    /// Which side this is, without its value.
    pub fn to_unit(&self) -> (r: Either<(), ()>)
        ensures
            r is Left == self is Left,
    {
        if self.is_left() {
            Either::Left(())
        } else {
            Either::Right(())
        }
    }

    /// The owned `L` of an [`Either::Left`], else [`None`].
    pub fn to_left(self) -> (r: Option<L>)
        ensures
            r == match self {
                Either::Left(l) => Some(l),
                Either::Right(_) => None::<L>,
            },
    {
        if let Either::Left(l) = self {
            Some(l)
        } else {
            None
        }
    }

    /// A reference to the `L` of an [`Either::Left`], else [`None`].
    pub fn ref_left(&self) -> (r: Option<&L>)
        ensures
            r == match self {
                Either::Left(l) => Some(l),
                Either::Right(_) => None::<&L>,
            },
    {
        if let Either::Left(l) = self {
            Some(l)
        } else {
            None
        }
    }

    /// A mutable reference to the `L` of an [`Either::Left`], else [`None`].
    pub fn mut_ref_left(&mut self) -> (r: Option<&mut L>)
        ensures
            r is Some <==> (*old(self)) is Left,
            r is Some ==> *r->Some_0 == (*old(self))->Left_0 && *final(self) == Either::<L, R>::Left(
                *final(r->Some_0),
            ),
            r is None ==> *final(self) == *old(self),
    {
        if let Either::Left(l) = self {
            Some(l)
        } else {
            None
        }
    }

    /// The owned `R` of an [`Either::Right`], else [`None`].
    pub fn to_right(self) -> (r: Option<R>)
        ensures
            r == match self {
                Either::Left(_) => None::<R>,
                Either::Right(x) => Some(x),
            },
    {
        if let Either::Right(x) = self {
            Some(x)
        } else {
            None
        }
    }

    /// A reference to the `R` of an [`Either::Right`], else [`None`].
    pub fn ref_right(&self) -> (r: Option<&R>)
        ensures
            r == match self {
                Either::Left(_) => None::<&R>,
                Either::Right(x) => Some(x),
            },
    {
        if let Either::Right(x) = self {
            Some(x)
        } else {
            None
        }
    }

    /// A mutable reference to the `R` of an [`Either::Right`], else [`None`].
    pub fn mut_ref_right(&mut self) -> (r: Option<&mut R>)
        ensures
            r is Some <==> (*old(self)) is Right,
            r is Some ==> *r->Some_0 == (*old(self))->Right_0 && *final(self) == Either::<L, R>::Right(
                *final(r->Some_0),
            ),
            r is None ==> *final(self) == *old(self),
    {
        if let Either::Right(x) = self {
            Some(x)
        } else {
            None
        }
    }

    /// Converts `Either<L, R>` to `Result<L, R>`: left is `Ok`, right is `Err`.
    pub fn to_result(self) -> (r: Result<L, R>)
        ensures
            r == match self {
                Either::Left(l) => Ok::<L, R>(l),
                Either::Right(x) => Err(x),
            },
    {
        match self {
            Either::Left(l) => Ok(l),
            Either::Right(x) => Err(x),
        }
    }
}

impl<L: Clone, R: Clone> Either<L, R> {
    /// A clone of the `L` of an [`Either::Left`], else [`None`].
    pub fn clone_left(&self) -> (r: Option<L>)
        ensures
            r is Some <==> self is Left,
            r is Some ==> cloned(self->Left_0, r->Some_0),
    {
        if let Either::Left(l) = self {
            Some(l.clone())
        } else {
            None
        }
    }

    /// A clone of the `R` of an [`Either::Right`], else [`None`].
    pub fn clone_right(&self) -> (r: Option<R>)
        ensures
            r is Some <==> self is Right,
            r is Some ==> cloned(self->Right_0, r->Some_0),
    {
        if let Either::Right(x) = self {
            Some(x.clone())
        } else {
            None
        }
    }
}

impl<T> Either<T, T> {
    /// The value on whichever side it is, where both sides have the same type.
    pub fn one_type(self) -> (r: T)
        ensures
            r == match self {
                Either::Left(l) => l,
                Either::Right(x) => x,
            },
    {
        match self {
            Either::Left(l) => l,
            Either::Right(x) => x,
        }
    }
}

} // verus!
