//! The witness that a value has passed its validation.

use vstd::prelude::*;

verus! {

/// A kind of value that can be checked as a whole, where no single field
/// decides whether the value is in order.
pub trait Validatable: Sized {
    type Error;

    /// The value is in order.
    spec fn is_valid(&self) -> bool;

    /// `e` is what validation finds wrong with the value.
    spec fn fails_with(&self, e: Self::Error) -> bool;

    /// Checks the value: succeeds where it is in order, and else says what
    /// is wrong with it.
    fn validate(&self) -> (r: Result<(), Self::Error>)
        ensures
            r is Ok <==> self.is_valid(),
            r is Err ==> self.fails_with(r->Err_0),
    ;
}

/// A value that has passed its validation. It can be read but not changed;
/// to change it, take it out, and check it again afterwards.
#[derive(Debug)]
pub struct Valid<T: Validatable>(T);

impl<T: Validatable> Valid<T> {
    #[verifier::type_invariant]
    spec fn well_formed(self) -> bool {
        self.0.is_valid()
    }

    /// The value inside.
    pub closed spec fn inner(self) -> T {
        self.0
    }

    /// Checks the value and wraps it as valid where it is in order; else
    /// says what is wrong with it.
    pub fn into_valid(value: T) -> (r: Result<Valid<T>, T::Error>)
        ensures
            r is Ok <==> value.is_valid(),
            r is Ok ==> r->Ok_0.inner() == value,
            r is Err ==> value.fails_with(r->Err_0),
    {
        match value.validate() {
            Ok(()) => Ok(Valid(value)),
            Err(e) => Err(e),
        }
    }

    /// Takes the value out.
    pub fn into_inner(self) -> (r: T)
        ensures
            r == self.inner(),
            r.is_valid(),
    {
        proof {
            use_type_invariant(&self);
        }
        self.0
    }

    /// The value inside, to read.
    pub fn get(&self) -> (r: &T)
        ensures
            *r == self.inner(),
            r.is_valid(),
    {
        proof {
            use_type_invariant(self);
        }
        &self.0
    }
}

/// The way from a value that can be checked to its witness, as a method of
/// the value.
pub trait IntoValid: Validatable {
    /// Checks the value and wraps it as valid where it is in order; else
    /// says what is wrong with it.
    fn into_valid(self) -> (r: Result<Valid<Self>, Self::Error>)
        ensures
            r is Ok <==> self.is_valid(),
            r is Ok ==> r->Ok_0.inner() == self,
            r is Err ==> self.fails_with(r->Err_0),
    ;
}

impl<T: Validatable> IntoValid for T {
    fn into_valid(self) -> (r: Result<Valid<T>, T::Error>) {
        Valid::into_valid(self)
    }
}

} // verus!
