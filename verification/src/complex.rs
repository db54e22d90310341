//! Numbers with a real and an imaginary part.

use std::ops::Add;
use vstd::prelude::*;
use vstd::std_specs::cmp::{PartialEqSpec, PartialEqSpecImpl};
use vstd::std_specs::ops::{AddSpec, AddSpecImpl};

verus! {

/// A number with a real and an imaginary part, over any kind of number.
pub struct Complex<T> {
    pub re: T,
    pub im: T,
}

impl<T: Add<Output = T>> Add for Complex<T> {
    type Output = Self;

    fn add(self, rhs: Self) -> Self {
        Complex { re: self.re + rhs.re, im: self.im + rhs.im }
    }
}

impl<T: Add<Output = T>> AddSpecImpl for Complex<T> {
    open spec fn obeys_add_spec() -> bool {
        T::obeys_add_spec()
    }

    open spec fn add_req(self, rhs: Self) -> bool {
        self.re.add_req(rhs.re) && self.im.add_req(rhs.im)
    }

    open spec fn add_spec(self, rhs: Self) -> Self {
        Complex { re: self.re.add_spec(rhs.re), im: self.im.add_spec(rhs.im) }
    }
}

impl<T: PartialEq> PartialEq for Complex<T> {
    fn eq(&self, other: &Complex<T>) -> (r: bool) {
        self.re == other.re && self.im == other.im
    }
}

impl<T: PartialEq> PartialEqSpecImpl for Complex<T> {
    open spec fn obeys_eq_spec() -> bool {
        T::obeys_eq_spec()
    }

    open spec fn eq_spec(&self, other: &Complex<T>) -> bool {
        self.re.eq_spec(&other.re) && self.im.eq_spec(&other.im)
    }
}

} // verus!
