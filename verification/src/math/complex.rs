//! Complex numbers over any type of components that has the arithmetic.
//!
//! The operations are stated over the components' own specifications of
//! `+`, `-`, `*` and negation. Each may be used where the operations on the
//! components that it performs are allowed, and gives the textbook result
//! where the components' operations obey their specifications.

use vstd::prelude::*;
use vstd::std_specs::ops::{AddSpec, MulSpec, NegSpec, SubSpec};
use core::ops::{Add, Mul, Neg, Sub};

verus! {

/// A complex number with real part `re` and imaginary part `im`.
#[derive(Debug, PartialEq)]
pub struct Complex<T> {
    pub re: T,
    pub im: T,
}

impl<T: Copy> Clone for Complex<T> {
    fn clone(&self) -> (copy: Self)
        ensures
            copy == *self,
    {
        *self
    }
}

impl<T: Copy> Copy for Complex<T> {

}

impl<T: Copy + Add<Output = T>> Add for Complex<T> {
    type Output = Self;

    /// The sum, taken by components.
    fn add(self, rhs: Self) -> (sum: Self) {
        let mut result = self;
        result.add_assign(rhs);
        result
    }
}

impl<T: Copy + Add<Output = T>> vstd::std_specs::ops::AddSpecImpl for Complex<T> {
    open spec fn obeys_add_spec() -> bool {
        T::obeys_add_spec()
    }

    open spec fn add_req(self, rhs: Self) -> bool {
        self.re.add_req(rhs.re) && self.im.add_req(rhs.im)
    }

    open spec fn add_spec(self, rhs: Self) -> Self {
        Complex { re: self.re.add_spec(rhs.re), im: self.im.add_spec(rhs.im) }
    }
}

impl<T: Copy + Add<Output = T>> Complex<T> {
    /// Adds `rhs` to the number, by components.
    pub fn add_assign(&mut self, rhs: Self)
        requires
            old(self).re.add_req(rhs.re),
            old(self).im.add_req(rhs.im),
        ensures
            T::obeys_add_spec() ==> *final(self) == (Complex {
                re: old(self).re.add_spec(rhs.re),
                im: old(self).im.add_spec(rhs.im),
            }),
    {
        self.re = self.re.add(rhs.re);
        self.im = self.im.add(rhs.im);
    }
}

impl<T: Copy + Sub<Output = T>> Sub for Complex<T> {
    type Output = Self;

    /// The difference, taken by components.
    fn sub(self, rhs: Self) -> (difference: Self) {
        let mut result = self;
        result.sub_assign(rhs);
        result
    }
}

impl<T: Copy + Sub<Output = T>> vstd::std_specs::ops::SubSpecImpl for Complex<T> {
    open spec fn obeys_sub_spec() -> bool {
        T::obeys_sub_spec()
    }

    open spec fn sub_req(self, rhs: Self) -> bool {
        self.re.sub_req(rhs.re) && self.im.sub_req(rhs.im)
    }

    open spec fn sub_spec(self, rhs: Self) -> Self {
        Complex { re: self.re.sub_spec(rhs.re), im: self.im.sub_spec(rhs.im) }
    }
}

impl<T: Copy + Sub<Output = T>> Complex<T> {
    /// Subtracts `rhs` from the number, by components.
    pub fn sub_assign(&mut self, rhs: Self)
        requires
            old(self).re.sub_req(rhs.re),
            old(self).im.sub_req(rhs.im),
        ensures
            T::obeys_sub_spec() ==> *final(self) == (Complex {
                re: old(self).re.sub_spec(rhs.re),
                im: old(self).im.sub_spec(rhs.im),
            }),
    {
        self.re = self.re.sub(rhs.re);
        self.im = self.im.sub(rhs.im);
    }
}

impl<T: Copy + Neg<Output = T>> Neg for Complex<T> {
    type Output = Self;

    /// The negative, taken by components.
    fn neg(self) -> (negative: Self) {
        Complex { re: self.re.neg(), im: self.im.neg() }
    }
}

impl<T: Copy + Neg<Output = T>> vstd::std_specs::ops::NegSpecImpl for Complex<T> {
    open spec fn obeys_neg_spec() -> bool {
        T::obeys_neg_spec()
    }

    open spec fn neg_req(self) -> bool {
        self.re.neg_req() && self.im.neg_req()
    }

    open spec fn neg_spec(self) -> Self {
        Complex { re: self.re.neg_spec(), im: self.im.neg_spec() }
    }
}

impl<T: Copy + Neg<Output = T>> Complex<T> {
    /// The number times the imaginary unit: a quarter turn.
    pub fn times_imaginary(&self) -> (turned: Self)
        requires
            self.im.neg_req(),
        ensures
            turned.im == self.re,
            T::obeys_neg_spec() ==> turned.re == self.im.neg_spec(),
    {
        Complex { re: self.im.neg(), im: self.re }
    }
}

/// The real part of the product of two complex numbers: `a.re * b.re - a.im * b.im`.
pub open spec fn product_re<T: Copy + Sub<Output = T> + Mul<Output = T>>(
    a: Complex<T>,
    b: Complex<T>,
) -> T {
    a.re.mul_spec(b.re).sub_spec(a.im.mul_spec(b.im))
}

/// The imaginary part of the product of two complex numbers: `a.re * b.im + a.im * b.re`.
pub open spec fn product_im<T: Copy + Add<Output = T> + Mul<Output = T>>(
    a: Complex<T>,
    b: Complex<T>,
) -> T {
    a.re.mul_spec(b.im).add_spec(a.im.mul_spec(b.re))
}

/// Whether two complex numbers may be multiplied: the four products of
/// components are allowed and obey their specification, and so their
/// difference and their sum can be asked for and are allowed too.
pub open spec fn product_allowed<T: Copy + Add<Output = T> + Sub<Output = T> + Mul<Output = T>>(
    a: Complex<T>,
    b: Complex<T>,
) -> bool {
    &&& T::obeys_mul_spec()
    &&& a.re.mul_req(b.re)
    &&& a.im.mul_req(b.im)
    &&& a.re.mul_req(b.im)
    &&& a.im.mul_req(b.re)
    &&& a.re.mul_spec(b.re).sub_req(a.im.mul_spec(b.im))
    &&& a.re.mul_spec(b.im).add_req(a.im.mul_spec(b.re))
}

impl<T: Copy + Add<Output = T> + Sub<Output = T> + Mul<Output = T>> Mul for Complex<T> {
    type Output = Self;

    /// The product of two complex numbers.
    fn mul(self, rhs: Self) -> (product: Self) {
        let mut result = self;
        result.mul_assign(rhs);
        result
    }
}

impl<T: Copy + Add<Output = T> + Sub<Output = T> + Mul<Output = T>> vstd::std_specs::ops::MulSpecImpl for Complex<T> {
    open spec fn obeys_mul_spec() -> bool {
        T::obeys_mul_spec() && T::obeys_add_spec() && T::obeys_sub_spec()
    }

    open spec fn mul_req(self, rhs: Self) -> bool {
        product_allowed(self, rhs)
    }

    open spec fn mul_spec(self, rhs: Self) -> Self {
        Complex { re: product_re(self, rhs), im: product_im(self, rhs) }
    }
}

impl<T: Copy + Add<Output = T> + Sub<Output = T> + Mul<Output = T>> Complex<T> {
    /// Multiplies the number by the complex number `rhs`.
    pub fn mul_assign(&mut self, rhs: Self)
        requires
            product_allowed(*old(self), rhs),
        ensures
            T::obeys_add_spec() && T::obeys_sub_spec() ==> *final(self) == (Complex {
                re: product_re(*old(self), rhs),
                im: product_im(*old(self), rhs),
            }),
    {
        let re = self.re.mul(rhs.re).sub(self.im.mul(rhs.im));
        let im = self.re.mul(rhs.im).add(self.im.mul(rhs.re));
        self.re = re;
        self.im = im;
    }
}

impl<T: Copy + Mul<Output = T>> Mul<T> for Complex<T> {
    type Output = Self;

    /// The number scaled by `rhs`.
    fn mul(self, rhs: T) -> (scaled: Self) {
        let mut result = self;
        result.scale_assign(rhs);
        result
    }
}

impl<T: Copy + Mul<Output = T>> vstd::std_specs::ops::MulSpecImpl<T> for Complex<T> {
    open spec fn obeys_mul_spec() -> bool {
        T::obeys_mul_spec()
    }

    open spec fn mul_req(self, rhs: T) -> bool {
        self.re.mul_req(rhs) && self.im.mul_req(rhs)
    }

    open spec fn mul_spec(self, rhs: T) -> Self {
        Complex { re: self.re.mul_spec(rhs), im: self.im.mul_spec(rhs) }
    }
}

impl<T: Copy + Mul<Output = T>> Complex<T> {
    /// Scales the number by `rhs`: both components are multiplied by it.
    pub fn scale_assign(&mut self, rhs: T)
        requires
            old(self).re.mul_req(rhs),
            old(self).im.mul_req(rhs),
        ensures
            T::obeys_mul_spec() ==> *final(self) == (Complex {
                re: old(self).re.mul_spec(rhs),
                im: old(self).im.mul_spec(rhs),
            }),
    {
        self.re = self.re.mul(rhs);
        self.im = self.im.mul(rhs);
    }
}

} // verus!
