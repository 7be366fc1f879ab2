//! A two-variant utility type used where a value starts as one thing and
//! is converted, on demand and at most once, into another.

use vstd::pervasive::unreached;
use vstd::prelude::*;

verus! {

#[derive(Clone)]
pub enum Either<L, R> {
    Right(R),
    Left(L),
}

impl<L, R> Either<L, R> {
    /// Make sure this value is a `Right`, converting a `Left` through `f`
    /// first, and return the `Right` contents for mutation.
    pub fn convert_r_mut<F: FnOnce(&L) -> R>(&mut self, f: F) -> (ret: &mut R)
        requires
            *old(self) matches Either::Left(l) ==> call_requires(f, (&l,)),
        ensures
            *old(self) matches Either::Right(r0) ==> *ret == r0,
            *old(self) matches Either::Left(l) ==> call_ensures(f, (&l,), *ret),
            *final(self) == Either::<L, R>::Right(*final(ret)),
    {
        match self {
            Either::Right(r) => {
                return r;
            },
            Either::Left(l) => {
                let new_r = f(l);
                *self = Either::Right(new_r);
            },
        }
        match self {
            Either::Right(r) => r,
            Either::Left(_l) => unreached(),
        }
    }

    /// Map the `Left` contents, keeping a `Right` as it is.
    pub fn map_left<L2, F: FnOnce(L) -> L2>(self, f: F) -> (r: Either<L2, R>)
        requires
            self matches Either::Left(l) ==> call_requires(f, (l,)),
        ensures
            self matches Either::Right(x) ==> r == Either::<L2, R>::Right(x),
            self matches Either::Left(l) ==> (r matches Either::Left(l2) && call_ensures(
                f,
                (l,),
                l2,
            )),
    {
        match self {
            Either::Left(l) => Either::Left(f(l)),
            Either::Right(r) => Either::Right(r),
        }
    }
}

} // verus!
