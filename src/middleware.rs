use vstd::prelude::*;

verus! {

/// Transforms an endpoint into another one.
pub trait Middleware<E> {
    /// The endpoint type produced.
    type Output;

    /// Whether this middleware accepts endpoint `ep`.
    spec fn accepts(&self, ep: E) -> bool;

    /// Whether `out` is what this middleware makes of endpoint `ep`.
    spec fn transforms(&self, ep: E, out: Self::Output) -> bool;

    /// Transforms the endpoint.
    fn transform(&self, ep: E) -> (r: Self::Output)
        requires
            self.accepts(ep),
        ensures
            self.transforms(ep, r),
    ;
}

/// A middleware made of a closure from endpoint to endpoint.
pub struct FnMiddleware<T>(pub T);

impl<T, E, E2> Middleware<E> for FnMiddleware<T> where T: Fn(E) -> E2 {
    type Output = E2;

    open spec fn accepts(&self, ep: E) -> bool {
        self.0.requires((ep,))
    }

    open spec fn transforms(&self, ep: E, out: E2) -> bool {
        self.0.ensures((ep,), out)
    }

    fn transform(&self, ep: E) -> (r: E2) {
        (self.0)(ep)
    }
}

/// Makes a middleware of a closure.
pub fn make<T>(f: T) -> (r: FnMiddleware<T>)
    ensures
        r.0 == f,
{
    FnMiddleware(f)
}

} // verus!
