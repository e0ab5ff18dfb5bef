//! The one piece of the query facade that is the library's to state: the
//! adapter that turns a single-use callable into a value with a reusable
//! call-shaped interface.
//!
//! The facade itself — HTTP routing, rendering the bitrate snapshot as a
//! wire format — lives with the process around the library.

use vstd::prelude::*;

verus! {

/// A single-use callable waiting to be invoked: `Some` until the one
/// permitted call consumes it.
pub struct OnceCallable<T> {
    pub func: Option<T>,
}

/// Wrap a single-use callable so that a caller holding it mutably can
/// invoke it through a uniform interface; the contract of
/// `OnceCallable::call` allows exactly one invocation.
pub fn fnonce_to_fn<T>(func: T) -> (r: OnceCallable<T>)
    ensures
        r.func == Some(func),
{
    OnceCallable { func: Some(func) }
}

impl<T> OnceCallable<T> {
    /// Invoke the wrapped callable on `argument`, consuming it; permitted
    /// only while it has not been invoked yet.
    pub fn call<A>(&mut self, argument: A) where T: FnOnce(A) -> ()
        requires
            old(self).func matches Some(f) && call_requires(f, (argument,)),
        ensures
            final(self).func is None,
            old(self).func matches Some(f) ==> call_ensures(f, (argument,), ()),
    {
        let f = self.func.take().unwrap();
        f(argument)
    }
}

} // verus!
