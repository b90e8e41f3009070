//! Endlessly producing values by calling a function.

use vstd::prelude::*;

verus! {

broadcast use vstd::function::group_function_axioms;

/// A source of values that endlessly calls the stored function; the `next`
/// method never runs dry.
pub struct Repeatedly<F> {
    pub f: F,
}

impl<T, F: FnMut() -> T> Repeatedly<F> {
    /// One more call of the stored function, wrapped in `Some`: the source
    /// never ends, and the stored function survives every call.
    pub fn next(&mut self) -> (r: Option<T>)
        requires
            call_requires(old(self).f, ()),
        ensures
            r matches Option::Some(v) && call_ensures(old(self).f, (), v),
            final(self).f == old(self).f,
    {
        Some((self.f)())
    }
}

/// takes a function `f` of no args, presumably with side effects, and
/// returns a source that endlessly calls `f` and yields what it returns
pub fn repeatedly<T, F: FnMut() -> T>(f: F) -> (r: Repeatedly<F>)
    ensures
        r.f == f,
{
    Repeatedly { f }
}

} // verus!
