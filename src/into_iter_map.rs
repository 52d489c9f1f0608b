use vstd::prelude::*;
use crate::param_iter::ParamFromFnIter;

verus! {

/// Adds `iter_map` to every iterator.
pub trait IntoIterMap<F, I, R, T> where F: FnMut(&mut I) -> Option<R>, I: Iterator<Item = T> {
    /// Returns a `ParamFromFnIter` whose state is `self` turned into an
    /// iterator and whose callback is `callback`. The callback receives that
    /// iterator on each pull and may return items of any type `R`, which need
    /// not be the source's item type `T`.
    fn iter_map(self, callback: F) -> (r: ParamFromFnIter<F, I>)
        ensures
            r.callback() == callback,
    ;
}

impl<F, I, R, T> IntoIterMap<F, I, R, T> for I where
    F: FnMut(&mut I) -> Option<R>,
    I: Iterator<Item = T>,
 {
    /// The result is what `ParamFromFnIter::new(self.into_iter(), callback)`
    /// creates; for an iterator, `into_iter` hands back the iterator itself.
    fn iter_map(self, callback: F) -> (r: ParamFromFnIter<F, I>)
        ensures
            r == ParamFromFnIter::spec_new(self.into_iter(), callback),
            r.data() == self,
    {
        ParamFromFnIter::new(self.into_iter(), callback)
    }
}

} // verus!
