//! A calculation that runs at most once: the first result is kept and
//! returned from then on, whatever argument comes later.
use vstd::prelude::*;

verus! {

/// Holds a calculation and, once it has run, its result.
pub struct Cacher<T> where T: Fn(u32) -> u32 {
    calculation: T,
    value: Option<u32>,
}

impl<T> Cacher<T> where T: Fn(u32) -> u32 {
    /// The result kept so far, if the calculation has run.
    pub closed spec fn kept(&self) -> Option<u32> {
        self.value
    }

    /// The calculation held.
    pub closed spec fn calculation(&self) -> T {
        self.calculation
    }

    /// A cache for `calculation` that holds no result yet.
    pub fn new(calculation: T) -> (r: Cacher<T>)
        ensures
            r.kept() is None,
            r.calculation() == calculation,
    {
        Cacher { calculation, value: None }
    }

    /// The kept result if there is one; otherwise the calculation's result
    /// for `arg`, which is kept from then on.
    pub fn value(&mut self, arg: u32) -> (r: u32)
        requires
            old(self).kept() is None ==> old(self).calculation().requires((arg,)),
        ensures
            final(self).calculation() == old(self).calculation(),
            final(self).kept() == Some(r),
            old(self).kept() matches Some(v) ==> r == v,
            old(self).kept() is None ==> old(self).calculation().ensures((arg,), r),
    {
        match self.value {
            Some(v) => v,
            None => {
                let v = (self.calculation)(arg);
                self.value = Some(v);
                v
            },
        }
    }
}

} // verus!
