//! A transparent newtype that lets conversions be written for foreign types.

use vstd::prelude::*;
use vstd::std_specs::convert::IntoSpec;

verus! {

/// Wraps a value of any type so that `From`/`Into` impls can target it.
pub struct Local<T>(pub T);

impl<T> Local<T> {
    /// Converts `value` into the wrapper.
    #[inline]
    pub fn from<V: Into<Self>>(value: V) -> (r: Self)
        ensures
            V::obeys_into_spec() ==> r == value.into_spec(),
    {
        value.into()
    }

    /// Converts `value` into the wrapper and unwraps it.
    #[inline]
    pub fn into<V: Into<Local<T>>>(value: V) -> (r: T)
        ensures
            V::obeys_into_spec() ==> r == value.into_spec().0,
    {
        value.into().0
    }

    /// The wrapped value.
    pub fn get(&self) -> (r: &T)
        ensures
            *r == self.0,
    {
        &self.0
    }
}

/// Converts `value` through [`Local`] and returns the wrapped result.
#[inline]
pub fn into<T, V: Into<Local<T>>>(value: V) -> (r: T)
    ensures
        V::obeys_into_spec() ==> r == value.into_spec().0,
{
    value.into().0
}

impl<T> core::ops::Deref for Local<T> {
    type Target = T;

    fn deref(&self) -> (r: &T)
        ensures
            *r == self.0,
    {
        &self.0
    }
}

impl<T> core::ops::DerefMut for Local<T> {
    fn deref_mut(&mut self) -> (r: &mut T)
        ensures
            *r == old(self).0,
            final(self).0 == *final(r),
    {
        &mut self.0
    }
}

} // verus!
