//! Wrappers that mark how a field's value is to be formatted.

use vstd::prelude::*;

verus! {

/// A value that is formatted through its `Debug` form.
pub struct DebugValue<T>(pub T);

/// Wraps a value to be formatted via `Debug`.
pub fn debug<T>(t: T) -> (wrapped: DebugValue<T>)
    ensures
        wrapped.0 == t,
{
    DebugValue(t)
}

/// A value that is formatted through its `Display` form.
pub struct DisplayValue<T>(pub T);

/// Wraps a value to be formatted via `Display`.
pub fn display<T>(t: T) -> (wrapped: DisplayValue<T>)
    ensures
        wrapped.0 == t,
{
    DisplayValue(t)
}

} // verus!
