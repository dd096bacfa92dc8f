use vstd::prelude::*;

verus! {

/// The outcome of checking a whole value, as generated constructors give it:
/// `Ok(value)` where `valid` holds, and `Err(value)`, the value unchanged,
/// where it does not.
pub fn accept_if<T>(value: T, valid: bool) -> (r: Result<T, T>)
    ensures
        valid ==> r == Ok::<T, T>(value),
        !valid ==> r == Err::<T, T>(value),
{
    if valid {
        Ok(value)
    } else {
        Err(value)
    }
}

/// A generated setter: where `valid` holds, `value` takes the place of what
/// `slot` holds, which is returned in `Ok`; where it does not, `slot` keeps
/// what it holds and `value` comes back in `Err`.
pub fn set_if<T>(slot: &mut T, value: T, valid: bool) -> (r: Result<T, T>)
    ensures
        valid ==> *final(slot) == value && r == Ok::<T, T>(*old(slot)),
        !valid ==> *final(slot) == *old(slot) && r == Err::<T, T>(value),
{
    if valid {
        let mut value = value;
        std::mem::swap(slot, &mut value);
        Ok(value)
    } else {
        Err(value)
    }
}

} // verus!
