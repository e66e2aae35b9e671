//! Effects: named wrappers that `@name value` applies to a converted value.
//!
//! `@box` is an alias of `@boxed`; `@arr [a, b, ..]` converts each element on
//! its own and collects them.
use vstd::prelude::*;

use std::borrow::Cow;
use std::rc::Rc;
use std::sync::Arc;

verus! {

/// Constructs a `Box`.
pub fn boxed<T>(item: T) -> (r: Box<T>)
    ensures
        *r == item,
{
    Box::new(item)
}

/// Constructs an `Rc`.
pub fn rc<T>(item: T) -> (r: Rc<T>)
    ensures
        *r == item,
{
    Rc::new(item)
}

/// Constructs an `Arc`.
pub fn arc<T>(item: T) -> (r: Arc<T>)
    ensures
        *r == item,
{
    Arc::new(item)
}

/// Constructs an owned `Cow`.
pub fn cow<T: Clone>(item: T) -> (r: Cow<'static, T>)
    ensures
        r matches Cow::Owned(v) && v == item,
{
    Cow::Owned(item)
}

/// Constructs a `Some`.
pub fn some<T>(item: T) -> (r: Option<T>)
    ensures
        r == Some(item),
{
    Some(item)
}

/// Collects the elements of an array into any collection that can be built
/// from them.
///
/// Relies on `FromIterator::from_iter`, over the array's elements in order.
#[verifier::external_body]
pub fn arr<T, I: IntoIterator<Item = T> + FromIterator<T>, const N: usize>(item: [T; N]) -> I {
    I::from_iter(item)
}

} // verus!
