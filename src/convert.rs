//! Conversions used by constructions.
use vstd::prelude::*;

use vstd::array::array_fill_for_copy_types;

verus! {

/// [`Into`] with a relaxed orphan rule: a crate can define a conversion
/// between types it does not own by choosing a `Marker` type it owns.
/// Inference fails where more than one conversion path applies.
pub trait InferInto<A, Marker>: Sized {
    fn into(self) -> A;
}

impl<T, U> InferInto<U, ()> for T where T: Into<U> {
    fn into(self) -> U {
        Into::<U>::into(self)
    }
}

/// Converts through [`InferInto`].
pub fn infer_into<T, U, M>(item: T) -> U where T: InferInto<U, M> {
    InferInto::into(item)
}

/// Conversions of integer literals (`i32`) to the other integer types, and
/// of arrays of them element by element. The result is the low bits of the
/// value, as with `as`.
pub trait StandardConverters<F> {
    fn into(self) -> F;
}

impl<T, F> InferInto<F, bool> for T where T: StandardConverters<F> {
    fn into(self) -> F {
        StandardConverters::<F>::into(self)
    }
}

/// `x as u8`: the low bits of `x`.
pub fn i32_to_u8(x: i32) -> (r: u8)
    ensures
        r == x as u8,
{
    x as u8
}

/// Each element `as u8`.
pub fn i32s_to_u8s<const N: usize>(a: [i32; N]) -> (r: [u8; N])
    ensures
        forall|i: int| 0 <= i < N ==> #[trigger] r@[i] == a@[i] as u8,
{
    let mut r: [u8; N] = array_fill_for_copy_types(0u8);
    let mut k: usize = 0;
    while k < N
        invariant
            k <= N,
            forall|i: int| 0 <= i < k ==> #[trigger] r@[i] == a@[i] as u8,
        decreases N - k,
    {
        r[k] = a[k] as u8;
        k = k + 1;
    }
    r
}

impl StandardConverters<u8> for i32 {
    fn into(self) -> u8 {
        i32_to_u8(self)
    }
}

impl<const N: usize> StandardConverters<[u8; N]> for [i32; N] {
    fn into(self) -> [u8; N] {
        i32s_to_u8s(self)
    }
}

/// `x as u16`: the low bits of `x`.
pub fn i32_to_u16(x: i32) -> (r: u16)
    ensures
        r == x as u16,
{
    x as u16
}

/// Each element `as u16`.
pub fn i32s_to_u16s<const N: usize>(a: [i32; N]) -> (r: [u16; N])
    ensures
        forall|i: int| 0 <= i < N ==> #[trigger] r@[i] == a@[i] as u16,
{
    let mut r: [u16; N] = array_fill_for_copy_types(0u16);
    let mut k: usize = 0;
    while k < N
        invariant
            k <= N,
            forall|i: int| 0 <= i < k ==> #[trigger] r@[i] == a@[i] as u16,
        decreases N - k,
    {
        r[k] = a[k] as u16;
        k = k + 1;
    }
    r
}

impl StandardConverters<u16> for i32 {
    fn into(self) -> u16 {
        i32_to_u16(self)
    }
}

impl<const N: usize> StandardConverters<[u16; N]> for [i32; N] {
    fn into(self) -> [u16; N] {
        i32s_to_u16s(self)
    }
}

/// `x as u32`: the low bits of `x`.
pub fn i32_to_u32(x: i32) -> (r: u32)
    ensures
        r == x as u32,
{
    x as u32
}

/// Each element `as u32`.
pub fn i32s_to_u32s<const N: usize>(a: [i32; N]) -> (r: [u32; N])
    ensures
        forall|i: int| 0 <= i < N ==> #[trigger] r@[i] == a@[i] as u32,
{
    let mut r: [u32; N] = array_fill_for_copy_types(0u32);
    let mut k: usize = 0;
    while k < N
        invariant
            k <= N,
            forall|i: int| 0 <= i < k ==> #[trigger] r@[i] == a@[i] as u32,
        decreases N - k,
    {
        r[k] = a[k] as u32;
        k = k + 1;
    }
    r
}

impl StandardConverters<u32> for i32 {
    fn into(self) -> u32 {
        i32_to_u32(self)
    }
}

impl<const N: usize> StandardConverters<[u32; N]> for [i32; N] {
    fn into(self) -> [u32; N] {
        i32s_to_u32s(self)
    }
}

/// `x as u64`: the low bits of `x`.
pub fn i32_to_u64(x: i32) -> (r: u64)
    ensures
        r == x as u64,
{
    x as u64
}

/// Each element `as u64`.
pub fn i32s_to_u64s<const N: usize>(a: [i32; N]) -> (r: [u64; N])
    ensures
        forall|i: int| 0 <= i < N ==> #[trigger] r@[i] == a@[i] as u64,
{
    let mut r: [u64; N] = array_fill_for_copy_types(0u64);
    let mut k: usize = 0;
    while k < N
        invariant
            k <= N,
            forall|i: int| 0 <= i < k ==> #[trigger] r@[i] == a@[i] as u64,
        decreases N - k,
    {
        r[k] = a[k] as u64;
        k = k + 1;
    }
    r
}

impl StandardConverters<u64> for i32 {
    fn into(self) -> u64 {
        i32_to_u64(self)
    }
}

impl<const N: usize> StandardConverters<[u64; N]> for [i32; N] {
    fn into(self) -> [u64; N] {
        i32s_to_u64s(self)
    }
}

/// `x as i8`: the low bits of `x`.
pub fn i32_to_i8(x: i32) -> (r: i8)
    ensures
        r == x as i8,
{
    x as i8
}

/// Each element `as i8`.
pub fn i32s_to_i8s<const N: usize>(a: [i32; N]) -> (r: [i8; N])
    ensures
        forall|i: int| 0 <= i < N ==> #[trigger] r@[i] == a@[i] as i8,
{
    let mut r: [i8; N] = array_fill_for_copy_types(0i8);
    let mut k: usize = 0;
    while k < N
        invariant
            k <= N,
            forall|i: int| 0 <= i < k ==> #[trigger] r@[i] == a@[i] as i8,
        decreases N - k,
    {
        r[k] = a[k] as i8;
        k = k + 1;
    }
    r
}

impl StandardConverters<i8> for i32 {
    fn into(self) -> i8 {
        i32_to_i8(self)
    }
}

impl<const N: usize> StandardConverters<[i8; N]> for [i32; N] {
    fn into(self) -> [i8; N] {
        i32s_to_i8s(self)
    }
}

/// `x as i16`: the low bits of `x`.
pub fn i32_to_i16(x: i32) -> (r: i16)
    ensures
        r == x as i16,
{
    x as i16
}

/// Each element `as i16`.
pub fn i32s_to_i16s<const N: usize>(a: [i32; N]) -> (r: [i16; N])
    ensures
        forall|i: int| 0 <= i < N ==> #[trigger] r@[i] == a@[i] as i16,
{
    let mut r: [i16; N] = array_fill_for_copy_types(0i16);
    let mut k: usize = 0;
    while k < N
        invariant
            k <= N,
            forall|i: int| 0 <= i < k ==> #[trigger] r@[i] == a@[i] as i16,
        decreases N - k,
    {
        r[k] = a[k] as i16;
        k = k + 1;
    }
    r
}

impl StandardConverters<i16> for i32 {
    fn into(self) -> i16 {
        i32_to_i16(self)
    }
}

impl<const N: usize> StandardConverters<[i16; N]> for [i32; N] {
    fn into(self) -> [i16; N] {
        i32s_to_i16s(self)
    }
}

} // verus!
