use default_constructor::convert::{i32_to_i8, i32_to_u16, i32s_to_u8s};
use default_constructor::{infer_into, StandardConverters};

#[test]
fn infer_into_uses_into() {
    let s: String = infer_into::<_, _, ()>("hello");
    assert_eq!(s, "hello");
}

#[test]
fn infer_into_uses_standard_converters() {
    let x: u8 = infer_into::<_, _, bool>(69i32);
    assert_eq!(x, 69);
    let a: [u64; 4] = infer_into::<_, _, bool>([1i32, 2, 3, 4]);
    assert_eq!(a, [1, 2, 3, 4]);
}

#[test]
fn integer_literals_narrow_to_low_bits() {
    assert_eq!(StandardConverters::<u8>::into(300i32), 44);
    assert_eq!(i32_to_i8(-129), 127);
    assert_eq!(i32_to_u16(-1), 65535);
    assert_eq!(StandardConverters::<i16>::into(-5i32), -5);
}

#[test]
fn arrays_narrow_element_by_element() {
    assert_eq!(i32s_to_u8s([1, 256, 257, -1]), [1, 0, 1, 255]);
    let a: [u32; 2] = StandardConverters::<[u32; 2]>::into([7i32, -1]);
    assert_eq!(a, [7, u32::MAX]);
}
