use default_constructor::effects::{arc, arr, boxed, cow, rc, some};
use std::borrow::Cow;
use std::collections::HashSet;

#[test]
fn boxed_holds_the_value() {
    let b: Box<String> = boxed("The".to_string());
    assert_eq!(*b, "The");
}

#[test]
fn rc_and_arc_hold_the_value() {
    assert_eq!(*rc(7u8), 7);
    assert_eq!(*arc("Programming".to_owned()), "Programming");
}

#[test]
fn cow_is_owned() {
    let c = cow(5i32);
    assert!(matches!(c, Cow::Owned(5)));
}

#[test]
fn some_wraps() {
    assert_eq!(some(Cow::Borrowed("Language")), Some(Cow::Borrowed("Language")));
}

#[test]
fn arr_collects_in_order() {
    let v: Vec<String> = arr(["Hello".to_string(), "World!".to_string()]);
    assert_eq!(v, vec!["Hello".to_string(), "World!".to_string()]);
    let s: HashSet<u8> = arr([1u8, 2, 2]);
    assert_eq!(s.len(), 2);
}
