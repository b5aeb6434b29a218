use std_traits::array::{each_mut, each_ref, Array};
use std_traits::slice::Slice;
use std_traits::reference::Reference;
use std_traits::tuple::{HomogeneousTuple, Tuple};

fn strings<const N: usize>() -> [String; N] {
    std::array::from_fn(|i| format!("{i}"))
}

#[test]
fn test_from_array_0() {
    let arr: [String; 0] = [];
    #[allow(clippy::let_unit_value)]
    let tuple = <()>::from_array(arr);
    let _: [String; 0] = tuple.into_array();
}

#[test]
fn test_into_array_change_type_0_elements() {
    let arr: [String; 0] = [];
    #[allow(clippy::let_unit_value)]
    let tuple = <()>::from_array(arr);
    let _: [u8; 0] = tuple.into_array();
}

#[test]
fn test_from_array_1() {
    let arr = strings::<1>();
    println!("{arr:?}");
    let tuple = <(String,)>::from_array(arr.clone());
    let arr2 = tuple.into_array();
    println!("{arr2:?}");
    assert_eq!(arr2, arr);
}

#[test]
fn test_from_array_2() {
    let arr = strings::<2>();
    println!("{arr:?}");
    let tuple = <(String, String)>::from_array(arr.clone());
    let arr2 = tuple.into_array();
    println!("{arr2:?}");
    assert_eq!(arr2, arr);
}

#[test]
fn test_from_array_3() {
    let arr = strings::<3>();
    println!("{arr:?}");
    let tuple = <(String, String, String)>::from_array(arr.clone());
    let arr2 = tuple.into_array();
    println!("{arr2:?}");
    assert_eq!(arr2, arr);
}

#[test]
fn test_from_array_16() {
    let arr = strings::<16>();
    println!("{arr:?}");
    let tuple = <(
        String, String, String, String, String, String, String, String, String, String, String,
        String, String, String, String, String,
    )>::from_array(arr.clone());
    let arr2 = tuple.into_array();
    println!("{arr2:?}");
    assert_eq!(arr2, arr);
}

#[test]
fn from_array_keeps_the_order() {
    let tuple = <(String, String, String)>::from_array(strings::<3>());
    assert_eq!(tuple, ("0".to_string(), "1".to_string(), "2".to_string()));
    let tuple = <(u8, u8, u8, u8)>::from_array([9, 8, 7, 6]);
    assert_eq!(tuple, (9, 8, 7, 6));
    assert_eq!((1u8, 2u8).into_array(), [1, 2]);
    assert_eq!(<(u8,)>::from_array([5]), (5,));
}

#[test]
fn tuple_to_array_and_back() {
    let tuple = ("a".to_string(), "b".to_string(), "c".to_string());
    let back = <(String, String, String)>::from_array(tuple.clone().into_array());
    assert_eq!(back, tuple);
    let sixteen = (0u8, 1u8, 2u8, 3u8, 4u8, 5u8, 6u8, 7u8, 8u8, 9u8, 10u8, 11u8);
    assert_eq!(
        <(u8, u8, u8, u8, u8, u8, u8, u8, u8, u8, u8, u8)>::from_array(sixteen.into_array()),
        sixteen
    );
}

#[test]
fn lengths() {
    assert_eq!(<() as Tuple>::N, 0);
    assert_eq!(<(u8, String) as Tuple>::N, 2);
    assert_eq!(<(u8, u8, u8, u8, u8, u8, u8, u8, u8, u8, u8, u8, u8, u8, u8, u8) as Tuple>::N, 16);
    assert_eq!(<[u8; 7] as Array>::N, 7);
}

#[test]
fn arrays_and_slices() {
    let mut a = [1u8, 2, 3];
    assert_eq!(Array::as_slice(&a), &[1, 2, 3]);
    Array::as_mut_slice(&mut a)[1] = 9;
    assert_eq!(a, [1, 9, 3]);
    let s: &[u8] = &a;
    assert_eq!(Slice::as_slice(s), &[1, 9, 3]);
    assert_eq!(Slice::as_slice("hé"), &[0x68, 0xc3, 0xa9]);
    let x = 5u8;
    let r = &x;
    assert_eq!(**Reference::as_ref(&r), 5);
}

#[test]
fn arrays_of_what_a_function_makes() {
    assert_eq!(std_traits::array::map([1u8, 2, 3], |x| x as u16 * 100), [100u16, 200, 300]);
    assert_eq!(
        std_traits::array::map(["a".to_string(), "bc".to_string()], |s| s.len()),
        [1usize, 2]
    );
    let none: [u8; 0] = std_traits::array::map([0u8; 0], |x| x);
    assert_eq!(none.len(), 0);
    let shifted = std_traits::array::map(strings::<16>(), |s| format!("<{s}>"));
    assert_eq!(shifted[15], "<15>");
    assert_eq!(shifted[0], "<0>");
}

#[test]
fn arrays_of_references() {
    let a = ["x".to_string(), "y".to_string(), "z".to_string()];
    let refs = each_ref(&a);
    assert_eq!(refs, [&a[0], &a[1], &a[2]]);
    assert!(std::ptr::eq(refs[1], &a[1]));
    let mut b = [1u8, 2, 3];
    let muts = each_mut(&mut b);
    let [first, second, third] = muts;
    *first += 10;
    *second += 20;
    *third += 30;
    assert_eq!(b, [11, 22, 33]);
}

#[test]
fn a_tuple_has_the_length_of_its_array() {
    assert_eq!(<(u8, u8) as Tuple>::N, (1u8, 2u8).into_array().len());
    assert_eq!(<(u8, u8) as Tuple>::N, <[u8; 2] as Array>::N);
    assert_eq!(<() as Tuple>::N, <() as HomogeneousTuple<u8>>::into_array(()).len());
    assert_eq!(<(String, String, String) as Tuple>::N, 3);
}
