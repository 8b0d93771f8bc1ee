use static_assertions::bool_ops;
use static_assertions::type_level_bool::{False, ToBool, True};

#[test]
fn type_level_not_and_or() {
    let t = True;
    let f = False;
    let _: &False = t.not();
    let _: &True = f.not();
    let _: &False = t.and(&f);
    let _: &True = t.and(&t);
    let _: &False = f.and(&t);
    let _: &True = t.or(&f);
    let _: &True = f.or(&t);
    let _: &False = f.or(&f);
    let x: &u8 = t.and(&7u8);
    assert_eq!(*x, 7);
    let y: &u8 = f.or(&9u8);
    assert_eq!(*y, 9);
}

#[test]
fn type_level_to_bool() {
    let _: False = <[(); 0] as ToBool>::TO_BOOL;
    let _: True = <[(); 1] as ToBool>::TO_BOOL;
    let _: True = <[(); (3 > 2) as usize] as ToBool>::TO_BOOL;
}

#[test]
fn operator_booleans() {
    let _: bool_ops::True = bool_ops::True & bool_ops::True;
    let _: bool_ops::False = bool_ops::True & bool_ops::False;
    let _: bool_ops::False = bool_ops::False & bool_ops::True;
    let _: bool_ops::True = bool_ops::True | bool_ops::False;
    let _: bool_ops::True = bool_ops::False | bool_ops::True;
    let _: bool_ops::False = bool_ops::False | bool_ops::False;
    let _: bool_ops::False = bool_ops::True ^ bool_ops::True;
    let _: bool_ops::True = bool_ops::True ^ bool_ops::False;
    let _: bool_ops::True = bool_ops::False ^ bool_ops::True;
    let _: bool_ops::False = bool_ops::False ^ bool_ops::False;
    let _: bool_ops::False = !bool_ops::True;
    let _: bool_ops::True = !bool_ops::False;
    let _: bool_ops::True = !(bool_ops::True & bool_ops::False) & (bool_ops::False | bool_ops::True);
}

#[test]
fn operator_to_bool() {
    let _: bool_ops::True = <[(); 1] as bool_ops::ToBool>::TO_BOOL;
    let _: bool_ops::False = <[(); 0] as bool_ops::ToBool>::TO_BOOL;
}
