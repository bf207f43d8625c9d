//! Numerals, names and the literals of the source text.

use pion::plicity::Plicity;
use pion::prim::Prim;
use pion::prim_type::prim_from_name;
use pion::source::{parse_int, Base, TextRange};
use pion::symbol::{tuple_label_string, Symbol};
use pion::text::{decimal_string, str_eq};

#[test]
fn a_number_in_decimal() {
    assert_eq!(decimal_string(0), "0");
    assert_eq!(decimal_string(7), "7");
    assert_eq!(decimal_string(10), "10");
    assert_eq!(decimal_string(4096), "4096");
    assert_eq!(decimal_string(usize::MAX), usize::MAX.to_string());
}

#[test]
fn strings_are_equal_when_their_characters_are() {
    assert!(str_eq("", ""));
    assert!(str_eq("forall", "forall"));
    assert!(!str_eq("forall", "foral"));
    assert!(!str_eq("a", "b"));
    assert!(str_eq("λx", "λx"));
    assert!(!str_eq("λx", "λy"));
}

#[test]
fn the_labels_of_a_tuple_are_an_underscore_and_the_position() {
    assert_eq!(tuple_label_string(0), "_0");
    assert_eq!(tuple_label_string(12), "_12");
    assert!(Symbol::new("_0").is_tuple_label(0));
    assert!(Symbol::new("_12").is_tuple_label(12));
    assert!(!Symbol::new("_1").is_tuple_label(0));
    assert!(!Symbol::new("x").is_tuple_label(0));
    assert!(!Symbol::new("_01").is_tuple_label(1));
}

#[test]
fn names_are_compared_by_their_text() {
    let one = String::from("name");
    let other = String::from("name");
    assert_eq!(Symbol::new(&one), Symbol::new(&other));
    assert_ne!(Symbol::new("name"), Symbol::new("names"));
    assert_eq!(Symbol::new("name").as_str(), "name");
}

#[test]
fn the_marker_of_an_implicit_argument_is_an_at_sign() {
    assert_eq!(Plicity::Implicit.pretty(), "@");
    assert_eq!(Plicity::Explicit.pretty(), "");
}

#[test]
fn every_primitive_is_found_under_its_name() {
    let prims = [
        Prim::Type,
        Prim::Bool,
        Prim::Int,
        Prim::List,
        Prim::Eq,
        Prim::Add,
        Prim::Sub,
        Prim::Mul,
        Prim::IntEq,
        Prim::IntNe,
        Prim::IntLt,
        Prim::IntGt,
        Prim::IntLte,
        Prim::IntGte,
        Prim::Fix,
        Prim::Refl,
        Prim::Subst,
        Prim::Len,
        Prim::Push,
        Prim::Append,
        Prim::BoolRec,
    ];
    for prim in prims {
        assert_eq!(prim_from_name(prim.name()), Some(prim));
    }
    assert_eq!(Prim::BoolRec.name(), "bool_rec");
    assert_eq!(Prim::IntLte.name(), "lte");
    assert_eq!(prim_from_name("type"), None);
    assert_eq!(prim_from_name(""), None);
}

fn whole(text: &str) -> TextRange {
    TextRange::new(0, text.len() as u32)
}

#[test]
fn integer_literals_in_three_bases() {
    assert_eq!(parse_int("0", whole("0"), Base::Dec), Some(0));
    assert_eq!(parse_int("00042", whole("00042"), Base::Dec), Some(42));
    assert_eq!(parse_int("0b101", whole("0b101"), Base::Bin), Some(5));
    assert_eq!(parse_int("0B11", whole("0B11"), Base::Bin), Some(3));
    assert_eq!(parse_int("0xff", whole("0xff"), Base::Hex), Some(255));
    assert_eq!(parse_int("0XFf", whole("0XFf"), Base::Hex), Some(255));
}

#[test]
fn the_greatest_integer_literal_is_two_to_the_32_less_one() {
    assert_eq!(parse_int("4294967295", whole("4294967295"), Base::Dec), Some(u32::MAX));
    assert_eq!(parse_int("4294967296", whole("4294967296"), Base::Dec), None);
    assert_eq!(parse_int("0xffffffff", whole("0xffffffff"), Base::Hex), Some(u32::MAX));
    assert_eq!(parse_int("0x100000000", whole("0x100000000"), Base::Hex), None);
    assert_eq!(parse_int("99999999999999999999", whole("99999999999999999999"), Base::Dec), None);
}

#[test]
fn what_is_no_numeral_of_the_base_is_no_literal() {
    assert_eq!(parse_int("", whole(""), Base::Dec), None);
    assert_eq!(parse_int("12a", whole("12a"), Base::Dec), None);
    assert_eq!(parse_int("0b102", whole("0b102"), Base::Bin), None);
    assert_eq!(parse_int("0b", whole("0b"), Base::Bin), None);
    assert_eq!(parse_int("0x", whole("0x"), Base::Hex), None);
    assert_eq!(parse_int("0xg", whole("0xg"), Base::Hex), None);
    assert_eq!(parse_int("101", whole("101"), Base::Bin), None);
    assert_eq!(parse_int("ff", whole("ff"), Base::Hex), None);
}

#[test]
fn a_literal_is_read_from_its_range_of_the_text() {
    let text = "add 12 0x1f";
    assert_eq!(parse_int(text, TextRange::new(4, 6), Base::Dec), Some(12));
    assert_eq!(parse_int(text, TextRange::new(7, 11), Base::Hex), Some(31));
    assert_eq!(parse_int(text, TextRange::new(4, 5), Base::Dec), Some(1));
    assert_eq!(parse_int(text, TextRange::new(7, 12), Base::Hex), None);
    assert_eq!(parse_int(text, TextRange::new(6, 4), Base::Dec), None);
}
