use pnlsim::Currency::{CAD, EUR, GBP, JPY, USD};
use pnlsim::Security::{Cash, Equity, FxFrd, Future};
use pnlsim::{Date, Fixed, Value, ValueError};

#[test]
fn value_add_and_sub_in_one_currency() {
    let a = Value::new(Fixed::from_int(7), USD);
    let b = Value::new(Fixed::from_raw(2_500_000), USD);
    assert_eq!(a.add(b), Ok(Value::new(Fixed::from_raw(9_500_000), USD)));
    assert_eq!(a.sub(b), Ok(Value::new(Fixed::from_raw(4_500_000), USD)));
}

#[test]
fn value_currency_mismatch_is_an_error() {
    let a = Value::new(Fixed::from_int(7), USD);
    let b = Value::new(Fixed::from_int(7), CAD);
    assert_eq!(a.add(b), Err(ValueError::CurrencyMismatch));
    assert_eq!(a.sub(b), Err(ValueError::CurrencyMismatch));
}

#[test]
fn value_scale_rounds_toward_zero() {
    let a = Value::new(Fixed::from_int(3), GBP);
    assert_eq!(a.scale(Fixed::from_int(-4)), Value::new(Fixed::from_int(-12), GBP));
    let tiny = Value::new(Fixed::from_raw(-1), GBP);
    assert_eq!(tiny.scale(Fixed::from_raw(500_000)), Value::new(Fixed::zero(), GBP));
    assert_eq!(Fixed::from_raw(3).times(Fixed::from_raw(-700_000)), Fixed::from_raw(-2));
}

#[test]
fn security_value_by_kind() {
    let p = Fixed::from_raw(120_500_000);
    assert_eq!(Cash(EUR).value(p), Value::new(Fixed::from_int(1), EUR));
    assert_eq!(Equity(String::from("SPY"), USD).value(p), Value::new(p, USD));
    assert_eq!(
        Future(String::from("FVU0"), 1000, USD).value(p),
        Value::new(Fixed::from_int(120_500), USD)
    );
    let d = Date::from_ymd_opt(2020, 3, 31).unwrap();
    assert_eq!(FxFrd(USD, JPY, d).value(p), Value::new(p, JPY));
}

#[test]
fn security_settlement_kind() {
    let d = Date::from_ymd_opt(2020, 3, 31).unwrap();
    assert!(Cash(EUR).cash_settled());
    assert!(Equity(String::from("SPY"), USD).cash_settled());
    assert!(!Future(String::from("FVU0"), 1000, USD).cash_settled());
    assert!(!FxFrd(USD, JPY, d).cash_settled());
    assert_eq!(FxFrd(USD, JPY, d).currency(), JPY);
}

#[test]
fn dates_are_checked() {
    let d = Date::from_ymd_opt(2020, 2, 29).unwrap();
    assert_eq!((d.year(), d.month(), d.day()), (2020, 2, 29));
    assert!(Date::from_ymd_opt(2021, 2, 29).is_none());
    assert!(Date::from_ymd_opt(2000, 2, 29).is_some());
    assert!(Date::from_ymd_opt(1900, 2, 29).is_none());
    assert!(Date::from_ymd_opt(2020, 13, 1).is_none());
    assert!(Date::from_ymd_opt(2020, 4, 31).is_none());
    assert!(Date::from_ymd_opt(2020, 1, 0).is_none());
    assert!(Date::from_ymd_opt(300_000, 1, 1).is_none());
    assert_eq!(Date::from_ymd_opt(1999, 12, 31).unwrap().day(), 31);
}

#[test]
fn securities_compare_by_all_fields() {
    let d1 = Date::from_ymd_opt(2020, 3, 31).unwrap();
    let d2 = Date::from_ymd_opt(2020, 4, 1).unwrap();
    assert_eq!(FxFrd(USD, JPY, d1), FxFrd(USD, JPY, d1));
    assert_ne!(FxFrd(USD, JPY, d1), FxFrd(USD, JPY, d2));
    assert_ne!(Equity(String::from("A"), USD), Equity(String::from("A"), EUR));
    assert_ne!(Cash(USD), Equity(String::from("USD"), USD));
    assert_eq!(Equity(String::from("A"), USD).duplicate(), Equity(String::from("A"), USD));
}
