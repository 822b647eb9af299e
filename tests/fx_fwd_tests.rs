use pnlsim::Currency::{JPY, USD};
use pnlsim::Security::FxFrd;
use pnlsim::{tx, Date, Fixed, Portfolio};

fn n(x: i32) -> Fixed {
    Fixed::from_int(x)
}

#[test]
fn fxfrd_basic_tx() {
    let mut portfolio = Portfolio::new();
    assert!(portfolio.is_empty());

    let usdjpy = FxFrd(USD, JPY, Date::from_ymd_opt(2020, 3, 31).unwrap());

    tx(&mut portfolio, &usdjpy, n(1_000_000), n(107));
    assert_eq!(portfolio.len(), 1);
    match portfolio.get(&usdjpy) {
        Some(&h) => {
            assert_eq!(h.quantity, n(1_000_000));
            assert_eq!(h.price, n(107));
        }
        _ => assert!(false),
    }

    tx(&mut portfolio, &usdjpy, n(1_000_000), n(108));
    assert_eq!(portfolio.len(), 1);
    match portfolio.get(&usdjpy) {
        Some(&h) => {
            assert_eq!(h.quantity, n(2_000_000));
            assert_eq!(h.price, Fixed::from_raw(107_500_000));
        }
        _ => assert!(false),
    }
    tx(&mut portfolio, &usdjpy, n(-2_000_000), n(108));
    println!("{:?}", portfolio);
}
