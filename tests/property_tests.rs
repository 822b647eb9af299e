use pnlsim::Currency::{EUR, JPY, USD};
use pnlsim::Security::{Cash, Equity, FxFrd, Future};
use pnlsim::{can_book, try_tx, tx, wgt_avg, Date, Fixed, Holding, Portfolio};

fn n(x: i32) -> Fixed {
    Fixed::from_int(x)
}

fn quantity_of(p: &Portfolio, s: &pnlsim::Security) -> Option<Fixed> {
    p.get(s).map(|h| h.quantity)
}

#[test]
fn open_cash_settled_creates_two_entries() {
    let mut p = Portfolio::new();
    let ibm = Equity(String::from("IBM"), EUR);
    tx(&mut p, &ibm, n(40), n(125));
    assert_eq!(p.len(), 2);
    assert_eq!(p.get(&ibm).copied(), Some(Holding::new(n(40), n(125), Fixed::zero())));
    assert_eq!(quantity_of(&p, &Cash(EUR)), Some(n(-5000)));
}

#[test]
fn same_direction_trades_average_the_price() {
    let mut p = Portfolio::new();
    let ibm = Equity(String::from("IBM"), USD);
    tx(&mut p, &ibm, n(-100), n(10));
    tx(&mut p, &ibm, n(-300), n(14));
    let h = *p.get(&ibm).unwrap();
    assert_eq!(h.quantity, n(-400));
    assert_eq!(h.price, n(13));
    assert_eq!(h.price, wgt_avg(n(-100), n(10), n(-300), n(14)));
    assert_eq!(quantity_of(&p, &Cash(USD)), Some(n(1000 + 4200)));
}

#[test]
fn close_at_cost_leaves_nothing() {
    let mut p = Portfolio::new();
    let fx = FxFrd(EUR, USD, Date::from_ymd_opt(2021, 6, 30).unwrap());
    tx(&mut p, &fx, n(-250), Fixed::from_raw(1_185_000));
    tx(&mut p, &fx, n(250), Fixed::from_raw(1_185_000));
    assert!(p.is_empty());
}

#[test]
fn trading_cash_itself_nets_out() {
    let mut p = Portfolio::new();
    tx(&mut p, &Cash(EUR), n(100), n(1));
    assert!(p.is_empty());
}

#[test]
fn reduce_short_future_keeps_price() {
    let mut p = Portfolio::new();
    let es = Future(String::from("ESZ0"), 10, USD);
    tx(&mut p, &es, n(-300), n(50));
    tx(&mut p, &es, n(100), n(45));
    let h = *p.get(&es).unwrap();
    assert_eq!(h.quantity, n(-200));
    assert_eq!(h.price, n(50));
    // (45 - 50) * 10 * -100
    assert_eq!(quantity_of(&p, &Cash(USD)), Some(n(5000)));
}

#[test]
fn flip_forward_realizes_held_part_only() {
    let mut p = Portfolio::new();
    let fx = FxFrd(USD, JPY, Date::from_ymd_opt(2020, 12, 31).unwrap());
    tx(&mut p, &fx, n(100), n(107));
    tx(&mut p, &fx, n(-300), n(110));
    let h = *p.get(&fx).unwrap();
    assert_eq!(h.quantity, n(-200));
    assert_eq!(h.price, n(110));
    assert_eq!(quantity_of(&p, &Cash(JPY)), Some(n(300)));
}

#[test]
fn no_entry_of_quantity_zero_after_trades() {
    let mut p = Portfolio::new();
    let a = Equity(String::from("A"), USD);
    let b = Future(String::from("B"), 5, USD);
    let trades = [(&a, 10, 3), (&b, 4, 2), (&a, -10, 3), (&b, -4, 3), (&a, 5, 4), (&a, -5, 4)];
    for (s, q, price) in trades.iter() {
        tx(&mut p, s, n(*q), n(*price));
        for k in [a.clone(), b.clone(), Cash(USD)].iter() {
            if let Some(h) = p.get(k) {
                assert_ne!(h.quantity, Fixed::zero());
            }
        }
    }
    // A is flat, B realized (3 - 2) * 5 * 4 = 20 and the equity cash netted out
    assert_eq!(p.len(), 1);
    assert_eq!(quantity_of(&p, &Cash(USD)), Some(n(20)));
}

#[test]
fn equity_scenario_buy_buy_sell_at_cost() {
    let mut p = Portfolio::new();
    let spy = Equity(String::from("SPY"), USD);
    tx(&mut p, &spy, n(1000), n(230));
    assert_eq!(p.len(), 2);
    assert_eq!(quantity_of(&p, &spy), Some(n(1000)));
    assert_eq!(quantity_of(&p, &Cash(USD)), Some(n(-230000)));
    tx(&mut p, &spy, n(1000), n(231));
    assert_eq!(p.get(&spy).unwrap().price, Fixed::from_raw(230_500_000));
    assert_eq!(quantity_of(&p, &spy), Some(n(2000)));
    assert_eq!(quantity_of(&p, &Cash(USD)), Some(n(-461000)));
    tx(&mut p, &spy, n(-2000), Fixed::from_raw(230_500_000));
    assert!(p.is_empty());
}

#[test]
fn future_scenario_average_then_close() {
    let mut p = Portfolio::new();
    let fv = Future(String::from("FVU0"), 1000, USD);
    tx(&mut p, &fv, n(100), n(120));
    tx(&mut p, &fv, n(100), n(121));
    assert_eq!(p.len(), 1);
    assert_eq!(quantity_of(&p, &fv), Some(n(200)));
    assert_eq!(p.get(&fv).unwrap().price, Fixed::from_raw(120_500_000));
    tx(&mut p, &fv, n(-200), n(122));
    assert!(p.get(&fv).is_none());
    assert_eq!(quantity_of(&p, &Cash(USD)), Some(n(300000)));
}

#[test]
fn zero_quantity_trade_changes_nothing() {
    let mut p = Portfolio::new();
    let spy = Equity(String::from("SPY"), USD);
    tx(&mut p, &spy, Fixed::zero(), n(230));
    assert!(p.is_empty());
}

#[test]
fn zero_price_open_books_no_cash() {
    let mut p = Portfolio::new();
    let spy = Equity(String::from("SPY"), USD);
    tx(&mut p, &spy, n(10), Fixed::zero());
    assert_eq!(p.len(), 1);
}

#[test]
fn distinct_symbols_are_distinct_holdings() {
    let mut p = Portfolio::new();
    tx(&mut p, &Future(String::from("X"), 10, USD), n(1), n(1));
    tx(&mut p, &Future(String::from("X"), 20, USD), n(1), n(1));
    tx(&mut p, &Future(String::from("Y"), 10, USD), n(1), n(1));
    assert_eq!(p.len(), 3);
}

#[test]
fn wgt_avg_exact_and_rounded_toward_zero() {
    assert_eq!(wgt_avg(n(1000), n(230), n(1000), n(231)), Fixed::from_raw(230_500_000));
    assert_eq!(wgt_avg(n(1), n(10), n(3), n(20)), Fixed::from_raw(17_500_000));
    assert_eq!(wgt_avg(n(1), Fixed::from_raw(1), n(2), Fixed::zero()), Fixed::zero());
    assert_eq!(wgt_avg(n(1), Fixed::from_raw(-2), n(2), Fixed::zero()), Fixed::zero());
    assert_eq!(wgt_avg(n(0), n(5), n(2), n(7)), n(7));
}

#[test]
fn overflowing_trade_is_refused() {
    let mut p = Portfolio::new();
    let fv = Future(String::from("FVU0"), 1000, USD);
    let huge = Fixed::from_raw(i64::MAX / 10);
    // a future settles nothing on opening, so its value is not computed then
    assert!(can_book(&p, &fv, n(1), huge));
    assert!(try_tx(&mut p, &fv, n(1), huge));
    // closing it values the lot at 1000 times its price, which overflows
    assert!(!can_book(&p, &fv, n(-1), n(1)));
    assert!(!try_tx(&mut p, &fv, n(-1), n(1)));
    let spy = Equity(String::from("SPY"), USD);
    assert!(!can_book(&p, &spy, n(1000), huge));
    assert_eq!(p.len(), 1);
    assert_eq!(quantity_of(&p, &fv), Some(n(1)));
    assert!(try_tx(&mut p, &fv, n(1), n(1)));
    assert_eq!(quantity_of(&p, &fv), Some(n(2)));
}
