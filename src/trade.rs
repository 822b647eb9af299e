use vstd::prelude::*;
use crate::fixed::{fits, fits_wide, magnitude, mul_raw, product_raw, tdiv, Fixed, SCALE};
use vstd::arithmetic::div_mod::{lemma_div_is_ordered, lemma_div_multiples_vanish};
use crate::portfolio::{holding_at, nonzero_entries, Holding, Portfolio};
use crate::security::{
    currency_of, is_cash_settled, value_of, Currency, Security, SecurityView, Value,
};

verus! {

/// How a trade changes the position it meets.
#[derive(Clone, Copy, Debug, PartialEq, Eq, Structural)]
pub enum Move {
    /// Nothing was held: a new lot at the trade price.
    Open,
    /// Same direction as the position: the cost basis becomes the weighted average.
    Increase,
    /// Opposite direction and larger than the position: it reverses.
    Flip,
    /// Opposite direction, at most the size of the position: the cost basis stays.
    Reduce,
}

/// The move that a trade of quantity `q` makes on a position of quantity `held`.
pub open spec fn move_of(held: int, q: int) -> Move {
    if held == 0 {
        Move::Open
    } else if (q > 0) == (held > 0) {
        Move::Increase
    } else if magnitude(q) > magnitude(held) {
        Move::Flip
    } else {
        Move::Reduce
    }
}

/// Quantity-weighted average of prices `p1` and `p2`, rounded toward zero.
pub open spec fn weighted_average(q1: int, p1: int, q2: int, p2: int) -> int {
    tdiv(q1 * p1 + q2 * p2, q1 + q2)
}

/// The cost basis after a trade `(q, p)` on a position `(held, basis)`.
pub open spec fn price_after(held: int, basis: int, q: int, p: int) -> int {
    match move_of(held, q) {
        Move::Open => p,
        Move::Increase => weighted_average(held, basis, q, p),
        Move::Flip => p,
        Move::Reduce => basis,
    }
}

/// The cash that a trade `(q, p)` on a position `(held, basis)` in `s` settles,
/// if it settles any.
pub open spec fn settlement(s: SecurityView, held: int, basis: int, q: int, p: int) -> Option<int> {
    if is_cash_settled(s) {
        Some(mul_raw(value_of(s, p), -q))
    } else {
        match move_of(held, q) {
            Move::Open => None,
            Move::Increase => None,
            Move::Flip => Some(mul_raw(value_of(s, p) - value_of(s, basis), held)),
            Move::Reduce => Some(mul_raw(value_of(s, p) - value_of(s, basis), -q)),
        }
    }
}

/// The numbers that computing the settlement goes through fit in an `i64`.
pub open spec fn settlement_fits(s: SecurityView, held: int, basis: int, q: int, p: int) -> bool {
    if is_cash_settled(s) {
        fits(-q) && fits(value_of(s, p)) && fits(mul_raw(value_of(s, p), -q))
    } else {
        match move_of(held, q) {
            Move::Open => true,
            Move::Increase => true,
            Move::Flip => fits(value_of(s, p)) && fits(value_of(s, basis)) && fits(
                value_of(s, p) - value_of(s, basis),
            ) && fits(mul_raw(value_of(s, p) - value_of(s, basis), held)),
            Move::Reduce => fits(value_of(s, p)) && fits(value_of(s, basis)) && fits(
                value_of(s, p) - value_of(s, basis),
            ) && fits(mul_raw(value_of(s, p) - value_of(s, basis), -q)),
        }
    }
}

/// `m` after a trade `(q, p)` in `s`, before any cash settles.
pub open spec fn position_after(
    m: Map<SecurityView, Holding>,
    s: SecurityView,
    q: int,
    p: int,
) -> Map<SecurityView, Holding> {
    let h = holding_at(m, s);
    let n = h.quantity@ + q;
    if n == 0 {
        m.remove(s)
    } else {
        m.insert(
            s,
            Holding {
                quantity: Fixed { raw: n as i64 },
                price: Fixed { raw: price_after(h.quantity@, h.price@, q, p) as i64 },
                mark: h.mark,
            },
        )
    }
}

/// `m` after a settlement `cash` in currency `c`: a nonzero amount is added to the
/// cash holding of `c`, which goes when it comes to zero.
pub open spec fn cash_after(
    m: Map<SecurityView, Holding>,
    c: Currency,
    cash: Option<int>,
) -> Map<SecurityView, Holding> {
    match cash {
        Some(a) => {
            if a == 0 {
                m
            } else {
                let k = SecurityView::Cash(c);
                let h = holding_at(m, k);
                let n = h.quantity@ + a;
                if n == 0 {
                    m.remove(k)
                } else {
                    m.insert(k, Holding { quantity: Fixed { raw: n as i64 }, price: h.price, mark: h.mark })
                }
            }
        },
        None => m,
    }
}

/// The settlement added to the cash holding that it meets fits in an `i64`.
pub open spec fn cash_fits(m: Map<SecurityView, Holding>, c: Currency, cash: Option<int>) -> bool {
    match cash {
        Some(a) => fits(holding_at(m, SecurityView::Cash(c)).quantity@ + a),
        None => true,
    }
}

/// The portfolio `m` after a trade of quantity `q` at price `p` in `s`.
pub open spec fn tx_result(
    m: Map<SecurityView, Holding>,
    s: SecurityView,
    q: int,
    p: int,
) -> Map<SecurityView, Holding> {
    if q == 0 {
        m
    } else {
        let h = holding_at(m, s);
        cash_after(
            position_after(m, s, q, p),
            currency_of(s),
            settlement(s, h.quantity@, h.price@, q, p),
        )
    }
}

/// Every number that the trade `(q, p)` in `s` on `m` computes fits in an `i64`.
pub open spec fn tx_fits(m: Map<SecurityView, Holding>, s: SecurityView, q: int, p: int) -> bool {
    let h = holding_at(m, s);
    q == 0 || {
        &&& fits(h.quantity@ + q)
        &&& move_of(h.quantity@, q) == Move::Increase ==> fits_wide(h.quantity@ * h.price@ + q * p)
        &&& settlement_fits(s, h.quantity@, h.price@, q, p)
        &&& cash_fits(
            position_after(m, s, q, p),
            currency_of(s),
            settlement(s, h.quantity@, h.price@, q, p),
        )
    }
}

/// The cost basis of a position `(q1, p1)` after a trade `(q2, p2)` in the same
/// direction: the quantity-weighted average of the two prices.
pub fn wgt_avg(q1: Fixed, p1: Fixed, q2: Fixed, p2: Fixed) -> (r: Fixed)
    requires
        q1@ + q2@ != 0,
        (q1@ >= 0 && q2@ >= 0) || (q1@ <= 0 && q2@ <= 0),
        fits_wide(q1@ * p1@ + q2@ * p2@),
    ensures
        r@ == weighted_average(q1@, p1@, q2@, p2@),
{
    let a = q1.raw as i128;
    let b = p1.raw as i128;
    let c = q2.raw as i128;
    let d = p2.raw as i128;
    assert(-0x4000_0000_0000_0000_0000_0000_0000_0000 <= a * b <= 0x4000_0000_0000_0000_0000_0000_0000_0000)
        by (nonlinear_arith)
        requires
            i64::MIN <= a <= i64::MAX,
            i64::MIN <= b <= i64::MAX,
    ;
    assert(-0x4000_0000_0000_0000_0000_0000_0000_0000 <= c * d <= 0x4000_0000_0000_0000_0000_0000_0000_0000)
        by (nonlinear_arith)
        requires
            i64::MIN <= c <= i64::MAX,
            i64::MIN <= d <= i64::MAX,
    ;
    let num: i128 = a * b + c * d;
    let den: i128 = a + c;
    let n: i128 = if num < 0 { -num } else { num };
    let m: i128 = if den < 0 { -den } else { den };
    let quotient: i128 = n / m;
    proof {
        lemma_weighted_average_bounded(a as int, b as int, c as int, d as int);
    }
    if (num >= 0) == (den > 0) {
        Fixed { raw: quotient as i64 }
    } else {
        Fixed { raw: -quotient as i64 }
    }
}

/// Books a trade of `trade_quantity` at `trade_price` in `s`: the holding of `s`
/// is opened, increased, reduced or flipped, and what settles in cash is added to
/// the cash holding of the settlement currency. Holdings that come to zero go.
pub fn tx(portfolio: &mut Portfolio, s: &Security, trade_quantity: Fixed, trade_price: Fixed)
    requires
        old(portfolio).wf(),
        tx_fits(old(portfolio)@, s@, trade_quantity@, trade_price@),
    ensures
        final(portfolio).wf(),
        final(portfolio)@ == tx_result(old(portfolio)@, s@, trade_quantity@, trade_price@),
        nonzero_entries(final(portfolio)@),
{
    proof {
        old(portfolio).lemma_wf();
    }
    if trade_quantity.is_zero() {
        return;
    }
    let h = portfolio.holding(s);
    let price: Fixed;
    let cash: Option<Value>;
    if h.quantity.is_zero() {
        price = trade_price;
        cash = if s.cash_settled() {
            Some(s.value(trade_price).scale(trade_quantity.neg()))
        } else {
            None
        };
    } else if trade_quantity.is_positive() == h.quantity.is_positive() {
        price = wgt_avg(h.quantity, h.price, trade_quantity, trade_price);
        cash = if s.cash_settled() {
            Some(s.value(trade_price).scale(trade_quantity.neg()))
        } else {
            None
        };
    } else if trade_quantity.exceeds_in_size(&h.quantity) {
        // what is realized is the gain on the position closed, not on the new one
        cash = if s.cash_settled() {
            Some(s.value(trade_price).scale(trade_quantity.neg()))
        } else {
            match s.value(trade_price).sub(s.value(h.price)) {
                Ok(gain) => Some(gain.scale(h.quantity)),
                Err(_) => None,
            }
        };
        price = trade_price;
    } else {
        price = h.price;
        cash = if s.cash_settled() {
            Some(s.value(trade_price).scale(trade_quantity.neg()))
        } else {
            match s.value(trade_price).sub(s.value(h.price)) {
                Ok(gain) => Some(gain.scale(trade_quantity.neg())),
                Err(_) => None,
            }
        };
    }
    let quantity = h.quantity.plus(trade_quantity);
    portfolio.store(s, Holding { quantity, price, mark: h.mark });
    match cash {
        Some(v) => {
            if !v.amount.is_zero() {
                let key = Security::Cash(v.currency);
                let c = portfolio.holding(&key);
                let balance = c.quantity.plus(v.amount);
                portfolio.store(&key, Holding { quantity: balance, price: c.price, mark: c.mark });
            }
        },
        None => {},
    }
    proof {
        portfolio.lemma_wf();
    }
}

/// Raw amount of the value of one unit of `s` at `price`.
fn value_raw(s: &Security, price: Fixed) -> (r: i128)
    ensures
        r == value_of(s@, price@),
{
    match s {
        Security::Cash(_) => SCALE as i128,
        Security::Equity(_, _) => price.raw as i128,
        Security::Future(_, pv, _) => {
            let a = *pv as i128;
            let b = price.raw as i128;
            assert(-0x1_0000_0000_0000_0000_0000_0000 <= a * b <= 0x1_0000_0000_0000_0000_0000_0000)
                by (nonlinear_arith)
                requires
                    i32::MIN <= a <= i32::MAX,
                    i64::MIN <= b <= i64::MAX,
            ;
            a * b
        },
        Security::FxFrd(_, _, _) => price.raw as i128,
    }
}

fn fits_i64(x: i128) -> (r: bool)
    ensures
        r == fits(x as int),
{
    i64::MIN as i128 <= x && x <= i64::MAX as i128
}

/// Whether `tx` can book the trade: every number it computes fits in an `i64`.
pub fn can_book(portfolio: &Portfolio, s: &Security, trade_quantity: Fixed, trade_price: Fixed) -> (r: bool)
    requires
        portfolio.wf(),
    ensures
        r == tx_fits(portfolio@, s@, trade_quantity@, trade_price@),
{
    if trade_quantity.is_zero() {
        return true;
    }
    let h = portfolio.holding(s);
    let quantity: i128 = h.quantity.raw as i128 + trade_quantity.raw as i128;
    if !fits_i64(quantity) {
        return false;
    }
    let increase = !h.quantity.is_zero() && trade_quantity.is_positive() == h.quantity.is_positive();
    let flip = !h.quantity.is_zero() && !increase && trade_quantity.exceeds_in_size(&h.quantity);
    if increase {
        let a = h.quantity.raw as i128;
        let b = h.price.raw as i128;
        let c = trade_quantity.raw as i128;
        let d = trade_price.raw as i128;
        assert(-0x4000_0000_0000_0000_0000_0000_0000_0000 <= a * b <= 0x4000_0000_0000_0000_0000_0000_0000_0000)
            by (nonlinear_arith)
            requires
                i64::MIN <= a <= i64::MAX,
                i64::MIN <= b <= i64::MAX,
        ;
        assert(-0x4000_0000_0000_0000_0000_0000_0000_0000 <= c * d <= 0x4000_0000_0000_0000_0000_0000_0000_0000)
            by (nonlinear_arith)
            requires
                i64::MIN <= c <= i64::MAX,
                i64::MIN <= d <= i64::MAX,
        ;
        let x = a * b;
        let y = c * d;
        if (x > 0 && y > i128::MAX - x) || (x < 0 && y < -i128::MAX - x) {
            return false;
        }
    }
    // the settlement and the numbers computing it go through
    let amount: Option<i128>;
    if s.cash_settled() {
        if trade_quantity.raw == i64::MIN {
            return false;
        }
        let v = value_raw(s, trade_price);
        if !fits_i64(v) {
            return false;
        }
        let a = product_raw(v, -(trade_quantity.raw as i128));
        if !fits_i64(a) {
            return false;
        }
        amount = Some(a);
    } else if h.quantity.is_zero() || increase {
        amount = None;
    } else {
        let v = value_raw(s, trade_price);
        let b = value_raw(s, h.price);
        if !fits_i64(v) || !fits_i64(b) || !fits_i64(v - b) {
            return false;
        }
        let size: i128 = if flip { h.quantity.raw as i128 } else { -(trade_quantity.raw as i128) };
        let a = product_raw(v - b, size);
        if !fits_i64(a) {
            return false;
        }
        amount = Some(a);
    }
    match amount {
        Some(a) => {
            let ccy = s.currency();
            let key = Security::Cash(ccy);
            let balance: i128 = if *s == key {
                if quantity == 0 { 0 } else { quantity }
            } else {
                portfolio.holding(&key).quantity.raw as i128
            };
            fits_i64(balance + a)
        },
        None => true,
    }
}

/// Books the trade as `tx` does where `can_book` holds, and otherwise leaves the
/// portfolio as it is; says which happened.
pub fn try_tx(portfolio: &mut Portfolio, s: &Security, trade_quantity: Fixed, trade_price: Fixed) -> (r: bool)
    requires
        old(portfolio).wf(),
    ensures
        final(portfolio).wf(),
        r == tx_fits(old(portfolio)@, s@, trade_quantity@, trade_price@),
        r ==> final(portfolio)@ == tx_result(old(portfolio)@, s@, trade_quantity@, trade_price@),
        !r ==> final(portfolio)@ == old(portfolio)@,
{
    if can_book(portfolio, s, trade_quantity, trade_price) {
        tx(portfolio, s, trade_quantity, trade_price);
        true
    } else {
        false
    }
}

/// A weighted average of two prices lies between the least and the largest of them.
pub proof fn lemma_weighted_average_bounded(q1: int, p1: int, q2: int, p2: int)
    requires
        q1 + q2 != 0,
        (q1 >= 0 && q2 >= 0) || (q1 <= 0 && q2 <= 0),
        fits(p1),
        fits(p2),
    ensures
        fits(weighted_average(q1, p1, q2, p2)),
{
    let lo: int = if p1 < p2 { p1 } else { p2 };
    let hi: int = if p1 < p2 { p2 } else { p1 };
    let a: int = if q1 + q2 > 0 { q1 } else { -q1 };
    let c: int = if q1 + q2 > 0 { q2 } else { -q2 };
    assert(a >= 0 && c >= 0);
    let d = a + c;
    let n = a * p1 + c * p2;
    assert(lo * d <= n <= hi * d) by (nonlinear_arith)
        requires
            a >= 0,
            c >= 0,
            d == a + c,
            n == a * p1 + c * p2,
            lo <= p1 <= hi,
            lo <= p2 <= hi,
    ;
    assert(q1 * p1 + q2 * p2 == if q1 + q2 > 0 { n } else { -n }) by (nonlinear_arith)
        requires
            n == a * p1 + c * p2,
            q1 + q2 > 0 ==> a == q1 && c == q2,
            q1 + q2 <= 0 ==> a == -q1 && c == -q2,
    ;
    lemma_tdiv_between(n, d, lo, hi);
}

/// A quotient rounded toward zero keeps the bounds that the dividend has as
/// multiples of the divisor.
proof fn lemma_tdiv_between(n: int, d: int, lo: int, hi: int)
    requires
        d > 0,
        lo * d <= n <= hi * d,
    ensures
        lo <= tdiv(n, d) <= hi,
        tdiv(n, d) == tdiv(-n, -d),
{
    lemma_div_multiples_vanish(hi, d);
    lemma_div_multiples_vanish(lo, d);
    lemma_div_multiples_vanish(-hi, d);
    lemma_div_multiples_vanish(-lo, d);
    assert(d * hi == hi * d && d * lo == lo * d && d * -hi == -(hi * d) && d * -lo == -(lo * d))
        by (nonlinear_arith);
    if n >= 0 {
        lemma_div_is_ordered(n, hi * d, d);
        lemma_div_is_ordered(lo * d, n, d);
    } else {
        lemma_div_is_ordered(-n, -(lo * d), d);
        lemma_div_is_ordered(-(hi * d), -n, d);
    }
}

} // verus!
