use vstd::prelude::*;
use crate::fixed::{fits, lemma_mul_by_one, magnitude, mul_raw, Fixed};
use crate::portfolio::{holding_at, nonzero_entries, Holding};
use crate::security::{currency_of, is_cash_settled, value_of, SecurityView};
use crate::trade::{lemma_weighted_average_bounded, move_of, tx_fits, tx_result, weighted_average, Move};

verus! {

/// The cash holding in the currency in which `s` settles.
pub open spec fn cash_key(s: SecurityView) -> SecurityView {
    SecurityView::Cash(currency_of(s))
}

/// Opening a position in a cash-settled instrument, where neither it nor cash in its
/// currency is held, adds exactly two entries: the instrument at the trade's quantity
/// and price, and cash of minus the notional.
pub proof fn lemma_open_cash_settled(m: Map<SecurityView, Holding>, s: SecurityView, q: int, p: int)
    requires
        m.dom().finite(),
        fits(q),
        fits(p),
        q != 0,
        is_cash_settled(s),
        !(s is Cash),
        !m.contains_key(s),
        !m.contains_key(cash_key(s)),
        mul_raw(value_of(s, p), -q) != 0,
        tx_fits(m, s, q, p),
    ensures
        tx_result(m, s, q, p) == m.insert(
            s,
            Holding { quantity: Fixed { raw: q as i64 }, price: Fixed { raw: p as i64 }, mark: Fixed { raw: 0 } },
        ).insert(
            cash_key(s),
            Holding {
                quantity: Fixed { raw: mul_raw(value_of(s, p), -q) as i64 },
                price: Fixed { raw: 0 },
                mark: Fixed { raw: 0 },
            },
        ),
        tx_result(m, s, q, p).len() == m.len() + 2,
{
    let r = tx_result(m, s, q, p);
    let expected = m.insert(
        s,
        Holding { quantity: Fixed { raw: q as i64 }, price: Fixed { raw: p as i64 }, mark: Fixed { raw: 0 } },
    ).insert(
        cash_key(s),
        Holding {
            quantity: Fixed { raw: mul_raw(value_of(s, p), -q) as i64 },
            price: Fixed { raw: 0 },
            mark: Fixed { raw: 0 },
        },
    );
    assert(s != cash_key(s));
    assert(r =~= expected);
    assert(m.insert(s, expected[s]).len() == m.len() + 1);
}

/// Two trades in the same direction on an instrument not held give the sum of their
/// quantities at the weighted average of their prices; for a cash-settled
/// instrument the cash moves by the sum of the two notionals, for another it does
/// not move.
pub proof fn lemma_same_direction_trades(
    m: Map<SecurityView, Holding>,
    s: SecurityView,
    q1: int,
    p1: int,
    q2: int,
    p2: int,
)
    requires
        fits(q1),
        fits(p1),
        fits(q2),
        fits(p2),
        (q1 > 0 && q2 > 0) || (q1 < 0 && q2 < 0),
        !(s is Cash),
        !m.contains_key(s),
        tx_fits(m, s, q1, p1),
        tx_fits(tx_result(m, s, q1, p1), s, q2, p2),
    ensures
        ({
            let r = tx_result(tx_result(m, s, q1, p1), s, q2, p2);
            &&& r.contains_key(s)
            &&& r[s].quantity@ == q1 + q2
            &&& r[s].price@ == weighted_average(q1, p1, q2, p2)
            &&& holding_at(r, cash_key(s)).quantity@ == if is_cash_settled(s) {
                holding_at(m, cash_key(s)).quantity@ + mul_raw(value_of(s, p1), -q1) + mul_raw(
                    value_of(s, p2),
                    -q2,
                )
            } else {
                holding_at(m, cash_key(s)).quantity@
            }
        }),
{
    assert(s != cash_key(s));
    assert(move_of(q1, q2) == Move::Increase);
    lemma_weighted_average_bounded(q1, p1, q2, p2);
}

/// A position opened on an empty portfolio and closed in full at the same price
/// leaves the portfolio empty: the cash that settles nets to zero.
pub proof fn lemma_close_at_cost_empties(s: SecurityView, q: int, p: int)
    requires
        fits(q),
        fits(p),
        q != 0,
        tx_fits(Map::empty(), s, q, p),
        tx_fits(tx_result(Map::empty(), s, q, p), s, -q, p),
    ensures
        tx_result(tx_result(Map::empty(), s, q, p), s, -q, p) == Map::<SecurityView, Holding>::empty(),
{
    let m0 = Map::<SecurityView, Holding>::empty();
    let m1 = tx_result(m0, s, q, p);
    let m2 = tx_result(m1, s, -q, p);
    let v = value_of(s, p);
    assert(mul_raw(v, q) == -mul_raw(v, -q)) by (nonlinear_arith);
    if s is Cash {
        lemma_mul_by_one(-q);
        lemma_mul_by_one(q);
        assert(cash_key(s) == s);
        assert(m1 =~= m0);
        assert(m2 =~= m0);
    } else {
        assert(s != cash_key(s));
        assert(m1.contains_key(s) && m1[s].quantity@ == q && m1[s].price@ == p);
        assert(move_of(q, -q) == Move::Reduce);
        assert(mul_raw(v - v, -(-q)) == 0);
        assert(m2 =~= m0);
    }
}

/// Reducing a position keeps its cost basis; the quantity falls by the reduction;
/// for an instrument that is not cash-settled the cash realized is the price gain
/// on the reduced quantity.
pub proof fn lemma_reduce_keeps_price(m: Map<SecurityView, Holding>, s: SecurityView, q: int, p: int)
    requires
        fits(q),
        fits(p),
        m.contains_key(s),
        q != 0,
        move_of(m[s].quantity@, q) == Move::Reduce,
        magnitude_below(q, m[s].quantity@),
        !(s is Cash),
        tx_fits(m, s, q, p),
    ensures
        ({
            let r = tx_result(m, s, q, p);
            &&& r.contains_key(s)
            &&& r[s].price == m[s].price
            &&& r[s].quantity@ == m[s].quantity@ + q
            &&& !is_cash_settled(s) ==> holding_at(r, cash_key(s)).quantity@ == holding_at(m, cash_key(s)).quantity@
                + mul_raw(value_of(s, p) - value_of(s, m[s].price@), -q)
        }),
{
    assert(s != cash_key(s));
}

/// `q` is smaller in absolute value than `held`.
pub open spec fn magnitude_below(q: int, held: int) -> bool {
    magnitude(q) < magnitude(held)
}

/// Flipping a position of an instrument that is not cash-settled realizes the price
/// gain on the quantity that was held only, and starts a new lot at the trade price
/// of the held quantity plus the trade's.
pub proof fn lemma_flip_realizes_closed_part(m: Map<SecurityView, Holding>, s: SecurityView, q: int, p: int)
    requires
        fits(q),
        fits(p),
        m.contains_key(s),
        move_of(m[s].quantity@, q) == Move::Flip,
        !is_cash_settled(s),
        tx_fits(m, s, q, p),
    ensures
        ({
            let r = tx_result(m, s, q, p);
            &&& r.contains_key(s)
            &&& r[s].price@ == p
            &&& r[s].quantity@ == m[s].quantity@ + q
            &&& holding_at(r, cash_key(s)).quantity@ == holding_at(m, cash_key(s)).quantity@
                + mul_raw(value_of(s, p) - value_of(s, m[s].price@), m[s].quantity@)
        }),
{
    assert(s != cash_key(s));
}

/// After any trade that can be booked, no entry of the portfolio has quantity zero.
pub proof fn lemma_tx_keeps_nonzero(m: Map<SecurityView, Holding>, s: SecurityView, q: int, p: int)
    requires
        nonzero_entries(m),
        tx_fits(m, s, q, p),
    ensures
        nonzero_entries(tx_result(m, s, q, p)),
{
}

} // verus!
