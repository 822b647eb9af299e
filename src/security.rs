use vstd::prelude::*;
use crate::date::Date;
use crate::fixed::{fits, mul_raw, Fixed, SCALE};

verus! {

/// The currencies in which instruments are quoted and cash is held.
#[derive(Clone, Copy, Debug, PartialEq, Eq, Structural, Hash)]
pub enum Currency {
    USD,
    CAD,
    JPY,
    EUR,
    GBP,
    AUD,
    NZD,
    NOK,
    SEK,
}

/// A tradable instrument.
#[derive(Clone, Debug, Eq, Hash)]
pub enum Security {
    /// A balance in a currency.
    Cash(Currency),
    /// A share: symbol and quote currency.
    Equity(String, Currency),
    /// A futures contract: symbol, point value and quote currency.
    Future(String, i32, Currency),
    /// A currency forward: base currency, settlement currency and settlement date.
    FxFrd(Currency, Currency, Date),
}

/// What identifies an instrument: its kind and all of its fields.
pub enum SecurityView {
    Cash(Currency),
    Equity(Seq<char>, Currency),
    Future(Seq<char>, i32, Currency),
    FxFrd(Currency, Currency, Date),
}

impl View for Security {
    type V = SecurityView;

    open spec fn view(&self) -> SecurityView {
        match self {
            Security::Cash(c) => SecurityView::Cash(*c),
            Security::Equity(sym, c) => SecurityView::Equity(sym@, *c),
            Security::Future(sym, pv, c) => SecurityView::Future(sym@, *pv, *c),
            Security::FxFrd(b, c, d) => SecurityView::FxFrd(*b, *c, *d),
        }
    }
}

impl PartialEq for Security {
    fn eq(&self, o: &Security) -> (r: bool) {
        match (self, o) {
            (Security::Cash(c1), Security::Cash(c2)) => *c1 == *c2,
            (Security::Equity(s1, c1), Security::Equity(s2, c2)) => *s1 == *s2 && *c1 == *c2,
            (Security::Future(s1, p1, c1), Security::Future(s2, p2, c2)) => {
                *s1 == *s2 && *p1 == *p2 && *c1 == *c2
            },
            (Security::FxFrd(b1, c1, d1), Security::FxFrd(b2, c2, d2)) => {
                *b1 == *b2 && *c1 == *c2 && *d1 == *d2
            },
            _ => false,
        }
    }
}

impl vstd::std_specs::cmp::PartialEqSpecImpl for Security {
    open spec fn obeys_eq_spec() -> bool {
        true
    }

    open spec fn eq_spec(&self, o: &Security) -> bool {
        self@ == o@
    }
}

/// The currency in which an instrument's value is expressed.
pub open spec fn currency_of(s: SecurityView) -> Currency {
    match s {
        SecurityView::Cash(c) => c,
        SecurityView::Equity(_, c) => c,
        SecurityView::Future(_, _, c) => c,
        SecurityView::FxFrd(_, settle, _) => settle,
    }
}

/// Raw amount of the value of one unit of `s` quoted at raw price `price`.
pub open spec fn value_of(s: SecurityView, price: int) -> int {
    match s {
        SecurityView::Cash(_) => SCALE as int,
        SecurityView::Equity(_, _) => price,
        SecurityView::Future(_, pv, _) => pv * price,
        SecurityView::FxFrd(_, _, _) => price,
    }
}

/// Instruments whose full notional changes hands on every trade.
pub open spec fn is_cash_settled(s: SecurityView) -> bool {
    match s {
        SecurityView::Cash(_) => true,
        SecurityView::Equity(_, _) => true,
        SecurityView::Future(_, _, _) => false,
        SecurityView::FxFrd(_, _, _) => false,
    }
}

/// An amount of money in a currency.
#[derive(Clone, Copy, Debug, PartialEq, Eq, Structural)]
pub struct Value {
    pub amount: Fixed,
    pub currency: Currency,
}

/// Why arithmetic on two values has no result.
#[derive(Clone, Copy, Debug, PartialEq, Eq, Structural)]
pub enum ValueError {
    CurrencyMismatch,
}

impl Value {
    pub fn new(amount: Fixed, currency: Currency) -> (r: Value)
        ensures
            r.amount == amount,
            r.currency == currency,
    {
        Value { amount, currency }
    }

    /// Sum of two amounts in one currency.
    pub fn add(self, o: Value) -> (r: Result<Value, ValueError>)
        requires
            self.currency == o.currency ==> fits(self.amount@ + o.amount@),
        ensures
            self.currency != o.currency ==> r == Err::<Value, ValueError>(ValueError::CurrencyMismatch),
            self.currency == o.currency ==> (r matches Ok(v) && v.amount@ == self.amount@ + o.amount@
                && v.currency == self.currency),
    {
        if self.currency == o.currency {
            Ok(Value { amount: self.amount.plus(o.amount), currency: self.currency })
        } else {
            Err(ValueError::CurrencyMismatch)
        }
    }

    /// Difference of two amounts in one currency.
    pub fn sub(self, o: Value) -> (r: Result<Value, ValueError>)
        requires
            self.currency == o.currency ==> fits(self.amount@ - o.amount@),
        ensures
            self.currency != o.currency ==> r == Err::<Value, ValueError>(ValueError::CurrencyMismatch),
            self.currency == o.currency ==> (r matches Ok(v) && v.amount@ == self.amount@ - o.amount@
                && v.currency == self.currency),
    {
        if self.currency == o.currency {
            Ok(Value { amount: self.amount.minus(o.amount), currency: self.currency })
        } else {
            Err(ValueError::CurrencyMismatch)
        }
    }

    /// The amount multiplied by `k`, in the same currency.
    pub fn scale(self, k: Fixed) -> (r: Value)
        requires
            fits(mul_raw(self.amount@, k@)),
        ensures
            r.amount@ == mul_raw(self.amount@, k@),
            r.currency == self.currency,
    {
        Value { amount: self.amount.times(k), currency: self.currency }
    }
}

impl Security {
    /// A copy of the instrument.
    pub fn duplicate(&self) -> (r: Security)
        ensures
            r@ == self@,
    {
        match self {
            Security::Cash(c) => Security::Cash(*c),
            Security::Equity(sym, c) => Security::Equity(sym.clone(), *c),
            Security::Future(sym, pv, c) => Security::Future(sym.clone(), *pv, *c),
            Security::FxFrd(b, c, d) => Security::FxFrd(*b, *c, *d),
        }
    }

    /// The currency in which the instrument settles.
    pub fn currency(&self) -> (r: Currency)
        ensures
            r == currency_of(self@),
    {
        match self {
            Security::Cash(c) => *c,
            Security::Equity(_, c) => *c,
            Security::Future(_, _, c) => *c,
            Security::FxFrd(_, settle, _) => *settle,
        }
    }

    /// The value of one unit of the instrument at the quoted price.
    pub fn value(&self, price: Fixed) -> (r: Value)
        requires
            fits(value_of(self@, price@)),
        ensures
            r.amount@ == value_of(self@, price@),
            r.currency == currency_of(self@),
    {
        match self {
            Security::Cash(c) => Value { amount: Fixed { raw: SCALE }, currency: *c },
            Security::Equity(_, c) => Value { amount: price, currency: *c },
            Security::Future(_, pv, c) => Value { amount: Fixed { raw: (*pv as i64) * price.raw }, currency: *c },
            Security::FxFrd(_, settle, _) => Value { amount: price, currency: *settle },
        }
    }

    /// Whether the full notional is settled in cash on every trade.
    pub fn cash_settled(&self) -> (r: bool)
        ensures
            r == is_cash_settled(self@),
    {
        match self {
            Security::Cash(_) => true,
            Security::Equity(_, _) => true,
            Security::Future(_, _, _) => false,
            Security::FxFrd(_, _, _) => false,
        }
    }
}

} // verus!
