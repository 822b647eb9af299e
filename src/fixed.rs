use vstd::prelude::*;

verus! {

/// Number of raw units in one whole unit: a `Fixed` carries six decimal places.
pub const SCALE: i64 = 1_000_000;

/// A signed fixed-point number: `raw` millionths of a unit.
#[derive(Clone, Copy, Debug, PartialEq, Eq, Structural, Hash)]
pub struct Fixed {
    pub raw: i64,
}

/// `x` lies in the range of an `i64`.
pub open spec fn fits(x: int) -> bool {
    i64::MIN <= x <= i64::MAX
}

/// Absolute value.
pub open spec fn magnitude(x: int) -> int {
    if x < 0 {
        -x
    } else {
        x
    }
}

/// `x` lies in the symmetric range of an `i128`.
pub open spec fn fits_wide(x: int) -> bool {
    -i128::MAX <= x <= i128::MAX
}

/// Division of `x` by a nonzero `d`, rounded toward zero.
pub open spec fn tdiv(x: int, d: int) -> int {
    if (x >= 0) == (d > 0) {
        magnitude(x) / magnitude(d)
    } else {
        -(magnitude(x) / magnitude(d))
    }
}

/// Raw value of the product of two fixed-point numbers given by their raw values.
pub open spec fn mul_raw(a: int, b: int) -> int {
    tdiv(a * b, SCALE as int)
}

/// Multiplying by one, whose raw value is `SCALE`, changes nothing.
pub proof fn lemma_mul_by_one(x: int)
    ensures
        mul_raw(SCALE as int, x) == x,
{
    let s = SCALE as int;
    vstd::arithmetic::div_mod::lemma_div_multiples_vanish(magnitude(x), s);
    assert(magnitude(s * x) == s * magnitude(x)) by (nonlinear_arith)
        requires
            s > 0,
    ;
    assert((s * x >= 0) == (x >= 0)) by (nonlinear_arith)
        requires
            s > 0,
    ;
}

impl View for Fixed {
    type V = int;

    open spec fn view(&self) -> int {
        self.raw as int
    }
}

impl Fixed {
    /// The whole number `n`.
    pub fn from_int(n: i32) -> (r: Fixed)
        ensures
            r@ == n * SCALE,
    {
        Fixed { raw: (n as i64) * SCALE }
    }

    /// The number `raw / 1_000_000`.
    pub fn from_raw(raw: i64) -> (r: Fixed)
        ensures
            r@ == raw,
    {
        Fixed { raw }
    }

    pub fn zero() -> (r: Fixed)
        ensures
            r@ == 0,
    {
        Fixed { raw: 0 }
    }

    pub fn is_zero(&self) -> (r: bool)
        ensures
            r == (self@ == 0),
    {
        self.raw == 0
    }

    pub fn is_positive(&self) -> (r: bool)
        ensures
            r == (self@ > 0),
    {
        self.raw > 0
    }

    pub fn is_negative(&self) -> (r: bool)
        ensures
            r == (self@ < 0),
    {
        self.raw < 0
    }

    /// Whether `self` is larger than `o` in absolute value.
    pub fn exceeds_in_size(&self, o: &Fixed) -> (r: bool)
        ensures
            r == (magnitude(self@) > magnitude(o@)),
    {
        let a: i128 = if self.raw < 0 { -(self.raw as i128) } else { self.raw as i128 };
        let b: i128 = if o.raw < 0 { -(o.raw as i128) } else { o.raw as i128 };
        a > b
    }

    pub fn neg(self) -> (r: Fixed)
        requires
            fits(-self@),
        ensures
            r@ == -self@,
    {
        Fixed { raw: -self.raw }
    }

    pub fn plus(self, o: Fixed) -> (r: Fixed)
        requires
            fits(self@ + o@),
        ensures
            r@ == self@ + o@,
    {
        Fixed { raw: self.raw + o.raw }
    }

    pub fn minus(self, o: Fixed) -> (r: Fixed)
        requires
            fits(self@ - o@),
        ensures
            r@ == self@ - o@,
    {
        Fixed { raw: self.raw - o.raw }
    }

    /// Product, rounded toward zero to six decimal places.
    pub fn times(self, o: Fixed) -> (r: Fixed)
        requires
            fits(mul_raw(self@, o@)),
        ensures
            r@ == mul_raw(self@, o@),
    {
        Fixed { raw: product_raw(self.raw as i128, o.raw as i128) as i64 }
    }
}

/// `mul_raw(a, b)`, computed without overflow.
pub fn product_raw(a: i128, b: i128) -> (r: i128)
    requires
        fits(a as int),
        fits(b as int),
    ensures
        r == mul_raw(a as int, b as int),
{
    assert(-0x4000_0000_0000_0000_0000_0000_0000_0000 <= a * b <= 0x4000_0000_0000_0000_0000_0000_0000_0000)
        by (nonlinear_arith)
        requires
            i64::MIN <= a <= i64::MAX,
            i64::MIN <= b <= i64::MAX,
    ;
    let p: i128 = a * b;
    p / (SCALE as i128)
}

} // verus!
