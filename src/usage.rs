use vstd::prelude::*;

verus! {

/// A usage fraction held exactly as `num / den`.
#[derive(Clone, Copy, Debug, PartialEq, Eq, Structural)]
pub struct Fraction {
    pub num: u64,
    pub den: u64,
}

impl Fraction {
    /// A fraction is well formed when it is a proper value in `[0, 1]`.
    pub open spec fn wf(self) -> bool {
        0 < self.den && self.num <= self.den
    }

    /// The fraction zero, written `0 / 1`.
    pub fn zero() -> (r: Fraction)
        ensures
            r == (Fraction { num: 0, den: 1 }),
            r.wf(),
    {
        Fraction { num: 0, den: 1 }
    }
}

/// The usage fraction `1 - available / total`, clamped into `[0, 1]`,
/// and zero when the total is zero.
pub open spec fn fraction_of(total: u64, available: u64) -> Fraction {
    if total == 0 {
        Fraction { num: 0, den: 1 }
    } else if available >= total {
        Fraction { num: 0, den: total }
    } else {
        Fraction { num: (total - available) as u64, den: total }
    }
}

/// Computes the fraction of a volume that is in use.
pub fn compute_fraction(total: u64, available: u64) -> (r: Fraction)
    ensures
        r == fraction_of(total, available),
        r.wf(),
        total == 0 ==> r.num == 0,
        0 < total && available <= total ==> r.num == total - available && r.den == total,
{
    if total == 0 {
        Fraction::zero()
    } else if available >= total {
        Fraction { num: 0, den: total }
    } else {
        Fraction { num: total - available, den: total }
    }
}

/// The usage fraction of a record: the computed fraction for a sound pair, and
/// the policy's substitute when the source reports more available than total.
pub open spec fn record_fraction_of(total: u64, available: u64, anomaly: Fraction) -> Fraction {
    if 0 < total && available > total {
        anomaly
    } else {
        fraction_of(total, available)
    }
}

/// Resolves the usage fraction of a record, substituting `anomaly` for an
/// impossible pair (`available > total > 0`).
pub fn record_fraction(total: u64, available: u64, anomaly: Fraction) -> (r: Fraction)
    requires
        anomaly.wf(),
    ensures
        r == record_fraction_of(total, available, anomaly),
        r.wf(),
        total == 0 ==> r.num == 0,
        0 < total && available > total ==> r == anomaly,
{
    if 0 < total && available > total {
        anomaly
    } else {
        compute_fraction(total, available)
    }
}

/// The number of filled cells and of remaining cells in a usage bar.
#[derive(Clone, Copy, Debug, PartialEq, Eq, Structural)]
pub struct Bar {
    pub filled: u64,
    pub remaining: u64,
}

/// `ceil(a / b)` for `b > 0`.
pub open spec fn ceil_div(a: nat, b: nat) -> nat
    recommends
        b > 0,
{
    ((a + b - 1) as nat) / b
}

/// The bar of `width` cells for a fraction: `ceil(width * fraction)` filled cells,
/// the rest remaining.
pub open spec fn bar_of(f: Fraction, width: u64) -> Bar {
    let filled = ceil_div(width as nat * f.num as nat, f.den as nat);
    Bar { filled: filled as u64, remaining: (width - filled) as u64 }
}

/// The single alerting rule: fewer than a fifth of the cells remain.
pub open spec fn high_usage_of(b: Bar) -> bool {
    5 * (b.remaining as nat) < (b.filled + b.remaining) as nat
}

proof fn lemma_ceil_div_bounded(w: nat, n: nat, d: nat)
    requires
        0 < d,
        n <= d,
    ensures
        ceil_div(w * n, d) <= w,
{
    assert(w * n <= w * d) by (nonlinear_arith)
        requires
            n <= d,
    ;
    assert((w * n + d - 1) as nat / d <= w) by (nonlinear_arith)
        requires
            w * n <= w * d,
            0 < d,
    ;
}

/// Lays out a usage bar of `width` cells.
pub fn compute_bar(f: Fraction, width: u64) -> (r: Bar)
    requires
        f.wf(),
    ensures
        r == bar_of(f, width),
        r.filled + r.remaining == width,
{
    proof {
        lemma_ceil_div_bounded(width as nat, f.num as nat, f.den as nat);
    }
    assert((width as nat) * (f.num as nat) + f.den < u128::MAX) by (nonlinear_arith)
        requires
            width <= u64::MAX,
            f.num <= u64::MAX,
            f.den <= u64::MAX,
    ;
    let prod: u128 = (width as u128) * (f.num as u128);
    let filled_wide: u128 = (prod + (f.den as u128) - 1) / (f.den as u128);
    let filled: u64 = filled_wide as u64;
    Bar { filled, remaining: width - filled }
}

impl Bar {
    /// Whether the bar signals high usage: fewer than a fifth of its cells remain.
    pub fn is_high_usage(&self) -> (r: bool)
        ensures
            r == high_usage_of(*self),
    {
        5 * (self.remaining as u128) < (self.filled as u128) + (self.remaining as u128)
    }
}

} // verus!
