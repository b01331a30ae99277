//! Exact numbers, in which the arithmetic of a conversion is stated.
//!
//! A caller computes with whatever numbers it has. What a conversion means
//! is said here over quotients of integers, where nothing is rounded.

use vstd::prelude::*;

verus! {

/// The number `num / den`.
pub struct Exact {
    pub num: int,
    pub den: int,
}

impl Exact {
    /// The quotient has a positive denominator.
    pub open spec fn well_formed(self) -> bool {
        self.den > 0
    }

    /// Both quotients stand for the same number.
    pub open spec fn same(self, other: Exact) -> bool {
        self.num * other.den == other.num * self.den
    }

    /// The sum of two numbers.
    pub open spec fn plus(self, other: Exact) -> Exact {
        Exact { num: self.num * other.den + other.num * self.den, den: self.den * other.den }
    }

    /// The difference of two numbers.
    pub open spec fn minus(self, other: Exact) -> Exact {
        Exact { num: self.num * other.den - other.num * self.den, den: self.den * other.den }
    }

    /// The product of two numbers.
    pub open spec fn times(self, other: Exact) -> Exact {
        Exact { num: self.num * other.num, den: self.den * other.den }
    }

    /// One divided by the number, which is not zero.
    pub open spec fn inverse(self) -> Exact {
        if self.num < 0 {
            Exact { num: -self.den, den: -self.num }
        } else {
            Exact { num: self.den, den: self.num }
        }
    }
}

/// Sums, differences and products of well-formed numbers are well formed,
/// and so is the inverse of one that is not zero.
pub proof fn lemma_well_formed(a: Exact, b: Exact)
    requires
        a.well_formed(),
        b.well_formed(),
    ensures
        a.plus(b).well_formed(),
        a.minus(b).well_formed(),
        a.times(b).well_formed(),
        a.num != 0 ==> a.inverse().well_formed(),
{
    assert(a.den * b.den > 0) by (nonlinear_arith)
        requires
            a.den > 0,
            b.den > 0,
    ;
}

/// Two quotients that stand for the same number as a third stand for the
/// same number.
pub proof fn lemma_same_transitive(a: Exact, b: Exact, c: Exact)
    requires
        a.same(b),
        b.same(c),
        b.den != 0,
    ensures
        a.same(c),
{
    assert(a.num * c.den == c.num * a.den) by (nonlinear_arith)
        requires
            a.num * b.den == b.num * a.den,
            b.num * c.den == c.num * b.den,
            b.den != 0,
    {
        assert((a.num * c.den) * b.den == (a.num * b.den) * c.den);
        assert((b.num * a.den) * c.den == (b.num * c.den) * a.den);
        assert((c.num * b.den) * a.den == (c.num * a.den) * b.den);
        assert((a.num * c.den - c.num * a.den) * b.den == 0);
    }
}

/// Four factors can be paired either way.
proof fn lemma_regroup(w: int, x: int, y: int, z: int)
    ensures
        (w * x) * (y * z) == (w * y) * (x * z),
{
    assert((w * x) * (y * z) == (w * y) * (x * z)) by (nonlinear_arith);
}

/// The cross products of two sums, or differences, with a common second
/// term agree when those of their first terms do.
proof fn lemma_cross_terms(a: Exact, b: Exact, c: Exact)
    requires
        a.same(b),
    ensures
        (a.num * c.den) * (b.den * c.den) == (b.num * c.den) * (a.den * c.den),
        (c.num * a.den) * (b.den * c.den) == (c.num * b.den) * (a.den * c.den),
{
    lemma_regroup(a.num, c.den, b.den, c.den);
    lemma_regroup(b.num, c.den, a.den, c.den);
    assert((c.num * a.den) * (b.den * c.den) == (c.num * b.den) * (a.den * c.den))
        by (nonlinear_arith);
}

/// A sum stands for the same number when its first term does.
pub proof fn lemma_plus_same(a: Exact, b: Exact, c: Exact)
    requires
        a.same(b),
    ensures
        a.plus(c).same(b.plus(c)),
{
    lemma_cross_terms(a, b, c);
    let m = b.den * c.den;
    let n = a.den * c.den;
    assert((a.num * c.den + c.num * a.den) * m == (a.num * c.den) * m + (c.num * a.den) * m)
        by (nonlinear_arith);
    assert((b.num * c.den + c.num * b.den) * n == (b.num * c.den) * n + (c.num * b.den) * n)
        by (nonlinear_arith);
}

/// A difference stands for the same number when its first term does.
pub proof fn lemma_minus_same(a: Exact, b: Exact, c: Exact)
    requires
        a.same(b),
    ensures
        a.minus(c).same(b.minus(c)),
{
    lemma_cross_terms(a, b, c);
    let m = b.den * c.den;
    let n = a.den * c.den;
    assert((a.num * c.den - c.num * a.den) * m == (a.num * c.den) * m - (c.num * a.den) * m)
        by (nonlinear_arith);
    assert((b.num * c.den - c.num * b.den) * n == (b.num * c.den) * n - (c.num * b.den) * n)
        by (nonlinear_arith);
}

/// A product stands for the same number when its first factor does.
pub proof fn lemma_times_same(a: Exact, b: Exact, c: Exact)
    requires
        a.same(b),
    ensures
        a.times(c).same(b.times(c)),
{
    assert((a.num * c.num) * (b.den * c.den) == (b.num * c.num) * (a.den * c.den))
        by (nonlinear_arith)
        requires
            a.num * b.den == b.num * a.den,
    {
        assert((a.num * c.num) * (b.den * c.den) == (a.num * b.den) * (c.num * c.den));
        assert((b.num * c.num) * (a.den * c.den) == (b.num * a.den) * (c.num * c.den));
    }
}

/// To add a number and take it away again changes nothing, in either order.
pub proof fn lemma_plus_minus(a: Exact, c: Exact)
    requires
        c.den != 0,
    ensures
        a.plus(c).minus(c).same(a),
        a.minus(c).plus(c).same(a),
{
    assert(((a.num * c.den + c.num * a.den) * c.den - c.num * (a.den * c.den)) * a.den == a.num
        * ((a.den * c.den) * c.den)) by (nonlinear_arith);
    assert(((a.num * c.den - c.num * a.den) * c.den + c.num * (a.den * c.den)) * a.den == a.num
        * ((a.den * c.den) * c.den)) by (nonlinear_arith);
}

/// To multiply by a number that is not zero and by its inverse changes
/// nothing, in either order.
pub proof fn lemma_times_inverse(a: Exact, c: Exact)
    ensures
        a.times(c).times(c.inverse()).same(a),
        a.times(c.inverse()).times(c).same(a),
{
    let i = c.inverse();
    assert(i.num * c.num == c.den * i.den) by (nonlinear_arith)
        requires
            i.num == c.den && i.den == c.num || i.num == -c.den && i.den == -c.num,
    ;
    assert(((a.num * c.num) * i.num) * a.den == a.num * ((a.den * c.den) * i.den))
        by (nonlinear_arith)
        requires
            i.num * c.num == c.den * i.den,
    {
        assert(((a.num * c.num) * i.num) * a.den == (a.num * a.den) * (i.num * c.num));
        assert(a.num * ((a.den * c.den) * i.den) == (a.num * a.den) * (c.den * i.den));
    }
    assert(((a.num * i.num) * c.num) * a.den == a.num * ((a.den * i.den) * c.den))
        by (nonlinear_arith)
        requires
            i.num * c.num == c.den * i.den,
    {
        assert(((a.num * i.num) * c.num) * a.den == (a.num * a.den) * (i.num * c.num));
        assert(a.num * ((a.den * i.den) * c.den) == (a.num * a.den) * (c.den * i.den));
    }
}

} // verus!
