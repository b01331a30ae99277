//! Units of measurement and the numbers that tie them to a base unit.

use vstd::prelude::*;
use crate::exact::{
    lemma_minus_same,
    lemma_plus_minus,
    lemma_plus_same,
    lemma_same_transitive,
    lemma_times_inverse,
    lemma_times_same,
    lemma_well_formed,
    Exact,
};
use crate::text::{lowercase, to_lowercase};

verus! {

/// An exact number, written as a fraction of two integers.
#[derive(Debug, Clone, Copy, PartialEq, Eq)]
pub struct Fraction {
    pub numerator: i64,
    pub denominator: u64,
}

impl Fraction {
    /// The fraction `numerator / denominator`.
    pub fn new(numerator: i64, denominator: u64) -> (r: Fraction)
        ensures
            r == (Fraction { numerator, denominator }),
    {
        Fraction { numerator, denominator }
    }

    /// The fraction stands for a number: its denominator is not zero.
    pub open spec fn well_formed(self) -> bool {
        self.denominator != 0
    }

    /// The number that the fraction stands for.
    pub open spec fn exact(self) -> Exact {
        Exact { num: self.numerator as int, den: self.denominator as int }
    }

    /// The fraction stands for zero.
    pub open spec fn is_zero(self) -> bool {
        self.numerator == 0
    }

    /// The fraction stands for one.
    pub open spec fn is_one(self) -> bool {
        self.numerator == self.denominator
    }
}

/// How a unit relates to the base unit of its family. A quantity `q` of the
/// unit is `(q + difference) * ratio` in the base unit, and a quantity `b` of
/// the base unit is `b * (1 / ratio) - difference` in the unit.
#[derive(Debug, Clone, Copy, PartialEq, Eq)]
pub struct Scale {
    pub ratio: Fraction,
    pub difference: Fraction,
}

impl Scale {
    /// Both numbers are well formed and the ratio is not zero, so that the
    /// way to the base unit can be gone back.
    pub open spec fn well_formed(self) -> bool {
        &&& self.ratio.well_formed()
        &&& !self.ratio.is_zero()
        &&& self.difference.well_formed()
    }

    /// The scale of a base unit: ratio one, difference zero.
    pub open spec fn is_identity(self) -> bool {
        &&& self.ratio.well_formed()
        &&& self.ratio.is_one()
        &&& self.difference.well_formed()
        &&& self.difference.is_zero()
    }

    /// The quantity `q` of the unit, in the base unit: `(q + difference) *
    /// ratio`.
    pub open spec fn to_base(self, q: Exact) -> Exact {
        q.plus(self.difference.exact()).times(self.ratio.exact())
    }

    /// The quantity `b` of the base unit, in the unit: `b * (1 / ratio) -
    /// difference`.
    pub open spec fn from_base(self, b: Exact) -> Exact {
        b.times(self.ratio.exact().inverse()).minus(self.difference.exact())
    }
}

/// Both ways of a well-formed scale lead from well-formed numbers to
/// well-formed numbers.
pub proof fn lemma_scale_well_formed(s: Scale, q: Exact)
    requires
        s.well_formed(),
        q.well_formed(),
    ensures
        s.to_base(q).well_formed(),
        s.from_base(q).well_formed(),
{
    let d = s.difference.exact();
    let r = s.ratio.exact();
    lemma_well_formed(q, d);
    lemma_well_formed(q.plus(d), r);
    lemma_well_formed(r, r);
    lemma_well_formed(q, r.inverse());
    lemma_well_formed(q.times(r.inverse()), d);
}

/// Both ways of a scale give the same number for quotients that stand for
/// the same number.
pub proof fn lemma_scale_same(s: Scale, p: Exact, q: Exact)
    requires
        p.same(q),
    ensures
        s.to_base(p).same(s.to_base(q)),
        s.from_base(p).same(s.from_base(q)),
{
    let d = s.difference.exact();
    let r = s.ratio.exact();
    lemma_plus_same(p, q, d);
    lemma_times_same(p.plus(d), q.plus(d), r);
    lemma_times_same(p, q, r.inverse());
    lemma_minus_same(p.times(r.inverse()), q.times(r.inverse()), d);
}

/// The two ways of a scale undo one another: a quantity that is taken to
/// the base unit and back is the quantity again, and so is one that is taken
/// from the base unit and back to it.
pub proof fn lemma_scale_round_trip(s: Scale, q: Exact)
    requires
        s.well_formed(),
        q.well_formed(),
    ensures
        s.from_base(s.to_base(q)).same(q),
        s.to_base(s.from_base(q)).same(q),
{
    let d = s.difference.exact();
    let r = s.ratio.exact();
    let i = r.inverse();
    lemma_well_formed(q, d);
    lemma_well_formed(r, r);
    lemma_well_formed(q, i);
    // there and back
    lemma_times_inverse(q.plus(d), r);
    lemma_minus_same(q.plus(d).times(r).times(i), q.plus(d), d);
    lemma_plus_minus(q, d);
    lemma_well_formed(q.plus(d), d);
    lemma_same_transitive(s.from_base(s.to_base(q)), q.plus(d).minus(d), q);
    // back and there
    lemma_plus_minus(q.times(i), d);
    lemma_times_same(q.times(i).minus(d).plus(d), q.times(i), r);
    lemma_times_inverse(q, r);
    lemma_well_formed(q.times(i), r);
    lemma_same_transitive(s.to_base(s.from_base(q)), q.times(i).times(r), q);
}

/// The scale of a base unit leaves a quantity as it is, both ways.
pub proof fn lemma_identity_scale(s: Scale, q: Exact)
    requires
        s.is_identity(),
        q.well_formed(),
    ensures
        s.to_base(q).same(q),
        s.from_base(q).same(q),
{
    let d = s.difference.exact();
    let r = s.ratio.exact();
    let n = r.num;
    assert(r.den == n && d.num == 0 && n > 0);
    assert(r.inverse() == r);
    assert(((q.num * d.den + 0 * q.den) * n) * q.den == q.num * ((q.den * d.den) * n))
        by (nonlinear_arith);
    assert(((q.num * n) * d.den - 0 * (q.den * n)) * q.den == q.num * ((q.den * n) * d.den))
        by (nonlinear_arith);
}

/// A unit of measurement within a family.
#[derive(Debug, Clone, PartialEq, Eq)]
pub struct Unit {
    /// The names of the unit in lower case, the singular first.
    pub names: Vec<String>,
    /// The symbol of the unit in lower case, such as `m` for meters.
    pub symbol: String,
    /// The factor that leads to the base unit.
    pub ratio: Fraction,
    /// What is added before that factor is applied.
    pub difference: Fraction,
}

/// A `Unit` with its texts as sequences.
pub struct UnitView {
    pub names: Seq<Seq<char>>,
    pub symbol: Seq<char>,
    pub ratio: Fraction,
    pub difference: Fraction,
}

impl UnitView {
    /// The unit that `Unit::new` makes of these arguments.
    pub open spec fn made(
        names: Seq<Seq<char>>,
        symbol: Seq<char>,
        ratio: Fraction,
        difference: Fraction,
    ) -> UnitView {
        UnitView {
            names: names.map_values(|n: Seq<char>| lowercase(n)),
            symbol: lowercase(symbol),
            ratio,
            difference,
        }
    }

    /// Whether the unit goes by `token`, a text in lower case: one of its
    /// names is `token`, or its symbol is.
    pub open spec fn answers_to(self, token: Seq<char>) -> bool {
        self.names.contains(token) || self.symbol == token
    }

    /// The ratio and the difference of the unit.
    pub open spec fn scale(self) -> Scale {
        Scale { ratio: self.ratio, difference: self.difference }
    }

    /// The unit has a name, and its scale is well formed.
    pub open spec fn well_formed(self) -> bool {
        &&& self.names.len() > 0
        &&& self.scale().well_formed()
    }
}

impl View for Unit {
    type V = UnitView;

    open spec fn view(&self) -> UnitView {
        UnitView {
            names: self.names@.map_values(|n: String| n@),
            symbol: self.symbol@,
            ratio: self.ratio,
            difference: self.difference,
        }
    }
}

impl Unit {
    /// A unit with the given names and symbol, each put in lower case.
    pub fn new(names: Vec<&str>, sym: &str, ratio: Fraction, difference: Fraction) -> (r: Unit)
        ensures
            r@ == UnitView::made(names@.map_values(|n: &str| n@), sym@, ratio, difference),
    {
        let mut lowered: Vec<String> = Vec::new();
        let mut i: usize = 0;
        while i < names.len()
            invariant
                i <= names.len(),
                lowered.len() == i,
                forall|k: int| 0 <= k < i ==> (#[trigger] lowered@[k])@ == lowercase(names@[k]@),
            decreases names.len() - i,
        {
            lowered.push(to_lowercase(names[i]));
            i += 1;
        }
        let r = Unit { names: lowered, symbol: to_lowercase(sym), ratio, difference };
        assert(r@.names =~= names@.map_values(|n: &str| n@).map_values(
            |n: Seq<char>| lowercase(n),
        ));
        r
    }

    /// The ratio and the difference of the unit.
    pub fn scale(&self) -> (r: Scale)
        ensures
            r == self@.scale(),
    {
        Scale { ratio: self.ratio, difference: self.difference }
    }

    /// Whether the unit goes by `token`, a text in lower case.
    pub fn answers_to(&self, token: &String) -> (r: bool)
        ensures
            r == self@.answers_to(token@),
    {
        let mut i: usize = 0;
        while i < self.names.len()
            invariant
                i <= self.names.len(),
                forall|k: int| 0 <= k < i ==> (#[trigger] self.names@[k])@ != token@,
            decreases self.names.len() - i,
        {
            if self.names[i] == *token {
                assert(self@.names[i as int] == token@);
                return true;
            }
            i += 1;
        }
        assert(!self@.names.contains(token@)) by {
            if self@.names.contains(token@) {
                let k = choose|k: int| 0 <= k < self@.names.len() && self@.names[k] == token@;
                assert(self.names@[k]@ == token@);
            }
        }
        self.symbol == *token
    }
}

} // verus!
