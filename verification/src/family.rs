//! Families of units that convert into one another through a base unit.

use vstd::prelude::*;
use crate::error::{ConvertError, ConvertErrorView};
use crate::text::{lowercase, to_lowercase};
use crate::exact::{lemma_same_transitive, Exact};
use crate::unit::{
    lemma_identity_scale,
    lemma_scale_round_trip,
    lemma_scale_same,
    lemma_scale_well_formed,
    Scale,
    Unit,
    UnitView,
};

verus! {

/// How a quantity gets from one unit to another.
#[derive(Debug, Clone, Copy, PartialEq, Eq)]
pub enum Conversion {
    /// Source and target are the same token: the value stays as it is.
    Unchanged,
    /// The quantity is taken to the base unit by `source`, or it is of the
    /// base unit already where `source` is `None`; from the base unit it is
    /// taken to the target unit by `target`.
    Through { source: Option<Scale>, target: Scale },
}

impl Conversion {
    /// The quantity that the conversion makes of the quantity `q`.
    pub open spec fn apply(self, q: Exact) -> Exact {
        match self {
            Conversion::Unchanged => q,
            Conversion::Through { source, target } => target.from_base(
                match source {
                    Some(s) => s.to_base(q),
                    None => q,
                },
            ),
        }
    }
}

/// A family of measurements, such as lengths or temperatures.
#[derive(Debug, Clone, PartialEq, Eq)]
pub struct Family {
    pub id: String,
    pub units: Vec<Unit>,
    pub base_unit: String,
}

/// A `Family` with its texts and units as sequences.
pub struct FamilyView {
    pub id: Seq<char>,
    pub units: Seq<UnitView>,
    pub base_unit: Seq<char>,
}

impl FamilyView {
    /// The unit at `i` is the first that goes by `token`, a text in lower
    /// case.
    pub open spec fn is_first(self, token: Seq<char>, i: int) -> bool {
        &&& 0 <= i < self.units.len()
        &&& self.units[i].answers_to(token)
        &&& forall|j: int| 0 <= j < i ==> !(#[trigger] self.units[j]).answers_to(token)
    }

    /// The place of the unit that `token` means: the first unit that goes by
    /// the token in lower case.
    pub open spec fn find(self, token: Seq<char>) -> Option<int> {
        let t = lowercase(token);
        if exists|i: int| self.is_first(t, i) {
            Some(choose|i: int| self.is_first(t, i))
        } else {
            None
        }
    }

    /// Whether the family holds a unit that `token` means.
    pub open spec fn can_convert(self, token: Seq<char>) -> bool {
        self.find(token) is Some
    }

    /// The scale that takes a quantity of the unit `from` to the base unit.
    pub open spec fn to_base_unit(self, from: Seq<char>) -> Result<Scale, ConvertErrorView> {
        match self.find(from) {
            Some(i) => Ok(self.units[i].scale()),
            None => Err(ConvertErrorView::UnknownUnit { unit: from }),
        }
    }

    /// The scale that takes a quantity of the base unit to the unit `to`.
    pub open spec fn to_dest_unit(self, to: Seq<char>) -> Result<Scale, ConvertErrorView> {
        match self.find(to) {
            Some(i) => Ok(self.units[i].scale()),
            None => Err(
                ConvertErrorView::ConversionTarget { base_unit: self.base_unit, target: to },
            ),
        }
    }

    /// How a quantity of the unit `from` becomes one of the unit `to`.
    pub open spec fn conversion(self, from: Seq<char>, to: Seq<char>) -> Result<
        Conversion,
        ConvertErrorView,
    > {
        if from == to {
            Ok(Conversion::Unchanged)
        } else if from == self.base_unit {
            match self.to_dest_unit(to) {
                Ok(target) => Ok(Conversion::Through { source: None, target }),
                Err(e) => Err(e),
            }
        } else {
            match self.to_base_unit(from) {
                Ok(source) => match self.to_dest_unit(to) {
                    Ok(target) => Ok(Conversion::Through { source: Some(source), target }),
                    Err(e) => Err(e),
                },
                Err(e) => Err(e),
            }
        }
    }

    /// Every unit is well formed, and the base unit is a unit of the family
    /// whose scale leaves a quantity as it is.
    pub open spec fn well_formed(self) -> bool {
        &&& forall|i: int| 0 <= i < self.units.len() ==> (#[trigger] self.units[i]).well_formed()
        &&& self.find(self.base_unit) matches Some(b) && self.units[b].scale().is_identity()
    }
}

impl View for Family {
    type V = FamilyView;

    open spec fn view(&self) -> FamilyView {
        FamilyView {
            id: self.id@,
            units: self.units@.map_values(|u: Unit| u@),
            base_unit: self.base_unit@,
        }
    }
}

/// The first unit that goes by a token is the one that `find` names.
pub proof fn lemma_find_is(f: FamilyView, token: Seq<char>, i: int)
    requires
        f.is_first(lowercase(token), i),
    ensures
        f.find(token) == Some(i),
{
    let t = lowercase(token);
    let c = choose|c: int| f.is_first(t, c);
    assert(f.is_first(t, c));
    if c < i {
        assert(!f.units[c].answers_to(t));
    }
    if i < c {
        assert(!f.units[i].answers_to(t));
    }
}

/// What `find` names is the first unit that goes by the token; it names
/// nothing only where no unit goes by it.
pub proof fn lemma_find(f: FamilyView, token: Seq<char>)
    ensures
        match f.find(token) {
            Some(i) => f.is_first(lowercase(token), i),
            None => forall|j: int|
                0 <= j < f.units.len() ==> !(#[trigger] f.units[j]).answers_to(lowercase(token)),
        },
{
    let t = lowercase(token);
    if f.find(token) is None {
        assert forall|j: int| 0 <= j < f.units.len() implies !(#[trigger] f.units[j]).answers_to(
            t,
        ) by {
            if f.units[j].answers_to(t) {
                lemma_first_exists(f, t, j);
            }
        }
    }
}

/// Where some unit goes by a token, a first one does, and it comes no later.
pub proof fn lemma_first_exists(f: FamilyView, token: Seq<char>, j: int)
    requires
        0 <= j < f.units.len(),
        f.units[j].answers_to(token),
    ensures
        exists|i: int| 0 <= i <= j && f.is_first(token, i),
    decreases j,
{
    if exists|k: int| 0 <= k < j && (#[trigger] f.units[k]).answers_to(token) {
        let k = choose|k: int| 0 <= k < j && (#[trigger] f.units[k]).answers_to(token);
        lemma_first_exists(f, token, k);
    } else {
        assert(f.is_first(token, j));
    }
}

/// Lookup does not see the case of letters: two tokens that are the same in
/// lower case mean the same unit.
pub proof fn lemma_find_ignores_case(f: FamilyView, a: Seq<char>, b: Seq<char>)
    requires
        lowercase(a) == lowercase(b),
    ensures
        f.find(a) == f.find(b),
        f.can_convert(a) == f.can_convert(b),
{
}

/// A value that is asked for in the unit it already has stays unchanged,
/// whatever the token is.
pub proof fn lemma_same_token_unchanged(f: FamilyView, token: Seq<char>)
    ensures
        f.conversion(token, token) == Ok::<Conversion, ConvertErrorView>(Conversion::Unchanged),
{
}

/// A source token that is neither the target, nor the base unit as the
/// family writes it, nor the token of any unit, is reported as unknown, and
/// the target is not looked at.
pub proof fn lemma_unknown_source(f: FamilyView, from: Seq<char>, to: Seq<char>)
    requires
        from != to,
        from != f.base_unit,
        !f.can_convert(from),
    ensures
        f.conversion(from, to) == Err::<Conversion, ConvertErrorView>(
            ConvertErrorView::UnknownUnit { unit: from },
        ),
{
}

/// A target token that no unit of the family goes by is reported together
/// with the base unit, once the source is known and differs from the target.
pub proof fn lemma_unknown_target(f: FamilyView, from: Seq<char>, to: Seq<char>)
    requires
        from != to,
        f.can_convert(from) || from == f.base_unit,
        !f.can_convert(to),
    ensures
        f.conversion(from, to) == Err::<Conversion, ConvertErrorView>(
            ConvertErrorView::ConversionTarget { base_unit: f.base_unit, target: to },
        ),
{
}

/// Between two different tokens that the family knows, a conversion is
/// made of the scales of the two units that the tokens mean.
pub proof fn lemma_known_units_convert(f: FamilyView, from: Seq<char>, to: Seq<char>)
    requires
        from != to,
        f.can_convert(from),
        f.can_convert(to),
    ensures
        f.conversion(from, to) == Ok::<Conversion, ConvertErrorView>(
            Conversion::Through {
                source: if from == f.base_unit {
                    None
                } else {
                    Some(f.units[f.find(from)->Some_0].scale())
                },
                target: f.units[f.find(to)->Some_0].scale(),
            },
        ),
{
}

/// The way back uses the same two scales in each other's place.
pub proof fn lemma_conversion_reverses(
    f: FamilyView,
    from: Seq<char>,
    to: Seq<char>,
    source: Scale,
    target: Scale,
)
    requires
        f.conversion(from, to) == Ok::<Conversion, ConvertErrorView>(
            Conversion::Through { source: Some(source), target },
        ),
        to != f.base_unit,
    ensures
        f.conversion(to, from) == Ok::<Conversion, ConvertErrorView>(
            Conversion::Through { source: Some(target), target: source },
        ),
{
}

/// Within a well-formed family, a quantity that is converted to another
/// unit and back is the quantity again.
pub proof fn lemma_round_trip(
    f: FamilyView,
    a: Seq<char>,
    b: Seq<char>,
    there: Conversion,
    back: Conversion,
    q: Exact,
)
    requires
        f.well_formed(),
        q.well_formed(),
        f.conversion(a, b) == Ok::<Conversion, ConvertErrorView>(there),
        f.conversion(b, a) == Ok::<Conversion, ConvertErrorView>(back),
    ensures
        back.apply(there.apply(q)).same(q),
{
    if a != b {
        lemma_find(f, a);
        lemma_find(f, b);
        let sa = f.units[f.find(a)->Some_0].scale();
        let sb = f.units[f.find(b)->Some_0].scale();
        assert(f.units[f.find(a)->Some_0].well_formed());
        assert(f.units[f.find(b)->Some_0].well_formed());
        if a == f.base_unit {
            // from the base unit to `b`, and back through the base unit's
            // own scale
            let x = sb.from_base(q);
            lemma_scale_well_formed(sb, q);
            lemma_scale_well_formed(sb, x);
            lemma_scale_round_trip(sb, q);
            lemma_identity_scale(sa, sb.to_base(x));
            lemma_same_transitive(sa.from_base(sb.to_base(x)), sb.to_base(x), q);
        } else if b == f.base_unit {
            let z = sa.to_base(q);
            lemma_scale_well_formed(sa, q);
            lemma_identity_scale(sb, z);
            lemma_scale_same(sa, sb.from_base(z), z);
            lemma_scale_round_trip(sa, q);
            lemma_scale_well_formed(sa, z);
            lemma_same_transitive(sa.from_base(sb.from_base(z)), sa.from_base(z), q);
        } else {
            let z = sa.to_base(q);
            lemma_scale_well_formed(sa, q);
            lemma_scale_round_trip(sb, z);
            lemma_scale_same(sa, sb.to_base(sb.from_base(z)), z);
            lemma_scale_round_trip(sa, q);
            lemma_scale_well_formed(sa, z);
            lemma_same_transitive(
                sa.from_base(sb.to_base(sb.from_base(z))),
                sa.from_base(z),
                q,
            );
        }
    } else {
        assert(q.num * q.den == q.num * q.den);
    }
}

impl Family {
    /// The first unit of the family that `unit` means, whatever the case of
    /// its letters.
    pub fn find_unit(&self, unit: &str) -> (r: Option<&Unit>)
        ensures
            match self@.find(unit@) {
                Some(i) => r == Some(&self.units@[i]),
                None => r is None,
            },
    {
        let token = to_lowercase(unit);
        let mut i: usize = 0;
        while i < self.units.len()
            invariant
                i <= self.units.len(),
                token@ == lowercase(unit@),
                forall|j: int| 0 <= j < i ==> !(#[trigger] self@.units[j]).answers_to(token@),
            decreases self.units.len() - i,
        {
            if self.units[i].answers_to(&token) {
                proof {
                    assert(self@.units[i as int] == self.units@[i as int]@);
                    lemma_find_is(self@, unit@, i as int);
                }
                return Some(&self.units[i]);
            }
            assert(self@.units[i as int] == self.units@[i as int]@);
            i += 1;
        }
        proof {
            lemma_find(self@, unit@);
            if self@.find(unit@) is Some {
                let k = self@.find(unit@)->Some_0;
                assert(self@.units[k].answers_to(token@));
            }
        }
        None
    }

    /// Whether the family holds the given unit.
    pub fn can_convert(&self, unit: &str) -> (r: bool)
        ensures
            r == self@.can_convert(unit@),
    {
        self.find_unit(unit).is_some()
    }

    /// The scale that takes a quantity of the unit `from` to the base unit.
    /// A token that no unit goes by is reported as an unknown unit.
    pub fn to_base_unit(&self, from: &str) -> (r: Result<Scale, ConvertError>)
        ensures
            match self@.to_base_unit(from@) {
                Ok(scale) => r == Ok::<Scale, ConvertError>(scale),
                Err(e) => r is Err && r->Err_0@ == e,
            },
    {
        match self.find_unit(from) {
            Some(u) => {
                proof {
                    let i = self@.find(from@)->Some_0;
                    lemma_find(self@, from@);
                    assert(self@.units[i] == self.units@[i]@);
                }
                Ok(u.scale())
            },
            None => Err(ConvertError::UnknownUnit { unit: from.to_owned() }),
        }
    }

    /// The scale that takes a quantity of the base unit to the unit `to`. A
    /// token that no unit goes by is reported with the base unit.
    pub fn to_dest_unit(&self, to: &str) -> (r: Result<Scale, ConvertError>)
        ensures
            match self@.to_dest_unit(to@) {
                Ok(scale) => r == Ok::<Scale, ConvertError>(scale),
                Err(e) => r is Err && r->Err_0@ == e,
            },
    {
        match self.find_unit(to) {
            Some(u) => {
                proof {
                    let i = self@.find(to@)->Some_0;
                    lemma_find(self@, to@);
                    assert(self@.units[i] == self.units@[i]@);
                }
                Ok(u.scale())
            },
            None => Err(
                ConvertError::ConversionTarget {
                    base_unit: self.base_unit.clone(),
                    target: to.to_owned(),
                },
            ),
        }
    }

    /// How a quantity of the unit `from` becomes one of the unit `to`. With
    /// the same token on both sides nothing is looked up and the value stays
    /// unchanged. Otherwise the quantity goes to the base unit first, unless
    /// `from` is the base unit as the family writes it, and from there to
    /// the target.
    pub fn convert(&self, from: &str, to: &str) -> (r: Result<Conversion, ConvertError>)
        ensures
            match self@.conversion(from@, to@) {
                Ok(c) => r == Ok::<Conversion, ConvertError>(c),
                Err(e) => r is Err && r->Err_0@ == e,
            },
    {
        let source_token = from.to_owned();
        if source_token == to.to_owned() {
            return Ok(Conversion::Unchanged);
        }
        let source = if source_token == self.base_unit {
            None
        } else {
            match self.to_base_unit(from) {
                Ok(scale) => Some(scale),
                Err(e) => {
                    return Err(e);
                },
            }
        };
        match self.to_dest_unit(to) {
            Ok(target) => Ok(Conversion::Through { source, target }),
            Err(e) => Err(e),
        }
    }
}

} // verus!
