//! The families that are known, in the order in which they are asked.

use vstd::prelude::*;
use crate::error::{ConvertError, ConvertErrorView};
use crate::family::{Conversion, Family, FamilyView};
use crate::length::lengths;
use crate::temperature::temperatures;
use crate::unit::Unit;

verus! {

/// The families among which a unit is looked for. A registry is built once
/// and only read after that.
#[derive(Debug, Clone, PartialEq, Eq)]
pub struct Registry {
    pub families: Vec<Family>,
}

/// A `Registry` with its families as a sequence.
pub struct RegistryView {
    pub families: Seq<FamilyView>,
}

impl RegistryView {
    /// The family at `i` is the first that holds a unit that `token` means.
    pub open spec fn is_first(self, token: Seq<char>, i: int) -> bool {
        &&& 0 <= i < self.families.len()
        &&& self.families[i].can_convert(token)
        &&& forall|j: int| 0 <= j < i ==> !(#[trigger] self.families[j]).can_convert(token)
    }

    /// The place of the family that owns `token`: the first one that holds
    /// a unit that the token means.
    pub open spec fn family_of(self, token: Seq<char>) -> Option<int> {
        if exists|i: int| self.is_first(token, i) {
            Some(choose|i: int| self.is_first(token, i))
        } else {
            None
        }
    }

    /// How a quantity of the unit `from` becomes one of the unit `to`: as
    /// the family that owns `from` says, and not at all where no family
    /// owns it.
    pub open spec fn conversion(self, from: Seq<char>, to: Seq<char>) -> Result<
        Conversion,
        ConvertErrorView,
    > {
        match self.family_of(from) {
            Some(i) => self.families[i].conversion(from, to),
            None => Err(ConvertErrorView::UnknownUnit { unit: from }),
        }
    }

    /// No two families have the same identifier.
    pub open spec fn distinct_ids(self) -> bool {
        forall|i: int, j: int|
            0 <= i < j < self.families.len() ==> (#[trigger] self.families[i]).id
                != (#[trigger] self.families[j]).id
    }

    /// Every family is well formed, and each has an identifier of its own.
    pub open spec fn well_formed(self) -> bool {
        &&& forall|i: int|
            0 <= i < self.families.len() ==> (#[trigger] self.families[i]).well_formed()
        &&& self.distinct_ids()
    }
}

impl View for Registry {
    type V = RegistryView;

    open spec fn view(&self) -> RegistryView {
        RegistryView { families: self.families@.map_values(|f: Family| f@) }
    }
}

/// The registry of the families that come with the library: lengths, then
/// temperatures.
pub open spec fn builtin() -> RegistryView {
    RegistryView { families: seq![lengths(), temperatures()] }
}

/// The first family that owns a token is the one that `family_of` names.
pub proof fn lemma_family_of_is(r: RegistryView, token: Seq<char>, i: int)
    requires
        r.is_first(token, i),
    ensures
        r.family_of(token) == Some(i),
{
    let c = choose|c: int| r.is_first(token, c);
    assert(r.is_first(token, c));
    if c < i {
        assert(!r.families[c].can_convert(token));
    }
    if i < c {
        assert(!r.families[i].can_convert(token));
    }
}

/// Where some family owns a token, a first one does, and it comes no later.
pub proof fn lemma_first_family_exists(r: RegistryView, token: Seq<char>, j: int)
    requires
        0 <= j < r.families.len(),
        r.families[j].can_convert(token),
    ensures
        exists|i: int| 0 <= i <= j && r.is_first(token, i),
    decreases j,
{
    if exists|k: int| 0 <= k < j && (#[trigger] r.families[k]).can_convert(token) {
        let k = choose|k: int| 0 <= k < j && (#[trigger] r.families[k]).can_convert(token);
        lemma_first_family_exists(r, token, k);
    } else {
        assert(r.is_first(token, j));
    }
}

/// What `family_of` names is the first family that owns the token; it names
/// nothing only where no family owns it.
pub proof fn lemma_family_of(r: RegistryView, token: Seq<char>)
    ensures
        match r.family_of(token) {
            Some(i) => r.is_first(token, i),
            None => forall|j: int|
                0 <= j < r.families.len() ==> !(#[trigger] r.families[j]).can_convert(token),
        },
{
    if r.family_of(token) is None {
        assert forall|j: int| 0 <= j < r.families.len() implies !(#[trigger] r.families[j]).can_convert(
            token,
        ) by {
            if r.families[j].can_convert(token) {
                lemma_first_family_exists(r, token, j);
            }
        }
    }
}

/// The owning family is found without regard to the case of letters.
pub proof fn lemma_family_of_ignores_case(r: RegistryView, a: Seq<char>, b: Seq<char>)
    requires
        crate::text::lowercase(a) == crate::text::lowercase(b),
    ensures
        r.family_of(a) == r.family_of(b),
        r.family_of(a) matches Some(i) ==> r.families[i].find(a) == r.families[i].find(b),
{
    lemma_family_of(r, a);
    lemma_family_of(r, b);
    match r.family_of(a) {
        Some(i) => {
            assert(r.is_first(b, i));
            lemma_family_of_is(r, b, i);
        },
        None => {
            if r.family_of(b) is Some {
                let j = r.family_of(b)->Some_0;
                assert(r.families[j].can_convert(a));
            }
        },
    }
}

/// A value of a known unit that is asked for in the unit it already has
/// stays unchanged.
pub proof fn lemma_same_unit_unchanged(r: RegistryView, token: Seq<char>)
    requires
        r.family_of(token) is Some,
    ensures
        r.conversion(token, token) == Ok::<Conversion, ConvertErrorView>(Conversion::Unchanged),
{
}

/// A source token that no family knows is reported as an unknown unit,
/// whatever the target is.
pub proof fn lemma_unknown_source_unit(r: RegistryView, from: Seq<char>, to: Seq<char>)
    requires
        forall|j: int| 0 <= j < r.families.len() ==> !(#[trigger] r.families[j]).can_convert(from),
    ensures
        r.conversion(from, to) == Err::<Conversion, ConvertErrorView>(
            ConvertErrorView::UnknownUnit { unit: from },
        ),
{
    lemma_family_of(r, from);
}

/// A target token that the family of the source does not know is reported
/// with that family's base unit, whether or not another family knows it:
/// nothing leads from one family to another.
pub proof fn lemma_unknown_target_unit(r: RegistryView, from: Seq<char>, to: Seq<char>, i: int)
    requires
        r.is_first(from, i),
        from != to,
        !r.families[i].can_convert(to),
    ensures
        r.conversion(from, to) == Err::<Conversion, ConvertErrorView>(
            ConvertErrorView::ConversionTarget { base_unit: r.families[i].base_unit, target: to },
        ),
{
    lemma_family_of_is(r, from, i);
}

impl Registry {
    /// A registry of the given families, asked in the given order.
    pub fn new(families: Vec<Family>) -> (r: Registry)
        ensures
            r.families == families,
    {
        Registry { families }
    }

    /// The registry of the families that come with the library.
    pub fn builtin() -> (r: Registry)
        ensures
            r@ == builtin(),
            r@.well_formed(),
    {
        let mut families: Vec<Family> = Vec::new();
        families.push(crate::length::family());
        families.push(crate::temperature::family());
        let r = Registry { families };
        proof {
            assert(r@.families =~= builtin().families);
            lemma_builtin_well_formed();
        }
        r
    }

    /// The first family that holds a unit that `unit` means.
    pub fn family_of(&self, unit: &str) -> (r: Option<&Family>)
        ensures
            match self@.family_of(unit@) {
                Some(i) => r == Some(&self.families@[i]),
                None => r is None,
            },
    {
        let mut i: usize = 0;
        while i < self.families.len()
            invariant
                i <= self.families.len(),
                forall|j: int| 0 <= j < i ==> !(#[trigger] self@.families[j]).can_convert(unit@),
            decreases self.families.len() - i,
        {
            assert(self@.families[i as int] == self.families@[i as int]@);
            if self.families[i].can_convert(unit) {
                proof {
                    lemma_family_of_is(self@, unit@, i as int);
                }
                return Some(&self.families[i]);
            }
            i += 1;
        }
        proof {
            lemma_family_of(self@, unit@);
        }
        None
    }

    /// How a quantity of the unit `from` becomes one of the unit `to`. The
    /// family is the first that holds a unit that `from` means; a token that
    /// no family knows is reported as an unknown unit, whatever the target.
    pub fn convert(&self, from: &str, to: &str) -> (r: Result<Conversion, ConvertError>)
        ensures
            match self@.conversion(from@, to@) {
                Ok(c) => r == Ok::<Conversion, ConvertError>(c),
                Err(e) => r is Err && r->Err_0@ == e,
            },
    {
        match self.family_of(from) {
            Some(family) => {
                proof {
                    let i = self@.family_of(from@)->Some_0;
                    lemma_family_of(self@, from@);
                    assert(self@.families[i] == self.families@[i]@);
                }
                family.convert(from, to)
            },
            None => Err(ConvertError::UnknownUnit { unit: from.to_owned() }),
        }
    }

    /// The units of each family under the family's identifier, in the order
    /// of the registry. Where the families have identifiers of their own, no
    /// identifier is listed twice.
    pub fn units(&self) -> (r: Vec<(&str, &Vec<Unit>)>)
        ensures
            r.len() == self.families.len(),
            forall|i: int|
                0 <= i < r.len() ==> (#[trigger] r[i]).0@ == self.families[i].id@ && r[i].1
                    == &self.families[i].units,
            self@.distinct_ids() ==> forall|i: int, j: int|
                0 <= i < j < r.len() ==> (#[trigger] r[i]).0@ != (#[trigger] r[j]).0@,
    {
        let mut out: Vec<(&str, &Vec<Unit>)> = Vec::new();
        let mut i: usize = 0;
        while i < self.families.len()
            invariant
                i <= self.families.len(),
                out.len() == i,
                forall|k: int|
                    0 <= k < i ==> (#[trigger] out[k]).0@ == self.families[k].id@ && out[k].1
                        == &self.families[k].units,
            decreases self.families.len() - i,
        {
            out.push((self.families[i].id.as_str(), &self.families[i].units));
            i += 1;
        }
        proof {
            if self@.distinct_ids() {
                assert forall|i: int, j: int| 0 <= i < j < out.len() implies (#[trigger] out[i]).0@
                    != (#[trigger] out[j]).0@ by {
                    assert(self@.families[i].id == self.families[i].id@);
                    assert(self@.families[j].id == self.families[j].id@);
                }
            }
        }
        out
    }
}

/// The registry that comes with the library is well formed.
pub proof fn lemma_builtin_well_formed()
    ensures
        builtin().well_formed(),
{
    crate::length::lemma_lengths_well_formed();
    crate::temperature::lemma_temperatures_well_formed();
    reveal_strlit("Lengths");
    reveal_strlit("Temperature");
    assert("Lengths"@.len() != "Temperature"@.len());
}

} // verus!
