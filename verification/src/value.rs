//! Values as they are written, and the grammar that reads them.
//!
//! A text is read by the pattern `^\s*(-?\d+\.?\d*)\s*([^s]+)\s*$`: white
//! space, a decimal number, white space, a unit token that holds no letter
//! `s`, white space. Each part takes as much of the text as it can while the
//! parts after it can still match, the earlier part first. The number may be
//! written in the digits of any script; only one in the digits `0` to `9` is
//! a quantity.

use vstd::prelude::*;
use crate::error::ParseValueError;
use crate::text::{
    all_digits,
    all_space,
    char_is_digit,
    chars_of,
    is_digit,
    is_plain_digit,
    is_space,
    lowercase,
    skip_digits,
    skip_spaces,
    to_lowercase,
};

verus! {

/// A quantity paired with a unit token. The quantity is held as its decimal
/// literal; the token is not checked against any family.
#[derive(Debug, Clone, PartialEq, Eq)]
pub struct Value {
    pub quantity: String,
    pub unit: String,
}

/// The places at which a text divides into a number and a unit token: the
/// number is the characters from `number_start` up to `number_end`, the token
/// those from `unit_start` up to `unit_end`.
pub struct Split {
    pub number_start: int,
    pub number_end: int,
    pub unit_start: int,
    pub unit_end: int,
}

/// Where the digits of a number begin that starts at `from`: behind its sign,
/// if it has one.
pub open spec fn digits_start(s: Seq<char>, from: int, to: int) -> int {
    if from < to && s[from] == '-' {
        from + 1
    } else {
        from
    }
}

/// The characters of `s` from `from` up to `to` are a decimal number: an
/// optional `-`, a digit, then digits with at most one `.` among them.
pub open spec fn is_number(s: Seq<char>, from: int, to: int) -> bool {
    let first = digits_start(s, from, to);
    &&& first < to
    &&& is_digit(s[first])
    &&& forall|i: int| first <= i < to ==> is_digit(#[trigger] s[i]) || s[i] == '.'
    &&& forall|i: int, j: int|
        first <= i < j < to ==> !(#[trigger] s[i] == '.' && #[trigger] s[j] == '.')
}

/// The characters of `s` from `from` up to `to` are a unit token: at least
/// one character, none of them the letter `s`.
pub open spec fn is_token(s: Seq<char>, from: int, to: int) -> bool {
    &&& from < to
    &&& forall|i: int| from <= i < to ==> #[trigger] s[i] != 's'
}

/// `m` divides the whole of `s` as the grammar asks.
pub open spec fn splits(s: Seq<char>, m: Split) -> bool {
    &&& 0 <= m.number_start <= m.number_end <= m.unit_start < m.unit_end <= s.len()
    &&& all_space(s, 0, m.number_start)
    &&& is_number(s, m.number_start, m.number_end)
    &&& all_space(s, m.number_end, m.unit_start)
    &&& is_token(s, m.unit_start, m.unit_end)
    &&& all_space(s, m.unit_end, s.len() as int)
}

/// `m` gives at least as much to the earlier parts as `o` does: a longer
/// number, or the same number and more white space behind it, or both the
/// same and a token at least as long.
pub open spec fn prefers(m: Split, o: Split) -> bool {
    ||| m.number_end > o.number_end
    ||| m.number_end == o.number_end && m.unit_start > o.unit_start
    ||| m.number_end == o.number_end && m.unit_start == o.unit_start && m.unit_end
        >= o.unit_end
}

/// `m` is the division of `s` that the grammar picks.
pub open spec fn greedy(s: Seq<char>, m: Split) -> bool {
    &&& splits(s, m)
    &&& forall|o: Split| #[trigger] splits(s, o) ==> prefers(m, o)
}

/// The division of `s` that the grammar picks, if `s` can be divided at all.
pub open spec fn parsed(s: Seq<char>) -> Option<Split> {
    if exists|m: Split| greedy(s, m) {
        Some(choose|m: Split| greedy(s, m))
    } else {
        None
    }
}

/// Every digit of `s` from `from` up to `to` is one of `0` to `9`.
pub open spec fn is_plain(s: Seq<char>, from: int, to: int) -> bool {
    forall|i: int| from <= i < to && is_digit(#[trigger] s[i]) ==> is_plain_digit(s[i])
}

/// What `s` reads as: the literal of the quantity and the unit token in
/// lower case, or the description of what is wrong with `s`. A text that
/// the grammar cannot divide is an invalid value; a number in other digits
/// than `0` to `9` is an invalid float literal.
pub open spec fn reading(s: Seq<char>) -> Result<(Seq<char>, Seq<char>), Seq<char>> {
    match parsed(s) {
        Some(m) => if is_plain(s, m.number_start, m.number_end) {
            Ok(
                (
                    s.subrange(m.number_start, m.number_end),
                    lowercase(s.subrange(m.unit_start, m.unit_end)),
                ),
            )
        } else {
            Err("invalid float literal"@)
        },
        None => Err("invalid value"@),
    }
}

/// What a scan of `s` from its start finds: the number begins at `a`, its
/// digits at `p`, they end at `q`, the number at `r`, and the white space
/// behind it at `u`.
spec fn scanned(s: Seq<char>, a: int, p: int, q: int, r: int, u: int) -> bool {
    &&& 0 <= a <= p <= q <= r <= u <= s.len()
    &&& all_space(s, 0, a)
    &&& a < s.len() ==> !is_space(s[a])
    &&& p == digits_start(s, a, s.len() as int)
    &&& all_digits(s, p, q)
    &&& q < s.len() ==> !is_digit(s[q])
    &&& if q < s.len() && s[q] == '.' {
        &&& q + 1 <= r
        &&& all_digits(s, q + 1, r)
        &&& r < s.len() ==> !is_digit(s[r])
    } else {
        r == q
    }
    &&& all_space(s, r, u)
    &&& u < s.len() ==> !is_space(s[u])
}

/// No number is longer than the one a scan finds, and no white space behind
/// it reaches further.
proof fn lemma_scan_bounds(s: Seq<char>, a: int, p: int, q: int, r: int, u: int, o: Split)
    requires
        scanned(s, a, p, q, r, u),
        splits(s, o),
    ensures
        p < q,
        o.number_start == a,
        digits_start(s, o.number_start, o.number_end) == p,
        p < o.number_end <= r,
        o.unit_start <= u,
{
    let first = digits_start(s, o.number_start, o.number_end);
    assert(is_digit(s[first]) || s[first] == '-');
    assert(!is_space(s[o.number_start]));
    if o.number_start < a {
        assert(is_space(s[o.number_start]));
    }
    if a < o.number_start {
        assert(is_space(s[a]));
    }
    assert(first == p);
    if p == q {
        assert(is_digit(s[p]));
    }
    if o.number_end > r {
        assert(is_digit(s[r]) || s[r] == '.');
        if q < s.len() && s[q] == '.' {
            assert(!(s[q] == '.' && s[r] == '.'));
        }
    }
    if o.unit_start > u {
        assert(is_space(s[u]));
    }
}

/// A scan that finds the number well formed: it runs from `a` up to any end
/// behind its first digit that the scan reached.
proof fn lemma_scan_number(s: Seq<char>, a: int, p: int, q: int, r: int, u: int, end: int)
    requires
        scanned(s, a, p, q, r, u),
        p < q,
        p < end <= r,
    ensures
        is_number(s, a, end),
{
    assert(digits_start(s, a, end) == p);
    assert(is_digit(s[p]));
    assert forall|i: int| p <= i < end implies is_digit(#[trigger] s[i]) || s[i] == '.' by {
        if i < q {
            assert(is_digit(s[i]));
        } else if i > q {
            assert(is_digit(s[i]));
        }
    }
    assert forall|i: int, j: int| p <= i < j < end implies !(#[trigger] s[i] == '.'
        && #[trigger] s[j] == '.') by {
        if i != q {
            assert(is_digit(s[i]));
        }
        if j != q {
            assert(is_digit(s[j]));
        }
    }
}

/// The grammar picks one division at most.
pub proof fn lemma_greedy_unique(s: Seq<char>, m: Split, o: Split)
    requires
        greedy(s, m),
        greedy(s, o),
    ensures
        m == o,
{
    assert(prefers(m, o));
    assert(prefers(o, m));
    assert(!is_space(s[m.number_start])) by {
        let first = digits_start(s, m.number_start, m.number_end);
        assert(is_digit(s[first]) || s[first] == '-');
    }
    assert(!is_space(s[o.number_start])) by {
        let first = digits_start(s, o.number_start, o.number_end);
        assert(is_digit(s[first]) || s[first] == '-');
    }
    if m.number_start < o.number_start {
        assert(is_space(s[m.number_start]));
    }
    if o.number_start < m.number_start {
        assert(is_space(s[o.number_start]));
    }
}

/// A division that the grammar picks is the one that `parsed` names.
pub proof fn lemma_parsed_is(s: Seq<char>, m: Split)
    requires
        greedy(s, m),
    ensures
        parsed(s) == Some(m),
{
    let c = choose|c: Split| greedy(s, c);
    lemma_greedy_unique(s, m, c);
}

/// Where a text can be divided at all, one division gives the earlier
/// parts at least as much as every other does.
pub proof fn lemma_greedy_exists(s: Seq<char>, o: Split)
    requires
        splits(s, o),
    ensures
        exists|m: Split| greedy(s, m),
    decreases s.len() - o.number_end, s.len() - o.unit_start, s.len() - o.unit_end,
{
    if !greedy(s, o) {
        let better = choose|better: Split| splits(s, better) && !prefers(o, better);
        lemma_greedy_exists(s, better);
    }
}

/// A text reads as a value if and only if the grammar can divide it.
pub proof fn lemma_parsed_some_iff(s: Seq<char>)
    ensures
        parsed(s) is Some <==> exists|o: Split| splits(s, o),
{
    if exists|o: Split| splits(s, o) {
        let o = choose|o: Split| splits(s, o);
        lemma_greedy_exists(s, o);
    }
    if parsed(s) is Some {
        assert(splits(s, parsed(s)->Some_0));
    }
}

/// A text that cannot be divided reads as nothing.
proof fn lemma_parsed_none(s: Seq<char>)
    requires
        forall|o: Split| !splits(s, o),
    ensures
        parsed(s) is None,
{
}

/// What `parsed` names divides the text, and nothing is preferred to it.
pub proof fn lemma_parsed_splits(s: Seq<char>)
    requires
        parsed(s) is Some,
    ensures
        greedy(s, parsed(s)->Some_0),
{
}

/// A number keeps its form when it is cut out of the text around it.
proof fn lemma_number_alone(s: Seq<char>, from: int, to: int)
    requires
        0 <= from <= to <= s.len(),
        is_number(s, from, to),
    ensures
        is_number(s.subrange(from, to), 0, to - from),
        is_plain(s, from, to) ==> is_plain(s.subrange(from, to), 0, to - from),
{
    let t = s.subrange(from, to);
    let first = digits_start(s, from, to);
    assert(t[0] == s[from]);
    assert(digits_start(t, 0, to - from) == first - from);
    assert(t[first - from] == s[first]);
    assert forall|i: int| first - from <= i < to - from implies is_digit(#[trigger] t[i]) || t[i]
        == '.' by {
        assert(t[i] == s[i + from]);
    }
    assert forall|i: int, j: int| first - from <= i < j < to - from implies !(#[trigger] t[i]
        == '.' && #[trigger] t[j] == '.') by {
        assert(t[i] == s[i + from]);
        assert(t[j] == s[j + from]);
    }
    if is_plain(s, from, to) {
        assert forall|i: int| 0 <= i < to - from && is_digit(#[trigger] t[i]) implies is_plain_digit(
            t[i],
        ) by {
            assert(t[i] == s[i + from]);
        }
    }
}

/// Whether every digit of `cs` from `from` up to `to` is one of `0` to `9`.
fn plain(cs: &Vec<char>, from: usize, to: usize) -> (r: bool)
    requires
        from <= to <= cs.len(),
    ensures
        r == is_plain(cs@, from as int, to as int),
{
    let mut i: usize = from;
    while i < to
        invariant
            from <= i <= to <= cs.len(),
            is_plain(cs@, from as int, i as int),
        decreases to - i,
    {
        if char_is_digit(cs[i]) && !('0' <= cs[i] && cs[i] <= '9') {
            return false;
        }
        i += 1;
    }
    true
}

/// Whether no character of `cs` from `from` on is the letter `s`.
fn free_of_s(cs: &Vec<char>, from: usize) -> (r: bool)
    requires
        from <= cs.len(),
    ensures
        r == forall|i: int| from <= i < cs.len() ==> #[trigger] cs@[i] != 's',
{
    let mut i: usize = from;
    while i < cs.len()
        invariant
            from <= i <= cs.len(),
            forall|k: int| from <= k < i ==> #[trigger] cs@[k] != 's',
        decreases cs.len() - i,
    {
        if cs[i] == 's' {
            return false;
        }
        i += 1;
    }
    true
}

/// Where the grammar divides `cs`: number start, number end, unit start and
/// unit end, or nothing when `cs` cannot be divided.
fn divide(cs: &Vec<char>) -> (r: Option<(usize, usize, usize, usize)>)
    ensures
        match r {
            Some((a, b, c, d)) => a <= b <= c < d <= cs.len() && parsed(cs@) == Some(
                Split {
                    number_start: a as int,
                    number_end: b as int,
                    unit_start: c as int,
                    unit_end: d as int,
                },
            ),
            None => parsed(cs@) is None,
        },
{
    let n = cs.len();
    let a = skip_spaces(cs, 0);
    let p = if a < n && cs[a] == '-' {
        a + 1
    } else {
        a
    };
    let q = skip_digits(cs, p);
    let r = if q < n && cs[q] == '.' {
        skip_digits(cs, q + 1)
    } else {
        q
    };
    let u = skip_spaces(cs, r);
    let ghost s = cs@;
    assert(scanned(s, a as int, p as int, q as int, r as int, u as int));
    proof {
        assert forall|o: Split| #[trigger] splits(s, o) implies p < q && o.number_start == a && p
            < o.number_end <= r && o.unit_start <= u by {
            lemma_scan_bounds(s, a as int, p as int, q as int, r as int, u as int, o);
        }
    }
    if q == p {
        proof {
            lemma_parsed_none(s);
        }
        return None;
    }
    if u < n {
        // Something other than white space follows the number: all of it is
        // the token.
        if free_of_s(cs, u) {
            let ghost m = Split {
                number_start: a as int,
                number_end: r as int,
                unit_start: u as int,
                unit_end: n as int,
            };
            proof {
                lemma_scan_number(s, a as int, p as int, q as int, r as int, u as int, r as int);
                assert(splits(s, m));
                assert(greedy(s, m));
                lemma_parsed_is(s, m);
            }
            Some((a, r, u, n))
        } else {
            proof {
                let k = choose|k: int| u <= k < n && s[k] == 's';
                assert forall|o: Split| !splits(s, o) by {
                    if splits(s, o) {
                        if k < o.unit_end {
                            assert(s[k] != 's');
                        } else {
                            assert(is_space(s[k]));
                        }
                    }
                }
                lemma_parsed_none(s);
            }
            None
        }
    } else if r < u {
        // Only white space follows the number: its last character is the
        // token.
        let ghost m = Split {
            number_start: a as int,
            number_end: r as int,
            unit_start: n - 1,
            unit_end: n as int,
        };
        proof {
            lemma_scan_number(s, a as int, p as int, q as int, r as int, u as int, r as int);
            assert(is_space(s[n - 1]));
            assert(splits(s, m));
            assert(greedy(s, m));
            lemma_parsed_is(s, m);
        }
        Some((a, r, n - 1, n))
    } else if p + 1 < n {
        // The number runs to the end of the text: it gives its last
        // character up to the token.
        let ghost m = Split {
            number_start: a as int,
            number_end: n - 1,
            unit_start: n - 1,
            unit_end: n as int,
        };
        proof {
            lemma_scan_number(s, a as int, p as int, q as int, r as int, u as int, n - 1);
            lemma_scan_number(s, a as int, p as int, q as int, r as int, u as int, n as int);
            assert(is_digit(s[n - 1]) || s[n - 1] == '.');
            assert(splits(s, m));
            assert(greedy(s, m));
            lemma_parsed_is(s, m);
        }
        Some((a, n - 1, n - 1, n))
    } else {
        proof {
            lemma_parsed_none(s);
        }
        None
    }
}

impl Value {
    /// A value made of copies of the two texts.
    pub fn new(quantity: &str, unit: &str) -> (r: Value)
        ensures
            r.quantity@ == quantity@,
            r.unit@ == unit@,
    {
        Value { quantity: quantity.to_owned(), unit: unit.to_owned() }
    }

    /// The quantity is the literal of a decimal number in the digits `0` to
    /// `9`, which every float parser reads.
    pub open spec fn well_formed(&self) -> bool {
        &&& is_number(self.quantity@, 0, self.quantity@.len() as int)
        &&& is_plain(self.quantity@, 0, self.quantity@.len() as int)
    }

    /// Reads a text such as `100c` or `-12.3 km`. The quantity is the number
    /// as written, the unit is the token in lower case. A text that the
    /// grammar cannot divide is refused as an invalid value, and a number
    /// that is written in other digits than `0` to `9` with the words of the
    /// float parser, which does not read it.
    pub fn from_str(s: &str) -> (r: Result<Value, ParseValueError>)
        ensures
            match reading(s@) {
                Ok((quantity, unit)) => r is Ok && r->Ok_0.quantity@ == quantity && r->Ok_0.unit@
                    == unit && r->Ok_0.well_formed(),
                Err(description) => r is Err && r->Err_0@ == description,
            },
    {
        let cs = chars_of(s);
        match divide(&cs) {
            Some((a, b, c, d)) => {
                if !plain(&cs, a, b) {
                    return Err(ParseValueError::new("invalid float literal"));
                }
                let number = s.substring_char(a, b);
                let token = s.substring_char(c, d);
                proof {
                    lemma_parsed_splits(s@);
                    assert(is_number(s@, a as int, b as int));
                    lemma_number_alone(s@, a as int, b as int);
                }
                Ok(Value { quantity: number.to_owned(), unit: to_lowercase(token) })
            },
            None => Err(ParseValueError::new("invalid value")),
        }
    }
}

} // verus!
