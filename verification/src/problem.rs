//! A problem is an ordered, immutable set of at most eight properties;
//! checking a guess packs the per-property verdicts into one hint byte,
//! bit `i` standing for property `i`.

use crate::properties::GeneralProperty;
use vstd::arithmetic::power2::{lemma2_to64, lemma_pow2_strictly_increases, lemma_pow2_unfold, pow2};
use vstd::prelude::*;

verus! {

/// The hint encoding: bit 0 answers for the first property, and each
/// later property contributes the next binary place when it holds.
pub open spec fn hint_value(props: Seq<GeneralProperty>, by: u8) -> nat
    decreases props.len(),
{
    if props.len() == 0 {
        0
    } else {
        (if props[0].spec_fulfilled(by) {
            1nat
        } else {
            0nat
        }) + 2 * hint_value(props.skip(1), by)
    }
}

/// Binary digit `i` of `h` is set.
pub open spec fn hint_bit(h: nat, i: nat) -> bool
    decreases i,
{
    if i == 0 {
        h % 2 == 1
    } else {
        hint_bit(h / 2, (i - 1) as nat)
    }
}

/// A hint never needs more bits than there are properties.
pub proof fn lemma_hint_value_bound(props: Seq<GeneralProperty>, by: u8)
    ensures
        hint_value(props, by) < pow2(props.len()),
    decreases props.len(),
{
    if props.len() == 0 {
        lemma2_to64();
    } else {
        lemma_hint_value_bound(props.skip(1), by);
        lemma_pow2_unfold(props.len());
    }
}

/// Bit `i` of the hint answers exactly for property `i`: it is set just
/// when `props[i]` accepts the guess, whatever the other properties say.
pub proof fn lemma_hint_bit(props: Seq<GeneralProperty>, by: u8, i: nat)
    requires
        i < props.len(),
    ensures
        hint_bit(hint_value(props, by), i) == props[i as int].spec_fulfilled(by),
    decreases i,
{
    let rest = hint_value(props.skip(1), by);
    if i == 0 {
        if props[0].spec_fulfilled(by) {
            assert(hint_value(props, by) == 1 + 2 * rest);
        } else {
            assert(hint_value(props, by) == 2 * rest);
        }
    } else {
        assert(hint_value(props, by) / 2 == rest);
        assert(props.skip(1)[i - 1] == props[i as int]);
        lemma_hint_bit(props.skip(1), by, (i - 1) as nat);
    }
}

/// Bit `i` of the hint depends only on property `i` and the guess: two
/// problems that agree at position `i` get the same answer there.
pub proof fn lemma_hint_bit_is_local(
    props1: Seq<GeneralProperty>,
    props2: Seq<GeneralProperty>,
    by: u8,
    i: nat,
)
    requires
        i < props1.len(),
        i < props2.len(),
        props1[i as int] == props2[i as int],
    ensures
        hint_bit(hint_value(props1, by), i) == hint_bit(hint_value(props2, by), i),
{
    lemma_hint_bit(props1, by, i);
    lemma_hint_bit(props2, by, i);
}

/// Checking is deterministic: the hint is a function of the properties
/// and the guess alone, so two hints computed from them are equal.
pub proof fn lemma_check_deterministic(props: Seq<GeneralProperty>, by: u8, h1: u8, h2: u8)
    requires
        h1 as nat == hint_value(props, by),
        h2 as nat == hint_value(props, by),
    ensures
        h1 == h2,
{
}

/// An ordered collection of properties, fixed at construction; the
/// position of a property is its bit position in every hint.
pub struct Problem {
    properties: Vec<GeneralProperty>,
}

impl View for Problem {
    type V = Seq<GeneralProperty>;

    closed spec fn view(&self) -> Seq<GeneralProperty> {
        self.properties@
    }
}

impl Problem {
    /// At most eight properties — the hint is a single byte — and every
    /// parameter within its domain.
    #[verifier::type_invariant]
    pub open spec fn wf(&self) -> bool {
        &&& self@.len() <= 8
        &&& forall|i: int| 0 <= i < self@.len() ==> (#[trigger] self@[i]).wf()
    }

    /// Accept a hand-built property list: rejected unless it fits in one
    /// hint byte and every parameter lies within its domain.
    pub fn new(properties: Vec<GeneralProperty>) -> (r: Option<Problem>)
        ensures
            r is Some <==> (properties@.len() <= 8 && forall|i: int|
                0 <= i < properties@.len() ==> (#[trigger] properties@[i]).wf()),
            r matches Some(p) ==> p@ == properties@,
    {
        if properties.len() > 8 {
            return None;
        }
        let mut i: usize = 0;
        while i < properties.len()
            invariant
                i <= properties@.len(),
                forall|j: int| 0 <= j < i ==> (#[trigger] properties@[j]).wf(),
            decreases properties@.len() - i,
        {
            if !properties[i].is_valid() {
                return None;
            }
            i = i + 1;
        }
        Some(Problem { properties })
    }

    /// Generate a problem of `length` properties, walking the three
    /// families round-robin and drawing each property's parameters from
    /// the given source. More than eight properties cannot be encoded in
    /// the hint byte, so such a request is rejected.
    pub fn generate(length: u8, rng: &mut rand::rngs::StdRng) -> (r: Option<Problem>)
        ensures
            r is Some <==> length <= 8,
            r matches Some(p) ==> {
                &&& p@.len() == length
                &&& forall|i: int| 0 <= i < length ==> (#[trigger] p@[i]).wf()
                &&& forall|i: int| 0 <= i < length && #[trigger] (i % 3) == 0 ==> p@[i].is_representation()
                &&& forall|i: int| 0 <= i < length && #[trigger] (i % 3) == 1 ==> p@[i].is_factor_kind()
                &&& forall|i: int| 0 <= i < length && #[trigger] (i % 3) == 2 ==> p@[i] is Sequence
            },
    {
        if length > 8 {
            return None;
        }
        let mut properties: Vec<GeneralProperty> = Vec::new();
        let mut i: u8 = 0;
        while i < length
            invariant
                i <= length,
                properties@.len() == i,
                forall|j: int| 0 <= j < i ==> (#[trigger] properties@[j]).wf(),
                forall|j: int| 0 <= j < i && #[trigger] (j % 3) == 0 ==> properties@[j].is_representation(),
                forall|j: int| 0 <= j < i && #[trigger] (j % 3) == 1 ==> properties@[j].is_factor_kind(),
                forall|j: int| 0 <= j < i && #[trigger] (j % 3) == 2 ==> properties@[j] is Sequence,
            decreases length - i,
        {
            let p = GeneralProperty::generate(i, rng);
            assert(i as int % 3 == i % 3);
            properties.push(p);
            i = i + 1;
        }
        Some(Problem { properties })
    }

    /// Score the guess `num`: the returned hint holds one meaningful bit
    /// per property, bit `i` set exactly when property `i` accepts the
    /// guess. The hint is a function of the problem and the guess alone,
    /// so repeated checks of one guess always agree.
    pub fn check(&self, num: u8) -> (r: u8)
        ensures
            r as nat == hint_value(self@, num),
            forall|i: nat| i < self@.len() ==> hint_bit(r as nat, i) == self@[i as int].spec_fulfilled(
                num,
            ),
    {
        proof {
            use_type_invariant(self);
            lemma2_to64();
        }
        let mut i: usize = self.properties.len();
        let mut sum: u16 = 0;
        while i > 0
            invariant
                i <= self@.len(),
                self.wf(),
                sum as nat == hint_value(self@.skip(i as int), num),
                sum < pow2((self@.len() - i) as nat),
            decreases i,
        {
            proof {
                lemma2_to64();
                lemma_pow2_unfold((self@.len() - i + 1) as nat);
                if ((self@.len() - i + 1) as nat) < 8 {
                    lemma_pow2_strictly_increases((self@.len() - i + 1) as nat, 8);
                }
                assert(self@.skip(i as int - 1).skip(1) =~= self@.skip(i as int));
            }
            i = i - 1;
            let f = self.properties[i].fulfilled(num);
            sum = 2 * sum + (if f {
                1
            } else {
                0
            });
            proof {
                assert(self@.skip(i as int)[0] == self@[i as int]);
            }
        }
        proof {
            assert(self@.skip(0) =~= self@);
            lemma_hint_value_bound(self@, num);
            lemma2_to64();
            if self@.len() < 8 {
                lemma_pow2_strictly_increases(self@.len(), 8);
            }
            assert forall|j: nat| j < self@.len() implies hint_bit(sum as nat, j) == self@[j as int]
                .spec_fulfilled(num) by {
                lemma_hint_bit(self@, num, j);
            }
        }
        sum as u8
    }

    /// How many properties the problem holds.
    pub fn len(&self) -> (r: usize)
        ensures
            r == self@.len(),
    {
        self.properties.len()
    }

    /// The property at position `i`, which answers for bit `i` of every
    /// hint.
    pub fn property_at(&self, i: usize) -> (r: &GeneralProperty)
        requires
            i < self@.len(),
        ensures
            *r == self@[i as int],
    {
        &self.properties[i]
    }
}

} // verus!
