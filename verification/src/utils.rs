use vstd::prelude::*;
use vstd::arithmetic::div_mod::{
    lemma_div_is_ordered, lemma_div_multiples_vanish_fancy, lemma_div_pos_is_pos,
};
use vstd::arithmetic::mul::lemma_mul_is_commutative;

verus! {

pub struct Utils {}

impl Utils {
    /// Robust pick used on sorted delay deltas: the third-lowest when it is
    /// positive, the lowest otherwise.
    pub fn a_else_b(a: i64, b: i64) -> (r: i64)
        ensures
            r == if a > 0 { a } else { b },
    {
        if a > 0 {
            a
        } else {
            b
        }
    }
}

/// Truncated (round-toward-zero) signed division: what `/` does on the
/// machine's signed integers.
pub open spec fn div_trunc(a: int, d: int) -> int
    recommends
        d > 0,
{
    if a >= 0 {
        a / d
    } else {
        -((-a) / d)
    }
}

/// Truncated division by a positive divisor is monotone in the numerator.
pub proof fn lemma_div_trunc_ordered(a: int, b: int, d: int)
    requires
        a <= b,
        d > 0,
    ensures
        div_trunc(a, d) <= div_trunc(b, d),
{
    if a >= 0 {
        lemma_div_is_ordered(a, b, d);
    } else if b < 0 {
        lemma_div_is_ordered(-b, -a, d);
    } else {
        lemma_div_pos_is_pos(-a, d);
        lemma_div_pos_is_pos(b, d);
    }
}

/// Swapping two positions of a sequence keeps its multiset of elements.
pub proof fn lemma_swap_multiset<A>(s: Seq<A>, i: int, j: int)
    requires
        0 <= i < s.len(),
        0 <= j < s.len(),
    ensures
        s.update(i, s[j]).update(j, s[i]).to_multiset() == s.to_multiset(),
{
    broadcast use vstd::seq_lib::group_to_multiset_ensures;
    broadcast use vstd::multiset::group_multiset_axioms;

    if i == j {
        assert(s.update(i, s[j]).update(j, s[i]) =~= s);
    } else {
        let s1 = s.update(i, s[j]);
        assert(s1[j] == s[j]);
        assert(s1.to_multiset().insert(s[i]).contains(s[j]));
        assert(s.update(i, s[j]).update(j, s[i]).to_multiset() =~= s.to_multiset());
    }
}

/// Dividing an exact multiple truncates to the exact quotient.
pub proof fn lemma_div_trunc_exact(m: int, d: int)
    requires
        d > 0,
    ensures
        div_trunc(m * d, d) == m,
{
    if m >= 0 {
        lemma_div_multiples_vanish_fancy(m, 0, d);
        lemma_mul_is_commutative(m, d);
    } else {
        lemma_div_multiples_vanish_fancy(-m, 0, d);
        lemma_mul_is_commutative(-m, d);
        assert(-(m * d) == (-m) * d) by (nonlinear_arith);
    }
}

} // verus!
