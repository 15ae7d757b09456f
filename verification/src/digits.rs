//! Little-endian positional numerals: the value of a digit sequence whose
//! first element is the least significant one.
use vstd::prelude::*;
use vstd::arithmetic::power::pow;

verus! {

/// Value of `d` read as a little-endian numeral in base `base`.
pub open spec fn le_value(d: Seq<int>, base: int) -> int
    decreases d.len(),
{
    if d.len() == 0 {
        0
    } else {
        d[0] + base * le_value(d.drop_first(), base)
    }
}

/// Every digit of `d` lies in `0..base`.
pub open spec fn digits_in_range(d: Seq<int>, base: int) -> bool {
    forall|i: int| 0 <= i < d.len() ==> 0 <= #[trigger] d[i] < base
}

/// One more factor of the base.
pub proof fn lemma_pow_succ(base: int, n: nat)
    ensures
        pow(base, n + 1) == base * pow(base, n),
{
    reveal(pow);
    assert(((n + 1) - 1) as nat == n);
}

/// Appending a most significant digit adds `x * base^len`.
pub proof fn lemma_le_value_push(d: Seq<int>, x: int, base: int)
    ensures
        le_value(d.push(x), base) == le_value(d, base) + x * pow(base, d.len()),
    decreases d.len(),
{
    if d.len() == 0 {
        assert(d.push(x).drop_first() =~= Seq::<int>::empty());
        assert(pow(base, 0) == 1) by {
            vstd::arithmetic::power::lemma_pow0(base);
        }
        assert(d.push(x)[0] == x);
        assert(le_value(Seq::<int>::empty(), base) == 0);
        assert(le_value(d.push(x), base) == x + base * le_value(Seq::<int>::empty(), base));
        assert(base * 0 == 0);
        assert(le_value(d, base) == 0);
    } else {
        let rest = d.drop_first();
        assert(d.push(x).drop_first() =~= rest.push(x));
        lemma_le_value_push(rest, x, base);
        let p = pow(base, rest.len());
        lemma_pow_succ(base, rest.len());
        assert(pow(base, d.len()) == base * p);
        let v = le_value(rest, base);
        assert(base * (v + x * p) == base * v + x * (base * p)) by (nonlinear_arith);
        assert(d.push(x)[0] == d[0]);
        assert(le_value(d.push(x), base) == d[0] + base * le_value(rest.push(x), base));
    }
}

/// A numeral with digits in range is non-negative.
pub proof fn lemma_le_value_nonneg(d: Seq<int>, base: int)
    requires
        base >= 1,
        digits_in_range(d, base),
    ensures
        0 <= le_value(d, base),
    decreases d.len(),
{
    if d.len() > 0 {
        let rest = d.drop_first();
        assert(digits_in_range(rest, base)) by {
            assert forall|i: int| 0 <= i < rest.len() implies 0 <= #[trigger] rest[i] < base by {
                assert(rest[i] == d[i + 1]);
            }
        }
        lemma_le_value_nonneg(rest, base);
        let v = le_value(rest, base);
        assert(0 <= base * v) by (nonlinear_arith)
            requires
                base >= 1,
                v >= 0,
        ;
    }
}

/// A prefix of a numeral never has a larger value than the whole numeral.
pub proof fn lemma_le_value_prefix(d: Seq<int>, k: int, base: int)
    requires
        base >= 1,
        digits_in_range(d, base),
        0 <= k <= d.len(),
    ensures
        0 <= le_value(d.take(k), base) <= le_value(d, base),
    decreases d.len(),
{
    if k == 0 {
        assert(d.take(0) =~= Seq::<int>::empty());
        lemma_le_value_nonneg(d, base);
    } else {
        let rest = d.drop_first();
        assert(digits_in_range(rest, base)) by {
            assert forall|i: int| 0 <= i < rest.len() implies 0 <= #[trigger] rest[i] < base by {
                assert(rest[i] == d[i + 1]);
            }
        }
        assert(d.take(k).drop_first() =~= rest.take(k - 1));
        lemma_le_value_prefix(rest, k - 1, base);
        let a = le_value(rest.take(k - 1), base);
        let b = le_value(rest, base);
        assert(0 <= base * a <= base * b) by (nonlinear_arith)
            requires
                base >= 1,
                0 <= a <= b,
        ;
        assert(0 <= d[0]);
    }
}

/// A numeral of `k` digits in range stays below `base^k`.
pub proof fn lemma_le_value_bound(d: Seq<int>, base: int)
    requires
        base >= 1,
        digits_in_range(d, base),
    ensures
        le_value(d, base) < pow(base, d.len()),
    decreases d.len(),
{
    if d.len() == 0 {
        vstd::arithmetic::power::lemma_pow0(base);
    } else {
        let rest = d.drop_first();
        assert(digits_in_range(rest, base)) by {
            assert forall|i: int| 0 <= i < rest.len() implies 0 <= #[trigger] rest[i] < base by {
                assert(rest[i] == d[i + 1]);
            }
        }
        lemma_le_value_bound(rest, base);
        let v = le_value(rest, base);
        let p = pow(base, rest.len());
        lemma_pow_succ(base, rest.len());
        assert(pow(base, d.len()) == base * p);
        assert(d[0] + base * v < base * p) by (nonlinear_arith)
            requires
                0 <= d[0] < base,
                v < p,
                base >= 1,
        {
            assert(base * v <= base * (p - 1));
        }
    }
}

} // verus!
