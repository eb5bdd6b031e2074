//! Natural numbers of any size, as little-endian 64-bit limbs: enough to
//! raise a machine word to a power and compare two such powers exactly.

use vstd::prelude::*;

verus! {

/// The radix of one limb.
pub open spec fn radix() -> nat {
    0x1_0000_0000_0000_0000
}

/// The weight of limb `i`: the radix to the `i`th power.
pub open spec fn limb_scale(i: nat) -> nat
    decreases i,
{
    if i == 0 {
        1
    } else {
        limb_scale((i - 1) as nat) * radix()
    }
}

/// Limb `i` of `limbs`, with every limb past the end zero.
pub open spec fn limb(limbs: Seq<u64>, i: int) -> nat {
    if 0 <= i < limbs.len() {
        limbs[i] as nat
    } else {
        0
    }
}

/// The number the first `i` limbs of `limbs` spell.
pub open spec fn value_below(limbs: Seq<u64>, i: nat) -> nat
    decreases i,
{
    if i == 0 {
        0
    } else {
        value_below(limbs, (i - 1) as nat) + limb(limbs, i - 1) * limb_scale((i - 1) as nat)
    }
}

/// The number `limbs` spell.
pub open spec fn value(limbs: Seq<u64>) -> nat {
    value_below(limbs, limbs.len())
}

/// The first `i` limbs alone decide what they spell.
proof fn lemma_value_below_same_limbs(a: Seq<u64>, b: Seq<u64>, i: nat)
    requires
        forall|j: int| 0 <= j < i ==> limb(a, j) == limb(b, j),
    ensures
        value_below(a, i) == value_below(b, i),
    decreases i,
{
    if i > 0 {
        lemma_value_below_same_limbs(a, b, (i - 1) as nat);
    }
}

/// Limbs past the end add nothing.
proof fn lemma_value_below_past_end(a: Seq<u64>, i: nat)
    requires
        i >= a.len(),
    ensures
        value_below(a, i) == value(a),
    decreases i,
{
    if i > a.len() {
        lemma_value_below_past_end(a, (i - 1) as nat);
    }
}

/// Every limb weight is positive.
proof fn lemma_limb_scale_positive(i: nat)
    ensures
        limb_scale(i) >= 1,
    decreases i,
{
    if i > 0 {
        lemma_limb_scale_positive((i - 1) as nat);
        assert(limb_scale((i - 1) as nat) * radix() >= 1) by (nonlinear_arith)
            requires
                limb_scale((i - 1) as nat) >= 1,
        ;
    }
}

/// `i` limbs spell less than the weight of the next one.
proof fn lemma_value_below_bound(a: Seq<u64>, i: nat)
    ensures
        value_below(a, i) < limb_scale(i),
    decreases i,
{
    if i > 0 {
        let j = (i - 1) as nat;
        lemma_value_below_bound(a, j);
        let v = value_below(a, j);
        let l = limb(a, j as int);
        let s = limb_scale(j);
        assert(l < radix());
        assert(v + l * s < s * radix()) by (nonlinear_arith)
            requires
                v < s,
                l < radix(),
                0 <= l,
        ;
    }
}

/// `limbs` times the word `factor`.
pub fn mul_word(limbs: &Vec<u64>, factor: u64) -> (product: Vec<u64>)
    ensures
        value(product@) == value(limbs@) * factor,
{
    let mut product: Vec<u64> = Vec::new();
    let mut carry: u64 = 0;
    let mut i: usize = 0;
    proof {
        assert(value(product@) == 0);
        assert(value_below(limbs@, 0) == 0);
        assert(limb_scale(0) == 1);
    }
    while i < limbs.len()
        invariant
            i <= limbs.len(),
            product@.len() == i,
            value(product@) + carry * limb_scale(i as nat) == value_below(limbs@, i as nat) * factor,
        decreases limbs.len() - i,
    {
        let x = limbs[i];
        proof {
            assert(x as u128 * factor as u128 + carry as u128 <= u128::MAX) by (nonlinear_arith)
                requires
                    x <= u64::MAX,
                    factor <= u64::MAX,
                    carry <= u64::MAX,
            ;
        }
        let t: u128 = x as u128 * factor as u128 + carry as u128;
        let low: u64 = #[verifier::truncate] (t as u64);
        let high: u64 = #[verifier::truncate] ((t >> 64) as u64);
        proof {
            assert(t == low as int + high as int * 0x1_0000_0000_0000_0000) by (bit_vector)
                requires
                    low == t as u64,
                    high == (t >> 64) as u64,
            ;
        }
        let ghost before = product@;
        product.push(low);
        proof {
            let n = i as nat;
            let s = limb_scale(n);
            lemma_value_below_same_limbs(product@, before, n);
            assert(value(product@) == value(before) + low * s);
            assert(value_below(limbs@, n + 1) == value_below(limbs@, n) + x * s);
            assert(limb_scale(n + 1) == s * radix());
            assert(value(before) + low * s + high * (s * radix()) == (value_below(limbs@, n) + x * s)
                * factor) by (nonlinear_arith)
                requires
                    value(before) + carry * s == value_below(limbs@, n) * factor,
                    t == low + high * radix(),
                    t == x * factor + carry,
            ;
        }
        carry = high;
        i = i + 1;
    }
    let ghost before = product@;
    product.push(carry);
    proof {
        let n = limbs@.len();
        lemma_value_below_same_limbs(product@, before, n);
        assert(value(product@) == value(before) + carry * limb_scale(n));
    }
    product
}

/// `initial` times `base` to the power `exponent`.
pub fn mul_power(initial: u64, base: u64, exponent: usize) -> (product: Vec<u64>)
    ensures
        value(product@) == initial * vstd::arithmetic::power::pow(base as int, exponent as nat),
{
    let mut product: Vec<u64> = Vec::new();
    product.push(initial);
    proof {
        reveal(vstd::arithmetic::power::pow);
        assert(limb_scale(0) == 1);
        assert(value_below(product@, 0) == 0);
        assert(value_below(product@, 1) == value_below(product@, 0) + limb(product@, 0) * limb_scale(0));
        assert(value(product@) == initial);
    }
    let mut i: usize = 0;
    while i < exponent
        invariant
            i <= exponent,
            value(product@) == initial * vstd::arithmetic::power::pow(base as int, i as nat),
        decreases exponent - i,
    {
        let next = mul_word(&product, base);
        proof {
            reveal(vstd::arithmetic::power::pow);
            let p = vstd::arithmetic::power::pow(base as int, i as nat);
            assert(vstd::arithmetic::power::pow(base as int, (i + 1) as nat) == base * p);
            assert(initial * p * base == initial * (base * p)) by (nonlinear_arith);
        }
        product = next;
        i = i + 1;
    }
    product
}

/// Whether `a` spells at most what `b` does.
pub fn le(a: &Vec<u64>, b: &Vec<u64>) -> (at_most: bool)
    ensures
        at_most == (value(a@) <= value(b@)),
{
    // Subtracts `a` from `b` limb by limb; a borrow out of the top limb means
    // `a` was the larger.
    let n = if a.len() < b.len() {
        b.len()
    } else {
        a.len()
    };
    let mut borrow: u64 = 0;
    let ghost mut difference: Seq<u64> = Seq::empty();
    let mut i: usize = 0;
    while i < n
        invariant
            i <= n,
            n >= a@.len(),
            n >= b@.len(),
            borrow <= 1,
            difference.len() == i,
            value(difference) + value_below(a@, i as nat) == value_below(b@, i as nat) + borrow
                * limb_scale(i as nat),
        decreases n - i,
    {
        let x: u64 = if i < b.len() {
            b[i]
        } else {
            0
        };
        let y: u64 = if i < a.len() {
            a[i]
        } else {
            0
        };
        let t: u128 = (x as u128 + 0x1_0000_0000_0000_0000) - y as u128 - borrow as u128;
        let low: u64 = #[verifier::truncate] (t as u64);
        let next_borrow: u64 = if t < 0x1_0000_0000_0000_0000 {
            1
        } else {
            0
        };
        proof {
            assert(low == t - 0x1_0000_0000_0000_0000 + next_borrow as int * 0x1_0000_0000_0000_0000)
                by (bit_vector)
                requires
                    low == t as u64,
                    t < 0x2_0000_0000_0000_0000,
                    next_borrow == if t < 0x1_0000_0000_0000_0000 {
                        1u64
                    } else {
                        0u64
                    },
            ;
            let k = i as nat;
            let s = limb_scale(k);
            let before = difference;
            difference = difference.push(low);
            lemma_value_below_same_limbs(difference, before, k);
            assert(value(difference) == value(before) + low * s);
            assert(limb(b@, i as int) == x && limb(a@, i as int) == y);
            assert(value_below(b@, k + 1) == value_below(b@, k) + x * s);
            assert(value_below(a@, k + 1) == value_below(a@, k) + y * s);
            assert(limb_scale(k + 1) == s * radix());
            assert(value(before) + low * s + value_below(a@, k) + y * s == value_below(b@, k) + x * s
                + next_borrow * (s * radix())) by (nonlinear_arith)
                requires
                    value(before) + value_below(a@, k) == value_below(b@, k) + borrow * s,
                    low == t - radix() + next_borrow * radix(),
                    t == x + radix() - y - borrow,
            ;
        }
        borrow = next_borrow;
        i = i + 1;
    }
    proof {
        lemma_value_below_past_end(a@, n as nat);
        lemma_value_below_past_end(b@, n as nat);
        lemma_value_below_bound(difference, n as nat);
        lemma_value_below_past_end(difference, n as nat);
    }
    borrow == 0
}

} // verus!
