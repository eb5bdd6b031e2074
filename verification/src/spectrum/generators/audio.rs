//! The audio generator's window planning.
//!
//! A window of `n` samples spaces its DFT bins `sample_rate / n` apart,
//! evenly, while a grid of `samples_per_octave` bins crowds its bins together
//! towards the low end. So the octave below the Nyquist frequency is where the
//! grid is coarsest and the transform has the best chance of resolving it:
//! the grid's step there is a `2^(1/samples_per_octave) - 1` fraction of
//! `sample_rate / 4`, and matching it takes `4 / (2^(1/samples_per_octave) - 1)`
//! samples. The sample rate cancels, so the answer holds at any rate.

use vstd::prelude::*;

use super::bignat::{le, mul_power, value};

verus! {

/// The shape the samples are tapered to before the DFT, to keep a frequency
/// between two bins from leaking across the whole spectrum.
#[derive(Debug, Clone, Copy, PartialEq, Eq, Structural)]
pub enum WindowShape {
    Hann,
}

/// Whether a window of `window` samples resolves a grid of
/// `samples_per_octave` bins in the octave below the Nyquist frequency:
/// `window * (2^(1/samples_per_octave) - 1) >= 4`, with both sides raised to
/// the power `samples_per_octave` so that it reads in whole numbers.
pub open spec fn window_resolves(window: nat, samples_per_octave: nat) -> bool {
    vstd::arithmetic::power::pow(window + 4int, samples_per_octave) <= 2 * vstd::arithmetic::power::pow(
        window as int,
        samples_per_octave,
    )
}

/// The largest power of two a `usize` holds.
pub open spec fn largest_window_exponent() -> nat {
    (usize::BITS - 1) as nat
}

/// The largest power of two a `usize` holds, doubled, is one past `usize::MAX`.
proof fn lemma_largest_window()
    ensures
        2 * vstd::arithmetic::power2::pow2(largest_window_exponent()) == usize::MAX + 1,
        vstd::arithmetic::power2::pow2(largest_window_exponent()) + 4 <= u64::MAX,
{
    vstd::arithmetic::power2::lemma2_to64();
    vstd::arithmetic::power2::lemma_pow2_unfold(usize::BITS as nat);
    assert(usize::BITS == 32 || usize::BITS == 64);
}

/// A window `w` wide, widened by four samples `k` times over, grows by no
/// more than `w / (w - 4k)`: `(w + 4)^k (w - 4k) <= w^(k + 1)`, for `4k <= w`.
proof fn lemma_window_growth(w: int, k: nat)
    requires
        w > 0,
        4 * k <= w,
    ensures
        vstd::arithmetic::power::pow(w + 4, k) * (w - 4 * k) <= w * vstd::arithmetic::power::pow(w, k),
    decreases k,
{
    reveal(vstd::arithmetic::power::pow);
    if k > 0 {
        let k1 = (k - 1) as nat;
        lemma_window_growth(w, k1);
        let a = vstd::arithmetic::power::pow(w + 4, k1);
        let b = vstd::arithmetic::power::pow(w, k1);
        vstd::arithmetic::power::lemma_pow_positive(w + 4, k1);
        let d = w - 4 * k1;
        assert(vstd::arithmetic::power::pow(w + 4, k) == (w + 4) * a);
        assert(vstd::arithmetic::power::pow(w, k) == w * b);
        assert((w + 4) * (d - 4) <= w * d) by (nonlinear_arith)
            requires
                d == w - 4 * k1,
                k1 >= 0,
        ;
        assert((w + 4) * (d - 4) * a <= w * d * a) by (nonlinear_arith)
            requires
                (w + 4) * (d - 4) <= w * d,
                a > 0,
        ;
        assert(w * (a * d) <= w * (w * b)) by (nonlinear_arith)
            requires
                a * d <= w * b,
                w > 0,
        ;
        assert((w + 4) * a * (w - 4 * k) == (w + 4) * (d - 4) * a) by (nonlinear_arith)
            requires
                d == w - 4 * k1,
                k == k1 + 1,
        ;
        assert(w * d * a == w * (a * d)) by (nonlinear_arith);
        assert(vstd::arithmetic::power::pow(w + 4, k) * (w - 4 * k) == (w + 4) * a * (w - 4 * k));
        assert(w * vstd::arithmetic::power::pow(w, k) == w * (w * b));
    }
}

/// Every grid of up to an eighth of the largest window a `usize` holds, in
/// bins per octave, is resolved by that window, so [`dft_window_size`] plans
/// a window for it.
pub proof fn lemma_ordinary_grids_are_planned(samples_per_octave: nat)
    requires
        8 * samples_per_octave <= vstd::arithmetic::power2::pow2(largest_window_exponent()),
    ensures
        window_resolves(
            vstd::arithmetic::power2::pow2(largest_window_exponent()),
            samples_per_octave,
        ),
{
    vstd::arithmetic::power2::lemma_pow2_pos(largest_window_exponent());
    let w = vstd::arithmetic::power2::pow2(largest_window_exponent()) as int;
    let k = samples_per_octave;
    lemma_window_growth(w, k);
    let a = vstd::arithmetic::power::pow(w + 4, k);
    let b = vstd::arithmetic::power::pow(w, k);
    vstd::arithmetic::power::lemma_pow_positive(w + 4, k);
    assert(a <= 2 * b) by (nonlinear_arith)
        requires
            a * (w - 4 * k) <= w * b,
            2 * (w - 4 * k) >= w,
            w > 0,
            a > 0,
    ;
}

/// The finest grid, in bins per octave, that
/// [`lemma_ordinary_grids_are_planned`] covers on this target: an eighth of
/// the largest power of two a `usize` holds.
pub fn max_planned_samples_per_octave() -> (n: usize)
    ensures
        8 * n == vstd::arithmetic::power2::pow2(largest_window_exponent()),
{
    proof {
        lemma_largest_window();
    }
    usize::MAX / 16 + 1
}

/// Whether `window` is the smallest power of two that resolves a grid of
/// `samples_per_octave` bins.
pub open spec fn is_planned_window(window: nat, samples_per_octave: nat) -> bool {
    exists|exponent: nat|
        {
            &&& window == vstd::arithmetic::power2::pow2(exponent)
            &&& window_resolves(window, samples_per_octave)
            &&& forall|smaller: nat|
                smaller < exponent ==> !window_resolves(
                    #[trigger] vstd::arithmetic::power2::pow2(smaller),
                    samples_per_octave,
                )
        }
}

/// The DFT window a grid of `samples_per_octave` bins needs: the smallest
/// power of two that resolves it, because `rustfft` plans any size but is
/// fastest at a power of two. Lower octaves the transform interpolates
/// across, which no window short enough to be worth planning would fix.
pub fn dft_window_size(samples_per_octave: usize) -> (window: usize)
    requires
        window_resolves(
            vstd::arithmetic::power2::pow2(largest_window_exponent()),
            samples_per_octave as nat,
        ),
    ensures
        is_planned_window(window as nat, samples_per_octave as nat),
{
    let mut exponent: u32 = 0;
    let mut window: usize = 1;
    proof {
        vstd::arithmetic::power2::lemma2_to64();
        lemma_largest_window();
    }
    loop
        invariant
            exponent <= usize::BITS - 1,
            window as nat == vstd::arithmetic::power2::pow2(exponent as nat),
            window_resolves(
                vstd::arithmetic::power2::pow2(largest_window_exponent()),
                samples_per_octave as nat,
            ),
            forall|smaller: nat|
                smaller < exponent ==> !window_resolves(
                    #[trigger] vstd::arithmetic::power2::pow2(smaller),
                    samples_per_octave as nat,
                ),
        decreases usize::BITS - exponent,
    {
        proof {
            vstd::arithmetic::power2::lemma_pow2_strictly_increases(
                exponent as nat,
                largest_window_exponent() + 1,
            );
            vstd::arithmetic::power2::lemma_pow2_unfold(largest_window_exponent() + 1);
            if exponent < usize::BITS - 1 {
                vstd::arithmetic::power2::lemma_pow2_strictly_increases(
                    exponent as nat,
                    largest_window_exponent(),
                );
            }
        }
        assert(window as nat <= vstd::arithmetic::power2::pow2(largest_window_exponent()));
        proof {
            lemma_largest_window();
        }
        let base = window as u64;
        let wider = mul_power(1, base + 4, samples_per_octave);
        let scaled = mul_power(2, base, samples_per_octave);
        if le(&wider, &scaled) {
            return window;
        }
        if exponent == usize::BITS - 1 {
            proof {
                assert(false);
            }
            return window;
        }
        proof {
            vstd::arithmetic::power2::lemma_pow2_unfold((exponent + 1) as nat);
            vstd::arithmetic::power2::lemma_pow2_strictly_increases(
                exponent as nat,
                largest_window_exponent(),
            );
            lemma_largest_window();
        }
        window = window * 2;
        exponent = exponent + 1;
    }
}

} // verus!
