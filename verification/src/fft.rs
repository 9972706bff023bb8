//! The spectral transform engine: the radix-2 decimation-in-time recursion
//! over a window whose length is a power of two.
//!
//! The recursion is generic in the type of an amplitude. What it needs of the
//! arithmetic is one operation, the butterfly, which the caller hands in.

use vstd::prelude::*;
use crate::window::{check_power_of_two, is_power_of_two};

verus! {

/// Why a window could not be transformed.
#[derive(Clone, Copy, Debug, PartialEq, Eq, Structural)]
pub enum TransformError {
    /// The window's length, which is above 1 and not a power of two.
    NonPowerOfTwoSize(usize),
}

/// The lengths that the transform accepts: 0, 1 and the powers of two.
pub open spec fn transformable(n: nat) -> bool {
    n <= 1 || is_power_of_two(n)
}

/// The entries of `s` at the even indices, in order.
pub open spec fn evens<T>(s: Seq<T>) -> Seq<T> {
    Seq::new(((s.len() + 1) / 2) as nat, |i: int| s[2 * i])
}

/// The entries of `s` at the odd indices, in order.
pub open spec fn odds<T>(s: Seq<T>) -> Seq<T> {
    Seq::new(s.len() / 2, |i: int| s[2 * i + 1])
}

/// `output` combines the transformed halves `even` and `odd` of a window of
/// `n` entries: for each `k` below `n / 2` the butterfly, called with `k`,
/// `n`, `even[k]` and `odd[k]`, gave the pair `(output[k], output[k + n / 2])`.
pub open spec fn combines<T, F: Fn(usize, usize, T, T) -> (T, T)>(
    n: nat,
    even: Seq<T>,
    odd: Seq<T>,
    output: Seq<T>,
    butterfly: F,
) -> bool {
    &&& even.len() == n / 2
    &&& odd.len() == n / 2
    &&& output.len() == n
    &&& forall|k: int|
        0 <= k < n / 2 ==> call_ensures(
            butterfly,
            (k as usize, n as usize, #[trigger] even[k], odd[k]),
            (output[k], output[k + n / 2]),
        )
}

/// `output` is a transform of `input` under `butterfly`: a window of at most
/// one entry is its own transform; a longer one is the combination of a
/// transform of its even-indexed entries and one of its odd-indexed entries.
pub open spec fn is_transform<T, F: Fn(usize, usize, T, T) -> (T, T)>(
    input: Seq<T>,
    output: Seq<T>,
    butterfly: F,
) -> bool
    decreases input.len(),
{
    if input.len() <= 1 {
        output == input
    } else {
        exists|even: Seq<T>, odd: Seq<T>|
            #![trigger combines(input.len(), even, odd, output, butterfly)]
            {
                &&& is_transform(evens(input), even, butterfly)
                &&& is_transform(odds(input), odd, butterfly)
                &&& combines(input.len(), even, odd, output, butterfly)
            }
    }
}

/// Whatever the butterfly, a transform has the length of its input.
pub proof fn lemma_transform_len<T, F: Fn(usize, usize, T, T) -> (T, T)>(
    input: Seq<T>,
    output: Seq<T>,
    butterfly: F,
)
    requires
        is_transform(input, output, butterfly),
    ensures
        output.len() == input.len(),
{
}

/// Splits a window of even length into its even-indexed and its odd-indexed
/// entries.
fn split<T: Copy>(samples: &[T]) -> (r: (Vec<T>, Vec<T>))
    requires
        samples@.len() % 2 == 0,
    ensures
        r.0@ == evens(samples@),
        r.1@ == odds(samples@),
{
    let half = samples.len() / 2;
    let mut even: Vec<T> = Vec::new();
    let mut odd: Vec<T> = Vec::new();
    let mut i: usize = 0;
    while i < half
        invariant
            i <= half,
            half * 2 == samples@.len() <= usize::MAX,
            even@.len() == i,
            odd@.len() == i,
            forall|k: int| 0 <= k < i ==> even@[k] == samples@[2 * k],
            forall|k: int| 0 <= k < i ==> odd@[k] == samples@[2 * k + 1],
        decreases half - i,
    {
        even.push(samples[2 * i]);
        odd.push(samples[2 * i + 1]);
        i += 1;
    }
    assert(even@ =~= evens(samples@));
    assert(odd@ =~= odds(samples@));
    (even, odd)
}

/// The recursion proper, on a window whose length was found acceptable.
fn recurse<T: Copy, F: Fn(usize, usize, T, T) -> (T, T)>(samples: &[T], butterfly: &F) -> (r: Vec<
    T,
>)
    requires
        transformable(samples@.len()),
        forall|k: usize, n: usize, a: T, b: T|
            2 * k < n <= samples@.len() ==> call_requires(*butterfly, (k, n, a, b)),
    ensures
        is_transform(samples@, r@, *butterfly),
    decreases samples@.len(),
{
    let n = samples.len();
    let mut out: Vec<T> = Vec::new();
    if n <= 1 {
        if n == 1 {
            out.push(samples[0]);
        }
        assert(out@ =~= samples@);
        return out;
    }
    let half = n / 2;
    let (even, odd) = split(samples);
    let even_done = recurse(even.as_slice(), butterfly);
    let odd_done = recurse(odd.as_slice(), butterfly);
    proof {
        lemma_transform_len(even@, even_done@, *butterfly);
        lemma_transform_len(odd@, odd_done@, *butterfly);
    }
    let mut upper: Vec<T> = Vec::new();
    let mut k: usize = 0;
    while k < half
        invariant
            k <= half,
            half == n / 2,
            n == samples@.len(),
            n % 2 == 0,
            even_done@.len() == half,
            odd_done@.len() == half,
            out@.len() == k,
            upper@.len() == k,
            forall|k: usize, n: usize, a: T, b: T|
                2 * k < n <= samples@.len() ==> call_requires(*butterfly, (k, n, a, b)),
            forall|i: int|
                0 <= i < k ==> call_ensures(
                    *butterfly,
                    (i as usize, n, #[trigger] even_done@[i], odd_done@[i]),
                    (out@[i], upper@[i]),
                ),
        decreases half - k,
    {
        let (low, high) = butterfly(k, n, even_done[k], odd_done[k]);
        out.push(low);
        upper.push(high);
        k += 1;
    }
    let ghost lower = out@;
    let mut j: usize = 0;
    while j < half
        invariant
            j <= half,
            upper@.len() == half,
            lower.len() == half,
            out@ == lower + upper@.take(j as int),
        decreases half - j,
    {
        out.push(upper[j]);
        assert(out@ =~= lower + upper@.take(j + 1));
        j += 1;
    }
    proof {
        assert(upper@.take(half as int) =~= upper@);
        assert(combines(n as nat, even_done@, odd_done@, out@, *butterfly));
    }
    out
}

/// Transforms one window. A window of at most one entry comes back as it is.
/// A longer one must have a power of two as its length; it is split by index
/// parity, each half is transformed, and the halves are combined by the
/// butterfly, which is called with `k`, the length `n` of the window being
/// combined, and entry `k` of the transformed even and odd halves, and gives
/// entries `k` and `k + n / 2` of the result.
pub fn fft<T: Copy, F: Fn(usize, usize, T, T) -> (T, T)>(samples: &[T], butterfly: &F) -> (r: Result<
    Vec<T>,
    TransformError,
>)
    requires
        forall|k: usize, n: usize, a: T, b: T|
            2 * k < n <= samples@.len() ==> call_requires(*butterfly, (k, n, a, b)),
    ensures
        transformable(samples@.len()) ==> r is Ok,
        !transformable(samples@.len()) ==> r == Err::<Vec<T>, TransformError>(
            TransformError::NonPowerOfTwoSize(samples@.len() as usize),
        ),
        r matches Ok(out) ==> out@.len() == samples@.len() && is_transform(
            samples@,
            out@,
            *butterfly,
        ),
        r matches Ok(out) ==> samples@.len() <= 1 ==> out@ == samples@,
{
    let n = samples.len();
    if n > 1 && !check_power_of_two(n) {
        return Err(TransformError::NonPowerOfTwoSize(n));
    }
    let out = recurse(samples, butterfly);
    proof {
        lemma_transform_len(samples@, out@, *butterfly);
    }
    Ok(out)
}

/// The transformed halves behind a transform of a window of two or more
/// entries. Such a window has an even length.
pub proof fn lemma_halves<T, F: Fn(usize, usize, T, T) -> (T, T)>(
    input: Seq<T>,
    output: Seq<T>,
    butterfly: F,
) -> (r: (Seq<T>, Seq<T>))
    requires
        input.len() > 1,
        is_transform(input, output, butterfly),
    ensures
        input.len() % 2 == 0,
        is_transform(evens(input), r.0, butterfly),
        is_transform(odds(input), r.1, butterfly),
        combines(input.len(), r.0, r.1, output, butterfly),
{
    let n = input.len();
    let (even, odd) = choose|even: Seq<T>, odd: Seq<T>|
        #![trigger combines(n, even, odd, output, butterfly)]
        {
            &&& is_transform(evens(input), even, butterfly)
            &&& is_transform(odds(input), odd, butterfly)
            &&& combines(n, even, odd, output, butterfly)
        };
    lemma_transform_len(evens(input), even, butterfly);
    (even, odd)
}

/// Only a window of an acceptable length has a transform.
pub proof fn lemma_transform_needs_power_of_two<T, F: Fn(usize, usize, T, T) -> (T, T)>(
    input: Seq<T>,
    output: Seq<T>,
    butterfly: F,
)
    requires
        is_transform(input, output, butterfly),
    ensures
        transformable(input.len()),
    decreases input.len(),
{
    if input.len() > 1 {
        let (even, odd) = lemma_halves(input, output, butterfly);
        lemma_transform_needs_power_of_two(evens(input), even, butterfly);
        let half = input.len() / 2;
        assert(evens(input).len() == half);
        assert(is_power_of_two(half));
        assert(is_power_of_two(input.len()));
    }
}

/// The butterfly gives one result for each input.
pub open spec fn single_valued<T, F: Fn(usize, usize, T, T) -> (T, T)>(butterfly: F) -> bool {
    forall|args: (usize, usize, T, T), first: (T, T), second: (T, T)|
        #![trigger call_ensures(butterfly, args, first), call_ensures(butterfly, args, second)]
        call_ensures(butterfly, args, first) && call_ensures(butterfly, args, second) ==> first
            == second
}

/// Under a butterfly that gives one result for each input a window has one
/// transform: nothing but the window and the butterfly decides it.
pub proof fn lemma_transform_unique<T, F: Fn(usize, usize, T, T) -> (T, T)>(
    input: Seq<T>,
    first: Seq<T>,
    second: Seq<T>,
    butterfly: F,
)
    requires
        single_valued(butterfly),
        is_transform(input, first, butterfly),
        is_transform(input, second, butterfly),
    ensures
        first == second,
    decreases input.len(),
{
    let n = input.len();
    if n > 1 {
        let (e1, o1) = lemma_halves(input, first, butterfly);
        let (e2, o2) = lemma_halves(input, second, butterfly);
        lemma_transform_unique(evens(input), e1, e2, butterfly);
        lemma_transform_unique(odds(input), o1, o2, butterfly);
        let half = (n / 2) as int;
        assert forall|i: int| 0 <= i < n implies first[i] == second[i] by {
            let k = if i < half {
                i
            } else {
                i - half
            };
            let args = (k as usize, n as usize, e1[k], o1[k]);
            assert(call_ensures(butterfly, args, (first[k], first[k + half])));
            assert(call_ensures(butterfly, args, (second[k], second[k + half])));
        }
        assert(first =~= second);
    }
}

/// The transform of `input` where the butterfly is the function `rule`: the
/// recursion written out. A window that has no transform stands for itself.
pub open spec fn spectrum<T>(input: Seq<T>, rule: spec_fn(usize, usize, T, T) -> (T, T)) -> Seq<T>
    decreases input.len(),
{
    if input.len() <= 1 || input.len() % 2 != 0 {
        input
    } else {
        let n = input.len();
        let half = (n / 2) as int;
        let even = spectrum(evens(input), rule);
        let odd = spectrum(odds(input), rule);
        Seq::new(
            n,
            |i: int|
                if i < half {
                    rule(i as usize, n as usize, even[i], odd[i]).0
                } else {
                    rule((i - half) as usize, n as usize, even[i - half], odd[i - half]).1
                },
        )
    }
}

/// Whatever the butterfly gives is what `rule` says.
pub open spec fn follows<T, F: Fn(usize, usize, T, T) -> (T, T)>(
    butterfly: F,
    rule: spec_fn(usize, usize, T, T) -> (T, T),
) -> bool {
    forall|k: usize, n: usize, even: T, odd: T, r: (T, T)| #[trigger]
        call_ensures(butterfly, (k, n, even, odd), r) ==> r == rule(k, n, even, odd)
}

/// Under a butterfly that follows `rule` the transform of a window is its
/// `spectrum` by that rule.
pub proof fn lemma_transform_is_spectrum<T, F: Fn(usize, usize, T, T) -> (T, T)>(
    input: Seq<T>,
    output: Seq<T>,
    butterfly: F,
    rule: spec_fn(usize, usize, T, T) -> (T, T),
)
    requires
        follows(butterfly, rule),
        is_transform(input, output, butterfly),
    ensures
        output == spectrum(input, rule),
    decreases input.len(),
{
    let n = input.len();
    if n > 1 {
        let (even, odd) = lemma_halves(input, output, butterfly);
        lemma_transform_is_spectrum(evens(input), even, butterfly, rule);
        lemma_transform_is_spectrum(odds(input), odd, butterfly, rule);
        let half = (n / 2) as int;
        assert forall|i: int| 0 <= i < n implies output[i] == spectrum(input, rule)[i] by {
            let k = if i < half {
                i
            } else {
                i - half
            };
            assert(call_ensures(
                butterfly,
                (k as usize, n as usize, even[k], odd[k]),
                (output[k], output[k + half]),
            ));
        }
        assert(output =~= spectrum(input, rule));
    }
}

/// The entries of `a` and `b` joined pairwise by `plus`.
pub open spec fn joined<T>(a: Seq<T>, b: Seq<T>, plus: spec_fn(T, T) -> T) -> Seq<T> {
    Seq::new(a.len(), |i: int| plus(a[i], b[i]))
}

/// The butterfly is additive under `plus`: what it gives for two sums is the
/// sum of what it gives for the terms.
pub open spec fn additive<T, F: Fn(usize, usize, T, T) -> (T, T)>(
    butterfly: F,
    plus: spec_fn(T, T) -> T,
) -> bool {
    forall|
        k: usize,
        n: usize,
        e1: T,
        o1: T,
        e2: T,
        o2: T,
        e3: T,
        o3: T,
        r1: (T, T),
        r2: (T, T),
        r3: (T, T),
    |
        #![trigger
            call_ensures(butterfly, (k, n, e1, o1), r1),
            call_ensures(butterfly, (k, n, e2, o2), r2),
            call_ensures(butterfly, (k, n, e3, o3), r3),
        ]
        {
            &&& call_ensures(butterfly, (k, n, e1, o1), r1)
            &&& call_ensures(butterfly, (k, n, e2, o2), r2)
            &&& call_ensures(butterfly, (k, n, e3, o3), r3)
            &&& e3 == plus(e1, e2)
            &&& o3 == plus(o1, o2)
        } ==> r3 == (plus(r1.0, r2.0), plus(r1.1, r2.1))
}

/// Linearity, for arithmetic that is exact: under an additive butterfly the
/// transform of the sum of two windows of one length is the sum of their
/// transforms, bin by bin.
pub proof fn lemma_transform_additive<T, F: Fn(usize, usize, T, T) -> (T, T)>(
    a: Seq<T>,
    b: Seq<T>,
    of_a: Seq<T>,
    of_b: Seq<T>,
    of_sum: Seq<T>,
    butterfly: F,
    plus: spec_fn(T, T) -> T,
)
    requires
        additive(butterfly, plus),
        a.len() == b.len(),
        is_transform(a, of_a, butterfly),
        is_transform(b, of_b, butterfly),
        is_transform(joined(a, b, plus), of_sum, butterfly),
    ensures
        of_sum == joined(of_a, of_b, plus),
    decreases a.len(),
{
    let n = a.len();
    let sum = joined(a, b, plus);
    if n <= 1 {
        assert(of_sum =~= joined(of_a, of_b, plus));
    } else {
        let (ea, oa) = lemma_halves(a, of_a, butterfly);
        let (eb, ob) = lemma_halves(b, of_b, butterfly);
        let (es, os) = lemma_halves(sum, of_sum, butterfly);
        assert(evens(sum) =~= joined(evens(a), evens(b), plus));
        assert(odds(sum) =~= joined(odds(a), odds(b), plus));
        lemma_transform_additive(evens(a), evens(b), ea, eb, es, butterfly, plus);
        lemma_transform_additive(odds(a), odds(b), oa, ob, os, butterfly, plus);
        let half = (n / 2) as int;
        assert forall|i: int| 0 <= i < n implies of_sum[i] == plus(of_a[i], of_b[i]) by {
            let k = if i < half {
                i
            } else {
                i - half
            };
            let ku = k as usize;
            let nu = n as usize;
            assert(call_ensures(butterfly, (ku, nu, ea[k], oa[k]), (of_a[k], of_a[k + half])));
            assert(call_ensures(butterfly, (ku, nu, eb[k], ob[k]), (of_b[k], of_b[k + half])));
            assert(call_ensures(
                butterfly,
                (ku, nu, es[k], os[k]),
                (of_sum[k], of_sum[k + half]),
            ));
            assert(es[k] == plus(ea[k], eb[k]));
            assert(os[k] == plus(oa[k], ob[k]));
        }
        assert(of_sum =~= joined(of_a, of_b, plus));
    }
}

/// `c` taken `n` times, for `n` a power of two, by doubling.
pub open spec fn times<T>(c: T, double: spec_fn(T) -> T, n: nat) -> T
    decreases n,
{
    if n <= 1 {
        c
    } else {
        double(times(c, double, n / 2))
    }
}

/// The butterfly is exact on equal halves and on silence: in place 0 two
/// equal entries give their double and `zero`, and two entries that are
/// `zero` give `zero` twice in every place.
pub open spec fn exact_on_constants<T, F: Fn(usize, usize, T, T) -> (T, T)>(
    butterfly: F,
    double: spec_fn(T) -> T,
    zero: T,
) -> bool {
    &&& forall|n: usize, x: T, r: (T, T)| #[trigger]
        call_ensures(butterfly, (0usize, n, x, x), r) ==> r == (double(x), zero)
    &&& forall|k: usize, n: usize, r: (T, T)| #[trigger]
        call_ensures(butterfly, (k, n, zero, zero), r) ==> r == (zero, zero)
}

/// The constant window, for arithmetic that is exact: a window whose entries
/// all equal `c` transforms to `c` taken as many times as the window is long
/// in bin 0, and to `zero` in every other bin.
pub proof fn lemma_transform_constant<T, F: Fn(usize, usize, T, T) -> (T, T)>(
    input: Seq<T>,
    output: Seq<T>,
    butterfly: F,
    c: T,
    double: spec_fn(T) -> T,
    zero: T,
)
    requires
        exact_on_constants(butterfly, double, zero),
        input.len() >= 1,
        forall|i: int| 0 <= i < input.len() ==> input[i] == c,
        is_transform(input, output, butterfly),
    ensures
        output.len() == input.len(),
        output[0] == times(c, double, input.len()),
        forall|i: int| 1 <= i < output.len() ==> output[i] == zero,
    decreases input.len(),
{
    let n = input.len();
    if n > 1 {
        let (even, odd) = lemma_halves(input, output, butterfly);
        lemma_transform_constant(evens(input), even, butterfly, c, double, zero);
        lemma_transform_constant(odds(input), odd, butterfly, c, double, zero);
        let half = (n / 2) as int;
        assert forall|i: int| 0 <= i < n implies output[i] == if i == 0 {
            times(c, double, n)
        } else {
            zero
        } by {
            let k = if i < half {
                i
            } else {
                i - half
            };
            assert(call_ensures(
                butterfly,
                (k as usize, n as usize, even[k], odd[k]),
                (output[k], output[k + half]),
            ));
        }
    }
}

/// Takes each sample of a window to an amplitude, in order. `embed` gives
/// the amplitude that stands for a sample: the sample as the real part, with
/// no imaginary part.
pub fn convert_to_complex<T, E: Fn(i16) -> T>(frequencies: &[i16], embed: &E) -> (r: Vec<T>)
    requires
        forall|i: int| 0 <= i < frequencies@.len() ==> call_requires(*embed, (frequencies@[i],)),
    ensures
        r@.len() == frequencies@.len(),
        forall|i: int|
            0 <= i < frequencies@.len() ==> call_ensures(
                *embed,
                (frequencies@[i],),
                #[trigger] r@[i],
            ),
{
    let mut out: Vec<T> = Vec::new();
    let n = frequencies.len();
    let mut i: usize = 0;
    while i < n
        invariant
            i <= n,
            n == frequencies@.len(),
            out@.len() == i,
            forall|k: int|
                0 <= k < frequencies@.len() ==> call_requires(*embed, (frequencies@[k],)),
            forall|k: int|
                0 <= k < i ==> call_ensures(*embed, (frequencies@[k],), #[trigger] out@[k]),
        decreases n - i,
    {
        let amplitude = embed(frequencies[i]);
        out.push(amplitude);
        i += 1;
    }
    out
}

/// The magnitude extractor: the modulus of each bin of a spectrum, in order.
/// The phase of a bin is what the modulus leaves out; where no modulus is
/// negative, no magnitude is.
pub fn convert_to_int<T: Copy, M: Fn(T) -> i16>(frequencies: &[T], modulus: &M) -> (r: Vec<i16>)
    requires
        forall|i: int| 0 <= i < frequencies@.len() ==> call_requires(*modulus, (frequencies@[i],)),
    ensures
        r@.len() == frequencies@.len(),
        forall|i: int|
            0 <= i < frequencies@.len() ==> call_ensures(
                *modulus,
                (frequencies@[i],),
                #[trigger] r@[i],
            ),
        (forall|bin: T, m: i16| call_ensures(*modulus, (bin,), m) ==> m >= 0) ==> forall|i: int|
            0 <= i < r@.len() ==> #[trigger] r@[i] >= 0,
{
    let mut out: Vec<i16> = Vec::new();
    let n = frequencies.len();
    let mut i: usize = 0;
    while i < n
        invariant
            i <= n,
            n == frequencies@.len(),
            out@.len() == i,
            forall|k: int|
                0 <= k < frequencies@.len() ==> call_requires(*modulus, (frequencies@[k],)),
            forall|k: int|
                0 <= k < i ==> call_ensures(*modulus, (frequencies@[k],), #[trigger] out@[k]),
        decreases n - i,
    {
        let m = modulus(frequencies[i]);
        out.push(m);
        i += 1;
    }
    out
}

} // verus!
