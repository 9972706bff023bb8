//! The window assembler: gathers every `STRIDE`-th incoming sample into a
//! window of fixed, power-of-two capacity.

use vstd::prelude::*;
use vstd::arithmetic::power::pow;
use vstd::arithmetic::power2::{is_pow2, is_pow2_equiv};

verus! {

/// Of every `STRIDE` consecutive incoming samples the first is kept and the
/// others are dropped. With two interleaved channels this keeps one channel.
pub const STRIDE: usize = 2;

/// `n` is 1, 2, 4, 8, ...
pub open spec fn is_power_of_two(n: nat) -> bool
    decreases n,
{
    n == 1 || (n > 1 && n % 2 == 0 && is_power_of_two(n / 2))
}

/// The powers of two are the numbers `2^e`, and no others.
pub proof fn lemma_power_of_two_has_exponent(n: nat)
    ensures
        is_power_of_two(n) <==> exists|e: nat| pow(2, e) == n,
{
    lemma_power_of_two_halves(n);
    is_pow2_equiv(n as int);
}

/// The definition here agrees with the recursive one of `vstd`.
proof fn lemma_power_of_two_halves(n: nat)
    ensures
        is_power_of_two(n) <==> is_pow2(n as int),
    decreases n,
{
    reveal(is_pow2);
    if n > 1 && n % 2 == 0 {
        lemma_power_of_two_halves(n / 2);
    }
}

/// Decides whether `n` is an exact power of two.
pub fn check_power_of_two(n: usize) -> (r: bool)
    ensures
        r == is_power_of_two(n as nat),
{
    if n == 0 {
        return false;
    }
    let mut m: usize = n;
    while m > 1 && m % 2 == 0
        invariant
            m >= 1,
            is_power_of_two(m as nat) == is_power_of_two(n as nat),
        decreases m,
    {
        m = m / 2;
    }
    m == 1
}

/// Why an assembler could not be built.
#[derive(Clone, Copy, Debug, PartialEq, Eq, Structural)]
pub enum WindowError {
    /// The requested capacity, which is not a power of two.
    InvalidWindowSize(usize),
}

/// What a call of `push` reports.
#[derive(Debug)]
pub enum WindowStatus {
    /// The window is not full yet.
    Filling,
    /// The window that this sample completed.
    Ready(Vec<i16>),
}

/// Collects samples until a window is complete.
pub struct WindowAssembler {
    capacity: usize,
    buffer: Vec<i16>,
    phase: usize,
}

impl WindowAssembler {
    /// The invariant: a power-of-two capacity, a buffer that is never full
    /// between calls, and a stride position below `STRIDE`.
    pub closed spec fn wf(&self) -> bool {
        &&& is_power_of_two(self.capacity as nat)
        &&& self.buffer@.len() < self.capacity
        &&& self.phase < STRIDE
    }

    /// The length of the windows that are handed out.
    pub closed spec fn spec_capacity(&self) -> usize {
        self.capacity
    }

    /// The samples kept so far for the window in progress.
    pub closed spec fn pending(&self) -> Seq<i16> {
        self.buffer@
    }

    /// How many samples have come in since the last one that was kept or is
    /// due to be kept; the next sample is kept when this is 0.
    pub closed spec fn spec_phase(&self) -> usize {
        self.phase
    }

    /// An empty assembler for windows of `capacity` samples.
    pub fn new(capacity: usize) -> (r: Result<WindowAssembler, WindowError>)
        ensures
            is_power_of_two(capacity as nat) ==> r is Ok,
            !is_power_of_two(capacity as nat) ==> r == Err::<WindowAssembler, WindowError>(
                WindowError::InvalidWindowSize(capacity),
            ),
            r matches Ok(a) ==> a.wf() && a.spec_capacity() == capacity && a.pending()
                == Seq::<i16>::empty() && a.spec_phase() == 0,
    {
        if check_power_of_two(capacity) {
            Ok(WindowAssembler { capacity, buffer: Vec::new(), phase: 0 })
        } else {
            Err(WindowError::InvalidWindowSize(capacity))
        }
    }

    #[verifier::when_used_as_spec(spec_capacity)]
    pub fn capacity(&self) -> (r: usize)
        ensures
            r == self.spec_capacity(),
    {
        self.capacity
    }

    /// The number of samples kept for the window in progress.
    pub fn len(&self) -> (r: usize)
        ensures
            r == self.pending().len(),
    {
        self.buffer.len()
    }

    /// Takes one incoming sample. A sample that the stride drops changes
    /// nothing but the stride position. A sample that is kept is appended; if
    /// that completes the window, the window is handed out and the assembler
    /// starts again from empty.
    pub fn push(&mut self, sample: i16) -> (r: WindowStatus)
        requires
            old(self).wf(),
        ensures
            final(self).wf(),
            final(self).spec_capacity() == old(self).spec_capacity(),
            final(self).spec_phase() == (old(self).spec_phase() + 1) % (STRIDE as int),
            r matches WindowStatus::Ready(w) ==> w@.len() == old(self).spec_capacity(),
            old(self).spec_phase() != 0 ==> r is Filling && final(self).pending() == old(
                self,
            ).pending(),
            old(self).spec_phase() == 0 && old(self).pending().len() + 1 < old(
                self,
            ).spec_capacity() ==> r is Filling && final(self).pending() == old(
                self,
            ).pending().push(sample),
            old(self).spec_phase() == 0 && old(self).pending().len() + 1 == old(
                self,
            ).spec_capacity() ==> final(self).pending() == Seq::<i16>::empty() && (r matches WindowStatus::Ready(
                w,
            ) && w@ == old(self).pending().push(sample)),
    {
        let keep = self.phase == 0;
        self.phase = if self.phase + 1 == STRIDE {
            0
        } else {
            self.phase + 1
        };
        if !keep {
            return WindowStatus::Filling;
        }
        self.buffer.push(sample);
        if self.buffer.len() == self.capacity {
            let mut full: Vec<i16> = Vec::new();
            std::mem::swap(&mut self.buffer, &mut full);
            WindowStatus::Ready(full)
        } else {
            WindowStatus::Filling
        }
    }
}

} // verus!
