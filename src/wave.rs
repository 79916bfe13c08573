use vstd::prelude::*;
use crate::signal::{Sample, SIGNAL_};

verus! {

/// Bit pattern of the sample value `+0.0`.
pub const SILENCE: Sample = 0;

/// A signal of `signal_size` silent samples. With no samples asked for,
/// nothing is allocated and the signal is marked invalid.
pub fn build_blank_wave(signal_size: usize) -> (r: SIGNAL_)
    ensures
        r.wf(),
        r@ == Seq::new(signal_size as nat, |i: int| SILENCE),
{
    let mut samples: Vec<Sample> = Vec::new();
    let mut i: usize = 0;
    while i < signal_size
        invariant
            i <= signal_size,
            samples@ == Seq::new(i as nat, |k: int| SILENCE),
        decreases signal_size - i,
    {
        samples.push(SILENCE);
        i = i + 1;
        assert(samples@ =~= Seq::new(i as nat, |k: int| SILENCE));
    }
    SIGNAL_::from_samples(samples)
}

/// A signal of `signal_size` samples whose sample at index `i` is what
/// `sample_at` gives for `i`, in index order. With no samples asked for,
/// `sample_at` is not called, nothing is allocated and the signal is marked
/// invalid.
pub fn build_wave<F: Fn(usize) -> Sample>(signal_size: usize, sample_at: F) -> (r: SIGNAL_)
    requires
        forall|i: usize| i < signal_size ==> sample_at.requires((i,)),
    ensures
        r.wf(),
        r@.len() == signal_size,
        forall|i: int| 0 <= i < signal_size ==> sample_at.ensures((i as usize,), #[trigger] r@[i]),
{
    let mut samples: Vec<Sample> = Vec::new();
    let mut i: usize = 0;
    while i < signal_size
        invariant
            i <= signal_size,
            forall|j: usize| j < signal_size ==> sample_at.requires((j,)),
            samples@.len() == i,
            forall|j: int| 0 <= j < i ==> sample_at.ensures((j as usize,), #[trigger] samples@[j]),
        decreases signal_size - i,
    {
        let x = sample_at(i);
        samples.push(x);
        i = i + 1;
    }
    SIGNAL_::from_samples(samples)
}

} // verus!
