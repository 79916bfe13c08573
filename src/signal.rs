use vstd::prelude::*;

verus! {

/// One audio sample: the bit pattern of an IEEE-754 single-precision value.
pub type Sample = u32;

/// An owned sequence of samples with its validity marker.
///
/// The marker is set exactly when the signal holds at least one sample.
pub struct SIGNAL_ {
    samples: Vec<Sample>,
    flag: bool,
}

impl View for SIGNAL_ {
    type V = Seq<Sample>;

    closed spec fn view(&self) -> Seq<Sample> {
        self.samples@
    }
}

impl SIGNAL_ {
    /// The marker agrees with the length.
    pub closed spec fn wf(&self) -> bool {
        self.flag == (self.samples@.len() > 0)
    }

    /// A signal with no samples; its marker is unset.
    pub fn new() -> (r: SIGNAL_)
        ensures
            r.wf(),
            r@ == Seq::<Sample>::empty(),
    {
        SIGNAL_ { samples: Vec::new(), flag: false }
    }

    /// Takes ownership of `samples` as a signal.
    pub fn from_samples(samples: Vec<Sample>) -> (r: SIGNAL_)
        ensures
            r.wf(),
            r@ == samples@,
    {
        let flag = samples.len() > 0;
        SIGNAL_ { samples, flag }
    }

    /// Number of samples held.
    pub fn signal_size(&self) -> (r: usize)
        ensures
            r == self@.len(),
    {
        self.samples.len()
    }

    /// The validity marker: set exactly when samples are held.
    pub fn flag(&self) -> (r: bool)
        requires
            self.wf(),
        ensures
            r == (self@.len() > 0),
    {
        self.flag
    }

    /// The samples, in order.
    pub fn as_slice(&self) -> (r: &[Sample])
        ensures
            r@ == self@,
    {
        self.samples.as_slice()
    }

    /// Gives up the signal and hands back its samples.
    pub fn into_samples(self) -> (r: Vec<Sample>)
        ensures
            r@ == self@,
    {
        self.samples
    }

    /// Overwrites the sample at `i`.
    pub(crate) fn set(&mut self, i: usize, x: Sample)
        requires
            old(self).wf(),
            i < old(self)@.len(),
        ensures
            final(self).wf(),
            final(self)@ == old(self)@.update(i as int, x),
    {
        self.samples.set(i, x);
    }

    /// Appends one sample.
    pub(crate) fn push(&mut self, x: Sample)
        requires
            old(self).wf(),
        ensures
            final(self).wf(),
            final(self)@ == old(self)@.push(x),
    {
        self.samples.push(x);
        self.flag = true;
    }
}

} // verus!
