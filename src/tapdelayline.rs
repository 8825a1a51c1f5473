use vstd::prelude::*;

use crate::reverb::{is_tap_sum, next_cursor, tap_trace};

verus! {

/// A delay line read at several fixed distances ahead of the write point.
/// Each output is the oldest sample plus every tapped sample scaled by a
/// gain; the sample arithmetic is handed in as closures.
pub struct TappedDelayLine<S> {
    buffer: Vec<S>,
    tap_delays: Vec<usize>,
    next_sample_index: usize,
}

impl<S: Copy> TappedDelayLine<S> {
    /// The buffer's samples.
    pub closed spec fn samples(&self) -> Seq<S> {
        self.buffer@
    }

    /// The tap distances.
    pub closed spec fn taps(&self) -> Seq<usize> {
        self.tap_delays@
    }

    /// The index the next sample is written to.
    pub closed spec fn cursor(&self) -> int {
        self.next_sample_index as int
    }

    /// The cursor indexes a non-empty buffer.
    pub open spec fn wf(&self) -> bool {
        0 <= self.cursor() < self.samples().len()
    }

    /// The samples the taps read, in order.
    pub open spec fn tap_reads(&self) -> Seq<S> {
        Seq::new(
            self.taps().len(),
            |k: int|
                self.samples()[(self.cursor() + self.taps()[k] as int) % self.samples().len() as int],
        )
    }

    /// The buffer's samples.
    pub fn buffer(&self) -> (r: &Vec<S>)
        ensures
            r@ == self.samples(),
    {
        &self.buffer
    }

    /// A line of `max_delay + 1` silent samples with taps at `tap_delays`.
    pub fn new(max_delay: usize, tap_delays: Vec<usize>, silence: S) -> (r: Self)
        requires
            max_delay < usize::MAX,
        ensures
            r.wf(),
            r.samples() == Seq::new((max_delay + 1) as nat, |i: int| silence),
            r.taps() == tap_delays@,
            r.cursor() == 0,
    {
        let size = max_delay + 1;
        let mut buffer: Vec<S> = Vec::new();
        while buffer.len() < size
            invariant
                buffer@.len() <= size,
                forall|i: int| 0 <= i < buffer@.len() ==> buffer@[i] == silence,
            decreases size - buffer@.len(),
        {
            buffer.push(silence);
        }
        assert(buffer@ =~= Seq::new(size as nat, |i: int| silence));
        TappedDelayLine { buffer, tap_delays, next_sample_index: 0 }
    }

    /// Returns the sample at the cursor plus every tapped sample scaled by
    /// `reverb_gain` (through `tap` and `mix`), then writes `input` at the
    /// cursor and moves it on by one.
    pub fn process<T: Fn(S, S) -> S, M: Fn(S, S) -> S>(
        &mut self,
        input: S,
        reverb_gain: S,
        tap: &T,
        mix: &M,
    ) -> (r: S)
        requires
            old(self).wf(),
            forall|a: S, b: S| call_requires(*tap, (a, b)),
            forall|a: S, b: S| call_requires(*mix, (a, b)),
        ensures
            final(self).wf(),
            is_tap_sum(
                *tap,
                *mix,
                reverb_gain,
                old(self).samples()[old(self).cursor()],
                old(self).tap_reads(),
                r,
            ),
            final(self).samples() == old(self).samples().update(old(self).cursor(), input),
            final(self).cursor() == (old(self).cursor() + 1) % old(self).samples().len() as int,
            final(self).taps() == old(self).taps(),
    {
        let len = self.buffer.len();
        let next = self.next_sample_index;
        let mut output = self.buffer[next];
        let ghost start = output;
        let ghost mut parts: Seq<S> = Seq::empty();
        let ghost mut sums: Seq<S> = seq![output];
        let mut k: usize = 0;
        while k < self.tap_delays.len()
            invariant
                self.wf(),
                len == self.samples().len(),
                next == self.cursor(),
                k <= self.taps().len(),
                start == self.samples()[next as int],
                forall|a: S, b: S| call_requires(*tap, (a, b)),
                forall|a: S, b: S| call_requires(*mix, (a, b)),
                tap_trace(
                    *tap,
                    *mix,
                    reverb_gain,
                    start,
                    self.tap_reads().subrange(0, k as int),
                    parts,
                    sums,
                ),
                output == sums.last(),
            decreases self.taps().len() - k,
        {
            let idx = ((next as u128 + self.tap_delays[k] as u128) % (len as u128)) as usize;
            let part = tap(self.buffer[idx], reverb_gain);
            let sum = mix(output, part);
            proof {
                let old_sums = sums;
                parts = parts.push(part);
                sums = sums.push(sum);
                let reads = self.tap_reads().subrange(0, k + 1);
                assert(reads =~= self.tap_reads().subrange(0, k as int).push(self.buffer@[idx as int]));
                assert forall|j: int| 0 <= j < reads.len() implies {
                    &&& call_ensures(*tap, (reads[j], reverb_gain), #[trigger] parts[j])
                    &&& call_ensures(*mix, (sums[j], parts[j]), sums[j + 1])
                } by {
                    if j < k {
                        assert(parts[j] == parts.drop_last()[j]);
                        assert(sums[j] == old_sums[j]);
                        assert(sums[j + 1] == old_sums[j + 1]);
                    }
                }
            }
            output = sum;
            k = k + 1;
        }
        proof {
            assert(self.tap_reads().subrange(0, k as int) =~= self.tap_reads());
        }
        self.buffer.set(next, input);
        self.next_sample_index = next_cursor(next, len);
        output
    }
}

} // verus!
