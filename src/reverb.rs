use vstd::prelude::*;

verus! {

/// The sum of a schedule's offsets.
pub open spec fn offset_sum(s: Seq<u64>) -> int
    decreases s.len(),
{
    if s.len() == 0 {
        0
    } else {
        offset_sum(s.drop_last()) + s.last() as int
    }
}

/// The buffer length a schedule asks for: twice the sum of its offsets.
pub open spec fn capacity_for(s: Seq<u64>) -> int {
    2 * offset_sum(s)
}

proof fn lemma_offset_sum_prefix(s: Seq<u64>, k: int)
    requires
        0 <= k <= s.len(),
    ensures
        0 <= offset_sum(s.subrange(0, k)) <= offset_sum(s),
    decreases s.len() - k,
{
    if k < s.len() {
        lemma_offset_sum_prefix(s, k + 1);
        lemma_offset_sum_nonneg(s.subrange(0, k));
        assert(s.subrange(0, k + 1).drop_last() =~= s.subrange(0, k));
    } else {
        assert(s.subrange(0, k) =~= s);
        lemma_offset_sum_nonneg(s);
    }
}

pub proof fn lemma_offset_sum_nonneg(s: Seq<u64>)
    ensures
        0 <= offset_sum(s),
    decreases s.len(),
{
    if s.len() > 0 {
        lemma_offset_sum_nonneg(s.drop_last());
    }
}

/// The buffer length that `delay_times` asks for, or `None` where it does not
/// fit in `usize`.
pub fn buffer_capacity(delay_times: &Vec<u64>) -> (r: Option<usize>)
    ensures
        r == (if capacity_for(delay_times@) <= usize::MAX {
            Some(capacity_for(delay_times@) as usize)
        } else {
            None::<usize>
        }),
{
    let mut sum: u128 = 0;
    let mut k: usize = 0;
    while k < delay_times.len()
        invariant
            k <= delay_times@.len(),
            sum as int == offset_sum(delay_times@.subrange(0, k as int)),
            2 * sum <= usize::MAX,
        decreases delay_times@.len() - k,
    {
        proof {
            assert(delay_times@.subrange(0, k + 1).drop_last() =~= delay_times@.subrange(
                0,
                k as int,
            ));
        }
        sum = sum + delay_times[k] as u128;
        k = k + 1;
        if sum > (usize::MAX as u128) / 2 {
            proof {
                lemma_offset_sum_prefix(delay_times@, k as int);
            }
            return None;
        }
    }
    proof {
        assert(delay_times@.subrange(0, k as int) =~= delay_times@);
    }
    Some((2 * sum) as usize)
}

/// Whether two schedules hold the same offsets in the same order.
fn same_schedule(a: &Vec<u64>, b: &Vec<u64>) -> (r: bool)
    ensures
        r == (a@ == b@),
{
    if a.len() != b.len() {
        return false;
    }
    let mut k: usize = 0;
    while k < a.len()
        invariant
            k <= a@.len(),
            a@.len() == b@.len(),
            forall|j: int| 0 <= j < k ==> a@[j] == b@[j],
        decreases a@.len() - k,
    {
        if a[k] != b[k] {
            return false;
        }
        k = k + 1;
    }
    assert(a@ =~= b@);
    true
}

/// Overwrites every sample of `buf` with `fill`.
fn fill_with<S: Copy>(buf: &mut Vec<S>, fill: S)
    ensures
        final(buf)@ == Seq::new(old(buf)@.len(), |i: int| fill),
{
    let len = buf.len();
    let mut i: usize = 0;
    while i < len
        invariant
            i <= len,
            len == buf@.len(),
            forall|j: int| 0 <= j < i ==> buf@[j] == fill,
        decreases len - i,
    {
        buf.set(i, fill);
        i = i + 1;
    }
    assert(buf@ =~= Seq::new(len as nat, |i: int| fill));
}

/// Extends `buf` to `len` samples with copies of `fill`.
fn extend_with<S: Copy>(buf: &mut Vec<S>, len: usize, fill: S)
    requires
        old(buf)@.len() <= len,
    ensures
        final(buf)@.len() == len,
        forall|i: int| 0 <= i < old(buf)@.len() ==> final(buf)@[i] == old(buf)@[i],
        forall|i: int| old(buf)@.len() <= i < len ==> final(buf)@[i] == fill,
{
    let ghost before = buf@;
    while buf.len() < len
        invariant
            before.len() <= buf@.len() <= len,
            forall|i: int| 0 <= i < before.len() ==> buf@[i] == before[i],
            forall|i: int| before.len() <= i < buf@.len() ==> buf@[i] == fill,
        decreases len - buf@.len(),
    {
        buf.push(fill);
    }
}

/// Cuts `buf` down to its first `len` samples, replacing each with what
/// `fade` makes of it and its index.
fn truncate_fading<S: Copy, F: Fn(S, usize) -> S>(buf: &mut Vec<S>, len: usize, fade: &F)
    requires
        len <= old(buf)@.len(),
        forall|s: S, i: usize| call_requires(*fade, (s, i)),
    ensures
        final(buf)@.len() == len,
        forall|i: int|
            0 <= i < len ==> call_ensures(*fade, (old(buf)@[i], i as usize), #[trigger] final(buf)@[i]),
{
    let ghost before = buf@;
    buf.truncate(len);
    let mut i: usize = 0;
    while i < len
        invariant
            i <= len,
            len <= before.len(),
            buf@.len() == len,
            forall|s: S, j: usize| call_requires(*fade, (s, j)),
            forall|j: int| i <= j < len ==> buf@[j] == before[j],
            forall|j: int|
                0 <= j < i ==> call_ensures(*fade, (before[j], j as usize), #[trigger] buf@[j]),
        decreases len - i,
    {
        let faded = fade(buf[i], i);
        buf.set(i, faded);
        i = i + 1;
    }
}

/// `sums` runs through a sum of tapped samples: it starts at `start` and
/// each next entry is what `mix` makes of the previous one and `parts[k]`,
/// which is what `tap` makes of the sample read by tap `k` and the gain (for
/// a reverb unit, its decay).
pub open spec fn tap_trace<S, T: Fn(S, S) -> S, M: Fn(S, S) -> S>(
    tap: T,
    mix: M,
    gain: S,
    start: S,
    reads: Seq<S>,
    parts: Seq<S>,
    sums: Seq<S>,
) -> bool {
    &&& parts.len() == reads.len()
    &&& sums.len() == reads.len() + 1
    &&& sums[0] == start
    &&& forall|k: int|
        0 <= k < reads.len() ==> {
            &&& call_ensures(tap, (reads[k], gain), #[trigger] parts[k])
            &&& call_ensures(mix, (sums[k], parts[k]), sums[k + 1])
        }
}

/// `r` is `start` plus, through `mix`, every reading in `reads` scaled by
/// `tap` with `gain`, in order.
pub open spec fn is_tap_sum<S, T: Fn(S, S) -> S, M: Fn(S, S) -> S>(
    tap: T,
    mix: M,
    gain: S,
    start: S,
    reads: Seq<S>,
    r: S,
) -> bool {
    exists|parts: Seq<S>, sums: Seq<S>|
        #[trigger] tap_trace(tap, mix, gain, start, reads, parts, sums) && r == sums.last()
}

/// The index after `w` in a ring of `len` places.
pub(crate) fn next_cursor(w: usize, len: usize) -> (r: usize)
    requires
        w < len,
    ensures
        r as int == (w + 1) % len as int,
{
    if w + 1 == len {
        proof {
            vstd::arithmetic::div_mod::lemma_mod_self_0(len as int);
        }
        0
    } else {
        proof {
            vstd::arithmetic::div_mod::lemma_small_mod((w + 1) as nat, len as nat);
        }
        w + 1
    }
}

/// One delay-line reverb unit: a circular buffer of samples read at the
/// offsets of a tap schedule, with feedback scaled by `decay`.
///
/// The unit is generic over the sample type: the arithmetic on samples (the
/// scaling of a tap by the decay, the sum of two samples, the fade applied
/// when the buffer shrinks) is handed in by the caller as closures, and the
/// contracts say which values were handed to them and where their results
/// went. `silence` is the value that fills new buffer space.
pub struct Reverb<S> {
    delay_times: Vec<u64>,
    decay: S,
    buffer: Vec<S>,
    write_index: usize,
    read_offset: usize,
    silence: S,
}

impl<S: Copy> Reverb<S> {
    /// The tap schedule.
    pub closed spec fn taps(&self) -> Seq<u64> {
        self.delay_times@
    }

    /// The feedback coefficient.
    pub closed spec fn decay_value(&self) -> S {
        self.decay
    }

    /// The buffer's samples, by index.
    pub closed spec fn samples(&self) -> Seq<S> {
        self.buffer@
    }

    /// The index the next sample is written to.
    pub closed spec fn cursor(&self) -> int {
        self.write_index as int
    }

    /// The read bias added to every tap (the Haas offset).
    pub closed spec fn bias(&self) -> int {
        self.read_offset as int
    }

    /// The value that fills new buffer space.
    pub closed spec fn silence_value(&self) -> S {
        self.silence
    }

    /// The cursor indexes the buffer, or is zero for an empty buffer.
    pub open spec fn wf(&self) -> bool {
        &&& 0 <= self.cursor()
        &&& (self.cursor() < self.samples().len() || (self.samples().len() == 0
            && self.cursor() == 0))
        &&& 0 <= self.bias() <= usize::MAX
        &&& self.samples().len() <= usize::MAX
    }

    /// The buffer index tap `k` reads.
    pub open spec fn read_index(&self, k: int) -> int {
        (self.bias() + self.cursor() + self.taps()[k] as int) % self.samples().len() as int
    }

    /// The samples the taps read, in schedule order.
    pub open spec fn tap_reads(&self) -> Seq<S> {
        Seq::new(self.taps().len(), |k: int| self.samples()[self.read_index(k)])
    }

    /// `next` is `self` after `update(taps, decay)`, as far as the shape of
    /// the buffer goes (the read bias aside): the schedule and decay are
    /// replaced; an unchanged schedule leaves buffer and cursor alone; a
    /// changed one resizes the buffer to `capacity_for(taps)`, keeping the low
    /// samples on growth and filling the rest with silence, or keeping only
    /// the low samples on shrinking and clamping the cursor into range.
    pub open spec fn updated(&self, next: &Self, taps: Seq<u64>, decay: S) -> bool {
        let old_len = self.samples().len();
        let new_len = capacity_for(taps);
        &&& next.taps() == taps
        &&& next.decay_value() == decay
        &&& next.silence_value() == self.silence_value()
        &&& if taps == self.taps() || new_len == old_len {
            next.samples() == self.samples() && next.cursor() == self.cursor()
        } else if new_len > old_len {
            &&& next.samples().len() == new_len
            &&& next.cursor() == self.cursor()
            &&& forall|i: int| 0 <= i < old_len ==> next.samples()[i] == self.samples()[i]
            &&& forall|i: int| old_len <= i < new_len ==> next.samples()[i] == self.silence_value()
        } else {
            &&& next.samples().len() == new_len
            &&& next.cursor() == (if self.cursor() < new_len {
                self.cursor()
            } else if new_len == 0 {
                0
            } else {
                new_len - 1
            })
        }
    }

    /// `next` is `self` after `update(taps, decay)`: the shape of the buffer
    /// as `updated` says, and the read bias unchanged.
    pub open spec fn update_result(&self, next: &Self, taps: Seq<u64>, decay: S) -> bool {
        &&& self.updated(next, taps, decay)
        &&& next.bias() == self.bias()
    }

    /// Whether `update(taps, _)` shrinks the buffer.
    pub open spec fn shrinks(&self, taps: Seq<u64>) -> bool {
        taps != self.taps() && capacity_for(taps) < self.samples().len()
    }

    /// Schedule, decay, read bias and silence agree.
    pub open spec fn same_settings(&self, other: &Self) -> bool {
        &&& self.taps() == other.taps()
        &&& self.decay_value() == other.decay_value()
        &&& self.bias() == other.bias()
        &&& self.silence_value() == other.silence_value()
    }

    /// `next` and `r` are what `process(input, tap, mix)` makes of `self`.
    pub open spec fn processed<T: Fn(S, S) -> S, M: Fn(S, S) -> S>(
        &self,
        next: &Self,
        input: S,
        tap: T,
        mix: M,
        r: S,
    ) -> bool {
        &&& next.wf()
        &&& self.samples().len() == 0 ==> r == input && *next == *self
        &&& self.samples().len() > 0 ==> {
            let c = self.cursor();
            &&& is_tap_sum(tap, mix, self.decay_value(), self.silence_value(), self.tap_reads(), r)
            &&& call_ensures(mix, (input, r), next.samples()[c])
            &&& next.samples() == self.samples().update(c, next.samples()[c])
            &&& next.cursor() == (c + 1) % self.samples().len() as int
            &&& next.same_settings(self)
        }
    }

    /// A fresh unit: schedule `taps`, feedback `decay`, a silent buffer of
    /// the length the schedule asks for, the cursor at the start.
    pub open spec fn is_fresh(&self, taps: Seq<u64>, decay: S, silence: S) -> bool {
        &&& self.wf()
        &&& self.taps() == taps
        &&& self.decay_value() == decay
        &&& self.silence_value() == silence
        &&& self.samples() == Seq::new(capacity_for(taps) as nat, |i: int| silence)
        &&& self.cursor() == 0
    }

    /// A unit with schedule `delay_times`, feedback `decay` and a buffer of
    /// `buffer_size` silent samples.
    pub fn new(delay_times: Vec<u64>, decay: S, buffer_size: usize, silence: S) -> (r: Self)
        ensures
            r.wf(),
            r.taps() == delay_times@,
            r.decay_value() == decay,
            r.samples() == Seq::new(buffer_size as nat, |i: int| silence),
            r.cursor() == 0,
            r.bias() == 0,
            r.silence_value() == silence,
    {
        let mut buffer: Vec<S> = Vec::new();
        while buffer.len() < buffer_size
            invariant
                buffer@.len() <= buffer_size,
                forall|i: int| 0 <= i < buffer@.len() ==> buffer@[i] == silence,
            decreases buffer_size - buffer@.len(),
        {
            buffer.push(silence);
        }
        let r = Reverb {
            delay_times,
            decay,
            buffer,
            write_index: 0,
            read_offset: 0,
            silence,
        };
        assert(r.samples() =~= Seq::new(buffer_size as nat, |i: int| silence));
        r
    }

    /// Replaces the schedule and the decay. The decay always applies. Where
    /// the schedule changed, the buffer is resized to twice the sum of the
    /// new offsets: growing keeps every sample and adds silence at the end;
    /// shrinking keeps the low samples, hands each with its index to `fade`
    /// (a fade-out, so that the cut leaves no step) and clamps the cursor.
    pub fn update<F: Fn(S, usize) -> S>(&mut self, delay_times: Vec<u64>, decay: S, fade: &F)
        requires
            old(self).wf(),
            capacity_for(delay_times@) <= usize::MAX,
            forall|s: S, i: usize| call_requires(*fade, (s, i)),
        ensures
            final(self).wf(),
            old(self).update_result(&*final(self), delay_times@, decay),
            old(self).shrinks(delay_times@) ==> forall|i: int|
                0 <= i < capacity_for(delay_times@) ==> call_ensures(
                    *fade,
                    (old(self).samples()[i], i as usize),
                    #[trigger] final(self).samples()[i],
                ),
    {
        self.decay = decay;
        if same_schedule(&delay_times, &self.delay_times) {
            self.delay_times = delay_times;
            return;
        }
        proof {
            lemma_offset_sum_nonneg(delay_times@);
        }
        let new_len = match buffer_capacity(&delay_times) {
            Some(n) => n,
            None => 0,
        };
        self.delay_times = delay_times;
        let old_len = self.buffer.len();
        if new_len > old_len {
            extend_with(&mut self.buffer, new_len, self.silence);
        } else if new_len < old_len {
            truncate_fading(&mut self.buffer, new_len, fade);
            if self.write_index >= new_len {
                self.write_index = if new_len == 0 {
                    0
                } else {
                    new_len - 1
                };
            }
        }
    }

    /// The feedback term at the current cursor: the sum, through `mix` and
    /// starting from silence, of what `tap` makes of every tap's reading and
    /// the decay.
    fn feedback<T: Fn(S, S) -> S, M: Fn(S, S) -> S>(&self, tap: &T, mix: &M) -> (r: S)
        requires
            self.wf(),
            self.samples().len() > 0,
            forall|a: S, b: S| call_requires(*tap, (a, b)),
            forall|a: S, b: S| call_requires(*mix, (a, b)),
        ensures
            is_tap_sum(*tap, *mix, self.decay_value(), self.silence_value(), self.tap_reads(), r),
    {
        let len = self.buffer.len();
        let mut acc = self.silence;
        let ghost mut parts: Seq<S> = Seq::empty();
        let ghost mut sums: Seq<S> = seq![self.silence];
        let mut k: usize = 0;
        while k < self.delay_times.len()
            invariant
                self.wf(),
                len == self.samples().len(),
                len > 0,
                k <= self.taps().len(),
                forall|a: S, b: S| call_requires(*tap, (a, b)),
                forall|a: S, b: S| call_requires(*mix, (a, b)),
                tap_trace(
                    *tap,
                    *mix,
                    self.decay_value(),
                    self.silence_value(),
                    self.tap_reads().subrange(0, k as int),
                    parts,
                    sums,
                ),
                acc == sums.last(),
            decreases self.taps().len() - k,
        {
            let idx = ((self.read_offset as u128 + self.write_index as u128
                + self.delay_times[k] as u128) % (len as u128)) as usize;
            assert(idx == self.read_index(k as int));
            let part = tap(self.buffer[idx], self.decay);
            let next = mix(acc, part);
            proof {
                let old_sums = sums;
                parts = parts.push(part);
                sums = sums.push(next);
                let reads = self.tap_reads().subrange(0, k + 1);
                assert(reads =~= self.tap_reads().subrange(0, k as int).push(
                    self.buffer@[idx as int],
                ));
                assert forall|j: int| 0 <= j < reads.len() implies {
                    &&& call_ensures(*tap, (reads[j], self.decay), #[trigger] parts[j])
                    &&& call_ensures(*mix, (sums[j], parts[j]), sums[j + 1])
                } by {
                    if j < k {
                        assert(parts[j] == parts.drop_last()[j]);
                        assert(sums[j] == old_sums[j]);
                        assert(sums[j + 1] == old_sums[j + 1]);
                    }
                }
            }
            acc = next;
            k = k + 1;
        }
        proof {
            assert(self.tap_reads().subrange(0, k as int) =~= self.tap_reads());
        }
        acc
    }

    /// Runs one sample through the unit and returns the feedback term alone
    /// (not the input plus it). Each tap reads the buffer at the cursor plus
    /// the read bias plus its offset, wrapped to the buffer; every reading,
    /// scaled by `tap` with the decay, contributes one echo, and the feedback
    /// is their sum through `mix`, starting from silence (silence where the
    /// schedule is empty). The input plus the feedback, as `mix` makes it, is
    /// written at the cursor, which then moves on by one. An empty buffer
    /// hands the input back and changes nothing.
    pub fn process<T: Fn(S, S) -> S, M: Fn(S, S) -> S>(
        &mut self,
        input: S,
        tap: &T,
        mix: &M,
    ) -> (r: S)
        requires
            old(self).wf(),
            forall|a: S, b: S| call_requires(*tap, (a, b)),
            forall|a: S, b: S| call_requires(*mix, (a, b)),
        ensures
            old(self).processed(&*final(self), input, *tap, *mix, r),
    {
        let len = self.buffer.len();
        if len == 0 {
            return input;
        }
        let fed = self.feedback(tap, mix);
        let written = mix(input, fed);
        self.buffer.set(self.write_index, written);
        self.write_index = next_cursor(self.write_index, len);
        fed
    }

    /// Computes the feedback term as `process` does and moves the cursor on,
    /// but writes nothing into the buffer. An empty buffer hands the input
    /// back and changes nothing.
    pub fn locked_buffer_process<T: Fn(S, S) -> S, M: Fn(S, S) -> S>(
        &mut self,
        input: S,
        tap: &T,
        mix: &M,
    ) -> (r: S)
        requires
            old(self).wf(),
            forall|a: S, b: S| call_requires(*tap, (a, b)),
            forall|a: S, b: S| call_requires(*mix, (a, b)),
        ensures
            final(self).wf(),
            old(self).samples().len() == 0 ==> r == input && *final(self) == *old(self),
            old(self).samples().len() > 0 ==> {
                &&& is_tap_sum(
                    *tap,
                    *mix,
                    old(self).decay_value(),
                    old(self).silence_value(),
                    old(self).tap_reads(),
                    r,
                )
                &&& final(self).samples() == old(self).samples()
                &&& final(self).cursor() == (old(self).cursor() + 1) % old(self).samples().len() as int
                &&& final(self).same_settings(&*old(self))
            },
    {
        let len = self.buffer.len();
        if len == 0 {
            return input;
        }
        let fed = self.feedback(tap, mix);
        self.write_index = next_cursor(self.write_index, len);
        fed
    }

    /// Silences the whole buffer and moves the cursor to the start, keeping
    /// the buffer's length, the schedule, the decay and the read bias.
    pub fn reset(&mut self)
        requires
            old(self).wf(),
        ensures
            final(self).wf(),
            final(self).samples() == Seq::new(old(self).samples().len(), |i: int| old(self).silence_value()),
            final(self).cursor() == 0,
            final(self).same_settings(&*old(self)),
    {
        fill_with(&mut self.buffer, self.silence);
        self.write_index = 0;
    }

    /// The tap schedule.
    pub fn delay_times(&self) -> (r: &Vec<u64>)
        ensures
            r@ == self.taps(),
    {
        &self.delay_times
    }

    /// The buffer's samples.
    pub fn buffer(&self) -> (r: &Vec<S>)
        ensures
            r@ == self.samples(),
    {
        &self.buffer
    }

    /// The index the next sample is written to.
    pub fn write_index(&self) -> (r: usize)
        ensures
            r == self.cursor(),
    {
        self.write_index
    }

    /// The read bias added to every tap.
    pub fn read_offset(&self) -> (r: usize)
        ensures
            r == self.bias(),
    {
        self.read_offset
    }

    /// The feedback coefficient.
    pub fn decay(&self) -> (r: S)
        ensures
            r == self.decay_value(),
    {
        self.decay
    }

    /// Sets the read bias added to every tap, leaving the cursor where it is:
    /// this delays one channel against the other.
    pub fn shift_buffer(&mut self, amount: usize)
        requires
            old(self).wf(),
        ensures
            final(self).wf(),
            final(self).bias() == amount,
            final(self).taps() == old(self).taps(),
            final(self).decay_value() == old(self).decay_value(),
            final(self).silence_value() == old(self).silence_value(),
            final(self).samples() == old(self).samples(),
            final(self).cursor() == old(self).cursor(),
    {
        self.read_offset = amount;
    }
}

/// Updating a unit a second time with the same schedule and decay changes
/// neither its buffer nor its cursor, nor anything else.
pub proof fn lemma_update_idempotent<S: Copy>(
    first: Reverb<S>,
    second: Reverb<S>,
    third: Reverb<S>,
    taps: Seq<u64>,
    decay: S,
)
    requires
        first.update_result(&second, taps, decay),
        second.update_result(&third, taps, decay),
    ensures
        third.samples() == second.samples(),
        third.cursor() == second.cursor(),
        third.bias() == second.bias(),
        third.taps() == taps,
        third.decay_value() == decay,
{
}

/// An update that grows the buffer keeps every old sample at its index and
/// fills the new space with silence.
pub proof fn lemma_grow_keeps_samples<S: Copy>(
    before: Reverb<S>,
    after: Reverb<S>,
    taps: Seq<u64>,
    decay: S,
)
    requires
        before.update_result(&after, taps, decay),
        taps != before.taps(),
        capacity_for(taps) > before.samples().len(),
    ensures
        after.samples().len() == capacity_for(taps),
        forall|i: int|
            0 <= i < before.samples().len() ==> #[trigger] after.samples()[i] == before.samples()[i],
        forall|i: int|
            before.samples().len() <= i < capacity_for(taps) ==> #[trigger] after.samples()[i]
                == before.silence_value(),
        after.cursor() == before.cursor(),
{
}

} // verus!
