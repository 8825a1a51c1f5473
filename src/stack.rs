use vstd::prelude::*;

use crate::reverb::{buffer_capacity, capacity_for, lemma_offset_sum_nonneg, Reverb};
use crate::schedule::{generate_steps, offsets_of, tap_schedule, ReverbType};

verus! {

/// The structural settings a stack is built from.
#[derive(PartialEq, Eq, Structural, Clone, Copy, Debug)]
pub struct StackSettings {
    /// Base delay of the first unit, in samples.
    pub base_delay: i32,
    /// Number of steps of each unit's schedule.
    pub step_count: i32,
    /// How the taps are spaced.
    pub algorithm: ReverbType,
    /// Inter-channel delay in samples: positive delays the left channel,
    /// negative the right one.
    pub width_offset: i32,
}

/// What can stop a stack from being rebuilt.
#[derive(PartialEq, Eq, Structural, Clone, Copy, Debug)]
pub enum StackError {
    /// A schedule asks for a buffer longer than memory can index.
    CapacityOverflow,
}

/// The base delay of the unit at 0-based position `k`: the stack's base
/// delay divided by the 1-based position.
pub open spec fn stage_delay(settings: StackSettings, k: int) -> int {
    settings.base_delay as int / (k + 1)
}

/// The schedule of the unit at 0-based position `k`.
pub open spec fn stage_schedule(settings: StackSettings, k: int) -> Seq<int> {
    tap_schedule(settings.algorithm, stage_delay(settings, k), settings.step_count as int)
}

/// The schedule of the unit at position `k`, as machine offsets.
pub open spec fn stage_taps(settings: StackSettings, k: int) -> Seq<u64> {
    stage_schedule(settings, k).map_values(|x: int| x as u64)
}

/// The settings are within what the stack can be built from at `size`
/// units: every unit's base delay is positive, and there are at least two
/// steps.
pub open spec fn settings_ok(settings: StackSettings, size: int) -> bool {
    &&& settings.base_delay >= 1
    &&& settings.base_delay as int >= size
    &&& settings.step_count >= 2
}

/// The read bias a unit of the left channel gets from `settings`, if any.
pub open spec fn left_shift(settings: StackSettings) -> Option<int> {
    if settings.width_offset > 0 {
        Some(settings.width_offset as int)
    } else {
        None
    }
}

/// The read bias a unit of the right channel gets from `settings`, if any.
pub open spec fn right_shift(settings: StackSettings) -> Option<int> {
    if settings.width_offset < 0 {
        Some(-(settings.width_offset as int))
    } else {
        None
    }
}

proof fn lemma_offsets_exact(r: Seq<u64>, t: Seq<int>)
    requires
        offsets_of(r) == t,
    ensures
        r == t.map_values(|x: int| x as u64),
{
    assert(r =~= t.map_values(|x: int| x as u64)) by {
        assert forall|j: int| 0 <= j < r.len() implies r[j] == t.map_values(|x: int| x as u64)[j] by {
            assert(offsets_of(r)[j] == r[j] as int);
        }
    }
}

/// A copy of a schedule.
fn copy_schedule(v: &Vec<u64>) -> (r: Vec<u64>)
    ensures
        r@ == v@,
{
    let mut r: Vec<u64> = Vec::new();
    let mut k: usize = 0;
    while k < v.len()
        invariant
            k <= v@.len(),
            r@ == v@.subrange(0, k as int),
        decreases v@.len() - k,
    {
        r.push(v[k]);
        k = k + 1;
        assert(r@ =~= v@.subrange(0, k as int));
    }
    assert(v@.subrange(0, k as int) =~= v@);
    r
}

/// The schedules and buffer lengths of the first `size` units.
fn build_schedules(settings: StackSettings, size: usize) -> (r: Result<(Vec<Vec<u64>>, Vec<usize>), StackError>)
    requires
        settings_ok(settings, size as int),
    ensures
        r is Ok <==> forall|k: int| 0 <= k < size ==> capacity_for(#[trigger] stage_taps(settings, k)) <= usize::MAX,
        r matches Ok((s, c)) ==> {
            &&& s@.len() == size
            &&& c@.len() == size
            &&& forall|k: int| 0 <= k < size ==> (#[trigger] s@[k])@ == stage_taps(settings, k)
            &&& forall|k: int| 0 <= k < size ==> (#[trigger] c@[k]) as int == capacity_for(stage_taps(settings, k))
        },
{
    let mut schedules: Vec<Vec<u64>> = Vec::new();
    let mut caps: Vec<usize> = Vec::new();
    let mut k: usize = 0;
    while k < size
        invariant
            k <= size,
            settings_ok(settings, size as int),
            schedules@.len() == k,
            caps@.len() == k,
            forall|j: int| 0 <= j < k ==> (#[trigger] schedules@[j])@ == stage_taps(settings, j),
            forall|j: int| 0 <= j < k ==> (#[trigger] caps@[j]) as int == capacity_for(stage_taps(settings, j)),
            forall|j: int| 0 <= j < k ==> capacity_for(#[trigger] stage_taps(settings, j)) <= usize::MAX,
        decreases size - k,
    {
        let position = (k + 1) as i32;
        assert(settings.base_delay / position >= 1) by (nonlinear_arith)
            requires
                settings.base_delay >= position,
                position >= 1,
        ;
        let sched = generate_steps(settings.base_delay / position, settings.step_count, settings.algorithm);
        proof {
            lemma_offsets_exact(sched@, stage_schedule(settings, k as int));
            lemma_offset_sum_nonneg(sched@);
        }
        match buffer_capacity(&sched) {
            Some(c) => {
                schedules.push(sched);
                caps.push(c);
            },
            None => {
                assert(capacity_for(stage_taps(settings, k as int)) > usize::MAX);
                return Err(StackError::CapacityOverflow);
            },
        }
        k = k + 1;
    }
    Ok((schedules, caps))
}

/// A machine bias read as an integer.
pub open spec fn as_bias(shift: Option<usize>) -> Option<int> {
    match shift {
        Some(a) => Some(a as int),
        None => None,
    }
}

/// The bias `shift` sets, or `keep` where it sets none.
pub open spec fn shifted_bias(shift: Option<int>, keep: int) -> int {
    match shift {
        Some(a) => a,
        None => keep,
    }
}

/// Pops units from the tail down to `size`, or appends fresh units up to
/// `size`, each built from its schedule and biased by `shift` where given.
fn resize_units<S: Copy>(
    units: &mut Vec<Reverb<S>>,
    size: usize,
    schedules: &Vec<Vec<u64>>,
    caps: &Vec<usize>,
    decay: S,
    silence: S,
    shift: Option<usize>,
)
    requires
        schedules@.len() == size,
        caps@.len() == size,
        forall|k: int| 0 <= k < size ==> (#[trigger] caps@[k]) as int == capacity_for(schedules@[k]@),
        forall|k: int| 0 <= k < old(units)@.len() ==> (#[trigger] old(units)@[k]).wf(),
    ensures
        final(units)@.len() == size,
        forall|k: int|
            0 <= k < size && k < old(units)@.len() ==> #[trigger] final(units)@[k] == old(units)@[k],
        forall|k: int|
            old(units)@.len() <= k < size ==> {
                &&& (#[trigger] final(units)@[k]).is_fresh(schedules@[k]@, decay, silence)
                &&& final(units)@[k].bias() == shifted_bias(as_bias(shift), 0)
            },
        forall|k: int| 0 <= k < size ==> (#[trigger] final(units)@[k]).wf(),
{
    let ghost before = units@;
    while units.len() > size
        invariant
            units@.len() <= before.len(),
            units@.len() == before.len() || size <= units@.len(),
            forall|k: int| 0 <= k < units@.len() ==> #[trigger] units@[k] == before[k],
        decreases units@.len(),
    {
        units.pop();
    }
    while units.len() < size
        invariant
            units@.len() <= size,
            units@.len() >= before.len() || units@.len() == size,
            schedules@.len() == size,
            caps@.len() == size,
            forall|k: int| 0 <= k < size ==> (#[trigger] caps@[k]) as int == capacity_for(schedules@[k]@),
            forall|k: int| 0 <= k < before.len() ==> (#[trigger] before[k]).wf(),
            forall|k: int|
                0 <= k < units@.len() && k < before.len() ==> #[trigger] units@[k] == before[k],
            forall|k: int|
                before.len() <= k < units@.len() ==> {
                    &&& (#[trigger] units@[k]).is_fresh(schedules@[k]@, decay, silence)
                    &&& units@[k].bias() == shifted_bias(as_bias(shift), 0)
                },
        decreases size - units@.len(),
    {
        let k = units.len();
        let mut unit = Reverb::new(copy_schedule(&schedules[k]), decay, caps[k], silence);
        match shift {
            Some(a) => unit.shift_buffer(a),
            None => {},
        }
        units.push(unit);
    }
}

/// Updates every unit to its schedule and to `decay`, and sets each one's
/// bias to `shift` where given.
fn update_units<S: Copy, F: Fn(S, usize) -> S>(
    units: &mut Vec<Reverb<S>>,
    schedules: &Vec<Vec<u64>>,
    decay: S,
    fade: &F,
    shift: Option<usize>,
)
    requires
        old(units)@.len() <= schedules@.len(),
        forall|k: int| 0 <= k < schedules@.len() ==> capacity_for((#[trigger] schedules@[k])@) <= usize::MAX,
        forall|k: int| 0 <= k < old(units)@.len() ==> (#[trigger] old(units)@[k]).wf(),
        forall|s: S, i: usize| call_requires(*fade, (s, i)),
    ensures
        final(units)@.len() == old(units)@.len(),
        forall|k: int|
            0 <= k < old(units)@.len() ==> {
                &&& (#[trigger] final(units)@[k]).wf()
                &&& old(units)@[k].updated(&final(units)@[k], schedules@[k]@, decay)
                &&& final(units)@[k].bias() == shifted_bias(as_bias(shift), old(units)@[k].bias())
            },
{
    let ghost before = units@;
    let mut k: usize = 0;
    while k < units.len()
        invariant
            k <= units@.len(),
            units@.len() == before.len(),
            before.len() <= schedules@.len(),
            forall|j: int| 0 <= j < schedules@.len() ==> capacity_for((#[trigger] schedules@[j])@) <= usize::MAX,
            forall|s: S, i: usize| call_requires(*fade, (s, i)),
            forall|j: int| k <= j < units@.len() ==> #[trigger] units@[j] == before[j],
            forall|j: int| 0 <= j < before.len() ==> (#[trigger] before[j]).wf(),
            forall|j: int|
                0 <= j < k ==> {
                    &&& (#[trigger] units@[j]).wf()
                    &&& before[j].updated(&units@[j], schedules@[j]@, decay)
                    &&& units@[j].bias() == shifted_bias(as_bias(shift), before[j].bias())
                },
        decreases units@.len() - k,
    {
        units[k].update(copy_schedule(&schedules[k]), decay, fade);
        match shift {
            Some(a) => units[k].shift_buffer(a),
            None => {},
        }
        k = k + 1;
    }
}

/// Silences every unit and moves its cursor to the start.
fn reset_units<S: Copy>(units: &mut Vec<Reverb<S>>)
    requires
        forall|k: int| 0 <= k < old(units)@.len() ==> (#[trigger] old(units)@[k]).wf(),
    ensures
        final(units)@.len() == old(units)@.len(),
        forall|k: int|
            0 <= k < old(units)@.len() ==> {
                &&& (#[trigger] final(units)@[k]).wf()
                &&& final(units)@[k].cursor() == 0
                &&& final(units)@[k].same_settings(&old(units)@[k])
                &&& final(units)@[k].samples() == Seq::new(
                    old(units)@[k].samples().len(),
                    |i: int| old(units)@[k].silence_value(),
                )
            },
{
    let ghost before = units@;
    let mut k: usize = 0;
    while k < units.len()
        invariant
            k <= units@.len(),
            units@.len() == before.len(),
            forall|j: int| k <= j < units@.len() ==> #[trigger] units@[j] == before[j],
            forall|j: int| 0 <= j < before.len() ==> (#[trigger] before[j]).wf(),
            forall|j: int|
                0 <= j < k ==> {
                    &&& (#[trigger] units@[j]).wf()
                    &&& units@[j].cursor() == 0
                    &&& units@[j].same_settings(&before[j])
                    &&& units@[j].samples() == Seq::new(
                        before[j].samples().len(),
                        |i: int| before[j].silence_value(),
                    )
                },
        decreases units@.len() - k,
    {
        units[k].reset();
        k = k + 1;
    }
}

/// Two parallel cascades (left and right) of reverb units, kept in step
/// with the structural settings. The settings of the last rebuild are kept,
/// so that a rebuild happens only when something changed.
pub struct ReverbStack<S> {
    left: Vec<Reverb<S>>,
    right: Vec<Reverb<S>>,
    previous: Option<StackSettings>,
    silence: S,
}

impl<S: Copy> ReverbStack<S> {
    /// The units of the left channel, first stage first.
    pub closed spec fn lefts(&self) -> Seq<Reverb<S>> {
        self.left@
    }

    /// The units of the right channel, first stage first.
    pub closed spec fn rights(&self) -> Seq<Reverb<S>> {
        self.right@
    }

    /// The settings of the last rebuild, if there was one.
    pub closed spec fn previous_settings(&self) -> Option<StackSettings> {
        self.previous
    }

    /// The value that fills new buffer space.
    pub closed spec fn silence_value(&self) -> S {
        self.silence
    }

    /// Both channels have the same number of units, each one well formed,
    /// and after a rebuild each unit holds the schedule of its position.
    pub open spec fn wf(&self) -> bool {
        &&& self.lefts().len() == self.rights().len()
        &&& forall|k: int| 0 <= k < self.lefts().len() ==> (#[trigger] self.lefts()[k]).wf()
        &&& forall|k: int| 0 <= k < self.rights().len() ==> (#[trigger] self.rights()[k]).wf()
        &&& self.previous_settings() matches Some(p) ==> {
            &&& forall|k: int|
                0 <= k < self.lefts().len() ==> (#[trigger] self.lefts()[k]).taps() == stage_taps(p, k)
            &&& forall|k: int|
                0 <= k < self.rights().len() ==> (#[trigger] self.rights()[k]).taps() == stage_taps(p, k)
        }
    }

    /// `next` and `r` are what `reconcile(stack_size, settings, decay,
    /// others_changed, _)` makes of `self`.
    pub open spec fn reconciled(
        &self,
        next: &Self,
        stack_size: usize,
        settings: StackSettings,
        decay: S,
        others_changed: bool,
        r: Result<bool, StackError>,
    ) -> bool {
        &&& next.wf()
        &&& next.silence_value() == self.silence_value()
        &&& {
            let changed = self.previous_settings() != Some(settings) || others_changed;
            let old_len = self.lefts().len();
            let fits = forall|k: int|
                0 <= k < stack_size ==> capacity_for(#[trigger] stage_taps(settings, k))
                    <= usize::MAX;
            &&& !changed && stack_size == old_len ==> r == Ok::<bool, StackError>(false)
                && *next == *self
            &&& (changed || stack_size != old_len) && !fits ==> r == Err::<bool, StackError>(
                StackError::CapacityOverflow,
            ) && *next == *self
            &&& (changed || stack_size != old_len) && fits ==> {
                &&& r == Ok::<bool, StackError>(true)
                &&& next.lefts().len() == stack_size
                &&& next.previous_settings() == Some(settings)
                &&& forall|k: int|
                    old_len <= k < stack_size ==> {
                        &&& (#[trigger] next.lefts()[k]).is_fresh(
                            stage_taps(settings, k),
                            decay,
                            self.silence_value(),
                        )
                        &&& next.rights()[k].is_fresh(
                            stage_taps(settings, k),
                            decay,
                            self.silence_value(),
                        )
                        &&& next.lefts()[k].bias() == shifted_bias(left_shift(settings), 0)
                        &&& next.rights()[k].bias() == shifted_bias(right_shift(settings), 0)
                    }
                &&& !changed ==> forall|k: int|
                    0 <= k < stack_size && k < old_len ==> {
                        &&& #[trigger] next.lefts()[k] == self.lefts()[k]
                        &&& next.rights()[k] == self.rights()[k]
                    }
                &&& changed ==> forall|k: int|
                    0 <= k < stack_size && k < old_len ==> {
                        &&& self.lefts()[k].updated(
                            &next.lefts()[k],
                            stage_taps(settings, k),
                            decay,
                        )
                        &&& self.rights()[k].updated(
                            &next.rights()[k],
                            stage_taps(settings, k),
                            decay,
                        )
                        &&& (#[trigger] next.lefts()[k]).bias() == shifted_bias(
                            left_shift(settings),
                            self.lefts()[k].bias(),
                        )
                        &&& next.rights()[k].bias() == shifted_bias(
                            right_shift(settings),
                            self.rights()[k].bias(),
                        )
                    }
            }
        }
    }

    /// An empty stack that has not been built yet.
    pub fn new(silence: S) -> (r: Self)
        ensures
            r.wf(),
            r.lefts().len() == 0,
            r.previous_settings() is None,
            r.silence_value() == silence,
    {
        ReverbStack { left: Vec::new(), right: Vec::new(), previous: None, silence }
    }

    /// The number of units per channel.
    pub fn len(&self) -> (r: usize)
        requires
            self.wf(),
        ensures
            r == self.lefts().len(),
    {
        self.left.len()
    }

    /// Brings the stack in line with `settings` at `stack_size` units per
    /// channel, with feedback `decay`. `others_changed` says that something
    /// outside the structural settings (the decay, the filter cutoffs)
    /// changed since the last call.
    ///
    /// Where nothing changed, nothing is done and the result is `Ok(false)`.
    /// Otherwise the result is `Ok(true)`, or an error, with the stack left
    /// as it was, where a schedule asks for a buffer memory cannot index.
    /// Shrinking pops units from the tail, growing appends fresh ones; unit
    /// `k` (from 0) gets the schedule of base delay `base_delay / (k + 1)`.
    /// Where a setting or `others_changed` says so, every unit is updated to
    /// its schedule and the decay, and the channel that `width_offset`
    /// points to gets its magnitude as read bias. A change of `stack_size`
    /// alone leaves the units that stay as they were.
    pub fn reconcile<F: Fn(S, usize) -> S>(
        &mut self,
        stack_size: usize,
        settings: StackSettings,
        decay: S,
        others_changed: bool,
        fade: &F,
    ) -> (r: Result<bool, StackError>)
        requires
            old(self).wf(),
            settings_ok(settings, stack_size as int),
            forall|s: S, i: usize| call_requires(*fade, (s, i)),
        ensures
            old(self).reconciled(&*final(self), stack_size, settings, decay, others_changed, r),
    {
        let changed = match self.previous {
            Some(p) => p != settings,
            None => true,
        } || others_changed;
        if !changed && stack_size == self.left.len() {
            return Ok(false);
        }
        let (schedules, caps) = match build_schedules(settings, stack_size) {
            Ok(built) => built,
            Err(e) => {
                return Err(e);
            },
        };
        let left_bias: Option<usize> = if settings.width_offset > 0 {
            Some(settings.width_offset as usize)
        } else {
            None
        };
        let right_bias: Option<usize> = if settings.width_offset < 0 {
            Some((-(settings.width_offset as i64)) as usize)
        } else {
            None
        };
        let ghost before = *self;
        resize_units(&mut self.left, stack_size, &schedules, &caps, decay, self.silence, left_bias);
        resize_units(&mut self.right, stack_size, &schedules, &caps, decay, self.silence, right_bias);
        if changed {
            update_units(&mut self.left, &schedules, decay, fade, left_bias);
            update_units(&mut self.right, &schedules, decay, fade, right_bias);
        }
        self.previous = Some(settings);
        Ok(true)
    }

    /// Silences every unit's buffer and moves every cursor to the start; the
    /// units, their schedules and the kept settings stay.
    pub fn reset(&mut self)
        requires
            old(self).wf(),
        ensures
            final(self).wf(),
            final(self).lefts().len() == old(self).lefts().len(),
            final(self).previous_settings() == old(self).previous_settings(),
            final(self).silence_value() == old(self).silence_value(),
            forall|k: int|
                0 <= k < old(self).lefts().len() ==> {
                    &&& (#[trigger] final(self).lefts()[k]).cursor() == 0
                    &&& final(self).lefts()[k].same_settings(&old(self).lefts()[k])
                    &&& final(self).lefts()[k].samples() == Seq::new(
                        old(self).lefts()[k].samples().len(),
                        |i: int| old(self).lefts()[k].silence_value(),
                    )
                    &&& final(self).rights()[k].cursor() == 0
                    &&& final(self).rights()[k].same_settings(&old(self).rights()[k])
                    &&& final(self).rights()[k].samples() == Seq::new(
                        old(self).rights()[k].samples().len(),
                        |i: int| old(self).rights()[k].silence_value(),
                    )
                },
    {
        reset_units(&mut self.left);
        reset_units(&mut self.right);
    }

    /// The left unit at stage `k`.
    pub fn left(&self, k: usize) -> (r: &Reverb<S>)
        requires
            k < self.lefts().len(),
        ensures
            *r == self.lefts()[k as int],
    {
        &self.left[k]
    }

    /// The right unit at stage `k`.
    pub fn right(&self, k: usize) -> (r: &Reverb<S>)
        requires
            k < self.rights().len(),
        ensures
            *r == self.rights()[k as int],
    {
        &self.right[k]
    }

    /// Runs one sample of each channel through the units at stage `k` and
    /// returns their feedback terms, left then right; the caller adds them
    /// into its running samples. The other units stay as they were.
    pub fn process_stage<T: Fn(S, S) -> S, M: Fn(S, S) -> S>(
        &mut self,
        k: usize,
        in_l: S,
        in_r: S,
        tap: &T,
        mix: &M,
    ) -> (r: (S, S))
        requires
            old(self).wf(),
            k < old(self).lefts().len(),
            forall|a: S, b: S| call_requires(*tap, (a, b)),
            forall|a: S, b: S| call_requires(*mix, (a, b)),
        ensures
            final(self).wf(),
            old(self).lefts()[k as int].processed(&final(self).lefts()[k as int], in_l, *tap, *mix, r.0),
            old(self).rights()[k as int].processed(&final(self).rights()[k as int], in_r, *tap, *mix, r.1),
            final(self).lefts() == old(self).lefts().update(k as int, final(self).lefts()[k as int]),
            final(self).rights() == old(self).rights().update(k as int, final(self).rights()[k as int]),
            final(self).previous_settings() == old(self).previous_settings(),
            final(self).silence_value() == old(self).silence_value(),
    {
        let out_l = self.left[k].process(in_l, tap, mix);
        let out_r = self.right[k].process(in_r, tap, mix);
        (out_l, out_r)
    }
}

/// After a rebuild, both channels hold exactly `stack_size` units.
pub proof fn lemma_reconcile_length<S: Copy>(
    before: ReverbStack<S>,
    after: ReverbStack<S>,
    stack_size: usize,
    settings: StackSettings,
    decay: S,
    others_changed: bool,
    r: Result<bool, StackError>,
)
    requires
        before.wf(),
        before.reconciled(&after, stack_size, settings, decay, others_changed, r),
        r is Ok,
    ensures
        after.lefts().len() == stack_size,
        after.rights().len() == stack_size,
{
}

/// A change of the stack size alone keeps every unit that stays as it was:
/// the same buffer, cursor, schedule, decay and read bias. Units are only
/// removed from the tail.
pub proof fn lemma_resize_keeps_units<S: Copy>(
    before: ReverbStack<S>,
    after: ReverbStack<S>,
    stack_size: usize,
    settings: StackSettings,
    decay: S,
    r: Result<bool, StackError>,
)
    requires
        before.wf(),
        before.previous_settings() == Some(settings),
        before.reconciled(&after, stack_size, settings, decay, false, r),
        r is Ok,
    ensures
        forall|k: int|
            0 <= k < stack_size && k < before.lefts().len() ==> {
                &&& #[trigger] after.lefts()[k] == before.lefts()[k]
                &&& after.rights()[k] == before.rights()[k]
            },
{
}

/// The units a rebuild adds are fresh: a silent buffer, the cursor at the
/// start, the schedule of their position and the given decay; their read
/// bias is the Haas offset of their channel, or zero.
pub proof fn lemma_resize_fresh_units<S: Copy>(
    before: ReverbStack<S>,
    after: ReverbStack<S>,
    stack_size: usize,
    settings: StackSettings,
    decay: S,
    others_changed: bool,
    r: Result<bool, StackError>,
)
    requires
        before.wf(),
        before.reconciled(&after, stack_size, settings, decay, others_changed, r),
        r is Ok,
    ensures
        forall|k: int|
            before.lefts().len() <= k < stack_size ==> {
                &&& (#[trigger] after.lefts()[k]).is_fresh(
                    stage_taps(settings, k),
                    decay,
                    before.silence_value(),
                )
                &&& after.rights()[k].is_fresh(stage_taps(settings, k), decay, before.silence_value())
                &&& after.lefts()[k].bias() == shifted_bias(left_shift(settings), 0)
                &&& after.rights()[k].bias() == shifted_bias(right_shift(settings), 0)
            },
{
}

} // verus!
