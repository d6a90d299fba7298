//! Values that remember how often, or when, they were changed.
use vstd::prelude::*;
use std::time::Instant;
use crate::time::{
    duration_as_nanos, duration_new, instant_checked_sub, instant_elapsed, instant_now,
    MAX_DURATION_NANOS,
};

verus! {

/// A value and the number of times it was set.
#[derive(Debug, Clone, Copy)]
pub struct GenerationalValue<T> {
    generation: usize,
    value: T,
}

impl<T> GenerationalValue<T> {
    /// The value held.
    pub closed spec fn value(&self) -> T {
        self.value
    }

    /// How many times the value was set.
    pub closed spec fn spec_generation(&self) -> usize {
        self.generation
    }

    /// A value of generation 0.
    pub fn new(value: T) -> (r: Self)
        ensures
            r.value() == value,
            r.spec_generation() == 0,
    {
        GenerationalValue { generation: 0, value }
    }

    /// A value of the given generation.
    pub fn new_with_generation(value: T, generation: usize) -> (r: Self)
        ensures
            r.value() == value,
            r.spec_generation() == generation,
    {
        GenerationalValue { generation, value }
    }

    /// The value held.
    pub fn get(&self) -> (r: &T)
        ensures
            *r == self.value(),
    {
        &self.value
    }

    /// Replaces the value and counts one more generation.
    pub fn set(&mut self, value: T)
        requires
            old(self).spec_generation() < usize::MAX,
        ensures
            final(self).value() == value,
            final(self).spec_generation() == old(self).spec_generation() + 1,
            set_step(*old(self), *final(self), value),
    {
        self.generation = self.generation + 1;
        self.value = value;
    }

    /// How many times the value was set.
    pub fn generation(&self) -> (r: usize)
        ensures
            r == self.spec_generation(),
    {
        self.generation
    }
}

/// One call of [`GenerationalValue::set`] took `a` to `b` with value `v`, as
/// its contract says.
pub open spec fn set_step<T>(a: GenerationalValue<T>, b: GenerationalValue<T>, v: T) -> bool {
    &&& b.value() == v
    &&& b.spec_generation() == a.spec_generation() + 1
}

/// After `vs.len()` calls of `set` the generation has grown by exactly that
/// many, and the value held is the last one set (the first value when there
/// was no call).
pub proof fn law_generations<T>(gs: Seq<GenerationalValue<T>>, vs: Seq<T>)
    requires
        gs.len() == vs.len() + 1,
        forall|j: int| 0 <= j < vs.len() ==> #[trigger] set_step(gs[j], gs[j + 1], vs[j]),
    ensures
        gs.last().spec_generation() == gs[0].spec_generation() + vs.len(),
        vs.len() == 0 ==> gs.last().value() == gs[0].value(),
        vs.len() > 0 ==> gs.last().value() == vs.last(),
    decreases vs.len(),
{
    let n = vs.len();
    if n > 0 {
        law_generations(gs.drop_last(), vs.drop_last());
        assert(set_step(gs[n - 1], gs[n as int], vs[n - 1]));
    }
}

/// A length of `valid_time` nanoseconds as whole seconds and the nanoseconds
/// left over, as a `Duration` holds it; `None` when it is longer than any
/// `Duration`.
pub fn nanos_parts(valid_time: u128) -> (r: Option<(u64, u32)>)
    ensures
        r is None <==> valid_time > MAX_DURATION_NANOS,
        r matches Some((s, n)) ==> n < 1_000_000_000 && s * 1_000_000_000 + n == valid_time,
{
    let secs = valid_time / 1_000_000_000;
    let nanos = valid_time % 1_000_000_000;
    if secs > u64::MAX as u128 {
        return None;
    }
    Some((secs as u64, nanos as u32))
}

/// A value that is valid for a while after it was last changed. How long,
/// `valid_time`, is counted in nanoseconds.
#[derive(Debug, Clone, Copy)]
pub struct TimeValidatedValue<T> {
    last_changed: Instant,
    pub valid_time: u128,
    value: T,
}

impl<T> TimeValidatedValue<T> {
    /// The value held.
    pub closed spec fn value(&self) -> T {
        self.value
    }

    /// How long, in nanoseconds, the value stays valid after a change.
    pub closed spec fn validity(&self) -> u128 {
        self.valid_time
    }

    /// When the value was last changed.
    pub closed spec fn changed_at(&self) -> Instant {
        self.last_changed
    }

    /// Whether the value is still valid when `elapsed` nanoseconds have passed
    /// since its last change: exactly `valid_time` still counts.
    pub open spec fn fresh_after(&self, elapsed: u128) -> bool {
        elapsed <= self.validity()
    }

    /// A value changed now.
    pub fn new(value: T, valid_time: u128) -> (r: Self)
        ensures
            r.value() == value,
            r.validity() == valid_time,
    {
        TimeValidatedValue { last_changed: instant_now(), valid_time, value }
    }

    /// A value changed at `last_changed`.
    pub fn new_with_change(value: T, valid_time: u128, last_changed: Instant) -> (r: Self)
        ensures
            r.value() == value,
            r.validity() == valid_time,
            r.changed_at() == last_changed,
    {
        TimeValidatedValue { last_changed, valid_time, value }
    }

    /// The default value (what `T::default()` gives), last changed
    /// `valid_time` ago so that it is just expiring; `None` when the clock
    /// cannot represent that point in time. The length subtracted from the
    /// clock reading is `valid_time` split by [`nanos_parts`], and the result
    /// of the subtraction is made into the value by [`Self::invalid_from`].
    pub fn new_invalid(valid_time: u128) -> (r: Option<Self>)
        where
            T: Default,
        ensures
            r matches Some(v) ==> v.validity() == valid_time,
            r matches Some(v) ==> call_ensures(T::default, (), v.value()),
            valid_time > MAX_DURATION_NANOS ==> r is None,
    {
        match nanos_parts(valid_time) {
            Some((secs, nanos)) => {
                let back = duration_new(secs, nanos);
                Self::invalid_from(instant_checked_sub(instant_now(), back), valid_time)
            },
            None => None,
        }
    }

    /// The default value last changed at `changed`, if the clock could
    /// represent that point in time; `None` otherwise.
    pub fn invalid_from(changed: Option<Instant>, valid_time: u128) -> (r: Option<Self>)
        where
            T: Default,
        ensures
            r is Some <==> changed is Some,
            r matches Some(v) ==> v.changed_at() == changed.unwrap() && v.validity() == valid_time
                && call_ensures(T::default, (), v.value()),
    {
        match changed {
            Some(last_changed) => Some(TimeValidatedValue { last_changed, value: T::default(), valid_time }),
            None => None,
        }
    }

    /// The value when `valid` says it is still valid.
    pub fn value_if_valid(&self, valid: bool) -> (r: Option<&T>)
        ensures
            r == (if valid {
                Some(&self.value())
            } else {
                None
            }),
    {
        if valid {
            Some(&self.value)
        } else {
            None
        }
    }

    /// Whether the value is still valid `elapsed` nanoseconds after its last
    /// change.
    pub fn valid_after(&self, elapsed: u128) -> (r: bool)
        ensures
            r == self.fresh_after(elapsed),
    {
        elapsed <= self.valid_time
    }

    /// The value, if it was changed no longer than `valid_time` ago. How long
    /// ago is read from the clock; a value valid for at least the longest
    /// duration there is never expires.
    pub fn get(&self) -> (r: Option<&T>)
        ensures
            r is None || r == Some(&self.value()),
            self.validity() >= MAX_DURATION_NANOS ==> r == Some(&self.value()),
    {
        let valid = self.is_valid();
        self.value_if_valid(valid)
    }

    /// Changes the value now.
    pub fn set(&mut self, value: T)
        ensures
            final(self).value() == value,
            final(self).validity() == old(self).validity(),
    {
        self.last_changed = instant_now();
        self.value = value;
    }

    /// Changes the value, recording `last_changed` as the time of the change.
    pub fn set_with_time(&mut self, value: T, last_changed: Instant)
        ensures
            final(self).value() == value,
            final(self).changed_at() == last_changed,
            final(self).validity() == old(self).validity(),
    {
        self.last_changed = last_changed;
        self.value = value;
    }

    /// Whether no longer than `valid_time` has passed since the last change:
    /// the time passed is read from the clock and judged by `valid_after`. A
    /// value valid for at least the longest duration there is is always valid.
    pub fn is_valid(&self) -> (r: bool)
        ensures
            self.validity() >= MAX_DURATION_NANOS ==> r,
    {
        let elapsed = duration_as_nanos(&instant_elapsed(&self.last_changed));
        self.valid_after(elapsed)
    }

    /// When the value was last changed.
    pub fn last_changed(&self) -> (r: Instant)
        ensures
            r == self.changed_at(),
    {
        self.last_changed
    }
}

/// Once a value has expired it stays expired: if it is valid after some time
/// has passed, it was valid after any shorter time.
pub proof fn law_expiry_is_final<T>(v: TimeValidatedValue<T>, earlier: u128, later: u128)
    requires
        earlier <= later,
        v.fresh_after(later),
    ensures
        v.fresh_after(earlier),
{
}

/// The entry picked by the choice number entered, if one was read: the
/// mapped entry when it is a valid choice, otherwise the default, and when
/// there is none the error "No valid default was provided".
pub fn resolve_choice_or_default(mapping: &Vec<usize>, entered: Option<usize>, default_choice: Option<usize>) -> (r: Result<usize, &'static str>)
    ensures
        (entered matches Some(v) && v < mapping@.len()) ==> r == Ok::<usize, &'static str>(
            mapping@[entered.unwrap() as int],
        ),
        !(entered matches Some(v) && v < mapping@.len()) ==> match default_choice {
            Some(d) => r == Ok::<usize, &'static str>(d),
            None => r == Err::<usize, &'static str>("No valid default was provided"),
        },
{
    match entered {
        Some(v) => {
            if v < mapping.len() {
                return Ok(mapping[v]);
            }
        },
        None => {},
    }
    match default_choice {
        Some(d) => Ok(d),
        None => Err("No valid default was provided"),
    }
}

} // verus!
