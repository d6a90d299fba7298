//! The library shared by the organizer, the clients and the server: values
//! that expire, and the decisions behind the interactive prompts.
use vstd::prelude::*;
use std::time::Instant;
use crate::time::{duration_as_nanos, instant_elapsed, instant_now, MAX_DURATION_NANOS};
use vstd::string::StringExecFns;

pub mod hosts;

verus! {

#[verifier::external_type_specification]
#[verifier::external_body]
pub struct ExIoError(std::io::Error);

#[verifier::external_type_specification]
#[verifier::external_body]
pub struct ExParseIntError(std::num::ParseIntError);

/// Why reading a value from standard input failed.
#[derive(Debug)]
pub enum GetFromStdinError<P> {
    Io(std::io::Error),
    Parse(P),
}

/// Why a choice could not be made.
#[derive(Debug)]
pub enum ChoiceError {
    GetFromStdin(GetFromStdinError<std::num::ParseIntError>),
    NoDefault(usize),
}

/// The text of a yes/no question: the prompt, then `(Y/n) ` or `(y/N) `
/// depending on the default answer.
pub fn yes_no_prompt(prompt: &str, default: bool) -> (r: String)
    ensures
        r@ == prompt@ + " ("@ + (if default {
            "Y/n"@
        } else {
            "y/N"@
        }) + ") "@,
{
    let default_text = if default {
        "Y/n"
    } else {
        "y/N"
    };
    let mut p = prompt.to_owned();
    p.append(" (");
    p.append(default_text);
    p.append(") ");
    p
}

/// The lowercase form of a string, as `str::to_lowercase` maps it.
pub uninterp spec fn lowercase(s: Seq<char>) -> Seq<char>;

/// `str::to_lowercase`.
#[verifier::external_body]
fn to_lowercase(s: &str) -> (r: String)
    ensures
        r@ == lowercase(s@),
{
    s.to_lowercase()
}

/// Whether a lowercased answer says yes: it is `y` or `yes`.
pub fn is_yes(l: &str) -> (r: bool)
    ensures
        r == (l@ == "y"@ || l@ == "yes"@),
{
    let s = l.to_owned();
    s == "y".to_owned() || s == "yes".to_owned()
}

/// The answer to a yes/no question: yes when the answer read is nonempty
/// and in lowercase is `y` or `yes`, no when it is nonempty and anything
/// else, the default when nothing (or nothing readable) was answered.
pub fn yes_no_choice(answer: Option<&str>, default: bool) -> (r: bool)
    ensures
        r == match answer {
            Some(a) if a@.len() != 0 => lowercase(a@) == "y"@ || lowercase(a@) == "yes"@,
            _ => default,
        },
{
    match answer {
        Some(a) => {
            if a.is_empty() {
                default
            } else {
                let l = to_lowercase(a);
                is_yes(l.as_str())
            }
        },
        None => default,
    }
}

/// The indices of the listed entries that can be chosen, in order: choice
/// number `k` picks the `k`-th of them.
pub fn choice_mapping(is_choice: &Vec<bool>) -> (r: Vec<usize>)
    ensures
        r@ == Seq::new(is_choice@.len(), |i: int| i as usize).filter(|i: usize| is_choice@[i as int]),
{
    let ghost all = Seq::new(is_choice@.len(), |i: int| i as usize);
    let ghost pred = |i: usize| is_choice@[i as int];
    let mut mapping: Vec<usize> = Vec::new();
    let mut i: usize = 0;
    while i < is_choice.len()
        invariant
            i <= is_choice@.len(),
            all == Seq::new(is_choice@.len(), |i: int| i as usize),
            pred == (|i: usize| is_choice@[i as int]),
            mapping@ == all.take(i as int).filter(pred),
        decreases is_choice@.len() - i,
    {
        reveal_with_fuel(Seq::filter, 1);
        assert(all.take(i + 1).drop_last() =~= all.take(i as int));
        if is_choice[i] {
            mapping.push(i);
        }
        i += 1;
    }
    assert(all.take(is_choice@.len() as int) =~= all);
    mapping
}

/// The entry picked by the choice number entered: the mapped entry when the
/// number is a valid choice, otherwise the default, or `NoDefault` with the
/// number when there is no default.
pub fn resolve_choice(mapping: &Vec<usize>, entered: usize, default_choice: Option<usize>) -> (r: Result<usize, ChoiceError>)
    ensures
        entered < mapping@.len() ==> r == Ok::<usize, ChoiceError>(mapping@[entered as int]),
        entered >= mapping@.len() && default_choice is Some ==> r == Ok::<usize, ChoiceError>(
            default_choice.unwrap(),
        ),
        entered >= mapping@.len() && default_choice is None ==> r == Err::<usize, ChoiceError>(
            ChoiceError::NoDefault(entered),
        ),
{
    if entered >= mapping.len() {
        match default_choice {
            Some(d) => Ok(d),
            None => Err(ChoiceError::NoDefault(entered)),
        }
    } else {
        Ok(mapping[entered])
    }
}

/// A value that is valid for a while after it was last changed. How long,
/// `valid_time`, is counted in nanoseconds.
#[derive(Debug, Clone, Copy)]
pub struct TimeValidated<T> {
    last_changed: Instant,
    pub valid_time: u128,
    value: T,
}

impl<T> TimeValidated<T> {
    /// The value held.
    pub closed spec fn value(&self) -> T {
        self.value
    }

    /// How long, in nanoseconds, the value stays valid after a change.
    pub closed spec fn validity(&self) -> u128 {
        self.valid_time
    }

    /// When the value was last changed.
    pub closed spec fn changed_at(&self) -> Instant {
        self.last_changed
    }

    /// Whether the value is still valid when `elapsed` nanoseconds have passed
    /// since its last change: exactly `valid_time` still counts.
    pub open spec fn fresh_after(&self, elapsed: u128) -> bool {
        elapsed <= self.validity()
    }

    /// A value changed now.
    pub fn new(value: T, valid_time: u128) -> (r: Self)
        ensures
            r.value() == value,
            r.validity() == valid_time,
    {
        TimeValidated { last_changed: instant_now(), valid_time, value }
    }

    /// A value changed at `last_changed`.
    pub fn new_with_change(value: T, valid_time: u128, last_changed: Instant) -> (r: Self)
        ensures
            r.value() == value,
            r.validity() == valid_time,
            r.changed_at() == last_changed,
    {
        TimeValidated { last_changed, valid_time, value }
    }

    /// The value when `valid` says it is still valid.
    pub fn value_if_valid(&self, valid: bool) -> (r: Option<&T>)
        ensures
            r == (if valid {
                Some(&self.value())
            } else {
                None
            }),
    {
        if valid {
            Some(&self.value)
        } else {
            None
        }
    }

    /// Whether the value is still valid `elapsed` nanoseconds after its last
    /// change.
    pub fn valid_after(&self, elapsed: u128) -> (r: bool)
        ensures
            r == self.fresh_after(elapsed),
    {
        elapsed <= self.valid_time
    }

    /// The value, if it was changed no longer than `valid_time` ago. How long
    /// ago is read from the clock; a value valid for at least the longest
    /// duration there is never expires.
    pub fn get(&self) -> (r: Option<&T>)
        ensures
            r is None || r == Some(&self.value()),
            self.validity() >= MAX_DURATION_NANOS ==> r == Some(&self.value()),
    {
        let valid = self.is_valid();
        self.value_if_valid(valid)
    }

    /// Changes the value now.
    pub fn set(&mut self, value: T)
        ensures
            final(self).value() == value,
            final(self).validity() == old(self).validity(),
    {
        self.last_changed = instant_now();
        self.value = value;
    }

    /// Changes the value, recording `last_changed` as the time of the change.
    pub fn set_with_time(&mut self, value: T, last_changed: Instant)
        ensures
            final(self).value() == value,
            final(self).changed_at() == last_changed,
            final(self).validity() == old(self).validity(),
    {
        self.last_changed = last_changed;
        self.value = value;
    }

    /// Whether no longer than `valid_time` has passed since the last change:
    /// the time passed is read from the clock and judged by `valid_after`. A
    /// value valid for at least the longest duration there is is always valid.
    pub fn is_valid(&self) -> (r: bool)
        ensures
            self.validity() >= MAX_DURATION_NANOS ==> r,
    {
        let elapsed = duration_as_nanos(&instant_elapsed(&self.last_changed));
        self.valid_after(elapsed)
    }

    /// When the value was last changed.
    pub fn last_changed(&self) -> (r: Instant)
        ensures
            r == self.changed_at(),
    {
        self.last_changed
    }
}

/// Once a value has expired it stays expired: if it is valid after some time
/// has passed, it was valid after any shorter time.
pub proof fn law_time_validated_expiry_is_final<T>(v: TimeValidated<T>, earlier: u128, later: u128)
    requires
        earlier <= later,
        v.fresh_after(later),
    ensures
        v.fresh_after(earlier),
{
}

} // verus!
