//! One named gauge bound to an accessor.

use vstd::prelude::*;
use crate::accessor::{Run, read_call, write_call, AccessError, Call, CommandLineSetterGetter, CommandRunner, SetterGetter};

verus! {

/// The value that raising `v` by `n` leads to, or `None` where it would pass 100.
pub open spec fn raise_spec(v: u8, n: u8) -> Option<u8> {
    if v + n <= 100 {
        Some((v + n) as u8)
    } else {
        None
    }
}

/// The value that lowering `v` by `n` leads to, or `None` where it would pass 0.
pub open spec fn lower_spec(v: u8, n: u8) -> Option<u8> {
    if v >= n {
        Some((v - n) as u8)
    } else {
        None
    }
}

/// Decides an increment of a read value `v` by `n`: the value to store, or
/// `None` where the step would pass 100 and nothing is to be done.
pub fn raised(v: u8, n: u8) -> (r: Option<u8>)
    ensures
        r == raise_spec(v, n),
{
    if (v as u16) + (n as u16) <= 100 {
        Some(v + n)
    } else {
        None
    }
}

/// Decides a decrement of a read value `v` by `n`: the value to store, or
/// `None` where the step would pass 0 and nothing is to be done.
pub fn lowered(v: u8, n: u8) -> (r: Option<u8>)
    ensures
        r == lower_spec(v, n),
{
    if v >= n {
        Some(v - n)
    } else {
        None
    }
}

/// The value that a step of `n` from a read value `v` leads to: up or down.
pub open spec fn step_of(v: u8, n: u8, up: bool) -> Option<u8> {
    if up {
        raise_spec(v, n)
    } else {
        lower_spec(v, n)
    }
}

/// The calls that a step of `n` adds to a record `before`, giving `after`, its
/// result `r` and the cache it leaves: one read; then, where the step stays in
/// range, one write of its target, cached once it is done. A failed call's
/// error is the result.
pub open spec fn step_done(
    before: Seq<Call>,
    after: Seq<Call>,
    n: u8,
    up: bool,
    cache: u8,
    new_cache: u8,
    r: Result<(), AccessError>,
) -> bool {
    after.len() > before.len() && match after[before.len() as int] {
        Call::GetFailed(e) => {
            &&& r == Err::<(), AccessError>(e)
            &&& after == before.push(Call::GetFailed(e))
            &&& new_cache == cache
        },
        Call::Got(v) => match step_of(v, n, up) {
            None => r is Ok && after == before.push(Call::Got(v)) && new_cache == cache,
            Some(t) => {
                &&& after == before.push(Call::Got(v)).push(write_call(t, r))
                &&& new_cache == if r is Ok { t } else { cache }
            },
        },
        _ => false,
    }
}

/// A named gauge: `current` caches the last value read from or written to the
/// accessor.
pub struct Slider<A: SetterGetter> {
    pub name: String,
    pub setter_getter: A,
    pub current: u8,
}

impl<A: SetterGetter> Slider<A> {
    /// The accessor holds a plain value, and it is the cached one.
    pub open spec fn in_sync(&self) -> bool {
        &&& self.setter_getter.is_plain()
        &&& self.setter_getter.stored() == self.current
    }

    /// `after` is this slider once `set(value)` returned, done or not.
    pub open spec fn set_post(self, after: Self, value: u8, r: Result<(), AccessError>) -> bool {
        &&& after.name == self.name
        &&& after.current == if r is Ok { value } else { self.current }
        &&& self.setter_getter.keeps_calls() ==> {
            &&& after.setter_getter.keeps_calls()
            &&& after.setter_getter.setting() == self.setter_getter.setting()
            &&& after.setter_getter.calls() == self.setter_getter.calls().push(write_call(value, r))
        }
        &&& self.setter_getter.is_plain() ==> r is Ok && after.in_sync()
    }

    /// `after` is this slider once a step of `n`, up or down, returned.
    pub open spec fn step_post(self, after: Self, n: u8, up: bool, r: Result<(), AccessError>) -> bool {
        &&& after.name == self.name
        &&& r is Err ==> after.current == self.current
        &&& r is Ok ==> after.current == self.current || if up {
            n <= after.current <= 100
        } else {
            after.current <= 255 - n
        }
        &&& self.setter_getter.keeps_calls() ==> {
            &&& after.setter_getter.keeps_calls()
            &&& after.setter_getter.setting() == self.setter_getter.setting()
            &&& step_done(
                self.setter_getter.calls(),
                after.setter_getter.calls(),
                n,
                up,
                self.current,
                after.current,
                r,
            )
        }
        &&& self.setter_getter.is_plain() ==> {
            &&& r is Ok
            &&& after.setter_getter.is_plain()
            &&& match step_of(self.setter_getter.stored(), n, up) {
                Some(t) => after.current == t && after.setter_getter.stored() == t,
                None => after.current == self.current
                    && after.setter_getter.stored() == self.setter_getter.stored(),
            }
        }
    }

    /// `after` is this slider once `initialize` returned.
    pub open spec fn read_post(self, after: Self, r: Result<(), AccessError>) -> bool {
        &&& after.name == self.name
        &&& r is Err ==> after.current == self.current
        &&& self.setter_getter.keeps_calls() ==> {
            &&& after.setter_getter.keeps_calls()
            &&& after.setter_getter.setting() == self.setter_getter.setting()
            &&& after.setter_getter.calls() == self.setter_getter.calls().push(
                match r {
                    Ok(()) => Call::Got(after.current),
                    Err(e) => Call::GetFailed(e),
                },
            )
        }
        &&& self.setter_getter.is_plain() ==> {
            &&& r is Ok
            &&& after.in_sync()
            &&& after.setter_getter.stored() == self.setter_getter.stored()
        }
    }

    /// Reads the accessor; the cache is left alone.
    pub fn get(&mut self) -> (r: Result<u8, AccessError>)
        ensures
            final(self).name == old(self).name,
            final(self).current == old(self).current,
            old(self).setter_getter.keeps_calls() ==> {
                &&& final(self).setter_getter.keeps_calls()
                &&& final(self).setter_getter.setting() == old(self).setter_getter.setting()
                &&& final(self).setter_getter.calls() == old(self).setter_getter.calls().push(read_call(r))
            },
            old(self).setter_getter.is_plain() ==> {
                &&& final(self).setter_getter.is_plain()
                &&& final(self).setter_getter.stored() == old(self).setter_getter.stored()
                &&& r == Ok::<u8, AccessError>(old(self).setter_getter.stored())
            },
    {
        self.setter_getter.get()
    }

    /// Writes `value` to the accessor, and caches it once the write succeeded.
    pub fn set(&mut self, value: u8) -> (r: Result<(), AccessError>)
        ensures
            old(self).set_post(*final(self), value, r),
    {
        match self.setter_getter.set(value) {
            Ok(()) => {
                self.current = value;
                Ok(())
            },
            Err(e) => Err(e),
        }
    }

    /// Reads the accessor's value `v` and, where `v + n <= 100`, sets `v + n`;
    /// otherwise does nothing.
    pub fn inc(&mut self, n: u8) -> (r: Result<(), AccessError>)
        ensures
            old(self).step_post(*final(self), n, true, r),
    {
        let v = self.get()?;
        match raised(v, n) {
            Some(t) => self.set(t),
            None => Ok(()),
        }
    }

    /// Reads the accessor's value `v` and, where `v >= n`, sets `v - n`;
    /// otherwise does nothing.
    pub fn dec(&mut self, n: u8) -> (r: Result<(), AccessError>)
        ensures
            old(self).step_post(*final(self), n, false, r),
    {
        let v = self.get()?;
        match lowered(v, n) {
            Some(t) => self.set(t),
            None => Ok(()),
        }
    }

    /// Seeds the cache with one read of the accessor.
    pub fn initialize(&mut self) -> (r: Result<(), AccessError>)
        ensures
            old(self).read_post(*final(self), r),
    {
        let v = self.get()?;
        self.current = v;
        Ok(())
    }
}

/// A slider backed by shell commands, with its cache at 25 until it is
/// initialized, and no call made yet.
pub fn command_line_slider<R: CommandRunner>(
    name: String,
    get_command: String,
    set_command: String,
    runner: R,
) -> (r: Slider<CommandLineSetterGetter<R>>)
    ensures
        r.name == name,
        r.setter_getter.get_command == get_command,
        r.setter_getter.set_command == set_command,
        r.setter_getter.runner == runner,
        r.setter_getter.runs@ == Seq::<Run>::empty(),
        r.setter_getter.calls() == Seq::<Call>::empty(),
        r.setter_getter.keeps_calls(),
        r.current == 25,
{
    Slider { name, setter_getter: CommandLineSetterGetter::new(get_command, set_command, runner), current: 25 }
}

} // verus!
