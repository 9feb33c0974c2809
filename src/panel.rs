//! A panel of sliders: drawing it and dispatching keys to it.

use vstd::prelude::*;
use crate::accessor::{reads_at_most_100, AccessError, Call, CommandLineSetterGetter, CommandRunner, SetterGetter};
use crate::args::{flag_count, flag_given, pair_given, parse_args, texts, value_missing, values_of};
use crate::render::{fits, glyph, glyph_of, label, label_of, layout, layout_of, write_at, write_of, Layout, Mark, Write};
use crate::slider::{command_line_slider, Slider};

verus! {

/// A panel that cannot be set up or drawn as asked.
#[derive(Clone, Copy, Debug, PartialEq, Eq)]
pub enum ConfigError {
    /// The panel holds no slider.
    NoSliders,
    /// A flag that takes a value came last, without one.
    MissingValue,
    /// The flags gave different numbers of names, get commands and set commands.
    CountMismatch,
}

/// Why a panel could not be built from a command line.
#[derive(Debug, PartialEq, Eq)]
pub enum StartError {
    Config(ConfigError),
    Access(AccessError),
}

/// A key as the panel reads it.
#[derive(Clone, Copy, Debug, PartialEq, Eq)]
pub enum Key {
    Char(char),
    Left,
    Right,
    Up,
    Down,
    Other,
}

/// What a key asks of the panel.
#[derive(Clone, Copy, Debug, PartialEq, Eq)]
pub enum Action {
    /// Move the focus one slider left.
    Previous,
    /// Move the focus one slider right.
    Next,
    /// Increment the focused slider by the amount.
    Raise(u8),
    /// Decrement the focused slider by the amount.
    Lower(u8),
    /// Set the focused slider to the value.
    SetTo(u8),
    /// Show the key bindings.
    Help,
    /// Leave the run loop.
    Quit,
    Nothing,
}

/// The key bindings; `control` tells whether the control modifier was held.
pub open spec fn action_of(key: Key, control: bool) -> Action {
    match key {
        Key::Left => Action::Previous,
        Key::Right => Action::Next,
        Key::Up => Action::Raise(1),
        Key::Down => Action::Lower(1),
        Key::Other => Action::Nothing,
        Key::Char(c) => if c == 'h' {
            Action::Previous
        } else if c == 'l' {
            Action::Next
        } else if c == 'k' {
            Action::Raise(1)
        } else if c == 'j' {
            Action::Lower(1)
        } else if c == 'g' {
            Action::SetTo(0)
        } else if c == 'G' {
            Action::SetTo(100)
        } else if c == 'm' {
            Action::SetTo(50)
        } else if c == '?' {
            Action::Help
        } else if c == 'q' {
            Action::Quit
        } else if c == 'u' && control {
            Action::Raise(10)
        } else if c == 'd' && control {
            Action::Lower(10)
        } else {
            Action::Nothing
        },
    }
}

/// A result of `prompt` as the result of the slider call it made.
pub open spec fn outcome(r: Result<Action, AccessError>) -> Result<(), AccessError> {
    match r {
        Ok(_) => Ok(()),
        Err(e) => Err(e),
    }
}

/// Maps a key to its action, as `action_of` states.
pub fn action_for(key: Key, control: bool) -> (r: Action)
    ensures
        r == action_of(key, control),
{
    match key {
        Key::Left => Action::Previous,
        Key::Right => Action::Next,
        Key::Up => Action::Raise(1),
        Key::Down => Action::Lower(1),
        Key::Other => Action::Nothing,
        Key::Char(c) => {
            if c == 'h' {
                Action::Previous
            } else if c == 'l' {
                Action::Next
            } else if c == 'k' {
                Action::Raise(1)
            } else if c == 'j' {
                Action::Lower(1)
            } else if c == 'g' {
                Action::SetTo(0)
            } else if c == 'G' {
                Action::SetTo(100)
            } else if c == 'm' {
                Action::SetTo(50)
            } else if c == '?' {
                Action::Help
            } else if c == 'q' {
                Action::Quit
            } else if c == 'u' && control {
                Action::Raise(10)
            } else if c == 'd' && control {
                Action::Lower(10)
            } else {
                Action::Nothing
            }
        },
    }
}

/// Sliders side by side, with the one at `current` in focus. The panel is placed
/// at `coordinates_percent` of the terminal and spans `size_percent` of it.
pub struct Sliders<A: SetterGetter> {
    pub sliders: Vec<Slider<A>>,
    pub clear: bool,
    pub coordinates_percent: (u16, u16),
    pub size_percent: (u16, u16),
    pub current: usize,
}

impl<A: SetterGetter> Sliders<A> {
    /// The placement percentages lie in `0..=100`.
    pub open spec fn placed(&self) -> bool {
        &&& self.coordinates_percent.0 <= 100
        &&& self.coordinates_percent.1 <= 100
        &&& self.size_percent.0 <= 100
        &&& self.size_percent.1 <= 100
    }

    /// The focus is on an existing slider.
    pub open spec fn focused(&self) -> bool {
        self.current < self.sliders.len()
    }

    /// What the slider at `i` draws on row `y`.
    pub open spec fn write_for(&self, l: Layout, y: int, i: int) -> Option<Write> {
        write_at(l, y, i, self.sliders@[i].current, self.sliders@[i].name@.len() as int, i == self.current)
    }

    /// The writes of row `y` for the sliders before `k`, in order.
    pub open spec fn row_writes(&self, l: Layout, y: int, k: int) -> Seq<Write>
        decreases k,
    {
        if k <= 0 {
            seq![]
        } else {
            let prev = self.row_writes(l, y, k - 1);
            match self.write_for(l, y, k - 1) {
                Some(w) => prev.push(w),
                None => prev,
            }
        }
    }

    /// The writes of the rows before `y`, row by row.
    pub open spec fn writes_before(&self, l: Layout, y: int) -> Seq<Write>
        decreases y,
    {
        if y <= 0 {
            seq![]
        } else {
            self.writes_before(l, y - 1) + self.row_writes(l, y - 1, self.sliders.len() as int)
        }
    }

    /// The whole drawing in a terminal of `total_cols` by `total_rows`: every
    /// panel row but the last.
    pub open spec fn drawing(&self, total_cols: u16, total_rows: u16) -> Seq<Write> {
        let l = layout_of(total_cols, total_rows, self.coordinates_percent, self.size_percent, self.sliders.len());
        self.writes_before(l, l.rows - 1)
    }

    /// The positioned marks that draw the panel in a terminal of `total_cols` by
    /// `total_rows` cells; a panel without sliders cannot be drawn.
    pub fn draw(&self, total_cols: u16, total_rows: u16) -> (r: Result<Vec<Write>, ConfigError>)
        requires
            self.placed(),
        ensures
            match r {
                Ok(w) => self.sliders.len() > 0 && w@ == self.drawing(total_cols, total_rows),
                Err(e) => self.sliders.len() == 0 && e == ConfigError::NoSliders,
            },
    {
        let n = self.sliders.len();
        if n == 0 {
            return Err(ConfigError::NoSliders);
        }
        let l = layout(total_cols, total_rows, self.coordinates_percent, self.size_percent, n);
        let mut out: Vec<Write> = Vec::new();
        if l.rows == 0 {
            return Ok(out);
        }
        let mut y: u32 = 0;
        while y + 1 < l.rows
            invariant
                n == self.sliders.len(),
                fits(l, n as int),
                y < l.rows,
                out@ == self.writes_before(l, y as int),
            decreases l.rows - y,
        {
            let mut i: usize = 0;
            while i < n
                invariant
                    n == self.sliders.len(),
                    fits(l, n as int),
                    y < l.rows,
                    i <= n,
                    out@ == self.writes_before(l, y as int) + self.row_writes(l, y as int, i as int),
                decreases n - i,
            {
                let s = &self.sliders[i];
                let w = write_of(&l, n, y, i, s.current, s.name.unicode_len(), i == self.current);
                match w {
                    Some(w) => {
                        out.push(w);
                    },
                    None => {},
                }
                proof {
                    assert(out@ =~= self.writes_before(l, y as int) + self.row_writes(l, y as int, i + 1));
                }
                i = i + 1;
            }
            y = y + 1;
        }
        Ok(out)
    }

    /// The slider values stay in `0..=100` and every accessor is plain and agrees
    /// with its slider's cache.
    pub open spec fn in_range(&self) -> bool {
        forall|j: int|
            0 <= j < self.sliders.len() ==> {
                &&& (#[trigger] self.sliders@[j]).current <= 100
                &&& self.sliders@[j].in_sync()
            }
    }

    /// Applies the action that `key` (with `control` held or not) stands for, and
    /// returns it. Moving the focus past either end does nothing; the slider
    /// actions go to the focused slider and their errors come back; help and quit
    /// are left to the caller.
    pub fn prompt(&mut self, key: Key, control: bool) -> (r: Result<Action, AccessError>)
        requires
            old(self).focused(),
        ensures
            final(self).sliders.len() == old(self).sliders.len(),
            final(self).focused(),
            final(self).clear == old(self).clear,
            final(self).coordinates_percent == old(self).coordinates_percent,
            final(self).size_percent == old(self).size_percent,
            r is Ok ==> r == Ok::<Action, AccessError>(action_of(key, control)),
            forall|j: int|
                0 <= j < old(self).sliders.len() && j != old(self).current
                    ==> final(self).sliders@[j] == old(self).sliders@[j],
            final(self).sliders@[old(self).current as int].name == old(self).sliders@[old(self).current as int].name,
            match action_of(key, control) {
                Action::Previous => {
                    &&& r is Ok
                    &&& final(self).sliders@ == old(self).sliders@
                    &&& final(self).current == if old(self).current > 0 {
                        (old(self).current - 1) as usize
                    } else {
                        old(self).current
                    }
                },
                Action::Next => {
                    &&& r is Ok
                    &&& final(self).sliders@ == old(self).sliders@
                    &&& final(self).current == if old(self).current + 1 < old(self).sliders.len() {
                        (old(self).current + 1) as usize
                    } else {
                        old(self).current
                    }
                },
                Action::Raise(n) => {
                    &&& final(self).current == old(self).current
                    &&& old(self).sliders@[old(self).current as int].step_post(
                        final(self).sliders@[old(self).current as int],
                        n,
                        true,
                        outcome(r),
                    )
                },
                Action::Lower(n) => {
                    &&& final(self).current == old(self).current
                    &&& old(self).sliders@[old(self).current as int].step_post(
                        final(self).sliders@[old(self).current as int],
                        n,
                        false,
                        outcome(r),
                    )
                },
                Action::SetTo(v) => {
                    &&& final(self).current == old(self).current
                    &&& old(self).sliders@[old(self).current as int].set_post(
                        final(self).sliders@[old(self).current as int],
                        v,
                        outcome(r),
                    )
                },
                _ => r is Ok && final(self).sliders@ == old(self).sliders@ && final(self).current == old(self).current,
            },
            ({
                let s = old(self).sliders@[old(self).current as int];
                let t = final(self).sliders@[old(self).current as int];
                let lowers = action_of(key, control) is Lower;
                s.current <= 100 && (!lowers || s.setter_getter.keeps_calls() && reads_at_most_100(
                    t.setter_getter.calls(),
                )) ==> t.current <= 100
            }),
            old(self).in_range() ==> r is Ok && final(self).in_range(),
    {
        let a = action_for(key, control);
        let c = self.current;
        match a {
            Action::Previous => {
                if self.current > 0 {
                    self.current = self.current - 1;
                }
            },
            Action::Next => {
                if self.current + 1 < self.sliders.len() {
                    self.current = self.current + 1;
                }
            },
            Action::Raise(n) => {
                self.sliders[c].inc(n)?;
            },
            Action::Lower(n) => {
                self.sliders[c].dec(n)?;
            },
            Action::SetTo(v) => {
                self.sliders[c].set(v)?;
            },
            _ => {},
        }
        Ok(a)
    }

    /// The text that a mark of this panel prints: a slider's label, or a bar piece.
    pub fn mark_text(&self, mark: Mark) -> (r: String)
        requires
            mark matches Mark::Label { index, .. } ==> index < self.sliders.len(),
        ensures
            r@ == match mark {
                Mark::Label { index, focused } => label_of(self.sliders@[index as int].name@, focused),
                _ => glyph_of(mark),
            },
    {
        match mark {
            Mark::Label { index, focused } => label(self.sliders[index].name.as_str(), focused),
            _ => glyph(mark),
        }
    }
}

/// The slider `s` with its cache seeded from the result of a read; a failed read
/// ends the build with its error.
pub fn seeded<A: SetterGetter>(s: Slider<A>, read: Result<u8, AccessError>) -> (r: Result<Slider<A>, StartError>)
    ensures
        match read {
            Ok(v) => match r {
                Ok(t) => t.current == v && t.name == s.name && t.setter_getter == s.setter_getter,
                Err(_) => false,
            },
            Err(e) => r == Err::<Slider<A>, StartError>(StartError::Access(e)),
        },
{
    match read {
        Ok(v) => Ok(Slider { name: s.name, setter_getter: s.setter_getter, current: v }),
        Err(e) => Err(StartError::Access(e)),
    }
}

impl<R: CommandRunner + Copy> Sliders<CommandLineSetterGetter<R>> {
    /// Builds a panel of command-backed sliders from the arguments that follow
    /// the program's name. Where `--help` was given there is no panel to run:
    /// `None`. Otherwise each slider is seeded, in order, by one run of its get
    /// command, and the first read that fails ends the build with its error. The
    /// panel fills the terminal, with the focus on its first slider.
    pub fn from_args(args: &Vec<String>, runner: R) -> (r: Result<Option<Self>, StartError>)
        ensures
            ({
                let a = texts(args@);
                let k = flag_count(a);
                let names = values_of(a, "--name"@, k);
                let gets = values_of(a, "--get"@, k);
                let sets = values_of(a, "--set"@, k);
                let counted = names.len() == gets.len() == sets.len();
                let help = flag_given(a, "--help"@, k);
                &&& help ==> r == Ok::<Option<Self>, StartError>(None)
                &&& !help && value_missing(a) ==> r == Err::<Option<Self>, StartError>(
                    StartError::Config(ConfigError::MissingValue),
                )
                &&& !help && !value_missing(a) && !counted ==> r == Err::<Option<Self>, StartError>(
                    StartError::Config(ConfigError::CountMismatch),
                )
                &&& !help && !value_missing(a) && counted ==> match r {
                    Ok(Some(p)) => {
                        &&& p.sliders.len() == names.len()
                        &&& forall|j: int|
                            0 <= j < names.len() ==> {
                                &&& (#[trigger] p.sliders@[j]).name@ == names[j]
                                &&& p.sliders@[j].setter_getter.get_command@ == gets[j]
                                &&& p.sliders@[j].setter_getter.set_command@ == sets[j]
                                &&& p.sliders@[j].setter_getter.calls() == seq![Call::Got(p.sliders@[j].current)]
                                &&& p.sliders@[j].setter_getter.keeps_calls()
                            }
                        &&& p.clear == pair_given(a, "--clear"@, "true"@, k)
                        &&& p.coordinates_percent == (0u16, 0u16)
                        &&& p.size_percent == (100u16, 100u16)
                        &&& p.current == 0
                    },
                    Ok(None) => false,
                    Err(e) => e is Access && names.len() > 0,
                }
            }),
    {
        let defs = match parse_args(args) {
            Ok(d) => d,
            Err(e) => return Err(StartError::Config(e)),
        };
        if defs.help {
            return Ok(None);
        }
        let n = defs.names.len();
        let mut sliders: Vec<Slider<CommandLineSetterGetter<R>>> = Vec::new();
        let mut i: usize = 0;
        while i < n
            invariant
                n == defs.names.len() == defs.get_commands.len() == defs.set_commands.len(),
                !value_missing(texts(args@)),
                texts(defs.names@) == values_of(texts(args@), "--name"@, flag_count(texts(args@))),
                texts(defs.get_commands@) == values_of(texts(args@), "--get"@, flag_count(texts(args@))),
                texts(defs.set_commands@) == values_of(texts(args@), "--set"@, flag_count(texts(args@))),
                !flag_given(texts(args@), "--help"@, flag_count(texts(args@))),
                defs.clear == pair_given(texts(args@), "--clear"@, "true"@, flag_count(texts(args@))),
                i <= n,
                sliders.len() == i,
                forall|j: int|
                    0 <= j < i ==> {
                        &&& (#[trigger] sliders@[j]).name@ == defs.names@[j]@
                        &&& sliders@[j].setter_getter.get_command@ == defs.get_commands@[j]@
                        &&& sliders@[j].setter_getter.set_command@ == defs.set_commands@[j]@
                        &&& sliders@[j].setter_getter.calls() == seq![Call::Got(sliders@[j].current)]
                        &&& sliders@[j].setter_getter.keeps_calls()
                    },
            decreases n - i,
        {
            let mut s = command_line_slider(
                defs.names[i].clone(),
                defs.get_commands[i].clone(),
                defs.set_commands[i].clone(),
                runner,
            );
            let read = s.setter_getter.get();
            let t = match seeded(s, read) {
                Ok(t) => t,
                Err(e) => return Err(e),
            };
            proof {
                assert(t.setter_getter.calls() =~= seq![Call::Got(t.current)]);
            }
            sliders.push(t);
            i = i + 1;
        }
        proof {
            assert(forall|j: int| 0 <= j < n ==> texts(defs.names@)[j] == defs.names@[j]@);
            assert(forall|j: int| 0 <= j < n ==> texts(defs.get_commands@)[j] == defs.get_commands@[j]@);
            assert(forall|j: int| 0 <= j < n ==> texts(defs.set_commands@)[j] == defs.set_commands@[j]@);
        }
        Ok(Some(Sliders { sliders, clear: defs.clear, coordinates_percent: (0, 0), size_percent: (100, 100), current: 0 }))
    }
}

} // verus!
