//! The value accessor abstraction and the variants that ship with the library.

use vstd::prelude::*;

verus! {

/// What can go wrong while reading or writing a value source.
#[derive(Debug, PartialEq, Eq)]
pub enum AccessError {
    /// The source could not be reached (a command failed to start, say).
    Failed(String),
    /// The text read from the source is not a number in `0..=255`.
    NotANumber,
}

pub open spec fn is_digit(c: char) -> bool {
    '0' <= c && c <= '9'
}

pub open spec fn all_digits(s: Seq<char>) -> bool {
    forall|i: int| 0 <= i < s.len() ==> is_digit(#[trigger] s[i])
}

/// The number that a string of decimal digits denotes.
pub open spec fn digits_value(s: Seq<char>) -> nat
    decreases s.len(),
{
    if s.len() == 0 {
        0
    } else {
        digits_value(s.drop_last()) * 10 + ((s.last() as nat) - ('0' as nat)) as nat
    }
}

/// `text` without one trailing newline, if it ends in one.
pub open spec fn without_newline(text: Seq<char>) -> Seq<char> {
    if text.len() > 0 && text.last() == '\n' {
        text.drop_last()
    } else {
        text
    }
}

/// `t` without one leading `+`, if it starts with one.
pub open spec fn without_plus(t: Seq<char>) -> Seq<char> {
    if t.len() > 0 && t[0] == '+' {
        t.drop_first()
    } else {
        t
    }
}

/// The value that a source's output denotes: one trailing newline is dropped, and
/// what is left must be an optional `+` and one or more decimal digits, at most 255.
pub open spec fn reading_of(text: Seq<char>) -> Option<u8> {
    let d = without_plus(without_newline(text));
    if d.len() > 0 && all_digits(d) && digits_value(d) <= 255 {
        Some(digits_value(d) as u8)
    } else {
        None
    }
}

proof fn lemma_digits_value_grows(s: Seq<char>, c: char)
    requires
        is_digit(c),
    ensures
        digits_value(s.push(c)) >= digits_value(s),
        digits_value(s.push(c)) == digits_value(s) * 10 + ((c as nat) - ('0' as nat)),
{
    assert(s.push(c).drop_last() =~= s);
}

/// Reads the value out of what a source printed, as `reading_of` states.
pub fn read_output(text: &str) -> (r: Result<u8, AccessError>)
    ensures
        match reading_of(text@) {
            Some(v) => r == Ok::<u8, AccessError>(v),
            None => r == Err::<u8, AccessError>(AccessError::NotANumber),
        },
{
    let len = text.unicode_len();
    let mut end: usize = len;
    if len > 0 && text.get_char(len - 1) == '\n' {
        end = len - 1;
    }
    let ghost t = without_newline(text@);
    assert(t =~= text@.subrange(0, end as int));
    let mut start: usize = 0;
    if end > 0 && text.get_char(0) == '+' {
        start = 1;
    }
    let ghost d = without_plus(t);
    assert(d =~= text@.subrange(start as int, end as int));
    if start >= end {
        return Err(AccessError::NotANumber);
    }
    let mut value: u32 = 0;
    let mut over = false;
    let mut i: usize = start;
    while i < end
        invariant
            start <= i <= end <= len,
            len == text@.len(),
            d =~= text@.subrange(start as int, end as int),
            d == without_plus(without_newline(text@)),
            all_digits(text@.subrange(start as int, i as int)),
            over ==> digits_value(text@.subrange(start as int, i as int)) > 255,
            !over ==> value as nat == digits_value(text@.subrange(start as int, i as int)),
            !over ==> value <= 255,
        decreases end - i,
    {
        let c = text.get_char(i);
        if !('0' <= c && c <= '9') {
            assert(d[i - start] == c);
            assert(!all_digits(d));
            return Err(AccessError::NotANumber);
        }
        let ghost prev = text@.subrange(start as int, i as int);
        assert(text@.subrange(start as int, i + 1) =~= prev.push(c));
        proof {
            lemma_digits_value_grows(prev, c);
        }
        if !over {
            value = value * 10 + (c as u32 - '0' as u32);
            if value > 255 {
                over = true;
            }
        }
        i = i + 1;
    }
    if over {
        Err(AccessError::NotANumber)
    } else {
        Ok(value as u8)
    }
}

/// One call that an accessor answered: a read and its value, or a write and
/// its value, each either done or failed with its error.
#[derive(Debug, PartialEq, Eq)]
pub enum Call {
    Got(u8),
    GetFailed(AccessError),
    Put(u8),
    PutFailed(u8, AccessError),
}

/// The record that `get` answering `r` adds.
pub open spec fn read_call(r: Result<u8, AccessError>) -> Call {
    match r {
        Ok(v) => Call::Got(v),
        Err(e) => Call::GetFailed(e),
    }
}

/// The record that a write of `value` answered by `r` adds.
pub open spec fn write_call(value: u8, r: Result<(), AccessError>) -> Call {
    match r {
        Ok(()) => Call::Put(value),
        Err(e) => Call::PutFailed(value, e),
    }
}

/// Every value read in `calls` is at most 100.
pub open spec fn reads_at_most_100(calls: Seq<Call>) -> bool {
    forall|i: int|
        0 <= i < calls.len() ==> match #[trigger] calls[i] {
            Call::Got(v) => v <= 100,
            _ => true,
        }
}

/// A source of one bounded value, read and written by a slider.
///
/// Values are `u8`. A slider sets values in `0..=100` only, unless the accessor
/// itself reported one above 100 and a decrement went down from it.
///
/// An accessor may say more of itself through the spec functions, whose
/// defaults say nothing:
/// - `keeps_calls`: `calls` records, in order, every call it answered and how.
///   `setting` is what fixes how it reaches its source, and no call changes it.
/// - `is_plain`: it behaves as a plain stored value, `stored`; `get` returns it,
///   `set` replaces it, and neither fails.
pub trait SetterGetter {
    open spec fn keeps_calls(&self) -> bool {
        false
    }

    open spec fn calls(&self) -> Seq<Call> {
        seq![]
    }

    open spec fn setting(&self) -> Seq<Seq<char>> {
        seq![]
    }

    open spec fn is_plain(&self) -> bool {
        false
    }

    open spec fn stored(&self) -> u8 {
        0
    }

    fn get(&mut self) -> (r: Result<u8, AccessError>)
        ensures
            old(self).keeps_calls() ==> {
                &&& final(self).keeps_calls()
                &&& final(self).setting() == old(self).setting()
                &&& final(self).calls() == old(self).calls().push(read_call(r))
            },
            old(self).is_plain() ==> {
                &&& final(self).is_plain()
                &&& final(self).stored() == old(self).stored()
                &&& r == Ok::<u8, AccessError>(old(self).stored())
            },
    ;

    fn set(&mut self, value: u8) -> (r: Result<(), AccessError>)
        ensures
            old(self).keeps_calls() ==> {
                &&& final(self).keeps_calls()
                &&& final(self).setting() == old(self).setting()
                &&& final(self).calls() == old(self).calls().push(write_call(value, r))
            },
            old(self).is_plain() ==> {
                &&& final(self).is_plain()
                &&& final(self).stored() == value
                &&& r is Ok
            },
    ;
}

/// An accessor that keeps its value in memory: a plain one.
pub struct MemoryAccessor {
    pub value: u8,
}

impl MemoryAccessor {
    pub fn new(value: u8) -> (r: MemoryAccessor)
        ensures
            r.value == value,
    {
        MemoryAccessor { value }
    }
}

impl SetterGetter for MemoryAccessor {
    open spec fn is_plain(&self) -> bool {
        true
    }

    open spec fn stored(&self) -> u8 {
        self.value
    }

    fn get(&mut self) -> (r: Result<u8, AccessError>) {
        Ok(self.value)
    }

    fn set(&mut self, value: u8) -> (r: Result<(), AccessError>) {
        self.value = value;
        Ok(())
    }
}

/// Runs a command line through a shell and hands back what it printed.
pub trait CommandRunner {
    fn run(&mut self, command: &str) -> Result<String, AccessError>;
}

pub open spec fn digit_char(d: int) -> char {
    seq!['0', '1', '2', '3', '4', '5', '6', '7', '8', '9'][d]
}

/// The decimal digits of `v`, without leading zeros.
pub open spec fn decimal_of(v: nat) -> Seq<char>
    decreases v,
{
    if v < 10 {
        seq![digit_char(v as int)]
    } else {
        decimal_of(v / 10).push(digit_char((v % 10) as int))
    }
}

/// `t` with every `{}`, taken from the left without overlap, replaced by `d`.
pub open spec fn replace_marks(t: Seq<char>, d: Seq<char>) -> Seq<char>
    decreases t.len(),
{
    if t.len() < 2 {
        t
    } else if t[0] == '{' && t[1] == '}' {
        d + replace_marks(t.subrange(2, t.len() as int), d)
    } else {
        seq![t[0]] + replace_marks(t.subrange(1, t.len() as int), d)
    }
}

/// The decimal text of `v`.
pub fn decimal(v: u8) -> (r: String)
    ensures
        r@ == decimal_of(v as nat),
{
    let digits = "0123456789";
    proof {
        reveal_strlit("0123456789");
        reveal_with_fuel(decimal_of, 3);
    }
    let h: usize = (v / 100) as usize;
    let t: usize = ((v / 10) % 10) as usize;
    let o: usize = (v % 10) as usize;
    let mut out = String::new();
    if v >= 100 {
        out.append(digits.substring_char(h, h + 1));
    }
    if v >= 10 {
        out.append(digits.substring_char(t, t + 1));
    }
    out.append(digits.substring_char(o, o + 1));
    assert(out@ =~= decimal_of(v as nat));
    out
}

/// The command line that sets a value: `template` with each `{}` replaced by the
/// decimal text of `value`.
pub fn set_command_line(template: &str, value: u8) -> (r: String)
    ensures
        r@ == replace_marks(template@, decimal_of(value as nat)),
{
    let d = decimal(value);
    let len = template.unicode_len();
    let mut out = String::new();
    let mut i: usize = 0;
    assert(template@.subrange(0, len as int) =~= template@);
    assert(out@ + replace_marks(template@, d@) =~= replace_marks(template@, d@));
    while i < len
        invariant
            i <= len == template@.len(),
            d@ == decimal_of(value as nat),
            out@ + replace_marks(template@.subrange(i as int, len as int), d@)
                == replace_marks(template@, d@),
        decreases len - i,
    {
        let ghost rest = template@.subrange(i as int, len as int);
        if i + 1 < len && template.get_char(i) == '{' && template.get_char(i + 1) == '}' {
            assert(rest.subrange(2, rest.len() as int) =~= template@.subrange(i + 2, len as int));
            out.append(d.as_str());
            assert(out@ + replace_marks(template@.subrange(i + 2, len as int), d@)
                =~= replace_marks(template@, d@));
            i = i + 2;
        } else {
            if i + 1 < len {
                assert(rest.subrange(1, rest.len() as int) =~= template@.subrange(i + 1, len as int));
            } else {
                assert(template@.subrange(i + 1, len as int) =~= Seq::<char>::empty());
            }
            out.append(template.substring_char(i, i + 1));
            assert(out@ + replace_marks(template@.subrange(i + 1, len as int), d@)
                =~= replace_marks(template@, d@));
            i = i + 1;
        }
    }
    assert(template@.subrange(len as int, len as int) =~= Seq::<char>::empty());
    assert(out@ =~= out@ + replace_marks(Seq::<char>::empty(), d@));
    out
}

/// A command line handed to a runner, and the runner's answer: what the
/// command printed, or the runner's error.
pub type Run = (Seq<char>, Result<Seq<char>, AccessError>);

/// The answer of a runner as a record holds it.
pub open spec fn answer_of(res: Result<String, AccessError>) -> Result<Seq<char>, AccessError> {
    match res {
        Ok(s) => Ok(s@),
        Err(e) => Err(e),
    }
}

/// What a read returns for a runner's `answer`: the value that its output
/// denotes, or the runner's error.
pub open spec fn get_result(answer: Result<Seq<char>, AccessError>) -> Result<u8, AccessError> {
    match answer {
        Ok(t) => match reading_of(t) {
            Some(v) => Ok(v),
            None => Err(AccessError::NotANumber),
        },
        Err(e) => Err(e),
    }
}

/// What a write returns for a runner's `answer`: done whatever was printed, or
/// the runner's error.
pub open spec fn set_result(answer: Result<Seq<char>, AccessError>) -> Result<(), AccessError> {
    match answer {
        Ok(_) => Ok(()),
        Err(e) => Err(e),
    }
}

/// The command line that writes `value` through the template `set_command`.
pub open spec fn set_line(set_command: Seq<char>, value: u8) -> Seq<char> {
    replace_marks(set_command, decimal_of(value as nat))
}

/// `call` is what the accessor answered for `run`, with these commands.
pub open spec fn call_from_run(call: Call, run: Run, get_command: Seq<char>, set_command: Seq<char>) -> bool {
    match call {
        Call::Got(v) => run.0 == get_command && get_result(run.1) == Ok::<u8, AccessError>(v),
        Call::GetFailed(e) => run.0 == get_command && get_result(run.1) == Err::<u8, AccessError>(e),
        Call::Put(v) => run.0 == set_line(set_command, v) && set_result(run.1) == Ok::<(), AccessError>(()),
        Call::PutFailed(v, e) => run.0 == set_line(set_command, v) && set_result(run.1) == Err::<(), AccessError>(e),
    }
}

/// An accessor that runs shell commands: `get_command` prints the value, and
/// `set_command` stores one, with `{}` standing for it. `log` records the calls
/// it answered and `runs` the commands it handed to its runner, one each, with
/// the runner's answers.
pub struct CommandLineSetterGetter<R: CommandRunner> {
    pub get_command: String,
    pub set_command: String,
    pub runner: R,
    pub log: Ghost<Seq<Call>>,
    pub runs: Ghost<Seq<Run>>,
}

impl<R: CommandRunner> CommandLineSetterGetter<R> {
    /// Each recorded call was answered from the run beside it.
    pub open spec fn consistent(&self) -> bool {
        &&& self.log@.len() == self.runs@.len()
        &&& forall|i: int|
            0 <= i < self.log@.len() ==> call_from_run(
                #[trigger] self.log@[i],
                self.runs@[i],
                self.get_command@,
                self.set_command@,
            )
    }

    pub fn new(get_command: String, set_command: String, runner: R) -> (r: Self)
        ensures
            r.get_command == get_command,
            r.set_command == set_command,
            r.runner == runner,
            r.log@ == Seq::<Call>::empty(),
            r.runs@ == Seq::<Run>::empty(),
            r.consistent(),
    {
        CommandLineSetterGetter {
            get_command,
            set_command,
            runner,
            log: Ghost(Seq::empty()),
            runs: Ghost(Seq::empty()),
        }
    }
}

impl<R: CommandRunner> SetterGetter for CommandLineSetterGetter<R> {
    open spec fn keeps_calls(&self) -> bool {
        self.consistent()
    }

    open spec fn calls(&self) -> Seq<Call> {
        self.log@
    }

    open spec fn setting(&self) -> Seq<Seq<char>> {
        seq![self.get_command@, self.set_command@]
    }

    /// Runs `get_command` once and reads its output as `read_output` does; a
    /// runner's error comes back as it is.
    fn get(&mut self) -> (r: Result<u8, AccessError>)
        ensures
            final(self).get_command == old(self).get_command,
            final(self).set_command == old(self).set_command,
            final(self).runs@.len() == old(self).runs@.len() + 1,
            final(self).runs@ == old(self).runs@.push(final(self).runs@.last()),
            final(self).runs@.last().0 == old(self).get_command@,
            r == get_result(final(self).runs@.last().1),
    {
        let res = self.runner.run(self.get_command.as_str());
        let ghost answer = answer_of(res);
        let r = match res {
            Ok(out) => read_output(out.as_str()),
            Err(e) => Err(e),
        };
        self.log = Ghost(self.log@.push(read_call(r)));
        self.runs = Ghost(self.runs@.push((self.get_command@, answer)));
        proof {
            assert(self.runs@.last() == (self.get_command@, answer));
        }
        r
    }

    /// Runs `set_command` once, with each `{}` replaced by `value` as
    /// `set_command_line` does; what the command prints is not looked at, and a
    /// runner's error comes back as it is.
    fn set(&mut self, value: u8) -> (r: Result<(), AccessError>)
        ensures
            final(self).get_command == old(self).get_command,
            final(self).set_command == old(self).set_command,
            final(self).runs@.len() == old(self).runs@.len() + 1,
            final(self).runs@ == old(self).runs@.push(final(self).runs@.last()),
            final(self).runs@.last().0 == set_line(old(self).set_command@, value),
            r == set_result(final(self).runs@.last().1),
    {
        let line = set_command_line(self.set_command.as_str(), value);
        let res = self.runner.run(line.as_str());
        let ghost answer = answer_of(res);
        let r = match res {
            Ok(_) => Ok(()),
            Err(e) => Err(e),
        };
        self.log = Ghost(self.log@.push(write_call(value, r)));
        self.runs = Ghost(self.runs@.push((line@, answer)));
        r
    }
}

} // verus!
