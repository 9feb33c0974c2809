//! The command line: repeated `--name`, `--get` and `--set` flags, one slider
//! per position, plus `--clear true` and `--help`.

use vstd::prelude::*;
use crate::panel::ConfigError;

verus! {

/// The sliders and options that a command line asks for.
pub struct Definitions {
    pub names: Vec<String>,
    pub get_commands: Vec<String>,
    pub set_commands: Vec<String>,
    pub clear: bool,
    pub help: bool,
}

pub open spec fn texts(v: Seq<String>) -> Seq<Seq<char>> {
    v.map_values(|s: String| s@)
}

/// The flags read are those at even positions; each but `--help` takes the
/// argument after it as its value.
pub open spec fn takes_value(t: Seq<char>) -> bool {
    t == "--name"@ || t == "--get"@ || t == "--set"@ || t == "--clear"@
}

/// The number of flag positions in `args`.
pub open spec fn flag_count(args: Seq<Seq<char>>) -> int {
    (args.len() as int + 1) / 2
}

/// The values given to `flag` among the first `k` flag positions, in order.
pub open spec fn values_of(args: Seq<Seq<char>>, flag: Seq<char>, k: int) -> Seq<Seq<char>>
    decreases k,
{
    if k <= 0 {
        seq![]
    } else {
        let prev = values_of(args, flag, k - 1);
        let i = 2 * (k - 1);
        if i + 1 < args.len() && args[i] == flag {
            prev.push(args[i + 1])
        } else {
            prev
        }
    }
}

/// Some flag among the first `k` positions is `flag`.
pub open spec fn flag_given(args: Seq<Seq<char>>, flag: Seq<char>, k: int) -> bool
    decreases k,
{
    k > 0 && (flag_given(args, flag, k - 1) || args[2 * (k - 1)] == flag)
}

/// Some flag among the first `k` positions is `flag` with the value `value`.
pub open spec fn pair_given(args: Seq<Seq<char>>, flag: Seq<char>, value: Seq<char>, k: int) -> bool
    decreases k,
{
    k > 0 && (pair_given(args, flag, value, k - 1) || {
        let i = 2 * (k - 1);
        i + 1 < args.len() && args[i] == flag && args[i + 1] == value
    })
}

/// The last argument is a flag that needs a value.
pub open spec fn value_missing(args: Seq<Seq<char>>) -> bool {
    args.len() % 2 == 1 && takes_value(args.last())
}

/// Reads the arguments that follow the program's name. `clear` is set by
/// `--clear true`, and `help` by `--help`; other flags are passed over with
/// their values. Unless `--help` was given, a value flag without its value
/// fails with `MissingValue`, and different numbers of names, get and set
/// commands fail with `CountMismatch`.
pub fn parse_args(args: &Vec<String>) -> (r: Result<Definitions, ConfigError>)
    ensures
        ({
            let a = texts(args@);
            let k = flag_count(a);
            let names = values_of(a, "--name"@, k);
            let gets = values_of(a, "--get"@, k);
            let sets = values_of(a, "--set"@, k);
            let help = flag_given(a, "--help"@, k);
            match r {
                Ok(d) => {
                    &&& texts(d.names@) == names
                    &&& texts(d.get_commands@) == gets
                    &&& texts(d.set_commands@) == sets
                    &&& d.clear == pair_given(a, "--clear"@, "true"@, k)
                    &&& d.help == help
                    &&& !help ==> !value_missing(a) && names.len() == gets.len() == sets.len()
                },
                Err(e) => {
                    &&& !help
                    &&& value_missing(a) ==> e == ConfigError::MissingValue
                    &&& !value_missing(a) ==> e == ConfigError::CountMismatch
                        && !(names.len() == gets.len() == sets.len())
                },
            }
        }),
{
    let ghost a = texts(args@);
    let name_flag = String::from_str("--name");
    let get_flag = String::from_str("--get");
    let set_flag = String::from_str("--set");
    let clear_flag = String::from_str("--clear");
    let help_flag = String::from_str("--help");
    let yes = String::from_str("true");
    let mut names: Vec<String> = Vec::new();
    let mut gets: Vec<String> = Vec::new();
    let mut sets: Vec<String> = Vec::new();
    let mut clear = false;
    let mut help = false;
    let mut missing = false;
    let len = args.len();
    let mut i: usize = 0;
    while i < len
        invariant
            a == texts(args@),
            len == args@.len(),
            i % 2 == 0 || i == len,
            i <= len,
            missing ==> value_missing(a),
            i >= len && !missing ==> !value_missing(a),
            name_flag@ == "--name"@,
            get_flag@ == "--get"@,
            set_flag@ == "--set"@,
            clear_flag@ == "--clear"@,
            help_flag@ == "--help"@,
            yes@ == "true"@,
            texts(names@) == values_of(a, "--name"@, (i as int + 1) / 2),
            texts(gets@) == values_of(a, "--get"@, (i as int + 1) / 2),
            texts(sets@) == values_of(a, "--set"@, (i as int + 1) / 2),
            clear == pair_given(a, "--clear"@, "true"@, (i as int + 1) / 2),
            help == flag_given(a, "--help"@, (i as int + 1) / 2),
        decreases len - i,
    {
        let t = &args[i];
        proof {
            reveal_strlit("--name");
            reveal_strlit("--get");
            reveal_strlit("--set");
            assert("--name"@.len() == 6 && "--get"@.len() == 5 && "--set"@.len() == 5);
            reveal_strlit("--clear");
            reveal_strlit("--help");
            assert("--get"@[2] != "--set"@[2]);
            assert("--clear"@.len() == 7 && "--help"@.len() == 6);
            assert("--name"@[2] != "--help"@[2]);
        }
        let ghost k = i as int / 2 + 1;
        assert((i as int + 1) / 2 == i as int / 2);
        assert(a[i as int] == t@);
        assert(2 * (k - 1) == i);
        let has_value = i + 1 < len;
        if !has_value && (*t == name_flag || *t == get_flag || *t == set_flag || *t == clear_flag) {
            assert(i == len - 1);
            assert(value_missing(a));
            missing = true;
        }
        if has_value {
            assert(a[i + 1] == args@[i + 1]@);
        }
        if has_value && *t == name_flag {
            names.push(args[i + 1].clone());
        } else if has_value && *t == get_flag {
            gets.push(args[i + 1].clone());
        } else if has_value && *t == set_flag {
            sets.push(args[i + 1].clone());
        } else if has_value && *t == clear_flag {
            if args[i + 1] == yes {
                clear = true;
            }
        } else if *t == help_flag {
            help = true;
        }
        assert(texts(names@) =~= values_of(a, "--name"@, k));
        assert(texts(gets@) =~= values_of(a, "--get"@, k));
        assert(texts(sets@) =~= values_of(a, "--set"@, k));
        i = i + 1;
        if i < len {
            i = i + 1;
        }
    }
    assert((i as int + 1) / 2 == flag_count(a));
    if help {
        return Ok(Definitions { names, get_commands: gets, set_commands: sets, clear, help });
    }
    if missing {
        return Err(ConfigError::MissingValue);
    }
    if names.len() != gets.len() || names.len() != sets.len() {
        return Err(ConfigError::CountMismatch);
    }
    Ok(Definitions { names, get_commands: gets, set_commands: sets, clear, help })
}

} // verus!
