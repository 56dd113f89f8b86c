//! The command line: `--root <dir>`, `--interval-ms <n>` and `--retries <n>`,
//! each given at most as often as wanted, the last one winning.
use vstd::prelude::*;
use crate::catalog::{decimal_number, parse_decimal};
use crate::document::same_text;

verus! {

/// Where the mirror is written, and how fetches are paced and retried.
#[derive(Debug, PartialEq, Eq)]
pub struct Options {
    pub root: String,
    pub interval_ms: u64,
    pub max_tries: u32,
}

#[derive(PartialEq, Eq, Debug, Clone, Copy, Structural)]
pub enum OptionError {
    /// A flag that is not one of the three.
    UnknownFlag,
    /// A flag at the end, without its value.
    MissingValue,
    /// A value that is not a decimal number, or a retry count outside `1..=u32::MAX`.
    BadNumber,
}

/// The options that the arguments set over `(root, interval_ms, max_tries)`.
pub open spec fn options_from(args: Seq<Seq<char>>, o: (Seq<char>, u64, u32)) -> Result<
    (Seq<char>, u64, u32),
    OptionError,
>
    decreases args.len(),
{
    if args.len() == 0 {
        Ok(o)
    } else if args.len() == 1 {
        if args[0] == "--root"@ || args[0] == "--interval-ms"@ || args[0] == "--retries"@ {
            Err(OptionError::MissingValue)
        } else {
            Err(OptionError::UnknownFlag)
        }
    } else {
        let (flag, value, rest) = (args[0], args[1], args.skip(2));
        if flag == "--root"@ {
            options_from(rest, (value, o.1, o.2))
        } else if flag == "--interval-ms"@ {
            match decimal_number(value) {
                Some(n) => options_from(rest, (o.0, n, o.2)),
                None => Err(OptionError::BadNumber),
            }
        } else if flag == "--retries"@ {
            match decimal_number(value) {
                Some(n) => if 1 <= n <= u32::MAX {
                    options_from(rest, (o.0, o.1, n as u32))
                } else {
                    Err(OptionError::BadNumber)
                },
                None => Err(OptionError::BadNumber),
            }
        } else {
            Err(OptionError::UnknownFlag)
        }
    }
}

/// The defaults: `./download`, two seconds between fetches, three tries.
pub open spec fn default_options() -> (Seq<char>, u64, u32) {
    ("./download"@, 2000, 3)
}

impl View for Options {
    type V = (Seq<char>, u64, u32);

    open spec fn view(&self) -> (Seq<char>, u64, u32) {
        (self.root@, self.interval_ms, self.max_tries)
    }
}

pub open spec fn args_view(args: Seq<String>) -> Seq<Seq<char>> {
    args.map_values(|a: String| a@)
}

/// Reads the arguments that follow the program's name.
pub fn parse_options(args: &Vec<String>) -> (r: Result<Options, OptionError>)
    ensures
        match r {
            Ok(o) => options_from(args_view(args@), default_options()) == Ok::<_, OptionError>(o@),
            Err(e) => options_from(args_view(args@), default_options()) == Err::<
                (Seq<char>, u64, u32),
                _,
            >(e),
        },
{
    let mut o = Options { root: String::from_str("./download"), interval_ms: 2000, max_tries: 3 };
    let ghost all = args_view(args@);
    let n = args.len();
    let mut i: usize = 0;
    assert(all.skip(0) =~= all);
    while i < n
        invariant
            n == args@.len(),
            all == args_view(args@),
            i <= n,
            options_from(all, default_options()) == options_from(all.skip(i as int), o@),
        decreases n - i,
    {
        let ghost rest = all.skip(i as int);
        let flag = args[i].as_str();
        assert(rest[0] == flag@);
        let is_root = same_text(flag, "--root");
        let is_interval = same_text(flag, "--interval-ms");
        let is_retries = same_text(flag, "--retries");
        if i + 1 == n {
            assert(rest.len() == 1);
            if is_root || is_interval || is_retries {
                return Err(OptionError::MissingValue);
            }
            return Err(OptionError::UnknownFlag);
        }
        let value = args[i + 1].as_str();
        assert(rest[1] == value@);
        assert(rest.skip(2) =~= all.skip(i + 2));
        if is_root {
            o.root = String::from_str(value);
        } else if is_interval {
            match parse_decimal(value) {
                Some(v) => {
                    o.interval_ms = v;
                },
                None => {
                    return Err(OptionError::BadNumber);
                },
            }
        } else if is_retries {
            match parse_decimal(value) {
                Some(v) => if 1 <= v && v <= 4294967295 {
                    o.max_tries = v as u32;
                } else {
                    return Err(OptionError::BadNumber);
                },
                None => {
                    return Err(OptionError::BadNumber);
                },
            }
        } else {
            return Err(OptionError::UnknownFlag);
        }
        i = i + 2;
    }
    assert(all.skip(i as int) =~= seq![]);
    Ok(o)
}

} // verus!
