//! The command line of the weight-loading program.
use vstd::prelude::*;
use vstd::string::*;

use crate::text::{after_prefix, same_text};

verus! {

/// The flags that take a value.
#[derive(Clone, Copy, Debug, PartialEq, Eq, Structural)]
pub enum LoadFlag {
    ModelPath,
    TpSize,
    DpSize,
}

impl LoadFlag {
    /// The flag as it is written.
    pub open spec fn spelled(self) -> Seq<char> {
        match self {
            LoadFlag::ModelPath => "--model-path"@,
            LoadFlag::TpSize => "--tp-size"@,
            LoadFlag::DpSize => "--dp-size"@,
        }
    }

    /// The flag as it is written.
    pub fn text(self) -> (r: &'static str)
        ensures
            r@ == self.spelled(),
            match self {
                LoadFlag::ModelPath => r@ == "--model-path"@,
                LoadFlag::TpSize => r@ == "--tp-size"@,
                LoadFlag::DpSize => r@ == "--dp-size"@,
            },
    {
        match self {
            LoadFlag::ModelPath => "--model-path",
            LoadFlag::TpSize => "--tp-size",
            LoadFlag::DpSize => "--dp-size",
        }
    }
}

/// What is loaded, and over how many GPUs.
#[derive(Clone, Debug)]
pub struct LoadArgs {
    pub model_path: String,
    pub tp_size: usize,
    pub dp_size: usize,
}

/// What a command line asks for.
#[derive(Clone, Debug)]
pub enum LoadCommand {
    Load(LoadArgs),
    Help,
}

/// Why a command line is refused.
#[derive(Clone, Debug)]
pub enum LoadArgsError {
    /// The flag is the last argument.
    MissingValue { flag: LoadFlag },
    /// Nothing stands behind the equals sign.
    EmptyValue { flag: LoadFlag },
    /// The value is no number.
    InvalidNumber { flag: LoadFlag, value: String },
    /// No flag of this program.
    UnknownArgument { arg: String },
}

/// The view of a parse's outcome.
pub enum LoadOutcome {
    Load { model_path: Seq<char>, tp_size: usize, dp_size: usize },
    Help,
    MissingValue { flag: LoadFlag },
    EmptyValue { flag: LoadFlag },
    InvalidNumber { flag: LoadFlag, value: Seq<char> },
    UnknownArgument { arg: Seq<char> },
}

/// The settings collected so far.
pub struct LoadSettings {
    pub model_path: Seq<char>,
    pub tp_size: usize,
    pub dp_size: usize,
}

/// The settings of an empty command line.
pub open spec fn default_settings() -> LoadSettings {
    LoadSettings { model_path: "models/GLM-5.2-FP8"@, tp_size: 1, dp_size: 1 }
}

/// The words of a command line.
pub open spec fn words(args: Seq<String>) -> Seq<Seq<char>> {
    Seq::new(args.len(), |i: int| args[i]@)
}

/// The flag that an argument sets with an equals sign, if there is one.
pub open spec fn flag_with_equals(arg: Seq<char>) -> Option<LoadFlag> {
    if crate::text::starts_with(arg, "--model-path="@) {
        Some(LoadFlag::ModelPath)
    } else if crate::text::starts_with(arg, "--tp-size="@) {
        Some(LoadFlag::TpSize)
    } else if crate::text::starts_with(arg, "--dp-size="@) {
        Some(LoadFlag::DpSize)
    } else {
        None
    }
}

/// The flag that an argument is, if it is one.
pub open spec fn bare_flag(arg: Seq<char>) -> Option<LoadFlag> {
    if arg == "--model-path"@ {
        Some(LoadFlag::ModelPath)
    } else if arg == "--tp-size"@ {
        Some(LoadFlag::TpSize)
    } else if arg == "--dp-size"@ {
        Some(LoadFlag::DpSize)
    } else {
        None
    }
}

/// What stands behind a flag and its equals sign, if anything does.
pub open spec fn equals_value(arg: Seq<char>, flag: Seq<char>) -> Option<Seq<char>> {
    if crate::text::starts_with(arg, flag) && crate::text::starts_with(
        crate::text::rest_from(arg, flag.len() as int),
        "="@,
    ) && arg.len() > flag.len() + 1 {
        Some(crate::text::rest_from(arg, flag.len() as int + 1))
    } else {
        None
    }
}

/// The settings after a flag took a value, if the flag accepts the value.
pub open spec fn with_value(s: LoadSettings, flag: LoadFlag, value: Seq<char>) -> Option<
    LoadSettings,
> {
    match flag {
        LoadFlag::ModelPath => Some(LoadSettings { model_path: value, ..s }),
        LoadFlag::TpSize => match crate::text::unsigned_value(value, usize::MAX as nat) {
            Some(n) => Some(LoadSettings { tp_size: n as usize, ..s }),
            None => None,
        },
        LoadFlag::DpSize => match crate::text::unsigned_value(value, usize::MAX as nat) {
            Some(n) => Some(LoadSettings { dp_size: n as usize, ..s }),
            None => None,
        },
    }
}

/// What a command line asks for, read from argument `at` on: a later value of
/// a flag replaces an earlier one, and the first fault or plea for help ends
/// the reading.
pub open spec fn load_outcome(args: Seq<Seq<char>>, at: int, s: LoadSettings) -> LoadOutcome
    decreases args.len() - at,
{
    if at < 0 || at >= args.len() {
        LoadOutcome::Load { model_path: s.model_path, tp_size: s.tp_size, dp_size: s.dp_size }
    } else if bare_flag(args[at]) is Some {
        let flag = bare_flag(args[at])->0;
        if at + 1 >= args.len() {
            LoadOutcome::MissingValue { flag }
        } else {
            match with_value(s, flag, args[at + 1]) {
                Some(next) => load_outcome(args, at + 2, next),
                None => LoadOutcome::InvalidNumber { flag, value: args[at + 1] },
            }
        }
    } else if args[at] == "--help"@ || args[at] == "-h"@ {
        LoadOutcome::Help
    } else if flag_with_equals(args[at]) is Some {
        let flag = flag_with_equals(args[at])->0;
        match equals_value(args[at], flag.spelled()) {
            Some(value) => match with_value(s, flag, value) {
                Some(next) => load_outcome(args, at + 1, next),
                None => LoadOutcome::InvalidNumber { flag, value },
            },
            None => LoadOutcome::EmptyValue { flag },
        }
    } else {
        LoadOutcome::UnknownArgument { arg: args[at] }
    }
}

impl LoadArgs {
    /// The view of the settings.
    pub open spec fn settings(self) -> LoadSettings {
        LoadSettings {
            model_path: self.model_path@,
            tp_size: self.tp_size,
            dp_size: self.dp_size,
        }
    }
}

impl LoadArgsError {
    /// The view of a refusal.
    pub open spec fn outcome(self) -> LoadOutcome {
        match self {
            LoadArgsError::MissingValue { flag } => LoadOutcome::MissingValue { flag },
            LoadArgsError::EmptyValue { flag } => LoadOutcome::EmptyValue { flag },
            LoadArgsError::InvalidNumber { flag, value } => LoadOutcome::InvalidNumber {
                flag,
                value: value@,
            },
            LoadArgsError::UnknownArgument { arg } => LoadOutcome::UnknownArgument { arg: arg@ },
        }
    }

    /// The refusal in words.
    pub open spec fn wording(self) -> Seq<char> {
        match self {
            LoadArgsError::MissingValue { flag } => flag.spelled() + " requires a value"@,
            LoadArgsError::EmptyValue { flag } => flag.spelled()
                + " requires a non-empty value"@,
            LoadArgsError::InvalidNumber { flag, value } => "invalid "@ + flag.spelled() + ": "@
                + value@,
            LoadArgsError::UnknownArgument { arg } => "unknown argument "@ + arg@,
        }
    }

    /// The refusal in words.
    pub fn message(&self) -> (t: String)
        ensures
            t@ == self.wording(),
    {
        match self {
            LoadArgsError::MissingValue { flag } => {
                let mut t = String::from_str(flag.text());
                t.append(" requires a value");
                t
            },
            LoadArgsError::EmptyValue { flag } => {
                let mut t = String::from_str(flag.text());
                t.append(" requires a non-empty value");
                t
            },
            LoadArgsError::InvalidNumber { flag, value } => {
                let mut t = String::from_str("invalid ");
                t.append(flag.text());
                t.append(": ");
                t.append(value.as_str());
                t
            },
            LoadArgsError::UnknownArgument { arg } => {
                let mut t = String::from_str("unknown argument ");
                t.append(arg.as_str());
                t
            },
        }
    }
}

/// The outcome that a result of `parse_args` stands for.
pub open spec fn command_outcome(r: Result<LoadCommand, LoadArgsError>) -> LoadOutcome {
    match r {
        Ok(LoadCommand::Load(a)) => LoadOutcome::Load {
            model_path: a.model_path@,
            tp_size: a.tp_size,
            dp_size: a.dp_size,
        },
        Ok(LoadCommand::Help) => LoadOutcome::Help,
        Err(e) => e.outcome(),
    }
}

/// The argument that a flag takes as its value.
pub fn next_value(args: &Vec<String>, at: usize, flag: LoadFlag) -> (r: Result<
    &str,
    LoadArgsError,
>)
    ensures
        match r {
            Ok(value) => at < args.len() && value@ == args[at as int]@,
            Err(e) => at >= args.len() && e == (LoadArgsError::MissingValue { flag }),
        },
{
    if at < args.len() {
        Ok(args[at].as_str())
    } else {
        Err(LoadArgsError::MissingValue { flag })
    }
}

/// What stands behind a flag and its equals sign.
pub fn value_after_equals(arg: &str, flag: LoadFlag) -> (r: Result<&str, LoadArgsError>)
    ensures
        match r {
            Ok(value) => equals_value(arg@, flag.spelled()) == Some(value@),
            Err(e) => equals_value(arg@, flag.spelled()) is None && e
                == (LoadArgsError::EmptyValue { flag }),
        },
{
    proof {
        reveal_strlit("=");
    }
    match after_prefix(arg, flag.text()) {
        Some(rest) => match after_prefix(rest, "=") {
            Some(value) => if value.unicode_len() > 0 {
                assert(value@ =~= crate::text::rest_from(arg@, flag.spelled().len() as int + 1));
                Ok(value)
            } else {
                Err(LoadArgsError::EmptyValue { flag })
            },
            None => Err(LoadArgsError::EmptyValue { flag }),
        },
        None => Err(LoadArgsError::EmptyValue { flag }),
    }
}

/// The number that a flag's value writes down.
pub fn parse_usize(value: &str, flag: LoadFlag) -> (r: Result<usize, LoadArgsError>)
    ensures
        match r {
            Ok(n) => crate::text::unsigned_value(value@, usize::MAX as nat) == Some(n as nat),
            Err(e) => {
                &&& crate::text::unsigned_value(value@, usize::MAX as nat) is None
                &&& e.outcome() == (LoadOutcome::InvalidNumber { flag, value: value@ })
            },
        },
{
    match crate::text::parse_usize(value) {
        Some(n) => Ok(n),
        None => Err(LoadArgsError::InvalidNumber { flag, value: String::from_str(value) }),
    }
}

/// Gives a flag its value.
fn set_value(args: &mut LoadArgs, flag: LoadFlag, value: &str) -> (r: Result<(), LoadArgsError>)
    ensures
        match r {
            Ok(_) => with_value(old(args).settings(), flag, value@) == Some(
                final(args).settings(),
            ),
            Err(e) => {
                &&& with_value(old(args).settings(), flag, value@) is None
                &&& e.outcome() == (LoadOutcome::InvalidNumber { flag, value: value@ })
            },
        },
{
    match flag {
        LoadFlag::ModelPath => {
            args.model_path = String::from_str(value);
        },
        LoadFlag::TpSize => match parse_usize(value, flag) {
            Ok(n) => {
                args.tp_size = n;
            },
            Err(e) => {
                return Err(e);
            },
        },
        LoadFlag::DpSize => match parse_usize(value, flag) {
            Ok(n) => {
                args.dp_size = n;
            },
            Err(e) => {
                return Err(e);
            },
        },
    }
    Ok(())
}

fn find_bare_flag(arg: &str) -> (r: Option<LoadFlag>)
    ensures
        r == bare_flag(arg@),
{
    if same_text(arg, "--model-path") {
        Some(LoadFlag::ModelPath)
    } else if same_text(arg, "--tp-size") {
        Some(LoadFlag::TpSize)
    } else if same_text(arg, "--dp-size") {
        Some(LoadFlag::DpSize)
    } else {
        None
    }
}

fn find_flag_with_equals(arg: &str) -> (r: Option<LoadFlag>)
    ensures
        r == flag_with_equals(arg@),
{
    if after_prefix(arg, "--model-path=").is_some() {
        Some(LoadFlag::ModelPath)
    } else if after_prefix(arg, "--tp-size=").is_some() {
        Some(LoadFlag::TpSize)
    } else if after_prefix(arg, "--dp-size=").is_some() {
        Some(LoadFlag::DpSize)
    } else {
        None
    }
}

/// Reads the command line, without the program's own name.
pub fn parse_args(args: &Vec<String>) -> (r: Result<LoadCommand, LoadArgsError>)
    ensures
        command_outcome(r) == load_outcome(words(args@), 0, default_settings()),
        args.len() == 0 ==> (r matches Ok(LoadCommand::Load(a)) && a.model_path@
            == "models/GLM-5.2-FP8"@ && a.tp_size == 1 && a.dp_size == 1),
{
    let mut parsed = LoadArgs {
        model_path: String::from_str("models/GLM-5.2-FP8"),
        tp_size: 1,
        dp_size: 1,
    };
    let mut i: usize = 0;
    let n: usize = args.len();
    while i < n
        invariant
            n == args.len(),
            i <= n,
            load_outcome(words(args@), 0, default_settings()) == load_outcome(
                words(args@),
                i as int,
                parsed.settings(),
            ),
        decreases n - i,
    {
        let arg = args[i].as_str();
        assert(words(args@)[i as int] == arg@);
        match find_bare_flag(arg) {
            Some(flag) => {
                match next_value(args, i + 1, flag) {
                    Ok(value) => match set_value(&mut parsed, flag, value) {
                        Ok(_) => {},
                        Err(e) => {
                            return Err(e);
                        },
                    },
                    Err(e) => {
                        return Err(e);
                    },
                }
                i = i + 2;
            },
            None => {
                if same_text(arg, "--help") || same_text(arg, "-h") {
                    return Ok(LoadCommand::Help);
                }
                match find_flag_with_equals(arg) {
                    Some(flag) => match value_after_equals(arg, flag) {
                        Ok(value) => match set_value(&mut parsed, flag, value) {
                            Ok(_) => {},
                            Err(e) => {
                                return Err(e);
                            },
                        },
                        Err(e) => {
                            return Err(e);
                        },
                    },
                    None => {
                        return Err(
                            LoadArgsError::UnknownArgument { arg: String::from_str(arg) },
                        );
                    },
                }
                i = i + 1;
            },
        }
    }
    Ok(LoadCommand::Load(parsed))
}

/// A flag and its value mean the same as two arguments and as one with an
/// equals sign, wherever they stand in the command line.
pub proof fn both_spellings_agree(
    before: Seq<Seq<char>>,
    flag: LoadFlag,
    value: Seq<char>,
    s: LoadSettings,
)
    requires
        value.len() > 0,
    ensures
        load_outcome(before.push(flag.spelled()).push(value), before.len() as int, s)
            == load_outcome(before.push(flag.spelled() + "="@ + value), before.len() as int, s),
{
    let apart = before.push(flag.spelled()).push(value);
    let joined = before.push(flag.spelled() + "="@ + value);
    let at = before.len() as int;
    lemma_joined_flag(flag, value);
    reveal_with_fuel(load_outcome, 2);
    assert(apart[at] == flag.spelled());
    assert(apart[at + 1] == value);
    assert(joined[at] == flag.spelled() + "="@ + value);
    lemma_bare_flag(flag);
}

/// A command line is read from the front, each argument for itself: a flag
/// sets what its name says to what the next argument says and leaves the
/// rest, a plea for help ends the reading, and what is left at the end is
/// loaded.
pub proof fn an_argument_sets_what_it_names(
    args: Seq<Seq<char>>,
    at: int,
    s: LoadSettings,
    n: usize,
)
    requires
        0 <= at < args.len(),
    ensures
        load_outcome(args, args.len() as int, s) == (LoadOutcome::Load {
            model_path: s.model_path,
            tp_size: s.tp_size,
            dp_size: s.dp_size,
        }),
        args[at] == "--help"@ || args[at] == "-h"@ ==> load_outcome(args, at, s)
            == LoadOutcome::Help,
        at + 1 < args.len() && args[at] == "--model-path"@ ==> load_outcome(args, at, s)
            == load_outcome(args, at + 2, LoadSettings { model_path: args[at + 1], ..s }),
        at + 1 < args.len() && args[at] == "--tp-size"@ && crate::text::unsigned_value(
            args[at + 1],
            usize::MAX as nat,
        ) == Some(n as nat) ==> load_outcome(args, at, s) == load_outcome(
            args,
            at + 2,
            LoadSettings { tp_size: n, ..s },
        ),
        at + 1 < args.len() && args[at] == "--dp-size"@ && crate::text::unsigned_value(
            args[at + 1],
            usize::MAX as nat,
        ) == Some(n as nat) ==> load_outcome(args, at, s) == load_outcome(
            args,
            at + 2,
            LoadSettings { dp_size: n, ..s },
        ),
        at + 1 == args.len() && args[at] == "--tp-size"@ ==> load_outcome(args, at, s)
            == (LoadOutcome::MissingValue { flag: LoadFlag::TpSize }),
        at + 1 == args.len() && args[at] == "--dp-size"@ ==> load_outcome(args, at, s)
            == (LoadOutcome::MissingValue { flag: LoadFlag::DpSize }),
        at + 1 == args.len() && args[at] == "--model-path"@ ==> load_outcome(args, at, s)
            == (LoadOutcome::MissingValue { flag: LoadFlag::ModelPath }),
{
    lemma_bare_flag(LoadFlag::ModelPath);
    lemma_bare_flag(LoadFlag::TpSize);
    lemma_bare_flag(LoadFlag::DpSize);
    reveal_strlit("--model-path");
    reveal_strlit("--tp-size");
    reveal_strlit("--dp-size");
    reveal_strlit("--help");
    reveal_strlit("-h");
    assert("--help"@[2] == 'h' && "--tp-size"@[2] == 't' && "--dp-size"@[2] == 'd');
    assert("--model-path"@[2] == 'm');
}

/// An argument that names none of the flags, with an equals sign or without,
/// and pleads for no help is refused by itself, whatever follows it.
pub proof fn no_other_argument_is_read(args: Seq<Seq<char>>, at: int, s: LoadSettings)
    requires
        0 <= at < args.len(),
        args[at] != "--help"@ && args[at] != "-h"@,
        args[at] != "--model-path"@ && args[at] != "--tp-size"@ && args[at] != "--dp-size"@,
        !crate::text::starts_with(args[at], "--model-path="@),
        !crate::text::starts_with(args[at], "--tp-size="@),
        !crate::text::starts_with(args[at], "--dp-size="@),
    ensures
        load_outcome(args, at, s) == (LoadOutcome::UnknownArgument { arg: args[at] }),
{
}

proof fn lemma_bare_flag(flag: LoadFlag)
    ensures
        bare_flag(flag.spelled()) == Some(flag),
{
    reveal_strlit("--model-path");
    reveal_strlit("--tp-size");
    reveal_strlit("--dp-size");
    assert("--tp-size"@[2] != "--dp-size"@[2]);
}

proof fn lemma_joined_flag(flag: LoadFlag, value: Seq<char>)
    requires
        value.len() > 0,
    ensures
        ({
            let arg = flag.spelled() + "="@ + value;
            &&& bare_flag(arg) is None
            &&& arg != "--help"@
            &&& arg != "-h"@
            &&& flag_with_equals(arg) == Some(flag)
            &&& equals_value(arg, flag.spelled()) == Some(value)
        }),
{
    reveal_strlit("--model-path");
    reveal_strlit("--tp-size");
    reveal_strlit("--dp-size");
    reveal_strlit("--model-path=");
    reveal_strlit("--tp-size=");
    reveal_strlit("--dp-size=");
    reveal_strlit("=");
    reveal_strlit("--help");
    reveal_strlit("-h");
    let arg = flag.spelled() + "="@ + value;
    let n = flag.spelled().len() as int;
    assert(arg.subrange(0, n) =~= flag.spelled());
    assert(crate::text::rest_from(arg, n) =~= "="@ + value);
    assert(("="@ + value).subrange(0, 1) =~= "="@);
    assert(crate::text::rest_from(arg, n + 1) =~= value);
    let whole = flag.spelled() + "="@;
    assert(arg.subrange(0, n + 1) =~= whole);
    assert("--model-path"@ + "="@ =~= "--model-path="@);
    assert("--tp-size"@ + "="@ =~= "--tp-size="@);
    assert("--dp-size"@ + "="@ =~= "--dp-size="@);
    assert(arg[2] == flag.spelled()[2]);
    assert(arg[n] == '=');
    assert("--model-path="@.subrange(0, 13)[2] == 'm');
    if crate::text::starts_with(arg, "--model-path="@) {
        assert(arg.subrange(0, 13)[2] == 'm');
    }
    if crate::text::starts_with(arg, "--tp-size="@) {
        assert(arg.subrange(0, 10)[2] == 't');
    }
    if crate::text::starts_with(arg, "--dp-size="@) {
        assert(arg.subrange(0, 10)[2] == 'd');
    }
    if arg == "--help"@ {
        assert(arg[2] == 'h');
    }
    if arg == "--model-path"@ {
        assert(arg.len() == 12);
    }
}

} // verus!
