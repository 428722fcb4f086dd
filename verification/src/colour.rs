//! Whether console output is coloured.
//!
//! The decision comes, in this order, from a command-line flag, from four
//! environment variables, and from asking whether the terminal behind the
//! standard error stream takes colours. Arguments and variables are handed in
//! as plain values; only the terminal is asked from here, and only when
//! nothing before it decides.

use vstd::prelude::*;
use crate::text::{after_prefix, lemma_lower_all, lower_all, same_text, same_text_ignoring_case};

verus! {

broadcast use vstd::string::group_string_axioms;

/// The values of the environment variables that bear on colour, each `None`
/// where the variable is not set.
#[derive(Debug)]
pub struct ColourEnv {
    pub clicolor_force: Option<String>,
    pub force_color: Option<String>,
    pub no_color: Option<String>,
    pub clicolor: Option<String>,
}

/// Whether a variable's value switches the variable on: every value does but
/// `0` and, in any case, `false`.
pub open spec fn switches_on(value: Seq<char>) -> bool {
    value != "0"@ && lower_all(value) != "false"@
}

/// What a variable says: nothing when it is not set.
pub open spec fn maybe_on(value: Option<Seq<char>>) -> Option<bool> {
    match value {
        Some(v) => Some(switches_on(v)),
        None => None,
    }
}

/// What the environment decides by itself: colour is forced on by
/// `CLICOLOR_FORCE` or `FORCE_COLOR`, else switched off by `NO_COLOR`, else
/// switched on by `CLICOLOR`; `None` where none of them is on, and the
/// terminal has to be asked.
pub open spec fn env_decides(env: ColourEnv) -> Option<bool> {
    if maybe_on(env.clicolor_force.deep_view()) == Some(true) || maybe_on(
        env.force_color.deep_view(),
    ) == Some(true) {
        Some(true)
    } else if maybe_on(env.no_color.deep_view()) == Some(true) {
        Some(false)
    } else if maybe_on(env.clicolor.deep_view()) == Some(true) {
        Some(true)
    } else {
        None
    }
}

/// What a colour mode decides: `always` and `never` decide, anything else
/// leaves it to the environment.
pub open spec fn mode_decides(mode: Seq<char>) -> Option<bool> {
    if mode == "always"@ {
        Some(true)
    } else if mode == "never"@ {
        Some(false)
    } else {
        None
    }
}

/// The colour mode named on the command line, from the first argument that
/// is a colour flag: `-c`, `--colour` or `--color` followed by the mode as
/// the next argument, or one of them joined to the mode by `=`. The outer
/// `None` says that no argument is a colour flag, the inner `None` that the
/// flag was the last argument.
pub open spec fn mode_in_args(args: Seq<Seq<char>>) -> Option<Option<Seq<char>>>
    decreases args.len(),
{
    if args.len() == 0 {
        None
    } else {
        let arg = args[0];
        if arg == "-c"@ || arg == "--colour"@ || arg == "--color"@ {
            if args.len() >= 2 {
                Some(Some(args[1]))
            } else {
                Some(None)
            }
        } else if "-c="@.is_prefix_of(arg) {
            Some(Some(arg.skip("-c="@.len() as int)))
        } else if "--colour="@.is_prefix_of(arg) {
            Some(Some(arg.skip("--colour="@.len() as int)))
        } else if "--color="@.is_prefix_of(arg) {
            Some(Some(arg.skip("--color="@.len() as int)))
        } else {
            mode_in_args(args.drop_first())
        }
    }
}

/// What a mode and the environment decide together.
pub open spec fn mode_or_env_decides(mode: Seq<char>, env: ColourEnv) -> Option<bool> {
    match mode_decides(mode) {
        Some(on) => Some(on),
        None => env_decides(env),
    }
}

/// What arguments and environment decide together; `None` where the
/// terminal has to be asked.
pub open spec fn args_or_env_decide(args: Seq<Seq<char>>, env: ColourEnv) -> Option<bool> {
    match mode_in_args(args) {
        Some(Some(mode)) => mode_or_env_decides(mode, env),
        _ => env_decides(env),
    }
}

/// What the terminal's answer means: colour only where basic colours are
/// reported.
pub open spec fn probe_says(probe: Option<bool>) -> bool {
    probe == Some(true)
}

/// Whether the terminal behind the standard error stream takes colours, from
/// `supports_color::on(Stream::Stderr)`: `None` where it reports no colour
/// support, else whether the basic colours are among what it reports. The
/// answer depends on the terminal and the environment, so nothing is claimed
/// of it.
#[verifier::external_body]
fn stderr_colour_support() -> Option<bool> {
    supports_color::on(supports_color::Stream::Stderr).map(|level| level.has_basic)
}

/// What a variable says, if it is set.
pub fn env_maybe_bool(value: &Option<String>) -> (r: Option<bool>)
    ensures
        r == maybe_on(value.deep_view()),
{
    match value {
        Some(v) => {
            proof {
                reveal_strlit("false");
                lemma_lower_all("false"@);
            }
            Some(!same_text(v.as_str(), "0") && !same_text_ignoring_case(v.as_str(), "false"))
        },
        None => None,
    }
}

/// Whether a variable is set and switched on.
pub fn env_bool(value: &Option<String>) -> (r: bool)
    ensures
        r == (maybe_on(value.deep_view()) == Some(true)),
{
    match env_maybe_bool(value) {
        Some(on) => on,
        None => false,
    }
}

/// What the environment decides by itself.
pub fn env_decision(env: &ColourEnv) -> (r: Option<bool>)
    ensures
        r == env_decides(*env),
{
    if env_bool(&env.clicolor_force) || env_bool(&env.force_color) {
        Some(true)
    } else if env_bool(&env.no_color) {
        Some(false)
    } else if env_bool(&env.clicolor) {
        Some(true)
    } else {
        None
    }
}

/// The decision once the terminal has answered: what was decided before, or
/// else what the terminal says.
pub fn settle(decided: Option<bool>, probe: Option<bool>) -> (r: bool)
    ensures
        r == match decided {
            Some(on) => on,
            None => probe_says(probe),
        },
{
    match decided {
        Some(on) => on,
        None => match probe {
            Some(basic) => basic,
            None => false,
        },
    }
}

/// Colour from the environment alone: what the variables decide, and where
/// they decide nothing, what the terminal says.
pub fn from_env_only(env: &ColourEnv) -> (r: bool)
    ensures
        env_decides(*env) matches Some(on) ==> r == on,
{
    match env_decision(env) {
        Some(on) => on,
        None => settle(None, stderr_colour_support()),
    }
}

/// What a mode and the environment decide together.
pub fn mode_decision(mode: &str, env: &ColourEnv) -> (r: Option<bool>)
    ensures
        r == mode_or_env_decides(mode@, *env),
{
    if same_text(mode, "always") {
        Some(true)
    } else if same_text(mode, "never") {
        Some(false)
    } else {
        env_decision(env)
    }
}

/// Colour from a mode: `always` is on, `never` is off, anything else leaves
/// it to the environment and the terminal.
pub fn from_mode_arg(mode: &str, env: &ColourEnv) -> (r: bool)
    ensures
        mode_or_env_decides(mode@, *env) matches Some(on) ==> r == on,
{
    match mode_decision(mode, env) {
        Some(on) => on,
        None => settle(None, stderr_colour_support()),
    }
}

/// What arguments and environment decide together; `None` where the
/// terminal has to be asked.
pub fn args_decision(args: &Vec<String>, env: &ColourEnv) -> (r: Option<bool>)
    ensures
        r == args_or_env_decide(args.deep_view(), *env),
{
    let mut i: usize = 0;
    let ghost all = args.deep_view();
    proof {
        assert(all.skip(0) == all);
    }
    while i < args.len()
        invariant
            i <= args.len(),
            all == args.deep_view(),
            mode_in_args(all) == mode_in_args(all.skip(i as int)),
        decreases args.len() - i,
    {
        let arg = args[i].as_str();
        proof {
            let rest = all.skip(i as int);
            assert(rest.drop_first() == all.skip(i + 1));
        }
        if same_text(arg, "-c") || same_text(arg, "--colour") || same_text(arg, "--color") {
            if i + 1 < args.len() {
                return mode_decision(args[i + 1].as_str(), env);
            } else {
                return env_decision(env);
            }
        }
        match after_prefix(arg, "-c=") {
            Some(mode) => {
                return mode_decision(mode, env);
            },
            None => {},
        }
        match after_prefix(arg, "--colour=") {
            Some(mode) => {
                return mode_decision(mode, env);
            },
            None => {},
        }
        match after_prefix(arg, "--color=") {
            Some(mode) => {
                return mode_decision(mode, env);
            },
            None => {},
        }
        i += 1;
    }
    env_decision(env)
}

/// Colour from the command line and the environment: the first colour flag
/// among the arguments decides if its mode is `always` or `never`; else the
/// environment decides; else the terminal is asked.
pub fn from_args_or_env(args: &Vec<String>, env: &ColourEnv) -> (r: bool)
    ensures
        args_or_env_decide(args.deep_view(), *env) matches Some(on) ==> r == on,
{
    match args_decision(args, env) {
        Some(on) => on,
        None => settle(None, stderr_colour_support()),
    }
}

/// The setting that console targets take their colour flag from.
#[derive(Clone, Copy, Debug)]
pub struct EnableColour(bool);

impl View for EnableColour {
    type V = bool;

    closed spec fn view(&self) -> bool {
        self.0
    }
}

impl std::ops::Deref for EnableColour {
    type Target = bool;

    /// Whether colour is enabled.
    fn deref(&self) -> (r: &bool)
        ensures
            *r == self@,
    {
        &self.0
    }
}

impl EnableColour {
    /// The setting with the given value.
    pub fn new(enabled: bool) -> (r: EnableColour)
        ensures
            r@ == enabled,
    {
        EnableColour(enabled)
    }

    /// The setting that the command line, the environment and the terminal
    /// give.
    pub fn detect(args: &Vec<String>, env: &ColourEnv) -> (r: EnableColour)
        ensures
            args_or_env_decide(args.deep_view(), *env) matches Some(on) ==> r@ == on,
    {
        EnableColour(from_args_or_env(args, env))
    }

    /// Whether colour is enabled.
    pub fn get(&self) -> (r: bool)
        ensures
            r == self@,
    {
        self.0
    }
}

} // verus!
