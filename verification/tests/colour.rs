use tiered_log::colour::{
    args_decision, env_bool, env_decision, env_maybe_bool, from_args_or_env, from_env_only,
    from_mode_arg, mode_decision, settle, ColourEnv, EnableColour,
};

fn env(
    clicolor_force: Option<&str>,
    force_color: Option<&str>,
    no_color: Option<&str>,
    clicolor: Option<&str>,
) -> ColourEnv {
    ColourEnv {
        clicolor_force: clicolor_force.map(String::from),
        force_color: force_color.map(String::from),
        no_color: no_color.map(String::from),
        clicolor: clicolor.map(String::from),
    }
}

fn unset() -> ColourEnv {
    env(None, None, None, None)
}

fn args(list: &[&str]) -> Vec<String> {
    list.iter().map(|a| String::from(*a)).collect()
}

#[test]
fn variable_is_on_unless_zero_or_false() {
    assert_eq!(env_maybe_bool(&None), None);
    assert_eq!(env_maybe_bool(&Some(String::from("1"))), Some(true));
    assert_eq!(env_maybe_bool(&Some(String::from(""))), Some(true));
    assert_eq!(env_maybe_bool(&Some(String::from("yes"))), Some(true));
    assert_eq!(env_maybe_bool(&Some(String::from("00"))), Some(true));
    assert_eq!(env_maybe_bool(&Some(String::from("0"))), Some(false));
    assert_eq!(env_maybe_bool(&Some(String::from("false"))), Some(false));
    assert_eq!(env_maybe_bool(&Some(String::from("FALSE"))), Some(false));
    assert_eq!(env_maybe_bool(&Some(String::from("False"))), Some(false));
    assert!(!env_bool(&None));
    assert!(env_bool(&Some(String::from("1"))));
    assert!(!env_bool(&Some(String::from("0"))));
    assert!(!env_bool(&Some(String::from("fAlSe"))));
}

#[test]
fn environment_decides_in_its_order() {
    assert_eq!(env_decision(&unset()), None);
    assert_eq!(env_decision(&env(Some("1"), None, Some("1"), None)), Some(true));
    assert_eq!(env_decision(&env(None, Some("1"), Some("1"), None)), Some(true));
    assert_eq!(env_decision(&env(Some("0"), Some("false"), Some("1"), Some("1"))), Some(false));
    assert_eq!(env_decision(&env(None, None, Some("0"), Some("1"))), Some(true));
    assert_eq!(env_decision(&env(None, None, None, Some("1"))), Some(true));
    assert_eq!(env_decision(&env(Some("0"), Some("0"), Some("0"), Some("0"))), None);
    assert!(from_env_only(&env(Some("1"), None, None, None)));
    assert!(!from_env_only(&env(None, None, Some("1"), Some("1"))));
    assert!(from_env_only(&env(None, None, Some("false"), Some("1"))));
}

#[test]
fn terminal_is_asked_last() {
    assert!(settle(Some(true), None));
    assert!(settle(Some(true), Some(false)));
    assert!(!settle(Some(false), Some(true)));
    assert!(settle(None, Some(true)));
    assert!(!settle(None, Some(false)));
    assert!(!settle(None, None));
}

#[test]
fn mode_decides_before_the_environment() {
    assert_eq!(mode_decision("always", &env(None, None, Some("1"), None)), Some(true));
    assert_eq!(mode_decision("never", &env(Some("1"), None, None, None)), Some(false));
    assert_eq!(mode_decision("auto", &env(Some("1"), None, None, None)), Some(true));
    assert_eq!(mode_decision("Always", &env(None, None, Some("1"), None)), Some(false));
    assert_eq!(mode_decision("", &unset()), None);
    assert!(from_mode_arg("always", &env(None, None, Some("1"), None)));
    assert!(!from_mode_arg("never", &env(Some("1"), None, None, None)));
    assert!(from_mode_arg("auto", &env(None, Some("1"), None, None)));
}

#[test]
fn first_colour_flag_among_the_arguments_decides() {
    let forced_off = env(None, None, Some("1"), None);
    let forced_on = env(Some("1"), None, None, None);
    assert_eq!(args_decision(&args(&["prog", "--colour", "always"]), &forced_off), Some(true));
    assert_eq!(args_decision(&args(&["prog", "--color", "never"]), &forced_on), Some(false));
    assert_eq!(args_decision(&args(&["prog", "-c", "never"]), &forced_on), Some(false));
    assert_eq!(args_decision(&args(&["prog", "-c=always"]), &forced_off), Some(true));
    assert_eq!(args_decision(&args(&["prog", "--colour=never"]), &forced_on), Some(false));
    assert_eq!(args_decision(&args(&["prog", "--color=always"]), &forced_off), Some(true));
    assert_eq!(
        args_decision(&args(&["prog", "-x", "--color=never", "--color=always"]), &forced_on),
        Some(false)
    );
    assert_eq!(args_decision(&args(&["prog", "--colour"]), &forced_off), Some(false));
    assert_eq!(args_decision(&args(&["prog", "--colour", "auto"]), &forced_on), Some(true));
    assert_eq!(args_decision(&args(&["prog", "--colour=auto"]), &unset()), None);
    assert_eq!(args_decision(&args(&["-c", "always"]), &forced_off), Some(true));
    assert_eq!(args_decision(&args(&["prog", "-c", "-c=never"]), &forced_on), Some(true));
    assert_eq!(args_decision(&args(&["prog", "--colours=never"]), &forced_on), Some(true));
    assert_eq!(args_decision(&args(&[]), &unset()), None);
    assert!(from_args_or_env(&args(&["prog", "--colour", "always"]), &forced_off));
    assert!(!from_args_or_env(&args(&["prog", "--color=never"]), &forced_on));
    assert!(from_args_or_env(&args(&["prog"]), &forced_on));
}

#[test]
fn setting_holds_what_was_decided() {
    assert!(EnableColour::new(true).get());
    assert!(!EnableColour::new(false).get());
    assert!(*EnableColour::new(true));
    assert!(!*EnableColour::new(false));
    assert!(EnableColour::detect(&args(&["prog", "-c=always"]), &unset()).get());
    assert!(!EnableColour::detect(&args(&["prog", "-c=never"]), &unset()).get());
}

#[test]
fn terminal_answer_is_taken_where_nothing_else_decides() {
    let undecided = from_env_only(&unset());
    let expected = supports_color::on(supports_color::Stream::Stderr)
        .map(|level| level.has_basic)
        .unwrap_or(false);
    assert_eq!(undecided, expected);
    assert_eq!(from_mode_arg("auto", &unset()), expected);
    assert_eq!(from_args_or_env(&args(&["prog"]), &unset()), expected);
}
