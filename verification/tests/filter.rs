use std::borrow::Cow;
use std::str::FromStr;

use chrono::{NaiveDate, NaiveDateTime};
use tiered_log::filter::{path_covered, BadLevelFilter, LevelFilter, LevelFilterContainer};
use tiered_log::level::{level_from_name, level_name, LevelInfo};
use tiered_log::log::LogEntry;

fn noon() -> NaiveDateTime {
    NaiveDate::from_ymd_opt(2024, 5, 6).unwrap().and_hms_nano_opt(12, 0, 0, 0).unwrap()
}

fn entry(level: LevelInfo, module: &'static str) -> LogEntry {
    LogEntry::new(level, module, 1, 1, Cow::Borrowed("message"), noon(), String::from("main"))
}

fn parse(spec: &str) -> LevelFilter {
    match LevelFilter::from_str(spec) {
        Ok(filter) => filter,
        Err(err) => panic!("{} was refused: {}", spec, err.to_string()),
    }
}

fn refused_name(spec: &str) -> String {
    match LevelFilter::from_str(spec) {
        Ok(filter) => panic!("{} was accepted as {}", spec, filter.to_string()),
        Err(BadLevelFilter::UnknownLevel(name)) => name,
    }
}

#[test]
fn fallback_refuses_lower_and_admits_equal_or_higher() {
    let filter = parse("warn");
    assert!(!filter.matched_by_selfonly(&entry(LevelInfo::trace(), "app")));
    assert!(!filter.matched_by_selfonly(&entry(LevelInfo::debug(), "app")));
    assert!(!filter.matched_by_selfonly(&entry(LevelInfo::info(), "app")));
    assert!(!filter.matched_by_selfonly(&entry(LevelInfo::pass(), "app")));
    assert!(filter.matched_by_selfonly(&entry(LevelInfo::warn(), "app")));
    assert!(filter.matched_by_selfonly(&entry(LevelInfo::error(), "app")));
    assert!(filter.matched_by_selfonly(&entry(LevelInfo::fatal(), "app")));
}

#[test]
fn every_fallback_is_the_floor_for_every_rank() {
    for fallback in 0u8..7 {
        let filter = parse(level_name(fallback));
        for rank in 0u8..7 {
            let e = entry(LevelInfo::of_rank(rank).unwrap(), "some::module");
            assert_eq!(filter.matched_by_selfonly(&e), rank >= fallback);
            assert_eq!(filter.floor("some::module"), fallback);
        }
    }
}

#[test]
fn override_covers_its_module_and_what_lies_below() {
    let filter = parse("a::b=warn");
    assert_eq!(filter.floor("a::b"), 4);
    assert_eq!(filter.floor("a::b::c"), 4);
    assert_eq!(filter.floor("a::b::c::d"), 4);
    assert_eq!(filter.floor("a::other"), 0);
    assert_eq!(filter.floor("a"), 0);
    assert_eq!(filter.floor("a::bc"), 0);
    assert_eq!(filter.floor("a::b:"), 0);
    assert_eq!(filter.floor("a::b:c"), 0);
    assert_eq!(filter.floor("a::b::"), 4);
    assert!(!filter.matched_by_selfonly(&entry(LevelInfo::info(), "a::b::c")));
    assert!(filter.matched_by_selfonly(&entry(LevelInfo::warn(), "a::b::c")));
    assert!(filter.matched_by_selfonly(&entry(LevelInfo::trace(), "a::other")));
}

#[test]
fn several_overrides_give_the_highest_floor() {
    let filter = parse("a=debug,a::b=error,a::b::c=info");
    assert_eq!(filter.match_min_level("a::b::c"), Some(5));
    assert_eq!(filter.match_min_level("a::b"), Some(5));
    assert_eq!(filter.match_min_level("a::x"), Some(1));
    assert_eq!(filter.match_min_level("b"), None);
    let reversed = parse("a::b::c=info,a::b=error,a=debug");
    assert_eq!(reversed.match_min_level("a::b::c"), Some(5));
    let twice = parse("a=error,a=debug");
    assert_eq!(twice.match_min_level("a"), Some(5));
}

#[test]
fn override_may_lower_the_fallback_for_its_subtree() {
    let filter = parse("warn,net::io=trace");
    assert!(filter.matched_by_selfonly(&entry(LevelInfo::debug(), "net::io")));
    assert!(!filter.matched_by_selfonly(&entry(LevelInfo::info(), "net::http")));
}

#[test]
fn repeated_fallback_keeps_the_highest() {
    assert_eq!(parse("error,info").to_string(), "error");
    assert_eq!(parse("info,error").to_string(), "error");
    assert_eq!(parse("trace,debug,pass").to_string(), "pass");
    assert_eq!(parse("a=warn").to_string(), "trace,a=warn");
}

#[test]
fn text_of_a_filter_is_fallback_then_overrides() {
    let filter = parse(" WARN , Net::IO = Trace ,error, x = FATAL");
    assert_eq!(filter.to_string(), "error,Net::IO=trace,x=fatal");
    assert_eq!(LevelFilter::all().to_string(), "trace");
}

#[test]
fn text_of_a_filter_reads_back_as_the_same_filter() {
    let specs = [
        "warn",
        "warn,net::io=trace",
        "a=debug,a::b=error,a::b::c=info",
        " Info , A :: B = Warn ",
        "=warn",
        "trace,\u{e9}t\u{e9}=pass",
        "ERROR,Net::IO=Trace,net::io=WARN",
        "fatal,a b=debug,a b=error",
    ];
    for spec in specs {
        let first = parse(spec);
        let text = first.to_string();
        let second = parse(&text);
        assert_eq!(second.to_string(), text);
        for module in
            ["", "a", "a::b", "a::b::c", "A", "A :: B", "net::io", "Net::IO", "a b", "::x", "\u{e9}t\u{e9}::x"]
        {
            assert_eq!(first.floor(module), second.floor(module));
        }
    }
}

#[test]
fn unknown_names_are_refused_with_the_name() {
    assert_eq!(refused_name("warn,foo"), "foo");
    assert_eq!(refused_name("loud"), "loud");
    assert_eq!(refused_name(""), "");
    assert_eq!(refused_name("warn,"), "");
    assert_eq!(refused_name("a=warn=x"), "warn=x");
    assert_eq!(refused_name("a= Verbose "), "verbose");
    assert_eq!(refused_name("LOUD"), "loud");
    assert_eq!(refused_name("warn, Q=Z "), "z");
    assert_eq!(refused_name("first,second"), "first");
    assert_eq!(refused_name("warning"), "warning");
}

#[test]
fn unknown_name_message_quotes_the_name() {
    let err = LevelFilter::from_str("a=lo\"ud").unwrap_err();
    assert_eq!(err.to_string(), "unknown log level \"lo\\\"ud\"");
    assert_eq!(BadLevelFilter::message_for("\"x\""), "unknown log level \"x\"");
}

#[test]
fn white_space_of_every_kind_is_trimmed() {
    let filter = parse("\u{3000}warn\u{a0},\t a::b \u{2003}=\n error\r");
    assert_eq!(filter.to_string(), "warn,a::b=error");
}

#[test]
fn severity_names_are_read_in_any_case() {
    assert_eq!(parse("WARN").to_string(), "warn");
    assert_eq!(parse("wArN,a=ErRoR").to_string(), "warn,a=error");
    assert_eq!(parse("Trace,FATAL,info").to_string(), "fatal");
    assert_eq!(refused_name("W\u{c4}RN"), "w\u{c4}rn");
}

#[test]
fn module_paths_are_kept_as_they_are_written() {
    let filter = parse("warn,Net::IO=trace");
    assert_eq!(filter.to_string(), "warn,Net::IO=trace");
    assert!(filter.matched_by_selfonly(&entry(LevelInfo::debug(), "Net::IO")));
    assert!(filter.matched_by_selfonly(&entry(LevelInfo::trace(), "Net::IO::Tcp")));
    assert!(!filter.matched_by_selfonly(&entry(LevelInfo::debug(), "net::io")));
    assert_eq!(filter.floor("Net::IO"), 0);
    assert_eq!(filter.floor("net::io"), 4);
    assert_eq!(filter.floor("NET::IO"), 4);
    let accented = parse("\u{c9}COLE=WARN");
    assert_eq!(accented.to_string(), "trace,\u{c9}COLE=warn");
    assert_eq!(accented.floor("\u{c9}COLE::x"), 4);
    assert_eq!(accented.floor("\u{c9}cole::x"), 0);
}

#[test]
fn filters_are_parsed_from_strings() {
    let filter: LevelFilter = "Warn,a=Info".parse().unwrap();
    assert_eq!(filter.to_string(), "warn,a=info");
    let refused: Result<LevelFilter, BadLevelFilter> = "warn,a=nope".parse();
    match refused {
        Err(BadLevelFilter::UnknownLevel(name)) => assert_eq!(name, "nope"),
        Ok(filter) => panic!("accepted as {}", filter.to_string()),
    }
}

#[test]
fn severity_names_map_to_ranks() {
    assert_eq!(level_from_name("trace"), Some(0));
    assert_eq!(level_from_name("debug"), Some(1));
    assert_eq!(level_from_name("info"), Some(2));
    assert_eq!(level_from_name("pass"), Some(3));
    assert_eq!(level_from_name("warn"), Some(4));
    assert_eq!(level_from_name("error"), Some(5));
    assert_eq!(level_from_name("fatal"), Some(6));
    assert_eq!(level_from_name("WARN"), None);
    assert_eq!(level_from_name("warn "), None);
    assert_eq!(level_from_name(""), None);
    for rank in 0u8..7 {
        assert_eq!(level_from_name(level_name(rank)), Some(rank));
    }
}

#[test]
fn paths_are_covered_by_themselves_and_their_ancestors() {
    assert!(path_covered("a::b", "a::b"));
    assert!(path_covered("a::b", "a::b::c"));
    assert!(!path_covered("a::b", "a::bc"));
    assert!(!path_covered("a::b", "a"));
    assert!(!path_covered("a::b", "a::b:"));
    assert!(path_covered("", ""));
    assert!(path_covered("", "::x"));
    assert!(!path_covered("", "x"));
}

#[test]
fn global_filter_can_only_admit_more() {
    let own = parse("warn");
    let info = entry(LevelInfo::info(), "app");
    let debug = entry(LevelInfo::debug(), "app");
    let strict = LevelFilterContainer::new(parse("fatal"));
    assert!(!own.matched_by(&info, &strict));
    assert!(own.matched_by(&entry(LevelInfo::warn(), "app"), &strict));
    let wide = LevelFilterContainer::new(parse("info"));
    assert!(own.matched_by(&info, &wide));
    assert!(!own.matched_by(&debug, &wide));
    let by_module = LevelFilterContainer::new(parse("fatal,app=debug"));
    assert!(own.matched_by(&debug, &by_module));
    assert!(!own.matched_by(&entry(LevelInfo::debug(), "other"), &by_module));
}

#[test]
fn container_holds_the_filter_last_set() {
    let mut container = LevelFilterContainer::new(LevelFilter::all());
    let info = entry(LevelInfo::info(), "app");
    assert!(container.matched_by(&info));
    container.set(parse("error"));
    assert!(!container.matched_by(&info));
    assert_eq!(container.floor("app"), 5);
    container.set(parse("error,app=trace"));
    assert!(container.matched_by(&info));
}

#[test]
fn clone_of_a_filter_is_the_same_filter() {
    let filter = parse("info,a::b=error,c=debug");
    let copy = filter.clone();
    assert_eq!(copy.to_string(), "info,a::b=error,c=debug");
    assert_eq!(copy.floor("a::b::x"), 5);
    assert_eq!(copy.floor("c"), 1);
    assert_eq!(copy.floor("d"), 2);
}
