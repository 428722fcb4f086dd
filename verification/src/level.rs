//! The seven severity tiers and their fixed rendering data.
//!
//! A tier is identified by its rank, from 0 (`TRACE`, least important) to
//! 6 (`FATAL`, most important). Everything else about a tier (its names and
//! its terminal styling) is a function of the rank.

use vstd::prelude::*;
use crate::text::{is_lower, is_space, lacks, pad_end, range_is, same_text, trim};

verus! {

/// Rank of the tier for fine-grained tracing, the least important.
pub const TRACE: u8 = 0;

/// Rank of the tier for debugging output.
pub const DEBUG: u8 = 1;

/// Rank of the tier for ordinary information.
pub const INFO: u8 = 2;

/// Rank of the tier that reports a success.
pub const PASS: u8 = 3;

/// Rank of the tier for warnings.
pub const WARN: u8 = 4;

/// Rank of the tier for errors.
pub const ERROR: u8 = 5;

/// Rank of the tier for errors that end the program, the most important.
pub const FATAL: u8 = 6;

/// The name by which a filter specification refers to the tier `rank`.
pub open spec fn name_of(rank: u8) -> Seq<char> {
    match rank {
        0 => "trace"@,
        1 => "debug"@,
        2 => "info"@,
        3 => "pass"@,
        4 => "warn"@,
        5 => "error"@,
        _ => "fatal"@,
    }
}

/// The rank that `name` refers to, if it is one of the seven tier names.
/// Names are compared exactly; callers fold case beforehand.
pub open spec fn rank_of_name(name: Seq<char>) -> Option<u8> {
    if name == "fatal"@ {
        Some(6u8)
    } else if name == "error"@ {
        Some(5u8)
    } else if name == "warn"@ {
        Some(4u8)
    } else if name == "pass"@ {
        Some(3u8)
    } else if name == "info"@ {
        Some(2u8)
    } else if name == "debug"@ {
        Some(1u8)
    } else if name == "trace"@ {
        Some(0u8)
    } else {
        None
    }
}

/// The tier's name as shown in a rendered line, without padding.
pub open spec fn display_name(rank: u8) -> Seq<char> {
    match rank {
        0 => "TRACE"@,
        1 => "DEBUG"@,
        2 => "INFO"@,
        3 => "PASS"@,
        4 => "WARN"@,
        5 => "ERROR"@,
        _ => "FATAL"@,
    }
}

/// The tier's name as shown in a rendered line, padded with spaces to five
/// characters.
pub open spec fn padded_name(rank: u8) -> Seq<char> {
    match rank {
        0 => "TRACE"@,
        1 => "DEBUG"@,
        2 => "INFO "@,
        3 => "PASS "@,
        4 => "WARN "@,
        5 => "ERROR"@,
        _ => "FATAL"@,
    }
}

/// Terminal styling of the tier's primary decoration.
pub open spec fn primary_style(rank: u8) -> Seq<char> {
    match rank {
        0 => "\x1b[37m\x1b[100m\x1b[2m"@,
        1 => "\x1b[30m\x1b[47m"@,
        2 => "\x1b[30m\x1b[46m"@,
        3 => "\x1b[30m\x1b[42m"@,
        4 => "\x1b[30m\x1b[103m"@,
        5 => "\x1b[97m\x1b[101m\x1b[1m"@,
        _ => "\x1b[91m\x1b[107m\x1b[1m"@,
    }
}

/// Terminal styling of the message text.
pub open spec fn message_style(rank: u8) -> Seq<char> {
    match rank {
        0 => "\x1b[97m\x1b[2m"@,
        1 => "\x1b[37m"@,
        2 => "\x1b[36m"@,
        3 => "\x1b[92m"@,
        4 => "\x1b[93m\x1b[1m"@,
        5 => "\x1b[91m\x1b[1m"@,
        _ => "\x1b[97m\x1b[101m\x1b[1m"@,
    }
}

/// Terminal styling of the brackets and separators.
pub open spec fn bracket_style(rank: u8) -> Seq<char> {
    match rank {
        0 => "\x1b[37m\x1b[100m\x1b[2m"@,
        1 => "\x1b[30m\x1b[47m"@,
        2 => "\x1b[30m\x1b[46m"@,
        3 => "\x1b[30m\x1b[42m"@,
        4 => "\x1b[30m\x1b[103m"@,
        5 => "\x1b[97m\x1b[101m\x1b[1m"@,
        _ => "\x1b[91m\x1b[107m\x1b[1m\x1b[5m\x1b[6m"@,
    }
}

/// The terminal sequence that ends any styling.
pub open spec fn reset_style() -> Seq<char> {
    "\x1b[0m"@
}

/// The rendering data of one severity tier.
#[derive(Clone, Copy, Debug)]
pub struct LevelInfo {
    pub(crate) level: u8,
    pub(crate) name: &'static str,
    pub(crate) name_padded: &'static str,
    pub(crate) fmt0: &'static str,
    pub(crate) fmt1: &'static str,
    pub(crate) fmt2: &'static str,
}

impl LevelInfo {
    /// Every value is one of the seven tiers: the rank fixes all other fields.
    #[verifier::type_invariant]
    spec fn is_tier(self) -> bool {
        &&& self.level < 7
        &&& self.name@ == display_name(self.level)
        &&& self.name_padded@ == padded_name(self.level)
        &&& self.fmt0@ == primary_style(self.level)
        &&& self.fmt1@ == message_style(self.level)
        &&& self.fmt2@ == bracket_style(self.level)
    }

    /// The tier's rank, 0 to 6.
    pub closed spec fn rank(self) -> u8 {
        self.level
    }

    /// The `TRACE` tier.
    pub fn trace() -> (r: LevelInfo)
        ensures
            r.rank() == TRACE,
    {
        LevelInfo {
            level: 0,
            name: "TRACE",
            name_padded: "TRACE",
            fmt0: "\x1b[37m\x1b[100m\x1b[2m",
            fmt1: "\x1b[97m\x1b[2m",
            fmt2: "\x1b[37m\x1b[100m\x1b[2m",
        }
    }

    /// The `DEBUG` tier.
    pub fn debug() -> (r: LevelInfo)
        ensures
            r.rank() == DEBUG,
    {
        LevelInfo {
            level: 1,
            name: "DEBUG",
            name_padded: "DEBUG",
            fmt0: "\x1b[30m\x1b[47m",
            fmt1: "\x1b[37m",
            fmt2: "\x1b[30m\x1b[47m",
        }
    }

    /// The `INFO` tier.
    pub fn info() -> (r: LevelInfo)
        ensures
            r.rank() == INFO,
    {
        LevelInfo {
            level: 2,
            name: "INFO",
            name_padded: "INFO ",
            fmt0: "\x1b[30m\x1b[46m",
            fmt1: "\x1b[36m",
            fmt2: "\x1b[30m\x1b[46m",
        }
    }

    /// The `PASS` tier.
    pub fn pass() -> (r: LevelInfo)
        ensures
            r.rank() == PASS,
    {
        LevelInfo {
            level: 3,
            name: "PASS",
            name_padded: "PASS ",
            fmt0: "\x1b[30m\x1b[42m",
            fmt1: "\x1b[92m",
            fmt2: "\x1b[30m\x1b[42m",
        }
    }

    /// The `WARN` tier.
    pub fn warn() -> (r: LevelInfo)
        ensures
            r.rank() == WARN,
    {
        LevelInfo {
            level: 4,
            name: "WARN",
            name_padded: "WARN ",
            fmt0: "\x1b[30m\x1b[103m",
            fmt1: "\x1b[93m\x1b[1m",
            fmt2: "\x1b[30m\x1b[103m",
        }
    }

    /// The `ERROR` tier.
    pub fn error() -> (r: LevelInfo)
        ensures
            r.rank() == ERROR,
    {
        LevelInfo {
            level: 5,
            name: "ERROR",
            name_padded: "ERROR",
            fmt0: "\x1b[97m\x1b[101m\x1b[1m",
            fmt1: "\x1b[91m\x1b[1m",
            fmt2: "\x1b[97m\x1b[101m\x1b[1m",
        }
    }

    /// The `FATAL` tier.
    pub fn fatal() -> (r: LevelInfo)
        ensures
            r.rank() == FATAL,
    {
        LevelInfo {
            level: 6,
            name: "FATAL",
            name_padded: "FATAL",
            fmt0: "\x1b[91m\x1b[107m\x1b[1m",
            fmt1: "\x1b[97m\x1b[101m\x1b[1m",
            fmt2: "\x1b[91m\x1b[107m\x1b[1m\x1b[5m\x1b[6m",
        }
    }

    /// The tier of the given rank; `None` when `rank` is not 0 to 6.
    pub fn of_rank(rank: u8) -> (r: Option<LevelInfo>)
        ensures
            rank < 7 <==> r is Some,
            r is Some ==> r->0.rank() == rank,
    {
        match rank {
            0 => Some(Self::trace()),
            1 => Some(Self::debug()),
            2 => Some(Self::info()),
            3 => Some(Self::pass()),
            4 => Some(Self::warn()),
            5 => Some(Self::error()),
            6 => Some(Self::fatal()),
            _ => None,
        }
    }

    /// The tier's rank.
    pub fn level_index(&self) -> (r: u8)
        ensures
            r == self.rank(),
            r < 7,
    {
        proof {
            use_type_invariant(self);
        }
        self.level
    }

    /// The tier's name without padding.
    pub fn name(&self) -> (r: &'static str)
        ensures
            r@ == display_name(self.rank()),
    {
        proof {
            use_type_invariant(self);
        }
        self.name
    }

    /// The tier's name padded to five characters.
    pub fn name_padded(&self) -> (r: &'static str)
        ensures
            r@ == padded_name(self.rank()),
    {
        proof {
            use_type_invariant(self);
        }
        self.name_padded
    }

    /// Styling of the primary decoration.
    pub fn level_format(&self) -> (r: &'static str)
        ensures
            r@ == primary_style(self.rank()),
    {
        proof {
            use_type_invariant(self);
        }
        self.fmt0
    }

    /// Styling of the message text.
    pub fn message_format(&self) -> (r: &'static str)
        ensures
            r@ == message_style(self.rank()),
    {
        proof {
            use_type_invariant(self);
        }
        self.fmt1
    }

    /// Styling of brackets and separators.
    pub fn bracket_format(&self) -> (r: &'static str)
        ensures
            r@ == bracket_style(self.rank()),
    {
        proof {
            use_type_invariant(self);
        }
        self.fmt2
    }
}

/// What is known of the seven filter names: each is lower case, free of
/// white space, commas and equals signs, and `rank_of_name` inverts
/// `name_of`.
pub proof fn lemma_names(rank: u8)
    requires
        rank < 7,
    ensures
        rank_of_name(name_of(rank)) == Some(rank),
        lacks(name_of(rank), ','),
        lacks(name_of(rank), '='),
        is_lower(name_of(rank)),
        trim(name_of(rank)) == name_of(rank),
        4 <= name_of(rank).len() <= 5,
{
    reveal_strlit("trace");
    reveal_strlit("debug");
    reveal_strlit("info");
    reveal_strlit("pass");
    reveal_strlit("warn");
    reveal_strlit("error");
    reveal_strlit("fatal");
    let n = name_of(rank);
    assert(n.len() > 0 && !is_space(n[0]) && !is_space(n.last()));
}

/// A display name is its padded form without the trailing spaces, and the
/// padded form has five characters.
pub proof fn lemma_display_names(rank: u8)
    ensures
        padded_name(rank).len() == 5,
        display_name(rank).len() <= 5,
        padded_name(rank) == pad_end(display_name(rank), 5),
{
    reveal_strlit("TRACE");
    reveal_strlit("DEBUG");
    reveal_strlit("INFO");
    reveal_strlit("INFO ");
    reveal_strlit("PASS");
    reveal_strlit("PASS ");
    reveal_strlit("WARN");
    reveal_strlit("WARN ");
    reveal_strlit("ERROR");
    reveal_strlit("FATAL");
}

/// The name by which filter specifications refer to the tier `rank`.
pub fn level_name(rank: u8) -> (r: &'static str)
    requires
        rank < 7,
    ensures
        r@ == name_of(rank),
{
    match rank {
        0 => "trace",
        1 => "debug",
        2 => "info",
        3 => "pass",
        4 => "warn",
        5 => "error",
        _ => "fatal",
    }
}

/// The rank named by `v[start..end]`, if it spells one of the seven tier
/// names.
pub fn rank_of_range(v: &Vec<char>, start: usize, end: usize) -> (r: Option<u8>)
    requires
        start <= end <= v.len(),
    ensures
        r == rank_of_name(v@.subrange(start as int, end as int)),
{
    if range_is(v, start, end, "fatal") {
        Some(6)
    } else if range_is(v, start, end, "error") {
        Some(5)
    } else if range_is(v, start, end, "warn") {
        Some(4)
    } else if range_is(v, start, end, "pass") {
        Some(3)
    } else if range_is(v, start, end, "info") {
        Some(2)
    } else if range_is(v, start, end, "debug") {
        Some(1)
    } else if range_is(v, start, end, "trace") {
        Some(0)
    } else {
        None
    }
}

/// The rank named by `name`, if it is exactly one of `trace`, `debug`,
/// `info`, `pass`, `warn`, `error`, `fatal`.
pub fn level_from_name(name: &str) -> (r: Option<u8>)
    ensures
        r == rank_of_name(name@),
        r is Some ==> r->0 < 7,
{
    if same_text(name, "fatal") {
        Some(6)
    } else if same_text(name, "error") {
        Some(5)
    } else if same_text(name, "warn") {
        Some(4)
    } else if same_text(name, "pass") {
        Some(3)
    } else if same_text(name, "info") {
        Some(2)
    } else if same_text(name, "debug") {
        Some(1)
    } else if same_text(name, "trace") {
        Some(0)
    } else {
        None
    }
}

} // verus!
