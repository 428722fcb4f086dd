//! Targets: where entries go and how a line is laid out for each.
//!
//! A target has a filter of its own and a sink, the console or a file. For an
//! entry that its filter admits it gives the line to be written; writing the
//! line is left to the caller. The registry hands an entry to every target in
//! the order of registration.

use vstd::prelude::*;
use crate::clock::{is_offset, stamp_text};
use crate::colour::EnableColour;
use crate::filter::{
    parse_spec, BadLevelFilter, FilterModel, LevelFilter, LevelFilterContainer,
};
use crate::level::{bracket_style, message_style, padded_name, primary_style, reset_style};
use crate::log::{usize_digits, ColumnWidthTracker, EntryModel, LogEntry, Widths};
use crate::text::{
    chars_of, debug_quote, debug_quoted, decimal, digit_count, find_char, index_of,
    lemma_decimal_len, lower_all, lowered_chars, pad_end, push_decimal, push_padded, push_spaces,
    range_is, spaces, text_of, trim, trim_bounds,
};

verus! {

broadcast use vstd::string::group_string_axioms;

/// The four pieces of terminal styling that a console line is decorated
/// with.
pub struct Styles {
    pub primary: Seq<char>,
    pub decoration: Seq<char>,
    pub bracket: Seq<char>,
    pub reset: Seq<char>,
}

impl Styles {
    /// No styling: all four pieces are empty.
    pub open spec fn none() -> Styles {
        Styles {
            primary: Seq::empty(),
            decoration: Seq::empty(),
            bracket: Seq::empty(),
            reset: Seq::empty(),
        }
    }

    /// The styling of the severity tier `rank`.
    pub open spec fn of_rank(rank: u8) -> Styles {
        Styles {
            primary: primary_style(rank),
            decoration: message_style(rank),
            bracket: bracket_style(rank),
            reset: reset_style(),
        }
    }

    /// The styling that a console target uses for an entry of the tier
    /// `rank`: the tier's where colour is on, none where it is off.
    pub open spec fn chosen(colour: bool, rank: u8) -> Styles {
        if colour {
            Styles::of_rank(rank)
        } else {
            Styles::none()
        }
    }
}

/// The spaces in front of the line number: what the line column's width
/// leaves after the number's own digits.
pub open spec fn line_gap(entry: EntryModel, widths: Widths) -> Seq<char> {
    spaces((widths.line - digit_count(entry.line as nat)) as nat)
}

/// A console line. In order: the primary style, a space, reset, the bracket
/// style, `[`, reset, the primary style, a space, the padded severity name, a
/// space, reset, the bracket style, `| `, the timestamp, ` | `, the module
/// path padded to the module column, two spaces, the gap in front of the line
/// number, `:`, the primary style, the line number, `:`, the column number
/// padded to its column, a space, reset, the bracket style, `] `, reset, the
/// primary style, a space, reset, a space, the message decoration, the
/// message, reset, and a line feed.
pub open spec fn console_layout(
    entry: EntryModel,
    widths: Widths,
    stamp: Seq<char>,
    styles: Styles,
) -> Seq<char> {
    styles.primary + " "@ + styles.reset + styles.bracket + "["@ + styles.reset + styles.primary
        + " "@ + padded_name(entry.rank) + " "@ + styles.reset + styles.bracket + "| "@ + stamp
        + " | "@ + pad_end(entry.module, widths.module) + " "@ + " "@ + line_gap(entry, widths)
        + ":"@ + styles.primary + decimal(entry.line as nat) + ":"@ + pad_end(
        decimal(entry.col as nat),
        widths.col,
    ) + " "@ + styles.reset + styles.bracket + "] "@ + styles.reset + styles.primary + " "@
        + styles.reset + " "@ + styles.decoration + entry.message + styles.reset + "\n"@
}

/// A line in a file. In order: `[ `, the padded severity name, ` | `, the
/// timestamp, ` | `, the module path padded to the module column, a space,
/// the gap in front of the line number, `:`, the line number, `:`, the column
/// number padded to its column, ` ] `, the message, and a line feed.
pub open spec fn file_layout(entry: EntryModel, widths: Widths, stamp: Seq<char>) -> Seq<char> {
    "[ "@ + padded_name(entry.rank) + " | "@ + stamp + " | "@ + pad_end(
        entry.module,
        widths.module,
    ) + " "@ + line_gap(entry, widths) + ":"@ + decimal(entry.line as nat) + ":"@ + pad_end(
        decimal(entry.col as nat),
        widths.col,
    ) + " ] "@ + entry.message + "\n"@
}

/// A console line without colour is the coloured line with the four pieces
/// of styling taken out: brackets, separators and padding stay where they
/// are.
pub proof fn lemma_plain_console_layout(entry: EntryModel, widths: Widths, stamp: Seq<char>)
    ensures
        console_layout(entry, widths, stamp, Styles::none()) == " "@ + "["@ + " "@ + padded_name(
            entry.rank,
        ) + " "@ + "| "@ + stamp + " | "@ + pad_end(entry.module, widths.module) + " "@ + " "@
            + line_gap(entry, widths) + ":"@ + decimal(entry.line as nat) + ":"@ + pad_end(
            decimal(entry.col as nat),
            widths.col,
        ) + " "@ + "] "@ + " "@ + " "@ + entry.message + "\n"@,
{
    assert forall|s: Seq<char>| #[trigger] (s + Seq::<char>::empty()) == s by {}
}

/// Appends `n` in decimal to `out`, then spaces up to `width` characters in
/// all.
fn push_decimal_padded(out: &mut String, n: u32, width: usize)
    ensures
        final(out)@ == old(out)@ + pad_end(decimal(n as nat), width as nat),
{
    push_decimal(out, n);
    let len = usize_digits(n as usize);
    proof {
        lemma_decimal_len(n as nat);
    }
    if len < width {
        push_spaces(out, width - len);
    }
}

/// The console line of an entry, given the text of its timestamp and the
/// four pieces of styling.
pub fn render_console(
    entry: &LogEntry,
    widths: &ColumnWidthTracker,
    stamp: &str,
    primary: &str,
    decoration: &str,
    bracket: &str,
    reset: &str,
) -> (r: String)
    requires
        widths@.fits(entry@),
    ensures
        r@ == console_layout(
            entry@,
            widths@,
            stamp@,
            Styles { primary: primary@, decoration: decoration@, bracket: bracket@, reset: reset@ },
        ),
{
    let mut out = String::from_str(primary);
    out.append(" ");
    out.append(reset);
    out.append(bracket);
    out.append("[");
    out.append(reset);
    out.append(primary);
    out.append(" ");
    out.append(entry.level_padded());
    out.append(" ");
    out.append(reset);
    out.append(bracket);
    out.append("| ");
    out.append(stamp);
    out.append(" | ");
    push_padded(&mut out, entry.module(), entry.module_padding(widths));
    out.append(" ");
    out.append(" ");
    push_spaces(&mut out, entry.line_padding(widths) - usize_digits(entry.line() as usize));
    out.append(":");
    out.append(primary);
    push_decimal(&mut out, entry.line());
    out.append(":");
    push_decimal_padded(&mut out, entry.col(), entry.col_padding(widths));
    out.append(" ");
    out.append(reset);
    out.append(bracket);
    out.append("] ");
    out.append(reset);
    out.append(primary);
    out.append(" ");
    out.append(reset);
    out.append(" ");
    out.append(decoration);
    out.append(entry.message());
    out.append(reset);
    out.append("\n");
    out
}

/// The line of an entry in a file, given the text of its timestamp.
pub fn render_file(entry: &LogEntry, widths: &ColumnWidthTracker, stamp: &str) -> (r: String)
    requires
        widths@.fits(entry@),
    ensures
        r@ == file_layout(entry@, widths@, stamp@),
{
    let mut out = String::from_str("[ ");
    out.append(entry.level_padded());
    out.append(" | ");
    out.append(stamp);
    out.append(" | ");
    push_padded(&mut out, entry.module(), entry.module_padding(widths));
    out.append(" ");
    push_spaces(&mut out, entry.line_padding(widths) - usize_digits(entry.line() as usize));
    out.append(":");
    push_decimal(&mut out, entry.line());
    out.append(":");
    push_decimal_padded(&mut out, entry.col(), entry.col_padding(widths));
    out.append(" ] ");
    out.append(entry.message());
    out.append("\n");
    out
}

/// Where a target writes.
pub enum SinkModel {
    /// The console, with colour on or off.
    Console { colour: bool },
    /// The file at the given path.
    File { path: Seq<char> },
}

impl SinkModel {
    /// The kind of the sink in a word: `stderr` for the console, `file` for
    /// a file.
    pub open spec fn kind(self) -> Seq<char> {
        match self {
            SinkModel::Console { colour } => "stderr"@,
            SinkModel::File { path } => "file"@,
        }
    }
}

/// What a target is: its sink and its filter.
pub struct TargetModel {
    pub sink: SinkModel,
    pub filter: FilterModel,
}

impl TargetModel {
    /// Whether the target takes the entry: its own filter admits it, where
    /// `global` is `None`; with a global filter, the lower of the two floors
    /// counts.
    pub open spec fn admits(self, global: Option<FilterModel>, entry: EntryModel) -> bool {
        match global {
            Some(wide) => self.filter.admits_with(wide, entry.rank, entry.module),
            None => self.filter.admits(entry.rank, entry.module),
        }
    }

    /// The line that the target writes for the entry.
    pub open spec fn layout(self, entry: EntryModel, widths: Widths, stamp: Seq<char>) -> Seq<
        char,
    > {
        match self.sink {
            SinkModel::Console { colour } => console_layout(
                entry,
                widths,
                stamp,
                Styles::chosen(colour, entry.rank),
            ),
            SinkModel::File { path } => file_layout(entry, widths, stamp),
        }
    }

    /// Whether `out` is what the target gives for the entry: nothing where
    /// it does not take the entry, else the entry's line, whose timestamp is
    /// the entry's instant formatted at some offset of local time from UTC.
    pub open spec fn gives(
        self,
        global: Option<FilterModel>,
        entry: EntryModel,
        widths: Widths,
        out: Option<String>,
    ) -> bool {
        match out {
            Some(line) => self.admits(global, entry) && exists|offset: int|
                is_offset(offset) && line@ == self.layout(
                    entry,
                    widths,
                    #[trigger] stamp_text(entry.stamp, offset),
                ),
            None => !self.admits(global, entry),
        }
    }
}

/// Whether `out` is what the targets give for the entry: one place per
/// target, in the order of registration, each holding what that target
/// gives.
pub open spec fn dispatched(
    targets: Seq<TargetModel>,
    global: Option<FilterModel>,
    entry: EntryModel,
    widths: Widths,
    out: Seq<Option<String>>,
) -> bool {
    &&& out.len() == targets.len()
    &&& forall|i: int|
        0 <= i < out.len() ==> (#[trigger] targets[i]).gives(global, entry, widths, out[i])
}

/// The model of the global filter that is handed in, if one is.
pub open spec fn global_model(global: Option<&LevelFilterContainer>) -> Option<FilterModel> {
    match global {
        Some(container) => Some(container@),
        None => None,
    }
}

/// Whether `filter` admits the entry, with the global filter consulted where
/// there is one.
pub fn passes(filter: &LevelFilter, global: Option<&LevelFilterContainer>, entry: &LogEntry) -> (r:
    bool)
    ensures
        r == match global_model(global) {
            Some(wide) => filter@.admits_with(wide, entry@.rank, entry@.module),
            None => filter@.admits(entry@.rank, entry@.module),
        },
{
    match global {
        Some(container) => filter.matched_by(entry, container),
        None => filter.matched_by_selfonly(entry),
    }
}

/// The target that writes to the console.
#[derive(Debug)]
pub struct StderrLogTarget {
    pub level_filter: LevelFilter,
    pub colour: bool,
}

impl View for StderrLogTarget {
    type V = TargetModel;

    open spec fn view(&self) -> TargetModel {
        TargetModel { sink: SinkModel::Console { colour: self.colour }, filter: self.level_filter@ }
    }
}

impl StderrLogTarget {
    /// A console target whose colour flag is the general setting.
    pub fn default(level_filter: LevelFilter, colour: &EnableColour) -> (r: StderrLogTarget)
        ensures
            r@ == (TargetModel {
                sink: SinkModel::Console { colour: colour@ },
                filter: level_filter@,
            }),
    {
        Self::new(level_filter, colour.get())
    }

    /// A console target with the given colour flag.
    pub fn new(level_filter: LevelFilter, colour: bool) -> (r: StderrLogTarget)
        ensures
            r@ == (TargetModel { sink: SinkModel::Console { colour }, filter: level_filter@ }),
    {
        StderrLogTarget { level_filter, colour }
    }

    /// The kind of the target in a word: `stderr`.
    pub fn kind(&self) -> (r: &'static str)
        ensures
            r@ == self@.sink.kind(),
            r@ == "stderr"@,
    {
        "stderr"
    }

    /// The entry's console line, given the text of its timestamp.
    pub fn render(&self, entry: &LogEntry, widths: &ColumnWidthTracker, stamp: &str) -> (r: String)
        requires
            widths@.fits(entry@),
        ensures
            r@ == self@.layout(entry@, widths@, stamp@),
    {
        if self.colour {
            render_console(
                entry,
                widths,
                stamp,
                entry.level_format(),
                entry.message_format(),
                entry.bracket_format(),
                "\x1b[0m",
            )
        } else {
            proof {
                reveal_strlit("");
            }
            render_console(entry, widths, stamp, "", "", "", "")
        }
    }

    /// The line to write for the entry: `None` where the filter does not
    /// admit it, else the console line with the entry's local time.
    pub fn handle(
        &self,
        entry: &LogEntry,
        global: Option<&LevelFilterContainer>,
        widths: &ColumnWidthTracker,
    ) -> (r: Option<String>)
        requires
            widths@.fits(entry@),
        ensures
            self@.gives(global_model(global), entry@, widths@, r),
    {
        if !passes(&self.level_filter, global, entry) {
            return None;
        }
        let stamp = entry.timestamp_local();
        let line = self.render(entry, widths, stamp.as_str());
        Some(line)
    }

    /// A copy of the target.
    pub fn clone_target(&self) -> (r: LogTarget)
        ensures
            r@ == self@,
    {
        LogTarget::Stderr(Self::new(self.level_filter.clone(), self.colour))
    }
}

/// The target that writes to a file.
#[derive(Debug)]
pub struct FileLogTarget {
    pub level_filter: LevelFilter,
    pub path: String,
}

impl View for FileLogTarget {
    type V = TargetModel;

    open spec fn view(&self) -> TargetModel {
        TargetModel { sink: SinkModel::File { path: self.path@ }, filter: self.level_filter@ }
    }
}

impl FileLogTarget {
    /// A target for the file at `path`.
    pub fn new(level_filter: LevelFilter, path: String) -> (r: FileLogTarget)
        ensures
            r@ == (TargetModel { sink: SinkModel::File { path: path@ }, filter: level_filter@ }),
    {
        FileLogTarget { level_filter, path }
    }

    /// The kind of the target in a word: `file`.
    pub fn kind(&self) -> (r: &'static str)
        ensures
            r@ == self@.sink.kind(),
            r@ == "file"@,
    {
        "file"
    }

    /// The entry's line in the file, given the text of its timestamp.
    pub fn render(&self, entry: &LogEntry, widths: &ColumnWidthTracker, stamp: &str) -> (r: String)
        requires
            widths@.fits(entry@),
        ensures
            r@ == self@.layout(entry@, widths@, stamp@),
    {
        render_file(entry, widths, stamp)
    }

    /// The line to write for the entry: `None` where the filter does not
    /// admit it, else the file's line with the entry's local time.
    pub fn handle(
        &self,
        entry: &LogEntry,
        global: Option<&LevelFilterContainer>,
        widths: &ColumnWidthTracker,
    ) -> (r: Option<String>)
        requires
            widths@.fits(entry@),
        ensures
            self@.gives(global_model(global), entry@, widths@, r),
    {
        if !passes(&self.level_filter, global, entry) {
            return None;
        }
        let stamp = entry.timestamp_local();
        let line = self.render(entry, widths, stamp.as_str());
        Some(line)
    }

    /// A copy of the target.
    pub fn clone_target(&self) -> (r: LogTarget)
        ensures
            r@ == self@,
    {
        LogTarget::File(Self::new(self.level_filter.clone(), self.path.clone()))
    }
}

/// A target of either kind.
#[derive(Debug)]
pub enum LogTarget {
    Stderr(StderrLogTarget),
    File(FileLogTarget),
}

impl View for LogTarget {
    type V = TargetModel;

    open spec fn view(&self) -> TargetModel {
        match self {
            LogTarget::Stderr(target) => target@,
            LogTarget::File(target) => target@,
        }
    }
}

impl LogTarget {
    /// The kind of the target in a word: `stderr` for the console target,
    /// `file` for a file target.
    pub fn kind(&self) -> (r: &'static str)
        ensures
            r@ == self@.sink.kind(),
            self is Stderr ==> r@ == "stderr"@,
            self is File ==> r@ == "file"@,
    {
        match self {
            LogTarget::Stderr(target) => target.kind(),
            LogTarget::File(target) => target.kind(),
        }
    }

    /// Whether the target takes the entry: its filter admits it, with the
    /// global filter consulted where there is one.
    pub fn admits(&self, entry: &LogEntry, global: Option<&LevelFilterContainer>) -> (r: bool)
        ensures
            r == self@.admits(global_model(global), entry@),
    {
        match self {
            LogTarget::Stderr(target) => passes(&target.level_filter, global, entry),
            LogTarget::File(target) => passes(&target.level_filter, global, entry),
        }
    }

    /// The entry's line for this target, given the text of its timestamp.
    pub fn render(&self, entry: &LogEntry, widths: &ColumnWidthTracker, stamp: &str) -> (r: String)
        requires
            widths@.fits(entry@),
        ensures
            r@ == self@.layout(entry@, widths@, stamp@),
    {
        match self {
            LogTarget::Stderr(target) => target.render(entry, widths, stamp),
            LogTarget::File(target) => target.render(entry, widths, stamp),
        }
    }

    /// The line to write for the entry, `None` where the target's filter
    /// does not admit it.
    pub fn handle(
        &self,
        entry: &LogEntry,
        global: Option<&LevelFilterContainer>,
        widths: &ColumnWidthTracker,
    ) -> (r: Option<String>)
        requires
            widths@.fits(entry@),
        ensures
            self@.gives(global_model(global), entry@, widths@, r),
    {
        match self {
            LogTarget::Stderr(target) => target.handle(entry, global, widths),
            LogTarget::File(target) => target.handle(entry, global, widths),
        }
    }

    /// A copy of the target.
    pub fn clone_target(&self) -> (r: LogTarget)
        ensures
            r@ == self@,
    {
        match self {
            LogTarget::Stderr(target) => target.clone_target(),
            LogTarget::File(target) => target.clone_target(),
        }
    }
}

/// Why a target specification is refused.
pub enum TargetError {
    /// The name is neither `stderr` nor a path that starts with `/` or `./`;
    /// the name is carried in ASCII lower case.
    UnknownTarget(Seq<char>),
    /// The filter part names something that is no severity.
    BadLevelFilter(Seq<char>),
}

/// What a target specification means. Up to its first `:` it is the
/// target's name and after that the filter's specification; without a `:` it
/// is all name, and the filter admits everything. Name and filter part are
/// trimmed and otherwise taken as they are written. A filter part that does
/// not parse is refused first. Then the name `stderr` gives the console
/// target, with the colour flag handed in; a name that starts with `./` or
/// `/` gives the file target for that path; any other name is refused, and
/// the refusal carries it in ASCII lower case.
pub open spec fn parse_target(s: Seq<char>, colour: bool) -> Result<TargetModel, TargetError> {
    let i = index_of(s, ':');
    let name = if 0 <= i < s.len() {
        trim(s.take(i))
    } else {
        trim(s)
    };
    let filter = if 0 <= i < s.len() {
        parse_spec(trim(s.skip(i + 1)))
    } else {
        Ok(FilterModel::all())
    };
    match filter {
        Err(level) => Err(TargetError::BadLevelFilter(level)),
        Ok(filter) => if name == "stderr"@ {
            Ok(TargetModel { sink: SinkModel::Console { colour }, filter })
        } else if "./"@.is_prefix_of(name) || "/"@.is_prefix_of(name) {
            Ok(TargetModel { sink: SinkModel::File { path: name }, filter })
        } else {
            Err(TargetError::UnknownTarget(lower_all(name)))
        },
    }
}

/// Why a target could not be set up.
#[derive(Debug)]
pub enum BadLogTarget {
    /// The specification names no known kind of target.
    UnknownTarget(String),
    /// The specification's filter part was refused.
    BadLevelFilter(BadLevelFilter),
    /// The target's file could not be opened; the text says why.
    Io(String),
}

impl BadLogTarget {
    /// The message for an unknown target, given its name in quoted form.
    pub fn message_for(quoted: &str) -> (r: String)
        ensures
            r@ == "unknown log target "@ + quoted@,
    {
        let mut out = String::from_str("unknown log target ");
        out.append(quoted);
        out
    }

    /// The error as a message: for an unknown target, `unknown log target`
    /// and the name, quoted as `Debug` quotes a string; for a refused filter,
    /// the filter error's message; for a file that could not be opened, the
    /// reason as it is.
    pub fn to_string(&self) -> (r: String)
        ensures
            r@ == match *self {
                BadLogTarget::UnknownTarget(name) => "unknown log target "@ + debug_quoted(name@),
                BadLogTarget::BadLevelFilter(err) => "unknown log level "@ + debug_quoted(
                    err.name(),
                ),
                BadLogTarget::Io(reason) => reason@,
            },
    {
        match self {
            BadLogTarget::UnknownTarget(name) => {
                let quoted = debug_quote(name.as_str());
                Self::message_for(quoted.as_str())
            },
            BadLogTarget::BadLevelFilter(err) => err.to_string(),
            BadLogTarget::Io(reason) => reason.clone(),
        }
    }
}

/// One target, as read from a specification.
#[derive(Debug)]
pub struct SingleLogTarget(pub LogTarget);

impl View for SingleLogTarget {
    type V = TargetModel;

    open spec fn view(&self) -> TargetModel {
        self.0@
    }
}

impl Clone for SingleLogTarget {
    fn clone(&self) -> (r: Self)
        ensures
            r@ == self@,
    {
        SingleLogTarget(self.0.clone_target())
    }
}

impl SingleLogTarget {
    /// The kind of the target in a word: `stderr` or `file`.
    pub fn kind(&self) -> (r: &'static str)
        ensures
            r@ == self@.sink.kind(),
    {
        self.0.kind()
    }

    /// Reads a target specification, `name` or `name:filter`. The name
    /// `stderr` gives the console target, whose colour flag is the general
    /// setting; a name that starts with `/` or `./` gives the target for the
    /// file at that path, as it is written. The filter admits everything
    /// where none is given.
    pub fn from_str(s: &str, colour: &EnableColour) -> (r: Result<SingleLogTarget, BadLogTarget>)
        ensures
            match parse_target(s@, colour@) {
                Ok(target) => r matches Ok(t) && t@ == target,
                Err(TargetError::UnknownTarget(name)) => r matches Err(
                    BadLogTarget::UnknownTarget(n),
                ) && n@ == name,
                Err(TargetError::BadLevelFilter(level)) => r matches Err(
                    BadLogTarget::BadLevelFilter(BadLevelFilter::UnknownLevel(n)),
                ) && n@ == level,
            },
    {
        let v = chars_of(s);
        let folded = lowered_chars(s);
        let n = v.len();
        let colon = find_char(&v, 0, n, ':');
        proof {
            assert(v@.subrange(0, n as int) == v@);
        }
        let name_at: (usize, usize);
        let filter: LevelFilter;
        if colon < n {
            name_at = trim_bounds(&v, 0, colon);
            let filter_at = trim_bounds(&v, colon + 1, n);
            let filter_text = text_of(&v, filter_at.0, filter_at.1);
            match <LevelFilter as std::str::FromStr>::from_str(filter_text.as_str()) {
                Ok(f) => {
                    filter = f;
                },
                Err(err) => {
                    return Err(BadLogTarget::BadLevelFilter(err));
                },
            }
        } else {
            name_at = trim_bounds(&v, 0, n);
            filter = LevelFilter::all();
        }
        let ghost name = v@.subrange(name_at.0 as int, name_at.1 as int);
        proof {
            reveal_strlit("./");
            reveal_strlit("/");
        }
        if range_is(&v, name_at.0, name_at.1, "stderr") {
            Ok(SingleLogTarget(LogTarget::Stderr(StderrLogTarget::default(filter, colour))))
        } else if name_at.1 - name_at.0 >= 1 && (v[name_at.0] == '/' || (name_at.1 - name_at.0 >= 2
            && v[name_at.0] == '.' && v[name_at.0 + 1] == '/')) {
            let path = text_of(&v, name_at.0, name_at.1);
            Ok(SingleLogTarget(LogTarget::File(FileLogTarget::new(filter, path))))
        } else {
            proof {
                if name.len() >= 1 {
                    assert("/"@.is_prefix_of(name) ==> name.subrange(0, 1)[0] == '/');
                }
                if name.len() >= 2 {
                    assert("./"@.is_prefix_of(name) ==> name.subrange(0, 2)[0] == '.'
                        && name.subrange(0, 2)[1] == '/');
                }
            }
            proof {
                assert(folded@.subrange(name_at.0 as int, name_at.1 as int) == lower_all(name));
            }
            Err(BadLogTarget::UnknownTarget(text_of(&folded, name_at.0, name_at.1)))
        }
    }
}

/// The registry: the targets in the order of their registration.
#[derive(Debug)]
pub struct LogTargetsContainer {
    targets: Vec<LogTarget>,
}

/// The models of a sequence of targets.
pub open spec fn models_of(targets: Seq<LogTarget>) -> Seq<TargetModel> {
    targets.map_values(|t: LogTarget| t@)
}

impl View for LogTargetsContainer {
    type V = Seq<TargetModel>;

    closed spec fn view(&self) -> Seq<TargetModel> {
        models_of(self.targets@)
    }
}

impl LogTargetsContainer {
    /// A registry without targets.
    pub fn new() -> (r: LogTargetsContainer)
        ensures
            r@ == Seq::<TargetModel>::empty(),
    {
        let r = LogTargetsContainer { targets: Vec::new() };
        r
    }

    /// The number of targets.
    pub fn len(&self) -> (r: usize)
        ensures
            r == self@.len(),
    {
        self.targets.len()
    }

    /// Registers `target` after the targets already there.
    pub fn push(&mut self, target: LogTarget)
        ensures
            final(self)@ == old(self)@.push(target@),
    {
        self.targets.push(target);
    }

    /// Registers the targets of `from`, in their order, and leaves `from`
    /// empty.
    pub fn append(&mut self, from: &mut Vec<LogTarget>)
        ensures
            final(self)@ == old(self)@ + models_of(old(from)@),
            final(from)@.len() == 0,
    {
        self.targets.append(from);
    }

    /// Registers the targets of `iter`, in their order.
    pub fn extend(&mut self, iter: Vec<LogTarget>)
        ensures
            final(self)@ == old(self)@ + models_of(iter@),
    {
        let mut from = iter;
        self.append(&mut from);
    }

    /// Whether any target takes the entry.
    pub fn admits_any(&self, entry: &LogEntry, global: Option<&LevelFilterContainer>) -> (r: bool)
        ensures
            r == exists|i: int|
                0 <= i < self@.len() && (#[trigger] self@[i]).admits(
                    global_model(global),
                    entry@,
                ),
    {
        let mut i: usize = 0;
        while i < self.targets.len()
            invariant
                i <= self.targets.len(),
                forall|k: int|
                    0 <= k < i ==> !(#[trigger] self@[k]).admits(global_model(global), entry@),
            decreases self.targets.len() - i,
        {
            if self.targets[i].admits(entry, global) {
                assert(self@[i as int].admits(global_model(global), entry@));
                return true;
            }
            i += 1;
        }
        false
    }

    /// Hands the entry to every target, in the order of registration. The
    /// result has one place per target: the line to write to that target, or
    /// `None` where the target's filter does not admit the entry.
    pub fn handle(
        &self,
        entry: &LogEntry,
        global: Option<&LevelFilterContainer>,
        widths: &ColumnWidthTracker,
    ) -> (r: Vec<Option<String>>)
        requires
            widths@.fits(entry@),
        ensures
            dispatched(self@, global_model(global), entry@, widths@, r@),
    {
        let mut out: Vec<Option<String>> = Vec::new();
        let mut i: usize = 0;
        while i < self.targets.len()
            invariant
                i <= self.targets.len(),
                out.len() == i,
                widths@.fits(entry@),
                forall|k: int|
                    0 <= k < i ==> (#[trigger] self@[k]).gives(
                        global_model(global),
                        entry@,
                        widths@,
                        out[k],
                    ),
            decreases self.targets.len() - i,
        {
            let line = self.targets[i].handle(entry, global, widths);
            out.push(line);
            i += 1;
        }
        out
    }
}

} // verus!
