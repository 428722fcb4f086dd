//! Log entries and the tracker of column widths.
//!
//! Every call site contributes three widths: the length of its module path
//! and the digit counts of its line and column. The tracker keeps the maximum
//! of each over the call sites seen so far, so that rendered lines align and
//! the columns only ever widen.

use vstd::prelude::*;
use vstd::utf8::encode_utf8;
use std::borrow::Cow;
use chrono::NaiveDateTime;
use crate::clock::{is_offset, local_offset, stamp_text, text_at_offset, utc_now};
use crate::filter::LevelFilterContainer;
use crate::level::{
    bracket_style, display_name, lemma_display_names, message_style, padded_name, primary_style,
    LevelInfo,
};
use crate::target::{dispatched, global_model, LogTargetsContainer};
use crate::text::{digit_count, lines_of, split_lines};

verus! {

broadcast use vstd::string::group_string_axioms;

/// The number of decimal digits of `n`; 0 has one digit.
pub fn usize_digits(n: usize) -> (r: usize)
    ensures
        r == digit_count(n as nat),
        r >= 1,
{
    let mut rest: usize = n;
    let mut count: usize = 1;
    while rest >= 10
        invariant
            count >= 1,
            count + rest <= n + 1,
            digit_count(n as nat) == digit_count(rest as nat) + count - 1,
        decreases rest,
    {
        rest = rest / 10;
        count += 1;
    }
    count
}

/// The length of a call site's module path, in bytes.
#[derive(Clone, Copy, Debug)]
pub struct ModuleLen(pub usize);

/// The digit count of a call site's line number.
#[derive(Clone, Copy, Debug)]
pub struct LineLen(pub usize);

/// The digit count of a call site's column number.
#[derive(Clone, Copy, Debug)]
pub struct ColLen(pub usize);

/// A place in the source that emits entries.
pub struct CallSite {
    pub module: Seq<char>,
    pub line: u32,
    pub col: u32,
}

/// Three column widths: module path, line number, column number.
pub struct Widths {
    pub module: nat,
    pub line: nat,
    pub col: nat,
}

impl Widths {
    /// No width at all: the tracker's state before any call site was seen.
    pub open spec fn zero() -> Widths {
        Widths { module: 0, line: 0, col: 0 }
    }

    /// The widths that one call site asks for: the byte length of its
    /// module path and the digit counts of its line and column.
    pub open spec fn of_site(site: CallSite) -> Widths {
        Widths {
            module: encode_utf8(site.module).len(),
            line: digit_count(site.line as nat),
            col: digit_count(site.col as nat),
        }
    }

    /// Each width raised to that of `by` where `by` is wider.
    pub open spec fn widened(self, by: Widths) -> Widths {
        Widths {
            module: if by.module > self.module {
                by.module
            } else {
                self.module
            },
            line: if by.line > self.line {
                by.line
            } else {
                self.line
            },
            col: if by.col > self.col {
                by.col
            } else {
                self.col
            },
        }
    }

    /// Whether the line column is wide enough for the entry's line number,
    /// as it is once the entry's call site was seen.
    pub open spec fn fits(self, entry: EntryModel) -> bool {
        digit_count(entry.line as nat) <= self.line
    }

    /// Whether each width is at least that of `other`.
    pub open spec fn at_least(self, other: Widths) -> bool {
        self.module >= other.module && self.line >= other.line && self.col >= other.col
    }

    /// The widths after the call sites `sites` were seen in this order,
    /// starting from none.
    pub open spec fn after(sites: Seq<CallSite>) -> Widths
        decreases sites.len(),
    {
        if sites.len() == 0 {
            Widths::zero()
        } else {
            Widths::after(sites.drop_last()).widened(Widths::of_site(sites.last()))
        }
    }
}

/// Seeing more call sites never narrows a column.
pub proof fn lemma_widths_grow(seen: Seq<CallSite>, more: Seq<CallSite>)
    ensures
        Widths::after(seen + more).at_least(Widths::after(seen)),
    decreases more.len(),
{
    if more.len() > 0 {
        lemma_widths_grow(seen, more.drop_last());
        assert((seen + more).drop_last() == seen + more.drop_last());
    }
}

/// The widths cover every call site that was seen.
pub proof fn lemma_widths_cover(seen: Seq<CallSite>, i: int)
    requires
        0 <= i < seen.len(),
    ensures
        Widths::after(seen).at_least(Widths::of_site(seen[i])),
    decreases seen.len(),
{
    if i < seen.len() - 1 {
        lemma_widths_cover(seen.drop_last(), i);
    }
}

/// Once every call site has been seen, the columns are stable: entries from
/// call sites seen before change nothing.
pub proof fn lemma_widths_settle(seen: Seq<CallSite>, again: Seq<CallSite>)
    requires
        forall|i: int| 0 <= i < again.len() ==> seen.contains(#[trigger] again[i]),
    ensures
        Widths::after(seen + again) == Widths::after(seen),
    decreases again.len(),
{
    if again.len() > 0 {
        let front = again.drop_last();
        assert forall|i: int| 0 <= i < front.len() implies seen.contains(#[trigger] front[i]) by {}
        lemma_widths_settle(seen, front);
        assert((seen + again).drop_last() == seen + front);
        let k = choose|k: int| 0 <= k < seen.len() && seen[k] == again.last();
        lemma_widths_cover(seen, k);
    }
}

/// The running maxima of the three column widths.
#[derive(Clone, Copy, Debug)]
pub struct ColumnWidthTracker {
    module: usize,
    line: usize,
    col: usize,
}

impl View for ColumnWidthTracker {
    type V = Widths;

    closed spec fn view(&self) -> Widths {
        Widths { module: self.module as nat, line: self.line as nat, col: self.col as nat }
    }
}

impl ColumnWidthTracker {
    /// A tracker that has seen no call site.
    pub fn new() -> (r: ColumnWidthTracker)
        ensures
            r@ == Widths::zero(),
    {
        ColumnWidthTracker { module: 0, line: 0, col: 0 }
    }

    /// Widens each column to the given width where that is wider.
    pub fn widen(&mut self, module: ModuleLen, line: LineLen, col: ColLen)
        ensures
            final(self)@ == old(self)@.widened(
                Widths { module: module.0 as nat, line: line.0 as nat, col: col.0 as nat },
            ),
    {
        if module.0 > self.module {
            self.module = module.0;
        }
        if line.0 > self.line {
            self.line = line.0;
        }
        if col.0 > self.col {
            self.col = col.0;
        }
    }

    /// Takes note of a call site: widens the columns to what it asks for.
    /// Seeing the same call site again changes nothing.
    pub fn observe(&mut self, module: &str, line: u32, col: u32)
        ensures
            final(self)@ == old(self)@.widened(
                Widths::of_site(CallSite { module: module@, line, col }),
            ),
            final(self)@.at_least(old(self)@),
            final(self)@.at_least(Widths::of_site(CallSite { module: module@, line, col })),
    {
        broadcast use vstd::slice::group_slice_axioms;

        self.widen(
            ModuleLen(module.as_bytes().len()),
            LineLen(usize_digits(line as usize)),
            ColLen(usize_digits(col as usize)),
        );
    }

    /// Whether the line column is wide enough for the entry's line number.
    pub fn fits(&self, entry: &LogEntry) -> (r: bool)
        ensures
            r == self@.fits(entry@),
    {
        usize_digits(entry.line() as usize) <= self.line
    }

    /// The width of the module column.
    pub fn module_width(&self) -> (r: usize)
        ensures
            r == self@.module,
    {
        self.module
    }

    /// The width of the line-number column.
    pub fn line_width(&self) -> (r: usize)
        ensures
            r == self@.line,
    {
        self.line
    }

    /// The width of the column-number column.
    pub fn col_width(&self) -> (r: usize)
        ensures
            r == self@.col,
    {
        self.col
    }
}

/// What an entry holds: the rank of its severity, the call site, the
/// message, the instant in UTC, and the label of the thread that made it.
pub struct EntryModel {
    pub rank: u8,
    pub module: Seq<char>,
    pub line: u32,
    pub col: u32,
    pub message: Seq<char>,
    pub stamp: NaiveDateTime,
    pub thread: Seq<char>,
}

/// One log event.
pub struct LogEntry {
    level: LevelInfo,
    module: &'static str,
    line: u32,
    col: u32,
    message: Cow<'static, str>,
    timestamp: NaiveDateTime,
    thread: String,
}

impl View for LogEntry {
    type V = EntryModel;

    closed spec fn view(&self) -> EntryModel {
        EntryModel {
            rank: self.level.rank(),
            module: self.module@,
            line: self.line,
            col: self.col,
            message: self.message@,
            stamp: self.timestamp,
            thread: self.thread@,
        }
    }
}

impl LogEntry {
    /// An entry with the given contents.
    pub fn new(
        level: LevelInfo,
        module: &'static str,
        line: u32,
        col: u32,
        message: Cow<'static, str>,
        timestamp: NaiveDateTime,
        thread: String,
    ) -> (r: LogEntry)
        ensures
            r@ == (EntryModel {
                rank: level.rank(),
                module: module@,
                line,
                col,
                message: message@,
                stamp: timestamp,
                thread: thread@,
            }),
    {
        LogEntry { level, module, line, col, message, timestamp, thread }
    }

    /// The severity rank, 0 to 6.
    pub fn level_index(&self) -> (r: u8)
        ensures
            r == self@.rank,
            r < 7,
    {
        self.level.level_index()
    }

    /// The severity's name.
    pub fn level(&self) -> (r: &'static str)
        ensures
            r@ == display_name(self@.rank),
    {
        self.level.name()
    }

    /// How many spaces pad the severity's name to five characters.
    pub fn level_padding(&self) -> (r: usize)
        ensures
            r == padded_name(self@.rank).len() - display_name(
                self@.rank,
            ).len(),
    {
        proof {
            lemma_display_names(self@.rank);
        }
        self.level.name_padded().unicode_len() - self.level.name().unicode_len()
    }

    /// The severity's name, padded to five characters.
    pub fn level_padded(&self) -> (r: &'static str)
        ensures
            r@ == padded_name(self@.rank),
    {
        self.level.name_padded()
    }

    /// The styling of the severity's primary decoration.
    pub fn level_format(&self) -> (r: &'static str)
        ensures
            r@ == primary_style(self@.rank),
    {
        self.level.level_format()
    }

    /// The styling of the message text.
    pub fn message_format(&self) -> (r: &'static str)
        ensures
            r@ == message_style(self@.rank),
    {
        self.level.message_format()
    }

    /// The styling of brackets and separators.
    pub fn bracket_format(&self) -> (r: &'static str)
        ensures
            r@ == bracket_style(self@.rank),
    {
        self.level.bracket_format()
    }

    /// The message text.
    pub fn message<'a>(&'a self) -> (r: &'a str)
        ensures
            r@ == self@.message,
    {
        match &self.message {
            Cow::Borrowed(text) => text,
            Cow::Owned(text) => text.as_str(),
        }
    }

    /// The lines of the message text.
    pub fn message_lines(&self) -> (r: Vec<String>)
        ensures
            r.deep_view() == lines_of(self@.message),
    {
        split_lines(self.message())
    }

    /// The instant of the entry in the machine's local time, as the text
    /// that rendered lines show: the instant formatted at the offset that
    /// local time has from UTC at that instant. Which offset that is depends
    /// on the time zone that the machine is set to.
    pub fn timestamp_local(&self) -> (r: String)
        ensures
            exists|offset: int|
                is_offset(offset) && r@ == #[trigger] stamp_text(self@.stamp, offset),
    {
        let offset = local_offset(&self.timestamp);
        let text = text_at_offset(&self.timestamp, offset, "%Y-%m-%d %H:%M:%S.%f");
        assert(is_offset(offset as int) && text@ == stamp_text(self@.stamp, offset as int));
        text
    }

    /// The instant of the entry, in UTC.
    pub fn timestamp_utc(&self) -> (r: NaiveDateTime)
        ensures
            r == self@.stamp,
    {
        self.timestamp
    }

    /// The path of the module that made the entry.
    pub fn module(&self) -> (r: &'static str)
        ensures
            r@ == self@.module,
    {
        self.module
    }

    /// The width to which module paths are padded.
    pub fn module_padding(&self, widths: &ColumnWidthTracker) -> (r: usize)
        ensures
            r == widths@.module,
    {
        widths.module_width()
    }

    /// The line of the call site.
    pub fn line(&self) -> (r: u32)
        ensures
            r == self@.line,
    {
        self.line
    }

    /// The width to which line numbers are padded.
    pub fn line_padding(&self, widths: &ColumnWidthTracker) -> (r: usize)
        ensures
            r == widths@.line,
    {
        widths.line_width()
    }

    /// The column of the call site.
    pub fn col(&self) -> (r: u32)
        ensures
            r == self@.col,
    {
        self.col
    }

    /// The width to which column numbers are padded.
    pub fn col_padding(&self, widths: &ColumnWidthTracker) -> (r: usize)
        ensures
            r == widths@.col,
    {
        widths.col_width()
    }

    /// The label of the thread that made the entry.
    pub fn thread<'a>(&'a self) -> (r: &'a str)
        ensures
            r@ == self@.thread,
    {
        self.thread.as_str()
    }
}

/// Makes an entry with the given timestamp and hands it to the targets. The
/// call site is noted in the tracker first, so that the columns are wide
/// enough for the entry; then every target is asked, in the order of
/// registration. The result has one place per target: the line to write to
/// that target, or `None` where the target does not take the entry.
pub fn log_at(
    targets: &LogTargetsContainer,
    global: Option<&LevelFilterContainer>,
    widths: &mut ColumnWidthTracker,
    level: LevelInfo,
    module: &'static str,
    line: u32,
    col: u32,
    message: Cow<'static, str>,
    timestamp: NaiveDateTime,
    thread: String,
) -> (r: Vec<Option<String>>)
    ensures
        final(widths)@ == old(widths)@.widened(
            Widths::of_site(CallSite { module: module@, line, col }),
        ),
        dispatched(
            targets@,
            global_model(global),
            EntryModel {
                rank: level.rank(),
                module: module@,
                line,
                col,
                message: message@,
                stamp: timestamp,
                thread: thread@,
            },
            final(widths)@,
            r@,
        ),
{
    widths.observe(module, line, col);
    let entry = LogEntry::new(level, module, line, col, message, timestamp, thread);
    targets.handle(&entry, global, widths)
}

/// Makes an entry, stamped with the current time, and hands it to the
/// targets as [`log_at`] does: every target gets the same entry, with one
/// instant.
pub fn log_inner(
    targets: &LogTargetsContainer,
    global: Option<&LevelFilterContainer>,
    widths: &mut ColumnWidthTracker,
    level: LevelInfo,
    module: &'static str,
    line: u32,
    col: u32,
    message: Cow<'static, str>,
    thread: String,
) -> (r: Vec<Option<String>>)
    ensures
        final(widths)@ == old(widths)@.widened(
            Widths::of_site(CallSite { module: module@, line, col }),
        ),
        exists|now: NaiveDateTime| #[trigger]
            dispatched(
                targets@,
                global_model(global),
                EntryModel {
                    rank: level.rank(),
                    module: module@,
                    line,
                    col,
                    message: message@,
                    stamp: now,
                    thread: thread@,
                },
                final(widths)@,
                r@,
            ),
{
    let now = utc_now();
    let ghost label = thread@;
    let r = log_at(targets, global, widths, level, module, line, col, message, now, thread);
    assert(dispatched(
        targets@,
        global_model(global),
        EntryModel {
            rank: level.rank(),
            module: module@,
            line,
            col,
            message: message@,
            stamp: now,
            thread: label,
        },
        widths@,
        r@,
    ));
    r
}

} // verus!
