//! Laying appointments out as lines of a table.

use crate::appointment::{Appointment, AppointmentView};
use crate::text::{join, joined};
use crate::time::{clock, clock_string};
use colored::Colorize;
use vstd::prelude::*;

verus! {

/// The bright colours of a row's cells.
#[derive(Clone, Copy, Debug, PartialEq, Eq)]
pub enum Tint {
    Blue,
    Red,
    Green,
    Yellow,
    Cyan,
    Magenta,
}

/// What a row stands for: the text of its six cells, and whether the row is
/// that of an appointment called off.
pub struct RowView {
    pub subjects: Seq<char>,
    pub teachers: Seq<char>,
    pub groups: Seq<char>,
    pub locations: Seq<char>,
    pub start: Seq<char>,
    pub end: Seq<char>,
    pub cancelled: bool,
}

impl RowView {
    /// The row as one line of plain text.
    pub open spec fn text(self) -> Seq<char> {
        self.subjects + " - "@ + self.teachers + " - "@ + self.groups + " - "@ + self.locations
            + " - ("@ + self.start + "-"@ + self.end + ")"@
    }
}

/// One row of the table.
#[derive(Debug, PartialEq, Eq)]
pub struct Row {
    pub subjects: String,
    pub teachers: String,
    pub groups: String,
    pub locations: String,
    pub start: String,
    pub end: String,
    pub cancelled: bool,
}

impl View for Row {
    type V = RowView;

    open spec fn view(&self) -> RowView {
        RowView {
            subjects: self.subjects@,
            teachers: self.teachers@,
            groups: self.groups@,
            locations: self.locations@,
            start: self.start@,
            end: self.end@,
            cancelled: self.cancelled,
        }
    }
}

/// The row of an appointment, for a clock `offset` seconds east of UTC: each
/// list joined with a comma and a space, and the times of day at which the
/// appointment starts and ends.
pub open spec fn row_of(a: AppointmentView, offset: int) -> RowView {
    RowView {
        subjects: joined(a.subjects, ", "@),
        teachers: joined(a.teachers, ", "@),
        groups: joined(a.groups, ", "@),
        locations: joined(a.locations, ", "@),
        start: clock(a.start, offset),
        end: clock(a.end, offset),
        cancelled: a.cancelled,
    }
}

/// The row of column labels that stands above the appointments.
pub open spec fn header_row() -> RowView {
    RowView {
        subjects: "SUBJECT(S)"@,
        teachers: "TEACHER(S)"@,
        groups: "GROUP(S)"@,
        locations: "LOCATION(S)"@,
        start: "START"@,
        end: "END"@,
        cancelled: false,
    }
}

/// `text` in the bright foreground colour `tint`, as colored writes it where
/// it writes colour at all: between the sequence that opens the colour and
/// the one that closes it.
pub uninterp spec fn ansi_tinted(text: Seq<char>, tint: Tint) -> Seq<char>;

/// `text` on a red background, as colored writes it where it writes colour
/// at all: between the sequence that opens the background and the one that
/// closes it.
pub uninterp spec fn ansi_on_red(text: Seq<char>) -> Seq<char>;

/// `out` is `text` in the colour `tint`: either with the colour written
/// out, which makes it longer, or plain where the terminal takes no colour.
pub open spec fn tinted(text: Seq<char>, tint: Tint, out: Seq<char>) -> bool {
    out == text || (out == ansi_tinted(text, tint) && out.len() > text.len())
}

/// `out` is `text` on red: either with the background written out, which
/// makes it longer, or plain where the terminal takes no colour.
pub open spec fn reddened(text: Seq<char>, out: Seq<char>) -> bool {
    out == text || (out == ansi_on_red(text) && out.len() > text.len())
}

/// `cells` are the cells of `row`, each in the colour of its column.
pub open spec fn paints(row: RowView, cells: RowView) -> bool {
    &&& tinted(row.subjects, Tint::Blue, cells.subjects)
    &&& tinted(row.teachers, Tint::Red, cells.teachers)
    &&& tinted(row.groups, Tint::Green, cells.groups)
    &&& tinted(row.locations, Tint::Yellow, cells.locations)
    &&& tinted(row.start, Tint::Cyan, cells.start)
    &&& tinted(row.end, Tint::Magenta, cells.end)
    &&& cells.cancelled == row.cancelled
}

/// `out` is `row` as a terminal shows it: its cells in their colours, laid
/// out as a line, and the whole line on red if the row is that of an
/// appointment called off.
pub open spec fn shows(row: RowView, out: Seq<char>) -> bool {
    exists|cells: RowView| #[trigger]
        paints(row, cells) && if row.cancelled {
            reddened(cells.text(), out)
        } else {
            out == cells.text()
        }
}

/// Colours `text` with colored's `Colorize::color` on `&str` and writes the
/// result out through `ColoredString`'s `Display`. Whether colored writes
/// colour depends on the terminal and on variables of the process: the
/// result is `text` itself or the coloured form. The coloured form holds
/// all of `text` and the sequences that open and close the colour, so it is
/// longer than `text`. No more is claimed.
#[verifier::external_body]
fn colour(text: &str, tint: Tint) -> (out: String)
    ensures
        out@ == text@ || (out@ == ansi_tinted(text@, tint) && out@.len() > text@.len()),
{
    let color = match tint {
        Tint::Blue => colored::Color::BrightBlue,
        Tint::Red => colored::Color::BrightRed,
        Tint::Green => colored::Color::BrightGreen,
        Tint::Yellow => colored::Color::BrightYellow,
        Tint::Cyan => colored::Color::BrightCyan,
        Tint::Magenta => colored::Color::BrightMagenta,
    };
    text.color(color).to_string()
}

/// Puts `text` on a red background with colored's `Colorize::on_red` on
/// `&str` and writes the result out through `ColoredString`'s `Display`.
/// As with `colour`, the result is `text` itself or the coloured form, and
/// the coloured form is longer than `text`.
#[verifier::external_body]
fn on_red(text: &str) -> (out: String)
    ensures
        out@ == text@ || (out@ == ansi_on_red(text@) && out@.len() > text@.len()),
{
    text.on_red().to_string()
}

impl Row {
    /// The row of column labels.
    pub fn header() -> (row: Row)
        ensures
            row@ == header_row(),
    {
        Row {
            subjects: String::from_str("SUBJECT(S)"),
            teachers: String::from_str("TEACHER(S)"),
            groups: String::from_str("GROUP(S)"),
            locations: String::from_str("LOCATION(S)"),
            start: String::from_str("START"),
            end: String::from_str("END"),
            cancelled: false,
        }
    }

    /// The row as one line of plain text.
    pub fn text(&self) -> (out: String)
        ensures
            out@ == self@.text(),
    {
        let mut out = self.subjects.clone();
        out.append(" - ");
        out.append(self.teachers.as_str());
        out.append(" - ");
        out.append(self.groups.as_str());
        out.append(" - ");
        out.append(self.locations.as_str());
        out.append(" - (");
        out.append(self.start.as_str());
        out.append("-");
        out.append(self.end.as_str());
        out.append(")");
        out
    }

    /// The row as a terminal shows it: each cell in the colour of its
    /// column, and the whole line on red if the row is that of an
    /// appointment called off.
    pub fn paint(&self) -> (out: String)
        ensures
            shows(self@, out@),
    {
        let cells = Row {
            subjects: colour(self.subjects.as_str(), Tint::Blue),
            teachers: colour(self.teachers.as_str(), Tint::Red),
            groups: colour(self.groups.as_str(), Tint::Green),
            locations: colour(self.locations.as_str(), Tint::Yellow),
            start: colour(self.start.as_str(), Tint::Cyan),
            end: colour(self.end.as_str(), Tint::Magenta),
            cancelled: self.cancelled,
        };
        let line = cells.text();
        assert(paints(self@, cells@));
        if self.cancelled {
            on_red(line.as_str())
        } else {
            line
        }
    }
}

impl Appointment {
    /// The appointment's row, for a clock `offset` seconds east of UTC.
    pub fn row(&self, offset: i32) -> (row: Row)
        ensures
            row@ == row_of(self@, offset as int),
    {
        Row {
            subjects: join(self.subjects(), ", "),
            teachers: join(self.teachers(), ", "),
            groups: join(self.groups(), ", "),
            locations: join(self.locations(), ", "),
            start: clock_string(self.start(), offset),
            end: clock_string(self.end(), offset),
            cancelled: self.cancelled(),
        }
    }

    /// The appointment as one line of the table on a terminal, for a clock
    /// `offset` seconds east of UTC.
    pub fn render(&self, offset: i32) -> (out: String)
        ensures
            shows(row_of(self@, offset as int), out@),
    {
        self.row(offset).paint()
    }
}

/// The table of a day: the row of column labels, then one line for each
/// appointment in the order given.
pub fn table(appointments: &[Appointment], offset: i32) -> (lines: Vec<String>)
    ensures
        lines@.len() == appointments@.len() + 1,
        shows(header_row(), lines@[0]@),
        forall|i: int|
            0 <= i < appointments@.len() ==> shows(
                row_of(#[trigger] appointments@[i]@, offset as int),
                lines@[i + 1]@,
            ),
{
    let mut lines: Vec<String> = Vec::new();
    lines.push(Row::header().paint());
    let mut i: usize = 0;
    while i < appointments.len()
        invariant
            i <= appointments@.len(),
            lines@.len() == i + 1,
            shows(header_row(), lines@[0]@),
            forall|j: int|
                0 <= j < i ==> shows(
                    row_of(#[trigger] appointments@[j]@, offset as int),
                    lines@[j + 1]@,
                ),
        decreases appointments@.len() - i,
    {
        lines.push(appointments[i].render(offset));
        i += 1;
    }
    lines
}

/// Two appointments that differ only in whether they were called off say
/// the same in their lines: their rows hold the same cells and the same plain
/// text. What differs is the treatment: the one called off is shown as the
/// other is, or as that on red; and where the red is written out, its line
/// is the longer one, so the two lines differ.
pub proof fn lemma_cancelling_changes_treatment_only(
    kept: AppointmentView,
    off: AppointmentView,
    offset: int,
)
    requires
        !kept.cancelled,
        off == (AppointmentView { cancelled: true, ..kept }),
    ensures
        row_of(off, offset) == (RowView { cancelled: true, ..row_of(kept, offset) }),
        row_of(off, offset).text() == row_of(kept, offset).text(),
        forall|out: Seq<char>|
            shows(row_of(off, offset), out) <==> exists|line: Seq<char>|
                shows(row_of(kept, offset), line) && #[trigger] reddened(line, out),
        forall|line: Seq<char>, out: Seq<char>|
            shows(row_of(kept, offset), line) && #[trigger] reddened(line, out) ==> out == line
                || (out == ansi_on_red(line) && out.len() > line.len()),
{
    let row_kept = row_of(kept, offset);
    let row_off = row_of(off, offset);
    assert forall|out: Seq<char>| shows(row_off, out) implies exists|line: Seq<char>|
        shows(row_kept, line) && #[trigger] reddened(line, out) by {
        let cells = choose|cells: RowView| #[trigger]
            paints(row_off, cells) && reddened(cells.text(), out);
        let plain = RowView { cancelled: false, ..cells };
        assert(paints(row_kept, plain));
        assert(plain.text() == cells.text());
        assert(shows(row_kept, cells.text()) && reddened(cells.text(), out));
    }
    assert forall|out: Seq<char>|
        (exists|line: Seq<char>| shows(row_kept, line) && #[trigger] reddened(line, out))
            implies shows(row_off, out) by {
        let line = choose|line: Seq<char>| shows(row_kept, line) && #[trigger] reddened(line, out);
        let cells = choose|cells: RowView| #[trigger] paints(row_kept, cells) && line == cells.text();
        let marked = RowView { cancelled: true, ..cells };
        assert(paints(row_off, marked));
        assert(marked.text() == cells.text());
    }
}

/// An empty list makes an empty cell, and the line keeps the separators on
/// both sides of it: with no teachers, the subjects are followed by `" -  - "`
/// and the groups.
pub proof fn lemma_empty_list_is_empty_cell(a: AppointmentView, offset: int)
    ensures
        a.subjects.len() == 0 ==> row_of(a, offset).subjects == Seq::<char>::empty(),
        a.teachers.len() == 0 ==> row_of(a, offset).teachers == Seq::<char>::empty(),
        a.groups.len() == 0 ==> row_of(a, offset).groups == Seq::<char>::empty(),
        a.locations.len() == 0 ==> row_of(a, offset).locations == Seq::<char>::empty(),
        a.teachers.len() == 0 ==> row_of(a, offset).text() == row_of(a, offset).subjects
            + " -  - "@ + row_of(a, offset).groups + " - "@ + row_of(a, offset).locations
            + " - ("@ + row_of(a, offset).start + "-"@ + row_of(a, offset).end + ")"@,
{
    if a.teachers.len() == 0 {
        let row = row_of(a, offset);
        reveal_strlit(" - ");
        reveal_strlit(" -  - ");
        assert(" - "@ + row.teachers + " - "@ =~= " -  - "@);
        let head = row.subjects;
        let tail = row.groups + " - "@ + row.locations + " - ("@ + row.start + "-"@ + row.end
            + ")"@;
        assert(row.text() =~= head + (" - "@ + row.teachers + " - "@) + tail);
        assert(row.subjects + " -  - "@ + row.groups + " - "@ + row.locations + " - ("@ + row.start
            + "-"@ + row.end + ")"@ =~= head + " -  - "@ + tail);
    }
}

} // verus!
