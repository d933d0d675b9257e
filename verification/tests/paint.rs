use colored::control::set_override;
use zermelo::appointment::{Appointment, Record};
use zermelo::render::{table, Row};

// Every test of this file has colored write its colours out, whatever the
// terminal: those that rely on plain output are in another file.

fn lesson(start: i64, subject: &str, cancelled: bool) -> Appointment {
    Appointment::new(Record {
        start,
        end: start + 3000,
        subjects: vec![subject.to_string()],
        teachers: vec!["abc".to_string()],
        groups: vec!["h4a".to_string(), "h4b".to_string()],
        locations: Vec::new(),
        cancelled,
    })
    .unwrap()
}

const LESSON: &str = "\u{1b}[94mwis\u{1b}[0m - \u{1b}[91mabc\u{1b}[0m - \u{1b}[92mh4a, h4b\u{1b}[0m - \u{1b}[93m\u{1b}[0m - (\u{1b}[96m08:30\u{1b}[0m-\u{1b}[95m09:20\u{1b}[0m)";

const HEADER: &str = "\u{1b}[94mSUBJECT(S)\u{1b}[0m - \u{1b}[91mTEACHER(S)\u{1b}[0m - \u{1b}[92mGROUP(S)\u{1b}[0m - \u{1b}[93mLOCATION(S)\u{1b}[0m - (\u{1b}[96mSTART\u{1b}[0m-\u{1b}[95mEND\u{1b}[0m)";

#[test]
fn cells_are_painted_in_their_colours() {
    set_override(true);
    assert_eq!(lesson(1615797000, "wis", false).render(0), LESSON);
    assert_eq!(lesson(1615797000, "wis", false).row(0).paint(), LESSON);
}

#[test]
fn header_is_painted_in_the_colours_of_the_columns() {
    set_override(true);
    assert_eq!(Row::header().paint(), HEADER);
}

#[test]
fn cancelled_line_stands_on_red() {
    set_override(true);
    let kept = lesson(1615797000, "wis", false).render(0);
    let off = lesson(1615797000, "wis", true).render(0);
    assert_ne!(kept, off);
    // colored opens the background, takes it up again after every reset
    // inside the line, and closes it at the end.
    let expected = format!("\u{1b}[41m{}\u{1b}[0m", kept.replace("\u{1b}[0m", "\u{1b}[0m\u{1b}[41m"));
    assert_eq!(off, expected);
}

#[test]
fn colour_makes_a_line_longer() {
    set_override(true);
    let a = lesson(1615797000, "wis", false);
    let plain = a.row(0).text();
    let painted = a.render(0);
    assert!(painted.chars().count() > plain.chars().count());
    let off = lesson(1615797000, "wis", true).render(0);
    assert!(off.chars().count() > painted.chars().count());
    // Also where there is nothing to colour.
    let bare = Row {
        subjects: String::new(),
        teachers: String::new(),
        groups: String::new(),
        locations: String::new(),
        start: String::new(),
        end: String::new(),
        cancelled: true,
    };
    assert!(bare.paint().chars().count() > bare.text().chars().count());
}

#[test]
fn table_has_the_header_and_a_line_for_each_appointment() {
    set_override(true);
    let list = vec![lesson(1615797000, "wis", false), lesson(1615800600, "nat", true)];
    let lines = table(&list, 0);
    assert_eq!(lines.len(), 3);
    assert_eq!(lines[0], HEADER);
    assert_eq!(lines[1], LESSON);
    assert_eq!(lines[2], list[1].render(0));
    assert!(lines[2].starts_with("\u{1b}[41m"));
}

#[test]
fn table_of_no_appointments_is_the_header_alone() {
    set_override(true);
    assert_eq!(table(&Vec::new(), 3600), vec![HEADER.to_string()]);
}
