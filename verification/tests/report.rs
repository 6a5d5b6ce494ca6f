use userdu::aggregate::{EntryKind, RawEntry};
use userdu::format::{SizeFormatter, SizeMode};
use userdu::report::{display_name, report, try_report, UserLine};

fn file(uid: u32, size: u64) -> RawEntry {
    RawEntry { uid, size, kind: EntryKind::File }
}

fn bytes_formatter() -> SizeFormatter {
    SizeFormatter { mode: SizeMode::Bytes, si: false }
}

#[test]
fn two_owners_are_reported_ascending() {
    let entries = vec![file(1001, 2000), file(1000, 500)];
    let lines = report(&entries, &bytes_formatter());
    assert_eq!(lines.len(), 2);
    assert_eq!(lines[0].uid, 1000);
    assert_eq!(lines[0].total, 500);
    assert_eq!(lines[0].formatted, "500");
    assert_eq!(lines[1].uid, 1001);
    assert_eq!(lines[1].total, 2000);
    assert_eq!(lines[1].formatted, "2000");
}

#[test]
fn totals_accumulate_per_owner() {
    let entries = vec![file(7, 100), file(8, 1), file(7, 23), file(7, 1000)];
    let lines = report(&entries, &bytes_formatter());
    assert_eq!(lines.len(), 2);
    assert_eq!((lines[0].uid, lines[0].total), (8, 1));
    assert_eq!((lines[1].uid, lines[1].total), (7, 1123));
}

#[test]
fn report_conserves_the_scanned_bytes() {
    let entries = vec![
        file(1, 10),
        file(2, 20),
        RawEntry { uid: 3, size: 999, kind: EntryKind::Directory },
        file(1, 30),
        file(3, 5),
    ];
    let scanned: u64 = entries
        .iter()
        .filter(|e| e.kind == EntryKind::File)
        .map(|e| e.size)
        .sum();
    let lines = report(&entries, &bytes_formatter());
    let emitted: u64 = lines.iter().map(|l| l.total).sum();
    assert_eq!(emitted, scanned);
    assert_eq!(emitted, 65);
}

#[test]
fn emitted_totals_are_non_decreasing() {
    let entries = vec![
        file(4, 400),
        file(1, 10),
        file(3, 300),
        file(2, 10),
        file(5, 9999),
    ];
    let lines = report(&entries, &bytes_formatter());
    assert_eq!(lines.len(), 5);
    for w in lines.windows(2) {
        assert!(w[0].total <= w[1].total);
    }
    // Out-of-order input really was reordered.
    assert_eq!(lines[0].total, 10);
    assert_eq!(lines[4].total, 9999);
}

#[test]
fn symlinks_and_other_kinds_do_not_contribute() {
    let entries = vec![
        RawEntry { uid: 1000, size: 1500, kind: EntryKind::Symlink },
        RawEntry { uid: 1000, size: 4096, kind: EntryKind::Directory },
        RawEntry { uid: 1000, size: 77, kind: EntryKind::Other },
        // The link target, reached on its own, still counts.
        file(1000, 1500),
    ];
    let lines = report(&entries, &bytes_formatter());
    assert_eq!(lines.len(), 1);
    assert_eq!(lines[0].uid, 1000);
    assert_eq!(lines[0].total, 1500);
}

#[test]
fn only_non_file_entries_means_empty_report() {
    let entries = vec![
        RawEntry { uid: 1000, size: 1500, kind: EntryKind::Symlink },
        RawEntry { uid: 1000, size: 4096, kind: EntryKind::Directory },
    ];
    let lines = report(&entries, &bytes_formatter());
    assert!(lines.is_empty());
}

#[test]
fn empty_tree_means_empty_report() {
    let entries: Vec<RawEntry> = Vec::new();
    let lines = report(&entries, &bytes_formatter());
    assert!(lines.is_empty());
}

#[test]
fn human_mode_formats_the_report_lines() {
    let f = SizeFormatter { mode: SizeMode::Human, si: false };
    let entries = vec![file(1000, 20480)];
    let lines = report(&entries, &f);
    assert_eq!(lines.len(), 1);
    assert_eq!(lines[0].formatted, "20K");
}

#[test]
fn try_report_accepts_what_fits() {
    let entries = vec![file(1, u64::MAX - 1), RawEntry { uid: 1, size: 1, kind: EntryKind::File }];
    let lines = try_report(&entries, &bytes_formatter()).unwrap();
    assert_eq!(lines.len(), 1);
    assert_eq!(lines[0].total, u64::MAX);
}

#[test]
fn try_report_declines_an_overflowing_total() {
    let entries = vec![file(1, u64::MAX), file(2, 1)];
    assert!(try_report(&entries, &bytes_formatter()).is_none());
}

#[test]
fn display_name_prefers_the_looked_up_name() {
    assert_eq!(display_name(1000, Some("alice".to_string())), "alice");
    assert_eq!(display_name(1000, None), "1000");
    assert_eq!(display_name(0, None), "0");
    assert_eq!(display_name(u32::MAX, None), "4294967295");
}

#[test]
fn a_line_renders_as_size_tab_name() {
    let line = UserLine {
        uid: 1000,
        total: 1500,
        formatted: "1500".to_string(),
        name: "alice".to_string(),
    };
    assert_eq!(line.render(), "1500\talice");
}

#[test]
fn report_names_fall_back_to_the_decimal_uid() {
    // A UID the host's user database cannot hold a name for.
    let entries = vec![file(u32::MAX - 2, 42)];
    let lines = report(&entries, &bytes_formatter());
    assert_eq!(lines.len(), 1);
    assert_eq!(lines[0].name, (u32::MAX - 2).to_string());
}
