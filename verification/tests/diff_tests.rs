use vibesnap::diff::{
    choose_diff_view, parse_friendly_diff, render_initial_version, render_snapshot_view,
    render_unmodified, DiffView, LineKind,
};

#[test]
fn three_added_lines_numbered_and_summarized() {
    let fd = parse_friendly_diff("+alpha\n+beta\n+gamma");
    assert_eq!(fd.summary.as_deref(), Some("3 lines added"));
    assert_eq!(fd.lines.len(), 3);
    assert_eq!(fd.lines[0].content, "alpha".to_string());
    assert_eq!(fd.lines[1].content, "beta".to_string());
    assert_eq!(fd.lines[2].content, "gamma".to_string());
    for (i, line) in fd.lines.iter().enumerate() {
        assert_eq!(line.kind, LineKind::Added);
        assert_eq!(line.number, Some(i + 1));
    }
}

#[test]
fn large_addition_branch_selected() {
    let fd = parse_friendly_diff("+1\n+2\n+3\n+4\n+5\n+6\n-old");
    assert_eq!(fd.summary.as_deref(), Some("large addition"));
}

#[test]
fn large_deletion_branch_selected() {
    let fd = parse_friendly_diff("-1\n-2\n-3\n-4\n-5\n-6");
    assert_eq!(fd.summary.as_deref(), Some("large deletion"));
}

#[test]
fn mixed_change_summary_counts() {
    let fd = parse_friendly_diff("+new one\n+new two\n-old one");
    assert_eq!(fd.summary.as_deref(), Some("mixed change, 2 added / 1 removed"));
}

#[test]
fn removed_only_summary() {
    let fd = parse_friendly_diff("-gone\n-also gone");
    assert_eq!(fd.summary.as_deref(), Some("2 lines removed"));
    assert_eq!(fd.lines.len(), 2);
    assert_eq!(fd.lines[0].kind, LineKind::Removed);
    assert_eq!(fd.lines[0].number, None);
    assert_eq!(fd.lines[1].number, None);
}

#[test]
fn empty_diff_reports_no_content_change() {
    let fd = parse_friendly_diff("");
    assert_eq!(fd.summary.as_deref(), Some("no content change"));
    assert!(fd.lines.is_empty());
}

#[test]
fn header_lines_are_stripped() {
    let raw = "diff --git a/f.txt b/f.txt\nindex 0123456..89abcde 100644\n--- a/f.txt\n+++ b/f.txt\n@@ -1,2 +1,2 @@\n context\n-old line\n+new line";
    let fd = parse_friendly_diff(raw);
    assert_eq!(fd.lines.len(), 3);
    assert_eq!(fd.lines[0].content, " context".to_string());
    assert_eq!(fd.lines[0].kind, LineKind::Unchanged);
    assert_eq!(fd.lines[0].number, Some(1));
    assert_eq!(fd.lines[1].content, "old line".to_string());
    assert_eq!(fd.lines[1].kind, LineKind::Removed);
    assert_eq!(fd.lines[1].number, None);
    assert_eq!(fd.lines[2].content, "new line".to_string());
    assert_eq!(fd.lines[2].kind, LineKind::Added);
    assert_eq!(fd.lines[2].number, Some(2));
}

#[test]
fn blank_lines_are_dropped() {
    let fd = parse_friendly_diff("+kept\n\n context\n");
    assert_eq!(fd.lines.len(), 2);
    assert_eq!(fd.lines[0].content, "kept".to_string());
    assert_eq!(fd.lines[1].content, " context".to_string());
}

#[test]
fn round_trip_single_change_amid_context() {
    let raw = "diff --git a/f b/f\nindex 111..222 100644\n--- a/f\n+++ b/f\n@@ -1,3 +1,3 @@\n before\n-Y\n+X\n after";
    let fd = parse_friendly_diff(raw);
    let added: Vec<&str> = fd
        .lines
        .iter()
        .filter(|l| l.kind == LineKind::Added)
        .map(|l| l.content.as_str())
        .collect();
    let removed: Vec<&str> = fd
        .lines
        .iter()
        .filter(|l| l.kind == LineKind::Removed)
        .map(|l| l.content.as_str())
        .collect();
    assert_eq!(added, vec!["X"]);
    assert_eq!(removed, vec!["Y"]);
}

#[test]
fn unmodified_view_numbers_all_lines() {
    let fd = render_unmodified("one\ntwo\nthree\nfour");
    assert_eq!(fd.summary.as_deref(), Some("no modification"));
    assert_eq!(fd.lines.len(), 4);
    for (i, line) in fd.lines.iter().enumerate() {
        assert_eq!(line.kind, LineKind::Unchanged);
        assert_eq!(line.number, Some(i + 1));
    }
    assert_eq!(fd.lines[3].content, "four".to_string());
}

#[test]
fn initial_version_view_marks_everything_added() {
    let fd = render_initial_version("fn main() {}\n");
    assert_eq!(fd.summary.as_deref(), Some("initial version, 1 lines"));
    assert_eq!(fd.lines.len(), 1);
    assert_eq!(fd.lines[0].kind, LineKind::Added);
    assert_eq!(fd.lines[0].number, Some(1));
    assert_eq!(fd.lines[0].content, "fn main() {}".to_string());
}

#[test]
fn empty_file_initial_version() {
    let fd = render_initial_version("");
    assert_eq!(fd.summary.as_deref(), Some("initial version, 0 lines"));
    assert!(fd.lines.is_empty());
}

#[test]
fn diff_view_choice() {
    assert_eq!(choose_diff_view(false, "+x"), DiffView::InitialVersion);
    assert_eq!(choose_diff_view(true, "   \n  "), DiffView::Unmodified);
    assert_eq!(choose_diff_view(true, "+x"), DiffView::Changed);
}

#[test]
fn snapshot_view_dispatches_on_parent_and_diff() {
    let initial = render_snapshot_view(false, "", "a\nb");
    assert_eq!(initial.summary.as_deref(), Some("initial version, 2 lines"));
    let unmodified = render_snapshot_view(true, "  ", "a\nb");
    assert_eq!(unmodified.summary.as_deref(), Some("no modification"));
    let changed = render_snapshot_view(true, "+a", "ignored");
    assert_eq!(changed.summary.as_deref(), Some("1 lines added"));
}

#[test]
fn crlf_lines_are_cleaned() {
    let fd = parse_friendly_diff("+first\r\n+second\r\n");
    assert_eq!(fd.lines.len(), 2);
    assert_eq!(fd.lines[0].content, "first".to_string());
    assert_eq!(fd.lines[1].content, "second".to_string());
}
