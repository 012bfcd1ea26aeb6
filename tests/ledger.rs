use ruso::ledger::{distinct_paths, ledger_header, lines_to_append, parse_space, plan_cleanup, record_path, total_space, trim_text};

fn strings(v: &[&str]) -> Vec<String> {
    v.iter().map(|s| s.to_string()).collect()
}

#[test]
fn record_strips_comments() {
    assert_eq!(record_path("/a/b.osu // made today"), "/a/b.osu");
    assert_eq!(record_path("  /a/b.osu\t//x"), "/a/b.osu");
    assert_eq!(record_path("// Files generated by ruso"), "");
    assert_eq!(record_path(" /a/b.osu "), " /a/b.osu ");
    assert_eq!(record_path("/a/b.osu"), "/a/b.osu");
    assert_eq!(record_path("/"), "/");
}

#[test]
fn trims_unicode_space() {
    assert_eq!(trim_text("\u{3000} a b \n"), "a b");
    assert_eq!(trim_text("   "), "");
}

#[test]
fn cleanup_keeps_what_it_may_not_delete() {
    let mut lines = ledger_header();
    lines.extend(strings(&["/songs/m/a(1.5).osu", "/other/b(1.5).osu", "/songs/m/gone(1.5).mp3", "/songs/m/c(2).osu // note"]));
    let exists = vec![false, false, false, true, true, false, true];
    let plan = plan_cleanup(&lines, &exists, "/songs");
    assert_eq!(plan.removed, strings(&["/songs/m/a(1.5).osu", "/songs/m/c(2).osu"]));
    assert_eq!(plan.removed.len(), 2);
    let mut kept = ledger_header();
    kept.extend(strings(&["/other/b(1.5).osu", "/songs/m/gone(1.5).mp3"]));
    assert_eq!(plan.kept, kept);
}

#[test]
fn cleanup_with_empty_root_deletes_nothing() {
    let lines = strings(&["/songs/a.osu"]);
    let plan = plan_cleanup(&lines, &vec![true], "");
    assert!(plan.removed.is_empty());
    assert_eq!(plan.kept, lines);
}

#[test]
fn new_ledger_starts_with_header() {
    let header = ledger_header();
    assert_eq!(header.len(), 3);
    assert!(header.iter().all(|l| l.starts_with("//")));
    let lines = lines_to_append(true, &strings(&["/a.osu", "/a.mp3"]));
    assert_eq!(lines.len(), 5);
    assert_eq!(&lines[..3], &header[..]);
    assert_eq!(&lines[3..], &strings(&["/a.osu", "/a.mp3"])[..]);
    assert_eq!(lines_to_append(false, &strings(&["/a.osu"])), strings(&["/a.osu"]));
}

#[test]
fn distinct_paths_dedupe() {
    let lines = strings(&["// c", "/a.osu", "/b.mp3", "/a.osu // again", "/b.mp3"]);
    assert_eq!(distinct_paths(&lines), strings(&["", "/a.osu", "/b.mp3"]));
}

#[test]
fn space_totals_known_sizes() {
    assert_eq!(total_space(&vec![Some(10), None, Some(5)]), 15);
    assert_eq!(total_space(&vec![]), 0);
    assert_eq!(total_space(&vec![Some(u64::MAX), Some(u64::MAX)]), 2 * u64::MAX as u128);
}

#[test]
fn space_cache_parses() {
    assert_eq!(parse_space("1234"), Some(1234));
    assert_eq!(parse_space("+5"), Some(5));
    assert_eq!(parse_space(""), None);
    assert_eq!(parse_space("12a"), None);
    assert_eq!(parse_space(" 12"), None);
}

#[test]
fn cleanup_deletes_a_listed_twice_file_once() {
    let lines = strings(&["/songs/a(1.5).osu", "/songs/b(1.5).mp3", "/songs/a(1.5).osu // again"]);
    let plan = plan_cleanup(&lines, &vec![true, true, true], "/songs");
    assert_eq!(plan.removed, strings(&["/songs/a(1.5).osu", "/songs/b(1.5).mp3"]));
    assert_eq!(plan.kept, strings(&["/songs/a(1.5).osu // again"]));
}

#[test]
fn space_total_reads_back() {
    for n in [0u128, 7, 1234, u64::MAX as u128 * 3, u128::MAX] {
        assert_eq!(parse_space(&ruso::text::decimal_text(n)), Some(n));
    }
}
