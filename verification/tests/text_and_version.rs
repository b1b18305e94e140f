use wsup::text::{formatMemory, truncateWithEllipsis, to_decimal};
use wsup::version::{isNewer, updateAvailable};

#[test]
fn format_memory_kibibytes_below_one_mebibyte() {
    assert_eq!(formatMemory(0), "0K");
    assert_eq!(formatMemory(1023), "0K");
    assert_eq!(formatMemory(2048), "2K");
    assert_eq!(formatMemory(1048575), "1023K");
}

#[test]
fn format_memory_mebibytes() {
    assert_eq!(formatMemory(1048576), "1M");
    assert_eq!(formatMemory(3 * 1048576 + 5000), "3M");
    assert_eq!(formatMemory(u64::MAX), "17592186044415M");
}

#[test]
fn decimal_rendering_matches_to_string() {
    for n in [0u64, 7, 10, 99, 100, 65535, 4294967295, u64::MAX] {
        assert_eq!(to_decimal(n), n.to_string());
    }
}

#[test]
fn truncate_keeps_short_text() {
    assert_eq!(truncateWithEllipsis("hello", 10), "hello");
    assert_eq!(truncateWithEllipsis("hello", 5), "hello");
}

#[test]
fn truncate_edge_widths() {
    assert_eq!(truncateWithEllipsis("hello", 0), "");
    assert_eq!(truncateWithEllipsis("hello", 1), "\u{2026}");
    assert_eq!(truncateWithEllipsis("", 0), "");
}

#[test]
fn truncate_shortens_with_ellipsis() {
    assert_eq!(truncateWithEllipsis("hello", 4), "hel\u{2026}");
    assert_eq!(truncateWithEllipsis("h\u{e9}llo w\u{f6}rld", 6), "h\u{e9}llo\u{2026}");
    assert_eq!(truncateWithEllipsis("h\u{e9}llo w\u{f6}rld", 6).chars().count(), 6);
}

#[test]
fn newer_versions_compare_by_parts() {
    assert!(isNewer("1.2.4", "1.2.3"));
    assert!(isNewer("2.0.0", "1.9.9"));
    assert!(isNewer("1.10.0", "1.9.0"));
    assert!(isNewer("0.1.0", "0.0.99"));
    assert!(!isNewer("1.2.3", "1.2.3"));
    assert!(!isNewer("1.2.3", "1.2.4"));
}

#[test]
fn malformed_versions_are_never_newer() {
    assert!(!isNewer("1.2", "1.0.0"));
    assert!(!isNewer("1.2.3.4", "1.0.0"));
    assert!(!isNewer("a.b.c", "1.0.0"));
    assert!(!isNewer("2.0.0", "1.0"));
    assert!(!isNewer("1.0.-1", "0.0.0"));
    assert!(!isNewer("4294967296.0.0", "1.0.0"));
    assert!(!isNewer("", ""));
}

#[test]
fn version_parts_parse_like_u32() {
    assert!(isNewer("+1.0.0", "0.9.9"));
    assert!(isNewer("01.0.0", "0.9.9"));
    assert!(isNewer("4294967295.0.0", "1.0.0"));
    assert!(!isNewer("+.0.0", "0.0.0"));
}

#[test]
fn newer_is_a_strict_order_on_examples() {
    let vs = ["0.0.1", "0.1.0", "1.0.0", "1.0.1", "1.1.0", "2.0.0"];
    for (i, a) in vs.iter().enumerate() {
        assert!(!isNewer(a, a));
        for (j, b) in vs.iter().enumerate() {
            assert_eq!(isNewer(a, b), i > j);
        }
    }
}

#[test]
fn update_offered_only_for_newer_release() {
    assert_eq!(updateAvailable("1.2.4", "1.2.3"), Some("1.2.4".to_string()));
    assert_eq!(updateAvailable("1.2.3", "1.2.3"), None);
    assert_eq!(updateAvailable("1.1.9", "1.2.3"), None);
    assert_eq!(updateAvailable("2.0", "1.2.3"), None);
}
