use sphinx_ultra::render::render_page;
use sphinx_ultra::text::{split_lines_str, trim_str};
use sphinx_ultra::utils::{
    count_cross_references, count_occurrences, format_duration, format_duration_parts, is_source_file,
};
use std::time::Duration;

#[test]
fn source_files_by_extension() {
    assert!(is_source_file("docs/index.rst"));
    assert!(is_source_file("README.md"));
    assert!(is_source_file("notes.txt"));
    assert!(!is_source_file("conf.py"));
    assert!(!is_source_file("Makefile"));
    assert!(!is_source_file(".rst"));
}

#[test]
fn cross_references_are_counted_per_marker() {
    let text = "See :doc:`a` and :ref:`b`.\n.. _label:\n:py:func:`f` and `~x`";
    // :doc:` 1, :ref:` 1, .. _ 1, :py: 1, `~ 1 (":func:`" is preceded by "py" here and also counts)
    assert_eq!(count_cross_references(text), 6);
    assert_eq!(count_cross_references(""), 0);
}

#[test]
fn occurrences_do_not_overlap() {
    assert_eq!(count_occurrences("aaaa", "aa"), 2);
    assert_eq!(count_occurrences("abcabc", "bc"), 2);
    assert_eq!(count_occurrences("ab", "abc"), 0);
}

#[test]
fn trimming_and_line_splitting() {
    assert_eq!(trim_str("  a b \t\r\n"), "a b");
    assert_eq!(trim_str("   "), "");
    assert_eq!(split_lines_str("a\nb\n"), vec!["a".to_string(), "b".to_string(), String::new()]);
    assert_eq!(split_lines_str(""), vec![String::new()]);
}

#[test]
fn page_escapes_markup_characters() {
    assert_eq!(render_page("a < b && c > d"), "<html><body>a &lt; b &amp;&amp; c &gt; d</body></html>");
    assert_eq!(render_page(""), "<html><body></body></html>");
}

#[test]
fn durations_read_in_seconds_or_milliseconds() {
    assert_eq!(format_duration(Duration::from_millis(1234)), "1.234s");
    assert_eq!(format_duration(Duration::from_millis(56)), "56ms");
    assert_eq!(format_duration(Duration::from_millis(12005)), "12.005s");
    assert_eq!(format_duration(Duration::from_millis(0)), "0ms");
    assert_eq!(format_duration_parts(3, 40), "3.040s");
}
