use dither_batch::messages::{decimal_string, status_message, summary_message};
use dither_batch::text::file_name_of;

#[test]
fn decimal_rendering() {
    assert_eq!(decimal_string(0), "0");
    assert_eq!(decimal_string(7), "7");
    assert_eq!(decimal_string(10), "10");
    assert_eq!(decimal_string(12345), "12345");
    assert_eq!(decimal_string(u64::MAX), "18446744073709551615");
}

#[test]
fn status_line() {
    assert_eq!(status_message("x.png"), "Processing: x.png");
    assert_eq!(status_message(""), "Processing: ");
}

#[test]
fn summary_line() {
    assert_eq!(summary_message(7, 2), "Done! Processed 7 files in 0.02s");
    assert_eq!(summary_message(11, 123), "Done! Processed 11 files in 1.23s");
    assert_eq!(summary_message(1, 60000), "Done! Processed 1 files in 600.00s");
}

#[test]
fn file_name_component() {
    assert_eq!(file_name_of("a/b/c.png"), "c.png");
    assert_eq!(file_name_of("c.png"), "c.png");
    assert_eq!(file_name_of("dir/"), "");
    assert_eq!(file_name_of(""), "");
}
