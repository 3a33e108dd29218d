use rget::human::format_bytes;
use rget::report::{length_line, saving_line, status_line, type_line};

#[test]
fn zero_bytes() {
    assert_eq!(format_bytes(0), "0.00 B");
}

#[test]
fn one_kilobyte() {
    assert_eq!(format_bytes(1024), "1.00 KB");
}

#[test]
fn one_and_a_half_kilobytes() {
    assert_eq!(format_bytes(1536), "1.50 KB");
}

#[test]
fn one_terabyte() {
    assert_eq!(format_bytes(1024u64.pow(4)), "1.00 TB");
}

#[test]
fn beyond_a_terabyte_stays_in_tb() {
    assert_eq!(format_bytes(1024u64.pow(4) * 5 / 2), "2.50 TB");
    assert_eq!(format_bytes(u64::MAX), "16777216.00 TB");
}

#[test]
fn below_one_kilobyte_stays_in_bytes() {
    assert_eq!(format_bytes(1), "1.00 B");
    assert_eq!(format_bytes(1023), "1023.00 B");
}

#[test]
fn megabytes_and_gigabytes() {
    assert_eq!(format_bytes(1024 * 1024), "1.00 MB");
    assert_eq!(format_bytes(1024 * 1024 * 1024), "1.00 GB");
    assert_eq!(format_bytes(9900), "9.67 KB");
}

#[test]
fn console_lines() {
    assert_eq!(status_line("200 OK"), "HTTP request sent... 200 OK");
    assert_eq!(length_line(Some(9900)), "Length: 9900 (9.67 KB)");
    assert_eq!(length_line(Some(0)), "Length: 0 (0.00 B)");
    assert_eq!(length_line(None), "Length: unknown");
    assert_eq!(type_line("text/plain"), "Type: text/plain");
    assert_eq!(type_line("unknown"), "Type: unknown");
    assert_eq!(saving_line("file.txt"), "Saving to: file.txt");
}
