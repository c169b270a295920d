use monsoon::binary64::Real64;
use monsoon::display::{
    align, display_width, format_bytes, format_rate, format_state, format_timestamp,
    notification_body, pad, progress_bar, truncate_to_width,
};
use monsoon::integers::parse_u64;
use monsoon::text::{decimal_i64, decimal_u64};

#[test]
fn byte_counts_are_written_by_bytesize() {
    assert_eq!(format_bytes(0), bytesize::to_string(0, true));
    assert_eq!(format_bytes(1536), "1.5 kiB");
    assert_eq!(format_rate(0), "0 B/s");
    assert_eq!(format_rate(1536), "1.5 kiB/s");
    assert_eq!(format_bytes(-1), bytesize::to_string(u64::MAX, true));
}

#[test]
fn times_are_written_by_chrono() {
    assert_eq!(format_timestamp(0), "N/A");
    assert_eq!(format_timestamp(86400), "1970-01-02 00:00:00");
    assert_eq!(format_timestamp(i64::MAX), "N/A");
}

#[test]
fn texts_are_cut_by_cells() {
    assert_eq!(display_width("abc"), 3);
    assert_eq!(display_width("\u{65e5}\u{672c}"), 4);
    assert_eq!(truncate_to_width("abcdef", 4), "abc\u{2026}");
    assert_eq!(truncate_to_width("abcd", 4), "abcd");
    assert_eq!(truncate_to_width("\u{65e5}\u{672c}\u{8a9e}", 4), "\u{65e5}\u{2026}");
    assert_eq!(truncate_to_width("e\u{301}", 1), "e\u{301}");
}

#[test]
fn padding_reaches_the_width() {
    assert_eq!(pad("ab", 4), format!("{:4}", "ab"));
    assert_eq!(align("ab", 4), format!("{:>4}", "ab"));
    assert_eq!(pad("abcdef", 4), "abcdef");
}

#[test]
fn bars_are_filled_from_the_left() {
    assert_eq!(progress_bar("50.0", 2, 4), "50.0% [\u{2588}\u{2588}\u{2591}\u{2591}]");
}

#[test]
fn states_have_short_codes() {
    assert_eq!(format_state("downloading"), "DL");
    assert_eq!(format_state("seeding"), "SE");
    assert_eq!(format_state("unheard"), "un");
}

#[test]
fn notifications_name_the_torrent() {
    let body = notification_body("linux.iso", 1536);
    assert_eq!(body, "linux.iso (1.5 KB)");
}

#[test]
fn numbers_are_written_as_the_system_does() {
    for n in [0u64, 7, 10, 999, 65535, u64::MAX] {
        assert_eq!(decimal_u64(n), n.to_string());
    }
    for n in [0i64, -1, 42, i64::MIN, i64::MAX] {
        assert_eq!(decimal_i64(n), n.to_string());
    }
}

#[test]
fn numbers_are_read_as_the_system_does() {
    for text in
        ["", "0", "+7", "-7", "007", "18446744073709551615", "18446744073709551616", "1 ", "x"]
    {
        assert_eq!(parse_u64(text), text.parse::<u64>().ok(), "{:?}", text);
    }
}

#[test]
fn doubles_compare_as_the_system_does() {
    let samples = [0.0f64, -0.0, 1.5, -1.5, f64::INFINITY, f64::NEG_INFINITY, f64::NAN, 1e-310];
    for a in samples {
        let x = Real64 { bits: a.to_bits() };
        assert_eq!(x.is_negative(), a < 0.0, "{}", a);
        assert_eq!(x.is_positive(), a > 0.0, "{}", a);
        for b in samples {
            let y = Real64 { bits: b.to_bits() };
            assert_eq!(x.at_least(y), a >= b, "{} {}", a, b);
        }
    }
}
