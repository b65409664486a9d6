use abi_yt_downloader::progress::{
    eta_fits, parse_eta, parse_progress_line, parse_speed, progress_line_fits, speed_fits,
    DownloadProgress, SpeedReading,
};

fn last() -> DownloadProgress {
    DownloadProgress {
        id: "dl-1".to_string(),
        downloaded_bytes: 7,
        total_bytes: 9,
        speed: 3,
        progress_bits: 0,
        eta_seconds: 4,
    }
}

#[test]
fn eta_not_available_is_zero() {
    assert_eq!(parse_eta("N/A"), 0);
    assert_eq!(parse_eta("  N/A  "), 0);
    assert_eq!(parse_eta(""), 0);
    assert_eq!(parse_eta("   "), 0);
}

#[test]
fn eta_seconds_minutes_hours() {
    assert_eq!(parse_eta("45"), 45);
    assert_eq!(parse_eta("01:30"), 90);
    assert_eq!(parse_eta("1:02:03"), 3723);
    assert_eq!(parse_eta(" 10:00 "), 600);
    assert_eq!(parse_eta("+5"), 5);
}

#[test]
fn eta_unparsable_parts_count_as_zero() {
    assert_eq!(parse_eta("abc"), 0);
    assert_eq!(parse_eta("1: 2"), 60);
    assert_eq!(parse_eta("x:30"), 30);
    assert_eq!(parse_eta("1:2:3:4"), 0);
    assert_eq!(parse_eta("-5"), 0);
}

#[test]
fn eta_overflow_is_detected() {
    assert!(eta_fits("18446744073709551615"));
    assert!(!eta_fits("18446744073709551615:00"));
    assert!(eta_fits("10:00:00"));
}

#[test]
fn speed_plain_and_kib() {
    assert!(matches!(parse_speed("1024"), SpeedReading::Exact(1024)));
    assert!(matches!(parse_speed("512KiB/s"), SpeedReading::Exact(524288)));
    assert!(matches!(parse_speed(" 2 KiB/s "), SpeedReading::Exact(2048)));
    assert!(matches!(parse_speed("512.00KiB/s"), SpeedReading::Exact(0)));
    assert!(matches!(parse_speed("N/A"), SpeedReading::Exact(0)));
}

#[test]
fn speed_mib_and_gib_keep_their_text() {
    match parse_speed("1.50MiB/s") {
        SpeedReading::Mebibytes(t) => assert_eq!(t, "1.50"),
        _ => panic!("expected MiB"),
    }
    match parse_speed(" 2GiB/s") {
        SpeedReading::Gibibytes(t) => assert_eq!(t, "2"),
        _ => panic!("expected GiB"),
    }
}

#[test]
fn speed_overflow_is_detected() {
    assert!(speed_fits("100KiB/s"));
    assert!(!speed_fits("18446744073709551615KiB/s"));
    assert!(speed_fits("18446744073709551615"));
}

#[test]
fn progress_line_all_fields() {
    let p = parse_progress_line("  45.3%|1.50MiB/s|00:10|1000|5000", &last()).unwrap();
    assert_eq!(p.id, "dl-1");
    assert_eq!(p.percent_text, "45.3");
    match p.speed {
        SpeedReading::Mebibytes(t) => assert_eq!(t, "1.50"),
        _ => panic!("expected MiB"),
    }
    assert_eq!(p.eta_seconds, 10);
    assert_eq!(p.downloaded_bytes, 1000);
    assert_eq!(p.total_bytes, 5000);
}

#[test]
fn progress_line_unparsable_counts_keep_last() {
    let p = parse_progress_line("12%%|N/A|N/A|NA|NA", &last()).unwrap();
    assert_eq!(p.percent_text, "12");
    assert!(matches!(p.speed, SpeedReading::Exact(0)));
    assert_eq!(p.eta_seconds, 0);
    assert_eq!(p.downloaded_bytes, 7);
    assert_eq!(p.total_bytes, 9);
}

#[test]
fn progress_line_too_few_fields() {
    assert!(parse_progress_line("45%|1KiB/s|00:10|1000", &last()).is_none());
    assert!(parse_progress_line("[download] Destination: x.mp4", &last()).is_none());
    let p = parse_progress_line("1|2|3|4|5|6", &last()).unwrap();
    assert_eq!(p.total_bytes, 5);
}

#[test]
fn progress_line_fit_check() {
    assert!(progress_line_fits("1%|1KiB/s|1|1|1"));
    assert!(progress_line_fits("not a progress line"));
    assert!(!progress_line_fits("1%|18446744073709551615KiB/s|1|1|1"));
    assert!(!progress_line_fits("1%|1KiB/s|18446744073709551615:1|1|1"));
}
