use download_runner::progress::{parse_progress, Progress, WHOLE};

fn parts(line: &str) -> Option<u32> {
    parse_progress(line).map(|p| p.parts_per_million())
}

fn fraction(line: &str) -> Option<f64> {
    parts(line).map(|n| n as f64 / WHOLE as f64)
}

#[test]
fn reads_a_percentage_with_a_fraction() {
    assert_eq!(fraction("[download]  42.0% of 10.00MiB"), Some(0.42));
    assert_eq!(parts("[download]  42.0% of 10.00MiB"), Some(420_000));
}

#[test]
fn reads_a_whole_percentage() {
    assert_eq!(fraction("[download] 100% of 10.00MiB"), Some(1.0));
    assert_eq!(parts("[download] 100% of 10.00MiB"), Some(1_000_000));
}

#[test]
fn a_line_without_percent_reports_nothing() {
    assert_eq!(parts("Merging formats..."), None);
    assert_eq!(parts(""), None);
    assert_eq!(parts("   "), None);
}

#[test]
fn reads_a_percentage_at_the_end_of_the_line() {
    assert_eq!(fraction("  7.3%"), Some(0.073));
    assert_eq!(parts("  7.3%"), Some(73_000));
}

#[test]
fn two_digits_and_a_tenth_give_a_hundredth_of_the_number() {
    assert_eq!(parts("[download]  00.0% of x"), Some(0));
    assert_eq!(parts("[download]  09.9% of x"), Some(99_000));
    assert_eq!(parts("[download]  50.5% of x"), Some(505_000));
    assert_eq!(parts("[download]  99.9% of x"), Some(999_000));
}

#[test]
fn a_word_that_is_no_number_reports_nothing() {
    assert_eq!(parts("speed up%"), None);
    assert_eq!(parts("[download] abc% done"), None);
    assert_eq!(parts("[download] 4x2% done"), None);
    assert_eq!(parts("[download] 1.2.3% done"), None);
    assert_eq!(parts("[download] .% done"), None);
    assert_eq!(parts("[download] +5% done"), None);
    assert_eq!(parts("[download] -5% done"), None);
    assert_eq!(parts("[download] 1e1% done"), None);
    assert_eq!(parts("[download] inf% done"), None);
}

#[test]
fn a_percent_sign_without_white_space_before_it_reports_nothing() {
    assert_eq!(parts("100%abc"), None);
    assert_eq!(parts("100%"), None);
    assert_eq!(parts("%"), None);
}

#[test]
fn a_percent_sign_right_after_white_space_reports_nothing() {
    assert_eq!(parts("50 %"), None);
    assert_eq!(parts(" %"), None);
}

#[test]
fn the_last_percent_sign_counts() {
    assert_eq!(parts("[download] 10.0% of 20.0%"), Some(200_000));
    assert_eq!(parts("[download] 10.0% of file%"), None);
    assert_eq!(parts("[download] 10.0% 5%x%"), None);
}

#[test]
fn any_white_space_starts_the_word() {
    assert_eq!(parts("a\t42%"), Some(420_000));
    assert_eq!(parts("a\u{a0}42%"), Some(420_000));
    assert_eq!(parts("a\u{3000}42%"), Some(420_000));
    assert_eq!(parts("\r 42%"), Some(420_000));
    assert_eq!(parts("a b\t42%"), Some(420_000));
}

#[test]
fn text_that_is_not_white_space_stays_in_the_word() {
    assert_eq!(parts("a é42%"), None);
    assert_eq!(parts("é 42% ✅"), Some(420_000));
}

#[test]
fn a_decimal_point_may_stand_at_either_end() {
    assert_eq!(parts(" .5%"), Some(5_000));
    assert_eq!(parts(" 5.%"), Some(50_000));
    assert_eq!(parts(" 5%"), Some(50_000));
    assert_eq!(parts(" 0%"), Some(0));
    assert_eq!(parts(" 007%"), Some(70_000));
}

#[test]
fn digits_beyond_a_millionth_are_dropped() {
    assert_eq!(parts(" 12.3456%"), Some(123_456));
    assert_eq!(parts(" 12.34567%"), Some(123_456));
    assert_eq!(parts(" 12.34569999%"), Some(123_456));
    assert_eq!(parts(" 0.00009%"), Some(0));
    assert_eq!(parts(" 0.00000000000000000000000000001%"), Some(0));
}

#[test]
fn more_than_a_hundred_percent_is_a_whole() {
    assert_eq!(parts(" 100.0001%"), Some(1_000_000));
    assert_eq!(parts(" 150%"), Some(1_000_000));
    assert_eq!(parts(" 4294967296%"), Some(1_000_000));
    assert_eq!(parts(" 99999999999999999999999999999999999999%"), Some(1_000_000));
    assert_eq!(parts(" 99.9999%"), Some(999_999));
}

#[test]
fn progress_from_parts_is_capped() {
    assert_eq!(Progress::from_parts(0).parts_per_million(), 0);
    assert_eq!(Progress::from_parts(1).parts_per_million(), 1);
    assert_eq!(Progress::from_parts(1_000_000).parts_per_million(), 1_000_000);
    assert_eq!(Progress::from_parts(1_000_001).parts_per_million(), 1_000_000);
    assert_eq!(Progress::from_parts(u32::MAX).parts_per_million(), 1_000_000);
    assert_eq!(Progress::zero().parts_per_million(), 0);
    assert_eq!(Progress::complete().parts_per_million(), WHOLE);
    assert_eq!(Progress::zero(), Progress::from_parts(0));
}

#[test]
fn percent_rounds_to_the_nearest_and_a_half_to_even() {
    assert_eq!(Progress::from_parts(0).percent(), 0);
    assert_eq!(Progress::from_parts(4_999).percent(), 0);
    assert_eq!(Progress::from_parts(5_000).percent(), 0);
    assert_eq!(Progress::from_parts(5_001).percent(), 1);
    assert_eq!(Progress::from_parts(15_000).percent(), 2);
    assert_eq!(Progress::from_parts(25_000).percent(), 2);
    assert_eq!(Progress::from_parts(424_999).percent(), 42);
    assert_eq!(Progress::from_parts(425_000).percent(), 42);
    assert_eq!(Progress::from_parts(425_001).percent(), 43);
    assert_eq!(Progress::from_parts(435_000).percent(), 44);
    assert_eq!(Progress::from_parts(995_000).percent(), 100);
    assert_eq!(Progress::from_parts(1_000_000).percent(), 100);
}

#[test]
fn every_reported_progress_is_within_the_whole() {
    let lines = [
        " 0%",
        " 33.3333%",
        " 100%",
        " 100.1%",
        " 1000000%",
        " 99.99999%",
    ];
    for line in lines {
        let p = parse_progress(line).unwrap();
        assert!(p.parts_per_million() <= WHOLE);
        let f = p.parts_per_million() as f64 / WHOLE as f64;
        assert!((0.0..=1.0).contains(&f));
    }
}
