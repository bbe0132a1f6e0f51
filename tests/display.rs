use steam_size::display::size_display;

#[test]
fn one_tebibyte() {
    assert_eq!(size_display(1_024_000_000), "1.00 TB");
}

#[test]
fn gibibytes_rounded_to_hundredths() {
    assert_eq!(size_display(512_345_000), "512.35 GB");
}

#[test]
fn zero_total() {
    assert_eq!(size_display(0), "0.00 GB");
}

#[test]
fn halves_round_up() {
    assert_eq!(size_display(5_000), "0.01 GB");
    assert_eq!(size_display(4_999), "0.00 GB");
}

#[test]
fn just_below_one_tebibyte() {
    assert_eq!(size_display(1_023_990_000), "1023.99 GB");
}

#[test]
fn tebibytes_rounded() {
    assert_eq!(size_display(2_048_000_000), "2.00 TB");
    assert_eq!(size_display(1_536_000_000), "1.50 TB");
    assert_eq!(size_display(10_250_240_000), "10.01 TB");
}

#[test]
fn largest_total_does_not_overflow() {
    let text = size_display(u128::MAX);
    assert!(text.ends_with(" TB"));
}
