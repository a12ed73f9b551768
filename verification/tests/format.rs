//! The value-formatting contracts on concrete readings.

use sensor_display::{format_fixed4, format_padded4, format_scaled};

#[test]
fn scaled_temperature_divides_by_eight() {
    let line = format_scaled("T:", 200, 8, "C").unwrap();
    assert_eq!(line.text(), "T:25C");
}

#[test]
fn scaled_humidity_divides_by_two_truncating() {
    let line = format_scaled("H: ", 131, 2, "%").unwrap();
    assert_eq!(line.text(), "H: 65%");
}

#[test]
fn scaled_truncates_not_rounds() {
    let line = format_scaled("X", 7, 2, "").unwrap();
    assert_eq!(line.text(), "X3");
    let line = format_scaled("X", 9, 5, "").unwrap();
    assert_eq!(line.text(), "X1");
}

#[test]
fn scaled_round_trip_recovers_quotient() {
    let value: u32 = 200;
    let divisor: u32 = 8;
    let line = format_scaled("T:", value, divisor, "C").unwrap();
    let text = line.text();
    let numeric: String = text.chars().filter(|c| c.is_ascii_digit()).collect();
    assert_eq!(numeric.parse::<u32>().unwrap(), value / divisor);
}

#[test]
fn scaled_overflowing_line_is_fatal() {
    assert!(format_scaled("a label too wide for it", 1, 1, "").is_err());
}

#[test]
fn scaled_line_of_exactly_capacity_fits() {
    let label = "abcdefghijklmno";
    assert_eq!(label.len(), 15);
    let line = format_scaled(label, 7, 1, "").unwrap();
    assert_eq!(line.text(), "abcdefghijklmno7");
    assert_eq!(line.text().len(), 16);
    assert!(format_scaled(label, 7, 1, "%").is_err());
    assert!(format_scaled(label, 77, 1, "").is_err());
}

#[test]
fn scaled_round_trip_sweeps_values() {
    for &(value, divisor) in
        &[(0u32, 1u32), (1, 2), (131, 2), (200, 8), (255, 8), (9999, 5), (u32::MAX, 3)]
    {
        let line = format_scaled("V:", value, divisor, "u").unwrap();
        let text = line.text();
        let numeric: String = text.chars().filter(|c| c.is_ascii_digit()).collect();
        assert_eq!(numeric.parse::<u32>().unwrap(), value / divisor);
    }
}

#[test]
fn padded4_pads_to_four_digits() {
    assert_eq!(format_padded4("C: ", 300).unwrap().text(), "C: 0300");
    assert_eq!(format_padded4("R: ", 50).unwrap().text(), "R: 0050");
    assert_eq!(format_padded4("G: ", 60).unwrap().text(), "G: 0060");
    assert_eq!(format_padded4("B: ", 70).unwrap().text(), "B: 0070");
}

#[test]
fn padded4_keeps_wider_values() {
    assert_eq!(format_padded4("C: ", 12345).unwrap().text(), "C: 12345");
    assert_eq!(format_padded4("C: ", 0).unwrap().text(), "C: 0000");
}

#[test]
fn fixed4_matches_float_formatting() {
    let line = format_fixed4("G_x", -5000).unwrap();
    assert_eq!(line.text(), "G_x: -0.5000");
    let reference = format!("{}: {:.04}", "G_x", -0.5f32);
    assert_eq!(line.text(), reference.as_str());
}

#[test]
fn fixed4_always_shows_four_decimals() {
    assert_eq!(format_fixed4("G_y", 1).unwrap().text(), "G_y: 0.0001");
    assert_eq!(format_fixed4("G_z", 123456).unwrap().text(), "G_z: 12.3456");
    assert_eq!(format_fixed4("G_x", 0).unwrap().text(), "G_x: 0.0000");
    for t in [-98765i32, -1, 0, 1, 9999, 10000, 2147483647] {
        let line = format_fixed4("G_x", t).unwrap();
        let text = line.text();
        let dot = text.rfind('.').unwrap();
        let frac = &text[dot + 1..];
        assert_eq!(frac.len(), 4);
        assert!(frac.chars().all(|c| c.is_ascii_digit()));
    }
}

#[test]
fn fixed4_widest_value_just_fits() {
    assert_eq!(format_fixed4("G_x", i32::MAX).unwrap().text(), "G_x: 214748.3647");
}

#[test]
fn fixed4_overflowing_line_is_fatal() {
    assert!(format_fixed4("G_x", i32::MIN).is_err());
}
