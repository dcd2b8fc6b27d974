use ray_tracer::text;

#[test]
fn decimal_of_zero_is_one_digit() {
    assert_eq!(text::decimal_string(0), "0");
}

#[test]
fn decimal_of_small_numbers() {
    assert_eq!(text::decimal_string(7), "7");
    assert_eq!(text::decimal_string(10), "10");
    assert_eq!(text::decimal_string(255), "255");
    assert_eq!(text::decimal_string(1200), "1200");
}

#[test]
fn decimal_of_a_large_count() {
    assert_eq!(
        text::decimal_string(340_282_366_920_938_463_463_374_607_431_768_211_455),
        "340282366920938463463374607431768211455"
    );
}

#[test]
fn elapsed_line_names_row_and_nanoseconds() {
    assert_eq!(
        text::format_elapsed(5, 123_456_789),
        "time elapsed on 5 123456789ns"
    );
    assert_eq!(text::format_elapsed(0, 0), "time elapsed on 0 0ns");
}
