use can_daq::text::numbered_title;
use can_daq::text::output_file_name;
use can_daq::text::seconds_5dp;
use can_daq::text::u64_to_dec;
use can_daq::text::u64_to_dec3;

#[test]
fn decimal_rendering() {
    assert_eq!(u64_to_dec(0), "0");
    assert_eq!(u64_to_dec(7), "7");
    assert_eq!(u64_to_dec(10), "10");
    assert_eq!(u64_to_dec(1234567890), "1234567890");
    assert_eq!(u64_to_dec(u64::MAX), "18446744073709551615");
}

#[test]
fn three_digit_rendering_pads_with_zeroes() {
    assert_eq!(u64_to_dec3(0), "000");
    assert_eq!(u64_to_dec3(7), "007");
    assert_eq!(u64_to_dec3(45), "045");
    assert_eq!(u64_to_dec3(999), "999");
}

#[test]
fn seconds_rendering_has_five_decimals() {
    assert_eq!(seconds_5dp(0), "0.00000");
    assert_eq!(seconds_5dp(1000), "1.00000");
    assert_eq!(seconds_5dp(15), "0.01500");
    assert_eq!(seconds_5dp(1005), "1.00500");
    assert_eq!(seconds_5dp(999), "0.99900");
    assert_eq!(seconds_5dp(123456), "123.45600");
}

#[test]
fn output_files_are_numbered_sequentially() {
    assert_eq!(output_file_name(0), "out_0.csv");
    assert_eq!(output_file_name(1), "out_1.csv");
    assert_eq!(output_file_name(42), "out_42.csv");
}

#[test]
fn titles_carry_the_instance_number() {
    assert_eq!(numbered_title("Log Parser #", 3), "Log Parser #3");
    assert_eq!(numbered_title("Bootloader #", 10), "Bootloader #10");
}
