use udp_throughput::rate::{parse_rate, size_in_bytes};
use udp_throughput::report::{
    bit_rate_text, byte_loss, format_loss, signed_size_text, format_throughput, loss_parts_per_million,
    throughput_bits_per_second, ByteLoss, Report,
};

#[test]
fn loss_of_five_percent() {
    assert_eq!(loss_parts_per_million(1_000_000, 950_000), Some(50_000));
    let report = Report { bytes_transmitted: 1_000_000, bytes_received: 950_000, elapsed_nanos: 1 };
    assert_eq!(report.loss(), ByteLoss::Lost(50_000));
    let fraction = 1.0 - (report.bytes_received as f64) / (report.bytes_transmitted as f64);
    assert!((fraction - 0.05).abs() < 1e-12);
    let ppm = report.loss_parts_per_million().unwrap() as f64 / 1e6;
    assert!((ppm - 0.05).abs() < 1e-12);
}

#[test]
fn loss_edge_cases() {
    assert_eq!(loss_parts_per_million(0, 0), None);
    assert_eq!(loss_parts_per_million(0, 10), None);
    assert_eq!(loss_parts_per_million(1000, 1000), Some(0));
    assert_eq!(loss_parts_per_million(1000, 1500), Some(-500_000));
    assert_eq!(loss_parts_per_million(3, 2), Some(333_333));
    assert_eq!(byte_loss(10, 25), ByteLoss::Surplus(15));
    assert_eq!(loss_parts_per_million(u64::MAX, 0), Some(1_000_000));
}

#[test]
fn throughput_in_bits_per_second() {
    assert_eq!(throughput_bits_per_second(1_000_000, 1_000_000_000), 8_000_000);
    assert_eq!(throughput_bits_per_second(1_000, 2_000_000_000), 4_000);
    assert_eq!(throughput_bits_per_second(0, 0), 0);
    assert_eq!(throughput_bits_per_second(5, 0), u64::MAX);
    assert_eq!(throughput_bits_per_second(u64::MAX, 1), u64::MAX);
    let report = Report { bytes_transmitted: 2_000, bytes_received: 1_000, elapsed_nanos: 1_000_000_000 };
    assert_eq!(report.sending_bits_per_second(), 16_000);
    assert_eq!(report.receiving_bits_per_second(), 8_000);
}

#[test]
fn throughput_text() {
    assert_eq!(format_throughput(1_000_000_000, 1_000_000), "8.0 Mbit/s");
    assert_eq!(format_throughput(1_000_000_000, 100), "800 bit/s");
}

#[test]
fn loss_text() {
    assert_eq!(format_loss(1_000_000, 950_000), bytesize::to_string(50_000, true));
    assert_eq!(format_loss(1_000, 1_000), "0 B");
    assert_eq!(format_loss(1_000, 1_010), "-10 B");
}

#[test]
fn rates_in_bytes_and_bits() {
    assert_eq!(parse_rate("1000"), Ok(1000));
    assert_eq!(parse_rate("1000/s"), Ok(1000));
    assert_eq!(parse_rate("1 MiB"), Ok(1_048_576));
    assert_eq!(parse_rate("1 MiB/s"), Ok(1_048_576));
    assert_eq!(parse_rate("8 Mbit/s"), Ok(1_000_000));
    assert_eq!(parse_rate("8 Mbit"), Ok(1_000_000));
    assert_eq!(parse_rate("12bit"), Ok(1));
    assert!(parse_rate("fast").is_err());
    assert!(parse_rate("/s").is_err());
}

#[test]
fn size_text_becomes_bit_rate_text() {
    assert_eq!(bit_rate_text(String::from("8.0 MB")), "8.0 Mbit/s");
    assert_eq!(bit_rate_text(String::from("12 B")), "12 bit/s");
    assert_eq!(signed_size_text(String::from("1.5 KiB"), true), "-1.5 KiB");
    assert_eq!(signed_size_text(String::from("1.5 KiB"), false), "1.5 KiB");
}

#[test]
fn sizes_in_bits_become_bytes() {
    assert_eq!(size_in_bytes(8_000_000, true), 1_000_000);
    assert_eq!(size_in_bytes(15, true), 1);
    assert_eq!(size_in_bytes(15, false), 15);
}

#[test]
fn rate_error_is_the_size_parser_message() {
    let expected = "fast".parse::<bytesize::ByteSize>().unwrap_err();
    assert_eq!(parse_rate("fast/s"), Err(expected));
    let expected = "x ".parse::<bytesize::ByteSize>().unwrap_err();
    assert_eq!(parse_rate("x bit"), Err(expected));
}

#[test]
fn more_bytes_never_lower_bit_rate() {
    let e = 2_000_000_000;
    assert!(throughput_bits_per_second(1472, e) > 0);
    assert!(throughput_bits_per_second(1_000_000, e) <= throughput_bits_per_second(1_001_472, e));
    assert_eq!(throughput_bits_per_second(1, 8_000_000_000), 1);
}
